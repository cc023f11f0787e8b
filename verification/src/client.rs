//! A client of tunelithd: the calls it waits for and the streams it takes.

use vstd::prelude::*;

use crate::daemon::acquire;
use crate::daemon::acquire::{Daemon, HeldDevice};
use crate::error::{of_kind_with, Detail, Error, ErrorKind, IoError};
use crate::lists;
use crate::proto;
use crate::proto::{
    envelope, AcquireRequest, AcquireResponse, Body, Device, Envelope, Hello, Params, Role, Tuner,
};
use crate::types::{DeviceInfo, Signal, System, TuneParams, TunerInfo};

verus! {

/// A device tunelithd holds.
#[derive(Clone, Debug)]
pub struct DeviceStatus {
    /// The id and the name of the device.
    pub info: DeviceInfo,
    /// The tuners of the device.
    pub tuners: Vec<TunerStatus>,
}

/// A tuner of a [`DeviceStatus`].
#[derive(Clone, Debug)]
pub struct TunerStatus {
    /// The id of the tuner, to pass as [`AcquireOptions::tuner`], and the
    /// systems it receives.
    pub info: TunerInfo,
    /// Whether a stream holds the tuner.
    pub busy: bool,
}

/// How to acquire a stream; the default takes any tuner, with the LNB off.
#[derive(Clone, Debug)]
pub struct AcquireOptions {
    /// The id of the tuner to use, as in [`TunerInfo::id`]; any free one
    /// receiving the system if `None`.
    pub tuner: Option<String>,
    /// Powers the LNB of the antenna, for a satellite system when no other
    /// equipment feeds it.
    pub lnb: bool,
}

impl Default for AcquireOptions {
    fn default() -> (r: Self)
        ensures
            r.tuner is None,
            !r.lnb,
    {
        AcquireOptions { tuner: None, lnb: false }
    }
}

/// What tunelithd says is wrong.
pub fn remote(message: String) -> (r: Error)
    ensures
        r == Error::Io(IoError { kind: ErrorKind::Other, detail: Detail::Owned(message) }),
{
    Error::Io(IoError { kind: ErrorKind::Other, detail: Detail::Owned(message) })
}

/// The connection is gone.
pub open spec fn closed_error() -> Error {
    of_kind_with(ErrorKind::BrokenPipe, "tunelithd closed the connection")
}

/// The connection is gone.
#[verifier::when_used_as_spec(closed_error)]
pub fn closed() -> (r: Error)
    ensures
        r == closed_error(),
{
    of_kind_with(ErrorKind::BrokenPipe, "tunelithd closed the connection")
}

/// tunelithd answers what was not asked.
pub open spec fn unexpected_error() -> Error {
    of_kind_with(ErrorKind::InvalidData, "unexpected response from tunelithd")
}

/// tunelithd answers what was not asked.
#[verifier::when_used_as_spec(unexpected_error)]
pub fn unexpected() -> (r: Error)
    ensures
        r == unexpected_error(),
{
    of_kind_with(ErrorKind::InvalidData, "unexpected response from tunelithd")
}

/// The hello that opens a connection as `role`.
pub fn hello(role: Role) -> (r: Envelope)
    ensures
        r == (Envelope {
            id: 0,
            body: Some(Body::Hello(Hello { version: proto::VERSION, role: Some(role) })),
        }),
{
    envelope(0, Body::Hello(Hello { version: proto::VERSION, role: Some(role) }))
}

/// Takes the first message of tunelithd on a connection; whether it is open.
pub fn connected(first: Option<Envelope>) -> (r: Result<(), Error>)
    ensures
        match first {
            Some(Envelope { body: Some(Body::Hello(hello)), .. }) => if hello.version
                == proto::VERSION {
                r is Ok
            } else {
                r == Err::<(), Error>(unexpected())
            },
            Some(Envelope { body: Some(Body::Error(message)), .. }) => {
                r == Err::<(), Error>(
                    Error::Io(
                        IoError { kind: ErrorKind::Other, detail: Detail::Owned(message) },
                    ),
                )
            },
            _ => r == Err::<(), Error>(unexpected()),
        },
{
    match first {
        Some(Envelope { body: Some(Body::Hello(hello)), .. }) => {
            if hello.version == proto::VERSION {
                Ok(())
            } else {
                Err(unexpected())
            }
        },
        Some(Envelope { body: Some(Body::Error(message)), .. }) => Err(remote(message)),
        _ => Err(unexpected()),
    }
}

/// Takes the answer to a call: tunelithd may say that it failed.
pub fn answered(body: Body) -> (r: Result<Body, Error>)
    ensures
        match body {
            Body::Error(message) => r == Err::<Body, Error>(
                Error::Io(IoError { kind: ErrorKind::Other, detail: Detail::Owned(message) }),
            ),
            _ => r == Ok::<Body, Error>(body),
        },
{
    match body {
        Body::Error(message) => Err(remote(message)),
        body => Ok(body),
    }
}

/// The request for a stream of what `params` tunes to.
pub fn request(params: TuneParams, options: AcquireOptions) -> (r: Result<AcquireRequest, Error>)
    ensures
        r is Ok <==> params.valid(),
        r matches Ok(request) ==> {
            &&& request.params == proto::params_to_wire(params)
            &&& request.lnb == options.lnb
            &&& match options.tuner {
                Some(tuner) => request.tuner@ == tuner@,
                None => request.tuner@.len() == 0,
            }
        },
        params.system.satellite() && params.stream_id is None ==> r == Err::<AcquireRequest, Error>(
            Error::InvalidParams("a satellite stream needs a stream id"),
        ),
        !params.system.satellite() && params.stream_id is Some ==> r == Err::<
            AcquireRequest,
            Error,
        >(Error::InvalidParams("ISDB-T takes no stream id")),
{
    match params.validate() {
        Ok(_) => {},
        Err(e) => return Err(e),
    }
    let tuner: String = match options.tuner {
        Some(tuner) => tuner,
        None => String::new(),
    };
    Ok(AcquireRequest { params: Params::of(params), tuner, lnb: options.lnb })
}

/// The systems the codes stand for, but for those that stand for none.
pub open spec fn systems_of(codes: Seq<proto::SystemCode>) -> Seq<System>
    decreases codes.len(),
{
    if codes.len() == 0 {
        Seq::empty()
    } else {
        let rest = systems_of(codes.drop_last());
        match proto::system_of(codes.last()) {
            Some(system) => rest.push(system),
            None => rest,
        }
    }
}

/// Whether a status tells what a list told of a tuner.
pub open spec fn tuner_told(status: TunerStatus, tuner: Tuner) -> bool {
    &&& status.info.id@ == tuner.id@
    &&& status.info.systems@ == systems_of(tuner.systems@)
    &&& status.busy == tuner.busy
}

/// Whether a status tells what a list told of a device.
pub open spec fn device_told(status: DeviceStatus, device: Device) -> bool {
    &&& status.info.id@ == device.id@
    &&& status.info.name@ == device.name@
    &&& status.tuners@.len() == device.tuners@.len()
    &&& forall|j: int|
        0 <= j < device.tuners@.len() ==> tuner_told(
            #[trigger] status.tuners@[j],
            device.tuners@[j],
        )
}

fn tuner_status(tuner: &Tuner) -> (r: TunerStatus)
    ensures
        tuner_told(r, *tuner),
{
    let mut systems: Vec<System> = Vec::new();
    let mut i: usize = 0;
    while i < tuner.systems.len()
        invariant
            i <= tuner.systems@.len(),
            systems@ == systems_of(tuner.systems@.take(i as int)),
        decreases tuner.systems@.len() - i,
    {
        proof {
            assert(tuner.systems@.take(i + 1).drop_last() =~= tuner.systems@.take(i as int));
            assert(tuner.systems@.take(i + 1).last() == tuner.systems@[i as int]);
        }
        match proto::system(tuner.systems[i]) {
            Some(system) => systems.push(system),
            None => {},
        }
        i = i + 1;
    }
    assert(tuner.systems@.take(i as int) =~= tuner.systems@);
    TunerStatus { info: TunerInfo { id: tuner.id.clone(), systems }, busy: tuner.busy }
}

fn device_status(device: &Device) -> (r: DeviceStatus)
    ensures
        device_told(r, *device),
{
    let mut tuners: Vec<TunerStatus> = Vec::new();
    let mut j: usize = 0;
    while j < device.tuners.len()
        invariant
            j <= device.tuners@.len(),
            tuners@.len() == j,
            forall|k: int| 0 <= k < j ==> tuner_told(#[trigger] tuners@[k], device.tuners@[k]),
        decreases device.tuners@.len() - j,
    {
        tuners.push(tuner_status(&device.tuners[j]));
        j = j + 1;
    }
    DeviceStatus { info: DeviceInfo { id: device.id.clone(), name: device.name.clone() }, tuners }
}

/// Takes the answer to a request for the list.
pub fn listed(body: Body) -> (r: Result<Vec<DeviceStatus>, Error>)
    ensures
        match body {
            Body::ListResponse(devices) => r matches Ok(list) && list@.len() == devices@.len() && (
            forall|d: int|
                0 <= d < devices@.len() ==> device_told(#[trigger] list@[d], devices@[d])),
            _ => r == Err::<Vec<DeviceStatus>, Error>(unexpected()),
        },
{
    match body {
        Body::ListResponse(devices) => {
            let mut list: Vec<DeviceStatus> = Vec::new();
            let mut d: usize = 0;
            while d < devices.len()
                invariant
                    d <= devices@.len(),
                    list@.len() == d,
                    forall|k: int| 0 <= k < d ==> device_told(#[trigger] list@[k], devices@[k]),
                decreases devices@.len() - d,
            {
                list.push(device_status(&devices[d]));
                d = d + 1;
            }
            Ok(list)
        },
        _ => Err(unexpected()),
    }
}

/// Takes the answer to a request for a stream.
pub fn acquired(body: Body) -> (r: Result<AcquireResponse, Error>)
    ensures
        match body {
            Body::AcquireResponse(response) => r == Ok::<AcquireResponse, Error>(response),
            _ => r == Err::<AcquireResponse, Error>(unexpected()),
        },
{
    match body {
        Body::AcquireResponse(response) => Ok(response),
        _ => Err(unexpected()),
    }
}

/// Takes the answer to a request for the signal.
pub fn signalled(body: Body) -> (r: Result<Signal, Error>)
    ensures
        match body {
            Body::SignalResponse(signal) => r == Ok::<Signal, Error>(signal),
            _ => r == Err::<Signal, Error>(unexpected()),
        },
{
    match body {
        Body::SignalResponse(signal) => Ok(signal),
        _ => Err(unexpected()),
    }
}

/// How a stream ended, once tunelithd says.
pub enum End {
    /// Not yet.
    Pending,
    /// For the error, if any.
    Ended(Option<String>),
}

/// A stream of the client.
pub struct Taken {
    pub token: u64,
    /// The bytes the stream lost, as tunelithd reports them.
    pub dropped: u64,
    pub end: End,
}

/// What is known of the end of a stream.
pub enum EndView {
    Pending,
    Ended(Option<Seq<char>>),
}

/// What a [`Taken`] is.
pub struct TakenView {
    pub token: u64,
    pub dropped: u64,
    pub end: EndView,
}

impl View for Taken {
    type V = TakenView;

    open spec fn view(&self) -> TakenView {
        TakenView {
            token: self.token,
            dropped: self.dropped,
            end: match self.end {
                End::Pending => EndView::Pending,
                End::Ended(None) => EndView::Ended(None),
                End::Ended(Some(words)) => EndView::Ended(Some(words@)),
            },
        }
    }
}

/// The calls a client waits for and the streams it takes.
pub struct Calls {
    pub next_id: u64,
    /// The ids of the calls waited for.
    pub pending: Vec<u64>,
    pub streams: Vec<Taken>,
}

/// What [`Calls`] are.
#[verifier::ext_equal]
pub struct CallsView {
    pub next_id: u64,
    pub pending: Seq<u64>,
    pub streams: Seq<TakenView>,
}

/// What streams are.
pub open spec fn taken_views(streams: Seq<Taken>) -> Seq<TakenView> {
    streams.map(|i: int, s: Taken| s@)
}

impl View for Calls {
    type V = CallsView;

    open spec fn view(&self) -> CallsView {
        CallsView {
            next_id: self.next_id,
            pending: self.pending@,
            streams: taken_views(self.streams@),
        }
    }
}

pub open spec fn other_id(id: u64) -> spec_fn(u64) -> bool {
    |i: u64| i != id
}

pub open spec fn other_stream(token: u64) -> spec_fn(TakenView) -> bool {
    |s: TakenView| s.token != token
}

/// The calls after one more, which has the id given.
pub open spec fn called(v: CallsView) -> (CallsView, u64) {
    (
        CallsView {
            next_id: v.next_id.wrapping_add(1),
            pending: v.pending.filter(other_id(v.next_id)).push(v.next_id),
            ..v
        },
        v.next_id,
    )
}

/// The streams with one taken anew.
pub open spec fn taken(v: CallsView, token: u64) -> CallsView {
    CallsView {
        streams: v.streams.filter(other_stream(token)).push(
            TakenView { token, dropped: 0, end: EndView::Pending },
        ),
        ..v
    }
}

/// The calls after a stream is released, and the id of the request that releases
/// it, whose answer is not waited for.
pub open spec fn let_go(v: CallsView, token: u64) -> (CallsView, u64) {
    (
        CallsView {
            next_id: v.next_id.wrapping_add(1),
            streams: v.streams.filter(other_stream(token)),
            ..v
        },
        v.next_id,
    )
}

/// The streams with `bytes` more lost of one.
pub open spec fn with_drops(streams: Seq<TakenView>, token: u64, bytes: u64) -> Seq<TakenView> {
    streams.map(
        |i: int, s: TakenView|
            if s.token == token {
                TakenView { dropped: s.dropped.wrapping_add(bytes), ..s }
            } else {
                s
            },
    )
}

/// The streams with one ended.
pub open spec fn with_end(streams: Seq<TakenView>, token: u64, error: Option<Seq<char>>) -> Seq<
    TakenView,
> {
    streams.map(
        |i: int, s: TakenView|
            if s.token == token {
                TakenView { end: EndView::Ended(error), ..s }
            } else {
                s
            },
    )
}

/// The streams all ended, the connection being gone.
pub open spec fn all_ended(streams: Seq<TakenView>) -> Seq<TakenView> {
    streams.map(
        |i: int, s: TakenView|
            TakenView { end: EndView::Ended(Some("tunelithd closed the connection"@)), ..s },
    )
}

/// What is known of the end of the stream of a token.
pub open spec fn end_of(streams: Seq<TakenView>, token: u64) -> Option<EndView>
    decreases streams.len(),
{
    if streams.len() == 0 {
        None
    } else if streams[0].token == token {
        Some(streams[0].end)
    } else {
        end_of(streams.skip(1), token)
    }
}

/// The bytes lost of the stream of a token, as far as they are known.
pub open spec fn dropped_of(streams: Seq<TakenView>, token: u64) -> Option<u64>
    decreases streams.len(),
{
    if streams.len() == 0 {
        None
    } else if streams[0].token == token {
        Some(streams[0].dropped)
    } else {
        dropped_of(streams.skip(1), token)
    }
}

/// What to do with a message of tunelithd.
pub enum Action {
    Nothing,
    /// Wake the read that waits to know how the stream of the token ended.
    Wake(u64),
    /// Hand the body to the call of the id; if that was given up on and the body
    /// is a stream, release it.
    Reply(u64, Body),
}

/// The words of an error, none for an empty one.
pub open spec fn words(error: Seq<char>) -> Option<Seq<char>> {
    if error.len() == 0 {
        None
    } else {
        Some(error)
    }
}

/// The calls after a message of tunelithd, and what to do with it.
pub open spec fn received(v: CallsView, message: Envelope) -> (CallsView, Action) {
    match message.body {
        None => (v, Action::Nothing),
        Some(Body::DropEvent(drops)) => (
            CallsView {
                streams: with_drops(v.streams, drops.stream_token, drops.dropped_bytes),
                ..v
            },
            Action::Nothing,
        ),
        Some(Body::StreamEndEvent(end)) => (
            CallsView {
                streams: with_end(v.streams, end.stream_token, words(end.error@)),
                ..v
            },
            Action::Wake(end.stream_token),
        ),
        Some(body) => if v.pending.contains(message.id) {
            (
                CallsView { pending: v.pending.filter(other_id(message.id)), ..v },
                Action::Reply(message.id, body),
            )
        } else {
            (v, Action::Nothing)
        },
    }
}

fn ids_but(ids: &Vec<u64>, id: u64) -> (r: Vec<u64>)
    ensures
        r@ == ids@.filter(other_id(id)),
{
    let mut kept: Vec<u64> = Vec::new();
    let mut i: usize = 0;
    proof {
        reveal(Seq::filter);
        assert(ids@.take(0).filter(other_id(id)) =~= Seq::empty());
    }
    while i < ids.len()
        invariant
            i <= ids@.len(),
            kept@ == ids@.take(i as int).filter(other_id(id)),
        decreases ids@.len() - i,
    {
        proof {
            lists::filter_one_more(ids@, other_id(id), i as int);
        }
        if ids[i] != id {
            kept.push(ids[i]);
        }
        i = i + 1;
    }
    assert(ids@.take(i as int) =~= ids@);
    kept
}

fn waits_for(ids: &Vec<u64>, id: u64) -> (r: bool)
    ensures
        r == ids@.contains(id),
{
    let mut i: usize = 0;
    while i < ids.len()
        invariant
            i <= ids@.len(),
            forall|k: int| 0 <= k < i ==> ids@[k] != id,
        decreases ids@.len() - i,
    {
        if ids[i] == id {
            assert(ids@[i as int] == id);
            return true;
        }
        i = i + 1;
    }
    false
}

impl Calls {
    /// No call made and no stream taken.
    pub fn new() -> (r: Self)
        ensures
            r@ == (CallsView { next_id: 1, pending: Seq::empty(), streams: Seq::empty() }),
    {
        let r: Calls = Calls { next_id: 1, pending: Vec::new(), streams: Vec::new() };
        assert(r@.streams =~= Seq::empty());
        r
    }

    /// Makes a call; its id.
    pub fn call(&mut self) -> (r: u64)
        ensures
            (final(self)@, r) == called(old(self)@),
    {
        let id: u64 = self.next_id;
        self.next_id = self.next_id.wrapping_add(1);
        self.pending = ids_but(&self.pending, id);
        self.pending.push(id);
        id
    }

    fn forget(&mut self, token: u64)
        ensures
            final(self)@ == (CallsView {
                streams: old(self)@.streams.filter(other_stream(token)),
                ..old(self)@
            }),
    {
        let ghost all = self@.streams;
        let mut kept: Vec<Taken> = Vec::new();
        let mut rest: Vec<Taken> = Vec::new();
        std::mem::swap(&mut rest, &mut self.streams);
        let n: usize = rest.len();
        let mut i: usize = 0;
        proof {
            reveal(Seq::filter);
            assert(all.take(0).filter(other_stream(token)) =~= Seq::empty());
            assert(taken_views(kept@) =~= Seq::empty());
        }
        while i < n
            invariant
                i <= n,
                n == all.len(),
                rest@.len() == n - i,
                forall|k: int| 0 <= k < rest@.len() ==> (#[trigger] rest@[k])@ == all[i + k],
                taken_views(kept@) == all.take(i as int).filter(other_stream(token)),
            decreases n - i,
        {
            proof {
                lists::filter_one_more(all, other_stream(token), i as int);
                assert(rest@[0]@ == all[i as int]);
            }
            let ghost before = rest@;
            let stream: Taken = rest.remove(0);
            let ghost so_far = taken_views(kept@);
            if stream.token != token {
                kept.push(stream);
                assert(taken_views(kept@) =~= so_far.push(all[i as int]));
            }
            proof {
                assert forall|k: int| 0 <= k < rest@.len() implies (#[trigger] rest@[k])@ == all[i
                    + 1 + k] by {
                    assert(rest@[k] == before[k + 1]);
                }
            }
            i = i + 1;
        }
        assert(all.take(i as int) =~= all);
        self.streams = kept;
    }

    /// Takes a stream, of which tunelithd may report from now on.
    pub fn take(&mut self, token: u64)
        ensures
            final(self)@ == taken(old(self)@, token),
    {
        self.forget(token);
        let ghost so_far = self@.streams;
        self.streams.push(Taken { token, dropped: 0, end: End::Pending });
        assert(self@.streams =~= so_far.push(
            TakenView { token, dropped: 0, end: EndView::Pending },
        ));
    }

    /// Releases a stream, not waiting for the answer; the request to send.
    pub fn release(&mut self, token: u64) -> (r: Envelope)
        ensures
            r == (Envelope {
                id: let_go(old(self)@, token).1,
                body: Some(Body::ReleaseRequest(token)),
            }),
            final(self)@ == let_go(old(self)@, token).0,
    {
        self.forget(token);
        let id: u64 = self.next_id;
        self.next_id = self.next_id.wrapping_add(1);
        envelope(id, Body::ReleaseRequest(token))
    }

    fn count_drops(&mut self, token: u64, bytes: u64)
        ensures
            final(self)@ == (CallsView {
                streams: with_drops(old(self)@.streams, token, bytes),
                ..old(self)@
            }),
    {
        let ghost all = self@.streams;
        let n: usize = self.streams.len();
        let mut i: usize = 0;
        while i < n
            invariant
                i <= n,
                n == self.streams@.len(),
                all.len() == n,
                self.next_id == old(self).next_id,
                self.pending == old(self).pending,
                forall|k: int|
                    0 <= k < i ==> (#[trigger] self.streams@[k])@ == with_drops(
                        all,
                        token,
                        bytes,
                    )[k],
                forall|k: int| i <= k < n ==> (#[trigger] self.streams@[k])@ == all[k],
            decreases n - i,
        {
            assert(self.streams@[i as int]@ == all[i as int]);
            if self.streams[i].token == token {
                self.streams[i].dropped = self.streams[i].dropped.wrapping_add(bytes);
            }
            i = i + 1;
        }
        assert(self@.streams =~= with_drops(all, token, bytes));
    }

    fn set_end(&mut self, token: u64, error: Option<&String>)
        ensures
            final(self)@ == (CallsView {
                streams: with_end(
                    old(self)@.streams,
                    token,
                    match error {
                        Some(words) => Some(words@),
                        None => None,
                    },
                ),
                ..old(self)@
            }),
    {
        let ghost all = self@.streams;
        let ghost told = match error {
            Some(words) => Some(words@),
            None => None,
        };
        let n: usize = self.streams.len();
        let mut i: usize = 0;
        while i < n
            invariant
                i <= n,
                n == self.streams@.len(),
                all.len() == n,
                self.next_id == old(self).next_id,
                self.pending == old(self).pending,
                told == (match error {
                    Some(words) => Some(words@),
                    None => None,
                }),
                forall|k: int|
                    0 <= k < i ==> (#[trigger] self.streams@[k])@ == with_end(all, token, told)[k],
                forall|k: int| i <= k < n ==> (#[trigger] self.streams@[k])@ == all[k],
            decreases n - i,
        {
            assert(self.streams@[i as int]@ == all[i as int]);
            if self.streams[i].token == token {
                let end: End = match error {
                    Some(words) => End::Ended(Some(words.clone())),
                    None => End::Ended(None),
                };
                self.streams[i].end = end;
            }
            i = i + 1;
        }
        assert(self@.streams =~= with_end(all, token, told));
    }

    /// Takes a message of tunelithd; what to do with it.
    pub fn receive(&mut self, message: Envelope) -> (r: Action)
        ensures
            (final(self)@, r) == received(old(self)@, message),
    {
        match message.body {
            None => Action::Nothing,
            Some(Body::DropEvent(drops)) => {
                self.count_drops(drops.stream_token, drops.dropped_bytes);
                Action::Nothing
            },
            Some(Body::StreamEndEvent(end)) => {
                if end.error.as_str().is_empty() {
                    self.set_end(end.stream_token, None);
                } else {
                    self.set_end(end.stream_token, Some(&end.error));
                }
                Action::Wake(end.stream_token)
            },
            Some(body) => {
                if waits_for(&self.pending, message.id) {
                    self.pending = ids_but(&self.pending, message.id);
                    Action::Reply(message.id, body)
                } else {
                    Action::Nothing
                }
            },
        }
    }

    /// Takes back an answer nobody waits for any more: a stream acquired is released,
    /// there being nobody else to do it.
    pub fn given_up(&mut self, body: Body) -> (r: Option<Envelope>)
        ensures
            match body {
                Body::AcquireResponse(response) => {
                    &&& r == Some(
                        Envelope {
                            id: let_go(old(self)@, response.stream_token).1,
                            body: Some(Body::ReleaseRequest(response.stream_token)),
                        },
                    )
                    &&& final(self)@ == let_go(old(self)@, response.stream_token).0
                },
                _ => r is None && final(self)@ == old(self)@,
            },
    {
        match body {
            Body::AcquireResponse(response) => Some(self.release(response.stream_token)),
            _ => None,
        }
    }

    /// Takes note that the connection is gone, which fails the calls and the
    /// streams left waiting.
    pub fn lose(&mut self)
        ensures
            final(self)@ == (CallsView {
                pending: Seq::empty(),
                streams: all_ended(old(self)@.streams),
                ..old(self)@
            }),
    {
        self.pending = Vec::new();
        let ghost all = self@.streams;
        let n: usize = self.streams.len();
        let mut i: usize = 0;
        while i < n
            invariant
                i <= n,
                n == self.streams@.len(),
                all.len() == n,
                self.next_id == old(self).next_id,
                self.pending@.len() == 0,
                forall|k: int|
                    0 <= k < i ==> (#[trigger] self.streams@[k])@ == all_ended(all)[k],
                forall|k: int| i <= k < n ==> (#[trigger] self.streams@[k])@ == all[k],
            decreases n - i,
        {
            assert(self.streams@[i as int]@ == all[i as int]);
            self.streams[i].end = End::Ended(Some("tunelithd closed the connection".to_owned()));
            i = i + 1;
        }
        assert(self@.streams =~= all_ended(all));
    }

    /// The bytes lost so far of the stream of a token.
    pub fn dropped_bytes(&self, token: u64) -> (r: Option<u64>)
        ensures
            r == dropped_of(self@.streams, token),
    {
        let ghost all = self@.streams;
        let mut i: usize = 0;
        assert(all.skip(0) =~= all);
        while i < self.streams.len()
            invariant
                i <= self.streams@.len(),
                all == self@.streams,
                dropped_of(all, token) == dropped_of(all.skip(i as int), token),
            decreases self.streams@.len() - i,
        {
            assert(all.skip(i as int)[0] == self.streams@[i as int]@);
            if self.streams[i].token == token {
                return Some(self.streams[i].dropped);
            }
            assert(all.skip(i as int).skip(1) =~= all.skip(i + 1));
            i = i + 1;
        }
        None
    }

    /// What a read that finds the end of the data of a stream gives: nothing yet
    /// while tunelithd has not said how the stream ended, an error if it failed,
    /// and the end otherwise.
    pub fn at_end(&self, token: u64) -> (r: Option<Result<(), Error>>)
        ensures
            match end_of(self@.streams, token) {
                Some(EndView::Pending) => r is None,
                Some(EndView::Ended(Some(error))) => {
                    &&& r matches Some(Err(Error::Io(io)))
                    &&& io.kind == ErrorKind::Other
                    &&& io.detail matches Detail::Owned(words)
                    &&& words@ == error
                },
                Some(EndView::Ended(None)) => r matches Some(Ok(_)),
                None => r matches Some(Ok(_)),
            },
    {
        let ghost all = self@.streams;
        let mut i: usize = 0;
        assert(all.skip(0) =~= all);
        while i < self.streams.len()
            invariant
                i <= self.streams@.len(),
                all == self@.streams,
                end_of(all, token) == end_of(all.skip(i as int), token),
            decreases self.streams@.len() - i,
        {
            assert(all.skip(i as int)[0] == self.streams@[i as int]@);
            if self.streams[i].token == token {
                return match &self.streams[i].end {
                    End::Pending => None,
                    End::Ended(Some(error)) => Some(Err(remote(error.clone()))),
                    End::Ended(None) => Some(Ok(())),
                };
            }
            assert(all.skip(i as int).skip(1) =~= all.skip(i + 1));
            i = i + 1;
        }
        Some(Ok(()))
    }
}

/// A call is answered once: its answer is no longer waited for after it came.
pub proof fn answers_come_once(v: CallsView, message: Envelope)
    ensures
        received(v, message).1 matches Action::Reply(id, _) ==> {
            &&& id == message.id
            &&& v.pending.contains(id)
            &&& !received(v, message).0.pending.contains(id)
        },
{
    lists::filter_facts(v.pending, other_id(message.id), |i: u64| i);
}

proof fn end_after(
    streams: Seq<TakenView>,
    token: u64,
    error: Option<Seq<char>>,
)
    ensures
        end_of(streams, token) is Some ==> end_of(with_end(streams, token, error), token) == Some(
            EndView::Ended(error),
        ),
        end_of(streams, token) is None ==> end_of(with_end(streams, token, error), token) is None,
    decreases streams.len(),
{
    if streams.len() > 0 {
        let after = with_end(streams, token, error);
        assert(after.skip(1) =~= with_end(streams.skip(1), token, error));
        if streams[0].token != token {
            end_after(streams.skip(1), token, error);
        }
    }
}

/// Once tunelithd says how a stream ended, its reader learns just that.
pub proof fn ends_are_told(v: CallsView, id: u64, token: u64, error: String)
    requires
        end_of(v.streams, token) is Some,
    ensures
        end_of(
            received(
                v,
                Envelope {
                    id,
                    body: Some(
                        Body::StreamEndEvent(proto::StreamEnd { stream_token: token, error }),
                    ),
                },
            ).0.streams,
            token,
        ) == Some(EndView::Ended(words(error@))),
{
    end_after(v.streams, token, words(error@));
}

proof fn filtered_out(streams: Seq<TakenView>, token: u64)
    ensures
        end_of(streams.filter(other_stream(token)), token) is None,
        dropped_of(streams.filter(other_stream(token)), token) is None,
    decreases streams.len(),
{
    let out = streams.filter(other_stream(token));
    lists::filter_facts(streams, other_stream(token), |s: TakenView| s.token);
    none_has(out, token);
}

proof fn none_has(streams: Seq<TakenView>, token: u64)
    requires
        forall|s: TakenView| #[trigger] streams.contains(s) ==> s.token != token,
    ensures
        end_of(streams, token) is None,
        dropped_of(streams, token) is None,
    decreases streams.len(),
{
    if streams.len() > 0 {
        assert(streams.contains(streams[0]));
        let rest = streams.skip(1);
        assert forall|s: TakenView| #[trigger] rest.contains(s) implies s.token != token by {
            let i = choose|i: int| 0 <= i < rest.len() && rest[i] == s;
            assert(streams[i + 1] == s);
            assert(streams.contains(s));
        }
        none_has(rest, token);
    }
}

proof fn found_last(streams: Seq<TakenView>, s: TakenView)
    requires
        end_of(streams, s.token) is None,
    ensures
        end_of(streams.push(s), s.token) == Some(s.end),
        dropped_of(streams.push(s), s.token) == Some(s.dropped),
    decreases streams.len(),
{
    let out = streams.push(s);
    if streams.len() > 0 {
        assert(streams[0].token != s.token);
        assert(out.skip(1) =~= streams.skip(1).push(s));
        found_last(streams.skip(1), s);
    }
}

/// A stream taken has lost nothing and goes on; once it is released nothing of it
/// is known any more.
pub proof fn streams_come_and_go(v: CallsView, token: u64)
    ensures
        dropped_of(taken(v, token).streams, token) == Some(0u64),
        end_of(taken(v, token).streams, token) == Some(EndView::Pending),
        end_of(let_go(v, token).0.streams, token) is None,
        dropped_of(let_go(v, token).0.streams, token) is None,
{
    filtered_out(v.streams, token);
    found_last(
        v.streams.filter(other_stream(token)),
        TakenView { token, dropped: 0, end: EndView::Pending },
    );
}

proof fn systems_come_through(systems: Seq<System>)
    ensures
        systems_of(systems.map(|i: int, s: System| proto::system_to_code(s))) == systems,
    decreases systems.len(),
{
    let codes = systems.map(|i: int, s: System| proto::system_to_code(s));
    if systems.len() == 0 {
        assert(systems_of(codes) =~= systems);
    } else {
        let rest = systems.drop_last();
        assert(codes.drop_last() =~= rest.map(|i: int, s: System| proto::system_to_code(s)));
        systems_come_through(rest);
        assert(codes.last() == proto::system_to_code(systems.last()));
        assert(rest.push(systems.last()) =~= systems);
    }
}

/// A client is told of a device as tunelithd holds it: its id and name, and of each
/// tuner the id, what it receives and whether it is in use.
pub proof fn devices_are_told_as_held(
    status: DeviceStatus,
    sent: Device,
    devices: Seq<HeldDevice>,
    busy: Seq<bool>,
    d: int,
)
    requires
        acquire::listed(sent, devices, busy, d),
        device_told(status, sent),
    ensures
        status.info.id@ == devices[d].info.id@,
        status.info.name@ == devices[d].info.name@,
        status.tuners@.len() == devices[d].tuners@.len(),
        forall|j: int|
            0 <= j < devices[d].tuners@.len() ==> {
                let told = #[trigger] status.tuners@[j];
                &&& told.info.id@ == devices[d].tuners@[j].id@
                &&& told.info.systems@ == devices[d].tuners@[j].systems@
                &&& told.busy == busy[Daemon::number(devices, d, j)]
            },
{
    assert forall|j: int| 0 <= j < devices[d].tuners@.len() implies {
        let told = #[trigger] status.tuners@[j];
        &&& told.info.id@ == devices[d].tuners@[j].id@
        &&& told.info.systems@ == devices[d].tuners@[j].systems@
        &&& told.busy == busy[Daemon::number(devices, d, j)]
    } by {
        assert(tuner_told(status.tuners@[j], sent.tuners@[j]));
        assert(acquire::listed_tuner(sent.tuners@[j], devices, busy, d, j));
        systems_come_through(devices[d].tuners@[j].systems@);
    }
}

} // verus!
