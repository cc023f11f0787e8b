//! How a request gets its stream: shared with another, or from a tuner of its own.

use vstd::prelude::*;

use crate::daemon;
use crate::daemon::{Reservation, Session, SessionView, State, StateView};
use crate::error::{Detail, Error, ErrorKind, IoError};
use crate::lists;
use crate::proto;
use crate::proto::{format_code, system_code, AcquireRequest, AcquireResponse, SystemCode};
use crate::text;
use crate::types::{DeviceInfo, StreamFormat, System, TuneParams, TunerInfo};

verus! {

/// A device tunelithd holds.
pub struct HeldDevice {
    pub info: DeviceInfo,
    pub tuners: Vec<TunerInfo>,
}

/// A tuner of all the devices.
pub struct Entry {
    pub device: usize,
    /// The tuner of the device.
    pub index: usize,
    pub id: String,
    pub systems: Vec<System>,
}

/// What an [`Entry`] is.
pub struct TunerView {
    pub device: int,
    pub index: int,
    pub id: Seq<char>,
    pub systems: Seq<System>,
}

impl View for Entry {
    type V = TunerView;

    open spec fn view(&self) -> TunerView {
        TunerView {
            device: self.device as int,
            index: self.index as int,
            id: self.id@,
            systems: self.systems@,
        }
    }
}

/// What entries are.
pub open spec fn entry_views(entries: Seq<Entry>) -> Seq<TunerView> {
    entries.map(|i: int, e: Entry| e@)
}

/// Tuner `index` of device `device`.
pub open spec fn tuner_at(devices: Seq<HeldDevice>, device: int, index: int) -> TunerView {
    TunerView {
        device,
        index,
        id: devices[device].tuners@[index].id@,
        systems: devices[device].tuners@[index].systems@,
    }
}

/// The tuners of the first `n` devices, in order.
pub open spec fn tuners_of(devices: Seq<HeldDevice>, n: int) -> Seq<TunerView>
    decreases n,
{
    if n <= 0 {
        Seq::empty()
    } else {
        tuners_of(devices, n - 1) + Seq::new(
            devices[n - 1].tuners@.len(),
            |j: int| tuner_at(devices, n - 1, j),
        )
    }
}

/// What tunelithd holds: the devices, and the streams on their tuners.
pub struct Daemon {
    pub devices: Vec<HeldDevice>,
    /// The tuners of all the devices, by number.
    pub tuners: Vec<Entry>,
    pub state: State,
}

impl Daemon {
    pub open spec fn wf(self) -> bool {
        &&& entry_views(self.tuners@) == tuners_of(self.devices@, self.devices@.len() as int)
        &&& self.state@.wf()
        &&& self.state@.busy.len() == self.tuners@.len()
    }

    /// The tuners of all the devices, by number.
    pub open spec fn entries(self) -> Seq<TunerView> {
        entry_views(self.tuners@)
    }

    /// Holds devices, no tuner of which is in use.
    pub fn new(devices: Vec<HeldDevice>) -> (r: Self)
        ensures
            r.wf(),
            r.devices == devices,
            r.state@ == daemon::idle(r.tuners@.len()),
    {
        let mut tuners: Vec<Entry> = Vec::new();
        let mut d: usize = 0;
        assert(entry_views(tuners@) =~= tuners_of(devices@, 0));
        while d < devices.len()
            invariant
                d <= devices@.len(),
                entry_views(tuners@) == tuners_of(devices@, d as int),
            decreases devices@.len() - d,
        {
            let n: usize = devices[d].tuners.len();
            let ghost before = entry_views(tuners@);
            let mut j: usize = 0;
            while j < n
                invariant
                    d < devices@.len(),
                    j <= n,
                    n == devices@[d as int].tuners@.len(),
                    entry_views(tuners@) == before + Seq::new(
                        j as nat,
                        |k: int| tuner_at(devices@, d as int, k),
                    ),
                decreases n - j,
            {
                let info: &TunerInfo = &devices[d].tuners[j];
                let entry: Entry = Entry {
                    device: d,
                    index: j,
                    id: info.id.clone(),
                    systems: copy_systems(&info.systems),
                };
                let ghost so_far = entry_views(tuners@);
                tuners.push(entry);
                proof {
                    assert(entry_views(tuners@) =~= so_far.push(
                        tuner_at(devices@, d as int, j as int),
                    ));
                    assert(entry_views(tuners@) =~= before + Seq::new(
                        (j + 1) as nat,
                        |k: int| tuner_at(devices@, d as int, k),
                    ));
                }
                j = j + 1;
            }
            assert(entry_views(tuners@) =~= tuners_of(devices@, d + 1));
            d = d + 1;
        }
        let state: State = State::new(tuners.len());
        Daemon { devices, tuners, state }
    }
}

fn copy_systems(systems: &Vec<System>) -> (r: Vec<System>)
    ensures
        r@ == systems@,
{
    let mut copy: Vec<System> = Vec::new();
    let mut i: usize = 0;
    while i < systems.len()
        invariant
            i <= systems@.len(),
            copy@ =~= systems@.take(i as int),
        decreases systems@.len() - i,
    {
        copy.push(systems[i]);
        i = i + 1;
    }
    assert(systems@.take(i as int) =~= systems@);
    copy
}

/// Whether a tuner is one the request asks for.
pub open spec fn wanted(asked: Seq<char>, id: Seq<char>) -> bool {
    asked.len() == 0 || asked == id
}

/// The tuner of the first stream that can be joined, is tuned to `params` and is on
/// a tuner asked for, if any.
pub open spec fn shared(
    sessions: Seq<SessionView>,
    tuners: Seq<TunerView>,
    params: TuneParams,
    asked: Seq<char>,
) -> Option<usize>
    decreases sessions.len(),
{
    if sessions.len() == 0 {
        None
    } else {
        let s = sessions[0];
        if s.running && s.params == params && wanted(asked, tuners[s.tuner as int].id) {
            Some(s.tuner)
        } else {
            shared(sessions.skip(1), tuners, params, asked)
        }
    }
}

/// Whether a tuner can serve a request.
pub open spec fn serves(tuner: TunerView, system: System, asked: Seq<char>) -> bool {
    tuner.systems.contains(system) && wanted(asked, tuner.id)
}

/// The first `n` tuners that can serve a request, by number.
pub open spec fn candidates(tuners: Seq<TunerView>, system: System, asked: Seq<char>, n: int) -> Seq<
    usize,
>
    decreases n,
{
    if n <= 0 {
        Seq::empty()
    } else {
        let rest = candidates(tuners, system, asked, n - 1);
        if serves(tuners[n - 1], system, asked) {
            rest.push((n - 1) as usize)
        } else {
            rest
        }
    }
}

/// Whether a tuner has the id.
pub open spec fn known(tuners: Seq<TunerView>, id: Seq<char>) -> bool {
    exists|i: int| 0 <= i < tuners.len() && (#[trigger] tuners[i]).id == id
}

/// Why a request gets no stream.
pub enum Refusal {
    /// What it asks to tune to is not valid.
    Params(Error),
    /// No tuner asked for receives the system.
    Unsupported(System),
    /// There is no tuner of the id.
    NotFound(Seq<char>),
    /// Every tuner that could serve is in use, in words.
    Busy(Seq<char>),
}

/// Whether an error tells of a refusal.
pub open spec fn tells(e: Error, why: Refusal) -> bool {
    match why {
        Refusal::Params(reason) => e == reason,
        Refusal::Unsupported(system) => e == Error::Unsupported(system),
        Refusal::NotFound(id) => e matches Error::NotFound(s) && s@ == id,
        Refusal::Busy(words) => {
            &&& e matches Error::Io(io)
            &&& io.kind == ErrorKind::ResourceBusy
            &&& io.detail matches Detail::Owned(s)
            &&& s@ == words
        },
    }
}

/// What keeps parameters from being valid.
pub open spec fn invalid(params: TuneParams) -> Error {
    if params.system.satellite() {
        Error::InvalidParams("a satellite stream needs a stream id")
    } else {
        Error::InvalidParams("ISDB-T takes no stream id")
    }
}

/// How a request is met at first.
pub enum Start {
    Refused(Refusal),
    /// It joins the stream of the tuner.
    Shared(usize),
    /// One of the tuners is to be taken, tuned to the parameters.
    Trying(TuneParams, Seq<usize>),
}

/// How a request is met at first.
pub open spec fn begun(
    sessions: Seq<SessionView>,
    tuners: Seq<TunerView>,
    request: proto::Params,
    asked: Seq<char>,
) -> Start {
    match proto::params_of_wire(request) {
        Err(e) => Start::Refused(Refusal::Params(e)),
        Ok(p) => {
            let params = p.plain();
            if !params.valid() {
                Start::Refused(Refusal::Params(invalid(params)))
            } else {
                match shared(sessions, tuners, params, asked) {
                    Some(tuner) => Start::Shared(tuner),
                    None => {
                        let list = candidates(tuners, params.system, asked, tuners.len() as int);
                        if list.len() > 0 {
                            Start::Trying(params, list)
                        } else if asked.len() == 0 || known(tuners, asked) {
                            Start::Refused(Refusal::Unsupported(params.system))
                        } else {
                            Start::Refused(Refusal::NotFound(asked))
                        }
                    },
                }
            }
        },
    }
}

/// A request on its way to a tuner of its own. A tuner being closed is waited for
/// only once no other is free.
pub struct Acquire {
    pub params: TuneParams,
    pub lnb: bool,
    /// The tuner asked for; empty for any.
    pub tuner: String,
    pub candidates: Vec<usize>,
    /// Whether tuners being closed are waited for.
    pub wait: bool,
    /// The candidate to try next.
    pub next: usize,
}

/// What an [`Acquire`] is.
#[verifier::ext_equal]
pub struct AcquireView {
    pub params: TuneParams,
    pub lnb: bool,
    pub tuner: Seq<char>,
    pub candidates: Seq<usize>,
    pub wait: bool,
    pub next: int,
}

impl View for Acquire {
    type V = AcquireView;

    open spec fn view(&self) -> AcquireView {
        AcquireView {
            params: self.params,
            lnb: self.lnb,
            tuner: self.tuner@,
            candidates: self.candidates@,
            wait: self.wait,
            next: self.next as int,
        }
    }
}

impl AcquireView {
    /// The candidates are tuners there are.
    pub open spec fn fits(self, tuners: nat) -> bool {
        &&& 0 <= self.next <= self.candidates.len()
        &&& forall|i: int| 0 <= i < self.candidates.len() ==> #[trigger] self.candidates[i] < tuners
    }
}

/// How a request is met at first.
pub enum Begun {
    /// It joins the stream of the tuner.
    Shared(usize),
    Trying(Acquire),
}

proof fn candidates_are_tuners(tuners: Seq<TunerView>, system: System, asked: Seq<char>, n: int)
    requires
        0 <= n <= tuners.len(),
        n <= usize::MAX,
    ensures
        forall|i: int|
            0 <= i < candidates(tuners, system, asked, n).len() ==> {
                let c = #[trigger] candidates(tuners, system, asked, n)[i];
                c < n && serves(tuners[c as int], system, asked)
            },
    decreases n,
{
    if n > 0 {
        candidates_are_tuners(tuners, system, asked, n - 1);
        let rest = candidates(tuners, system, asked, n - 1);
        let all = candidates(tuners, system, asked, n);
        assert forall|i: int| 0 <= i < all.len() implies {
            let c = #[trigger] all[i];
            c < n && serves(tuners[c as int], system, asked)
        } by {
            if i < rest.len() {
                assert(all[i] == rest[i]);
            }
        }
    }
}

impl Daemon {
    fn find_shared(&self, params: TuneParams, asked: &String) -> (r: Option<usize>)
        requires
            self.wf(),
        ensures
            r == shared(self.state@.sessions, self.entries(), params, asked@),
    {
        let ghost all = self.state@.sessions;
        let mut i: usize = 0;
        assert(all.skip(0) =~= all);
        while i < self.state.sessions.len()
            invariant
                i <= self.state.sessions@.len(),
                self.wf(),
                all == self.state@.sessions,
                shared(all, self.entries(), params, asked@) == shared(
                    all.skip(i as int),
                    self.entries(),
                    params,
                    asked@,
                ),
            decreases self.state.sessions@.len() - i,
        {
            let s: &Session = &self.state.sessions[i];
            proof {
                assert(all.skip(i as int)[0] == s@);
                assert(all[i as int] == s@);
                assert(all.contains(s@));
                assert(self.entries()[s.tuner as int] == self.tuners@[s.tuner as int]@);
                assert(all.skip(i as int).skip(1) =~= all.skip(i + 1));
            }
            if s.running && s.params == params && (asked.as_str().is_empty() || *asked
                == self.tuners[s.tuner].id) {
                return Some(s.tuner);
            }
            i = i + 1;
        }
        None
    }

    fn find_candidates(&self, system: System, asked: &String) -> (r: Vec<usize>)
        ensures
            r@ == candidates(self.entries(), system, asked@, self.entries().len() as int),
    {
        let mut list: Vec<usize> = Vec::new();
        let mut i: usize = 0;
        while i < self.tuners.len()
            invariant
                i <= self.tuners@.len(),
                list@ == candidates(self.entries(), system, asked@, i as int),
            decreases self.tuners@.len() - i,
        {
            let entry: &Entry = &self.tuners[i];
            assert(self.entries()[i as int] == entry@);
            if receives(&entry.systems, system) && (asked.as_str().is_empty() || *asked == entry.id) {
                list.push(i);
            }
            i = i + 1;
        }
        list
    }

    fn is_known(&self, id: &String) -> (r: bool)
        ensures
            r == known(self.entries(), id@),
    {
        let mut i: usize = 0;
        while i < self.tuners.len()
            invariant
                i <= self.tuners@.len(),
                forall|k: int| 0 <= k < i ==> (#[trigger] self.entries()[k]).id != id@,
            decreases self.tuners@.len() - i,
        {
            assert(self.entries()[i as int] == self.tuners@[i as int]@);
            if self.tuners[i].id == *id {
                return true;
            }
            i = i + 1;
        }
        false
    }

    /// Meets a request: a stream tuned to the same is shared, or else the tuners
    /// that could serve are to be tried.
    pub fn begin(&self, request: &AcquireRequest) -> (r: Result<Begun, Error>)
        requires
            self.wf(),
        ensures
            match begun(self.state@.sessions, self.entries(), request.params, request.tuner@) {
                Start::Refused(why) => r matches Err(e) && tells(e, why),
                Start::Shared(tuner) => r matches Ok(Begun::Shared(t)) && t == tuner,
                Start::Trying(params, list) => r matches Ok(Begun::Trying(a)) && a@ == (
                AcquireView {
                    params,
                    lnb: request.lnb,
                    tuner: request.tuner@,
                    candidates: list,
                    wait: false,
                    next: 0,
                }) && a@.fits(self.entries().len()),
            },
    {
        let params: TuneParams = match request.params.tune_params() {
            Ok(params) => params.normalized(),
            Err(e) => return Err(e),
        };
        match params.validate() {
            Ok(_) => {},
            Err(e) => return Err(e),
        }
        match self.find_shared(params, &request.tuner) {
            Some(tuner) => return Ok(Begun::Shared(tuner)),
            None => {},
        }
        let list: Vec<usize> = self.find_candidates(params.system, &request.tuner);
        if list.len() == 0 {
            return Err(
                if request.tuner.as_str().is_empty() || self.is_known(&request.tuner) {
                    Error::Unsupported(params.system)
                } else {
                    Error::NotFound(request.tuner.clone())
                },
            );
        }
        let n: usize = self.tuners.len();
        proof {
            assert(self.entries().len() == n);
            candidates_are_tuners(
                self.entries(),
                params.system,
                request.tuner@,
                self.entries().len() as int,
            );
        }
        Ok(
            Begun::Trying(
                Acquire {
                    params,
                    lnb: request.lnb,
                    tuner: request.tuner.clone(),
                    candidates: list,
                    wait: false,
                    next: 0,
                },
            ),
        )
    }
}

fn receives(systems: &Vec<System>, system: System) -> (r: bool)
    ensures
        r == systems@.contains(system),
{
    let mut i: usize = 0;
    while i < systems.len()
        invariant
            i <= systems@.len(),
            forall|k: int| 0 <= k < i ==> systems@[k] != system,
        decreases systems@.len() - i,
    {
        if systems[i] == system {
            assert(systems@[i as int] == system);
            return true;
        }
        i = i + 1;
    }
    false
}

/// What to do next for a request.
#[derive(Clone, Copy, Debug, PartialEq, Eq, Structural)]
pub enum Step {
    /// Start a stream on the tuner, which is taken.
    Start(usize),
    /// Wait for the tuner to be closed, for so long, and go on.
    Wait(usize),
    /// Fail: no tuner is free.
    Fail,
}

/// How a request goes on: each candidate is taken if it is free, in order, and
/// once none is, those being closed are waited for.
pub open spec fn advanced(v: StateView, a: AcquireView) -> (StateView, AcquireView, Step)
    decreases
            if a.wait {
                0int
            } else {
                1int
            },
            a.candidates.len() - a.next,
{
    if a.next >= a.candidates.len() {
        if a.wait {
            (v, a, Step::Fail)
        } else {
            advanced(v, AcquireView { wait: true, next: 0, ..a })
        }
    } else if a.next < 0 {
        (v, a, Step::Fail)
    } else {
        let tuner = a.candidates[a.next];
        let (after, reservation) = daemon::reserved(v, tuner, a.wait);
        match reservation {
            Reservation::Taken => (after, a, Step::Start(tuner)),
            Reservation::Wait => (after, a, Step::Wait(tuner)),
            Reservation::Busy => advanced(v, AcquireView { next: a.next + 1, ..a }),
        }
    }
}

/// What a request is told for which no tuner is free.
pub open spec fn busy_words(a: AcquireView) -> Seq<char> {
    if a.tuner.len() == 0 {
        "no free tuner receives "@ + a.params.system.name_text()@
    } else {
        "the tuner "@ + a.tuner + " is busy"@
    }
}

impl Acquire {
    /// Gives up on the candidate waited for.
    pub fn skip(&mut self)
        requires
            old(self)@.next < old(self)@.candidates.len(),
        ensures
            final(self)@ == (AcquireView { next: old(self)@.next + 1, ..old(self)@ }),
    {
        let n: usize = self.candidates.len();
        assert(self.next < n);
        self.next = self.next + 1;
    }

    /// The error of a request for which no tuner is free.
    pub fn failure(&self) -> (r: Error)
        ensures
            tells(r, Refusal::Busy(busy_words(self@))),
            r.busy(),
    {
        let message: String = if self.tuner.as_str().is_empty() {
            "no free tuner receives ".to_owned().concat(self.params.system.name())
        } else {
            "the tuner ".to_owned().concat(self.tuner.as_str()).concat(" is busy")
        };
        Error::Io(IoError { kind: ErrorKind::ResourceBusy, detail: Detail::Owned(message) })
    }
}

/// Draws a number with `getrandom::u64`: any number, from the system's source of
/// random numbers, or the words of its error if there is none to be had. Nothing is
/// claimed of the number, which is left to chance, nor of the words, which are the
/// system's.
#[verifier::external_body]
fn draw() -> (r: Result<u64, String>) {
    getrandom::u64().map_err(|e| format!("{}", e))
}

impl Daemon {
    /// Goes on with a request.
    pub fn advance(&mut self, a: &mut Acquire) -> (r: Step)
        requires
            old(self).wf(),
            old(a)@.fits(old(self).entries().len()),
        ensures
            (final(self).state@, final(a)@, r) == advanced(old(self).state@, old(a)@),
            final(self).wf(),
            final(self).devices == old(self).devices,
            final(self).tuners == old(self).tuners,
            final(a)@.fits(final(self).entries().len()),
    {
        let ghost whole = advanced(self.state@, a@);
        loop
            invariant
                self.wf(),
                a@.fits(self.entries().len()),
                advanced(self.state@, a@) == whole,
                whole == advanced(old(self).state@, old(a)@),
                self.devices == old(self).devices,
                self.tuners == old(self).tuners,
            decreases
                    if a.wait {
                        0int
                    } else {
                        1int
                    },
                    a.candidates@.len() - a.next,
        {
            if a.next >= a.candidates.len() {
                if a.wait {
                    return Step::Fail;
                }
                a.wait = true;
                a.next = 0;
                continue;
            }
            let tuner: usize = a.candidates[a.next];
            assert(a@.candidates[a.next as int] < self.entries().len());
            match self.state.reserve(tuner, a.wait) {
                Reservation::Taken => return Step::Start(tuner),
                Reservation::Wait => return Step::Wait(tuner),
                Reservation::Busy => {
                    a.next = a.next + 1;
                },
            }
        }
    }

    /// Adds a client to the stream of a tuner under `token`.
    pub fn join(&mut self, tuner: usize, client: u64, token: u64) -> (r: AcquireResponse)
        requires
            old(self).wf(),
            old(self).state@.streams(tuner),
            old(self).state@.is_fresh(token),
        ensures
            final(self).state@ == daemon::joined(old(self).state@, tuner, client, token),
            final(self).wf(),
            final(self).devices == old(self).devices,
            final(self).tuners == old(self).tuners,
            r.stream_token == token,
            r.tuner@ == old(self).entries()[tuner as int].id,
            r.format == format_code(old(self).state@.session(tuner).format),
    {
        proof {
            daemon::place_is_one(self.state@.sessions, tuner);
            assert(self.state@.sessions.contains(self.state@.session(tuner)));
            assert(self.entries()[tuner as int] == self.tuners@[tuner as int]@);
        }
        let format: StreamFormat = self.state.format_of(tuner);
        self.state.join(tuner, client, token);
        AcquireResponse {
            stream_token: token,
            tuner: self.tuners[tuner].id.clone(),
            format: format_code(format),
        }
    }

    /// Adds a client to the stream of a tuner. The token is all a data connection
    /// shows to take the stream, so it is drawn at random, for the other users of
    /// the socket not to guess it.
    pub fn subscribe(&mut self, tuner: usize, client: u64) -> (r: Result<AcquireResponse, Error>)
        requires
            old(self).wf(),
            old(self).state@.streams(tuner),
        ensures
            final(self).wf(),
            final(self).devices == old(self).devices,
            final(self).tuners == old(self).tuners,
            match r {
                Ok(response) => {
                    &&& old(self).state@.is_fresh(response.stream_token)
                    &&& final(self).state@ == daemon::joined(
                        old(self).state@,
                        tuner,
                        client,
                        response.stream_token,
                    )
                    &&& response.tuner@ == old(self).entries()[tuner as int].id
                    &&& response.format == format_code(old(self).state@.session(tuner).format)
                },
                Err(e) => {
                    &&& final(self).state@ == old(self).state@
                    &&& e matches Error::Io(io)
                    &&& io.kind == ErrorKind::Other
                },
            },
    {
        let mut left: u64 = u64::MAX;
        while left > 0
            invariant
                self.wf(),
                self.state@.streams(tuner),
                *self == *old(self),
            decreases left,
        {
            match draw() {
                Ok(token) => {
                    if self.state.fits(token) {
                        return Ok(self.join(tuner, client, token));
                    }
                },
                Err(e) => {
                    return Err(
                        Error::Io(
                            IoError {
                                kind: ErrorKind::Other,
                                detail: Detail::Owned(e),
                            },
                        ),
                    );
                },
            }
            left = left - 1;
        }
        Err(crate::error::error("no token is left to give out"))
    }

    /// Takes note that the stream of a request started, and gives it to the client.
    pub fn started(&mut self, a: &Acquire, tuner: usize, format: StreamFormat, client: u64) -> (r:
        Result<AcquireResponse, Error>)
        requires
            old(self).wf(),
            tuner < old(self).entries().len(),
            old(self).state@.busy[tuner as int],
            !old(self).state@.closing[tuner as int],
            !old(self).state@.streams(tuner),
        ensures
            final(self).wf(),
            final(self).devices == old(self).devices,
            final(self).tuners == old(self).tuners,
            ({
                let open = daemon::opened(old(self).state@, tuner, a.params, format);
                match r {
                    Ok(response) => {
                        &&& old(self).state@.is_fresh(response.stream_token)
                        &&& final(self).state@ == daemon::joined(
                            open,
                            tuner,
                            client,
                            response.stream_token,
                        )
                        &&& response.tuner@ == old(self).entries()[tuner as int].id
                        &&& response.format == format_code(format)
                    },
                    Err(e) => {
                        &&& final(self).state@ == open
                        &&& e matches Error::Io(io)
                        &&& io.kind == ErrorKind::Other
                    },
                }
            }),
    {
        proof {
            daemon::laws::opening_keeps(self.state@, tuner, a.params, format);
        }
        self.state.open(tuner, a.params, format);
        self.subscribe(tuner, client)
    }

    /// Takes note that the stream of a request did not start, its tuner being
    /// closed: a tuner found in use elsewhere is passed over if any will do.
    pub fn start_failed(&mut self, a: &mut Acquire, tuner: usize, e: Error) -> (r: Option<Error>)
        requires
            old(self).wf(),
            old(a)@.fits(old(self).entries().len()),
            old(a)@.next < old(a)@.candidates.len(),
            tuner < old(self).entries().len(),
            !old(self).state@.closing[tuner as int],
            !old(self).state@.streams(tuner),
        ensures
            final(self).wf(),
            final(self).devices == old(self).devices,
            final(self).tuners == old(self).tuners,
            final(self).state@ == daemon::given_back(old(self).state@, tuner),
            final(a)@.fits(final(self).entries().len()),
            if e.busy() && old(a)@.tuner.len() == 0 {
                r is None && final(a)@ == (AcquireView { next: old(a)@.next + 1, ..old(a)@ })
            } else {
                r == Some(e) && final(a)@ == old(a)@
            },
    {
        self.state.give_back(tuner);
        if e.is_busy() && a.tuner.as_str().is_empty() {
            a.skip();
            return None;
        }
        Some(e)
    }

    /// The place of tuner `index` of device `device` among all the tuners.
    pub open spec fn number(devices: Seq<HeldDevice>, device: int, index: int) -> int {
        tuners_of(devices, device).len() + index
    }

    /// Lists the devices and their tuners, and which are in use.
    pub fn list(&self) -> (r: Vec<proto::Device>)
        requires
            self.wf(),
        ensures
            r@.len() == self.devices@.len(),
            forall|d: int|
                0 <= d < r@.len() ==> listed(
                    #[trigger] r@[d],
                    self.devices@,
                    self.state@.busy,
                    d,
                ),
    {
        let mut out: Vec<proto::Device> = Vec::new();
        let mut number: usize = 0;
        let mut d: usize = 0;
        while d < self.devices.len()
            invariant
                d <= self.devices@.len(),
                self.wf(),
                number == tuners_of(self.devices@, d as int).len(),
                out@.len() == d,
                forall|k: int|
                    0 <= k < d ==> listed(#[trigger] out@[k], self.devices@, self.state@.busy, k),
            decreases self.devices@.len() - d,
        {
            let held: &HeldDevice = &self.devices[d];
            let n: usize = held.tuners.len();
            let total: usize = self.tuners.len();
            proof {
                tuners_grow(self.devices@, d + 1, self.devices@.len() as int);
                assert(total == tuners_of(self.devices@, self.devices@.len() as int).len());
            }
            let mut tuners: Vec<proto::Tuner> = Vec::new();
            let mut j: usize = 0;
            while j < n
                invariant
                    d < self.devices@.len(),
                    self.wf(),
                    *held == self.devices@[d as int],
                    n == held.tuners@.len(),
                    j <= n,
                    number == tuners_of(self.devices@, d as int).len(),
                    number + n <= total,
                    total == self.state.busy@.len(),
                    tuners@.len() == j,
                    forall|k: int|
                        0 <= k < j ==> listed_tuner(
                            #[trigger] tuners@[k],
                            self.devices@,
                            self.state@.busy,
                            d as int,
                            k,
                        ),
                decreases n - j,
            {
                let info: &TunerInfo = &held.tuners[j];
                let tuner: proto::Tuner = proto::Tuner {
                    id: info.id.clone(),
                    systems: codes(&info.systems),
                    busy: self.state.busy[number + j],
                };
                assert(listed_tuner(
                    tuner,
                    self.devices@,
                    self.state@.busy,
                    d as int,
                    j as int,
                ));
                tuners.push(tuner);
                j = j + 1;
            }
            let device: proto::Device = proto::Device {
                id: held.info.id.clone(),
                name: held.info.name.clone(),
                tuners,
            };
            assert(listed(device, self.devices@, self.state@.busy, d as int));
            out.push(device);
            number = number + n;
            d = d + 1;
        }
        out
    }
}

/// Whether a list tells of a tuner as it is.
pub open spec fn listed_tuner(
    tuner: proto::Tuner,
    devices: Seq<HeldDevice>,
    busy: Seq<bool>,
    device: int,
    index: int,
) -> bool {
    let info = devices[device].tuners@[index];
    &&& tuner.id@ == info.id@
    &&& tuner.systems@ == info.systems@.map(|i: int, s: System| proto::system_to_code(s))
    &&& tuner.busy == busy[Daemon::number(devices, device, index)]
}

/// Whether a list tells of a device as it is.
pub open spec fn listed(
    listed: proto::Device,
    devices: Seq<HeldDevice>,
    busy: Seq<bool>,
    device: int,
) -> bool {
    let held = devices[device];
    &&& listed.id@ == held.info.id@
    &&& listed.name@ == held.info.name@
    &&& listed.tuners@.len() == held.tuners@.len()
    &&& forall|j: int|
        0 <= j < held.tuners@.len() ==> listed_tuner(
            #[trigger] listed.tuners@[j],
            devices,
            busy,
            device,
            j,
        )
}

fn codes(systems: &Vec<System>) -> (r: Vec<SystemCode>)
    ensures
        r@ == systems@.map(|i: int, s: System| proto::system_to_code(s)),
{
    let mut out: Vec<SystemCode> = Vec::new();
    let mut i: usize = 0;
    while i < systems.len()
        invariant
            i <= systems@.len(),
            out@ =~= systems@.take(i as int).map(|i: int, s: System| proto::system_to_code(s)),
        decreases systems@.len() - i,
    {
        out.push(system_code(systems[i]));
        i = i + 1;
    }
    assert(systems@.take(i as int) =~= systems@);
    out
}

proof fn tuners_grow(devices: Seq<HeldDevice>, d: int, n: int)
    requires
        0 <= d <= n,
    ensures
        tuners_of(devices, d).len() <= tuners_of(devices, n).len(),
    decreases n - d,
{
    if d < n {
        tuners_grow(devices, d, n - 1);
    }
}

/// What is asked for in other words is met the same: where the parameters of two
/// requests tune to the same, the two share a stream or try the same tuners.
pub proof fn same_in_other_words(
    sessions: Seq<SessionView>,
    tuners: Seq<TunerView>,
    a: TuneParams,
    b: TuneParams,
    asked: Seq<char>,
)
    requires
        a.plain() == b.plain(),
    ensures
        begun(sessions, tuners, proto::params_to_wire(a), asked) == begun(
            sessions,
            tuners,
            proto::params_to_wire(b),
            asked,
        ),
{
    proto::values_come_through(a, a.system, a.format());
    proto::values_come_through(b, b.system, b.format());
}

proof fn first_shared(
    sessions: Seq<SessionView>,
    tuners: Seq<TunerView>,
    params: TuneParams,
    asked: Seq<char>,
)
    ensures
        match shared(sessions, tuners, params, asked) {
            Some(tuner) => exists|i: int|
                0 <= i < sessions.len() && (#[trigger] sessions[i]).tuner == tuner
                    && sessions[i].running && sessions[i].params == params && wanted(
                    asked,
                    tuners[tuner as int].id,
                ),
            None => forall|i: int|
                0 <= i < sessions.len() ==> !((#[trigger] sessions[i]).running && sessions[i].params
                    == params && wanted(asked, tuners[sessions[i].tuner as int].id)),
        },
    decreases sessions.len(),
{
    if sessions.len() > 0 {
        let s = sessions[0];
        if !(s.running && s.params == params && wanted(asked, tuners[s.tuner as int].id)) {
            let rest = sessions.skip(1);
            first_shared(rest, tuners, params, asked);
            match shared(rest, tuners, params, asked) {
                Some(tuner) => {
                    let i = choose|i: int|
                        0 <= i < rest.len() && (#[trigger] rest[i]).tuner == tuner
                            && rest[i].running && rest[i].params == params && wanted(
                            asked,
                            tuners[tuner as int].id,
                        );
                    assert(sessions[i + 1] == rest[i]);
                },
                None => {
                    assert forall|i: int| 0 <= i < sessions.len() implies !((
                    #[trigger] sessions[i]).running && sessions[i].params == params && wanted(
                        asked,
                        tuners[sessions[i].tuner as int].id,
                    )) by {
                        if i > 0 {
                            assert(sessions[i] == rest[i - 1]);
                        }
                    }
                },
            }
        }
    }
}

/// A stream that can be joined is shared: where one on a tuner asked for is tuned
/// to the same, a request takes no tuner of its own.
pub proof fn tuned_streams_are_shared(
    sessions: Seq<SessionView>,
    tuners: Seq<TunerView>,
    params: TuneParams,
    asked: Seq<char>,
    i: int,
)
    requires
        params.valid(),
        0 <= i < sessions.len(),
        sessions[i].running,
        sessions[i].params == params.plain(),
        wanted(asked, tuners[sessions[i].tuner as int].id),
    ensures
        begun(sessions, tuners, proto::params_to_wire(params), asked) matches Start::Shared(tuner)
            && exists|k: int|
            0 <= k < sessions.len() && (#[trigger] sessions[k]).tuner == tuner
                && sessions[k].running && sessions[k].params == params.plain(),
{
    proto::values_come_through(params, params.system, params.format());
    first_shared(sessions, tuners, params.plain(), asked);
}

/// No one joins a stream its last client let go of, or that is found to have none.
pub proof fn ending_streams_are_not_shared(
    v: StateView,
    tuners: Seq<TunerView>,
    params: TuneParams,
    asked: Seq<char>,
    tuner: usize,
)
    requires
        v.wf(),
        v.streams(tuner),
        !v.session(tuner).running,
    ensures
        shared(v.sessions, tuners, params, asked) != Some(tuner),
{
    first_shared(v.sessions, tuners, params, asked);
    daemon::place_is_one(v.sessions, tuner);
    if shared(v.sessions, tuners, params, asked) == Some(tuner) {
        let i = choose|i: int|
            0 <= i < v.sessions.len() && (#[trigger] v.sessions[i]).tuner == tuner
                && v.sessions[i].running && v.sessions[i].params == params && wanted(
                asked,
                tuners[tuner as int].id,
            );
        assert(v.sessions.contains(v.sessions[i]));
        lists::same_key(
            v.sessions,
            v.sessions[i],
            v.session(tuner),
            daemon::session_key(),
        );
    }
}

/// A tuner is taken only if it receives the system and is one asked for.
pub proof fn tried_tuners_serve(
    sessions: Seq<SessionView>,
    tuners: Seq<TunerView>,
    request: proto::Params,
    asked: Seq<char>,
)
    requires
        tuners.len() <= usize::MAX,
    ensures
        begun(sessions, tuners, request, asked) matches Start::Trying(params, list) ==> forall|
            i: int,
        |
            0 <= i < list.len() ==> {
                let c = #[trigger] list[i];
                c < tuners.len() && serves(tuners[c as int], params.system, asked)
            },
{
    match proto::params_of_wire(request) {
        Ok(p) => candidates_are_tuners(
            tuners,
            p.plain().system,
            asked,
            tuners.len() as int,
        ),
        Err(_) => {},
    }
}

/// The first of the candidates that no one has, from one on.
pub open spec fn first_free(busy: Seq<bool>, candidates: Seq<usize>, from: int) -> Option<usize>
    decreases candidates.len() - from,
{
    if from < 0 || from >= candidates.len() {
        None
    } else if !busy[candidates[from] as int] {
        Some(candidates[from])
    } else {
        first_free(busy, candidates, from + 1)
    }
}

proof fn first_pass(v: StateView, a: AcquireView)
    requires
        v.wf(),
        a.fits(v.busy.len()),
        !a.wait,
    ensures
        match first_free(v.busy, a.candidates, a.next) {
            Some(tuner) => advanced(v, a).2 == Step::Start(tuner) && advanced(v, a).0
                == daemon::reserved(v, tuner, false).0,
            None => advanced(v, a) == advanced(v, AcquireView { wait: true, next: 0, ..a })
                && forall|k: int|
                a.next <= k < a.candidates.len() ==> v.busy[#[trigger] a.candidates[k] as int],
        },
    decreases a.candidates.len() - a.next,
{
    if a.next < a.candidates.len() {
        let tuner = a.candidates[a.next];
        assert(v.closing[tuner as int] ==> v.busy[tuner as int]);
        if v.busy[tuner as int] {
            let b = AcquireView { next: a.next + 1, ..a };
            first_pass(v, b);
            assert(AcquireView { wait: true, next: 0, ..a } == AcquireView {
                wait: true,
                next: 0,
                ..b
            });
        }
    }
}

proof fn second_pass(v: StateView, a: AcquireView)
    requires
        v.wf(),
        a.fits(v.busy.len()),
        a.wait,
        forall|k: int|
            0 <= k < a.candidates.len() ==> v.busy[#[trigger] a.candidates[k] as int],
    ensures
        advanced(v, a).0 == v,
        advanced(v, a).2 !is Start,
    decreases a.candidates.len() - a.next,
{
    if a.next < a.candidates.len() {
        let tuner = a.candidates[a.next];
        assert(v.busy[tuner as int]);
        if !v.closing[tuner as int] {
            second_pass(v, AcquireView { next: a.next + 1, ..a });
        }
    }
}

/// First come, first served: the tuner a request takes is the first free one of its
/// candidates. Where none is free nothing changes, and the request waits for one
/// being closed or fails.
pub proof fn first_free_is_taken(v: StateView, a: AcquireView)
    requires
        v.wf(),
        a.fits(v.busy.len()),
        !a.wait,
        a.next == 0,
    ensures
        match first_free(v.busy, a.candidates, 0) {
            Some(tuner) => advanced(v, a).2 == Step::Start(tuner) && advanced(v, a).0
                == daemon::reserved(v, tuner, false).0,
            None => advanced(v, a).2 !is Start && advanced(v, a).0 == v,
        },
{
    first_pass(v, a);
    if first_free(v.busy, a.candidates, 0) is None {
        second_pass(v, AcquireView { wait: true, next: 0, ..a });
    }
}

/// Whether the devices have ids of their own, and their tuners the ids that follow
/// from them.
pub open spec fn well_named(devices: Seq<HeldDevice>) -> bool {
    &&& forall|a: int, b: int|
        0 <= a < b < devices.len() ==> (#[trigger] devices[a]).info.id@ != (
        #[trigger] devices[b]).info.id@
    &&& forall|d: int, j: int|
        0 <= d < devices.len() && 0 <= j < devices[d].tuners@.len()
            ==> #[trigger] devices[d].tuners@[j].id@ == text::tuner_id(
            devices[d].info.id@,
            j as nat,
        )
}

proof fn tuner_of_number(devices: Seq<HeldDevice>, n: int, k: int) -> (r: (int, int))
    requires
        0 <= n <= devices.len(),
        0 <= k < tuners_of(devices, n).len(),
    ensures
        0 <= r.0 < n,
        0 <= r.1 < devices[r.0].tuners@.len(),
        tuners_of(devices, n)[k] == tuner_at(devices, r.0, r.1),
        k == Daemon::number(devices, r.0, r.1),
    decreases n,
{
    let before = tuners_of(devices, n - 1);
    if k < before.len() {
        tuner_of_number(devices, n - 1, k)
    } else {
        (n - 1, k - before.len())
    }
}

/// A tuner goes by its number as well as by its id: no two of the tuners of all the
/// devices have the same.
pub proof fn numbers_and_ids_agree(devices: Seq<HeldDevice>, a: int, b: int)
    requires
        well_named(devices),
        0 <= a < tuners_of(devices, devices.len() as int).len(),
        0 <= b < tuners_of(devices, devices.len() as int).len(),
        tuners_of(devices, devices.len() as int)[a].id == tuners_of(
            devices,
            devices.len() as int,
        )[b].id,
    ensures
        a == b,
{
    let (d, i) = tuner_of_number(devices, devices.len() as int, a);
    let (e, j) = tuner_of_number(devices, devices.len() as int, b);
    assert(devices[d].tuners@[i].id@ == text::tuner_id(devices[d].info.id@, i as nat));
    assert(devices[e].tuners@[j].id@ == text::tuner_id(devices[e].info.id@, j as nat));
    text::tuner_ids_tell_apart(devices[d].info.id@, i as nat, devices[e].info.id@, j as nat);
}

} // verus!
