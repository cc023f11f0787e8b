//! What tunelithd decides: which tuner serves a request, who takes part in its
//! stream, and when the tuner goes back.
//!
//! A client takes a stream of what it asks to receive: a stream already tuned
//! to the same is shared, or else the first free tuner receiving the system
//! is taken, first come, first served. The tuner goes back once the last
//! client of its stream lets go of it.
//!
//! The tuners are numbered through all the devices, in order.

use vstd::prelude::*;

use crate::lists;
use crate::proto::Drops;
use crate::types::{StreamFormat, TuneParams};

pub mod acquire;
pub mod laws;
pub mod serve;

verus! {

/// The chunks a client may fall behind by before its stream loses data.
pub const BACKLOG: usize = 256;

/// How long a stream waits for the tuner it asks for to be closed.
pub const CLOSE_TIMEOUT_MS: u64 = 10_000;

/// A client taking a stream.
#[derive(Clone, Copy, Debug, PartialEq, Eq, Structural)]
pub struct Subscriber {
    /// The token of its stream.
    pub token: u64,
    /// The control connection of the client, for events.
    pub client: u64,
    /// The bytes dropped since the client last kept up.
    pub dropped: u64,
}

/// The stream a token stands for, by its tuner.
#[derive(Clone, Copy, Debug, PartialEq, Eq, Structural)]
pub struct Ticket {
    pub token: u64,
    pub tuner: usize,
}

/// A tuner tuned to `params`, and the clients taking its stream.
pub struct Session {
    pub tuner: usize,
    pub params: TuneParams,
    pub format: StreamFormat,
    /// Whether others may join it.
    pub running: bool,
    pub subscribers: Vec<Subscriber>,
}

/// What a [`Session`] is.
#[verifier::ext_equal]
pub struct SessionView {
    pub tuner: usize,
    pub params: TuneParams,
    pub format: StreamFormat,
    pub running: bool,
    pub subscribers: Seq<Subscriber>,
}

impl View for Session {
    type V = SessionView;

    open spec fn view(&self) -> SessionView {
        SessionView {
            tuner: self.tuner,
            params: self.params,
            format: self.format,
            running: self.running,
            subscribers: self.subscribers@,
        }
    }
}

/// The tuners in use and the streams on them.
pub struct State {
    /// The tuners streams hold, or that are being closed.
    pub busy: Vec<bool>,
    /// The tuners being closed.
    pub closing: Vec<bool>,
    /// The streams, in the order they started.
    pub sessions: Vec<Session>,
    /// The stream of each token.
    pub tickets: Vec<Ticket>,
    /// The tokens whose data connection has yet to attach.
    pub unattached: Vec<u64>,
}

/// What a [`State`] is.
#[verifier::ext_equal]
pub struct StateView {
    pub busy: Seq<bool>,
    pub closing: Seq<bool>,
    pub sessions: Seq<SessionView>,
    pub tickets: Seq<Ticket>,
    pub unattached: Seq<u64>,
}

/// What sessions are.
pub open spec fn session_views(sessions: Seq<Session>) -> Seq<SessionView> {
    sessions.map(|i: int, s: Session| s@)
}

impl View for State {
    type V = StateView;

    open spec fn view(&self) -> StateView {
        StateView {
            busy: self.busy@,
            closing: self.closing@,
            sessions: session_views(self.sessions@),
            tickets: self.tickets@,
            unattached: self.unattached@,
        }
    }
}

pub open spec fn session_key() -> spec_fn(SessionView) -> usize {
    |s: SessionView| s.tuner
}

pub open spec fn ticket_key() -> spec_fn(Ticket) -> u64 {
    |t: Ticket| t.token
}

pub open spec fn subscriber_key() -> spec_fn(Subscriber) -> u64 {
    |s: Subscriber| s.token
}

pub open spec fn token_key() -> spec_fn(u64) -> u64 {
    |t: u64| t
}

/// The place of the stream of a tuner in the list, or its length for none.
pub open spec fn place(sessions: Seq<SessionView>, tuner: usize) -> int
    decreases sessions.len(),
{
    if sessions.len() == 0 {
        0
    } else if sessions[0].tuner == tuner {
        0
    } else {
        1 + place(sessions.skip(1), tuner)
    }
}

/// The stream a token stands for, if any.
pub open spec fn ticket_of(tickets: Seq<Ticket>, token: u64) -> Option<usize>
    decreases tickets.len(),
{
    if tickets.len() == 0 {
        None
    } else if tickets[0].token == token {
        Some(tickets[0].tuner)
    } else {
        ticket_of(tickets.skip(1), token)
    }
}

impl StateView {
    /// Whether a tuner has a stream.
    pub open spec fn streams(self, tuner: usize) -> bool {
        place(self.sessions, tuner) < self.sessions.len()
    }

    /// The stream of a tuner.
    pub open spec fn session(self, tuner: usize) -> SessionView {
        self.sessions[place(self.sessions, tuner)]
    }

    /// Whether a token can be given out: no stream has it, and it is not the one
    /// for none.
    pub open spec fn is_fresh(self, token: u64) -> bool {
        token != 0 && ticket_of(self.tickets, token) is None
    }

    /// What always holds of the streams:
    /// - a tuner being closed is in use;
    /// - a tuner has one stream at most, and is in use and not being closed while
    ///   it has one;
    /// - no two streams have the same token, and none has the token 0;
    /// - a token stands for a stream there is;
    /// - the clients of a stream have tokens of their own, which stand for it;
    /// - the tokens waiting for a data connection stand for streams.
    pub open spec fn wf(self) -> bool {
        &&& self.closing.len() == self.busy.len()
        &&& forall|i: int| 0 <= i < self.closing.len() && #[trigger] self.closing[i] ==> self.busy[i]
        &&& lists::distinct_by(self.sessions, session_key())
        &&& forall|s: SessionView| #[trigger]
            self.sessions.contains(s) ==> {
                &&& s.tuner < self.busy.len()
                &&& self.busy[s.tuner as int]
                &&& !self.closing[s.tuner as int]
                &&& lists::distinct_by(s.subscribers, subscriber_key())
                &&& forall|c: Subscriber| #[trigger]
                    s.subscribers.contains(c) ==> self.tickets.contains(
                        Ticket { token: c.token, tuner: s.tuner },
                    )
            }
        &&& lists::distinct_by(self.tickets, ticket_key())
        &&& forall|t: Ticket| #[trigger]
            self.tickets.contains(t) ==> t.token != 0 && self.streams(t.tuner)
        &&& lists::distinct_by(self.unattached, token_key())
        &&& forall|t: u64| #[trigger]
            self.unattached.contains(t) ==> ticket_of(self.tickets, t) is Some
    }
}

/// The place of a stream is that of one of the tuner, if there is one.
pub proof fn place_is_one(sessions: Seq<SessionView>, tuner: usize)
    ensures
        0 <= place(sessions, tuner) <= sessions.len(),
        place(sessions, tuner) < sessions.len() ==> sessions[place(sessions, tuner)].tuner == tuner
            && sessions.contains(sessions[place(sessions, tuner)]),
        place(sessions, tuner) == sessions.len() ==> forall|s: SessionView| #[trigger]
            sessions.contains(s) ==> s.tuner != tuner,
    decreases sessions.len(),
{
    if sessions.len() > 0 && sessions[0].tuner != tuner {
        place_is_one(sessions.skip(1), tuner);
        if place(sessions, tuner) == sessions.len() {
            assert forall|s: SessionView| #[trigger] sessions.contains(s) implies s.tuner
                != tuner by {
                let i = choose|i: int| 0 <= i < sessions.len() && sessions[i] == s;
                if i > 0 {
                    assert(sessions.skip(1)[i - 1] == s);
                    assert(sessions.skip(1).contains(s));
                }
            }
        }
    }
}

/// A token's ticket is one of the list, if there is one.
pub proof fn ticket_is_one(tickets: Seq<Ticket>, token: u64)
    ensures
        ticket_of(tickets, token) matches Some(tuner) ==> tickets.contains(Ticket { token, tuner }),
        ticket_of(tickets, token) is None ==> forall|t: Ticket| #[trigger]
            tickets.contains(t) ==> t.token != token,
    decreases tickets.len(),
{
    if tickets.len() > 0 {
        if tickets[0].token == token {
            assert(tickets[0] == (Ticket { token, tuner: tickets[0].tuner }));
            assert(tickets.contains(tickets[0]));
        } else {
            let rest = tickets.skip(1);
            ticket_is_one(rest, token);
            match ticket_of(rest, token) {
                Some(tuner) => {
                    let t = Ticket { token, tuner };
                    let i = choose|i: int| 0 <= i < rest.len() && rest[i] == t;
                    assert(tickets[i + 1] == t);
                },
                None => {
                    assert forall|t: Ticket| #[trigger] tickets.contains(t) implies t.token
                        != token by {
                        let i = choose|i: int| 0 <= i < tickets.len() && tickets[i] == t;
                        if i > 0 {
                            assert(rest[i - 1] == t);
                            assert(rest.contains(t));
                        }
                    }
                },
            }
        }
    }
}

/// Whether a tuner could be taken.
#[derive(Clone, Copy, Debug, PartialEq, Eq, Structural)]
pub enum Reservation {
    /// It is taken now.
    Taken,
    /// It is in use.
    Busy,
    /// It is being closed, which is to be waited for.
    Wait,
}

/// What taking a tuner does and gives.
pub open spec fn reserved(v: StateView, tuner: usize, wait: bool) -> (StateView, Reservation) {
    if v.closing[tuner as int] {
        (
            v,
            if wait {
                Reservation::Wait
            } else {
                Reservation::Busy
            },
        )
    } else if v.busy[tuner as int] {
        (v, Reservation::Busy)
    } else {
        (StateView { busy: v.busy.update(tuner as int, true), ..v }, Reservation::Taken)
    }
}

/// The state after a tuner taken is given back, its stream not having started.
pub open spec fn given_back(v: StateView, tuner: usize) -> StateView {
    StateView { busy: v.busy.update(tuner as int, false), ..v }
}

/// The state after a tuner is closed.
pub open spec fn shut(v: StateView, tuner: usize) -> StateView {
    StateView {
        busy: v.busy.update(tuner as int, false),
        closing: v.closing.update(tuner as int, false),
        ..v
    }
}

/// The state after a stream started.
pub open spec fn opened(v: StateView, tuner: usize, params: TuneParams, format: StreamFormat) -> StateView {
    StateView {
        sessions: v.sessions.push(
            SessionView { tuner, params, format, running: true, subscribers: Seq::empty() },
        ),
        ..v
    }
}

/// The state after a client joined the stream of a tuner.
pub open spec fn joined(v: StateView, tuner: usize, client: u64, token: u64) -> StateView {
    let s = v.session(tuner);
    StateView {
        sessions: v.sessions.update(
            place(v.sessions, tuner),
            SessionView {
                subscribers: s.subscribers.push(Subscriber { token, client, dropped: 0 }),
                ..s
            },
        ),
        tickets: v.tickets.push(Ticket { token, tuner }),
        unattached: v.unattached.push(token),
        ..v
    }
}

pub open spec fn other_token(token: u64) -> spec_fn(u64) -> bool {
    |t: u64| t != token
}

pub open spec fn ticket_of_other(token: u64) -> spec_fn(Ticket) -> bool {
    |t: Ticket| t.token != token
}

pub open spec fn ticket_elsewhere(tuner: usize) -> spec_fn(Ticket) -> bool {
    |t: Ticket| t.tuner != tuner
}

pub open spec fn other_subscriber(token: u64) -> spec_fn(Subscriber) -> bool {
    |s: Subscriber| s.token != token
}

pub open spec fn token_elsewhere(tickets: Seq<Ticket>, tuner: usize) -> spec_fn(u64) -> bool {
    |t: u64| ticket_of(tickets, t) != Some(tuner)
}

/// The state after a data connection asked for the stream of a token, and whether
/// it is given it.
pub open spec fn attached(v: StateView, token: u64) -> (StateView, bool) {
    (
        StateView { unattached: v.unattached.filter(other_token(token)), ..v },
        v.unattached.contains(token),
    )
}

/// The state after a stream is let go of, and the tuner whose stream is to be
/// stopped if that was its last client.
pub open spec fn released(v: StateView, token: u64) -> (StateView, Option<usize>) {
    let unattached = v.unattached.filter(other_token(token));
    match ticket_of(v.tickets, token) {
        None => (StateView { unattached, ..v }, None),
        Some(tuner) => {
            let s = v.session(tuner);
            let subscribers = s.subscribers.filter(other_subscriber(token));
            let last = subscribers.len() == 0;
            (
                StateView {
                    sessions: v.sessions.update(
                        place(v.sessions, tuner),
                        SessionView { subscribers, running: s.running && !last, ..s },
                    ),
                    tickets: v.tickets.filter(ticket_of_other(token)),
                    unattached,
                    ..v
                },
                if last {
                    Some(tuner)
                } else {
                    None
                },
            )
        },
    }
}

/// How handing a chunk to a client went.
#[derive(Clone, Copy, Debug, PartialEq, Eq, Structural)]
pub enum Outcome {
    Sent,
    /// The client is too far behind.
    Full,
    /// The client has gone.
    Closed,
}

/// What a client is told of its stream.
#[derive(Clone, Copy, Debug, PartialEq, Eq, Structural)]
pub enum Event {
    /// What it lost since it last kept up.
    Dropped(Drops),
    /// The end of the stream of the token.
    Ended(u64),
}

/// An event on its way to the control connection of a client.
#[derive(Clone, Copy, Debug, PartialEq, Eq, Structural)]
pub struct Notice {
    pub client: u64,
    pub event: Event,
}

/// What a client is told it lost, if it lost anything.
pub open spec fn lost(s: Subscriber) -> Seq<Notice> {
    if s.dropped > 0 {
        seq![
            Notice {
                client: s.client,
                event: Event::Dropped(
                    Drops { stream_token: s.token, dropped_bytes: s.dropped },
                ),
            },
        ]
    } else {
        Seq::empty()
    }
}

/// The bytes dropped with `len` more, as far as they can be counted.
pub open spec fn more_dropped(dropped: u64, len: u64) -> u64 {
    if dropped + len > u64::MAX {
        u64::MAX
    } else {
        (dropped + len) as u64
    }
}

/// The clients left after a chunk of `len` bytes was handed to each, and what they
/// are told.
pub open spec fn handed_out(subscribers: Seq<Subscriber>, outcomes: Seq<Outcome>, len: u64) -> (
    Seq<Subscriber>,
    Seq<Notice>,
)
    decreases subscribers.len(),
{
    if subscribers.len() == 0 {
        (Seq::empty(), Seq::empty())
    } else {
        let s = subscribers.last();
        let (left, told) = handed_out(subscribers.drop_last(), outcomes, len);
        match outcomes[subscribers.len() - 1] {
            Outcome::Sent => (left.push(Subscriber { dropped: 0, ..s }), told + lost(s)),
            Outcome::Full => (
                left.push(Subscriber { dropped: more_dropped(s.dropped, len), ..s }),
                told,
            ),
            Outcome::Closed => (left, told),
        }
    }
}

/// The state after a chunk of `len` bytes was handed to the clients of a stream,
/// and what they are told.
pub open spec fn delivered(v: StateView, tuner: usize, outcomes: Seq<Outcome>, len: u64) -> (
    StateView,
    Seq<Notice>,
) {
    let s = v.session(tuner);
    let (subscribers, told) = handed_out(s.subscribers, outcomes, len);
    (
        StateView {
            sessions: v.sessions.update(
                place(v.sessions, tuner),
                SessionView { subscribers, ..s },
            ),
            ..v
        },
        told,
    )
}

/// The state after a stream is taken out of those to join if it has no client
/// left, and whether it was.
pub open spec fn idled(v: StateView, tuner: usize) -> (StateView, bool) {
    let s = v.session(tuner);
    let idle = s.subscribers.len() == 0;
    (
        StateView {
            sessions: v.sessions.update(
                place(v.sessions, tuner),
                SessionView { running: s.running && !idle, ..s },
            ),
            ..v
        },
        idle,
    )
}

/// What the clients of a stream that ends are told.
pub open spec fn farewells(subscribers: Seq<Subscriber>) -> Seq<Notice>
    decreases subscribers.len(),
{
    if subscribers.len() == 0 {
        Seq::empty()
    } else {
        let s = subscribers.last();
        (farewells(subscribers.drop_last()) + lost(s)).push(
            Notice { client: s.client, event: Event::Ended(s.token) },
        )
    }
}

/// The state after a stream ended and before its tuner is closed, and what its
/// clients are told.
pub open spec fn ended(v: StateView, tuner: usize) -> (StateView, Seq<Notice>) {
    (
        StateView {
            closing: v.closing.update(tuner as int, true),
            sessions: v.sessions.remove(place(v.sessions, tuner)),
            tickets: v.tickets.filter(ticket_elsewhere(tuner)),
            unattached: v.unattached.filter(token_elsewhere(v.tickets, tuner)),
            ..v
        },
        farewells(v.session(tuner).subscribers),
    )
}

fn keep_tokens_but(tokens: &Vec<u64>, token: u64) -> (r: Vec<u64>)
    ensures
        r@ == tokens@.filter(other_token(token)),
{
    let mut kept: Vec<u64> = Vec::new();
    let mut i: usize = 0;
    proof {
        reveal(Seq::filter);
        assert(tokens@.take(0).filter(other_token(token)) =~= Seq::empty());
    }
    while i < tokens.len()
        invariant
            i <= tokens@.len(),
            kept@ == tokens@.take(i as int).filter(other_token(token)),
        decreases tokens@.len() - i,
    {
        proof {
            lists::filter_one_more(tokens@, other_token(token), i as int);
        }
        if tokens[i] != token {
            kept.push(tokens[i]);
        }
        i = i + 1;
    }
    assert(tokens@.take(i as int) =~= tokens@);
    kept
}

fn keep_tickets_but(tickets: &Vec<Ticket>, token: u64) -> (r: Vec<Ticket>)
    ensures
        r@ == tickets@.filter(ticket_of_other(token)),
{
    let mut kept: Vec<Ticket> = Vec::new();
    let mut i: usize = 0;
    proof {
        reveal(Seq::filter);
        assert(tickets@.take(0).filter(ticket_of_other(token)) =~= Seq::empty());
    }
    while i < tickets.len()
        invariant
            i <= tickets@.len(),
            kept@ == tickets@.take(i as int).filter(ticket_of_other(token)),
        decreases tickets@.len() - i,
    {
        proof {
            lists::filter_one_more(tickets@, ticket_of_other(token), i as int);
        }
        if tickets[i].token != token {
            kept.push(tickets[i]);
        }
        i = i + 1;
    }
    assert(tickets@.take(i as int) =~= tickets@);
    kept
}

fn keep_tickets_elsewhere(tickets: &Vec<Ticket>, tuner: usize) -> (r: Vec<Ticket>)
    ensures
        r@ == tickets@.filter(ticket_elsewhere(tuner)),
{
    let mut kept: Vec<Ticket> = Vec::new();
    let mut i: usize = 0;
    proof {
        reveal(Seq::filter);
        assert(tickets@.take(0).filter(ticket_elsewhere(tuner)) =~= Seq::empty());
    }
    while i < tickets.len()
        invariant
            i <= tickets@.len(),
            kept@ == tickets@.take(i as int).filter(ticket_elsewhere(tuner)),
        decreases tickets@.len() - i,
    {
        proof {
            lists::filter_one_more(tickets@, ticket_elsewhere(tuner), i as int);
        }
        if tickets[i].tuner != tuner {
            kept.push(tickets[i]);
        }
        i = i + 1;
    }
    assert(tickets@.take(i as int) =~= tickets@);
    kept
}

fn keep_subscribers_but(subscribers: &Vec<Subscriber>, token: u64) -> (r: Vec<Subscriber>)
    ensures
        r@ == subscribers@.filter(other_subscriber(token)),
{
    let mut kept: Vec<Subscriber> = Vec::new();
    let mut i: usize = 0;
    proof {
        reveal(Seq::filter);
        assert(subscribers@.take(0).filter(other_subscriber(token)) =~= Seq::empty());
    }
    while i < subscribers.len()
        invariant
            i <= subscribers@.len(),
            kept@ == subscribers@.take(i as int).filter(other_subscriber(token)),
        decreases subscribers@.len() - i,
    {
        proof {
            lists::filter_one_more(subscribers@, other_subscriber(token), i as int);
        }
        if subscribers[i].token != token {
            kept.push(subscribers[i]);
        }
        i = i + 1;
    }
    assert(subscribers@.take(i as int) =~= subscribers@);
    kept
}

fn find_ticket(tickets: &Vec<Ticket>, token: u64) -> (r: Option<usize>)
    ensures
        r == ticket_of(tickets@, token),
{
    let mut i: usize = 0;
    assert(tickets@.skip(0) =~= tickets@);
    while i < tickets.len()
        invariant
            i <= tickets@.len(),
            ticket_of(tickets@, token) == ticket_of(tickets@.skip(i as int), token),
        decreases tickets@.len() - i,
    {
        assert(tickets@.skip(i as int)[0] == tickets@[i as int]);
        if tickets[i].token == token {
            return Some(tickets[i].tuner);
        }
        assert(tickets@.skip(i as int).skip(1) =~= tickets@.skip(i + 1));
        i = i + 1;
    }
    None
}

fn keep_tokens_elsewhere(tokens: &Vec<u64>, tickets: &Vec<Ticket>, tuner: usize) -> (r: Vec<u64>)
    ensures
        r@ == tokens@.filter(token_elsewhere(tickets@, tuner)),
{
    let mut kept: Vec<u64> = Vec::new();
    let mut i: usize = 0;
    proof {
        reveal(Seq::filter);
        assert(tokens@.take(0).filter(token_elsewhere(tickets@, tuner)) =~= Seq::empty());
    }
    while i < tokens.len()
        invariant
            i <= tokens@.len(),
            kept@ == tokens@.take(i as int).filter(token_elsewhere(tickets@, tuner)),
        decreases tokens@.len() - i,
    {
        proof {
            lists::filter_one_more(tokens@, token_elsewhere(tickets@, tuner), i as int);
        }
        let ours: bool = match find_ticket(tickets, tokens[i]) {
            Some(t) => t == tuner,
            None => false,
        };
        if !ours {
            kept.push(tokens[i]);
        }
        i = i + 1;
    }
    assert(tokens@.take(i as int) =~= tokens@);
    kept
}

/// Notes what a client is told it lost, if it lost anything.
fn flush_drops(s: Subscriber, notices: &mut Vec<Notice>)
    ensures
        final(notices)@ == old(notices)@ + lost(s),
{
    if s.dropped > 0 {
        notices.push(
            Notice {
                client: s.client,
                event: Event::Dropped(Drops { stream_token: s.token, dropped_bytes: s.dropped }),
            },
        );
    }
    assert(notices@ =~= old(notices)@ + lost(s));
}

/// The state of so many tuners, none of them in use.
pub open spec fn idle(tuners: nat) -> StateView {
    StateView {
        busy: Seq::new(tuners, |i: int| false),
        closing: Seq::new(tuners, |i: int| false),
        sessions: Seq::empty(),
        tickets: Seq::empty(),
        unattached: Seq::empty(),
    }
}

impl State {
    /// No tuner in use.
    pub fn new(tuners: usize) -> (r: Self)
        ensures
            r@ == idle(tuners as nat),
            r@.wf(),
    {
        let r: State = State {
            busy: vec![false; tuners],
            closing: vec![false; tuners],
            sessions: Vec::new(),
            tickets: Vec::new(),
            unattached: Vec::new(),
        };
        assert(r@.sessions =~= Seq::empty());
        r
    }

    fn find(&self, tuner: usize) -> (r: usize)
        ensures
            r == place(self@.sessions, tuner),
    {
        let ghost all = self@.sessions;
        let mut i: usize = 0;
        assert(all.skip(0) =~= all);
        while i < self.sessions.len()
            invariant
                i <= self.sessions@.len(),
                all == self@.sessions,
                place(all, tuner) == i + place(all.skip(i as int), tuner),
            decreases self.sessions@.len() - i,
        {
            assert(all.skip(i as int)[0] == self.sessions@[i as int]@);
            if self.sessions[i].tuner == tuner {
                return i;
            }
            assert(all.skip(i as int).skip(1) =~= all.skip(i + 1));
            i = i + 1;
        }
        i
    }

    /// Takes a tuner for a new stream if it is free; if it is being closed, it is
    /// to be waited for if `wait`.
    pub fn reserve(&mut self, tuner: usize, wait: bool) -> (r: Reservation)
        requires
            old(self)@.wf(),
            tuner < old(self)@.busy.len(),
        ensures
            (final(self)@, r) == reserved(old(self)@, tuner, wait),
            final(self)@.wf(),
    {
        proof {
            laws::reserving_keeps(self@, tuner, wait);
        }
        if self.closing[tuner] {
            return if wait {
                Reservation::Wait
            } else {
                Reservation::Busy
            };
        }
        if self.busy[tuner] {
            return Reservation::Busy;
        }
        self.busy.set(tuner, true);
        Reservation::Taken
    }

    /// Gives back a tuner whose stream did not start.
    pub fn give_back(&mut self, tuner: usize)
        requires
            old(self)@.wf(),
            tuner < old(self)@.busy.len(),
            !old(self)@.closing[tuner as int],
            !old(self)@.streams(tuner),
        ensures
            final(self)@ == given_back(old(self)@, tuner),
            final(self)@.wf(),
    {
        proof {
            laws::giving_back_keeps(self@, tuner);
        }
        self.busy.set(tuner, false);
    }

    /// Starts a stream on a tuner taken for it.
    pub fn open(&mut self, tuner: usize, params: TuneParams, format: StreamFormat)
        requires
            old(self)@.wf(),
            tuner < old(self)@.busy.len(),
            old(self)@.busy[tuner as int],
            !old(self)@.closing[tuner as int],
            !old(self)@.streams(tuner),
        ensures
            final(self)@ == opened(old(self)@, tuner, params, format),
            final(self)@.wf(),
    {
        proof {
            laws::opening_keeps(self@, tuner, params, format);
        }
        let ghost before = self@;
        let session: Session = Session {
            tuner,
            params,
            format,
            running: true,
            subscribers: Vec::new(),
        };
        self.sessions.push(session);
        assert(self@.sessions =~= opened(before, tuner, params, format).sessions);
    }

    /// Adds a client to the stream of a tuner, under a token no stream has.
    pub fn join(&mut self, tuner: usize, client: u64, token: u64)
        requires
            old(self)@.wf(),
            old(self)@.streams(tuner),
            old(self)@.is_fresh(token),
        ensures
            final(self)@ == joined(old(self)@, tuner, client, token),
            final(self)@.wf(),
    {
        proof {
            laws::joining_keeps(self@, tuner, client, token);
            place_is_one(self@.sessions, tuner);
        }
        let ghost before = self@;
        let i: usize = self.find(tuner);
        assert(before.sessions[i as int] == self.sessions@[i as int]@);
        self.sessions[i].subscribers.push(Subscriber { token, client, dropped: 0 });
        self.tickets.push(Ticket { token, tuner });
        self.unattached.push(token);
        assert(self@.sessions =~= joined(before, tuner, client, token).sessions);
    }

    /// Whether a token can be given out.
    pub fn fits(&self, token: u64) -> (r: bool)
        ensures
            r == self@.is_fresh(token),
    {
        token != 0 && find_ticket(&self.tickets, token).is_none()
    }

    /// The tuner whose stream a token stands for.
    pub fn tuner_of(&self, token: u64) -> (r: Option<usize>)
        ensures
            r == ticket_of(self@.tickets, token),
    {
        find_ticket(&self.tickets, token)
    }

    /// Whether the data of a stream waits for its connection.
    pub fn waits(&self, token: u64) -> (r: bool)
        ensures
            r == self@.unattached.contains(token),
    {
        let mut i: usize = 0;
        while i < self.unattached.len()
            invariant
                i <= self.unattached@.len(),
                forall|k: int| 0 <= k < i ==> self.unattached@[k] != token,
            decreases self.unattached@.len() - i,
        {
            if self.unattached[i] == token {
                assert(self@.unattached[i as int] == token);
                return true;
            }
            i = i + 1;
        }
        false
    }

    /// Gives the data of a stream to the connection that shows its token; whether
    /// it is there to give.
    pub fn attach(&mut self, token: u64) -> (r: bool)
        requires
            old(self)@.wf(),
        ensures
            (final(self)@, r) == attached(old(self)@, token),
            final(self)@.wf(),
    {
        proof {
            laws::attaching_keeps(self@, token);
        }
        let there: bool = self.waits(token);
        self.unattached = keep_tokens_but(&self.unattached, token);
        there
    }

    /// Lets go of a stream. If that was the last client of its tuner, no one joins
    /// it any more, and the tuner whose stream is to be stopped is given.
    pub fn release(&mut self, token: u64) -> (r: Option<usize>)
        requires
            old(self)@.wf(),
        ensures
            (final(self)@, r) == released(old(self)@, token),
            final(self)@.wf(),
    {
        proof {
            laws::releasing_keeps(self@, token);
            ticket_is_one(self@.tickets, token);
        }
        let ghost before = self@;
        self.unattached = keep_tokens_but(&self.unattached, token);
        match find_ticket(&self.tickets, token) {
            None => None,
            Some(tuner) => {
                proof {
                    assert(before.tickets.contains(Ticket { token, tuner }));
                    assert(before.streams(tuner));
                    place_is_one(before.sessions, tuner);
                }
                self.tickets = keep_tickets_but(&self.tickets, token);
                let i: usize = self.find(tuner);
                assert(before.sessions[i as int] == self.sessions@[i as int]@);
                let left: Vec<Subscriber> = keep_subscribers_but(
                    &self.sessions[i].subscribers,
                    token,
                );
                let last: bool = left.len() == 0;
                self.sessions[i].subscribers = left;
                if last {
                    self.sessions[i].running = false;
                }
                assert(self@.sessions =~= released(before, token).0.sessions);
                if last {
                    Some(tuner)
                } else {
                    None
                }
            },
        }
    }

    /// The clients of the stream of a tuner.
    pub fn subscribers(&self, tuner: usize) -> (r: Vec<Subscriber>)
        requires
            self@.streams(tuner),
        ensures
            r@ == self@.session(tuner).subscribers,
    {
        proof {
            place_is_one(self@.sessions, tuner);
        }
        let i: usize = self.find(tuner);
        assert(self@.sessions[i as int] == self.sessions@[i as int]@);
        let all: &Vec<Subscriber> = &self.sessions[i].subscribers;
        let mut copy: Vec<Subscriber> = Vec::new();
        let mut k: usize = 0;
        while k < all.len()
            invariant
                k <= all@.len(),
                copy@ =~= all@.take(k as int),
            decreases all@.len() - k,
        {
            copy.push(all[k]);
            k = k + 1;
        }
        assert(all@.take(k as int) =~= all@);
        copy
    }

    /// The format of the stream of a tuner.
    pub fn format_of(&self, tuner: usize) -> (r: StreamFormat)
        requires
            self@.streams(tuner),
        ensures
            r == self@.session(tuner).format,
    {
        proof {
            place_is_one(self@.sessions, tuner);
        }
        let i: usize = self.find(tuner);
        assert(self@.sessions[i as int] == self.sessions@[i as int]@);
        self.sessions[i].format
    }

    /// Whether a tuner has a stream.
    pub fn has_stream(&self, tuner: usize) -> (r: bool)
        ensures
            r == self@.streams(tuner),
    {
        let i: usize = self.find(tuner);
        i < self.sessions.len()
    }

    /// Takes note of how handing a chunk of `len` bytes to each client of a stream
    /// went; what the clients are to be told.
    pub fn deliver(&mut self, tuner: usize, outcomes: &[Outcome], len: u64) -> (r: Vec<Notice>)
        requires
            old(self)@.wf(),
            old(self)@.streams(tuner),
            outcomes@.len() == old(self)@.session(tuner).subscribers.len(),
        ensures
            (final(self)@, r@) == delivered(old(self)@, tuner, outcomes@, len),
            final(self)@.wf(),
    {
        proof {
            laws::delivering_keeps(self@, tuner, outcomes@, len);
            place_is_one(self@.sessions, tuner);
        }
        let ghost before = self@;
        let i: usize = self.find(tuner);
        assert(before.sessions[i as int] == self.sessions@[i as int]@);
        let all: Vec<Subscriber> = self.subscribers(tuner);
        let mut left: Vec<Subscriber> = Vec::new();
        let mut notices: Vec<Notice> = Vec::new();
        let mut k: usize = 0;
        while k < all.len()
            invariant
                k <= all@.len(),
                outcomes@.len() == all@.len(),
                (left@, notices@) == handed_out(all@.take(k as int), outcomes@, len),
            decreases all@.len() - k,
        {
            let s: Subscriber = all[k];
            proof {
                assert(all@.take(k + 1).drop_last() =~= all@.take(k as int));
                assert(all@.take(k + 1).last() == s);
            }
            match outcomes[k] {
                Outcome::Sent => {
                    flush_drops(s, &mut notices);
                    left.push(Subscriber { token: s.token, client: s.client, dropped: 0 });
                },
                Outcome::Full => {
                    let dropped: u64 = s.dropped.saturating_add(len);
                    left.push(Subscriber { token: s.token, client: s.client, dropped });
                },
                Outcome::Closed => {},
            }
            k = k + 1;
        }
        assert(all@.take(k as int) =~= all@);
        self.sessions[i].subscribers = left;
        assert(self@.sessions =~= delivered(before, tuner, outcomes@, len).0.sessions);
        notices
    }

    /// Takes a stream out of those to join if it has no client left, so that no one
    /// joins it any more; whether it did.
    pub fn close_if_idle(&mut self, tuner: usize) -> (r: bool)
        requires
            old(self)@.wf(),
            old(self)@.streams(tuner),
        ensures
            (final(self)@, r) == idled(old(self)@, tuner),
            final(self)@.wf(),
    {
        proof {
            laws::idling_keeps(self@, tuner);
            place_is_one(self@.sessions, tuner);
        }
        let ghost before = self@;
        let i: usize = self.find(tuner);
        assert(before.sessions[i as int] == self.sessions@[i as int]@);
        let idle: bool = self.sessions[i].subscribers.len() == 0;
        if idle {
            self.sessions[i].running = false;
        }
        assert(self@.sessions =~= idled(before, tuner).0.sessions);
        idle
    }

    /// Ends a stream, whose tuner is to be closed now; what its clients are to be
    /// told.
    pub fn end(&mut self, tuner: usize) -> (r: Vec<Notice>)
        requires
            old(self)@.wf(),
            old(self)@.streams(tuner),
        ensures
            (final(self)@, r@) == ended(old(self)@, tuner),
            final(self)@.wf(),
    {
        proof {
            laws::ending_keeps(self@, tuner);
            place_is_one(self@.sessions, tuner);
            assert(self@.sessions.contains(self@.session(tuner)));
        }
        let ghost before = self@;
        let all: Vec<Subscriber> = self.subscribers(tuner);
        let i: usize = self.find(tuner);
        let session: Session = self.sessions.remove(i);
        assert(self@.sessions =~= before.sessions.remove(i as int));
        self.closing.set(tuner, true);
        self.unattached = keep_tokens_elsewhere(&self.unattached, &self.tickets, tuner);
        self.tickets = keep_tickets_elsewhere(&self.tickets, tuner);
        let mut notices: Vec<Notice> = Vec::new();
        let mut k: usize = 0;
        while k < all.len()
            invariant
                k <= all@.len(),
                notices@ == farewells(all@.take(k as int)),
            decreases all@.len() - k,
        {
            let s: Subscriber = all[k];
            proof {
                assert(all@.take(k + 1).drop_last() =~= all@.take(k as int));
                assert(all@.take(k + 1).last() == s);
            }
            flush_drops(s, &mut notices);
            notices.push(Notice { client: s.client, event: Event::Ended(s.token) });
            k = k + 1;
        }
        assert(all@.take(k as int) =~= all@);
        notices
    }

    /// Takes note that a tuner is closed, and free for another stream.
    pub fn close(&mut self, tuner: usize)
        requires
            old(self)@.wf(),
            tuner < old(self)@.busy.len(),
            old(self)@.closing[tuner as int],
        ensures
            final(self)@ == shut(old(self)@, tuner),
            final(self)@.wf(),
    {
        proof {
            laws::shutting_keeps(self@, tuner);
        }
        self.busy.set(tuner, false);
        self.closing.set(tuner, false);
    }
}

} // verus!
