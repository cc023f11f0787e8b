//! What holds of the streams whatever happens.

use vstd::prelude::*;

use crate::daemon;
use crate::daemon::acquire;
use crate::daemon::acquire::{Refusal, Start, TunerView};
use crate::daemon::{Event, Notice, Outcome, Reservation, SessionView, StateView, Subscriber, Ticket};
use crate::lists;
use crate::proto;
use crate::types::{StreamFormat, System, TuneParams};

verus! {

proof fn has_a_stream(v: StateView, s: SessionView)
    requires
        v.sessions.contains(s),
    ensures
        v.streams(s.tuner),
{
    daemon::place_is_one(v.sessions, s.tuner);
}

proof fn has_a_ticket(tickets: Seq<Ticket>, t: Ticket)
    requires
        tickets.contains(t),
    ensures
        daemon::ticket_of(tickets, t.token) is Some,
{
    daemon::ticket_is_one(tickets, t.token);
}

proof fn ticket_is(tickets: Seq<Ticket>, t: Ticket)
    requires
        lists::distinct_by(tickets, daemon::ticket_key()),
        tickets.contains(t),
    ensures
        daemon::ticket_of(tickets, t.token) == Some(t.tuner),
{
    daemon::ticket_is_one(tickets, t.token);
    let tuner = daemon::ticket_of(tickets, t.token)->0;
    lists::same_key(tickets, t, Ticket { token: t.token, tuner }, daemon::ticket_key());
}

/// Taking a tuner keeps what always holds. It is taken only if no one had it.
pub proof fn reserving_keeps(v: StateView, tuner: usize, wait: bool)
    requires
        v.wf(),
        tuner < v.busy.len(),
    ensures
        daemon::reserved(v, tuner, wait).0.wf(),
        daemon::reserved(v, tuner, wait).1 == Reservation::Taken ==> !v.busy[tuner as int]
            && daemon::reserved(v, tuner, wait).0.busy[tuner as int]
            && !daemon::reserved(v, tuner, wait).0.closing[tuner as int]
            && !daemon::reserved(v, tuner, wait).0.streams(tuner),
{
    daemon::place_is_one(v.sessions, tuner);
    let after = daemon::reserved(v, tuner, wait).0;
    assert forall|s: SessionView| #[trigger] after.sessions.contains(s) implies after.busy[s.tuner as int] by {
        assert(v.sessions.contains(s));
    }
    assert forall|t: Ticket| #[trigger] after.tickets.contains(t) implies t.token != 0
        && after.streams(t.tuner) by {
        assert(v.tickets.contains(t));
    }
}

/// Giving a tuner back whose stream did not start keeps what always holds.
pub proof fn giving_back_keeps(v: StateView, tuner: usize)
    requires
        v.wf(),
        tuner < v.busy.len(),
        !v.closing[tuner as int],
        !v.streams(tuner),
    ensures
        daemon::given_back(v, tuner).wf(),
        !daemon::given_back(v, tuner).busy[tuner as int],
{
    daemon::place_is_one(v.sessions, tuner);
    let after = daemon::given_back(v, tuner);
    assert forall|s: SessionView| #[trigger] after.sessions.contains(s) implies after.busy[s.tuner as int] by {
        assert(v.sessions.contains(s));
    }
    assert forall|t: Ticket| #[trigger] after.tickets.contains(t) implies t.token != 0
        && after.streams(t.tuner) by {
        assert(v.tickets.contains(t));
    }
}

/// Closing a tuner keeps what always holds, and frees the tuner.
pub proof fn shutting_keeps(v: StateView, tuner: usize)
    requires
        v.wf(),
        tuner < v.busy.len(),
        v.closing[tuner as int],
    ensures
        daemon::shut(v, tuner).wf(),
        daemon::reserved(daemon::shut(v, tuner), tuner, false).1 == Reservation::Taken,
{
    let after = daemon::shut(v, tuner);
    assert forall|s: SessionView| #[trigger] after.sessions.contains(s) implies after.busy[s.tuner as int]
        && !after.closing[s.tuner as int] by {
        assert(v.sessions.contains(s));
    }
    assert forall|t: Ticket| #[trigger] after.tickets.contains(t) implies t.token != 0
        && after.streams(t.tuner) by {
        assert(v.tickets.contains(t));
    }
}

/// Starting a stream on a tuner taken keeps what always holds.
pub proof fn opening_keeps(v: StateView, tuner: usize, params: TuneParams, format: StreamFormat)
    requires
        v.wf(),
        tuner < v.busy.len(),
        v.busy[tuner as int],
        !v.closing[tuner as int],
        !v.streams(tuner),
    ensures
        daemon::opened(v, tuner, params, format).wf(),
        daemon::opened(v, tuner, params, format).streams(tuner),
        daemon::opened(v, tuner, params, format).session(tuner) == (SessionView {
            tuner,
            params,
            format,
            running: true,
            subscribers: Seq::empty(),
        }),
{
    let after = daemon::opened(v, tuner, params, format);
    let s = after.sessions.last();
    daemon::place_is_one(v.sessions, tuner);
    lists::push_facts(v.sessions, s, daemon::session_key());
    assert(lists::distinct_by(after.sessions, daemon::session_key()));
    assert(after.sessions.contains(s));
    has_a_stream(after, s);
    daemon::place_is_one(after.sessions, tuner);
    lists::same_key(after.sessions, s, after.session(tuner), daemon::session_key());
    assert forall|y: SessionView| #[trigger] after.sessions.contains(y) implies {
        &&& y.tuner < after.busy.len()
        &&& after.busy[y.tuner as int]
        &&& !after.closing[y.tuner as int]
        &&& lists::distinct_by(y.subscribers, daemon::subscriber_key())
        &&& forall|c: Subscriber| #[trigger]
            y.subscribers.contains(c) ==> after.tickets.contains(
                Ticket { token: c.token, tuner: y.tuner },
            )
    } by {
        if y != s {
            assert(v.sessions.contains(y));
        }
    }
    assert forall|t: Ticket| #[trigger] after.tickets.contains(t) implies t.token != 0
        && after.streams(t.tuner) by {
        assert(v.tickets.contains(t));
        daemon::place_is_one(v.sessions, t.tuner);
        has_a_stream(after, v.session(t.tuner));
    }
}

/// What changing the stream of a tuner leaves of the others.
proof fn stream_changed(v: StateView, after: StateView, tuner: usize, s: SessionView)
    requires
        v.wf(),
        v.streams(tuner),
        s.tuner == tuner,
        after.sessions == v.sessions.update(daemon::place(v.sessions, tuner), s),
    ensures
        lists::distinct_by(after.sessions, daemon::session_key()),
        forall|y: SessionView| #[trigger]
            after.sessions.contains(y) <==> y == s || (v.sessions.contains(y) && y.tuner != tuner),
        forall|t: usize| #[trigger] v.streams(t) ==> after.streams(t),
        after.session(tuner) == s,
        v.sessions.contains(v.session(tuner)),
        v.session(tuner).tuner == tuner,
{
    let i = daemon::place(v.sessions, tuner);
    daemon::place_is_one(v.sessions, tuner);
    lists::update_facts(v.sessions, i, s, daemon::session_key());
    assert forall|y: SessionView| #[trigger]
        after.sessions.contains(y) <==> y == s || (v.sessions.contains(y) && y.tuner != tuner) by {
    }
    assert forall|t: usize| #[trigger] v.streams(t) implies after.streams(t) by {
        daemon::place_is_one(v.sessions, t);
        if t == tuner {
            assert(after.sessions.contains(s));
            has_a_stream(after, s);
        } else {
            assert(after.sessions.contains(v.session(t)));
            has_a_stream(after, v.session(t));
        }
    }
    assert(after.sessions.contains(s));
    has_a_stream(after, s);
    daemon::place_is_one(after.sessions, tuner);
    lists::same_key(after.sessions, s, after.session(tuner), daemon::session_key());
}

/// A client that joins has a token of its own, which stands for the stream and
/// waits for its data connection.
pub proof fn joining_keeps(v: StateView, tuner: usize, client: u64, token: u64)
    requires
        v.wf(),
        v.streams(tuner),
        v.is_fresh(token),
    ensures
        daemon::joined(v, tuner, client, token).wf(),
        daemon::ticket_of(daemon::joined(v, tuner, client, token).tickets, token) == Some(tuner),
        daemon::attached(daemon::joined(v, tuner, client, token), token).1,
{
    let after = daemon::joined(v, tuner, client, token);
    let old = v.session(tuner);
    let c0 = Subscriber { token, client, dropped: 0 };
    let t0 = Ticket { token, tuner };
    let s = SessionView { subscribers: old.subscribers.push(c0), ..old };
    daemon::place_is_one(v.sessions, tuner);
    stream_changed(v, after, tuner, s);
    daemon::ticket_is_one(v.tickets, token);
    lists::push_facts(v.tickets, t0, daemon::ticket_key());
    lists::push_facts(old.subscribers, c0, daemon::subscriber_key());
    lists::push_facts(v.unattached, token, daemon::token_key());
    assert forall|c: Subscriber| #[trigger] old.subscribers.contains(c) implies c.token != token by {
        assert(v.tickets.contains(Ticket { token: c.token, tuner }));
    }
    assert forall|y: SessionView| #[trigger] after.sessions.contains(y) implies {
        &&& y.tuner < after.busy.len()
        &&& after.busy[y.tuner as int]
        &&& !after.closing[y.tuner as int]
        &&& lists::distinct_by(y.subscribers, daemon::subscriber_key())
        &&& forall|c: Subscriber| #[trigger]
            y.subscribers.contains(c) ==> after.tickets.contains(
                Ticket { token: c.token, tuner: y.tuner },
            )
    } by {
        assert forall|c: Subscriber| #[trigger] y.subscribers.contains(c) implies after.tickets.contains(
            Ticket { token: c.token, tuner: y.tuner },
        ) by {
            if y == s {
                if c != c0 {
                    assert(old.subscribers.contains(c));
                    assert(v.tickets.contains(Ticket { token: c.token, tuner }));
                }
            } else {
                assert(v.sessions.contains(y));
                assert(v.tickets.contains(Ticket { token: c.token, tuner: y.tuner }));
            }
        }
    }
    assert forall|t: Ticket| #[trigger] after.tickets.contains(t) implies t.token != 0
        && after.streams(t.tuner) by {
        if t != t0 {
            assert(v.tickets.contains(t));
        }
        assert(v.streams(t.tuner));
    }
    assert forall|t: u64| #[trigger] v.unattached.contains(t) implies t != token by {
        assert(daemon::ticket_of(v.tickets, t) is Some);
    }
    assert(lists::distinct_by(after.unattached, daemon::token_key()));
    assert forall|t: u64| #[trigger] after.unattached.contains(t) implies daemon::ticket_of(
        after.tickets,
        t,
    ) is Some by {
        if t == token {
            has_a_ticket(after.tickets, t0);
        } else {
            assert(v.unattached.contains(t));
            daemon::ticket_is_one(v.tickets, t);
            has_a_ticket(
                after.tickets,
                Ticket { token: t, tuner: daemon::ticket_of(v.tickets, t)->0 },
            );
        }
    }
    ticket_is(after.tickets, t0);
    assert(after.unattached.contains(token));
}

/// A data connection takes a stream at most once, and what always holds is kept.
pub proof fn attaching_keeps(v: StateView, token: u64)
    requires
        v.wf(),
    ensures
        daemon::attached(v, token).0.wf(),
        !daemon::attached(daemon::attached(v, token).0, token).1,
{
    let after = daemon::attached(v, token).0;
    lists::filter_facts(v.unattached, daemon::other_token(token), daemon::token_key());
    assert forall|t: Ticket| #[trigger] after.tickets.contains(t) implies t.token != 0
        && after.streams(t.tuner) by {
        assert(v.tickets.contains(t));
    }
    assert forall|t: u64| #[trigger] after.unattached.contains(t) implies daemon::ticket_of(
        after.tickets,
        t,
    ) is Some by {
        assert(v.unattached.contains(t));
    }
    assert forall|s: SessionView| #[trigger] after.sessions.contains(s) implies after.busy[s.tuner as int] by {
        assert(v.sessions.contains(s));
    }
}

/// Letting go of a stream keeps what always holds. The token stands for nothing
/// any more, and once the last client let go no one joins the stream.
pub proof fn releasing_keeps(v: StateView, token: u64)
    requires
        v.wf(),
    ensures
        daemon::released(v, token).0.wf(),
        daemon::ticket_of(daemon::released(v, token).0.tickets, token) is None,
        !daemon::released(v, token).0.unattached.contains(token),
        daemon::released(v, token).1 matches Some(tuner) ==> {
            &&& daemon::released(v, token).0.streams(tuner)
            &&& !daemon::released(v, token).0.session(tuner).running
            &&& daemon::released(v, token).0.session(tuner).subscribers.len() == 0
        },
        daemon::released(v, token).0.busy == v.busy,
        daemon::released(v, token).0.closing == v.closing,
{
    let after = daemon::released(v, token).0;
    lists::filter_facts(v.unattached, daemon::other_token(token), daemon::token_key());
    daemon::ticket_is_one(v.tickets, token);
    match daemon::ticket_of(v.tickets, token) {
        None => {
            assert forall|t: u64| #[trigger] after.unattached.contains(t) implies daemon::ticket_of(
                after.tickets,
                t,
            ) is Some by {
                assert(v.unattached.contains(t));
            }
            assert forall|t: Ticket| #[trigger] after.tickets.contains(t) implies t.token != 0
                && after.streams(t.tuner) by {
                assert(v.tickets.contains(t));
            }
        },
        Some(tuner) => {
            assert(v.tickets.contains(Ticket { token, tuner }));
            let old = v.session(tuner);
            let left = old.subscribers.filter(daemon::other_subscriber(token));
            let s = SessionView {
                subscribers: left,
                running: old.running && left.len() != 0,
                ..old
            };
            daemon::place_is_one(v.sessions, tuner);
            assert(after.sessions =~= v.sessions.update(daemon::place(v.sessions, tuner), s));
            stream_changed(v, after, tuner, s);
            assert(after.streams(tuner)) by {
                assert(v.streams(tuner));
            }
            lists::filter_facts(
                v.tickets,
                daemon::ticket_of_other(token),
                daemon::ticket_key(),
            );
            lists::filter_facts(
                old.subscribers,
                daemon::other_subscriber(token),
                daemon::subscriber_key(),
            );
            assert forall|y: SessionView| #[trigger] after.sessions.contains(y) implies {
                &&& y.tuner < after.busy.len()
                &&& after.busy[y.tuner as int]
                &&& !after.closing[y.tuner as int]
                &&& lists::distinct_by(y.subscribers, daemon::subscriber_key())
                &&& forall|c: Subscriber| #[trigger]
                    y.subscribers.contains(c) ==> after.tickets.contains(
                        Ticket { token: c.token, tuner: y.tuner },
                    )
            } by {
                assert forall|c: Subscriber| #[trigger]
                    y.subscribers.contains(c) implies after.tickets.contains(
                    Ticket { token: c.token, tuner: y.tuner },
                ) by {
                    if y == s {
                        assert(old.subscribers.contains(c));
                        assert(v.tickets.contains(Ticket { token: c.token, tuner }));
                    } else {
                        assert(v.sessions.contains(y));
                        let t = Ticket { token: c.token, tuner: y.tuner };
                        assert(v.tickets.contains(t));
                        if c.token == token {
                            lists::same_key(
                                v.tickets,
                                t,
                                Ticket { token, tuner },
                                daemon::ticket_key(),
                            );
                        }
                    }
                }
            }
            assert forall|t: Ticket| #[trigger] after.tickets.contains(t) implies t.token != 0
                && after.streams(t.tuner) by {
                assert(v.tickets.contains(t));
                assert(v.streams(t.tuner));
            }
            assert forall|t: u64| #[trigger] after.unattached.contains(t) implies daemon::ticket_of(
                after.tickets,
                t,
            ) is Some by {
                assert(v.unattached.contains(t));
                daemon::ticket_is_one(v.tickets, t);
                let held = Ticket { token: t, tuner: daemon::ticket_of(v.tickets, t)->0 };
                assert(after.tickets.contains(held));
                has_a_ticket(after.tickets, held);
            }
            daemon::ticket_is_one(after.tickets, token);
        },
    }
}

proof fn handed_out_facts(subscribers: Seq<Subscriber>, outcomes: Seq<Outcome>, len: u64)
    requires
        lists::distinct_by(subscribers, daemon::subscriber_key()),
    ensures
        lists::distinct_by(
            daemon::handed_out(subscribers, outcomes, len).0,
            daemon::subscriber_key(),
        ),
        forall|c: Subscriber| #[trigger]
            daemon::handed_out(subscribers, outcomes, len).0.contains(c) ==> exists|b: Subscriber|
                subscribers.contains(b) && b.token == c.token && b.client == c.client,
    decreases subscribers.len(),
{
    if subscribers.len() > 0 {
        let rest = subscribers.drop_last();
        let last = subscribers.last();
        assert(lists::distinct_by(rest, daemon::subscriber_key())) by {
            assert forall|i: int, j: int|
                #![trigger rest[i], rest[j]]
                0 <= i < j < rest.len() implies daemon::subscriber_key()(rest[i])
                != daemon::subscriber_key()(rest[j]) by {
                assert(rest[i] == subscribers[i] && rest[j] == subscribers[j]);
            }
        }
        handed_out_facts(rest, outcomes, len);
        let left = daemon::handed_out(rest, outcomes, len).0;
        let out = daemon::handed_out(subscribers, outcomes, len).0;
        assert forall|c: Subscriber| #[trigger] left.contains(c) implies c.token != last.token && exists|
            b: Subscriber,
        |
            subscribers.contains(b) && b.token == c.token && b.client == c.client by {
            let b = choose|b: Subscriber|
                rest.contains(b) && b.token == c.token && b.client == c.client;
            let i = choose|i: int| 0 <= i < rest.len() && rest[i] == b;
            assert(subscribers[i] == b && subscribers[subscribers.len() - 1] == last);
            assert(daemon::subscriber_key()(subscribers[i]) != daemon::subscriber_key()(
                subscribers[subscribers.len() - 1],
            ));
            assert(subscribers.contains(b));
        }
        assert(subscribers.contains(last));
        if out.len() > left.len() {
            let x = out.last();
            assert(out =~= left.push(x));
            lists::push_facts(left, x, daemon::subscriber_key());
            assert(x.token == last.token && x.client == last.client);
            assert forall|c: Subscriber| #[trigger] left.contains(c) implies daemon::subscriber_key()(c)
                != daemon::subscriber_key()(x) by {
            }
        }
    }
}

/// Handing a chunk out keeps what always holds, and touches no other stream.
pub proof fn delivering_keeps(v: StateView, tuner: usize, outcomes: Seq<Outcome>, len: u64)
    requires
        v.wf(),
        v.streams(tuner),
    ensures
        daemon::delivered(v, tuner, outcomes, len).0.wf(),
        forall|y: SessionView| y.tuner != tuner ==> (#[trigger] daemon::delivered(
            v,
            tuner,
            outcomes,
            len,
        ).0.sessions.contains(y) <==> v.sessions.contains(y)),
{
    let after = daemon::delivered(v, tuner, outcomes, len).0;
    let old = v.session(tuner);
    daemon::place_is_one(v.sessions, tuner);
    handed_out_facts(old.subscribers, outcomes, len);
    let s = SessionView {
        subscribers: daemon::handed_out(old.subscribers, outcomes, len).0,
        ..old
    };
    stream_changed(v, after, tuner, s);
    assert forall|y: SessionView| #[trigger] after.sessions.contains(y) implies {
        &&& y.tuner < after.busy.len()
        &&& after.busy[y.tuner as int]
        &&& !after.closing[y.tuner as int]
        &&& lists::distinct_by(y.subscribers, daemon::subscriber_key())
        &&& forall|c: Subscriber| #[trigger]
            y.subscribers.contains(c) ==> after.tickets.contains(
                Ticket { token: c.token, tuner: y.tuner },
            )
    } by {
        if y == s {
            assert forall|c: Subscriber| #[trigger]
                y.subscribers.contains(c) implies after.tickets.contains(
                Ticket { token: c.token, tuner: y.tuner },
            ) by {
                let b = choose|b: Subscriber|
                    old.subscribers.contains(b) && b.token == c.token && b.client == c.client;
                assert(v.tickets.contains(Ticket { token: b.token, tuner }));
            }
        } else {
            assert(v.sessions.contains(y));
        }
    }
    assert forall|t: Ticket| #[trigger] after.tickets.contains(t) implies t.token != 0
        && after.streams(t.tuner) by {
        assert(v.tickets.contains(t));
        assert(v.streams(t.tuner));
    }
}

/// Taking a stream no one takes out of those to join keeps what always holds.
pub proof fn idling_keeps(v: StateView, tuner: usize)
    requires
        v.wf(),
        v.streams(tuner),
    ensures
        daemon::idled(v, tuner).0.wf(),
        daemon::idled(v, tuner).1 ==> !daemon::idled(v, tuner).0.session(tuner).running,
        !daemon::idled(v, tuner).1 ==> daemon::idled(v, tuner).0 == v,
{
    let after = daemon::idled(v, tuner).0;
    let old = v.session(tuner);
    daemon::place_is_one(v.sessions, tuner);
    let idle = old.subscribers.len() == 0;
    let s = SessionView { running: old.running && !idle, ..old };
    stream_changed(v, after, tuner, s);
    if !idle {
        assert(s == old);
        assert(after =~= v);
    }
    assert forall|y: SessionView| #[trigger] after.sessions.contains(y) implies {
        &&& y.tuner < after.busy.len()
        &&& after.busy[y.tuner as int]
        &&& !after.closing[y.tuner as int]
        &&& lists::distinct_by(y.subscribers, daemon::subscriber_key())
        &&& forall|c: Subscriber| #[trigger]
            y.subscribers.contains(c) ==> after.tickets.contains(
                Ticket { token: c.token, tuner: y.tuner },
            )
    } by {
        if y != s {
            assert(v.sessions.contains(y));
        }
    }
    assert forall|t: Ticket| #[trigger] after.tickets.contains(t) implies t.token != 0
        && after.streams(t.tuner) by {
        assert(v.tickets.contains(t));
        assert(v.streams(t.tuner));
    }
}

proof fn removed(sessions: Seq<SessionView>, i: int)
    requires
        0 <= i < sessions.len(),
        lists::distinct_by(sessions, daemon::session_key()),
    ensures
        lists::distinct_by(sessions.remove(i), daemon::session_key()),
        forall|y: SessionView| #[trigger]
            sessions.remove(i).contains(y) <==> sessions.contains(y) && y.tuner
                != sessions[i].tuner,
{
    let out = sessions.remove(i);
    let key = daemon::session_key();
    assert forall|a: int, b: int|
        #![trigger out[a], out[b]]
        0 <= a < b < out.len() implies key(out[a]) != key(out[b]) by {
        let a0 = if a < i {
            a
        } else {
            a + 1
        };
        let b0 = if b < i {
            b
        } else {
            b + 1
        };
        assert(out[a] == sessions[a0] && out[b] == sessions[b0]);
    }
    assert forall|y: SessionView| #[trigger]
        out.contains(y) <==> sessions.contains(y) && y.tuner != sessions[i].tuner by {
        if out.contains(y) {
            let k = choose|k: int| 0 <= k < out.len() && out[k] == y;
            let k0 = if k < i {
                k
            } else {
                k + 1
            };
            assert(sessions[k0] == y);
            if k0 < i {
                assert(key(sessions[k0]) != key(sessions[i]));
            } else {
                assert(key(sessions[i]) != key(sessions[k0]));
            }
        }
        if sessions.contains(y) && y.tuner != sessions[i].tuner {
            let k0 = choose|k: int| 0 <= k < sessions.len() && sessions[k] == y;
            let k = if k0 < i {
                k0
            } else {
                k0 - 1
            };
            assert(out[k] == y);
        }
    }
}

/// A stream that ends leaves no token behind, and its tuner stays in use until it
/// is closed; what always holds is kept.
pub proof fn ending_keeps(v: StateView, tuner: usize)
    requires
        v.wf(),
        v.streams(tuner),
    ensures
        daemon::ended(v, tuner).0.wf(),
        !daemon::ended(v, tuner).0.streams(tuner),
        daemon::ended(v, tuner).0.busy[tuner as int],
        daemon::ended(v, tuner).0.closing[tuner as int],
        daemon::reserved(daemon::ended(v, tuner).0, tuner, false).1 == Reservation::Busy,
        forall|t: Ticket| #[trigger]
            daemon::ended(v, tuner).0.tickets.contains(t) <==> v.tickets.contains(t) && t.tuner
                != tuner,
{
    let after = daemon::ended(v, tuner).0;
    let i = daemon::place(v.sessions, tuner);
    daemon::place_is_one(v.sessions, tuner);
    removed(v.sessions, i);
    daemon::place_is_one(after.sessions, tuner);
    lists::filter_facts(v.tickets, daemon::ticket_elsewhere(tuner), daemon::ticket_key());
    lists::filter_facts(
        v.unattached,
        daemon::token_elsewhere(v.tickets, tuner),
        daemon::token_key(),
    );
    assert(v.sessions.contains(v.session(tuner)));
    assert forall|y: SessionView| #[trigger] after.sessions.contains(y) implies {
        &&& y.tuner < after.busy.len()
        &&& after.busy[y.tuner as int]
        &&& !after.closing[y.tuner as int]
        &&& lists::distinct_by(y.subscribers, daemon::subscriber_key())
        &&& forall|c: Subscriber| #[trigger]
            y.subscribers.contains(c) ==> after.tickets.contains(
                Ticket { token: c.token, tuner: y.tuner },
            )
    } by {
        assert(v.sessions.contains(y));
        assert forall|c: Subscriber| #[trigger]
            y.subscribers.contains(c) implies after.tickets.contains(
            Ticket { token: c.token, tuner: y.tuner },
        ) by {
            assert(v.tickets.contains(Ticket { token: c.token, tuner: y.tuner }));
        }
    }
    assert forall|t: Ticket| #[trigger] after.tickets.contains(t) implies t.token != 0
        && after.streams(t.tuner) by {
        assert(v.tickets.contains(t));
        assert(v.streams(t.tuner));
        daemon::place_is_one(v.sessions, t.tuner);
        assert(after.sessions.contains(v.session(t.tuner)));
        has_a_stream(after, v.session(t.tuner));
    }
    assert forall|t: u64| #[trigger] after.unattached.contains(t) implies daemon::ticket_of(
        after.tickets,
        t,
    ) is Some by {
        assert(v.unattached.contains(t));
        daemon::ticket_is_one(v.tickets, t);
        let held = Ticket { token: t, tuner: daemon::ticket_of(v.tickets, t)->0 };
        assert(after.tickets.contains(held));
        has_a_ticket(after.tickets, held);
    }
}

/// The bytes the notices say are lost of a stream.
pub open spec fn told_lost(notices: Seq<Notice>, token: u64) -> int
    decreases notices.len(),
{
    if notices.len() == 0 {
        0
    } else {
        told_lost(notices.drop_last(), token) + match notices.last().event {
            Event::Dropped(d) => if d.stream_token == token {
                d.dropped_bytes as int
            } else {
                0
            },
            Event::Ended(_) => 0,
        }
    }
}

/// The bytes a client lost that it has yet to be told of.
pub open spec fn owed(subscribers: Seq<Subscriber>, token: u64) -> int
    decreases subscribers.len(),
{
    if subscribers.len() == 0 {
        0
    } else {
        owed(subscribers.drop_last(), token) + if subscribers.last().token == token {
            subscribers.last().dropped as int
        } else {
            0
        }
    }
}

/// The bytes of a chunk a client loses for having fallen behind.
pub open spec fn losing(
    subscribers: Seq<Subscriber>,
    outcomes: Seq<Outcome>,
    len: u64,
    token: u64,
) -> int
    decreases subscribers.len(),
{
    if subscribers.len() == 0 {
        0
    } else {
        losing(subscribers.drop_last(), outcomes, len, token) + if subscribers.last().token
            == token && outcomes[subscribers.len() - 1] == Outcome::Full {
            len as int
        } else {
            0
        }
    }
}

proof fn told_of_two(a: Seq<Notice>, b: Seq<Notice>, token: u64)
    ensures
        told_lost(a + b, token) == told_lost(a, token) + told_lost(b, token),
    decreases b.len(),
{
    if b.len() == 0 {
        assert(a + b =~= a);
    } else {
        assert((a + b).drop_last() =~= a + b.drop_last());
        assert((a + b).last() == b.last());
        told_of_two(a, b.drop_last(), token);
    }
}

proof fn told_of_one(s: Subscriber, token: u64)
    ensures
        told_lost(daemon::lost(s), token) == if s.token == token {
            s.dropped as int
        } else {
            0
        },
{
    reveal_with_fuel(told_lost, 2);
    if s.dropped > 0 {
        assert(daemon::lost(s).drop_last() =~= Seq::empty());
    }
}

/// No byte lost goes uncounted: when a chunk is handed out, what a client that stays
/// is told and what it is still owed make up what it was owed and what it loses now.
pub proof fn drops_are_counted(
    subscribers: Seq<Subscriber>,
    outcomes: Seq<Outcome>,
    len: u64,
    token: u64,
)
    requires
        forall|i: int|
            0 <= i < subscribers.len() && (#[trigger] subscribers[i]).token == token
                ==> outcomes[i] != Outcome::Closed && subscribers[i].dropped + len <= u64::MAX,
    ensures
        ({
            let (left, told) = daemon::handed_out(subscribers, outcomes, len);
            told_lost(told, token) + owed(left, token) == owed(subscribers, token) + losing(
                subscribers,
                outcomes,
                len,
                token,
            )
        }),
    decreases subscribers.len(),
{
    if subscribers.len() > 0 {
        let rest = subscribers.drop_last();
        let s = subscribers.last();
        let (left, told) = daemon::handed_out(rest, outcomes, len);
        assert(subscribers[subscribers.len() - 1] == s);
        assert forall|i: int|
            0 <= i < rest.len() && (#[trigger] rest[i]).token == token implies outcomes[i]
            != Outcome::Closed && rest[i].dropped + len <= u64::MAX by {
            assert(rest[i] == subscribers[i]);
        }
        drops_are_counted(rest, outcomes, len, token);
        told_of_two(told, daemon::lost(s), token);
        told_of_one(s, token);
        match outcomes[subscribers.len() - 1] {
            Outcome::Sent => {
                assert(left.push(Subscriber { dropped: 0, ..s }).drop_last() =~= left);
            },
            Outcome::Full => {
                let more = Subscriber { dropped: daemon::more_dropped(s.dropped, len), ..s };
                assert(left.push(more).drop_last() =~= left);
            },
            Outcome::Closed => {},
        }
    }
}

/// A client whose stream ends is told of every byte it lost that it was still owed.
pub proof fn ends_settle_drops(subscribers: Seq<Subscriber>, token: u64)
    ensures
        told_lost(daemon::farewells(subscribers), token) == owed(subscribers, token),
    decreases subscribers.len(),
{
    if subscribers.len() > 0 {
        let rest = subscribers.drop_last();
        let s = subscribers.last();
        let before = daemon::farewells(rest);
        let bye = Notice { client: s.client, event: Event::Ended(s.token) };
        ends_settle_drops(rest, token);
        told_of_two(before, daemon::lost(s), token);
        told_of_one(s, token);
        assert((before + daemon::lost(s)).push(bye).drop_last() =~= before + daemon::lost(s));
    }
}

/// While another client takes a stream, one letting go of it leaves the stream to it.
pub proof fn others_keep_the_stream(v: StateView, token: u64, other: Subscriber)
    requires
        v.wf(),
        daemon::ticket_of(v.tickets, token) is Some,
        other.token != token,
        v.session(daemon::ticket_of(v.tickets, token)->0).subscribers.contains(other),
    ensures
        ({
            let tuner = daemon::ticket_of(v.tickets, token)->0;
            let (after, last) = daemon::released(v, token);
            &&& last is None
            &&& after.streams(tuner)
            &&& after.session(tuner).running == v.session(tuner).running
            &&& after.session(tuner).subscribers.contains(other)
        }),
{
    let tuner = daemon::ticket_of(v.tickets, token)->0;
    let (after, last) = daemon::released(v, token);
    let old = v.session(tuner);
    let left = old.subscribers.filter(daemon::other_subscriber(token));
    lists::filter_facts(
        old.subscribers,
        daemon::other_subscriber(token),
        daemon::subscriber_key(),
    );
    assert(left.contains(other));
    assert(left.len() > 0);
    daemon::ticket_is_one(v.tickets, token);
    assert(v.tickets.contains(Ticket { token, tuner }));
    daemon::place_is_one(v.sessions, tuner);
    stream_changed(v, after, tuner, SessionView { subscribers: left, ..old });
}

/// The tuner goes back once the last client of its stream lets go of it: the stream
/// ends with no one left to tell, and once its tuner is closed the next request can
/// take it.
pub proof fn last_to_leave_frees_the_tuner(v: StateView, token: u64)
    requires
        v.wf(),
        daemon::released(v, token).1 is Some,
    ensures
        ({
            let (left, tuner) = (daemon::released(v, token).0, daemon::released(v, token).1->0);
            let (ended, told) = daemon::ended(left, tuner);
            let free = daemon::shut(ended, tuner);
            &&& told.len() == 0
            &&& daemon::reserved(ended, tuner, false).1 == Reservation::Busy
            &&& free.wf()
            &&& !free.streams(tuner)
            &&& daemon::reserved(free, tuner, false).1 == Reservation::Taken
        }),
{
    let (left, tuner) = (daemon::released(v, token).0, daemon::released(v, token).1->0);
    releasing_keeps(v, token);
    ending_keeps(left, tuner);
    let ended = daemon::ended(left, tuner).0;
    daemon::place_is_one(left.sessions, tuner);
    assert(left.sessions.contains(left.session(tuner)));
    assert(ended.busy == left.busy);
    shutting_keeps(ended, tuner);
}

/// When a stream ends every client of it is told so, each of its own stream, and nobody
/// else is told anything.
pub proof fn all_clients_are_told_of_the_end(subscribers: Seq<Subscriber>)
    ensures
        forall|i: int|
            0 <= i < subscribers.len() ==> daemon::farewells(subscribers).contains(
                Notice {
                    client: (#[trigger] subscribers[i]).client,
                    event: Event::Ended(subscribers[i].token),
                },
            ),
        forall|k: int|
            0 <= k < daemon::farewells(subscribers).len() ==> exists|i: int|
                0 <= i < subscribers.len() && concerns(
                    #[trigger] daemon::farewells(subscribers)[k],
                    #[trigger] subscribers[i],
                ),
    decreases subscribers.len(),
{
    if subscribers.len() > 0 {
        let rest = subscribers.drop_last();
        let s = subscribers.last();
        all_clients_are_told_of_the_end(rest);
        let before = daemon::farewells(rest);
        let bye = Notice { client: s.client, event: Event::Ended(s.token) };
        let all = daemon::farewells(subscribers);
        assert(all == (before + daemon::lost(s)).push(bye));
        assert forall|i: int| 0 <= i < subscribers.len() implies all.contains(
            Notice {
                client: (#[trigger] subscribers[i]).client,
                event: Event::Ended(subscribers[i].token),
            },
        ) by {
            if i < rest.len() {
                assert(rest[i] == subscribers[i]);
                let n = Notice { client: rest[i].client, event: Event::Ended(rest[i].token) };
                assert(before.contains(n));
                let k = choose|k: int| 0 <= k < before.len() && before[k] == n;
                assert(all[k] == n);
            } else {
                assert(all[all.len() - 1] == bye);
            }
        }
        assert forall|k: int| 0 <= k < all.len() implies exists|i: int|
            0 <= i < subscribers.len() && concerns(#[trigger] all[k], #[trigger] subscribers[i]) by {
            if k < before.len() {
                assert(all[k] == before[k]);
                let i = choose|i: int|
                    0 <= i < rest.len() && concerns(#[trigger] before[k], #[trigger] rest[i]);
                assert(concerns(all[k], subscribers[i]));
            } else {
                assert(concerns(all[k], subscribers[subscribers.len() - 1]));
            }
        }
    }
}

/// Whether what is told concerns a client: it goes to the client and is of its stream.
pub open spec fn concerns(notice: Notice, s: Subscriber) -> bool {
    &&& notice.client == s.client
    &&& match notice.event {
        Event::Dropped(drops) => drops.stream_token == s.token,
        Event::Ended(token) => token == s.token,
    }
}

/// How many of the first `n` clients have not gone.
pub open spec fn staying(outcomes: Seq<Outcome>, n: int) -> int
    decreases n,
{
    if n <= 0 {
        0
    } else {
        staying(outcomes, n - 1) + if outcomes[n - 1] == Outcome::Closed {
            0int
        } else {
            1
        }
    }
}

/// Whether a client is the one at `at` among those left, owed what it is to be.
pub open spec fn stays(
    s: Subscriber,
    outcome: Outcome,
    len: u64,
    left: Seq<Subscriber>,
    at: int,
) -> bool {
    &&& 0 <= at < left.len()
    &&& left[at].token == s.token
    &&& left[at].client == s.client
    &&& outcome == Outcome::Sent ==> left[at].dropped == 0
    &&& outcome == Outcome::Full && s.dropped + len <= u64::MAX ==> left[at].dropped == s.dropped
        + len
}

/// Handing a chunk out keeps the clients that have not gone, each as it was but for what
/// it lost: one that took the chunk is owed nothing, and one that was too far behind the
/// chunk more. What is told is told to the client it is of, and to none but those that
/// took the chunk.
pub proof fn clients_stay_until_they_go(
    subscribers: Seq<Subscriber>,
    outcomes: Seq<Outcome>,
    len: u64,
)
    requires
        outcomes.len() >= subscribers.len(),
    ensures
        daemon::handed_out(subscribers, outcomes, len).0.len() == staying(
            outcomes,
            subscribers.len() as int,
        ),
        forall|i: int|
            0 <= i < subscribers.len() && outcomes[i] != Outcome::Closed ==> stays(
                #[trigger] subscribers[i],
                outcomes[i],
                len,
                daemon::handed_out(subscribers, outcomes, len).0,
                staying(outcomes, i),
            ),
        forall|k: int|
            0 <= k < daemon::handed_out(subscribers, outcomes, len).1.len() ==> exists|i: int|
                0 <= i < subscribers.len() && outcomes[i] == Outcome::Sent && concerns(
                    #[trigger] daemon::handed_out(subscribers, outcomes, len).1[k],
                    #[trigger] subscribers[i],
                ),
    decreases subscribers.len(),
{
    if subscribers.len() > 0 {
        let rest = subscribers.drop_last();
        let n = rest.len() as int;
        clients_stay_until_they_go(rest, outcomes, len);
        let (before, said) = daemon::handed_out(rest, outcomes, len);
        let (left, told) = daemon::handed_out(subscribers, outcomes, len);
        let s = subscribers.last();
        assert(subscribers.len() == n + 1);
        assert(staying(outcomes, n + 1) == staying(outcomes, n) + if outcomes[n]
            == Outcome::Closed {
            0int
        } else {
            1
        });
        assert(left.len() == staying(outcomes, n + 1));
        assert forall|i: int| 0 <= i < subscribers.len() && outcomes[i]
            != Outcome::Closed implies stays(
            #[trigger] subscribers[i],
            outcomes[i],
            len,
            left,
            staying(outcomes, i),
        ) by {
            if i < n {
                assert(rest[i] == subscribers[i]);
            }
        }
        assert forall|k: int| 0 <= k < told.len() implies exists|i: int|
            0 <= i < subscribers.len() && outcomes[i] == Outcome::Sent && concerns(
                #[trigger] told[k],
                #[trigger] subscribers[i],
            ) by {
            if k < said.len() {
                assert(told[k] == said[k]);
                let i = choose|i: int|
                    0 <= i < rest.len() && outcomes[i] == Outcome::Sent && concerns(
                        #[trigger] said[k],
                        #[trigger] rest[i],
                    );
                assert(concerns(told[k], subscribers[i]));
            } else {
                assert(concerns(told[k], subscribers[n]));
            }
        }
    }
}

/// A tuner is taken by one request at a time: once taken it is in use until it is given
/// back or closed, and one that is being closed is waited for by those that wait. What
/// becomes of one tuner changes nothing for the others.
pub proof fn tuners_are_taken_once(v: StateView, tuner: usize, other: usize, wait: bool)
    requires
        v.wf(),
        tuner < v.busy.len(),
        other < v.busy.len(),
    ensures
        ({
            let (after, answer) = daemon::reserved(v, tuner, wait);
            &&& answer == Reservation::Taken <==> !v.busy[tuner as int]
            &&& answer == Reservation::Wait <==> v.closing[tuner as int] && wait
            &&& answer == Reservation::Taken ==> daemon::reserved(after, tuner, wait).1
                == Reservation::Busy
            &&& answer == Reservation::Taken ==> daemon::reserved(
                daemon::given_back(after, tuner),
                tuner,
                wait,
            ).1 == Reservation::Taken
            &&& answer != Reservation::Taken ==> after == v
            &&& other != tuner ==> daemon::reserved(after, other, wait).1 == daemon::reserved(
                v,
                other,
                wait,
            ).1
            &&& other != tuner ==> daemon::reserved(
                daemon::given_back(v, tuner),
                other,
                wait,
            ).1 == daemon::reserved(v, other, wait).1
            &&& daemon::reserved(daemon::shut(v, tuner), tuner, wait).1 == Reservation::Taken
            &&& other != tuner ==> daemon::reserved(daemon::shut(v, tuner), other, wait).1
                == daemon::reserved(v, other, wait).1
        }),
{
}

/// A client that joins a stream is one of its clients, behind those there are, and has lost
/// nothing.
pub proof fn joining_adds_the_client(v: StateView, tuner: usize, client: u64, token: u64)
    requires
        v.wf(),
        v.streams(tuner),
        v.is_fresh(token),
    ensures
        ({
            let after = daemon::joined(v, tuner, client, token);
            let n = v.session(tuner).subscribers.len() as int;
            &&& after.streams(tuner)
            &&& after.session(tuner).subscribers.len() == n + 1
            &&& after.session(tuner).subscribers.take(n) == v.session(tuner).subscribers
            &&& after.session(tuner).subscribers[n] == (Subscriber { token, client, dropped: 0 })
            &&& after.session(tuner).params == v.session(tuner).params
            &&& after.session(tuner).format == v.session(tuner).format
        }),
{
    let after = daemon::joined(v, tuner, client, token);
    let old = v.session(tuner);
    let c0 = Subscriber { token, client, dropped: 0 };
    daemon::place_is_one(v.sessions, tuner);
    stream_changed(
        v,
        after,
        tuner,
        SessionView { subscribers: old.subscribers.push(c0), ..old },
    );
    assert(old.subscribers.push(c0).take(old.subscribers.len() as int) =~= old.subscribers);
}

/// The tuners tried for a request are all of those that receive the system and have the id
/// asked for, if one is, and no others, in the order of their numbers.
pub proof fn all_that_serve_are_tried(
    tuners: Seq<TunerView>,
    system: System,
    asked: Seq<char>,
    n: int,
)
    requires
        0 <= n <= tuners.len(),
        n <= usize::MAX,
    ensures
        ({
            let list = acquire::candidates(tuners, system, asked, n);
            &&& forall|k: int|
                0 <= k < n ==> (list.contains(k as usize) <==> (#[trigger] tuners[k]).systems.contains(
                    system,
                ) && (asked.len() == 0 || tuners[k].id == asked))
            &&& forall|i: int| 0 <= i < list.len() ==> #[trigger] list[i] < n
            &&& forall|i: int, j: int|
                0 <= i < j < list.len() ==> #[trigger] list[i] < #[trigger] list[j]
        }),
    decreases n,
{
    if n > 0 {
        all_that_serve_are_tried(tuners, system, asked, n - 1);
        let rest = acquire::candidates(tuners, system, asked, n - 1);
        let list = acquire::candidates(tuners, system, asked, n);
        let last = (n - 1) as usize;
        assert(!rest.contains(last));
        assert forall|k: int| 0 <= k < n implies (list.contains(k as usize) <==> (
        #[trigger] tuners[k]).systems.contains(system) && (asked.len() == 0 || tuners[k].id
            == asked)) by {
            if acquire::serves(tuners[n - 1], system, asked) {
                assert(list == rest.push(last));
                if rest.contains(k as usize) {
                    let m = choose|m: int| 0 <= m < rest.len() && rest[m] == k as usize;
                    assert(list[m] == k as usize);
                }
                assert(list[rest.len() as int] == last);
                if list.contains(k as usize) && k < n - 1 {
                    let m = choose|m: int| 0 <= m < list.len() && list[m] == k as usize;
                    assert(m < rest.len());
                    assert(rest[m] == k as usize);
                }
            }
        }
    }
}

/// A request is refused for its own sake or for want of a tuner: because what it asks for
/// has no meaning, because the tuner it asks for does not exist, or because none it may
/// have receives the system, in that order. Otherwise it is met.
pub proof fn requests_are_refused_with_reason(
    sessions: Seq<SessionView>,
    tuners: Seq<TunerView>,
    request: proto::Params,
    asked: Seq<char>,
)
    requires
        tuners.len() <= usize::MAX,
    ensures
        ({
            let served = exists|k: int|
                0 <= k < tuners.len() && (#[trigger] tuners[k]).systems.contains(
                    proto::params_of_wire(request)->Ok_0.system,
                ) && (asked.len() == 0 || tuners[k].id == asked);
            let named = exists|k: int| 0 <= k < tuners.len() && (#[trigger] tuners[k]).id == asked;
            match acquire::begun(sessions, tuners, request, asked) {
                Start::Refused(Refusal::Params(_)) => proto::params_of_wire(request) is Err || !(
                proto::params_of_wire(request)->Ok_0.system.satellite() == (request.stream_id
                    is Some)),
                Start::Refused(Refusal::NotFound(id)) => id == asked && asked.len() > 0 && !named,
                Start::Refused(Refusal::Unsupported(system)) => !served && (asked.len() == 0
                    || named) && system == proto::params_of_wire(request)->Ok_0.system,
                Start::Refused(Refusal::Busy(_)) => false,
                Start::Shared(_) => true,
                Start::Trying(params, list) => served && list.len() > 0 && params.system
                    == proto::params_of_wire(request)->Ok_0.system && params.frequency_khz
                    == request.frequency_khz,
            }
        }),
{
    if proto::params_of_wire(request) is Ok {
        let params = proto::params_of_wire(request)->Ok_0.plain();
        let n = tuners.len() as int;
        all_that_serve_are_tried(tuners, params.system, asked, n);
        let list = acquire::candidates(tuners, params.system, asked, n);
        if list.len() > 0 {
            let k = list[0] as int;
            assert(list.contains(k as usize));
            assert(tuners[k].systems.contains(params.system));
        } else {
            assert forall|k: int| 0 <= k < tuners.len() implies !((
            #[trigger] tuners[k]).systems.contains(params.system) && (asked.len() == 0
                || tuners[k].id == asked)) by {
                assert(!list.contains(k as usize));
            }
        }
    }
}

} // verus!
