use tunelith::client::{
    self, acquired, answered, connected, listed, signalled, Action, AcquireOptions, Calls,
};
use tunelith::daemon::acquire::{Acquire, Begun, Daemon, HeldDevice, Step};
use tunelith::daemon::serve::{
    self, failed, greet, hello, no_stream, unexpected, unknown_stream, Owned, Request,
};
use tunelith::daemon::{Event, Notice, Outcome, Reservation, State};
use tunelith::error::{error, of_kind, Error, ErrorKind};
use tunelith::proto::{
    envelope, AcquireRequest, AcquireResponse, Body, Drops, FormatCode, Hello, Params, Role,
    StreamEnd, SystemCode,
    VERSION,
};
use tunelith::types::{
    DeviceInfo, Polarization, Signal, StreamFormat, StreamId, System, TuneParams, TunerInfo,
};

fn held(id: &str, tuners: &[&[System]]) -> HeldDevice {
    HeldDevice {
        info: DeviceInfo {
            id: id.into(),
            name: format!("name of {id}"),
        },
        tuners: tuners
            .iter()
            .enumerate()
            .map(|(i, systems)| TunerInfo {
                id: format!("{id}#{i}"),
                systems: systems.to_vec(),
            })
            .collect(),
    }
}

/// Two devices: a satellite and a terrestrial tuner, and a terrestrial one.
fn daemon() -> Daemon {
    Daemon::new(vec![
        held("a", &[&[System::IsdbS], &[System::IsdbT]]),
        held("b", &[&[System::IsdbT]]),
    ])
}

fn terrestrial(frequency_khz: u32) -> TuneParams {
    TuneParams {
        system: System::IsdbT,
        frequency_khz,
        stream_id: None,
        polarization: None,
    }
}

fn request(params: TuneParams, tuner: &str) -> AcquireRequest {
    AcquireRequest {
        params: Params::of(params),
        tuner: tuner.into(),
        lnb: false,
    }
}

fn trying(daemon: &Daemon, request: &AcquireRequest) -> Acquire {
    match daemon.begin(request).unwrap() {
        Begun::Trying(acquire) => acquire,
        Begun::Shared(_) => panic!("shared"),
    }
}

/// Starts a stream; its tuner and the token of the client.
fn start(daemon: &mut Daemon, params: TuneParams, client: u64) -> (usize, u64) {
    let mut acquire = trying(daemon, &request(params, ""));
    let Step::Start(tuner) = daemon.advance(&mut acquire) else {
        panic!("not started");
    };
    let response = daemon
        .started(&acquire, tuner, StreamFormat::Ts, client)
        .unwrap();
    (tuner, response.stream_token)
}

#[test]
fn same_tuning_is_shared() {
    let mut daemon = daemon();
    let (tuner, first) = start(&mut daemon, terrestrial(473_143), 1);
    assert_eq!(tuner, 1);
    let Begun::Shared(shared) = daemon.begin(&request(terrestrial(473_143), "")).unwrap() else {
        panic!("not shared");
    };
    assert_eq!(shared, 1);
    let response = daemon.subscribe(shared, 2).unwrap();
    assert_eq!(response.tuner, "a#1");
    assert_eq!(response.format, FormatCode::Ts);
    // Drawn, not counted up.
    assert_ne!(response.stream_token, 0);
    assert_ne!(response.stream_token, first);
    assert_eq!(daemon.state.subscribers(1).len(), 2);
    // The other tuner, asked for by its id, has no such stream.
    let asked = trying(&daemon, &request(terrestrial(473_143), "b#0"));
    assert_eq!(asked.candidates, [2]);
}

#[test]
fn polarization_in_other_words_is_shared() {
    let mut daemon = daemon();
    let mut params = TuneParams {
        system: System::IsdbS,
        frequency_khz: 11_996_000,
        stream_id: Some(StreamId(0x4010)),
        polarization: None,
    };
    let (tuner, _) = start(&mut daemon, params, 1);
    params.polarization = Some(Polarization::Right);
    assert!(matches!(
        daemon.begin(&request(params, "")).unwrap(),
        Begun::Shared(t) if t == tuner
    ));
    params.polarization = Some(Polarization::Left);
    assert!(matches!(
        daemon.begin(&request(params, "")).unwrap(),
        Begun::Trying(_)
    ));
}

#[test]
fn tuners_run_out() {
    let mut daemon = daemon();
    start(&mut daemon, terrestrial(473_143), 1);
    let (tuner, _) = start(&mut daemon, terrestrial(479_143), 2);
    assert_eq!(tuner, 2);
    let mut acquire = trying(&daemon, &request(terrestrial(485_143), ""));
    assert_eq!(daemon.advance(&mut acquire), Step::Fail);
    let e = acquire.failure();
    assert!(e.is_busy());
    assert_eq!(e.message(), "no free tuner receives IsdbT");
    let mut asked = trying(&daemon, &request(terrestrial(485_143), "b#0"));
    assert_eq!(daemon.advance(&mut asked), Step::Fail);
    assert_eq!(asked.failure().message(), "the tuner b#0 is busy");
}

#[test]
fn requests_that_are_refused() {
    let daemon = daemon();
    let e = |r: &AcquireRequest| daemon.begin(r).err().unwrap();
    assert!(matches!(
        e(&request(terrestrial(1), "c#0")),
        Error::NotFound(id) if id == "c#0"
    ));
    assert!(matches!(
        e(&request(terrestrial(1), "a#0")),
        Error::Unsupported(System::IsdbT)
    ));
    let mut four_k = request(terrestrial(1), "");
    four_k.params.system = SystemCode::IsdbS3;
    four_k.params.stream_id = Some(1);
    assert!(matches!(e(&four_k), Error::Unsupported(System::IsdbS3)));
    let mut bad = request(terrestrial(1), "");
    bad.params.stream_id = Some(1);
    assert!(matches!(e(&bad), Error::InvalidParams(_)));
    bad.params.system = SystemCode::Unknown(9);
    assert!(daemon.begin(&bad).is_err());
}

#[test]
fn tuner_in_use_elsewhere_is_passed_over() {
    let mut daemon = daemon();
    let mut acquire = trying(&daemon, &request(terrestrial(473_143), ""));
    assert_eq!(daemon.advance(&mut acquire), Step::Start(1));
    let busy = of_kind(ErrorKind::ResourceBusy);
    assert!(daemon.start_failed(&mut acquire, 1, busy).is_none());
    assert_eq!(daemon.advance(&mut acquire), Step::Start(2));
    assert!(!daemon.state.busy[1]);
    let e = daemon.start_failed(&mut acquire, 2, Error::NoLock);
    assert!(matches!(e, Some(Error::NoLock)));
    // The one asked for is not.
    let mut asked = trying(&daemon, &request(terrestrial(473_143), "b#0"));
    assert_eq!(daemon.advance(&mut asked), Step::Start(2));
    let busy = of_kind(ErrorKind::ResourceBusy);
    assert!(daemon.start_failed(&mut asked, 2, busy).is_some());
}

#[test]
fn tuner_being_closed_is_waited_for_last() {
    let mut daemon = daemon();
    let (tuner, token) = start(&mut daemon, terrestrial(473_143), 1);
    assert_eq!(daemon.state.release(token), Some(tuner));
    assert!(daemon.state.end(tuner).is_empty());
    let mut acquire = trying(&daemon, &request(terrestrial(485_143), ""));
    assert_eq!(daemon.advance(&mut acquire), Step::Start(2));
    let mut next = trying(&daemon, &request(terrestrial(491_143), ""));
    assert_eq!(daemon.advance(&mut next), Step::Wait(tuner));
    daemon.state.close(tuner);
    assert_eq!(daemon.advance(&mut next), Step::Start(tuner));
    let mut late = trying(&daemon, &request(terrestrial(497_143), "a#1"));
    assert_eq!(daemon.advance(&mut late), Step::Fail);
}

#[test]
fn list_tells_what_is_in_use() {
    let mut daemon = daemon();
    start(&mut daemon, terrestrial(473_143), 1);
    let list = daemon.list();
    assert_eq!(list.len(), 2);
    let busy: Vec<bool> = list
        .iter()
        .flat_map(|d| d.tuners.iter().map(|t| t.busy))
        .collect();
    assert_eq!(busy, [false, true, false]);
    let told = listed(Body::ListResponse(list)).unwrap();
    assert_eq!(told[0].tuners[1].info.id, "a#1");
    assert_eq!(told[0].tuners[0].info.systems, [System::IsdbS]);
    assert_eq!(told[1].info.name, "name of b");
    assert!(listed(Body::ListRequest).is_err());
}

#[test]
fn tuners_have_ids_of_their_own() {
    let daemon = daemon();
    let ids: Vec<&str> = daemon.tuners.iter().map(|t| t.id.as_str()).collect();
    assert_eq!(ids, ["a#0", "a#1", "b#0"]);
    let places: Vec<(usize, usize)> = daemon.tuners.iter().map(|t| (t.device, t.index)).collect();
    assert_eq!(places, [(0, 0), (0, 1), (1, 0)]);
}

#[test]
fn stream_let_go_of_is_not_joined() {
    let mut daemon = daemon();
    let (tuner, token) = start(&mut daemon, terrestrial(473_143), 1);
    let other = daemon.subscribe(tuner, 2).unwrap().stream_token;
    assert_eq!(daemon.state.release(token), None);
    let again = daemon.begin(&request(terrestrial(473_143), "")).unwrap();
    assert!(matches!(again, Begun::Shared(t) if t == tuner));
    assert_eq!(daemon.state.release(other), Some(tuner));
    let again = daemon.begin(&request(terrestrial(473_143), "")).unwrap();
    assert!(matches!(again, Begun::Trying(_)));
}

/// A stream of tuner 0 with the clients 7 and 8 under the tokens 70 and 80.
fn stream() -> State {
    let mut state = State::new(2);
    assert_eq!(state.reserve(0, false), Reservation::Taken);
    state.open(0, terrestrial(473_143), StreamFormat::Ts);
    state.join(0, 7, 70);
    state.join(0, 8, 80);
    state
}

fn dropped(client: u64, stream_token: u64, dropped_bytes: u64) -> Notice {
    Notice {
        client,
        event: Event::Dropped(Drops {
            stream_token,
            dropped_bytes,
        }),
    }
}

#[test]
fn drops_are_counted_and_told() {
    let mut state = stream();
    let full = [Outcome::Sent, Outcome::Full];
    assert!(state.deliver(0, &full, 100).is_empty());
    assert!(state.deliver(0, &full, 50).is_empty());
    let told = state.deliver(0, &[Outcome::Sent, Outcome::Sent], 10);
    assert_eq!(told, [dropped(8, 80, 150)]);
    assert!(state
        .deliver(0, &[Outcome::Sent, Outcome::Sent], 10)
        .is_empty());
    state.deliver(0, &full, 5);
    let told = state.end(0);
    assert_eq!(
        told,
        [
            Notice {
                client: 7,
                event: Event::Ended(70)
            },
            dropped(8, 80, 5),
            Notice {
                client: 8,
                event: Event::Ended(80)
            }
        ]
    );
    assert!(!state.has_stream(0));
    assert!(state.tickets.is_empty() && state.unattached.is_empty());
}

#[test]
fn streams_are_attached_once() {
    let mut state = stream();
    assert!(state.waits(70));
    assert!(state.attach(70));
    assert!(!state.attach(70));
    assert!(!state.waits(70));
    assert!(!state.attach(99));
    assert_eq!(state.tuner_of(70), Some(0));
    assert!(!state.fits(70) && !state.fits(0) && state.fits(99));
}

#[test]
fn last_to_leave_ends_the_stream() {
    let mut state = stream();
    assert_eq!(state.release(70), None);
    assert_eq!(state.release(70), None);
    assert_eq!(state.tuner_of(70), None);
    assert_eq!(state.release(80), Some(0));
    assert!(!state.sessions[0].running);
    state.end(0);
    assert_eq!(state.reserve(0, false), Reservation::Busy);
    assert_eq!(state.reserve(0, true), Reservation::Wait);
    state.close(0);
    assert_eq!(state.reserve(0, false), Reservation::Taken);
    assert_eq!(state.reserve(0, true), Reservation::Busy);
    state.give_back(0);
    assert_eq!(state.reserve(0, false), Reservation::Taken);
}

#[test]
fn stream_nobody_takes_is_closed() {
    let mut state = stream();
    assert!(!state.close_if_idle(0));
    assert_eq!(state.format_of(0), StreamFormat::Ts);
    state.deliver(0, &[Outcome::Closed, Outcome::Closed], 10);
    assert!(state.close_if_idle(0));
    assert!(!state.sessions[0].running);
}

#[test]
fn connections_are_greeted() {
    let first = |version: u32, role: Option<Role>| {
        Some(envelope(0, Body::Hello(Hello { version, role })))
    };
    assert_eq!(
        greet(first(VERSION, Some(Role::StreamToken(5)))).unwrap(),
        Some(Role::StreamToken(5))
    );
    assert_eq!(greet(first(VERSION, None)).unwrap(), None);
    for bad in [first(VERSION + 1, None), None] {
        let answer = greet(bad).unwrap_err();
        assert!(
            matches!(answer.body, Some(Body::Error(e)) if e == "expected a hello of version 1")
        );
    }
    assert!(connected(Some(hello())).is_ok());
    assert!(connected(None).is_err());
    let told = connected(Some(unknown_stream())).unwrap_err();
    assert_eq!(told.message(), "unknown stream");
    assert!(greet(Some(client::hello(Role::Control))).is_ok());
}

#[test]
fn requests_are_told_apart() {
    assert!(matches!(serve::request(Some(Body::ListRequest)), Request::List));
    assert!(matches!(
        serve::request(Some(Body::ReleaseRequest(4))),
        Request::Release(4)
    ));
    assert!(matches!(
        serve::request(Some(Body::SignalRequest(4))),
        Request::Signal(4)
    ));
    let acquire = Body::AcquireRequest(request(terrestrial(1), "x"));
    assert!(matches!(
        serve::request(Some(acquire)),
        Request::Acquire(r) if r.tuner == "x"
    ));
    assert!(matches!(serve::request(None), Request::Unexpected));
    assert!(matches!(
        serve::request(Some(Body::ReleaseResponse)),
        Request::Unexpected
    ));
    assert!(matches!(unexpected(), Body::Error(e) if e == "unexpected request"));
    assert!(matches!(failed(&error("broken")), Body::Error(e) if e == "broken"));
    assert!(matches!(no_stream(12), Error::NotFound(what) if what == "stream 12"));
}

#[test]
fn notices_become_messages() {
    let message = dropped(8, 80, 5).message(None);
    assert!(matches!(message.body, Some(Body::DropEvent(d)) if d.dropped_bytes == 5));
    let end = Notice {
        client: 8,
        event: Event::Ended(80),
    };
    let why = "unplugged".to_string();
    let body = end.message(Some(&why)).body;
    assert!(matches!(body, Some(Body::StreamEndEvent(e)) if e.error == why));
    let body = end.message(None).body;
    assert!(matches!(body, Some(Body::StreamEndEvent(e)) if e.error.is_empty()));
}

#[test]
fn tokens_of_a_client_are_kept() {
    let mut owned = Owned::new();
    assert!(owned.keep(1) && owned.keep(2) && owned.keep(3));
    owned.drop_one(2);
    assert_eq!(owned.leave(), [1, 3]);
    assert!(!owned.keep(4));
    assert!(owned.leave().is_empty());
}

#[test]
fn answers_find_their_calls() {
    let mut calls = Calls::new();
    let (first, second) = (calls.call(), calls.call());
    assert_ne!(first, second);
    let answer = calls.receive(envelope(second, Body::ReleaseResponse));
    assert!(matches!(answer, Action::Reply(id, Body::ReleaseResponse) if id == second));
    let again = calls.receive(envelope(second, Body::ReleaseResponse));
    assert!(matches!(again, Action::Nothing));
    let unknown = calls.receive(envelope(99, Body::ReleaseResponse));
    assert!(matches!(unknown, Action::Nothing));
    assert_eq!(calls.pending, [first]);
    calls.lose();
    assert!(calls.pending.is_empty());
}

#[test]
fn streams_of_a_client_end() {
    let mut calls = Calls::new();
    calls.take(5);
    calls.take(6);
    assert!(calls.at_end(5).is_none());
    let drops = Drops {
        stream_token: 5,
        dropped_bytes: 30,
    };
    calls.receive(envelope(0, Body::DropEvent(drops)));
    calls.receive(envelope(0, Body::DropEvent(drops)));
    assert_eq!(calls.dropped_bytes(5), Some(60));
    assert_eq!(calls.dropped_bytes(6), Some(0));
    let end = |error: &str| {
        Body::StreamEndEvent(StreamEnd {
            stream_token: 5,
            error: error.into(),
        })
    };
    let woken = calls.receive(envelope(0, end("")));
    assert!(matches!(woken, Action::Wake(5)));
    assert!(calls.at_end(5).unwrap().is_ok());
    calls.take(5);
    calls.receive(envelope(0, end("unplugged")));
    assert_eq!(calls.at_end(5).unwrap().unwrap_err().message(), "unplugged");
    let release = calls.release(5);
    assert!(matches!(release.body, Some(Body::ReleaseRequest(5))));
    assert_eq!(calls.dropped_bytes(5), None);
    calls.lose();
    assert_eq!(
        calls.at_end(6).unwrap().unwrap_err().message(),
        "tunelithd closed the connection"
    );
}

#[test]
fn acquire_given_up_is_released() {
    let mut calls = Calls::new();
    let response = AcquireResponse {
        stream_token: 9,
        tuner: "a#0".into(),
        format: FormatCode::Ts,
    };
    let release = calls.given_up(Body::AcquireResponse(response)).unwrap();
    assert!(matches!(release.body, Some(Body::ReleaseRequest(9))));
    assert!(calls.given_up(Body::ReleaseResponse).is_none());
}

#[test]
fn requests_of_a_client() {
    let made = client::request(terrestrial(473_143), AcquireOptions::default()).unwrap();
    assert!(made.tuner.is_empty() && !made.lnb);
    let asked = AcquireOptions {
        tuner: Some("a#1".into()),
        lnb: true,
    };
    let made = client::request(terrestrial(473_143), asked).unwrap();
    assert!(made.tuner == "a#1" && made.lnb);
    let mut bad = terrestrial(1);
    bad.stream_id = Some(StreamId(1));
    assert!(client::request(bad, AcquireOptions::default()).is_err());
    assert!(acquired(Body::ListRequest).is_err());
    assert!(signalled(Body::SignalResponse(Signal::default())).is_ok());
    let refused = answered(Body::Error("no".into())).unwrap_err();
    assert_eq!(refused.message(), "no");
    assert_eq!(client::closed().message(), "tunelithd closed the connection");
    assert_eq!(
        client::unexpected().message(),
        "unexpected response from tunelithd"
    );
}
