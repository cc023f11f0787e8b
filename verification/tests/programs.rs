use tunelith::browser::{params, Reading};
use tunelith::cli::{choose_tuner, none_opened, Attempt, Choice, Search, TuneArgs};
use tunelith::listener::group_id;
use tunelith::paths::{default_socket, firmware_dirs, user_socket, Base, Places};
use tunelith::types::{Polarization, StreamId, System, TunerInfo};

#[test]
fn arguments_make_parameters() {
    let args = TuneArgs {
        system: System::IsdbS,
        freq: 11_727_480,
        stream_id: Some(0x4010),
        polarization: Some(Polarization::Left),
        duration: Some(30),
    };
    let params = args.params();
    assert_eq!(params.frequency_khz, 11_727_480);
    assert_eq!(params.stream_id, Some(StreamId(0x4010)));
    assert_eq!(params.polarization, Some(Polarization::Left));
    assert_eq!(args.deadline(100), Some(130));
    let endless = TuneArgs {
        duration: None,
        ..args
    };
    assert_eq!(endless.deadline(100), None);
}

#[test]
fn tuners_are_chosen() {
    let systems = vec![System::IsdbS, System::IsdbT];
    let id = "a#0".to_string();
    let choose = |asked: Option<&str>, system: System| {
        choose_tuner(&asked.map(str::to_string), system, &id, &systems)
    };
    assert_eq!(choose(None, System::IsdbT), Choice::Try);
    assert_eq!(choose(None, System::IsdbS3), Choice::Pass);
    assert_eq!(choose(Some("a#0"), System::IsdbS3), Choice::Open);
    assert_eq!(choose(Some("a#1"), System::IsdbT), Choice::Pass);
    assert_eq!(
        none_opened(&None, System::IsdbT),
        "no free tuner receives IsdbT"
    );
    assert_eq!(
        none_opened(&Some("x".into()), System::IsdbT),
        "no such tuner: x"
    );
}

#[test]
fn groups_have_ids() {
    let groups = "root:x:0:\nvideo:x:44:a,b\nbad:x:y:\ntunelith:x:997\n";
    let id = |group: &str| group_id(groups, &group.to_string());
    assert_eq!(id("root"), Some(0));
    assert_eq!(id("video"), Some(44));
    assert_eq!(id("bad"), None);
    assert_eq!(id("tunelith"), Some(997));
    assert_eq!(id("audio"), None);
    assert_eq!(group_id("", &"video".to_string()), None);
}

#[test]
fn pages_tune() {
    let right = params(
        System::IsdbS,
        11_996_000,
        Some(1),
        Some(Polarization::Right),
    );
    assert_eq!(right.unwrap().polarization, None);
    let left = params(System::IsdbS, 11_996_000, Some(1), Some(Polarization::Left));
    assert_eq!(left.unwrap().polarization, Some(Polarization::Left));
    assert!(params(System::IsdbS, 11_996_000, None, None).is_err());
}

#[test]
fn one_read_at_a_time() {
    let mut reading = Reading::new();
    assert!(!reading.end_stream());
    assert!(reading.start().is_ok());
    assert_eq!(reading.start().unwrap_err().message(), "a read is in progress");
    reading.finish();
    assert!(reading.start().is_ok());
    assert!(reading.end_stream());
    assert!(reading.start().is_ok());
}

#[test]
fn sockets_are_found() {
    let user = (Base::RuntimeDir, "tunelith/tunelithd.sock");
    let system = (Base::Root, "/run/tunelith/tunelithd.sock");
    let at = |place: tunelith::paths::Place| (place.base, place.below);
    assert_eq!(at(user_socket()), user);
    assert_eq!(at(default_socket(true, true)), user);
    assert_eq!(at(default_socket(true, false)), system);
    assert_eq!(at(default_socket(false, true)), system);
}

#[test]
fn firmware_is_looked_for() {
    let dirs = |places: Places| {
        let found = firmware_dirs(places).into_iter();
        found.map(|p| (p.base, p.below)).collect::<Vec<_>>()
    };
    let unix = |data_home, home| dirs(Places::Unix { data_home, home });
    let shared = (Base::Root, "/lib/firmware");
    assert_eq!(
        unix(true, true),
        [shared, (Base::DataHome, "tunelith/firmware")]
    );
    assert_eq!(
        unix(false, true),
        [shared, (Base::Home, ".local/share/tunelith/firmware")]
    );
    assert_eq!(unix(false, false), [shared]);
    let windows = |program_data| dirs(Places::Windows { program_data });
    assert_eq!(
        windows(true),
        [(Base::ProgramData, "tunelith\\firmware")]
    );
    assert!(windows(false).is_empty());
}

fn tuners(device: &str, systems: &[System]) -> Vec<TunerInfo> {
    let numbered = systems.iter().enumerate();
    numbered
        .map(|(i, system)| TunerInfo {
            id: format!("{device}#{i}"),
            systems: vec![*system],
        })
        .collect()
}

#[test]
fn the_first_that_opens_is_found() {
    let (mut search, first) = Search::begin(None, System::IsdbS, 3);
    assert_eq!(first, Attempt::Device(0));
    assert_eq!(search.device_failed(), Attempt::Device(1));
    let some = tuners("b", &[System::IsdbT, System::IsdbS, System::IsdbS]);
    assert_eq!(search.device_opened(some), Attempt::Tuner(1));
    assert_eq!(search.tuner_failed(), Attempt::Tuner(2));
    assert_eq!(search.tuner_failed(), Attempt::Device(2));
    let none = tuners("c", &[System::IsdbT]);
    assert_eq!(search.device_opened(none), Attempt::NoneLeft);
    assert_eq!(Search::begin(None, System::IsdbS, 0).1, Attempt::NoneLeft);
}

#[test]
fn the_one_asked_for_is_found() {
    let (mut search, _) = Search::begin(Some("b#1".into()), System::IsdbS, 2);
    let a = tuners("a", &[System::IsdbS, System::IsdbS]);
    assert_eq!(search.device_opened(a), Attempt::Device(1));
    let b = tuners("b", &[System::IsdbS, System::IsdbT]);
    assert_eq!(search.device_opened(b), Attempt::Tuner(1));
    assert_eq!(search.tuner_failed(), Attempt::Tell);
    let (mut search, _) = Search::begin(Some("b#1".into()), System::IsdbS, 2);
    assert_eq!(search.device_failed(), Attempt::Tell);
}
