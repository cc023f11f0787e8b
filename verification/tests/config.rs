use tunelith::bondriver::{
    cur_channel, cur_space, pick, Data, Picked, Waited, Waiting, CHUNK, WAIT_ABANDONED,
    WAIT_OBJECT_0, WAIT_TIMEOUT,
};
use tunelith::config::{wide, ChannelEntry, Config, File, SpaceEntry};
use tunelith::types::{Polarization, StreamId, System};

fn text(table: &toml::Table, key: &str) -> String {
    table[key].as_str().unwrap().to_string()
}

fn channel(entry: &toml::Table) -> ChannelEntry {
    ChannelEntry {
        name: text(entry, "name"),
        frequency: entry["frequency"].as_integer().unwrap() as u32,
        stream_id: entry
            .get("stream_id")
            .map(|id| id.as_integer().unwrap() as u16),
        polarization: entry.get("polarization").map(|p| match p.as_str().unwrap() {
            "left" => Polarization::Left,
            _ => Polarization::Right,
        }),
    }
}

fn space(entry: &toml::Table) -> SpaceEntry {
    SpaceEntry {
        name: text(entry, "name"),
        system: match text(entry, "system").as_str() {
            "isdb-t" => System::IsdbT,
            "isdb-s" => System::IsdbS,
            _ => System::IsdbS3,
        },
        channel: entry["channel"]
            .as_array()
            .unwrap()
            .iter()
            .map(|c| channel(c.as_table().unwrap()))
            .collect(),
    }
}

fn file(text: &str) -> File {
    let table = text.parse::<toml::Table>().unwrap();
    File {
        socket: table.get("socket").map(|s| s.as_str().unwrap().to_string()),
        lnb: table.get("lnb").is_some_and(|lnb| lnb.as_bool().unwrap()),
        space: table["space"]
            .as_array()
            .unwrap()
            .iter()
            .map(|s| space(s.as_table().unwrap()))
            .collect(),
    }
}

#[test]
fn parse() {
    let config = Config::parse(&file(
        r#"
        lnb = true

        [[space]]
        name = "UHF"
        system = "isdb-t"
        channel = [{ name = "13ch", frequency = 473143 }]

        [[space]]
        name = "BS"
        system = "isdb-s"
        channel = [{ name = "BS01/TS0", frequency = 11727480, stream_id = 0x4010 }]
        "#,
    ))
    .unwrap();
    assert!(config.lnb);
    assert_eq!(config.spaces[1].name, wide("BS"));
    let bs = &config.spaces[1].channels[0];
    assert_eq!(bs.name, wide("BS01/TS0"));
    assert_eq!(bs.params.stream_id, Some(StreamId(0x4010)));

    // A satellite channel without its stream id.
    let missing = r#"
        [[space]]
        name = "BS"
        system = "isdb-s"
        channel = [{ name = "BS01/TS0", frequency = 11727480 }]
    "#;
    assert!(Config::parse(&file(missing)).is_err());
}

fn two_spaces() -> Config {
    Config::parse(&file(
        r#"
        socket = "/tmp/tunelithd.sock"

        [[space]]
        name = "UHF"
        system = "isdb-t"
        channel = [{ name = "13ch", frequency = 473143 }, { name = "14ch", frequency = 479143 }]

        [[space]]
        name = "4K"
        system = "isdb-s3"
        channel = [
            { name = "BS", frequency = 11996480, stream_id = 0xb110, polarization = "left" },
        ]
        "#,
    ))
    .unwrap()
}

#[test]
fn first_invalid_channel_is_named() {
    let two = r#"
        [[space]]
        name = "UHF"
        system = "isdb-t"
        channel = [{ name = "13ch", frequency = 473143 }, { name = "14ch", frequency = 479143, stream_id = 1 }]

        [[space]]
        name = "BS"
        system = "isdb-s"
        channel = [{ name = "BS01/TS0", frequency = 11727480 }]
    "#;
    assert_eq!(
        Config::parse(&file(two)).err().unwrap(),
        "UHF / 14ch: invalid tuning parameters: ISDB-T takes no stream id"
    );
    let satellite = r#"
        [[space]]
        name = "BS"
        system = "isdb-s"
        channel = [{ name = "BS01/TS0", frequency = 11727480 }]
    "#;
    assert_eq!(
        Config::parse(&file(satellite)).err().unwrap(),
        "BS / BS01/TS0: invalid tuning parameters: a satellite stream needs a stream id"
    );
}

#[test]
fn channels_are_found_by_number() {
    let config = two_spaces();
    assert_eq!(config.socket.as_deref(), Some("/tmp/tunelithd.sock"));
    assert!(!config.lnb);
    assert_eq!(config.channel(0, 1).unwrap().params.frequency_khz, 479_143);
    assert!(config.channel(0, 2).is_none());
    assert!(config.channel(2, 0).is_none());
    assert_eq!(config.space(1).unwrap().name, wide("4K"));
    assert!(config.space(2).is_none());
    let four_k = config.channel(1, 0).unwrap().params;
    assert_eq!(four_k.system, System::IsdbS3);
    assert_eq!(four_k.polarization, Some(Polarization::Left));
    for space in &config.spaces {
        for channel in &space.channels {
            assert!(channel.params.validate().is_ok());
        }
    }
}

#[test]
fn text_goes_wide() {
    assert_eq!(wide(""), [0]);
    assert_eq!(wide("A\u{3042}"), [0x41, 0x3042, 0]);
    assert_eq!(wide("\u{1f4fa}"), [0xd83d, 0xdcfa, 0]);
    let all = "BS01/TS0 \u{653e}\u{9001}\u{1f4fa}";
    let mut expected: Vec<u16> = all.encode_utf16().collect();
    expected.push(0);
    assert_eq!(wide(all), expected);
}

#[test]
fn picks_a_channel() {
    let config = two_spaces();
    assert_eq!(pick(&config, 0, 2, true), Picked::NoSuchChannel);
    assert_eq!(pick(&config, 3, 0, false), Picked::NoSuchChannel);
    assert_eq!(pick(&config, 0, 0, false), Picked::NotOpen);
    assert_eq!(
        pick(&config, 1, 0, true),
        Picked::Tune(config.channel(1, 0).unwrap().params)
    );
    assert_eq!(cur_space(None), u32::MAX);
    assert_eq!(cur_channel(None), u32::MAX);
    assert_eq!(cur_space(Some((1, 7))), 1);
    assert_eq!(cur_channel(Some((1, 7))), 7);
}

#[test]
fn data_comes_out_in_turn() {
    let mut data = Data::new();
    assert_eq!(data.ready_count(0), 0);
    assert_eq!(data.wait(0, 100), Waiting::Over(WAIT_ABANDONED));
    data.receive();
    assert_eq!(data.wait(0, 100), Waiting::For(Some(100)));
    assert_eq!(data.wait(0, 0), Waiting::For(None));
    assert_eq!(data.wait(3, 100), Waiting::Over(WAIT_OBJECT_0));
    assert_eq!(data.waited(Waited::TimedOut), WAIT_TIMEOUT);
    assert_eq!(data.waited(Waited::Chunk(vec![1; CHUNK])), WAIT_OBJECT_0);
    assert_eq!(data.ready_count(2), 3);
    assert_eq!(data.wait(0, 100), Waiting::Over(WAIT_OBJECT_0));
    let first = data.next(None);
    assert_eq!(first, Some(vec![1; CHUNK]));
    assert_eq!(data.next(Some(vec![2; 7])), Some(vec![2; 7]));
    assert_eq!(data.next(None), None);
    assert_eq!(data.hand_out(Some(vec![3; 5])), 5);
    assert_eq!(data.last, [3; 5]);
    assert_eq!(data.hand_out(None), 0);
    assert_eq!(data.waited(Waited::Closed), WAIT_ABANDONED);
    data.clear();
    assert_eq!(data.ready_count(0), 0);
}
