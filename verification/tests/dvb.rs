use tunelith::dvb::{
    self, adapter_of, claimed, demux_path, describe, dvr_path, frontend_path, group, locked,
    name_length, parse_attribute, poll, properties, signal, tuner_adapter, voltage, Adapter,
    Attribute, ByteOrder, DtvProperty, DvbDevice, DvbDriver, DvbTuner, Frontend, Polled, Quirks,
};
use tunelith::error::Error;
use tunelith::pt4k;
use tunelith::types::{
    Cnr, Polarization, Signal, StreamFormat, StreamId, System, TuneParams,
};

fn device(attributes: &[(&str, &str)]) -> DvbDevice {
    DvbDevice {
        sysfs: "pci0000:00/0000:01:00.0".into(),
        adapters: vec![0, 1],
        attributes: attributes
            .iter()
            .map(|(name, value)| Attribute {
                name: name.to_string(),
                value: value.to_string(),
            })
            .collect(),
    }
}

fn terrestrial() -> TuneParams {
    TuneParams {
        system: System::IsdbT,
        frequency_khz: 473_143,
        stream_id: None,
        polarization: None,
    }
}

fn satellite(frequency_khz: u32, polarization: Option<Polarization>) -> TuneParams {
    TuneParams {
        system: System::IsdbS,
        frequency_khz,
        stream_id: Some(StreamId(0x4010)),
        polarization,
    }
}

#[test]
fn attributes_are_hexadecimal() {
    assert_eq!(parse_attribute("0x544d\n"), Some(0x544d));
    assert_eq!(parse_attribute(" 6812 "), Some(0x6812));
    assert_eq!(parse_attribute("0x"), None);
    assert_eq!(parse_attribute("0x10000"), None);
    assert_eq!(parse_attribute("tbs"), None);
    let d = device(&[("vendor", "0x544d"), ("device", "")]);
    assert_eq!(d.attr(&"vendor".to_string()), Some(0x544d));
    assert_eq!(d.attr(&"device".to_string()), None);
    assert_eq!(d.attr(&"subsystem_vendor".to_string()), None);
    assert_eq!(d.id(), "dvb:pci0000:00/0000:01:00.0");
}

#[test]
fn properties_hold_numbers() {
    let little = DtvProperty::new(ByteOrder::Little, dvb::DTV_FREQUENCY, 0x0102_0304);
    assert_eq!(little.u[..6], [4, 3, 2, 1, 0, 0]);
    let big = DtvProperty::new(ByteOrder::Big, dvb::DTV_FREQUENCY, 0x0102_0304);
    assert_eq!(big.u[..4], [1, 2, 3, 4]);

    let mut listed = DtvProperty::new(ByteOrder::Little, dvb::DTV_ENUM_DELSYS, 0);
    listed.u[0] = 8;
    listed.u[1] = 9;
    listed.u[32] = 2;
    assert_eq!(listed.buffer(ByteOrder::Little), [8, 9]);
    listed.u[32] = 200;
    assert_eq!(listed.buffer(ByteOrder::Little).len(), 32);

    let mut told = DtvProperty::new(ByteOrder::Little, dvb::DTV_STAT_CNR, 0);
    assert_eq!(told.stat(ByteOrder::Little), None);
    told.u[0] = 1;
    told.u[1] = dvb::FE_SCALE_DECIBEL;
    told.u[2..10].copy_from_slice(&(-1_500i64).to_le_bytes());
    assert_eq!(told.stat(ByteOrder::Little), Some((1, -1_500)));
    told.u[2..10].copy_from_slice(&21_500i64.to_be_bytes());
    assert_eq!(told.stat(ByteOrder::Big), Some((1, 21_500)));
}

#[test]
fn signals_are_told() {
    let mut cnr = DtvProperty::new(ByteOrder::Little, dvb::DTV_STAT_CNR, 0);
    cnr.u[0] = 1;
    cnr.u[1] = dvb::FE_SCALE_DECIBEL;
    cnr.u[2..10].copy_from_slice(&21_500i64.to_le_bytes());
    assert_eq!(
        signal(0x1f, &cnr, ByteOrder::Little),
        Signal {
            locked: true,
            cnr: Some(Cnr::MilliDb(21_500))
        }
    );
    cnr.u[1] = 2;
    assert_eq!(signal(0x0f, &cnr, ByteOrder::Little), Signal::default());
    assert!(locked(0x10) && !locked(0x0f));
    assert_eq!(poll(0x10, true), Polled::Locked);
    assert_eq!(poll(0, true), Polled::GivenUp);
    assert_eq!(poll(0, false), Polled::Again);
    assert_eq!(voltage(true), dvb::SEC_VOLTAGE_18);
    assert_eq!(voltage(false), dvb::SEC_VOLTAGE_OFF);
}

fn told(properties: &[DtvProperty]) -> Vec<(u32, u32)> {
    properties
        .iter()
        .map(|p| (p.cmd, u32::from_le_bytes([p.u[0], p.u[1], p.u[2], p.u[3]])))
        .collect()
}

#[test]
fn tuning_is_told_in_properties() {
    let generic = DvbDriver::generic().quirks;
    let t = properties(&terrestrial(), &generic, ByteOrder::Little).unwrap();
    assert_eq!(
        told(&t),
        [
            (2, 0),
            (17, 8),
            (3, 473_143_000),
            (5, 6_000_000),
            (39, 2),
            (38, 4),
            (41, 7),
            (1, 0)
        ]
    );
    let s = satellite(11_996_000, None);
    let s = properties(&s, &generic, ByteOrder::Little).unwrap();
    assert_eq!(
        told(&s),
        [(2, 0), (17, 9), (3, 1_318_000), (42, 0x4010), (1, 0)]
    );
    let below = satellite(9_000_000, Some(Polarization::Left));
    assert!(properties(&below, &generic, ByteOrder::Little).is_err());
}

#[test]
fn adapters_make_devices() {
    assert_eq!(adapter_of("dvb12.frontend0"), Some(12));
    assert_eq!(adapter_of("dvb12.frontend1"), None);
    assert_eq!(adapter_of("dvb.frontend0"), None);
    assert_eq!(adapter_of("dvb0.dvr0"), None);
    assert_eq!(frontend_path(3), "/dev/dvb/adapter3/frontend0");
    assert_eq!(demux_path(3), "/dev/dvb/adapter3/demux0");
    assert_eq!(dvr_path(10), "/dev/dvb/adapter10/dvr0");
    let at = |number: u32, sysfs: &str| Adapter {
        number,
        sysfs: sysfs.into(),
    };
    let devices = group(vec![at(3, "a"), at(1, "b"), at(0, "a"), at(2, "a")]);
    assert_eq!(devices.len(), 2);
    let a = devices.iter().find(|d| d.sysfs == "a").unwrap();
    assert_eq!(a.adapters, [0, 2, 3]);
    // Those of one number go by their places, name by name.
    let same = group(vec![at(0, "/a-b"), at(0, "/b"), at(0, "/a/c"), at(0, "/a")]);
    let places: Vec<&str> = same.iter().map(|d| d.sysfs.as_str()).collect();
    assert_eq!(places, ["/a", "/a/c", "/a-b", "/b"]);
    assert_eq!(tuner_adapter(a, 1).unwrap(), 2);
    assert_eq!(
        tuner_adapter(a, 3).unwrap_err().message(),
        Error::NotFound("dvb:a#3".into()).message()
    );
}

#[test]
fn pt4k_is_told_by_its_vendors() {
    let tbs = device(&[("vendor", "0x544d"), ("subsystem_vendor", "0x6812")]);
    let other = device(&[("vendor", "0x544d"), ("subsystem_vendor", "0x0001")]);
    let driver = pt4k::driver();
    assert_eq!(claimed(vec![other, tbs], &driver.quirks).len(), 1);
    assert!(!driver.quirks.claims(&device(&[])));
    assert_eq!(driver.quirks.attributes(), ["vendor", "subsystem_vendor"]);
    assert_eq!(driver.quirks.extra_systems(), [System::IsdbS3]);
    assert_eq!(driver.quirks.stream_id(System::IsdbS3, StreamId(7)), 7);
    assert_eq!(driver.quirks.lock_timeout_ms(), 5_000);
}

#[test]
fn devices_are_described() {
    let frontends = vec![
        Frontend {
            name: String::new(),
            delivery: vec![8],
        },
        Frontend {
            name: "TBS".into(),
            delivery: vec![3, 9, 8],
        },
    ];
    let (info, tuners) = describe(&device(&[]), &frontends, &pt4k::driver().quirks);
    assert_eq!(info.name, "TBS");
    assert_eq!(tuners[0].systems, [System::IsdbT, System::IsdbS3]);
    assert_eq!(
        tuners[1].systems,
        [System::IsdbS, System::IsdbT, System::IsdbS3]
    );
    assert_eq!(tuners[1].id, "dvb:pci0000:00/0000:01:00.0#1");
    assert_eq!(name_length(b"TBS\0\0"), 3);
    assert_eq!(name_length(b"TBS"), 3);
}

#[test]
fn tuner_checks_what_it_is_asked() {
    let mut tuner = DvbTuner {
        systems: vec![System::IsdbT],
        format: None,
    };
    assert!(tuner.stream_format().is_err());
    assert!(tuner.check(&terrestrial()).is_ok());
    tuner.tuned(&terrestrial());
    assert_eq!(tuner.stream_format().unwrap(), StreamFormat::Ts);
    assert!(matches!(
        tuner.check(&satellite(11_996_000, None)),
        Err(Error::Unsupported(System::IsdbS))
    ));
    let mut bad = satellite(11_996_000, None);
    bad.stream_id = None;
    assert!(matches!(tuner.check(&bad), Err(Error::InvalidParams(_))));
}
