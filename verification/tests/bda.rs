use tunelith::bda::{
    build, cannot_select, claimed, describe, describe_device, frame_size, group, pin_factories,
    pin_property, poll, signal, signal_request, sort_tuners, stop_order, tune, close_order, BdaDevice,
    BdaDriver, BdaHandle, BdaTuner, BuildStep, CaptureFacts, Filter, Filters, FoundTuner,
    GraphPin, PinProperty, Polled, Quirks, Sink, TuneStep, TunerFacts, DEFAULT_FRAME,
    ISDB_S3_SYMBOL_RATE, LNB_SWITCH_KHZ,
};
use tunelith::error::{Error, ErrorKind};
use tunelith::ks::{
    self, change_request, filter_request, first_data_range, framing_request, guid_bytes,
    holds_mediums, holds_range, mediums, node_functions, node_request, pin_connect, pin_request,
    read_guid, read_u32, request, state_request, stream_request, topology_request, wide_length,
    Interface, Medium, State,
};
use tunelith::types::{
    Cnr, DeviceInfo, Polarization, Signal, StreamFormat, StreamId, System, TuneParams,
};

fn device(instance_id: &str) -> BdaDevice {
    BdaDevice {
        instance_id: instance_id.into(),
        name: String::new(),
        tuners: Vec::new(),
    }
}

#[test]
fn hardware_field() {
    let d = device(r"PCI\VEN_544D&DEV_6178&SUBSYS_00016812&REV_00\4&23F93F77&0&00E0");
    assert_eq!(d.hardware_field("VEN"), Some(0x544d));
    assert_eq!(d.hardware_field("SUBSYS"), Some(0x0001_6812));
    assert_eq!(d.hardware_field("FOO"), None);
}

#[test]
fn hardware_fields_that_are_none() {
    assert_eq!(device("PCI").hardware_field("VEN"), None);
    assert_eq!(device(r"PCI\VEN_XYZ&DEV_1").hardware_field("VEN"), None);
    assert_eq!(device(r"PCI\VEN_XYZ&DEV_1").hardware_field("DEV"), Some(1));
    assert_eq!(device(r"PCI\VEN_123456789").hardware_field("VEN"), None);
    assert_eq!(device(r"PCI\A").id(), r"bda:PCI\A");
}

/// A board that takes what says `6178`, and receives ISDB-S3 too.
struct Board;

impl Quirks for Board {
    fn claims(&self, device: &BdaDevice) -> bool {
        device.hardware_field("DEV") == Some(0x6178)
    }

    fn extra_systems(&self) -> Vec<System> {
        vec![System::IsdbS3]
    }

    fn select_stream(&self, _system: System, id: StreamId) -> Result<Vec<PinProperty>, Error> {
        Ok(vec![pin_property(7, 1, &[1, 2], id.0.to_le_bytes().to_vec())])
    }

    fn stale_bytes(&self) -> usize {
        300
    }

    fn cnr(&self, strength: i32) -> Option<Cnr> {
        Some(Cnr::MilliDb(i64::from(strength) * 10))
    }

    fn lock_timeout_ms(&self) -> u64 {
        1_000
    }
}

const TO_CAPTURE: Medium = Medium { set: 0x11, id: 3 };

fn interface(path: &str) -> Interface {
    Interface::new(
        path.into(),
        "Tuner".into(),
        r"PCI\DEV_6178\1".into(),
        String::new(),
        "A board".into(),
    )
}

fn capture(instance_id: &str, medium: Medium) -> CaptureFacts {
    CaptureFacts {
        path: "capture".into(),
        instance_id: instance_id.into(),
        input: 4,
        output: 5,
        mediums: vec![medium],
    }
}

fn facts(demodulator: u128) -> TunerFacts {
    TunerFacts {
        flows: vec![ks::KSPIN_DATAFLOW_OUT, ks::KSPIN_DATAFLOW_IN],
        mediums: vec![TO_CAPTURE, Medium::standard()],
        nodes: vec![(8, ks::KSNODE_BDA_RF_TUNER), (9, demodulator)],
    }
}

fn filters(demodulator: u128) -> Filters {
    let captures = vec![
        capture("other", TO_CAPTURE),
        capture(r"PCI\DEV_6178\1", TO_CAPTURE),
    ];
    describe(&interface("tuner"), &facts(demodulator), &captures, &Board).unwrap()
}

#[test]
fn filters_are_described() {
    let s = filters(ks::KSNODE_BDA_8PSK_DEMODULATOR);
    assert_eq!(s.tuner, "tuner");
    assert_eq!(s.capture, "capture");
    assert_eq!(s.systems, [System::IsdbS, System::IsdbS3]);
    assert_eq!((s.input, s.output), (1, 0));
    assert_eq!((s.capture_input, s.capture_output), (4, 5));
    assert_eq!(s.medium, TO_CAPTURE);
    assert_eq!((s.tuner_node, s.demodulator_node), (8, 9));
    let t = filters(ks::KSNODE_BDA_ISDB_T_DEMODULATOR);
    assert_eq!(t.systems, [System::IsdbT]);
}

#[test]
fn filters_that_cannot_be_described() {
    let tuner = interface("tuner");
    let good = facts(ks::KSNODE_BDA_ISDB_S_DEMODULATOR);
    assert!(describe(&tuner, &good, &vec![], &Board).is_err());
    let elsewhere = vec![capture("other", TO_CAPTURE)];
    assert!(describe(&tuner, &good, &elsewhere, &Board).is_err());
    let captures = vec![capture(r"PCI\DEV_6178\1", TO_CAPTURE)];
    assert!(describe(&tuner, &good, &captures, &Board).is_ok());
    assert!(describe(&tuner, &facts(0), &captures, &Board).is_err());
    let mut silent = facts(ks::KSNODE_BDA_ISDB_S_DEMODULATOR);
    silent.flows.pop();
    assert!(describe(&tuner, &silent, &captures, &Board).is_err());
    assert_eq!(
        pin_factories(&vec![ks::KSPIN_DATAFLOW_IN]).unwrap_err().message(),
        "a filter without an input and an output pin"
    );
}

#[test]
fn devices_are_grouped() {
    let found = |id: &str, tuner: &str| {
        let mut filters = filters(ks::KSNODE_BDA_ISDB_T_DEMODULATOR);
        filters.name = tuner.into();
        FoundTuner {
            instance_id: id.into(),
            device_name: format!("name of {id}"),
            filters,
        }
    };
    let devices = group(vec![
        found(r"PCI\DEV_6178\1", "b"),
        found(r"PCI\DEV_0001\1", "c"),
        found(r"PCI\DEV_6178\1", "a"),
    ]);
    assert_eq!(devices.len(), 2);
    assert_eq!(devices[0].tuners.len(), 2);
    assert_eq!(devices[1].name, r"name of PCI\DEV_0001\1");
    let mut devices = claimed(devices, &BdaDriver::new(Board).quirks);
    assert_eq!(devices.len(), 1);
    let mut device = devices.remove(0);
    device.tuners = sort_tuners(device.tuners);
    assert_eq!(device.tuners[0].name, "a");
    let named = |tuner: &str, name: &str| Filters {
        name: name.into(),
        tuner: tuner.into(),
        ..filters(ks::KSNODE_BDA_8PSK_DEMODULATOR)
    };
    let sorted = sort_tuners(vec![named("1", "b"), named("2", "a"), named("3", "b"), named("4", "a")]);
    let order: Vec<&str> = sorted.iter().map(|f| f.tuner.as_str()).collect();
    assert_eq!(order, ["2", "4", "1", "3"]);
    let (info, tuners) = describe_device(&device);
    assert_eq!(info.id, r"bda:PCI\DEV_6178\1");
    assert_eq!(tuners[1].id, r"bda:PCI\DEV_6178\1#1");
    assert_eq!(tuners[1].systems, [System::IsdbT]);
}

#[test]
fn graphs_are_built_and_stopped() {
    let filters = filters(ks::KSNODE_BDA_8PSK_DEMODULATOR);
    let steps = build(&filters);
    assert_eq!(steps.len(), 21);
    assert_eq!(steps[2], BuildStep::Topology(1, 0));
    assert_eq!(
        steps[5],
        BuildStep::Create(
            GraphPin::TunerOutput,
            Filter::Tuner,
            0,
            TO_CAPTURE,
            Some(GraphPin::CaptureInput)
        )
    );
    assert_eq!(steps[20], BuildStep::Enter(GraphPin::TunerOutput, State::Run));
    // Every pin is there before anything is done with it.
    let mut there = Vec::new();
    for step in &steps {
        match step {
            BuildStep::Create(pin, _, _, _, to) => {
                assert!(to.iter().all(|to| there.contains(to)));
                there.push(*pin);
            }
            BuildStep::Enter(pin, _) => assert!(there.contains(pin)),
            BuildStep::Pipe(from, to) => assert!(there.contains(from) && there.contains(to)),
            _ => {}
        }
    }
    assert_eq!(there.len(), stop_order().len());
    assert_eq!(close_order()[0], GraphPin::Antenna);
    assert_eq!(close_order()[3], GraphPin::CaptureOutput);
    assert_eq!(frame_size(None), DEFAULT_FRAME);
    assert_eq!(frame_size(Some(188)), 188);
}

fn params(system: System, frequency_khz: u32, id: Option<u16>, left: bool) -> TuneParams {
    TuneParams {
        system,
        frequency_khz,
        stream_id: id.map(StreamId),
        polarization: if left { Some(Polarization::Left) } else { None },
    }
}

#[test]
fn terrestrial_tuning() {
    let filters = filters(ks::KSNODE_BDA_ISDB_T_DEMODULATOR);
    let steps = tune(&params(System::IsdbT, 473_143, None, false), &filters);
    assert_eq!(steps.len(), 6);
    assert_eq!(steps[0], TuneStep::Change(ks::KSMETHOD_BDA_START_CHANGES));
    assert_eq!(
        steps[2],
        TuneStep::Put(
            GraphPin::Antenna,
            ks::KSPROPSETID_BDA_FREQUENCY_FILTER,
            ks::KSPROPERTY_BDA_RF_TUNER_FREQUENCY,
            8,
            473_143
        )
    );
    assert_eq!(steps[5], TuneStep::Change(ks::KSMETHOD_BDA_COMMIT_CHANGES));
    assert_eq!(steps[0].request().unwrap(), change_request(0));
    assert_eq!(
        steps[2].request().unwrap(),
        node_request(ks::KSPROPSETID_BDA_FREQUENCY_FILTER, 0, ks::SET, 8)
    );
    assert!(TuneStep::Fail.request().is_none());
}

#[test]
fn satellite_tuning() {
    let filters = filters(ks::KSNODE_BDA_8PSK_DEMODULATOR);
    let steps = tune(&params(System::IsdbS3, 11_996_480, Some(0xb110), true), &filters);
    assert_eq!(steps[0], TuneStep::Select(StreamId(0xb110)));
    let value = |set: u128, id: u32| {
        steps.iter().find_map(|s| match s {
            TuneStep::Put(_, s, i, _, value) if (*s, *i) == (set, id) => Some(*value),
            _ => None,
        })
    };
    let lnb = ks::KSPROPSETID_BDA_LNB_INFO;
    assert_eq!(value(lnb, ks::KSPROPERTY_BDA_LNB_LOF_LOW_BAND), Some(9_505_000));
    assert_eq!(value(lnb, ks::KSPROPERTY_BDA_LNB_LOF_HIGH_BAND), Some(9_505_000));
    assert_eq!(
        value(lnb, ks::KSPROPERTY_BDA_LNB_SWITCH_FREQUENCY),
        Some(LNB_SWITCH_KHZ)
    );
    assert_eq!(
        value(ks::KSPROPSETID_BDA_DIGITAL_DEMODULATOR, ks::KSPROPERTY_BDA_SYMBOL_RATE),
        Some(ISDB_S3_SYMBOL_RATE)
    );
    let below = tune(&params(System::IsdbS, 9_000_000, Some(1), false), &filters);
    assert!(below.contains(&TuneStep::Fail));
    assert!(!steps.contains(&TuneStep::Fail));
}

#[test]
fn signals_and_locks() {
    let filters = filters(ks::KSNODE_BDA_8PSK_DEMODULATOR);
    assert_eq!(
        signal(1, 250, &Board),
        Signal {
            locked: true,
            cnr: Some(Cnr::MilliDb(2_500))
        }
    );
    assert_eq!(signal(0, u32::MAX, &Board).cnr, Some(Cnr::MilliDb(-10)));
    assert_eq!(poll(1, true), Polled::Locked);
    assert_eq!(poll(0, true), Polled::GivenUp);
    assert_eq!(poll(0, false), Polled::Again);
    assert_eq!(
        signal_request(&filters, ks::KSPROPERTY_BDA_SIGNAL_LOCKED),
        node_request(ks::KSPROPSETID_BDA_SIGNAL_STATS, 3, ks::GET, 8)
    );
}

#[test]
fn stale_frames_are_left_out() {
    let mut sink = Sink::new();
    assert!(!sink.frame(188));
    sink.tuning(&Board);
    sink.streaming = true;
    assert!(!sink.frame(188));
    assert!(!sink.frame(188));
    assert!(sink.frame(188));
}

#[test]
fn tuners_are_taken_once() {
    let info = DeviceInfo {
        id: "bda:x".into(),
        name: "x".into(),
    };
    let mut handle = BdaHandle::new(info, 2);
    assert!(handle.open_tuner(1).is_ok());
    assert!(handle.open_tuner(1).unwrap_err().is_busy());
    assert!(handle.open_tuner(0).is_ok());
    assert!(handle.open_tuner(2).is_err());
    handle.close_tuner(1);
    assert!(handle.open_tuner(1).is_ok());
}

#[test]
fn tuner_keeps_what_it_is_tuned_to() {
    let mut tuner = BdaTuner {
        systems: vec![System::IsdbS, System::IsdbS3],
        system: None,
    };
    assert!(tuner.stream_format().is_err());
    let good = params(System::IsdbS3, 11_996_480, Some(1), false);
    tuner.begin(&good).unwrap();
    tuner.tuned(&good);
    assert_eq!(tuner.stream_format().unwrap(), StreamFormat::Tlv);
    let other = params(System::IsdbT, 473_143, None, false);
    assert!(matches!(tuner.begin(&other), Err(Error::Unsupported(System::IsdbT))));
    assert!(tuner.set_lnb(false).is_ok());
    assert!(matches!(cannot_select(), Error::Io(e) if e.kind == ErrorKind::Unsupported));
}

#[test]
fn guids_come_and_go() {
    let bytes = guid_bytes(ks::KSPROPSETID_PIN);
    assert_eq!(
        bytes,
        [
            0x60, 0x49, 0x13, 0x8c, 0xad, 0x51, 0xcf, 0x11, 0x87, 0x8a, 0x94, 0xf8, 0x01, 0xc1, 0,
            0
        ]
    );
    assert_eq!(read_guid(&bytes), ks::KSPROPSETID_PIN);
    let bytes: Vec<u8> = (0xf0..=0xff).collect();
    assert_eq!(guid_bytes(read_guid(&bytes)), bytes);
    assert_eq!(read_u32(&[9, 1, 2, 3, 4], 1), 0x0403_0201);
}

#[test]
fn requests_are_laid_out() {
    assert_eq!(request(1, 2, 3, &[]).len(), 24);
    let pin = pin_request(ks::KSPROPERTY_PIN_MEDIUMS, 2);
    assert_eq!(pin.len(), 32);
    assert_eq!(pin[16..], [6, 0, 0, 0, 1, 0, 0, 0, 2, 0, 0, 0, 0, 0, 0, 0]);
    let node = node_request(1, 4, ks::SET, 7);
    assert_eq!(node[16..], [4, 0, 0, 0, 2, 0, 0, 0x10, 7, 0, 0, 0, 0, 0, 0, 0]);
    assert_eq!(state_request()[16..], [0, 0, 0, 0, 2, 0, 0, 0]);
    assert_eq!(framing_request()[16..], [6, 0, 0, 0, 1, 0, 0, 0]);
    assert_eq!(stream_request(10)[16..], [10, 0, 0, 0, 2, 0, 0, 0]);
    assert_eq!(filter_request(1, 1)[16..], [1, 0, 0, 0, 1, 0, 0, 0]);
    assert_eq!(
        topology_request(5, 6)[16..],
        [2, 0, 0, 0, 0, 0, 0, 0, 5, 0, 0, 0, 6, 0, 0, 0]
    );
    let property = pin_property(1, 2, &[9, 9], vec![3]);
    assert_eq!(property.request.len(), 26);
    assert_eq!(property.value, [3]);
}

#[test]
fn answers_are_read() {
    let mut b = vec![56, 0, 0, 0, 2, 0, 0, 0];
    for (set, id) in [(ks::KSMEDIUMSETID_STANDARD, 0u32), (0x11, 3)] {
        b.extend(guid_bytes(set));
        b.extend(id.to_le_bytes());
        b.extend([0; 4]);
    }
    assert!(holds_mediums(&b));
    assert!(!holds_mediums(&b[..55]));
    assert_eq!(mediums(&b), [Medium::standard(), TO_CAPTURE]);

    let mut range = vec![0; 8];
    range.extend(16u32.to_le_bytes());
    range.extend([1; 12]);
    assert!(holds_range(&range));
    let format = first_data_range(&range).unwrap();
    assert_eq!(format, [16, 0, 0, 0, 0, 0, 0, 0, 1, 1, 1, 1, 1, 1, 1, 1]);
    assert!(first_data_range(&range[..20]).is_err());

    let mut nodes = 8u32.to_le_bytes().to_vec();
    nodes.extend(guid_bytes(ks::KSNODE_BDA_RF_TUNER));
    nodes.extend([0; 20]);
    assert_eq!(node_functions(&nodes), [(8, ks::KSNODE_BDA_RF_TUNER)]);

    let mut framing = vec![0; 96];
    assert_eq!(ks::frame_size(&framing), None);
    framing[0] = 1;
    framing[92] = 188;
    assert_eq!(ks::frame_size(&framing), Some(188));
    assert_eq!(ks::frame_size(&framing[..95]), None);
    assert_eq!(wide_length(&[65, 66, 0, 67]), 2);
    assert_eq!(ks::answer_size(0), 65_536);
    assert_eq!(ks::answer_size(12), 12);
    assert!(ks::wants_room(234) && ks::wants_room(122) && !ks::wants_room(5));
}

#[test]
fn connections_are_laid_out() {
    let wide = pin_connect(3, Medium::standard(), 0x1122_3344_5566, true, &[9]);
    assert_eq!(wide.len(), 73);
    assert_eq!(wide[48..52], [3, 0, 0, 0]);
    assert_eq!(wide[56..64], [0x66, 0x55, 0x44, 0x33, 0x22, 0x11, 0, 0]);
    assert_eq!(wide[64..], [0, 0, 0, 0x40, 1, 0, 0, 0, 9]);
    let narrow = pin_connect(3, Medium::standard(), 0x1122, false, &[]);
    assert_eq!(narrow.len(), 64);
    assert_eq!(narrow[52..56], [0x22, 0x11, 0, 0]);
    assert_eq!(interface("x").device_name, "A board");
    assert_eq!([State::Stop, State::Run].map(State::code), [0, 3]);
}
