use tunelith::error::Error;
use tunelith::mock::{chunk, driver, null_packet, CNR_MILLI_DB, PACKETS};
use tunelith::types::{Cnr, DeviceInfo, StreamFormat, StreamId, System, TuneParams};

#[test]
fn tunes_and_streams() {
    let driver = driver();
    let info = driver.probe().remove(0);
    let mut device = driver.open(&info).unwrap();
    let mut tuner = device.open_tuner(0).unwrap();
    assert!(device.open_tuner(0).is_err());

    tuner
        .tune(TuneParams {
            system: System::IsdbT,
            frequency_khz: 515_143,
            stream_id: None,
            polarization: None,
        })
        .unwrap();
    assert_eq!(tuner.signal().cnr, Some(Cnr::MilliDb(CNR_MILLI_DB)));

    let format = tuner.stream_format().unwrap();
    assert_eq!(format, StreamFormat::Ts);
    let (chunk, _) = chunk(format, 0);
    assert_eq!(chunk.len(), PACKETS * 188);
    assert!(chunk.chunks(188).all(|p| p[0] == 0x47));

    device.close_tuner(tuner);
    assert!(device.open_tuner(0).is_ok());
}

#[test]
fn null_packets() {
    let ts = null_packet(StreamFormat::Ts, 0x2b);
    assert_eq!(ts[..5], [0x47, 0x1f, 0xff, 0x1b, 0xff]);
    let tlv = null_packet(StreamFormat::Tlv, 0x2b);
    assert_eq!(tlv[..5], [0x7f, 0xff, 0x00, 184, 0xff]);
    let (data, next) = chunk(StreamFormat::Ts, 250);
    assert_eq!(next, 250u8.wrapping_add(64));
    assert_eq!(data[6 * 188 + 3], 0x10);
}

#[test]
fn mock_refuses() {
    let driver = driver();
    let other = DeviceInfo { id: "mock:1".to_owned(), name: String::new() };
    assert!(matches!(driver.open(&other), Err(Error::NotFound(id)) if id == "mock:1"));
    let info = driver.probe().remove(0);
    let mut device = driver.open(&info).unwrap();
    assert_eq!(device.tuners[1].id, "mock:0#1");
    assert!(matches!(device.open_tuner(2), Err(Error::NotFound(id)) if id == "mock:0#2"));
    let mut tuner = device.open_tuner(1).unwrap();
    assert!(matches!(tuner.stream_format(), Err(Error::NoLock)));
    assert!(!tuner.signal().locked);
    let invalid = TuneParams {
        system: System::IsdbT,
        frequency_khz: 515_143,
        stream_id: Some(StreamId(1)),
        polarization: None,
    };
    assert!(tuner.tune(invalid).is_err());
    assert!(tuner.params.is_none());
}
