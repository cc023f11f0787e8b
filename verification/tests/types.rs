use tunelith::error::{error, of_kind, of_kind_with, Error, ErrorKind};
use tunelith::types::{Polarization, Signal, StreamFormat, StreamId, System, TuneParams};

fn satellite(frequency_khz: u32, polarization: Option<Polarization>) -> TuneParams {
    TuneParams {
        system: System::IsdbS,
        frequency_khz,
        stream_id: Some(StreamId(0x4010)),
        polarization,
    }
}

#[test]
fn if_frequency() {
    assert_eq!(
        satellite(11_996_000, None).if_frequency_khz().unwrap(),
        1_318_000
    );
    let left = satellite(11_996_480, Some(Polarization::Left));
    assert_eq!(left.if_frequency_khz().unwrap(), 2_491_480);
    assert!(satellite(1_318_000, None).if_frequency_khz().is_err());
}

#[test]
fn normalized() {
    let right = satellite(11_996_000, Some(Polarization::Right));
    assert_eq!(satellite(11_996_000, None).normalized(), right.normalized());
    assert_ne!(
        right.normalized(),
        satellite(11_996_000, Some(Polarization::Left)).normalized()
    );
    let mut terrestrial = right;
    terrestrial.system = System::IsdbT;
    terrestrial.stream_id = None;
    assert_eq!(terrestrial.normalized().polarization, None);
}

#[test]
fn validate() {
    assert!(satellite(11_996_000, None).validate().is_ok());
    let mut params = satellite(11_996_000, None);
    params.stream_id = None;
    assert!(params.validate().is_err());
    params.system = System::IsdbT;
    assert!(params.validate().is_ok());
    params.stream_id = Some(StreamId(0));
    assert!(params.validate().is_err());
}

#[test]
fn formats_follow_the_system() {
    let mut params = satellite(11_996_000, None);
    assert_eq!(params.stream_format(), StreamFormat::Ts);
    params.system = System::IsdbS3;
    assert_eq!(params.stream_format(), StreamFormat::Tlv);
    params.system = System::IsdbT;
    assert_eq!(params.stream_format(), StreamFormat::Ts);
    assert!(!System::IsdbT.is_satellite() && System::IsdbS3.is_satellite());
    assert_eq!(Polarization::default(), Polarization::Right);
    assert_eq!(Signal::default(), Signal { locked: false, cnr: None });
}

#[test]
fn errors_in_words() {
    let mut params = satellite(1, None);
    assert_eq!(
        params.if_frequency_khz().unwrap_err().message(),
        "invalid tuning parameters: the frequency is below the LNB's"
    );
    params.stream_id = None;
    assert_eq!(
        params.validate().unwrap_err().message(),
        "invalid tuning parameters: a satellite stream needs a stream id"
    );
    assert_eq!(
        Error::Unsupported(System::IsdbS3).message(),
        "the tuner cannot receive IsdbS3"
    );
    assert_eq!(Error::NoLock.message(), "the tuner could not lock on the signal");
    assert_eq!(
        Error::NotFound("a#0".to_owned()).message(),
        "no such device or tuner: a#0"
    );
    assert_eq!(error("EEPROM error").message(), "EEPROM error");
    assert_eq!(of_kind(ErrorKind::UnexpectedEof).message(), "unexpected end of file");
    assert!(of_kind(ErrorKind::ResourceBusy).is_busy());
    assert!(!of_kind_with(ErrorKind::TimedOut, "late").is_busy());
}
