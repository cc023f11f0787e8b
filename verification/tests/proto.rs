use tunelith::error::{Error, ErrorKind};
use tunelith::proto::{
    encode, envelope, frame_length, read, stream_format, system, format_code, system_code,
    AcquireRequest, Body, Envelope, FormatCode, Params, PolarizationCode, SystemCode, MAX_FRAME,
};
use tunelith::types::{Polarization, StreamFormat, StreamId, System, TuneParams};

/// The bytes of a list request, or of an acquire request for any tuner, in a layout of
/// these tests.
fn written(envelope: &Envelope) -> Vec<u8> {
    let mut bytes = envelope.id.to_be_bytes().to_vec();
    if let Some(Body::AcquireRequest(request)) = &envelope.body {
        bytes.push(match request.params.system {
            SystemCode::IsdbT => 1,
            SystemCode::IsdbS => 2,
            SystemCode::IsdbS3 => 3,
            _ => 0,
        });
        bytes.extend(request.params.frequency_khz.to_be_bytes());
        bytes.extend(request.params.stream_id.unwrap_or(u32::MAX).to_be_bytes());
        bytes.push(match request.params.polarization {
            PolarizationCode::Right => 1,
            PolarizationCode::Left => 2,
            _ => 0,
        });
    }
    bytes
}

/// What [`written`] wrote.
fn read_back(bytes: &[u8]) -> Envelope {
    let id = u64::from_be_bytes(bytes[..8].try_into().unwrap());
    if bytes.len() == 8 {
        return envelope(id, Body::ListRequest);
    }
    let number = |at: usize| u32::from_be_bytes(bytes[at..at + 4].try_into().unwrap());
    let params = Params {
        system: match bytes[8] {
            1 => SystemCode::IsdbT,
            2 => SystemCode::IsdbS,
            3 => SystemCode::IsdbS3,
            _ => SystemCode::Unspecified,
        },
        frequency_khz: number(9),
        stream_id: Some(number(13)).filter(|id| *id != u32::MAX),
        polarization: match bytes[17] {
            1 => PolarizationCode::Right,
            2 => PolarizationCode::Left,
            _ => PolarizationCode::Unspecified,
        },
    };
    let request = AcquireRequest {
        params,
        tuner: String::new(),
        lnb: false,
    };
    envelope(id, Body::AcquireRequest(request))
}

#[test]
fn frames_round_trip() {
    let params = TuneParams {
        system: System::IsdbS,
        frequency_khz: 11_727_480,
        stream_id: Some(StreamId(0x4010)),
        polarization: Some(Polarization::Left),
    };
    let request = AcquireRequest {
        params: Params::of(params),
        tuner: String::new(),
        lnb: false,
    };
    let mut frames = encode(&written(&envelope(7, Body::AcquireRequest(request))));
    frames.extend(encode(&written(&envelope(8, Body::ListRequest))));

    let (first, at) = read(&frames).unwrap().unwrap();
    let first = read_back(&first);
    assert_eq!(first.id, 7);
    let Some(Body::AcquireRequest(request)) = &first.body else {
        panic!("not an acquire request");
    };
    assert_eq!(request.params.tune_params().unwrap(), params);
    let (second, end) = read(&frames[at..]).unwrap().unwrap();
    let second = read_back(&second);
    assert_eq!(second.id, 8);
    assert!(matches!(second.body, Some(Body::ListRequest)));
    assert!(read(&frames[at + end..]).unwrap().is_none());
}

#[test]
fn rejects_truncated_frames() {
    let frame = encode(&[1, 2, 3]);
    for len in [2, frame.len() - 1] {
        assert!(read(&frame[..len]).is_err());
    }
}

#[test]
fn rejects_large_frames() {
    let frame = ((MAX_FRAME + 1) as u32).to_be_bytes();
    assert!(read(&frame).is_err());
}

fn kind(e: Error) -> ErrorKind {
    match e {
        Error::Io(e) => e.kind,
        _ => panic!("not an I/O error"),
    }
}

#[test]
fn frames_say_what_is_wrong() {
    assert_eq!(encode(&[0xaa; 300])[..5], [0, 0, 1, 44, 0xaa]);
    assert_eq!(kind(read(&[0]).unwrap_err()), ErrorKind::UnexpectedEof);
    let large = ((MAX_FRAME + 1) as u32).to_be_bytes();
    assert_eq!(kind(read(&large).unwrap_err()), ErrorKind::InvalidData);
    assert_eq!(read(&large).unwrap_err().message(), "frame too large");
    assert_eq!(frame_length(&[0, 0x10, 0, 0]).unwrap(), MAX_FRAME);
    assert!(frame_length(&[0, 0x10, 0, 1]).is_err());
}

#[test]
fn params_out_of_range() {
    let good = Params {
        system: SystemCode::IsdbT,
        frequency_khz: 515_143,
        stream_id: None,
        polarization: PolarizationCode::Unspecified,
    };
    let message = |p: Params| p.tune_params().unwrap_err().message();
    assert!(good.tune_params().is_ok());
    assert_eq!(
        message(Params { stream_id: Some(0x1_0000), ..good }),
        "invalid tuning parameters: the stream id is out of range"
    );
    assert_eq!(
        message(Params { system: SystemCode::Unspecified, ..good }),
        "invalid tuning parameters: unknown system"
    );
    assert_eq!(
        message(Params { polarization: PolarizationCode::Unknown(9), ..good }),
        "invalid tuning parameters: unknown polarization"
    );
}

#[test]
fn codes_come_through() {
    for s in [System::IsdbT, System::IsdbS, System::IsdbS3] {
        assert_eq!(system(system_code(s)), Some(s));
    }
    assert_eq!(system(SystemCode::Unknown(4)), None);
    for f in [StreamFormat::Ts, StreamFormat::Tlv] {
        assert_eq!(stream_format(format_code(f)), Some(f));
    }
    assert_eq!(stream_format(FormatCode::Unspecified), None);
}
