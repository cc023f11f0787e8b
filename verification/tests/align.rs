use tunelith::align::{packet_start, Aligner};
use tunelith::types::StreamFormat;

fn packets(n: usize) -> Vec<u8> {
    let mut data = Vec::new();
    for i in 0..n {
        data.push(0x47);
        data.extend_from_slice(&[i as u8; 187]);
    }
    data
}

#[test]
fn aligns_ts() {
    let mut aligner = Aligner::new(StreamFormat::Ts);
    assert!(aligner.feed(packets(4)).is_empty());

    let mut frame = vec![0; 5];
    frame.extend_from_slice(&packets(3));
    frame.extend_from_slice(&packets(1)[..100]);
    assert_eq!(aligner.feed(frame), packets(3));

    // The rest of the packet, then a few bytes slipped in.
    let mut frame = packets(1)[100..].to_vec();
    frame.extend_from_slice(&[0xff; 7]);
    frame.extend_from_slice(&packets(4));
    let out = aligner.feed(frame);
    assert_eq!(&out[..188], &packets(1)[..]);
    assert_eq!(&out[188..], &packets(4)[..]);
}

#[test]
fn aligns_tlv() {
    let packet = [0x7f, 0x03, 0x00, 0x02, 0xaa, 0xbb];
    let mut frame = vec![0x7f, 0x00];
    for _ in 0..3 {
        frame.extend_from_slice(&packet);
    }
    assert_eq!(packet_start(StreamFormat::Tlv, &frame), Some(2));
}

#[test]
fn finds_no_start_in_noise() {
    assert_eq!(packet_start(StreamFormat::Ts, &[0x47; 376]), None);
    assert_eq!(packet_start(StreamFormat::Ts, &[0x47; 377]), Some(0));
    assert_eq!(packet_start(StreamFormat::Tlv, &[]), None);
    assert_eq!(packet_start(StreamFormat::Tlv, &[0x7f, 0, 0xff, 0xff]), None);
}

#[test]
fn tlv_passes_once_aligned() {
    let packet = [0x7f, 0x03, 0x00, 0x02, 0xaa, 0xbb];
    let mut frame = vec![1, 2, 3];
    for _ in 0..3 {
        frame.extend_from_slice(&packet);
    }
    let mut aligner = Aligner::new(StreamFormat::Tlv);
    assert!(aligner.feed(frame.clone()).is_empty());
    assert!(aligner.feed(vec![0; 100]).is_empty());
    assert_eq!(aligner.feed(frame.clone()), frame[3..].to_vec());
    assert_eq!(aligner.feed(vec![9, 9]), vec![9, 9]);
}

#[test]
fn ts_is_held_back_for_less_than_a_packet() {
    let mut aligner = Aligner::new(StreamFormat::Ts);
    aligner.feed(packets(1));
    let stream = packets(6);
    let mut given = 0;
    for (fed, byte) in stream.iter().enumerate() {
        given += aligner.feed(vec![*byte]).len();
        // Three packets are looked at to find the first.
        assert!(fed + 1 - given < if given > 0 { 188 } else { 564 });
    }
    assert_eq!(given, stream.len());
}

#[test]
fn ts_in_step_loses_nothing() {
    let mut aligner = Aligner::new(StreamFormat::Ts);
    aligner.feed(Vec::new());
    let stream = packets(9);
    let mut out = Vec::new();
    for part in stream.chunks(500) {
        out.extend(aligner.feed(part.to_vec()));
    }
    assert_eq!(out, stream);
}
