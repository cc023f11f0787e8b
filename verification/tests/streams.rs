use tunelith::pxmlt;
use tunelith::stream::{demux, Hub, Packet, Reception};

fn packet(sync: u8, fill: u8) -> Vec<u8> {
    let mut p = vec![fill; 188];
    p[0] = sync;
    p
}

fn collect(got: &mut Vec<(usize, u8)>, packets: Vec<Packet>) {
    for p in packets {
        assert_eq!(p.data[0], 0x47);
        assert_eq!(p.data.len(), 188);
        got.push((p.slot, p.data[1]));
    }
}

#[test]
fn splits_tagged_and_resyncs() {
    let mut stream = vec![0xaa; 5]; // garbage before the first packet
    for i in 0..10u8 {
        stream.extend(packet(((i % 5 + 1) << 4) | 0x07, i));
    }

    let mut carry = Vec::new();
    let mut got: Vec<(usize, u8)> = Vec::new();
    // Cut the stream mid-packet to exercise the carry.
    let (a, b) = stream.split_at(700);
    for part in [a, b] {
        collect(&mut got, demux(&mut carry, part, true));
    }

    let expected: Vec<_> = (0..10u8).map(|i| (usize::from(i % 5), i)).collect();
    assert_eq!(got, expected);
    assert!(carry.is_empty());
}

#[test]
fn passes_untagged() {
    let mut stream = vec![0x47; 3];
    for i in 0..6u8 {
        stream.extend(packet(0x47, i));
    }

    let mut carry = Vec::new();
    let mut got = Vec::new();
    for p in demux(&mut carry, &stream, false) {
        got.push((p.slot, p.data[1]));
    }
    let expected: Vec<_> = (0..6u8).map(|i| (0, i)).collect();
    assert_eq!(got, expected);
}

#[test]
fn demux_splits_and_resyncs() {
    let mut stream = vec![0xaa; 5]; // garbage before the first packet
    for i in 0..10u8 {
        stream.extend(packet(((i % 5 + 1) << 4) | 0x07, i));
    }

    let mut carry = Vec::new();
    let mut got: Vec<(usize, u8)> = Vec::new();
    // Cut the stream mid-packet to exercise the carry.
    let (a, b) = stream.split_at(700);
    for part in [a, b] {
        collect(&mut got, pxmlt::demux(&mut carry, part));
    }

    let expected: Vec<_> = (0..10u8).map(|i| (usize::from(i % 5), i)).collect();
    assert_eq!(got, expected);
    assert!(carry.is_empty());
}

#[test]
fn reception_gathers_by_input() {
    let mut reception = Reception::new(true);
    let mut stream = Vec::new();
    for i in 0..8u8 {
        stream.extend(packet(((i % 2 + 1) << 4) | 0x07, i));
    }
    let slots = reception.feed(&stream);
    assert_eq!(slots[0].len(), 4 * 188);
    assert_eq!(slots[1].len(), 4 * 188);
    assert_eq!(slots[1][1], 1);
    assert!(slots[2].is_empty());
}

#[test]
fn hub_starts_once() {
    let mut hub = Hub::new(true);
    assert!(hub.attach(0));
    assert!(!hub.attach(1));
    hub.detach(0);
    hub.detach(1);
    assert!(!hub.settle(&[false; 5]));
    assert!(hub.attach(2));
}
