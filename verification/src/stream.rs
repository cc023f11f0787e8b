//! The TS of a bridge, split among the tuners it carries.

use vstd::prelude::*;

use crate::error::Error;
use crate::it930x::XFER_SIZE;
use crate::traits;
use crate::usb::BulkIn;

verus! {

/// The transfers kept in flight on the stream endpoint.
pub const TRANSFERS_IN_FLIGHT: usize = 8;

/// The transfers a tuner's stream may fall behind by before its data is
/// dropped.
pub const BACKLOG: usize = 64;

/// The size of a packet.
pub const PACKET: usize = 188;

/// A packet of an input.
pub struct Packet {
    /// The input, from 0.
    pub slot: usize,
    pub data: Vec<u8>,
}

/// What packets hold.
pub open spec fn contents(packets: Seq<Packet>) -> Seq<(usize, Seq<u8>)> {
    packets.map(|i: int, p: Packet| (p.slot, p.data@))
}

/// Whether a byte starts a packet.
pub open spec fn is_sync(tagged: bool, byte: u8) -> bool {
    if tagged {
        byte & 0x8f == 0x07
    } else {
        byte == 0x47
    }
}

/// The number of the input of a packet, from its sync byte.
pub open spec fn input_of(tagged: bool, byte: u8) -> u8 {
    if tagged {
        (byte & 0x70) >> 4
    } else {
        1
    }
}

/// The packet at `p`, with its sync byte restored, if its input is one of the
/// five.
pub open spec fn packet_at(buf: Seq<u8>, tagged: bool, p: int) -> Seq<(usize, Seq<u8>)> {
    let id = input_of(tagged, buf[p]);
    if 1 <= id <= 5 {
        seq![((id - 1) as usize, buf.subrange(p, p + 188).update(0, 0x47))]
    } else {
        Seq::empty()
    }
}

/// Whether four packets in a row start at `p`.
pub open spec fn in_step(buf: Seq<u8>, tagged: bool, p: int) -> bool {
    &&& is_sync(tagged, buf[p])
    &&& is_sync(tagged, buf[p + 188])
    &&& is_sync(tagged, buf[p + 376])
    &&& is_sync(tagged, buf[p + 564])
}

/// The packets from `p` on, and where they end. Off the stream, four packets in
/// a row are looked for byte by byte; on it, one packet after the other is taken
/// as long as each starts with a sync byte.
pub open spec fn packets_from(buf: Seq<u8>, tagged: bool, p: int, on: bool) -> (
    Seq<(usize, Seq<u8>)>,
    int,
)
    decreases buf.len() - p,
        (if on {
            1int
        } else {
            0
        }),
{
    if p < 0 || p > buf.len() {
        (Seq::empty(), p)
    } else if on {
        if buf.len() - p >= 188 && is_sync(tagged, buf[p]) {
            let (rest, end) = packets_from(buf, tagged, p + 188, true);
            (packet_at(buf, tagged, p) + rest, end)
        } else {
            packets_from(buf, tagged, p, false)
        }
    } else if buf.len() - p < 752 {
        (Seq::empty(), p)
    } else if in_step(buf, tagged, p) {
        let (rest, end) = packets_from(buf, tagged, p + 188, true);
        (packet_at(buf, tagged, p) + rest, end)
    } else {
        packets_from(buf, tagged, p + 1, false)
    }
}

fn sync(tagged: bool, byte: u8) -> (r: bool)
    ensures
        r == is_sync(tagged, byte),
{
    if tagged {
        byte & 0x8f == 0x07
    } else {
        byte == 0x47
    }
}

/// Takes the packet at `p` out.
fn take_packet(buf: &Vec<u8>, tagged: bool, p: usize, out: &mut Vec<Packet>)
    requires
        p + 188 <= buf@.len(),
    ensures
        contents(final(out)@) == contents(old(out)@) + packet_at(buf@, tagged, p as int),
{
    let end: usize = buf.len();
    assert(p + 188 <= end);
    let id: u8 = if tagged { (buf[p] & 0x70) >> 4 } else { 1 };
    if id >= 1 && id <= 5 {
        let mut data: Vec<u8> = Vec::new();
        data.extend_from_slice(vstd::slice::slice_subrange(buf.as_slice(), p, p + 188));
        data.set(0, 0x47);
        assert(data@ =~= buf@.subrange(p as int, p + 188).update(0, 0x47));
        out.push(Packet { slot: (id - 1) as usize, data });
        assert(contents(out@) =~= contents(old(out)@) + packet_at(buf@, tagged, p as int));
    } else {
        assert(contents(out@) =~= contents(old(out)@) + packet_at(buf@, tagged, p as int));
    }
}

/// Splits the stream of a bridge into the 188-byte packets of each input.
/// Tagged, the sync byte tells the input, 0x17 for the first to 0x57 for the
/// fifth, and is restored to 0x47; untagged, every packet is of the first.
/// `carry` keeps what is left over for the next call.
pub fn demux(carry: &mut Vec<u8>, data: &[u8], tagged: bool) -> (r: Vec<Packet>)
    ensures
        ({
            let buf = old(carry)@ + data@;
            let (packets, end) = packets_from(buf, tagged, 0, false);
            &&& contents(r@) == packets
            &&& 0 <= end <= buf.len()
            &&& final(carry)@ == buf.skip(end)
        }),
{
    carry.extend_from_slice(data);
    let ghost buf = old(carry)@ + data@;
    assert(carry@ =~= buf);
    let ghost whole = packets_from(buf, tagged, 0, false);
    let mut out: Vec<Packet> = Vec::new();
    let mut p: usize = 0;
    let mut on: bool = false;
    let n: usize = carry.len();
    assert(contents(out@) =~= Seq::empty());
    assert(whole.0 =~= contents(out@) + packets_from(buf, tagged, 0, false).0);
    while on || n - p >= 752
        invariant
            p <= n,
            n == buf.len(),
            carry@ == buf,
            buf == old(carry)@ + data@,
            whole == packets_from(buf, tagged, 0, false),
            whole.0 == contents(out@) + packets_from(buf, tagged, p as int, on).0,
            whole.1 == packets_from(buf, tagged, p as int, on).1,
        decreases
                n - p,
                (if on {
                    1int
                } else {
                    0
                }),
    {
        let ghost here = packets_from(buf, tagged, p as int, on);
        if on {
            if n - p >= 188 && sync(tagged, carry[p]) {
                let ghost before = contents(out@);
                take_packet(carry, tagged, p, &mut out);
                assert(before + here.0 =~= contents(out@) + packets_from(
                    buf,
                    tagged,
                    p + 188,
                    true,
                ).0);
                p = p + 188;
            } else {
                on = false;
            }
        } else if sync(tagged, carry[p]) && sync(tagged, carry[p + 188]) && sync(
            tagged,
            carry[p + 376],
        ) && sync(tagged, carry[p + 564]) {
            let ghost before = contents(out@);
            take_packet(carry, tagged, p, &mut out);
            assert(before + here.0 =~= contents(out@) + packets_from(buf, tagged, p + 188, true).0);
            p = p + 188;
            on = true;
        } else {
            p = p + 1;
        }
    }
    assert(whole.0 =~= contents(out@));
    let mut rest: Vec<u8> = Vec::new();
    rest.extend_from_slice(vstd::slice::slice_subrange(carry.as_slice(), p, n));
    assert(rest@ =~= buf.skip(p as int));
    *carry = rest;
    out
}

/// Every packet that comes out is a whole one with its sync byte restored, of
/// one of the five inputs, and of the first if the stream is not tagged.
pub proof fn packets_are_whole(buf: Seq<u8>, tagged: bool, p: int, on: bool, i: int)
    requires
        0 <= p <= buf.len(),
        0 <= i < packets_from(buf, tagged, p, on).0.len(),
    ensures
        ({
            let (slot, packet) = packets_from(buf, tagged, p, on).0[i];
            &&& packet.len() == 188
            &&& packet[0] == 0x47
            &&& slot < 5
            &&& !tagged ==> slot == 0
        }),
    decreases
            buf.len() - p,
            (if on {
                1int
            } else {
                0
            }),
{
    if on {
        if buf.len() - p >= 188 && is_sync(tagged, buf[p]) {
            let first = packet_at(buf, tagged, p);
            if i >= first.len() {
                packets_are_whole(buf, tagged, p + 188, true, i - first.len());
            }
        } else {
            packets_are_whole(buf, tagged, p, false, i);
        }
    } else if buf.len() - p >= 752 {
        if in_step(buf, tagged, p) {
            let first = packet_at(buf, tagged, p);
            if i >= first.len() {
                packets_are_whole(buf, tagged, p + 188, true, i - first.len());
            }
        } else {
            packets_are_whole(buf, tagged, p + 1, false, i);
        }
    }
}

/// What is left over is less than the four packets it takes to find the stream,
/// so that the carry never grows beyond that.
pub proof fn carry_stays_short(buf: Seq<u8>, tagged: bool, p: int, on: bool)
    requires
        0 <= p <= buf.len(),
    ensures
        p <= packets_from(buf, tagged, p, on).1 <= buf.len(),
        buf.len() - packets_from(buf, tagged, p, on).1 < 752,
    decreases
            buf.len() - p,
            (if on {
                1int
            } else {
                0
            }),
{
    if on {
        if buf.len() - p >= 188 && is_sync(tagged, buf[p]) {
            carry_stays_short(buf, tagged, p + 188, true);
        } else {
            carry_stays_short(buf, tagged, p, false);
        }
    } else if buf.len() - p >= 752 {
        if in_step(buf, tagged, p) {
            carry_stays_short(buf, tagged, p + 188, true);
        } else {
            carry_stays_short(buf, tagged, p + 1, false);
        }
    }
}

/// The packets of a run of `n` from `p` on.
pub open spec fn run_of(buf: Seq<u8>, tagged: bool, p: int, n: nat) -> Seq<(usize, Seq<u8>)>
    decreases n,
{
    if n == 0 {
        Seq::empty()
    } else {
        packet_at(buf, tagged, p) + run_of(buf, tagged, p + 188, (n - 1) as nat)
    }
}

/// A stream that is in step throughout comes out whole: each of its packets, in
/// order, with nothing left over. Four packets are enough to get on it.
pub proof fn stream_in_step_comes_out_whole(buf: Seq<u8>, tagged: bool, p: int, n: nat, on: bool)
    requires
        0 <= p,
        buf.len() == p + 188 * n,
        on || n >= 4 || n == 0,
        forall|k: int| 0 <= k < n ==> is_sync(tagged, #[trigger] buf[p + 188 * k]),
    ensures
        packets_from(buf, tagged, p, on) == (run_of(buf, tagged, p, n), buf.len() as int),
    decreases n,
{
    reveal_with_fuel(packets_from, 3);
    if n > 0 {
        assert(is_sync(tagged, buf[p + 188 * 0]));
        if !on {
            assert(is_sync(tagged, buf[p + 188 * 1]));
            assert(is_sync(tagged, buf[p + 188 * 2]));
            assert(is_sync(tagged, buf[p + 188 * 3]));
        }
        assert forall|k: int| 0 <= k < n - 1 implies is_sync(
            tagged,
            #[trigger] buf[(p + 188) + 188 * k],
        ) by {
            assert(is_sync(tagged, buf[p + 188 * (k + 1)]));
        }
        stream_in_step_comes_out_whole(buf, tagged, p + 188, (n - 1) as nat, true);
    }
}

/// The byte that starts a packet of an input on the bus of a bridge: the number of the
/// input goes into its upper half if the stream is tagged.
pub open spec fn tag_of(tagged: bool, slot: usize) -> u8 {
    if tagged {
        (0x10 * (slot + 1) + 7) as u8
    } else {
        0x47
    }
}

/// Packets as an input can send them: whole ones, of the first input if the stream is
/// not tagged.
pub open spec fn are_packets(packets: Seq<(usize, Seq<u8>)>, tagged: bool) -> bool {
    forall|i: int|
        0 <= i < packets.len() ==> {
            let (slot, packet) = #[trigger] packets[i];
            &&& slot < 5
            &&& !tagged ==> slot == 0
            &&& packet.len() == 188
            &&& packet[0] == 0x47
        }
}

/// What a bridge makes of packets: one after the other, each started by its tag.
pub open spec fn sent(packets: Seq<(usize, Seq<u8>)>, tagged: bool) -> Seq<u8> {
    Seq::new(
        188 * packets.len(),
        |i: int|
            if i % 188 == 0 {
                tag_of(tagged, packets[i / 188].0)
            } else {
                packets[i / 188].1[i % 188]
            },
    )
}

proof fn tag_is_sync(tagged: bool, slot: usize)
    requires
        slot < 5,
        !tagged ==> slot == 0,
    ensures
        is_sync(tagged, tag_of(tagged, slot)),
        input_of(tagged, tag_of(tagged, slot)) == slot + 1,
{
    let tag = tag_of(true, slot);
    let n = (slot + 1) as u8;
    assert(tag & 0x8f == 0x07 && (tag & 0x70) >> 4 == n) by (bit_vector)
        requires
            n <= 5,
            tag == 0x10 * n + 7,
    ;
}

proof fn packet_is_sent(packets: Seq<(usize, Seq<u8>)>, tagged: bool, k: int, j: int)
    requires
        are_packets(packets, tagged),
        0 <= k <= 188 * packets.len(),
        0 <= j,
        188 * j < k,
    ensures
        j < packets.len(),
        is_sync(tagged, sent(packets, tagged).take(k)[188 * j]),
        188 * j + 188 <= k ==> packet_at(sent(packets, tagged).take(k), tagged, 188 * j)
            == seq![packets[j]],
{
    let buf = sent(packets, tagged).take(k);
    let (slot, packet) = packets[j];
    assert((188 * j) / 188 == j && (188 * j) % 188 == 0);
    tag_is_sync(tagged, slot);
    if 188 * j + 188 <= k {
        assert forall|i: int| 0 <= i < 188 implies #[trigger] buf.subrange(
            188 * j,
            188 * j + 188,
        ).update(0, 0x47)[i] == packet[i] by {
            assert((188 * j + i) / 188 == j && (188 * j + i) % 188 == i);
        }
        assert(buf.subrange(188 * j, 188 * j + 188).update(0, 0x47) =~= packet);
        assert(packet_at(buf, tagged, 188 * j) =~= seq![packets[j]]);
    }
}

proof fn stream_comes_out_from(
    packets: Seq<(usize, Seq<u8>)>,
    tagged: bool,
    k: int,
    j: int,
    on: bool,
)
    requires
        are_packets(packets, tagged),
        0 <= k <= 188 * packets.len(),
        0 <= j <= k / 188,
    ensures
        on || k - 188 * j >= 752 ==> packets_from(
            sent(packets, tagged).take(k),
            tagged,
            188 * j,
            on,
        ) == (packets.subrange(j, k / 188), 188 * (k / 188)),
        !on && k - 188 * j < 752 ==> packets_from(sent(packets, tagged).take(k), tagged, 188 * j, on)
            == (Seq::<(usize, Seq<u8>)>::empty(), 188 * j),
    decreases k - 188 * j, (if on { 1int } else { 0 }),
{
    let buf = sent(packets, tagged).take(k);
    if 188 * j + 188 <= k && (on || k - 188 * j >= 752) {
        packet_is_sent(packets, tagged, k, j);
        if !on {
            packet_is_sent(packets, tagged, k, j + 1);
            packet_is_sent(packets, tagged, k, j + 2);
            packet_is_sent(packets, tagged, k, j + 3);
            assert(188 * (j + 1) == 188 * j + 188);
            assert(188 * (j + 2) == 188 * j + 376);
            assert(188 * (j + 3) == 188 * j + 564);
            assert(in_step(buf, tagged, 188 * j));
        }
        assert(188 * (j + 1) == 188 * j + 188);
        stream_comes_out_from(packets, tagged, k, j + 1, true);
        assert(seq![packets[j]] + packets.subrange(j + 1, k / 188) =~= packets.subrange(
            j,
            k / 188,
        ));
    } else if on {
        stream_comes_out_from(packets, tagged, k, j, false);
        assert(packets.subrange(j, k / 188) =~= Seq::empty());
    }
}

/// What a bridge was given to carry comes out of it, byte for byte and in order: of the
/// first `k` bytes of a stream, every packet that is whole, once there is enough to get
/// on the stream, and the rest is kept from where the next packet starts.
pub proof fn stream_comes_out_as_sent(packets: Seq<(usize, Seq<u8>)>, tagged: bool, k: int)
    requires
        are_packets(packets, tagged),
        0 <= k <= 188 * packets.len(),
    ensures
        752 <= k ==> packets_from(sent(packets, tagged).take(k), tagged, 0, false) == (
            packets.take(k / 188),
            188 * (k / 188),
        ),
        k < 752 ==> packets_from(sent(packets, tagged).take(k), tagged, 0, false) == (
            Seq::<(usize, Seq<u8>)>::empty(),
            0int,
        ),
        k == 188 * packets.len() ==> sent(packets, tagged).take(k) == sent(packets, tagged),
        k == 188 * packets.len() ==> packets.take(k / 188) == packets,
{
    stream_comes_out_from(packets, tagged, k, 0, false);
    assert(packets.take(k / 188) =~= packets.subrange(0, k / 188));
}

/// What is kept of a stream starts with a packet, so that a stream comes out the same
/// whatever pieces it comes in.
pub proof fn streams_come_in_pieces(
    packets: Seq<(usize, Seq<u8>)>,
    tagged: bool,
    k: int,
    m: int,
)
    requires
        0 <= 188 * m <= k <= 188 * packets.len(),
    ensures
        sent(packets, tagged).take(k).skip(188 * m) == sent(packets.skip(m), tagged).take(
            k - 188 * m,
        ),
{
    let left = sent(packets, tagged).take(k).skip(188 * m);
    let right = sent(packets.skip(m), tagged).take(k - 188 * m);
    assert forall|i: int| 0 <= i < left.len() implies left[i] == right[i] by {
        assert((188 * m + i) / 188 == m + i / 188 && (188 * m + i) % 188 == i % 188);
    }
    assert(left =~= right);
}

/// Whether packets are what a stream holds at some places: byte for byte but for the
/// first of each, which is 0x47 and was the tag of the input, and none overlaps another.
pub open spec fn stand_at(
    buf: Seq<u8>,
    tagged: bool,
    places: Seq<int>,
    packets: Seq<(usize, Seq<u8>)>,
    from: int,
) -> bool {
    &&& places.len() == packets.len()
    &&& forall|i: int|
        0 <= i < places.len() ==> {
            let p = #[trigger] places[i];
            let (slot, packet) = packets[i];
            &&& from <= p && p + 188 <= buf.len()
            &&& packet.len() == 188
            &&& packet[0] == 0x47
            &&& forall|k: int| 1 <= k < 188 ==> #[trigger] packet[k] == buf[p + k]
            &&& slot < 5
            &&& buf[p] == tag_of(tagged, slot)
            &&& !tagged ==> slot == 0
        }
    &&& forall|i: int, j: int|
        0 <= i < j < places.len() ==> #[trigger] places[i] + 188 <= #[trigger] places[j]
}

proof fn sync_is_tag(buf: Seq<u8>, tagged: bool, p: int)
    requires
        0 <= p,
        p + 188 <= buf.len(),
        is_sync(tagged, buf[p]),
        1 <= input_of(tagged, buf[p]) <= 5,
    ensures
        stand_at(buf, tagged, seq![p], packet_at(buf, tagged, p), p),
{
    let byte = buf[p];
    let id = input_of(tagged, byte);
    if tagged {
        assert(byte == 0x10 * id + 7) by (bit_vector)
            requires
                byte & 0x8f == 0x07,
                id == (byte & 0x70) >> 4,
        ;
    }
}

/// Every packet that comes out stands in the stream: for each there is a place from which
/// on the stream holds it byte for byte, but for the first byte, and the places come in
/// the order of the packets and do not overlap.
pub proof fn packets_stand_in_the_stream(buf: Seq<u8>, tagged: bool, p: int, on: bool) -> (places:
    Seq<int>)
    requires
        0 <= p <= buf.len(),
    ensures
        stand_at(buf, tagged, places, packets_from(buf, tagged, p, on).0, p),
        forall|i: int|
            0 <= i < places.len() ==> #[trigger] places[i] + 188 <= packets_from(
                buf,
                tagged,
                p,
                on,
            ).1,
        p <= packets_from(buf, tagged, p, on).1 <= buf.len(),
    decreases
            buf.len() - p,
            (if on {
                1int
            } else {
                0
            }),
{
    carry_stays_short(buf, tagged, p, on);
    let taken = if on {
        buf.len() - p >= 188 && is_sync(tagged, buf[p])
    } else {
        buf.len() - p >= 752 && in_step(buf, tagged, p)
    };
    if taken {
        let after = packets_stand_in_the_stream(buf, tagged, p + 188, true);
        carry_stays_short(buf, tagged, p + 188, true);
        if 1 <= input_of(tagged, buf[p]) <= 5 {
            sync_is_tag(buf, tagged, p);
            let places = seq![p] + after;
            let packets = packets_from(buf, tagged, p, on).0;
            let rest = packets_from(buf, tagged, p + 188, true).0;
            assert(packets =~= packet_at(buf, tagged, p) + rest);
            assert forall|i: int| 0 < i < places.len() implies #[trigger] places[i] == after[i - 1]
                && packets[i] == rest[i - 1] by {}
            assert(seq![p][0] == p && packets[0] == packet_at(buf, tagged, p)[0]);
            places
        } else {
            assert(packets_from(buf, tagged, p, on).0 =~= packets_from(
                buf,
                tagged,
                p + 188,
                true,
            ).0);
            after
        }
    } else if on {
        packets_stand_in_the_stream(buf, tagged, p, false)
    } else if buf.len() - p >= 752 {
        packets_stand_in_the_stream(buf, tagged, p + 1, false)
    } else {
        Seq::empty()
    }
}

/// The streams of the tuners on one bridge.
#[derive(Clone, Debug)]
pub struct Hub {
    /// Whether the bridge tags the packets of each input by their sync byte,
    /// rather than carrying the one input as is.
    pub tagged: bool,
    /// Whether the stream of each input is taken.
    pub taken: Vec<bool>,
    /// Whether the reception runs, or is being started.
    pub running: bool,
}

/// Nobody takes a stream.
pub open spec fn nobody(taken: Seq<bool>) -> bool {
    forall|i: int| 0 <= i < taken.len() ==> !#[trigger] taken[i]
}

impl Hub {
    /// There are five inputs.
    pub open spec fn wf(self) -> bool {
        self.taken@.len() == 5
    }

    /// A stream is only taken while the reception runs.
    pub open spec fn quiet(self) -> bool {
        self.running || nobody(self.taken@)
    }

    pub fn new(tagged: bool) -> (r: Self)
        ensures
            r.wf(),
            r.tagged == tagged,
            nobody(r.taken@),
            !r.running,
    {
        Hub { tagged, taken: vec![false; 5], running: false }
    }

    /// Takes the stream of `slot`; whether the reception is to be started.
    pub fn attach(&mut self, slot: usize) -> (start: bool)
        requires
            old(self).wf(),
            slot < 5,
        ensures
            final(self).wf(),
            final(self).tagged == old(self).tagged,
            final(self).taken@ == old(self).taken@.update(slot as int, true),
            final(self).running,
            final(self).quiet(),
            start == !old(self).running,
    {
        self.taken.set(slot, true);
        let start: bool = !self.running;
        self.running = true;
        start
    }

    pub fn detach(&mut self, slot: usize)
        requires
            old(self).wf(),
            slot < 5,
        ensures
            final(self).wf(),
            final(self).tagged == old(self).tagged,
            final(self).taken@ == old(self).taken@.update(slot as int, false),
            final(self).running == old(self).running,
            old(self).quiet() ==> final(self).quiet(),
    {
        self.taken.set(slot, false);
    }

    /// Gives up on the reception [`attach`](Self::attach) asked to start.
    pub fn abort(&mut self, slot: usize)
        requires
            old(self).wf(),
            slot < 5,
        ensures
            final(self).tagged == old(self).tagged,
            final(self).wf(),
            final(self).taken@ == old(self).taken@.update(slot as int, false),
            !final(self).running,
            (forall|i: int| 0 <= i < 5 && i != slot ==> !#[trigger] old(self).taken@[i])
                ==> final(self).quiet(),
    {
        self.taken.set(slot, false);
        self.running = false;
    }

    /// A transfer failed: every stream ends.
    pub fn fail(&mut self)
        ensures
            final(self).wf(),
            final(self).quiet(),
            final(self).tagged == old(self).tagged,
            nobody(final(self).taken@),
            !final(self).running,
    {
        self.taken = vec![false; 5];
        self.running = false;
    }

    /// Ends the streams that nobody reads any more; whether the reception is to
    /// go on, which it is as long as a stream is taken.
    pub fn settle(&mut self, gone: &[bool]) -> (go_on: bool)
        requires
            old(self).wf(),
            gone@.len() == 5,
        ensures
            final(self).wf(),
            final(self).tagged == old(self).tagged,
            final(self).taken@ == Seq::new(5, |i: int| old(self).taken@[i] && !gone@[i]),
            go_on == !nobody(final(self).taken@),
            final(self).running == (old(self).running && go_on),
            old(self).quiet() ==> final(self).quiet(),
    {
        let mut left: Vec<bool> = Vec::new();
        let mut any: bool = false;
        let mut i: usize = 0;
        while i < 5
            invariant
                i <= 5,
                self.taken@.len() == 5,
                gone@.len() == 5,
                left@.len() == i,
                forall|k: int| 0 <= k < i ==> left@[k] == (self.taken@[k] && !gone@[k]),
                any == exists|k: int| 0 <= k < i && #[trigger] left@[k],
            decreases 5 - i,
        {
            let stays: bool = self.taken[i] && !gone[i];
            let ghost before = left@;
            left.push(stays);
            assert(forall|k: int| 0 <= k < i ==> left@[k] == before[k]);
            assert(stays ==> left@[i as int]);
            any = any || stays;
            i = i + 1;
        }
        assert(left@ =~= Seq::new(5, |k: int| self.taken@[k] && !gone@[k]));
        self.taken = left;
        if !any {
            self.running = false;
        }
        any
    }
}

/// The bytes of the packets of an input, from the first `n` packets.
pub open spec fn bytes_of(packets: Seq<(usize, Seq<u8>)>, slot: usize) -> Seq<u8>
    decreases packets.len(),
{
    if packets.len() == 0 {
        Seq::empty()
    } else {
        let before = bytes_of(packets.drop_last(), slot);
        if packets.last().0 == slot {
            before + packets.last().1
        } else {
            before
        }
    }
}

/// How many of the first `n` packets are of an input.
pub open spec fn count_of(packets: Seq<(usize, Seq<u8>)>, slot: usize, n: int) -> int
    decreases n,
{
    if n <= 0 {
        0
    } else {
        count_of(packets, slot, n - 1) + if packets[n - 1].0 == slot {
            1int
        } else {
            0
        }
    }
}

proof fn counts_agree(a: Seq<(usize, Seq<u8>)>, b: Seq<(usize, Seq<u8>)>, slot: usize, n: int)
    requires
        0 <= n <= a.len(),
        n <= b.len(),
        forall|i: int| 0 <= i < n ==> a[i] == b[i],
    ensures
        count_of(a, slot, n) == count_of(b, slot, n),
        count_of(a, slot, n) >= 0,
    decreases n,
{
    if n > 0 {
        counts_agree(a, b, slot, n - 1);
    }
}

/// Each input gets its own packets whole and in order: packet `i` stands in the bytes of
/// its input behind the packets of that input before it, and there is nothing else in
/// them.
pub proof fn each_input_gets_its_packets(packets: Seq<(usize, Seq<u8>)>, slot: usize)
    requires
        forall|i: int| 0 <= i < packets.len() ==> (#[trigger] packets[i]).1.len() == 188,
    ensures
        bytes_of(packets, slot).len() == 188 * count_of(packets, slot, packets.len() as int),
        forall|i: int, k: int|
            0 <= i < packets.len() && packets[i].0 == slot && 0 <= k < 188 ==> bytes_of(
                packets,
                slot,
            )[188 * count_of(packets, slot, i) + k] == #[trigger] packets[i].1[k],
        forall|i: int|
            0 <= i < packets.len() && (#[trigger] packets[i]).0 == slot ==> 0 <= count_of(
                packets,
                slot,
                i,
            ) < count_of(packets, slot, packets.len() as int),
    decreases packets.len(),
{
    if packets.len() > 0 {
        let n = packets.len() - 1;
        let before = packets.drop_last();
        each_input_gets_its_packets(before, slot);
        counts_agree(packets, before, slot, n);
        assert forall|i: int| 0 <= i < n && (#[trigger] packets[i]).0 == slot implies count_of(
            packets,
            slot,
            i,
        ) == count_of(before, slot, i) by {
            counts_agree(packets, before, slot, i);
        }
        assert forall|i: int, k: int|
            0 <= i < packets.len() && packets[i].0 == slot && 0 <= k < 188 implies bytes_of(
            packets,
            slot,
        )[188 * count_of(packets, slot, i) + k] == #[trigger] packets[i].1[k] by {
            if i < n {
                assert(before[i] == packets[i]);
                assert(before[i].1[k] == packets[i].1[k]);
            }
        }
        assert forall|i: int| 0 <= i < packets.len() && (#[trigger] packets[i]).0 == slot implies 0
            <= count_of(packets, slot, i) < count_of(packets, slot, packets.len() as int) by {
            if i < n {
                assert(before[i] == packets[i]);
            }
        }
    }
}

/// A reception: what is left over from the transfers so far.
pub struct Reception {
    pub tagged: bool,
    pub carry: Vec<u8>,
}

impl Reception {
    pub fn new(tagged: bool) -> (r: Self)
        ensures
            r.tagged == tagged,
            r.carry@ == Seq::<u8>::empty(),
    {
        Reception { tagged, carry: Vec::new() }
    }

    /// Takes a transfer in and gives out the bytes of each input.
    pub fn feed(&mut self, data: &[u8]) -> (r: Vec<Vec<u8>>)
        ensures
            ({
                let buf = old(self).carry@ + data@;
                let (packets, end) = packets_from(buf, old(self).tagged, 0, false);
                &&& r@.len() == 5
                &&& forall|slot: int|
                    0 <= slot < 5 ==> (#[trigger] r@[slot])@ == bytes_of(packets, slot as usize)
                &&& final(self).carry@ == buf.skip(end)
                &&& final(self).tagged == old(self).tagged
            }),
    {
        let packets: Vec<Packet> = demux(&mut self.carry, data, self.tagged);
        let mut out: Vec<Vec<u8>> = Vec::new();
        let mut slot: usize = 0;
        while slot < 5
            invariant
                slot <= 5,
                out@.len() == slot,
                forall|k: int|
                    0 <= k < slot ==> (#[trigger] out@[k])@ == bytes_of(
                        contents(packets@),
                        k as usize,
                    ),
            decreases 5 - slot,
        {
            out.push(gather(&packets, slot));
            slot = slot + 1;
        }
        out
    }
}

/// The bytes of the packets of an input.
fn gather(packets: &Vec<Packet>, slot: usize) -> (r: Vec<u8>)
    ensures
        r@ == bytes_of(contents(packets@), slot),
{
    let ghost all = contents(packets@);
    let mut bytes: Vec<u8> = Vec::new();
    let mut i: usize = 0;
    assert(all.take(0) =~= Seq::empty());
    while i < packets.len()
        invariant
            i <= packets@.len(),
            all == contents(packets@),
            bytes@ == bytes_of(all.take(i as int), slot),
        decreases packets@.len() - i,
    {
        assert(all.take(i + 1).drop_last() =~= all.take(i as int));
        assert(all.take(i + 1).last() == (packets@[i as int].slot, packets@[i as int].data@));
        if packets[i].slot == slot {
            bytes.extend_from_slice(packets[i].data.as_slice());
            assert(bytes@ =~= bytes_of(all.take(i as int), slot) + packets@[i as int].data@);
        }
        i = i + 1;
    }
    assert(all.take(packets@.len() as int) =~= all);
    bytes
}

/// The transfers of a reception at rest: as many as are kept in flight.
pub open spec fn full_flight() -> Seq<usize> {
    Seq::new(8, |i: int| XFER_SIZE)
}

/// An endpoint with so many transfers of a reception put in flight.
pub open spec fn primed<Q: BulkIn>(q: Q::State, n: nat) -> Q::State
    decreases n,
{
    if n == 0 {
        q
    } else {
        Q::on_submit(primed::<Q>(q, (n - 1) as nat), XFER_SIZE)
    }
}

/// An endpoint after the next transfer, which another took the place of unless it
/// failed.
pub open spec fn next_state<Q: BulkIn>(q: Q::State) -> Q::State {
    let (q1, r) = Q::on_complete(q);
    if r is Ok {
        Q::on_submit(q1, XFER_SIZE)
    } else {
        q1
    }
}

/// Puts the transfers of a reception in flight.
pub fn prime<Q: BulkIn>(queue: &mut Q)
    requires
        old(queue).in_flight().len() == 0,
    ensures
        final(queue).in_flight() == full_flight(),
        final(queue).state() == primed::<Q>(old(queue).state(), 8),
{
    let mut i: usize = 0;
    while i < TRANSFERS_IN_FLIGHT
        invariant
            i <= 8,
            queue.in_flight() =~= Seq::new(i as nat, |k: int| XFER_SIZE),
            queue.state() == primed::<Q>(old(queue).state(), i as nat),
        decreases 8 - i,
    {
        queue.submit(XFER_SIZE);
        i = i + 1;
    }
}

/// Waits for the next transfer of a reception, and puts another in flight in its
/// place; none if it failed.
pub fn next_transfer<Q: BulkIn>(queue: &mut Q) -> (r: Result<Vec<u8>, Error>)
    requires
        old(queue).in_flight() == full_flight(),
    ensures
        traits::seen(r) == Q::on_complete(old(queue).state()).1,
        final(queue).state() == next_state::<Q>(old(queue).state()),
        r is Ok ==> final(queue).in_flight() == full_flight(),
        r is Err ==> final(queue).in_flight() == full_flight().skip(1),
{
    let r: Result<Vec<u8>, Error> = queue.next_complete();
    if r.is_ok() {
        queue.submit(XFER_SIZE);
        assert(queue.in_flight() =~= full_flight());
    }
    r
}

} // verus!
