//! Cutting what a capture filter gives out into whole packets.

use vstd::prelude::*;

use crate::types::StreamFormat;

verus! {

/// The size of a TS packet.
pub const TS_PACKET: usize = 188;

/// The length of the packet whose head is at `at`, if there is one there.
pub open spec fn packet_len(format: StreamFormat, data: Seq<u8>, at: int) -> Option<int> {
    if at < 0 || at >= data.len() {
        None
    } else {
        match format {
            StreamFormat::Ts => if data[at] == 0x47 {
                Some(188)
            } else {
                None
            },
            StreamFormat::Tlv => if data[at] == 0x7f && at + 4 <= data.len() {
                Some(4 + data[at + 2] * 256 + data[at + 3])
            } else {
                None
            },
        }
    }
}

/// Whether the heads of `n` packets in a row are found from `at` on.
pub open spec fn in_a_row(format: StreamFormat, data: Seq<u8>, at: int, n: nat) -> bool
    decreases n,
{
    n == 0 || match packet_len(format, data, at) {
        Some(len) => in_a_row(format, data, at + len, (n - 1) as nat),
        None => false,
    }
}

/// Where the first of three packets in a row starts, from `from` on.
pub open spec fn first_start(format: StreamFormat, data: Seq<u8>, from: int) -> Option<int>
    decreases data.len() - from,
{
    if from >= data.len() {
        None
    } else if in_a_row(format, data, from, 3) {
        Some(from)
    } else {
        first_start(format, data, from + 1)
    }
}

/// Where three TS packets in a row are found, the first is whole and starts with
/// its sync byte.
pub proof fn first_is_a_start(data: Seq<u8>, from: int)
    requires
        0 <= from,
    ensures
        first_start(StreamFormat::Ts, data, from) matches Some(start) ==> {
            &&& from <= start
            &&& start + 376 < data.len()
            &&& in_a_row(StreamFormat::Ts, data, start, 3)
            &&& data[start] == 0x47
        },
    decreases data.len() - from,
{
    reveal_with_fuel(in_a_row, 4);
    if from < data.len() && !in_a_row(StreamFormat::Ts, data, from, 3) {
        first_is_a_start(data, from + 1);
    }
}

fn len_at(format: StreamFormat, data: &[u8], at: usize) -> (r: Option<usize>)
    ensures
        match packet_len(format, data@, at as int) {
            Some(len) => r == Some(len as usize) && len <= 65_539,
            None => r is None,
        },
{
    let n: usize = data.len();
    if at >= n {
        return None;
    }
    match format {
        StreamFormat::Ts => if data[at] == 0x47 {
            Some(188)
        } else {
            None
        },
        StreamFormat::Tlv => if data[at] == 0x7f && n - at >= 4 {
            Some(4 + data[at + 2] as usize * 256 + data[at + 3] as usize)
        } else {
            None
        },
    }
}

fn three_in_a_row(format: StreamFormat, data: &[u8], start: usize) -> (r: bool)
    requires
        start < data@.len(),
    ensures
        r == in_a_row(format, data@, start as int, 3),
{
    let n: usize = data.len();
    let mut at: usize = start;
    let mut left: u8 = 3;
    while left > 0
        invariant
            n == data@.len(),
            left <= 3,
            in_a_row(format, data@, at as int, left as nat) == in_a_row(
                format,
                data@,
                start as int,
                3,
            ),
        decreases left,
    {
        match len_at(format, data, at) {
            Some(len) => {
                if len >= n - at {
                    // The next head is past the end.
                    proof {
                        reveal_with_fuel(in_a_row, 3);
                        assert(packet_len(format, data@, at + len) is None);
                    }
                    return left == 1;
                }
                at = at + len;
                left = left - 1;
            },
            None => return false,
        }
    }
    true
}

fn start_from(format: StreamFormat, data: &[u8], from: usize) -> (r: Option<usize>)
    requires
        from <= data@.len(),
    ensures
        match first_start(format, data@, from as int) {
            Some(start) => r matches Some(s) && s == start && from <= start < data@.len(),
            None => r is None,
        },
{
    let mut start: usize = from;
    while start < data.len()
        invariant
            from <= start <= data@.len(),
            first_start(format, data@, from as int) == first_start(format, data@, start as int),
        decreases data@.len() - start,
    {
        if three_in_a_row(format, data, start) {
            return Some(start);
        }
        start = start + 1;
    }
    None
}

/// Where the first of three packets in a row starts.
pub fn packet_start(format: StreamFormat, data: &[u8]) -> (r: Option<usize>)
    ensures
        match first_start(format, data@, 0) {
            Some(start) => r matches Some(s) && s == start && start < data@.len(),
            None => r is None,
        },
{
    start_from(format, data, 0)
}

/// What an [`Aligner`] knows of the stream.
#[verifier::ext_equal]
pub struct Alignment {
    pub format: StreamFormat,
    /// Whether the first frame went by.
    pub started: bool,
    /// Whether a packet starts next.
    pub aligned: bool,
    /// The bytes of a TS packet yet to be completed.
    pub carry: Seq<u8>,
}

impl Alignment {
    /// Whether fewer than three packets of a TS are held back, and fewer than one
    /// where a packet starts next.
    pub open spec fn holds_little(self) -> bool {
        self.carry.len() < 564 && (self.aligned ==> self.carry.len() < 188)
    }
}

/// The packets of a TS from `at` on, where they end, and whether a packet starts
/// there. Off the stream, three packets in a row are looked for.
pub open spec fn cut(buf: Seq<u8>, at: int, aligned: bool) -> (Seq<u8>, int, bool)
    decreases buf.len() - at,
{
    if at < 0 || buf.len() - at < 188 {
        (Seq::empty(), at, aligned)
    } else if aligned && buf[at] == 0x47 {
        let (rest, end, on) = cut(buf, at + 188, true);
        (buf.subrange(at, at + 188) + rest, end, on)
    } else if buf.len() - at < 564 {
        (Seq::empty(), at, false)
    } else {
        match first_start(StreamFormat::Ts, buf, at) {
            Some(start) => {
                proof {
                    first_is_a_start(buf, at);
                }
                let (rest, end, on) = cut(buf, start + 188, true);
                (buf.subrange(start, start + 188) + rest, end, on)
            },
            None => (Seq::empty(), buf.len() - 563, false),
        }
    }
}

/// What an aligner that was in `a` is in after a frame, and what it gives out.
pub open spec fn fed(a: Alignment, data: Seq<u8>) -> (Alignment, Seq<u8>) {
    if !a.started {
        (Alignment { started: true, ..a }, Seq::empty())
    } else {
        match a.format {
            StreamFormat::Ts => fed_ts(a, data),
            StreamFormat::Tlv => fed_tlv(a, data),
        }
    }
}

/// As [`fed`], for the frames of a TS after the first.
pub open spec fn fed_ts(a: Alignment, data: Seq<u8>) -> (Alignment, Seq<u8>) {
    let buf = a.carry + data;
    let (out, end, on) = cut(buf, 0, a.aligned);
    (Alignment { aligned: on, carry: buf.skip(end), ..a }, out)
}

/// As [`fed`], for the frames of a TLV stream after the first.
pub open spec fn fed_tlv(a: Alignment, data: Seq<u8>) -> (Alignment, Seq<u8>) {
    if a.aligned {
        (a, data)
    } else {
        match first_start(StreamFormat::Tlv, data, 0) {
            Some(start) => (Alignment { aligned: true, ..a }, data.skip(start)),
            None => (a, Seq::empty()),
        }
    }
}

/// Gives out the stream in whole packets. The first frame is left out, the
/// device having started it anywhere, then everything before the first
/// packet. A TS keeps being cut into its packets, the terrestrial tuner
/// slipping a few bytes in its first frames.
pub struct Aligner {
    format: StreamFormat,
    started: bool,
    aligned: bool,
    carry: Vec<u8>,
}

impl View for Aligner {
    type V = Alignment;

    closed spec fn view(&self) -> Alignment {
        Alignment {
            format: self.format,
            started: self.started,
            aligned: self.aligned,
            carry: self.carry@,
        }
    }
}

impl Aligner {
    pub fn new(format: StreamFormat) -> (r: Self)
        ensures
            r@ == fresh(format),
    {
        Aligner { format, started: false, aligned: false, carry: Vec::new() }
    }

    /// Takes a frame, and gives out the packets it completes.
    pub fn feed(&mut self, data: Vec<u8>) -> (r: Vec<u8>)
        requires
            old(self)@.carry.len() + data@.len() <= usize::MAX,
        ensures
            (final(self)@, r@) == fed(old(self)@, data@),
    {
        if !self.started {
            self.started = true;
            return Vec::new();
        }
        match self.format {
            StreamFormat::Ts => self.feed_ts(data),
            StreamFormat::Tlv => self.feed_tlv(data),
        }
    }

    fn feed_tlv(&mut self, data: Vec<u8>) -> (r: Vec<u8>)
        ensures
            (final(self)@, r@) == fed_tlv(old(self)@, data@),
    {
        if self.aligned {
            return data;
        }
        match packet_start(StreamFormat::Tlv, data.as_slice()) {
            Some(start) => {
                self.aligned = true;
                let ghost whole = data@;
                let mut data: Vec<u8> = data;
                let rest: Vec<u8> = data.split_off(start);
                assert(rest@ =~= whole.skip(start as int));
                rest
            },
            None => Vec::new(),
        }
    }

    fn feed_ts(&mut self, data: Vec<u8>) -> (r: Vec<u8>)
        requires
            old(self)@.carry.len() + data@.len() <= usize::MAX,
        ensures
            (final(self)@, r@) == fed_ts(old(self)@, data@),
    {
        let mut data: Vec<u8> = data;
        self.carry.append(&mut data);
        let n: usize = self.carry.len();
        let ghost buf = self.carry@;
        let ghost whole = cut(buf, 0, self.aligned);
        let mut out: Vec<u8> = Vec::new();
        let mut at: usize = 0;
        while n - at >= TS_PACKET
            invariant_except_break
                ({
                    let (rest, end, on) = cut(buf, at as int, self.aligned);
                    whole == (out@ + rest, end, on)
                }),
            invariant
                self.carry@ == buf,
                buf.len() == n,
                at <= n,
                old(self)@ == (Alignment { carry: old(self)@.carry, aligned: old(self)@.aligned,
                    format: self.format, started: self.started }),
            ensures
                whole == (out@, at as int, self.aligned),
            decreases n - at,
        {
            if self.aligned && self.carry[at] == 0x47 {
                out.extend_from_slice(vstd::slice::slice_subrange(self.carry.as_slice(), at, at + TS_PACKET));
                at = at + TS_PACKET;
                assert(out@ + cut(buf, at as int, true).0 =~= whole.0);
                continue;
            }
            self.aligned = false;
            if n - at < TS_PACKET * 3 {
                assert(out@ =~= whole.0);
                break;
            }
            match start_from(StreamFormat::Ts, self.carry.as_slice(), at) {
                Some(start) => {
                    proof {
                        reveal_with_fuel(in_a_row, 4);
                        first_is_a_start(buf, at as int);
                    }
                    self.aligned = true;
                    out.extend_from_slice(
                        vstd::slice::slice_subrange(
                            self.carry.as_slice(),
                            start,
                            start + TS_PACKET,
                        ),
                    );
                    at = start + TS_PACKET;
                    assert(out@ + cut(buf, at as int, true).0 =~= whole.0);
                },
                None => {
                    at = n - (TS_PACKET * 3 - 1);
                    assert(out@ =~= whole.0);
                    break;
                },
            }
        }
        self.carry = self.carry.split_off(at);
        out
    }
}

/// A sequence of whole TS packets, each starting with the sync byte.
pub open spec fn whole_packets(data: Seq<u8>) -> bool {
    &&& data.len() % 188 == 0
    &&& forall|i: int|
        0 <= i < data.len() && i % 188 == 0 ==> #[trigger] data[i] == 0x47
}

proof fn packet_in_front(packet: Seq<u8>, rest: Seq<u8>)
    requires
        packet.len() == 188,
        packet[0] == 0x47,
        whole_packets(rest),
    ensures
        whole_packets(packet + rest),
{
    let all = packet + rest;
    assert forall|i: int| 0 <= i < all.len() && i % 188 == 0 implies #[trigger] all[i] == 0x47 by {
        if i >= 188 {
            assert((i - 188) % 188 == 0);
            assert(rest[i - 188] == 0x47);
        }
    }
}

proof fn cut_is_whole(buf: Seq<u8>, at: int, aligned: bool)
    requires
        0 <= at <= buf.len(),
    ensures
        whole_packets(cut(buf, at, aligned).0),
        at <= cut(buf, at, aligned).1 <= buf.len(),
        buf.len() - cut(buf, at, aligned).1 < 564,
        cut(buf, at, aligned).2 ==> buf.len() - cut(buf, at, aligned).1 < 188,
    decreases buf.len() - at,
{
    if buf.len() - at < 188 {
    } else if aligned && buf[at] == 0x47 {
        cut_is_whole(buf, at + 188, true);
        packet_in_front(buf.subrange(at, at + 188), cut(buf, at + 188, true).0);
    } else if buf.len() - at < 564 {
    } else {
        first_is_a_start(buf, at);
        match first_start(StreamFormat::Ts, buf, at) {
            Some(start) => {
                cut_is_whole(buf, start + 188, true);
                packet_in_front(buf.subrange(start, start + 188), cut(buf, start + 188, true).0);
            },
            None => {},
        }
    }
}

/// Of a TS an aligner gives out whole packets only, each starting with the sync
/// byte. What it holds back is the end of what it held and was given, and never
/// makes up three packets, nor one where a packet starts next.
pub proof fn ts_comes_out_in_packets(a: Alignment, data: Seq<u8>)
    requires
        a.format == StreamFormat::Ts,
        a.holds_little(),
    ensures
        whole_packets(fed(a, data).1),
        fed(a, data).0.holds_little(),
        a.started ==> fed(a, data).0.carry.is_suffix_of(a.carry + data),
{
    if a.started {
        let buf = a.carry + data;
        cut_is_whole(buf, 0, a.aligned);
        assert(buf.skip(cut(buf, 0, a.aligned).1).is_suffix_of(buf));
    }
}

/// What an aligner is in before its first frame.
pub open spec fn fresh(format: StreamFormat) -> Alignment {
    Alignment { format, started: false, aligned: false, carry: Seq::empty() }
}

/// What an aligner is in after frames, and what it gives out for each.
pub open spec fn fed_all(a: Alignment, frames: Seq<Seq<u8>>) -> (Alignment, Seq<Seq<u8>>)
    decreases frames.len(),
{
    if frames.len() == 0 {
        (a, Seq::empty())
    } else {
        let (before, given) = fed_all(a, frames.drop_last());
        let (after, out) = fed(before, frames.last());
        (after, given.push(out))
    }
}

/// Whatever is fed of a TS, fewer than three packets are held back, fewer than one
/// where a packet starts next, and whole packets come out.
pub proof fn ts_is_never_held_back(frames: Seq<Seq<u8>>)
    ensures
        ({
            let (a, given) = fed_all(fresh(StreamFormat::Ts), frames);
            &&& a.format == StreamFormat::Ts
            &&& a.holds_little()
            &&& given.len() == frames.len()
            &&& forall|i: int| 0 <= i < given.len() ==> whole_packets(#[trigger] given[i])
        }),
    decreases frames.len(),
{
    if frames.len() > 0 {
        ts_is_never_held_back(frames.drop_last());
        let before = fed_all(fresh(StreamFormat::Ts), frames.drop_last()).0;
        ts_comes_out_in_packets(before, frames.last());
    }
}

/// Whether three packets in a row of a TLV stream are in a frame.
pub open spec fn has_start(frame: Seq<u8>) -> bool {
    first_start(StreamFormat::Tlv, frame, 0) is Some
}

/// Whether a frame after the first has three packets in a row.
pub open spec fn tlv_found(frames: Seq<Seq<u8>>) -> bool {
    exists|i: int| 1 <= i < frames.len() && #[trigger] has_start(frames[i])
}

/// What comes out for a frame of a TLV stream: nothing for the first, then nothing
/// until three packets in a row are found, the frame from there on, and every later
/// frame as it is.
pub open spec fn tlv_given(frames: Seq<Seq<u8>>, i: int) -> Seq<u8> {
    if tlv_found(frames.take(i)) {
        frames[i]
    } else if i > 0 && has_start(frames[i]) {
        frames[i].skip(first_start(StreamFormat::Tlv, frames[i], 0).unwrap())
    } else {
        Seq::empty()
    }
}

/// A TLV stream comes out as it is from the first of three packets in a row on,
/// over all that is fed of it.
pub proof fn tlv_comes_out_from_a_packet_on(frames: Seq<Seq<u8>>)
    ensures
        ({
            let (a, given) = fed_all(fresh(StreamFormat::Tlv), frames);
            &&& a == (Alignment {
                started: frames.len() > 0,
                aligned: tlv_found(frames),
                ..fresh(StreamFormat::Tlv)
            })
            &&& given.len() == frames.len()
            &&& forall|i: int|
                0 <= i < given.len() ==> #[trigger] given[i] == tlv_given(frames, i)
        }),
    decreases frames.len(),
{
    if frames.len() > 0 {
        let past = frames.drop_last();
        let last = frames.len() - 1;
        tlv_comes_out_from_a_packet_on(past);
        let (before, given) = fed_all(fresh(StreamFormat::Tlv), past);
        let all = fed_all(fresh(StreamFormat::Tlv), frames).1;
        assert(frames.take(last) =~= past);
        assert forall|i: int| 0 <= i < all.len() implies #[trigger] all[i] == tlv_given(
            frames,
            i,
        ) by {
            if i < last {
                assert(frames.take(i) =~= past.take(i));
                assert(given[i] == tlv_given(past, i));
            }
        }
        assert(tlv_found(frames) == (tlv_found(past) || last >= 1 && has_start(frames[last]))) by {
            if tlv_found(past) {
                let i = choose|i: int| 1 <= i < past.len() && #[trigger] has_start(past[i]);
                assert(has_start(frames[i]));
            }
            if tlv_found(frames) {
                let i = choose|i: int| 1 <= i < frames.len() && #[trigger] has_start(frames[i]);
                if i < last {
                    assert(has_start(past[i]));
                }
            }
        }
    }
}

proof fn nothing_is_cut_out(buf: Seq<u8>, at: int)
    requires
        0 <= at <= buf.len(),
        forall|i: int| at <= i < buf.len() && (i - at) % 188 == 0 ==> #[trigger] buf[i] == 0x47,
    ensures
        ({
            let (out, end, on) = cut(buf, at, true);
            on && out + buf.skip(end) == buf.skip(at)
        }),
    decreases buf.len() - at,
{
    if buf.len() - at >= 188 {
        assert((at - at) % 188 == 0);
        assert(buf[at] == 0x47);
        assert forall|i: int|
            at + 188 <= i < buf.len() && (i - (at + 188)) % 188 == 0 implies #[trigger] buf[i]
            == 0x47 by {
            assert((i - at) % 188 == 0);
        }
        nothing_is_cut_out(buf, at + 188);
        cut_is_whole(buf, at + 188, true);
        let (rest, end, on) = cut(buf, at + 188, true);
        assert((buf.subrange(at, at + 188) + rest) + buf.skip(end) =~= buf.subrange(at, at + 188)
            + (rest + buf.skip(end)));
        assert(buf.subrange(at, at + 188) + buf.skip(at + 188) =~= buf.skip(at));
    } else {
        assert(Seq::<u8>::empty() + buf.skip(at) =~= buf.skip(at));
    }
}

/// Of a TS that stays in step nothing is lost: what an aligned aligner gives out
/// and what it still holds are what it held and what it was given.
pub proof fn ts_in_step_comes_out_whole(a: Alignment, data: Seq<u8>)
    requires
        a.format == StreamFormat::Ts,
        a.started,
        a.aligned,
        forall|i: int|
            0 <= i < (a.carry + data).len() && i % 188 == 0 ==> #[trigger] (a.carry + data)[i]
                == 0x47,
    ensures
        fed(a, data).0.aligned,
        fed(a, data).1 + fed(a, data).0.carry == a.carry + data,
{
    let buf = a.carry + data;
    assert forall|i: int| 0 <= i < buf.len() && (i - 0) % 188 == 0 implies #[trigger] buf[i]
        == 0x47 by {
        assert(i % 188 == 0);
    }
    nothing_is_cut_out(buf, 0);
    assert(buf.skip(0) =~= buf);
}

/// A TLV stream comes out as it is from the first of three packets in a row on.
pub proof fn tlv_starts_at_a_packet(a: Alignment, data: Seq<u8>)
    requires
        a.format == StreamFormat::Tlv,
        a.started,
    ensures
        a.aligned ==> fed(a, data) == (a, data),
        !a.aligned ==> match first_start(StreamFormat::Tlv, data, 0) {
            Some(start) => fed(a, data).1 == data.skip(start) && fed(a, data).0.aligned && in_a_row(
                StreamFormat::Tlv,
                data,
                start,
                3,
            ),
            None => fed(a, data).1.len() == 0 && !fed(a, data).0.aligned,
        },
{
    found_in_a_row(StreamFormat::Tlv, data, 0);
}

proof fn found_in_a_row(format: StreamFormat, data: Seq<u8>, from: int)
    ensures
        first_start(format, data, from) matches Some(start) ==> from <= start < data.len()
            && in_a_row(format, data, start, 3),
    decreases data.len() - from,
{
    if from < data.len() && !in_a_row(format, data, from, 3) {
        found_in_a_row(format, data, from + 1);
    }
}

/// A TLV packet: its sync byte, its type, the length of its payload, the higher byte
/// first, and the payload.
pub open spec fn tlv(kind: u8, payload: Seq<u8>) -> Seq<u8> {
    seq![0x7fu8, kind, (payload.len() / 256) as u8, (payload.len() % 256) as u8] + payload
}

proof fn tlv_is_measured(before: Seq<u8>, kind: u8, payload: Seq<u8>, after: Seq<u8>)
    requires
        payload.len() <= 65_535,
    ensures
        packet_len(
            StreamFormat::Tlv,
            before + tlv(kind, payload) + after,
            before.len() as int,
        ) == Some(tlv(kind, payload).len() as int),
{
    let all = before + tlv(kind, payload) + after;
    let at = before.len() as int;
    assert(all[at] == tlv(kind, payload)[0]);
    assert(all[at + 2] == tlv(kind, payload)[2]);
    assert(all[at + 3] == tlv(kind, payload)[3]);
}

/// Three TLV packets back to back are found: a start is found at the first of them, or
/// before it, and at it if nothing stands before it.
pub proof fn tlv_packets_are_found(
    before: Seq<u8>,
    a: (u8, Seq<u8>),
    b: (u8, Seq<u8>),
    c: (u8, Seq<u8>),
    after: Seq<u8>,
)
    requires
        a.1.len() <= 65_535,
        b.1.len() <= 65_535,
        c.1.len() <= 65_535,
    ensures
        ({
            let data = before + tlv(a.0, a.1) + tlv(b.0, b.1) + tlv(c.0, c.1) + after;
            &&& first_start(StreamFormat::Tlv, data, 0) matches Some(start) && 0 <= start
                <= before.len()
            &&& before.len() == 0 ==> first_start(StreamFormat::Tlv, data, 0) == Some(0int)
        }),
{
    let (x, y, z) = (tlv(a.0, a.1), tlv(b.0, b.1), tlv(c.0, c.1));
    let data = before + x + y + z + after;
    assert(data =~= before + x + (y + z + after));
    assert(data =~= (before + x) + y + (z + after));
    assert(data =~= (before + x + y) + z + after);
    tlv_is_measured(before, a.0, a.1, y + z + after);
    tlv_is_measured(before + x, b.0, b.1, z + after);
    tlv_is_measured(before + x + y, c.0, c.1, after);
    reveal_with_fuel(in_a_row, 4);
    assert(in_a_row(StreamFormat::Tlv, data, before.len() as int, 3));
    start_is_no_later(StreamFormat::Tlv, data, 0, before.len() as int);
}

proof fn start_is_no_later(format: StreamFormat, data: Seq<u8>, from: int, at: int)
    requires
        0 <= from <= at < data.len(),
        in_a_row(format, data, at, 3),
    ensures
        first_start(format, data, from) matches Some(start) && from <= start <= at,
    decreases at - from,
{
    if !in_a_row(format, data, from, 3) {
        start_is_no_later(format, data, from + 1, at);
    }
}

/// A frame that starts with three TLV packets back to back comes out whole.
pub proof fn tlv_comes_out_whole(
    alignment: Alignment,
    a: (u8, Seq<u8>),
    b: (u8, Seq<u8>),
    c: (u8, Seq<u8>),
    after: Seq<u8>,
)
    requires
        alignment.format == StreamFormat::Tlv,
        alignment.started,
        a.1.len() <= 65_535,
        b.1.len() <= 65_535,
        c.1.len() <= 65_535,
    ensures
        ({
            let data = tlv(a.0, a.1) + tlv(b.0, b.1) + tlv(c.0, c.1) + after;
            fed(alignment, data) == (Alignment { aligned: true, ..alignment }, data)
        }),
{
    let data = tlv(a.0, a.1) + tlv(b.0, b.1) + tlv(c.0, c.1) + after;
    tlv_packets_are_found(Seq::empty(), a, b, c, after);
    assert(Seq::<u8>::empty() + tlv(a.0, a.1) + tlv(b.0, b.1) + tlv(c.0, c.1) + after =~= data);
    assert(data.skip(0) =~= data);
}

/// Whether a byte of a stream is the head of a TLV packet.
pub open spec fn heads_tlv(data: Seq<u8>, at: int) -> bool {
    0 <= at && at + 4 <= data.len() && data[at] == 0x7f
}

/// Where the packet headed by a byte of a TLV stream ends, from the length in its head.
pub open spec fn end_of_tlv(data: Seq<u8>, at: int) -> int {
    at + 4 + 0x100 * data[at + 2] + data[at + 3]
}

/// Whether three heads follow each other from a byte of a stream on: 188 bytes apart in a
/// TS, and each where the packet before it ends in a TLV stream.
pub open spec fn heads_three(format: StreamFormat, data: Seq<u8>, at: int) -> bool {
    match format {
        StreamFormat::Ts => {
            &&& 0 <= at && at + 376 < data.len()
            &&& data[at] == 0x47 && data[at + 188] == 0x47 && data[at + 376] == 0x47
        },
        StreamFormat::Tlv => {
            &&& heads_tlv(data, at)
            &&& heads_tlv(data, end_of_tlv(data, at))
            &&& heads_tlv(data, end_of_tlv(data, end_of_tlv(data, at)))
        },
    }
}

/// A start is found at the first byte from which on three heads follow each other, and
/// none where there is no such byte.
pub proof fn starts_are_the_first_heads(format: StreamFormat, data: Seq<u8>, from: int)
    requires
        0 <= from,
    ensures
        match first_start(format, data, from) {
            Some(start) => {
                &&& from <= start < data.len()
                &&& heads_three(format, data, start)
                &&& forall|at: int| from <= at < start ==> !#[trigger] heads_three(format, data, at)
            },
            None => forall|at: int| from <= at ==> !#[trigger] heads_three(format, data, at),
        },
    decreases data.len() - from,
{
    reveal_with_fuel(in_a_row, 4);
    if from < data.len() {
        assert(in_a_row(format, data, from, 3) == heads_three(format, data, from));
        if !in_a_row(format, data, from, 3) {
            starts_are_the_first_heads(format, data, from + 1);
        }
    }
}

/// A TS that starts anywhere comes out from its first packet on: whatever stands before
/// it, as long as it does not look like packets too, is left out, and of the rest nothing
/// is lost or changed.
pub proof fn ts_comes_out_from_a_packet_on(a: Alignment, data: Seq<u8>, start: int)
    requires
        a.format == StreamFormat::Ts,
        a.started,
        !a.aligned,
        0 <= start,
        start + 564 <= (a.carry + data).len(),
        forall|i: int| 0 <= i < start ==> !#[trigger] heads_three(
            StreamFormat::Ts,
            a.carry + data,
            i,
        ),
        forall|i: int|
            start <= i < (a.carry + data).len() && (i - start) % 188 == 0 ==> #[trigger] (a.carry
                + data)[i] == 0x47,
    ensures
        fed(a, data).0.aligned,
        fed(a, data).1 + fed(a, data).0.carry == (a.carry + data).skip(start),
        fed(a, data).0.carry.len() < 188,
{
    let buf = a.carry + data;
    starts_are_the_first_heads(StreamFormat::Ts, buf, 0);
    assert((start - start) % 188 == 0 && (start + 188 - start) % 188 == 0 && (start + 376 - start)
        % 188 == 0);
    assert(buf[start] == 0x47 && buf[start + 188] == 0x47 && buf[start + 376] == 0x47);
    assert(heads_three(StreamFormat::Ts, buf, start));
    assert forall|i: int|
        start + 188 <= i < buf.len() && (i - (start + 188)) % 188 == 0 implies #[trigger] buf[i]
        == 0x47 by {
        assert((i - start) % 188 == 0);
    }
    nothing_is_cut_out(buf, start + 188);
    cut_is_whole(buf, start + 188, true);
    let (rest, end, on) = cut(buf, start + 188, true);
    assert((buf.subrange(start, start + 188) + rest) + buf.skip(end) =~= buf.subrange(
        start,
        start + 188,
    ) + (rest + buf.skip(end)));
    assert(buf.subrange(start, start + 188) + buf.skip(start + 188) =~= buf.skip(start));
}

/// Whether bytes are packets that stand at some places of a stream, byte for byte, and
/// none overlaps another.
pub open spec fn stand_at(buf: Seq<u8>, places: Seq<int>, out: Seq<u8>, from: int, to: int) -> bool {
    &&& out.len() == 188 * places.len()
    &&& forall|i: int| 0 <= i < places.len() ==> from <= #[trigger] places[i] && places[i] + 188 <= to
    &&& forall|i: int, k: int|
        0 <= i < places.len() && 0 <= k < 188 ==> #[trigger] out[188 * i + k] == buf[places[i] + k]
    &&& forall|i: int, j: int|
        0 <= i < j < places.len() ==> #[trigger] places[i] + 188 <= #[trigger] places[j]
}

proof fn one_more_stands(buf: Seq<u8>, at: int, places: Seq<int>, out: Seq<u8>, to: int, from: int)
    requires
        0 <= from <= at,
        at + 188 <= to <= buf.len(),
        stand_at(buf, places, out, at + 188, to),
    ensures
        stand_at(buf, seq![at] + places, buf.subrange(at, at + 188) + out, from, to),
{
    let all = seq![at] + places;
    let given = buf.subrange(at, at + 188) + out;
    assert forall|i: int, k: int|
        0 <= i < all.len() && 0 <= k < 188 implies #[trigger] given[188 * i + k] == buf[all[i]
        + k] by {
        if i > 0 {
            assert(given[188 * i + k] == out[188 * (i - 1) + k]);
        }
    }
    assert forall|i: int| 0 < i < all.len() implies #[trigger] all[i] == places[i - 1] by {}
}

proof fn cut_stands(buf: Seq<u8>, at: int, aligned: bool) -> (places: Seq<int>)
    requires
        0 <= at <= buf.len(),
    ensures
        stand_at(buf, places, cut(buf, at, aligned).0, at, cut(buf, at, aligned).1),
    decreases buf.len() - at,
{
    cut_is_whole(buf, at, aligned);
    if buf.len() - at < 188 {
        Seq::empty()
    } else if aligned && buf[at] == 0x47 {
        cut_is_whole(buf, at + 188, true);
        let after = cut_stands(buf, at + 188, true);
        let (rest, end, on) = cut(buf, at + 188, true);
        one_more_stands(buf, at, after, rest, end, at);
        seq![at] + after
    } else if buf.len() - at < 564 {
        Seq::empty()
    } else {
        first_is_a_start(buf, at);
        match first_start(StreamFormat::Ts, buf, at) {
            Some(start) => {
                cut_is_whole(buf, start + 188, true);
                let after = cut_stands(buf, start + 188, true);
                let (rest, end, on) = cut(buf, start + 188, true);
                one_more_stands(buf, start, after, rest, end, at);
                seq![start] + after
            },
            None => Seq::empty(),
        }
    }
}

/// Of a TS an aligner gives out nothing but what it was given: each packet stands, byte
/// for byte, at a place of what it held and was given, the places in the order of the
/// packets and apart from each other and from what is still held.
pub proof fn ts_comes_out_unchanged(a: Alignment, data: Seq<u8>) -> (places: Seq<int>)
    requires
        a.format == StreamFormat::Ts,
        a.started,
    ensures
        stand_at(
            a.carry + data,
            places,
            fed(a, data).1,
            0,
            (a.carry + data).len() - fed(a, data).0.carry.len(),
        ),
{
    cut_is_whole(a.carry + data, 0, a.aligned);
    cut_stands(a.carry + data, 0, a.aligned)
}

} // verus!
