//! The parts of Kernel Streaming in use, as the Windows SDK headers `ks.h`,
//! `ksmedia.h`, `bdatypes.h` and `bdamedia.h` define them: the bytes of the
//! requests a filter or a pin takes as I/O controls and of what it answers.

use vstd::prelude::*;

use crate::error::{error, Error};

verus! {

pub const IOCTL_KS_PROPERTY: u32 = 0x002f_0003;

pub const IOCTL_KS_METHOD: u32 = 0x002f_000f;

pub const IOCTL_KS_READ_STREAM: u32 = 0x002f_4017;

pub const GET: u32 = 0x1;

pub const SET: u32 = 0x2;

pub const TOPOLOGY: u32 = 0x1000_0000;

pub const KSPROPSETID_PIN: u128 = 0x8c13_4960_51ad_11cf_878a_94f8_01c1_0000;

pub const KSPROPERTY_PIN_DATAFLOW: u32 = 2;

pub const KSPROPERTY_PIN_DATARANGES: u32 = 3;

pub const KSPROPERTY_PIN_MEDIUMS: u32 = 6;

pub const KSPROPERTY_PIN_CTYPES: u32 = 1;

pub const KSPIN_DATAFLOW_IN: u32 = 1;

pub const KSPIN_DATAFLOW_OUT: u32 = 2;

pub const KSPROPSETID_CONNECTION: u128 = 0x1d58_c920_ac9b_11cf_a5d6_28db_04c1_0000;

pub const KSPROPERTY_CONNECTION_STATE: u32 = 0;

pub const KSPROPERTY_CONNECTION_ALLOCATORFRAMING_EX: u32 = 6;

pub const KSPROPSETID_STREAM: u128 = 0x65aa_ba60_98ae_11cf_a10d_0020_afd1_56e4;

pub const KSPROPERTY_STREAM_ALLOCATOR: u32 = 0;

pub const KSPROPERTY_STREAM_PIPE_ID: u32 = 10;

pub const KSPROPSETID_BDA_TOPOLOGY: u128 = 0xa14e_e835_0a23_11d3_9cc7_00c0_4f79_71e0;

pub const KSPROPERTY_BDA_NODE_DESCRIPTORS: u32 = 7;

pub const KSMETHODSETID_BDA_DEVICE_CONFIGURATION: u128 = 0x7198_5f45_1ca1_11d3_9cc8_00c0_4f79_71e0;

pub const KSMETHOD_BDA_CREATE_TOPOLOGY: u32 = 2;

pub const KSMETHODSETID_BDA_CHANGE_SYNC: u128 = 0xfd0a_5af3_b41d_11d2_9c95_00c0_4f79_71e0;

pub const KSMETHOD_BDA_START_CHANGES: u32 = 0;

pub const KSMETHOD_BDA_CHECK_CHANGES: u32 = 1;

pub const KSMETHOD_BDA_COMMIT_CHANGES: u32 = 2;

pub const KSPROPSETID_BDA_FREQUENCY_FILTER: u128 = 0x7198_5f47_1ca1_11d3_9cc8_00c0_4f79_71e0;

pub const KSPROPERTY_BDA_RF_TUNER_FREQUENCY: u32 = 0;

pub const KSPROPERTY_BDA_RF_TUNER_POLARITY: u32 = 1;

pub const KSPROPERTY_BDA_RF_TUNER_BANDWIDTH: u32 = 4;

pub const KSPROPERTY_BDA_RF_TUNER_FREQUENCY_MULTIPLIER: u32 = 5;

pub const KSPROPSETID_BDA_LNB_INFO: u128 = 0x992c_f102_49f9_4719_a664_c4f2_3e24_08f4;

pub const KSPROPERTY_BDA_LNB_LOF_LOW_BAND: u32 = 0;

pub const KSPROPERTY_BDA_LNB_LOF_HIGH_BAND: u32 = 1;

pub const KSPROPERTY_BDA_LNB_SWITCH_FREQUENCY: u32 = 2;

pub const KSPROPSETID_BDA_DIGITAL_DEMODULATOR: u128 = 0xef30_f379_985b_4d10_b640_a79d_5e04_e1e0;

pub const KSPROPERTY_BDA_MODULATION_TYPE: u32 = 0;

pub const KSPROPERTY_BDA_INNER_FEC_RATE: u32 = 2;

pub const KSPROPERTY_BDA_SYMBOL_RATE: u32 = 5;

pub const KSPROPERTY_BDA_SPECTRAL_INVERSION: u32 = 6;

pub const KSPROPSETID_BDA_SIGNAL_STATS: u128 = 0x1347_d106_cf3a_428a_a5cb_ac0d_9a2a_4338;

pub const KSPROPERTY_BDA_SIGNAL_STRENGTH: u32 = 0;

pub const KSPROPERTY_BDA_SIGNAL_LOCKED: u32 = 3;

pub const KSNODE_BDA_RF_TUNER: u128 = 0x7198_5f4c_1ca1_11d3_9cc8_00c0_4f79_71e0;

pub const KSNODE_BDA_QPSK_DEMODULATOR: u128 = 0x6390_c905_27c1_4d67_bdb7_77c5_0d07_9300;

pub const KSNODE_BDA_8PSK_DEMODULATOR: u128 = 0xe957_a0e7_dd98_4a3c_810b_3525_157a_b62a;

pub const KSNODE_BDA_ISDB_S_DEMODULATOR: u128 = 0xedde_230a_9086_432d_b8a5_6670_2638_07e9;

pub const KSNODE_BDA_COFDM_DEMODULATOR: u128 = 0x2dac_6e05_edbe_4b9c_b387_1b6f_ad7d_6495;

pub const KSNODE_BDA_ISDB_T_DEMODULATOR: u128 = 0xfcea_3ae3_2cb2_464d_8f5d_305c_3bb7_78a2;

pub const KSCATEGORY_BDA_NETWORK_TUNER: u128 = 0x7198_5f48_1ca1_11d3_9cc8_00c0_4f79_71e0;

pub const KSCATEGORY_BDA_RECEIVER_COMPONENT: u128 = 0xfd0a_5af4_b41d_11d2_9c95_00c0_4f79_71e0;

pub const KSINTERFACESETID_STANDARD: u128 = 0x1a87_66a0_62ce_11cf_a5d6_28db_04c1_0000;

pub const KSMEDIUMSETID_STANDARD: u128 = 0x4747_b320_62ce_11cf_a5d6_28db_04c1_0000;

/// The room an answer is given whose size is not told.
pub const ROOM: usize = 65_536;

/// The priority of a pin's connection.
pub const KSPRIORITY_NORMAL: u32 = 0x4000_0000;

/// The memory frames between two pins are in: system memory from the non-paged
/// pool, one frame of a page; the pins size the frames themselves.
pub const FRAMING: [u32; 6] = [2, 0, 1, 4096, 0, 0];

/// The state of a pin.
#[derive(Clone, Copy, Debug, PartialEq, Eq, Structural)]
pub enum State {
    Stop,
    Acquire,
    Pause,
    Run,
}

impl State {
    /// The number a state goes by.
    pub open spec fn number(self) -> u32 {
        match self {
            State::Stop => 0,
            State::Acquire => 1,
            State::Pause => 2,
            State::Run => 3,
        }
    }

    /// The number a state goes by.
    pub fn code(self) -> (r: u32)
        ensures
            r == self.number(),
    {
        match self {
            State::Stop => 0,
            State::Acquire => 1,
            State::Pause => 2,
            State::Run => 3,
        }
    }
}

/// The bytes of a number of 32 bits, the least significant first.
pub open spec fn le32(n: u32) -> Seq<u8> {
    seq![
        (n % 0x100) as u8,
        (n / 0x100 % 0x100) as u8,
        (n / 0x1_0000 % 0x100) as u8,
        (n / 0x100_0000) as u8,
    ]
}

/// The bytes of a number of 64 bits, the least significant first.
pub open spec fn le64(n: u64) -> Seq<u8> {
    le32((n % 0x1_0000_0000) as u32) + le32((n / 0x1_0000_0000) as u32)
}

/// The number four bytes make, the least significant first.
pub open spec fn number32(b: Seq<u8>) -> int {
    b[0] + b[1] * 0x100 + b[2] * 0x1_0000 + b[3] * 0x100_0000
}

/// The bytes of a GUID: its first three parts each with the least significant byte
/// first, the fourth as it is written.
pub open spec fn guid_layout(value: u128) -> Seq<u8> {
    seq![
        (value / 0x1_0000_0000_0000_0000_0000_0000 % 0x100) as u8,
        (value / 0x100_0000_0000_0000_0000_0000_0000 % 0x100) as u8,
        (value / 0x1_0000_0000_0000_0000_0000_0000_0000 % 0x100) as u8,
        (value / 0x100_0000_0000_0000_0000_0000_0000_0000) as u8,
        (value / 0x1_0000_0000_0000_0000_0000 % 0x100) as u8,
        (value / 0x100_0000_0000_0000_0000_0000 % 0x100) as u8,
        (value / 0x1_0000_0000_0000_0000 % 0x100) as u8,
        (value / 0x100_0000_0000_0000_0000 % 0x100) as u8,
        (value / 0x100_0000_0000_0000 % 0x100) as u8,
        (value / 0x1_0000_0000_0000 % 0x100) as u8,
        (value / 0x100_0000_0000 % 0x100) as u8,
        (value / 0x1_0000_0000 % 0x100) as u8,
        (value / 0x100_0000 % 0x100) as u8,
        (value / 0x1_0000 % 0x100) as u8,
        (value / 0x100 % 0x100) as u8,
        (value % 0x100) as u8,
    ]
}

/// The GUID of bytes laid out as [`guid_layout`] does.
pub open spec fn guid_value(b: Seq<u8>) -> int {
    b[3] * 0x100_0000_0000_0000_0000_0000_0000_0000 + b[2]
        * 0x1_0000_0000_0000_0000_0000_0000_0000 + b[1] * 0x100_0000_0000_0000_0000_0000_0000 + b[0]
        * 0x1_0000_0000_0000_0000_0000_0000 + b[5] * 0x100_0000_0000_0000_0000_0000 + b[4]
        * 0x1_0000_0000_0000_0000_0000 + b[7] * 0x100_0000_0000_0000_0000 + b[6]
        * 0x1_0000_0000_0000_0000 + b[8] * 0x100_0000_0000_0000 + b[9] * 0x1_0000_0000_0000 + b[10]
        * 0x100_0000_0000 + b[11] * 0x1_0000_0000 + b[12] * 0x100_0000 + b[13] * 0x1_0000 + b[14]
        * 0x100 + b[15]
}

fn push_u32(b: &mut Vec<u8>, n: u32)
    ensures
        final(b)@ == old(b)@ + le32(n),
{
    b.push((n % 0x100) as u8);
    b.push((n / 0x100 % 0x100) as u8);
    b.push((n / 0x1_0000 % 0x100) as u8);
    b.push((n / 0x100_0000) as u8);
    assert(b@ =~= old(b)@ + le32(n));
}

fn push_u64(b: &mut Vec<u8>, n: u64)
    ensures
        final(b)@ == old(b)@ + le64(n),
{
    push_u32(b, (n % 0x1_0000_0000) as u32);
    push_u32(b, (n / 0x1_0000_0000) as u32);
    assert(b@ =~= old(b)@ + le64(n));
}

/// The bytes of a GUID.
pub fn guid_bytes(value: u128) -> (r: Vec<u8>)
    ensures
        r@ == guid_layout(value),
{
    let mut b: Vec<u8> = Vec::new();
    b.push((value / 0x1_0000_0000_0000_0000_0000_0000 % 0x100) as u8);
    b.push((value / 0x100_0000_0000_0000_0000_0000_0000 % 0x100) as u8);
    b.push((value / 0x1_0000_0000_0000_0000_0000_0000_0000 % 0x100) as u8);
    b.push((value / 0x100_0000_0000_0000_0000_0000_0000_0000) as u8);
    b.push((value / 0x1_0000_0000_0000_0000_0000 % 0x100) as u8);
    b.push((value / 0x100_0000_0000_0000_0000_0000 % 0x100) as u8);
    b.push((value / 0x1_0000_0000_0000_0000 % 0x100) as u8);
    b.push((value / 0x100_0000_0000_0000_0000 % 0x100) as u8);
    b.push((value / 0x100_0000_0000_0000 % 0x100) as u8);
    b.push((value / 0x1_0000_0000_0000 % 0x100) as u8);
    b.push((value / 0x100_0000_0000 % 0x100) as u8);
    b.push((value / 0x1_0000_0000 % 0x100) as u8);
    b.push((value / 0x100_0000 % 0x100) as u8);
    b.push((value / 0x1_0000 % 0x100) as u8);
    b.push((value / 0x100 % 0x100) as u8);
    b.push((value % 0x100) as u8);
    assert(b@ =~= guid_layout(value));
    b
}

/// The GUID at the start of bytes.
pub fn read_guid(b: &[u8]) -> (r: u128)
    requires
        b@.len() >= 16,
    ensures
        r == guid_value(b@),
{
    b[3] as u128 * 0x100_0000_0000_0000_0000_0000_0000_0000 + b[2] as u128
        * 0x1_0000_0000_0000_0000_0000_0000_0000 + b[1] as u128
        * 0x100_0000_0000_0000_0000_0000_0000 + b[0] as u128 * 0x1_0000_0000_0000_0000_0000_0000
        + b[5] as u128 * 0x100_0000_0000_0000_0000_0000 + b[4] as u128
        * 0x1_0000_0000_0000_0000_0000 + b[7] as u128 * 0x100_0000_0000_0000_0000 + b[6] as u128
        * 0x1_0000_0000_0000_0000 + b[8] as u128 * 0x100_0000_0000_0000 + b[9] as u128
        * 0x1_0000_0000_0000 + b[10] as u128 * 0x100_0000_0000 + b[11] as u128 * 0x1_0000_0000
        + b[12] as u128 * 0x100_0000 + b[13] as u128 * 0x1_0000 + b[14] as u128 * 0x100
        + b[15] as u128
}

/// The number of 32 bits at a place.
pub fn read_u32(b: &[u8], at: usize) -> (r: u32)
    requires
        at + 4 <= b@.len(),
    ensures
        r == number32(b@.skip(at as int)),
{
    b[at] as u32 + b[at + 1] as u32 * 0x100 + b[at + 2] as u32 * 0x1_0000 + b[at + 3] as u32
        * 0x100_0000
}

/// The numbers a request carries, each of 32 bits, and a reserved one after them.
pub open spec fn carried(extra: Seq<u32>) -> Seq<u8>
    decreases extra.len(),
{
    if extra.len() == 0 {
        Seq::empty()
    } else {
        carried(extra.drop_last()) + le32(extra.last())
    }
}

/// The bytes of a request.
pub open spec fn request_bytes(set: u128, id: u32, flags: u32, extra: Seq<u32>) -> Seq<u8> {
    guid_layout(set) + le32(id) + le32(flags) + carried(extra) + if extra.len() > 0 {
        le32(0)
    } else {
        Seq::empty()
    }
}

/// A `KSPROPERTY` or `KSMETHOD`, followed by what the request carries: a pin
/// id for `KSP_PIN`, a node id for `KSP_NODE`, and so on.
pub fn request(set: u128, id: u32, flags: u32, extra: &[u32]) -> (r: Vec<u8>)
    ensures
        r@ == request_bytes(set, id, flags, extra@),
{
    let mut b: Vec<u8> = guid_bytes(set);
    push_u32(&mut b, id);
    push_u32(&mut b, flags);
    let ghost head = b@;
    let n: usize = extra.len();
    let mut i: usize = 0;
    assert(head + carried(extra@.take(0)) =~= head);
    while i < n
        invariant
            i <= n,
            n == extra@.len(),
            b@ == head + carried(extra@.take(i as int)),
        decreases n - i,
    {
        push_u32(&mut b, extra[i]);
        proof {
            assert(extra@.take(i + 1).drop_last() =~= extra@.take(i as int));
            assert(extra@.take(i + 1).last() == extra@[i as int]);
            assert(b@ =~= head + carried(extra@.take(i + 1)));
        }
        i = i + 1;
    }
    assert(extra@.take(i as int) =~= extra@);
    // KSP_PIN and KSP_NODE end with a reserved ULONG.
    if n > 0 {
        push_u32(&mut b, 0);
    }
    assert(b@ =~= request_bytes(set, id, flags, extra@));
    b
}

/// A request of a node of the filter, sent through the pin controlling it.
pub fn node_request(set: u128, id: u32, flags: u32, node: u32) -> (r: Vec<u8>)
    ensures
        r@ == request_bytes(set, id, flags | TOPOLOGY, seq![node]),
{
    let extra: [u32; 1] = [node];
    assert(extra@ =~= seq![node]);
    request(set, id, flags | TOPOLOGY, extra.as_slice())
}

proof fn digit_down(value: int, c: int)
    requires
        0 <= value,
        0 < c,
    ensures
        value / c == 0x100 * (value / (c * 0x100)) + value / c % 0x100,
        0 <= value / c % 0x100 < 0x100,
{
    vstd::arithmetic::div_mod::lemma_div_denominator(value, c, 0x100);
}

/// A GUID reads back from its bytes, whatever follows them.
#[verifier::spinoff_prover]
pub proof fn guids_read_back(value: u128, rest: Seq<u8>)
    ensures
        guid_layout(value).len() == 16,
        guid_value(guid_layout(value) + rest) == value,
{
    let b = guid_layout(value) + rest;
    let v = value as int;
    digit_down(v, 1);
    digit_down(v, 0x100);
    digit_down(v, 0x1_0000);
    digit_down(v, 0x100_0000);
    digit_down(v, 0x1_0000_0000);
    digit_down(v, 0x100_0000_0000);
    digit_down(v, 0x1_0000_0000_0000);
    digit_down(v, 0x100_0000_0000_0000);
    digit_down(v, 0x1_0000_0000_0000_0000);
    digit_down(v, 0x100_0000_0000_0000_0000);
    digit_down(v, 0x1_0000_0000_0000_0000_0000);
    digit_down(v, 0x100_0000_0000_0000_0000_0000);
    digit_down(v, 0x1_0000_0000_0000_0000_0000_0000);
    digit_down(v, 0x100_0000_0000_0000_0000_0000_0000);
    digit_down(v, 0x1_0000_0000_0000_0000_0000_0000_0000);
    assert(b[15] == guid_layout(value)[15]);
    let m0 = b[15] as int;
    assert(m0 == v % 0x100);
    assert(b[14] == guid_layout(value)[14]);
    let m1 = b[14] as int;
    assert(m1 == v / 0x100 % 0x100);
    assert(b[13] == guid_layout(value)[13]);
    let m2 = b[13] as int;
    assert(m2 == v / 0x1_0000 % 0x100);
    assert(b[12] == guid_layout(value)[12]);
    let m3 = b[12] as int;
    assert(m3 == v / 0x100_0000 % 0x100);
    assert(b[11] == guid_layout(value)[11]);
    let m4 = b[11] as int;
    assert(m4 == v / 0x1_0000_0000 % 0x100);
    assert(b[10] == guid_layout(value)[10]);
    let m5 = b[10] as int;
    assert(m5 == v / 0x100_0000_0000 % 0x100);
    assert(b[9] == guid_layout(value)[9]);
    let m6 = b[9] as int;
    assert(m6 == v / 0x1_0000_0000_0000 % 0x100);
    assert(b[8] == guid_layout(value)[8]);
    let m7 = b[8] as int;
    assert(m7 == v / 0x100_0000_0000_0000 % 0x100);
    assert(b[6] == guid_layout(value)[6]);
    let m8 = b[6] as int;
    assert(m8 == v / 0x1_0000_0000_0000_0000 % 0x100);
    assert(b[7] == guid_layout(value)[7]);
    let m9 = b[7] as int;
    assert(m9 == v / 0x100_0000_0000_0000_0000 % 0x100);
    assert(b[4] == guid_layout(value)[4]);
    let m10 = b[4] as int;
    assert(m10 == v / 0x1_0000_0000_0000_0000_0000 % 0x100);
    assert(b[5] == guid_layout(value)[5]);
    let m11 = b[5] as int;
    assert(m11 == v / 0x100_0000_0000_0000_0000_0000 % 0x100);
    assert(b[0] == guid_layout(value)[0]);
    let m12 = b[0] as int;
    assert(m12 == v / 0x1_0000_0000_0000_0000_0000_0000 % 0x100);
    assert(b[1] == guid_layout(value)[1]);
    let m13 = b[1] as int;
    assert(m13 == v / 0x100_0000_0000_0000_0000_0000_0000 % 0x100);
    assert(b[2] == guid_layout(value)[2]);
    let m14 = b[2] as int;
    assert(m14 == v / 0x1_0000_0000_0000_0000_0000_0000_0000 % 0x100);
    assert(b[3] == guid_layout(value)[3]);
    let m15 = b[3] as int;
    assert(m15 == v / 0x100_0000_0000_0000_0000_0000_0000_0000);
    assert(v / 1 == v);
}

/// A number whose lowest digit of base 0x100 is known.
proof fn digit_off(value: int, c: int, digit: int, above: int)
    requires
        0 <= value,
        0 < c,
        value / c == digit + 0x100 * above,
        0 <= digit < 0x100,
    ensures
        value / c % 0x100 == digit,
        value / (c * 0x100) == above,
{
    vstd::arithmetic::div_mod::lemma_div_denominator(value, c, 0x100);
}

/// The bytes of the GUID of 16 bytes are those bytes.
#[verifier::spinoff_prover]
pub proof fn guids_write_back(b: Seq<u8>)
    requires
        b.len() == 16,
    ensures
        0 <= guid_value(b) <= u128::MAX,
        guid_layout(guid_value(b) as u128) == b,
{
    let v = guid_value(b);
    let w15 = b[3] as int;
    let w14 = b[2] + 0x100 * w15;
    let w13 = b[1] + 0x100 * w14;
    let w12 = b[0] + 0x100 * w13;
    let w11 = b[5] + 0x100 * w12;
    let w10 = b[4] + 0x100 * w11;
    let w9 = b[7] + 0x100 * w10;
    let w8 = b[6] + 0x100 * w9;
    let w7 = b[8] + 0x100 * w8;
    let w6 = b[9] + 0x100 * w7;
    let w5 = b[10] + 0x100 * w6;
    let w4 = b[11] + 0x100 * w5;
    let w3 = b[12] + 0x100 * w4;
    let w2 = b[13] + 0x100 * w3;
    let w1 = b[14] + 0x100 * w2;
    let w0 = b[15] + 0x100 * w1;
    assert(v == w0);
    assert(v / 1 == v);
    digit_off(v, 1, b[15] as int, w1);
    digit_off(v, 0x100, b[14] as int, w2);
    digit_off(v, 0x1_0000, b[13] as int, w3);
    digit_off(v, 0x100_0000, b[12] as int, w4);
    digit_off(v, 0x1_0000_0000, b[11] as int, w5);
    digit_off(v, 0x100_0000_0000, b[10] as int, w6);
    digit_off(v, 0x1_0000_0000_0000, b[9] as int, w7);
    digit_off(v, 0x100_0000_0000_0000, b[8] as int, w8);
    digit_off(v, 0x1_0000_0000_0000_0000, b[6] as int, w9);
    digit_off(v, 0x100_0000_0000_0000_0000, b[7] as int, w10);
    digit_off(v, 0x1_0000_0000_0000_0000_0000, b[4] as int, w11);
    digit_off(v, 0x100_0000_0000_0000_0000_0000, b[5] as int, w12);
    digit_off(v, 0x1_0000_0000_0000_0000_0000_0000, b[0] as int, w13);
    digit_off(v, 0x100_0000_0000_0000_0000_0000_0000, b[1] as int, w14);
    digit_off(v, 0x1_0000_0000_0000_0000_0000_0000_0000, b[2] as int, w15);
    assert(guid_layout(v as u128) =~= b);
}

/// A number reads back from its bytes, wherever they are.
pub proof fn numbers_read_back(n: u32, head: Seq<u8>, rest: Seq<u8>)
    ensures
        le32(n).len() == 4,
        number32((head + le32(n) + rest).skip(head.len() as int)) == n,
{
    let b = (head + le32(n) + rest).skip(head.len() as int);
    assert(b[0] == le32(n)[0] && b[1] == le32(n)[1] && b[2] == le32(n)[2] && b[3] == le32(n)[3]);
}

/// A medium of a pin, which says what it connects to.
#[derive(Clone, Copy, Debug, PartialEq, Eq, Structural)]
pub struct Medium {
    pub set: u128,
    pub id: u32,
}

impl Medium {
    /// The medium of a pin that connects to no other filter.
    pub open spec fn plain() -> Medium {
        Medium { set: KSMEDIUMSETID_STANDARD, id: 0 }
    }

    /// The medium of a pin that connects to no other filter.
    pub fn standard() -> (r: Medium)
        ensures
            r == Medium::plain(),
    {
        Medium { set: KSMEDIUMSETID_STANDARD, id: 0 }
    }
}

/// The request for the state of a pin.
pub fn state_request() -> (r: Vec<u8>)
    ensures
        r@ == request_bytes(
            KSPROPSETID_CONNECTION,
            KSPROPERTY_CONNECTION_STATE,
            SET,
            Seq::empty(),
        ),
{
    let none: [u32; 0] = [];
    assert(none@ =~= Seq::empty());
    request(KSPROPSETID_CONNECTION, KSPROPERTY_CONNECTION_STATE, SET, none.as_slice())
}

/// The request for the framing of a pin.
pub fn framing_request() -> (r: Vec<u8>)
    ensures
        r@ == request_bytes(
            KSPROPSETID_CONNECTION,
            KSPROPERTY_CONNECTION_ALLOCATORFRAMING_EX,
            GET,
            Seq::empty(),
        ),
{
    let none: [u32; 0] = [];
    assert(none@ =~= Seq::empty());
    request(
        KSPROPSETID_CONNECTION,
        KSPROPERTY_CONNECTION_ALLOCATORFRAMING_EX,
        GET,
        none.as_slice(),
    )
}

/// The request that hands a stream property of a pin a handle.
pub fn stream_request(id: u32) -> (r: Vec<u8>)
    ensures
        r@ == request_bytes(KSPROPSETID_STREAM, id, SET, Seq::empty()),
{
    let none: [u32; 0] = [];
    assert(none@ =~= Seq::empty());
    request(KSPROPSETID_STREAM, id, SET, none.as_slice())
}

/// The request for a property of a filter: how many pin factories it has, or the
/// functions of its nodes.
pub fn filter_request(set: u128, id: u32) -> (r: Vec<u8>)
    ensures
        r@ == request_bytes(set, id, GET, Seq::empty()),
{
    let none: [u32; 0] = [];
    assert(none@ =~= Seq::empty());
    request(set, id, GET, none.as_slice())
}

/// The request for a property of a pin factory.
pub fn pin_request(id: u32, pin: u32) -> (r: Vec<u8>)
    ensures
        r@ == request_bytes(KSPROPSETID_PIN, id, GET, seq![pin]),
{
    let extra: [u32; 1] = [pin];
    assert(extra@ =~= seq![pin]);
    request(KSPROPSETID_PIN, id, GET, extra.as_slice())
}

/// The size of the room for an answer, told by asking for it without any: what it
/// says it is, or plenty if it says nothing.
pub fn answer_size(told: usize) -> (r: usize)
    ensures
        r == if told == 0 {
            ROOM
        } else {
            told
        },
{
    if told == 0 {
        ROOM
    } else {
        told
    }
}

/// The size of the frames a pin gives out, if its framing tells: a 24-byte header,
/// then the first item, whose range starts 68 bytes in with the minimum frame size.
pub open spec fn frame_told(framing: Seq<u8>) -> Option<int> {
    if framing.len() < 96 {
        None
    } else if number32(framing) > 0 && number32(framing.skip(92)) > 0 {
        Some(number32(framing.skip(92)))
    } else {
        None
    }
}

/// The size of the frames a pin gives out, if its framing tells.
pub fn frame_size(framing: &[u8]) -> (r: Option<u32>)
    ensures
        match frame_told(framing@) {
            Some(n) => r matches Some(size) && size == n,
            None => r is None,
        },
{
    if framing.len() < 96 {
        return None;
    }
    assert(framing@.skip(0) =~= framing@);
    let items: u32 = read_u32(framing, 0);
    let least: u32 = read_u32(framing, 92);
    if items > 0 && least > 0 {
        Some(least)
    } else {
        None
    }
}

/// The number of items an answer of several has.
pub open spec fn item_count(b: Seq<u8>) -> int {
    number32(b.skip(4))
}

/// Whether an answer holds the mediums it says it does.
pub open spec fn mediums_there(b: Seq<u8>) -> bool {
    b.len() >= 8 && 8 + item_count(b) * 24 <= b.len()
}

/// Whether an answer holds the mediums it says it does.
pub fn holds_mediums(b: &[u8]) -> (r: bool)
    ensures
        r == mediums_there(b@),
{
    let n: usize = b.len();
    n >= 8 && read_u32(b, 4) as u64 <= (n as u64 - 8) / 24
}

/// Medium `i` of an answer.
pub open spec fn medium_at(b: Seq<u8>, i: int) -> Medium {
    Medium {
        set: guid_value(b.skip(8 + i * 24)) as u128,
        id: number32(b.skip(8 + i * 24 + 16)) as u32,
    }
}

/// The mediums of a pin factory, from the answer to its request.
pub fn mediums(b: &[u8]) -> (r: Vec<Medium>)
    requires
        mediums_there(b@),
    ensures
        r@ == Seq::new(item_count(b@) as nat, |i: int| medium_at(b@, i)),
{
    let total: usize = b.len();
    let count: usize = read_u32(b, 4) as usize;
    let mut out: Vec<Medium> = Vec::new();
    let mut i: usize = 0;
    while i < count
        invariant
            i <= count,
            count == item_count(b@),
            mediums_there(b@),
            total == b@.len(),
            out@ =~= Seq::new(i as nat, |k: int| medium_at(b@, k)),
        decreases count - i,
    {
        let at: usize = 8 + i * 24;
        let m: &[u8] = vstd::slice::slice_subrange(b, at, total);
        proof {
            assert(m@ =~= b@.skip(8 + i * 24));
            assert(m@.skip(16) =~= b@.skip(8 + i * 24 + 16));
        }
        out.push(Medium { set: read_guid(m), id: read_u32(m, 16) });
        i = i + 1;
    }
    out
}

/// Whether an answer has a first data range with a head.
pub open spec fn range_there(b: Seq<u8>) -> bool {
    b.len() >= 12 && (8 + number32(b.skip(8)) <= b.len() ==> number32(b.skip(8)) >= 8)
}

/// Whether an answer has a first data range with a head.
pub fn holds_range(b: &[u8]) -> (r: bool)
    ensures
        r == range_there(b@),
{
    let n: usize = b.len();
    if n < 12 {
        return false;
    }
    let size: u64 = read_u32(b, 8) as u64;
    size > n as u64 - 8 || size >= 8
}

/// The first data range of a pin factory, a `KSDATARANGE` followed by what the
/// format adds, which serves as its data format: it has flags where a range does,
/// and none are asked for.
pub fn first_data_range(b: &[u8]) -> (r: Result<Vec<u8>, Error>)
    requires
        range_there(b@),
    ensures
        ({
            let size = number32(b@.skip(8));
            if 8 + size > b@.len() {
                r == Err::<Vec<u8>, Error>(error("short data range"))
            } else {
                let range = b@.subrange(8, 8 + size);
                r matches Ok(format) && format@ == range.take(4) + le32(0) + range.skip(8)
            }
        }),
{
    let n: usize = b.len();
    let size: usize = read_u32(b, 8) as usize;
    if size > n - 8 {
        return Err(error("short data range"));
    }
    let ghost range = b@.subrange(8, 8 + size);
    let mut format: Vec<u8> = Vec::new();
    format.extend_from_slice(vstd::slice::slice_subrange(b, 8, 12));
    push_u32(&mut format, 0);
    format.extend_from_slice(vstd::slice::slice_subrange(b, 16, 8 + size));
    assert(format@ =~= range.take(4) + le32(0) + range.skip(8));
    Ok(format)
}

/// The bytes that create a pin: the interface and the medium, the pin factory, the
/// handle of the pin to connect to and the priority, then the data format. The
/// handle is aligned to its size, which leaves a gap before one of 64 bits.
pub open spec fn connect_bytes(
    pin: u32,
    medium: Medium,
    to: u64,
    long_handles: bool,
    format: Seq<u8>,
) -> Seq<u8> {
    guid_layout(KSINTERFACESETID_STANDARD) + le64(0) + guid_layout(medium.set) + le32(medium.id)
        + le32(0) + le32(pin) + (if long_handles {
        le32(0) + le64(to)
    } else {
        le32(to as u32)
    }) + le32(KSPRIORITY_NORMAL) + le32(1) + format
}

/// The bytes that create a pin of a filter, connected to the pin of the handle `to`,
/// or to none if it is 0.
pub fn pin_connect(pin: u32, medium: Medium, to: u64, long_handles: bool, format: &[u8]) -> (r: Vec<
    u8,
>)
    ensures
        r@ == connect_bytes(pin, medium, to, long_handles, format@),
{
    let mut b: Vec<u8> = guid_bytes(KSINTERFACESETID_STANDARD);
    push_u64(&mut b, 0);
    let mut set: Vec<u8> = guid_bytes(medium.set);
    b.append(&mut set);
    push_u32(&mut b, medium.id);
    push_u32(&mut b, 0);
    push_u32(&mut b, pin);
    let ghost head = b@;
    if long_handles {
        push_u32(&mut b, 0);
        push_u64(&mut b, to);
        assert(b@ =~= head + (le32(0) + le64(to)));
    } else {
        push_u32(&mut b, to as u32);
    }
    push_u32(&mut b, KSPRIORITY_NORMAL);
    push_u32(&mut b, 1);
    b.extend_from_slice(format);
    b
}

/// The request that joins up the nodes of a BDA filter between the input and the
/// output pin factories.
pub fn topology_request(input: u32, output: u32) -> (r: Vec<u8>)
    ensures
        r@ == request_bytes(
            KSMETHODSETID_BDA_DEVICE_CONFIGURATION,
            KSMETHOD_BDA_CREATE_TOPOLOGY,
            0,
            Seq::empty(),
        ) + le32(input) + le32(output),
{
    let none: [u32; 0] = [];
    assert(none@ =~= Seq::empty());
    let mut b: Vec<u8> = request(
        KSMETHODSETID_BDA_DEVICE_CONFIGURATION,
        KSMETHOD_BDA_CREATE_TOPOLOGY,
        0,
        none.as_slice(),
    );
    push_u32(&mut b, input);
    push_u32(&mut b, output);
    b
}

/// The request that starts, checks or commits changes of a filter.
pub fn change_request(method: u32) -> (r: Vec<u8>)
    ensures
        r@ == request_bytes(KSMETHODSETID_BDA_CHANGE_SYNC, method, 0, Seq::empty()),
{
    let none: [u32; 0] = [];
    assert(none@ =~= Seq::empty());
    request(KSMETHODSETID_BDA_CHANGE_SYNC, method, 0, none.as_slice())
}

/// Node `i` of an answer: its type and its function.
pub open spec fn node_at(b: Seq<u8>, i: int) -> (u32, u128) {
    (number32(b.skip(i * 36)) as u32, guid_value(b.skip(i * 36 + 4)) as u128)
}

/// The function of each node type of a BDA filter, by node type, from the answer to
/// its request: descriptors of 36 bytes, the node type, then the function and the
/// name.
pub fn node_functions(b: &[u8]) -> (r: Vec<(u32, u128)>)
    ensures
        r@ == Seq::new((b@.len() / 36) as nat, |i: int| node_at(b@, i)),
{
    let total: usize = b.len();
    let n: usize = total / 36;
    let mut out: Vec<(u32, u128)> = Vec::new();
    let mut i: usize = 0;
    while i < n
        invariant
            i <= n,
            n == total / 36,
            total == b@.len(),
            out@ =~= Seq::new(i as nat, |k: int| node_at(b@, k)),
        decreases n - i,
    {
        let at: usize = i * 36;
        let d: &[u8] = vstd::slice::slice_subrange(b, at + 4, total);
        proof {
            assert(d@ =~= b@.skip(i * 36 + 4));
        }
        out.push((read_u32(b, at), read_guid(d)));
        i = i + 1;
    }
    out
}

/// A device interface of a category, with the device it belongs to.
#[derive(Clone, Debug)]
pub struct Interface {
    /// The path to open the filter by.
    pub path: String,
    /// The `FriendlyName` of the interface.
    pub name: String,
    /// The instance id of the device.
    pub instance_id: String,
    /// The friendly name or else the description of the device.
    pub device_name: String,
}

/// `ERROR_INSUFFICIENT_BUFFER` and `ERROR_MORE_DATA`.
pub const ERROR_INSUFFICIENT_BUFFER: i32 = 122;

pub const ERROR_MORE_DATA: i32 = 234;

/// Whether an error for want of room is no reason not to ask again with some.
pub fn wants_room(os_error: i32) -> (r: bool)
    ensures
        r == (os_error == ERROR_MORE_DATA || os_error == ERROR_INSUFFICIENT_BUFFER),
{
    os_error == ERROR_MORE_DATA || os_error == ERROR_INSUFFICIENT_BUFFER
}

/// The length of a NUL-terminated wide string in a buffer, all of it if there is no
/// NUL.
pub fn wide_length(buf: &[u16]) -> (r: usize)
    ensures
        r <= buf@.len(),
        forall|i: int| 0 <= i < r ==> buf@[i] != 0,
        r < buf@.len() ==> buf@[r as int] == 0,
{
    let n: usize = buf.len();
    let mut i: usize = 0;
    while i < n
        invariant
            i <= n,
            n == buf@.len(),
            forall|k: int| 0 <= k < i ==> buf@[k] != 0,
        decreases n - i,
    {
        if buf[i] == 0 {
            return i;
        }
        i = i + 1;
    }
    n
}

impl Interface {
    /// An interface, the device going by its friendly name, or else by its
    /// description.
    pub fn new(
        path: String,
        name: String,
        instance_id: String,
        friendly: String,
        description: String,
    ) -> (r: Self)
        ensures
            r.path == path,
            r.name == name,
            r.instance_id == instance_id,
            r.device_name == if friendly@.len() > 0 {
                friendly
            } else {
                description
            },
    {
        let device_name: String = if friendly.as_str().is_empty() {
            description
        } else {
            friendly
        };
        Interface { path, name, instance_id, device_name }
    }
}

/// A GUID is laid out in its parts: the first of 32 bits and two of 16 with the least
/// significant byte first, and the last of 64 bits as it is written.
pub proof fn guids_stand_in_parts(value: u128)
    ensures
        ({
            let b = guid_layout(value);
            &&& b.len() == 16
            &&& value == (b[0] + b[1] * 0x100 + b[2] * 0x1_0000 + b[3] * 0x100_0000)
                * 0x1_0000_0000_0000_0000_0000_0000 + (b[4] + b[5] * 0x100)
                * 0x1_0000_0000_0000_0000_0000 + (b[6] + b[7] * 0x100) * 0x1_0000_0000_0000_0000 + (
            b[8] * 0x100_0000 + b[9] * 0x1_0000 + b[10] * 0x100 + b[11]) * 0x1_0000_0000 + b[12]
                * 0x100_0000 + b[13] * 0x1_0000 + b[14] * 0x100 + b[15]
        }),
{
    let b = guid_layout(value);
    guids_read_back(value, Seq::empty());
    assert(b + Seq::<u8>::empty() =~= b);
}

/// A number stands with its least significant byte first.
pub proof fn numbers_stand_least_first(n: u32, m: u64)
    ensures
        ({
            let b = le32(n);
            b.len() == 4 && b[0] + b[1] * 0x100 + b[2] * 0x1_0000 + b[3] * 0x100_0000 == n
        }),
        ({
            let b = le64(m);
            &&& b.len() == 8
            &&& b[0] + b[1] * 0x100 + b[2] * 0x1_0000 + b[3] * 0x100_0000 + (b[4] + b[5] * 0x100
                + b[6] * 0x1_0000 + b[7] * 0x100_0000) * 0x1_0000_0000 == m
        }),
{
    four_bytes(n);
    four_bytes((m % 0x1_0000_0000) as u32);
    four_bytes((m / 0x1_0000_0000) as u32);
}

proof fn four_bytes(n: u32)
    ensures
        ({
            let b = le32(n);
            b[0] + b[1] * 0x100 + b[2] * 0x1_0000 + b[3] * 0x100_0000 == n
        }),
{
}

proof fn carried_at(extra: Seq<u32>, i: int)
    requires
        0 <= i < extra.len(),
    ensures
        carried(extra).len() == 4 * extra.len(),
        carried(extra).subrange(4 * i, 4 * i + 4) == le32(extra[i]),
    decreases extra.len(),
{
    let before = carried(extra.drop_last());
    if extra.len() > 1 {
        carried_at(extra.drop_last(), if i < extra.len() - 1 { i } else { 0 });
    }
    assert(carried(extra) == before + le32(extra.last()));
    if i < extra.len() - 1 {
        assert(carried(extra).subrange(4 * i, 4 * i + 4) =~= before.subrange(4 * i, 4 * i + 4));
    } else {
        assert(carried(extra).subrange(4 * i, 4 * i + 4) =~= le32(extra.last()));
    }
}

/// A request tells the set, the property, the flags and what it carries, one after the
/// other, and ends with a zero if it carries anything.
pub proof fn requests_tell_in_order(set: u128, id: u32, flags: u32, extra: Seq<u32>, i: int)
    requires
        0 <= i < extra.len() || extra.len() == 0,
    ensures
        ({
            let b = request_bytes(set, id, flags, extra);
            let n = extra.len() as int;
            &&& b.len() == if n > 0 {
                28 + 4 * n
            } else {
                24
            }
            &&& b.subrange(0, 16) == guid_layout(set)
            &&& b.subrange(16, 20) == le32(id)
            &&& b.subrange(20, 24) == le32(flags)
            &&& n > 0 ==> b.subrange(24 + 4 * i, 28 + 4 * i) == le32(extra[i])
            &&& n > 0 ==> b.subrange(24 + 4 * n, 28 + 4 * n) == le32(0)
        }),
{
    let b = request_bytes(set, id, flags, extra);
    let n = extra.len() as int;
    if n > 0 {
        carried_at(extra, i);
        assert(b.subrange(24 + 4 * i, 28 + 4 * i) =~= carried(extra).subrange(4 * i, 4 * i + 4));
        assert(b.subrange(24 + 4 * n, 28 + 4 * n) =~= le32(0));
    } else {
        assert(carried(extra).len() == 0);
    }
    assert(b.subrange(0, 16) =~= guid_layout(set));
    assert(b.subrange(16, 20) =~= le32(id));
    assert(b.subrange(20, 24) =~= le32(flags));
}

/// What creates a pin tells the medium, the pin factory and the pin to connect to where
/// the system looks for them, a handle of 64 bits at a multiple of its size, and ends with
/// the data format.
pub proof fn connections_tell_in_order(
    pin: u32,
    medium: Medium,
    to: u64,
    long_handles: bool,
    format: Seq<u8>,
)
    ensures
        ({
            let b = connect_bytes(pin, medium, to, long_handles, format);
            let end: int = if long_handles {
                72
            } else {
                64
            };
            &&& b.subrange(24, 40) == guid_layout(medium.set)
            &&& b.subrange(40, 44) == le32(medium.id)
            &&& b.subrange(48, 52) == le32(pin)
            &&& long_handles ==> b.subrange(56, 64) == le64(to)
            &&& !long_handles && to <= u32::MAX ==> b.subrange(52, 56) == le32(to as u32)
            &&& b.skip(end) == format
        }),
{
    let b = connect_bytes(pin, medium, to, long_handles, format);
    assert(b.subrange(24, 40) =~= guid_layout(medium.set));
    assert(b.subrange(40, 44) =~= le32(medium.id));
    assert(b.subrange(48, 52) =~= le32(pin));
    if long_handles {
        assert(b.subrange(56, 64) =~= le64(to));
        assert(b.skip(72) =~= format);
    } else {
        assert(b.subrange(52, 56) =~= le32(to as u32));
        assert(b.skip(64) =~= format);
    }
}

/// A medium is read from where it stands: behind a head of 8 bytes, 24 bytes each, of
/// which the first 16 are its set and the next four its id.
pub proof fn mediums_read_back(head: Seq<u8>, medium: Medium, flags: Seq<u8>, rest: Seq<u8>, i: int)
    requires
        0 <= i,
        head.len() == 8 + 24 * i,
        flags.len() == 4,
    ensures
        medium_at(head + (guid_layout(medium.set) + le32(medium.id) + flags) + rest, i) == medium,
{
    let b = head + (guid_layout(medium.set) + le32(medium.id) + flags) + rest;
    let tail = le32(medium.id) + flags + rest;
    guids_read_back(medium.set, tail);
    assert(b.skip(8 + i * 24) =~= guid_layout(medium.set) + tail);
    numbers_read_back(medium.id, head + guid_layout(medium.set), flags + rest);
    assert(b.skip(8 + i * 24 + 16) =~= ((head + guid_layout(medium.set)) + le32(medium.id) + (flags
        + rest)).skip((head + guid_layout(medium.set)).len() as int));
}

/// A node is read from where it stands: 36 bytes each, of which the first four are its
/// type and the next 16 its function.
pub proof fn nodes_read_back(head: Seq<u8>, kind: u32, function: u128, rest: Seq<u8>, i: int)
    requires
        0 <= i,
        head.len() == 36 * i,
    ensures
        node_at(head + (le32(kind) + guid_layout(function)) + rest, i) == (kind, function),
{
    let b = head + (le32(kind) + guid_layout(function)) + rest;
    guids_read_back(function, rest);
    assert(b.skip(i * 36 + 4) =~= guid_layout(function) + rest);
    numbers_read_back(kind, head, guid_layout(function) + rest);
    assert(b.skip(i * 36) =~= (head + le32(kind) + (guid_layout(function) + rest)).skip(
        head.len() as int,
    ));
}

/// The frame size is told by the framing: the number 92 bytes in, if the framing has an
/// item and it is not zero.
pub proof fn framings_tell_the_frame(framing: Seq<u8>)
    ensures
        ({
            let items = framing[0] + framing[1] * 0x100 + framing[2] * 0x1_0000 + framing[3]
                * 0x100_0000;
            let least = framing[92] + framing[93] * 0x100 + framing[94] * 0x1_0000 + framing[95]
                * 0x100_0000;
            frame_told(framing) == if framing.len() >= 96 && items > 0 && least > 0 {
                Some(least)
            } else {
                None
            }
        }),
{
    if framing.len() >= 96 {
        let b = framing.skip(92);
        assert(b[0] == framing[92] && b[1] == framing[93] && b[2] == framing[94] && b[3]
            == framing[95]);
    }
}

} // verus!
