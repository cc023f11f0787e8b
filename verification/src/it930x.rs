//! ITE IT930x, the USB bridge carrying the TS of every tuner and reaching
//! their chips over I2C.

use vstd::prelude::*;

use crate::error::{error, Error};
use crate::traits;
use crate::traits::{I2c, Ran};
use crate::usb::{BulkIn, UsbTransport};

verus! {

pub const CMD_REG_READ: u16 = 0x00;

pub const CMD_REG_WRITE: u16 = 0x01;

pub const CMD_QUERYINFO: u16 = 0x22;

pub const CMD_BOOT: u16 = 0x23;

pub const CMD_FW_SCATTER_WRITE: u16 = 0x29;

pub const CMD_I2C_READ: u16 = 0x2a;

pub const CMD_I2C_WRITE: u16 = 0x2b;

pub const EP_CTRL_OUT: u8 = 0x02;

pub const EP_CTRL_IN: u8 = 0x81;

pub const EP_STREAM: u8 = 0x84;

pub const CTRL_TIMEOUT_MS: u64 = 3_000;

pub const PSB_PURGE_TIMEOUT_MS: u64 = 2_000;

pub const I2C_SPEED: u8 = 0x07;

/// The size of the transfers the bridge sends the TS in, 816 packets.
pub const XFER_SIZE: usize = 153_408;

/// A TS input port, where a demodulator hands the bridge its stream.
#[derive(Clone, Copy, Debug, PartialEq, Eq, Structural)]
pub struct Input {
    pub port: u8,
    pub slave: u8,
    pub i2c_bus: u8,
    pub i2c_addr: u8,
    /// Replaces 0x47 in the packets of this input, telling it apart from the
    /// others in the multiplexed stream.
    pub sync_byte: u8,
}

pub struct It930x<T> {
    pub usb: T,
    /// The sequence number of the next control message.
    pub seq: u8,
    pub max_bulk_size: usize,
    /// The GPIOs that were made outputs, one bit each from GPIO 1 on.
    pub gpio_out: u16,
    /// The GPIOs that were enabled.
    pub gpio_on: u16,
}

/// What an [`It930x`] holds, over the state of its USB transport.
pub struct Bridge<S> {
    pub usb: S,
    pub seq: u8,
    pub max_bulk_size: usize,
    pub gpio_out: u16,
    pub gpio_on: u16,
}

impl<T: UsbTransport> View for It930x<T> {
    type V = Bridge<T::State>;

    open spec fn view(&self) -> Bridge<T::State> {
        Bridge {
            usb: self.usb.state(),
            seq: self.seq,
            max_bulk_size: self.max_bulk_size,
            gpio_out: self.gpio_out,
            gpio_on: self.gpio_on,
        }
    }
}

/// The upper byte of a word.
pub open spec fn hi(v: u16) -> u8 {
    (v / 256) as u8
}

/// The lower byte of a word.
pub open spec fn lo(v: u16) -> u8 {
    (v % 256) as u8
}

/// The bytes of a register address, the uppermost first.
pub open spec fn be32(v: u32) -> Seq<u8> {
    seq![(v / 0x100_0000) as u8].push((v / 0x1_0000 % 256) as u8).push(
        (v / 0x100 % 256) as u8,
    ).push((v % 256) as u8)
}

fn push_be32(buf: &mut Vec<u8>, v: u32)
    ensures
        final(buf)@ == old(buf)@ + be32(v),
{
    buf.push((v / 0x100_0000) as u8);
    buf.push((v / 0x1_0000 % 256) as u8);
    buf.push((v / 0x100 % 256) as u8);
    buf.push((v % 256) as u8);
    assert(buf@ =~= old(buf)@ + be32(v));
}

/// The sum of the big-endian 16-bit words from `i` on, a last byte on its own
/// counting as the upper one.
pub open spec fn word_sum(buf: Seq<u8>, i: int) -> int
    decreases buf.len() + 1 - i,
{
    if i < 0 || i >= buf.len() {
        0
    } else {
        buf[i] * 256 + (if i + 1 < buf.len() {
            buf[i + 1] as int
        } else {
            0
        }) + word_sum(buf, i + 2)
    }
}

/// The one's complement of the sum of big-endian 16-bit words.
pub open spec fn sum_check(buf: Seq<u8>) -> u16 {
    (0xffff - word_sum(buf, 0) % 0x1_0000) as u16
}

/// The one's complement of the sum of big-endian 16-bit words.
pub fn checksum(buf: &[u8]) -> (r: u16)
    ensures
        r == sum_check(buf@),
{
    let mut sum: u16 = 0;
    let mut i: usize = 0;
    let n: usize = buf.len();
    while i < n
        invariant
            n == buf@.len(),
            i <= n,
            (sum + word_sum(buf@, i as int)) % 0x1_0000 == word_sum(buf@, 0) % 0x1_0000,
        decreases n - i,
    {
        let upper: u16 = buf[i] as u16 * 256;
        let lower: u16 = if n - i > 1 { buf[i + 1] as u16 } else { 0 };
        let ghost before = sum;
        sum = sum.wrapping_add(upper + lower);
        assert((sum + word_sum(buf@, i + 2)) % 0x1_0000 == (before + word_sum(buf@, i as int))
            % 0x1_0000);
        if n - i == 1 {
            assert(word_sum(buf@, i + 2) == 0);
            return 0xffff - sum;
        }
        i = i + 2;
    }
    assert(word_sum(buf@, i as int) == 0);
    0xffff - sum
}

/// A control message.
pub open spec fn message(cmd: u16, seq: u8, payload: Seq<u8>) -> Seq<u8> {
    let body = seq![hi(cmd)].push(lo(cmd)).push(seq) + payload;
    let check = sum_check(body);
    (seq![(payload.len() + 5) as u8] + body).push(hi(check)).push(lo(check))
}

/// What the response to message `seq` says.
pub open spec fn response(buf: Seq<u8>, seq: u8) -> Result<Seq<u8>, Error> {
    let n = buf.len() as int;
    if n < 5 {
        Err(error("control response too short"))
    } else if sum_check(buf.subrange(1, n - 2)) != buf[n - 2] * 256 + buf[n - 1] {
        Err(error("control response checksum mismatch"))
    } else if buf[1] != seq {
        Err(error("control response out of sequence"))
    } else if buf[2] != 0 {
        Err(error("control command failed"))
    } else {
        Ok(buf.subrange(3, n - 2))
    }
}

/// Builds a control message.
fn frame(cmd: u16, seq: u8, payload: &[u8]) -> (r: Vec<u8>)
    requires
        payload@.len() <= 250,
    ensures
        r@ == message(cmd, seq, payload@),
{
    let mut body: Vec<u8> = Vec::new();
    body.push((cmd / 256) as u8);
    body.push((cmd % 256) as u8);
    body.push(seq);
    body.extend_from_slice(payload);
    let check: u16 = checksum(body.as_slice());
    let mut buf: Vec<u8> = Vec::new();
    buf.push((payload.len() + 5) as u8);
    assert(body@ =~= seq![hi(cmd)].push(lo(cmd)).push(seq) + payload@);
    buf.append(&mut body);
    buf.push((check / 256) as u8);
    buf.push((check % 256) as u8);
    buf
}

/// Checks the response to message `seq`.
pub fn parse_response(buf: &[u8], seq: u8) -> (r: Result<Vec<u8>, Error>)
    ensures
        traits::seen(r) == response(buf@, seq),
{
    let n: usize = buf.len();
    if n < 5 {
        return Err(error("control response too short"));
    }
    let check: u16 = checksum(vstd::slice::slice_subrange(buf, 1, n - 2));
    if check != buf[n - 2] as u16 * 256 + buf[n - 1] as u16 {
        return Err(error("control response checksum mismatch"));
    }
    if buf[1] != seq {
        return Err(error("control response out of sequence"));
    }
    if buf[2] != 0 {
        return Err(error("control command failed"));
    }
    let mut data: Vec<u8> = Vec::new();
    data.extend_from_slice(vstd::slice::slice_subrange(buf, 3, n - 2));
    assert(data@ =~= buf@.subrange(3, n - 2));
    Ok(data)
}

/// What a control message does and gives.
pub open spec fn control<T: UsbTransport>(
    b: Bridge<T::State>,
    cmd: u16,
    payload: Seq<u8>,
) -> Ran<Bridge<T::State>, Seq<u8>> {
    if payload.len() > 250 {
        (b, Err(error("control message too long")))
    } else {
        let (s1, r1) = T::on_out(
            b.usb,
            EP_CTRL_OUT,
            message(cmd, b.seq, payload),
            CTRL_TIMEOUT_MS,
        );
        let b1 = Bridge { usb: s1, seq: b.seq.wrapping_add(1), ..b };
        match r1 {
            Err(e) => (b1, Err(e)),
            Ok(_) => {
                let (s2, r2) = T::on_in(T::on_delay(s1, 1), EP_CTRL_IN, 256, CTRL_TIMEOUT_MS);
                match r2 {
                    Err(e) => (Bridge { usb: s2, ..b1 }, Err(e)),
                    Ok(bytes) => (
                        Bridge { usb: T::on_delay(s2, 1), ..b1 },
                        response(bytes, b.seq),
                    ),
                }
            },
        }
    }
}

/// How many bytes a register address takes.
pub open spec fn address_length(reg: u32) -> u8 {
    if reg >= 0x0100_0000 {
        4
    } else if reg >= 0x0001_0000 {
        3
    } else if reg >= 0x0000_0100 {
        2
    } else {
        1
    }
}

/// How many bytes a register address takes.
pub fn reg_length(reg: u32) -> (r: u8)
    ensures
        r == address_length(reg),
{
    if reg >= 0x0100_0000 {
        4
    } else if reg >= 0x0001_0000 {
        3
    } else if reg >= 0x0000_0100 {
        2
    } else {
        1
    }
}

/// What reading registers does and gives: at most as many bytes as were asked
/// for.
pub open spec fn regs_read<T: UsbTransport>(b: Bridge<T::State>, reg: u32, len: u8) -> Ran<
    Bridge<T::State>,
    Seq<u8>,
> {
    let (b1, r) = control::<T>(b, CMD_REG_READ, seq![len].push(address_length(reg)) + be32(reg));
    match r {
        Err(e) => (b1, Err(e)),
        Ok(data) => (
            b1,
            Ok(
                if data.len() > len {
                    data.subrange(0, len as int)
                } else {
                    data
                },
            ),
        ),
    }
}

/// What reading a register does and gives.
pub open spec fn reg_read<T: UsbTransport>(b: Bridge<T::State>, reg: u32) -> Ran<
    Bridge<T::State>,
    u8,
> {
    let (b1, r) = regs_read::<T>(b, reg, 1);
    match r {
        Err(e) => (b1, Err(e)),
        Ok(data) => if data.len() == 0 {
            (b1, Err(error("empty register read")))
        } else {
            (b1, Ok(data[0]))
        },
    }
}

/// A result without its value.
pub open spec fn unit<V>(r: Result<V, Error>) -> Result<(), Error> {
    match r {
        Ok(_) => Ok(()),
        Err(e) => Err(e),
    }
}

/// What writing registers does and gives.
pub open spec fn regs_written<T: UsbTransport>(
    b: Bridge<T::State>,
    reg: u32,
    data: Seq<u8>,
) -> Ran<Bridge<T::State>, ()> {
    let (b1, r) = control::<T>(
        b,
        CMD_REG_WRITE,
        seq![data.len() as u8].push(address_length(reg)) + be32(reg) + data,
    );
    (b1, unit(r))
}

/// What writing the bits `mask` of a register does and gives: the rest of it is
/// read first, unless there is none.
pub open spec fn masked<T: UsbTransport>(b: Bridge<T::State>, w: RegWrite) -> Ran<
    Bridge<T::State>,
    (),
> {
    if w.mask == 0xff {
        regs_written::<T>(b, w.reg, seq![w.value])
    } else {
        let (b1, r) = reg_read::<T>(b, w.reg);
        match r {
            Err(e) => (b1, Err(e)),
            Ok(v) => regs_written::<T>(
                b1,
                w.reg,
                seq![(v & !w.mask) | (w.value & w.mask)],
            ),
        }
    }
}

/// A write of some bits of a register, all of them where the mask is 0xff.
#[derive(Clone, Copy, Debug, PartialEq, Eq, Structural)]
pub struct RegWrite {
    pub reg: u32,
    pub value: u8,
    pub mask: u8,
}

/// A write of a whole register.
pub open spec fn whole(reg: u32, value: u8) -> RegWrite {
    RegWrite { reg, value, mask: 0xff }
}

/// A write of a whole register.
#[verifier::when_used_as_spec(whole)]
fn write_of(reg: u32, value: u8) -> (r: RegWrite)
    ensures
        r == whole(reg, value),
{
    RegWrite { reg, value, mask: 0xff }
}

/// What writes in a row do and give, up to the first that fails.
pub open spec fn written<T: UsbTransport>(b: Bridge<T::State>, ws: Seq<RegWrite>) -> Ran<
    Bridge<T::State>,
    (),
>
    decreases ws.len(),
{
    if ws.len() == 0 {
        (b, Ok(()))
    } else {
        let (b1, r) = masked::<T>(b, ws[0]);
        match r {
            Err(e) => (b1, Err(e)),
            Ok(_) => written::<T>(b1, ws.skip(1)),
        }
    }
}

impl<T: UsbTransport> It930x<T> {
    /// `usb_version` is `bcdUSB`, which gives the size of the bulk packets.
    pub fn new(usb: T, usb_version: u16) -> (r: Self)
        ensures
            r.usb == usb,
            r.seq == 0,
            r.max_bulk_size == if usb_version == 0x0110 {
                64usize
            } else {
                512usize
            },
            r.gpio_out == 0,
            r.gpio_on == 0,
    {
        It930x {
            usb,
            seq: 0,
            max_bulk_size: if usb_version == 0x0110 { 64 } else { 512 },
            gpio_out: 0,
            gpio_on: 0,
        }
    }

    pub fn usb(&self) -> (r: &T)
        ensures
            *r == self.usb,
    {
        &self.usb
    }

    fn ctrl(&mut self, cmd: u16, payload: &[u8]) -> (r: Result<Vec<u8>, Error>)
        ensures
            (final(self)@, traits::seen(r)) == control::<T>(old(self)@, cmd, payload@),
    {
        if payload.len() > 250 {
            return Err(error("control message too long"));
        }
        let seq: u8 = self.seq;
        self.seq = self.seq.wrapping_add(1);
        let buf: Vec<u8> = frame(cmd, seq, payload);
        match self.usb.bulk_out(EP_CTRL_OUT, buf, CTRL_TIMEOUT_MS) {
            Ok(_) => {},
            Err(e) => return Err(e),
        }
        self.usb.delay_ms(1);
        let buf: Vec<u8> = match self.usb.bulk_in(EP_CTRL_IN, 256, CTRL_TIMEOUT_MS) {
            Ok(buf) => buf,
            Err(e) => return Err(e),
        };
        self.usb.delay_ms(1);
        parse_response(buf.as_slice(), seq)
    }

    pub fn read_regs(&mut self, reg: u32, len: u8) -> (r: Result<Vec<u8>, Error>)
        ensures
            (final(self)@, traits::seen(r)) == regs_read::<T>(old(self)@, reg, len),
    {
        let mut payload: Vec<u8> = Vec::new();
        payload.push(len);
        payload.push(reg_length(reg));
        push_be32(&mut payload, reg);
        let mut data: Vec<u8> = match self.ctrl(CMD_REG_READ, payload.as_slice()) {
            Ok(data) => data,
            Err(e) => return Err(e),
        };
        if data.len() > len as usize {
            data.truncate(len as usize);
        }
        Ok(data)
    }

    pub fn read_reg(&mut self, reg: u32) -> (r: Result<u8, Error>)
        ensures
            (final(self)@, r) == reg_read::<T>(old(self)@, reg),
    {
        let data: Vec<u8> = match self.read_regs(reg, 1) {
            Ok(data) => data,
            Err(e) => return Err(e),
        };
        if data.len() == 0 {
            return Err(error("empty register read"));
        }
        Ok(data[0])
    }

    pub fn write_regs(&mut self, reg: u32, data: &[u8]) -> (r: Result<(), Error>)
        ensures
            (final(self)@, r) == regs_written::<T>(old(self)@, reg, data@),
    {
        let mut payload: Vec<u8> = Vec::new();
        payload.push(data.len() as u8);
        payload.push(reg_length(reg));
        push_be32(&mut payload, reg);
        payload.extend_from_slice(data);
        assert(payload@ =~= seq![data@.len() as u8].push(address_length(reg)) + be32(reg) + data@);
        match self.ctrl(CMD_REG_WRITE, payload.as_slice()) {
            Ok(_) => Ok(()),
            Err(e) => Err(e),
        }
    }

    pub fn write_reg(&mut self, reg: u32, value: u8) -> (r: Result<(), Error>)
        ensures
            (final(self)@, r) == regs_written::<T>(old(self)@, reg, seq![value]),
    {
        let data: [u8; 1] = [value];
        assert(data@ =~= seq![value]);
        self.write_regs(reg, &data)
    }

    pub fn write_reg_mask(&mut self, reg: u32, value: u8, mask: u8) -> (r: Result<(), Error>)
        ensures
            (final(self)@, r) == masked::<T>(old(self)@, RegWrite { reg, value, mask }),
    {
        if mask == 0xff {
            return self.write_reg(reg, value);
        }
        let v: u8 = match self.read_reg(reg) {
            Ok(v) => v,
            Err(e) => return Err(e),
        };
        self.write_reg(reg, (v & !mask) | (value & mask))
    }

    /// Makes writes in a row, stopping at the first error.
    fn write_all(&mut self, ws: &[RegWrite]) -> (r: Result<(), Error>)
        ensures
            (final(self)@, r) == written::<T>(old(self)@, ws@),
    {
        let ghost b0 = self@;
        let mut i: usize = 0;
        assert(ws@.skip(0) =~= ws@);
        while i < ws.len()
            invariant
                i <= ws@.len(),
                b0 == old(self)@,
                written::<T>(self@, ws@.skip(i as int)) == written::<T>(b0, ws@),
            decreases ws@.len() - i,
        {
            let ghost rest = ws@.skip(i as int);
            assert(rest[0] == ws@[i as int]);
            assert(rest.skip(1) =~= ws@.skip(i + 1));
            match self.write_reg_mask(ws[i].reg, ws[i].value, ws[i].mask) {
                Ok(_) => {},
                Err(e) => return Err(e),
            }
            i = i + 1;
        }
        Ok(())
    }
}

/// What asking for the version of the firmware does and gives.
pub open spec fn version_asked<T: UsbTransport>(b: Bridge<T::State>) -> Ran<
    Bridge<T::State>,
    u32,
> {
    let (b1, r) = control::<T>(b, CMD_QUERYINFO, seq![1u8]);
    match r {
        Err(e) => (b1, Err(e)),
        Ok(data) => if data.len() < 4 {
            (b1, Err(error("short firmware version")))
        } else {
            (b1, Ok(be32_value(data)))
        },
    }
}

/// The number in the first four bytes, the uppermost first.
pub open spec fn be32_value(data: Seq<u8>) -> u32 {
    (data[0] * 0x100_0000 + data[1] * 0x1_0000 + data[2] * 0x100 + data[3]) as u32
}

/// What waking the bridge up does and gives, with the tries left.
pub open spec fn raised<T: UsbTransport>(b: Bridge<T::State>, tries: nat) -> Ran<
    Bridge<T::State>,
    (),
>
    decreases tries,
{
    let (b1, r) = version_asked::<T>(b);
    match r {
        Ok(_) => (b1, Ok(())),
        Err(e) => if tries <= 1 {
            (b1, Err(e))
        } else {
            raised::<T>(b1, (tries - 1) as nat)
        },
    }
}

/// The bytes of data of the segments from `i` on: the last of the three bytes of
/// each is its length.
pub open spec fn segment_bytes(rest: Seq<u8>, segments: int, i: int) -> int
    decreases segments - i,
{
    if i < 0 || i >= segments {
        0
    } else {
        (if 6 + i * 3 < rest.len() {
            rest[6 + i * 3] as int
        } else {
            0
        }) + segment_bytes(rest, segments, i + 1)
    }
}

/// The length of the block the firmware starts with: 0x03, two bytes, the number
/// of segments, then three bytes per segment, the last of them its length, then
/// the data of the segments.
pub open spec fn block_length(rest: Seq<u8>) -> Result<int, Error> {
    if rest.len() < 4 || rest[0] != 0x03 {
        Err(error("invalid firmware block"))
    } else {
        let n = 4 + rest[3] * 3 + segment_bytes(rest, rest[3] as int, 0);
        if rest.len() < n {
            Err(error("truncated firmware block"))
        } else {
            Ok(n)
        }
    }
}

/// What sending the blocks of a firmware does and gives.
pub open spec fn blocks_sent<T: UsbTransport>(b: Bridge<T::State>, rest: Seq<u8>) -> Ran<
    Bridge<T::State>,
    (),
>
    decreases rest.len(),
{
    if rest.len() == 0 {
        (b, Ok(()))
    } else {
        match block_length(rest) {
            Err(e) => (b, Err(e)),
            Ok(n) => {
                let (b1, r) = control::<T>(b, CMD_FW_SCATTER_WRITE, rest.subrange(0, n));
                match r {
                    Err(e) => (b1, Err(e)),
                    Ok(_) => if 0 < n <= rest.len() {
                        blocks_sent::<T>(b1, rest.skip(n))
                    } else {
                        (b1, Ok(()))
                    },
                }
            },
        }
    }
}

/// What loading the firmware does and gives: nothing if one is running.
pub open spec fn loaded<T: UsbTransport>(b: Bridge<T::State>, firmware: Seq<u8>) -> Ran<
    Bridge<T::State>,
    (),
> {
    let (b1, r1) = version_asked::<T>(b);
    match r1 {
        Err(e) => (b1, Err(e)),
        Ok(version) => if version != 0 {
            (b1, Ok(()))
        } else {
            let (b2, r2) = regs_written::<T>(b1, 0xf103, seq![I2C_SPEED]);
            match r2 {
                Err(e) => (b2, Err(e)),
                Ok(_) => {
                    let (b3, r3) = blocks_sent::<T>(b2, firmware);
                    match r3 {
                        Err(e) => (b3, Err(e)),
                        Ok(_) => booted::<T>(b3),
                    }
                },
            }
        },
    }
}

/// What starting the firmware does and gives.
pub open spec fn booted<T: UsbTransport>(b: Bridge<T::State>) -> Ran<Bridge<T::State>, ()> {
    let (b1, r1) = control::<T>(b, CMD_BOOT, Seq::empty());
    match r1 {
        Err(e) => (b1, Err(e)),
        Ok(_) => {
            let (b2, r2) = version_asked::<T>(b1);
            match r2 {
                Err(e) => (b2, Err(e)),
                Ok(version) => if version == 0 {
                    (b2, Err(error("the firmware did not boot")))
                } else {
                    (b2, Ok(()))
                },
            }
        },
    }
}

/// The length of the block the firmware starts with.
fn find_block(rest: &[u8]) -> (r: Result<usize, Error>)
    ensures
        match block_length(rest@) {
            Ok(n) => r == Ok::<usize, Error>(n as usize) && 4 <= n <= rest@.len(),
            Err(e) => r == Err::<usize, Error>(e),
        },
{
    if rest.len() < 4 || rest[0] != 0x03 {
        return Err(error("invalid firmware block"));
    }
    let segments: usize = rest[3] as usize;
    let mut data: usize = 0;
    let mut i: usize = 0;
    while i < segments
        invariant
            i <= segments,
            segments <= 255,
            data <= 255 * i,
            rest@.len() >= 4,
            data + segment_bytes(rest@, segments as int, i as int) == segment_bytes(
                rest@,
                segments as int,
                0,
            ),
        decreases segments - i,
    {
        let at: usize = 6 + i * 3;
        if at < rest.len() {
            data = data + rest[at] as usize;
        }
        i = i + 1;
    }
    let n: usize = 4 + segments * 3 + data;
    if rest.len() < n {
        return Err(error("truncated firmware block"));
    }
    Ok(n)
}

/// The writes that set the bridge up before its stream output is.
pub open spec fn warm_start() -> Seq<RegWrite> {
    seq![whole(0x4976, 0)]
        .push(whole(0x4bfb, 0))
        .push(whole(0x4978, 0))
        .push(whole(0x4977, 0))
        .push(whole(0xda1a, 0))
        .push(RegWrite { reg: 0xf41f, value: 0x04, mask: 0x04 })
        .push(RegWrite { reg: 0xda10, value: 0x00, mask: 0x01 })
        .push(RegWrite { reg: 0xf41a, value: 0x01, mask: 0x01 })
}

fn start_warm() -> (r: Vec<RegWrite>)
    ensures
        r@ == warm_start(),
{
    let mut ws: Vec<RegWrite> = Vec::new();
    ws.push(write_of(0x4976, 0));
    ws.push(write_of(0x4bfb, 0));
    ws.push(write_of(0x4978, 0));
    ws.push(write_of(0x4977, 0));
    // Ignore sync byte: no.
    ws.push(write_of(0xda1a, 0));
    // DVB-T interrupt: enable.
    ws.push(RegWrite { reg: 0xf41f, value: 0x04, mask: 0x04 });
    // MPEG full speed.
    ws.push(RegWrite { reg: 0xda10, value: 0x00, mask: 0x01 });
    // DVB-T mode: enable.
    ws.push(RegWrite { reg: 0xf41a, value: 0x01, mask: 0x01 });
    assert(ws@ =~= warm_start());
    ws
}

/// A write of the reset of the stream output.
pub open spec fn output_reset(on: u8) -> RegWrite {
    RegWrite { reg: 0xda1d, value: on, mask: 0x01 }
}

/// What setting the stream output up does and gives: whatever comes of it, the
/// reset is lifted again. The first failure counts.
pub open spec fn output_set<T: UsbTransport>(b: Bridge<T::State>) -> Ran<Bridge<T::State>, ()> {
    let (b1, r1) = masked::<T>(b, output_reset(1));
    match r1 {
        Err(e) => (b1, Err(e)),
        Ok(_) => {
            let (b2, r2) = output_endpoint::<T>(b1);
            let (b3, r3) = masked::<T>(b2, output_reset(0));
            let (b4, r4) = regs_written::<T>(b3, 0xd920, seq![0u8]);
            (
                b4,
                if r2 is Err {
                    r2
                } else if r3 is Err {
                    r3
                } else {
                    r4
                },
            )
        },
    }
}

/// What setting the stream endpoint up does and gives.
pub open spec fn output_endpoint<T: UsbTransport>(b: Bridge<T::State>) -> Ran<
    Bridge<T::State>,
    (),
> {
    let (b1, r1) = written::<T>(
        b,
        seq![RegWrite { reg: 0xdd11, value: 0x00, mask: 0x20 }]
            .push(RegWrite { reg: 0xdd13, value: 0x00, mask: 0x20 })
            .push(RegWrite { reg: 0xdd11, value: 0x20, mask: 0x20 }),
    );
    match r1 {
        Err(e) => (b1, Err(e)),
        Ok(_) => {
            let (b2, r2) = regs_written::<T>(
                b1,
                0xdd88,
                seq![lo((XFER_SIZE / 4) as u16)].push(hi((XFER_SIZE / 4) as u16)),
            );
            match r2 {
                Err(e) => (b2, Err(e)),
                Ok(_) => written::<T>(
                    b2,
                    seq![whole(0xdd0c, (b2.max_bulk_size / 4) as u8)]
                        .push(RegWrite { reg: 0xda05, value: 0x00, mask: 0x01 })
                        .push(RegWrite { reg: 0xda06, value: 0x00, mask: 0x01 }),
                ),
            }
        },
    }
}

/// Where the address and the bus of each demodulator are written.
pub const I2C_REGS: [(u32, u32); 5] = [
    (0x4975, 0x4971),
    (0x4974, 0x4970),
    (0x4973, 0x496f),
    (0x4972, 0x496e),
    (0x4964, 0x4963),
];

/// The writes with those that tell the bridge where the demodulators are.
pub open spec fn with_demods(ws: Seq<RegWrite>, inputs: Seq<Input>) -> Seq<RegWrite>
    decreases inputs.len(),
{
    if inputs.len() == 0 {
        ws
    } else {
        let input = inputs[0];
        with_demods(
            ws.push(whole(I2C_REGS@[input.slave as int].0, input.i2c_addr << 1)).push(
                whole(I2C_REGS@[input.slave as int].1, input.i2c_bus),
            ),
            inputs.skip(1),
        )
    }
}

/// The first input of a port, from `i` on.
pub open spec fn input_at(inputs: Seq<Input>, port: u8, i: int) -> Option<Input>
    decreases inputs.len() - i,
{
    if i < 0 || i >= inputs.len() {
        None
    } else if inputs[i].port == port {
        Some(inputs[i])
    } else {
        input_at(inputs, port, i + 1)
    }
}

/// The writes with those that set the ports from `port` on up: serial, and
/// tagged by the sync byte of the input; off if there is none.
pub open spec fn with_ports(ws: Seq<RegWrite>, inputs: Seq<Input>, port: u8) -> Seq<RegWrite>
    decreases 5 - port,
{
    if port >= 5 {
        ws
    } else {
        let next = match input_at(inputs, port, 0) {
            None => ws.push(whole((0xda4c + port) as u32, 0)),
            Some(input) => (if port < 2 {
                ws.push(whole((0xda58 + port) as u32, 0))
            } else {
                ws
            }).push(whole((0xda73 + port) as u32, 1)).push(
                whole((0xda78 + port) as u32, input.sync_byte),
            ).push(whole((0xda4c + port) as u32, 1)),
        };
        with_ports(next, inputs, (port + 1) as u8)
    }
}

/// The writes that follow the set-up of the stream output.
pub open spec fn warm_end(inputs: Seq<Input>) -> Seq<RegWrite> {
    with_ports(
        with_demods(
            seq![whole(0xd833, 1)]
                .push(whole(0xd830, 0))
                .push(whole(0xd831, 1))
                .push(whole(0xd832, 0))
                .push(whole(0xf6a7, I2C_SPEED))
                .push(whole(0xf103, I2C_SPEED)),
            inputs,
        ),
        inputs,
        0,
    )
}

/// Adds the writes that tell the bridge where the demodulators are.
fn config_i2c(ws: &mut Vec<RegWrite>, inputs: &[Input])
    requires
        forall|i: int| 0 <= i < inputs@.len() ==> (#[trigger] inputs@[i]).slave < 5,
    ensures
        final(ws)@ == with_demods(old(ws)@, inputs@),
{
    let regs: [(u32, u32); 5] = I2C_REGS;
    let ghost start = ws@;
    let mut i: usize = 0;
    assert(inputs@.skip(0) =~= inputs@);
    while i < inputs.len()
        invariant
            i <= inputs@.len(),
            regs@ == I2C_REGS@,
            start == old(ws)@,
            forall|i: int| 0 <= i < inputs@.len() ==> (#[trigger] inputs@[i]).slave < 5,
            with_demods(ws@, inputs@.skip(i as int)) == with_demods(start, inputs@),
        decreases inputs@.len() - i,
    {
        let ghost rest = inputs@.skip(i as int);
        assert(rest[0] == inputs@[i as int]);
        assert(rest.skip(1) =~= inputs@.skip(i + 1));
        let input: Input = inputs[i];
        let (addr_reg, bus_reg): (u32, u32) = regs[input.slave as usize];
        ws.push(write_of(addr_reg, input.i2c_addr << 1));
        ws.push(write_of(bus_reg, input.i2c_bus));
        i = i + 1;
    }
}

fn find_input(inputs: &[Input], port: u8) -> (r: Option<Input>)
    ensures
        r == input_at(inputs@, port, 0),
{
    let mut i: usize = 0;
    while i < inputs.len()
        invariant
            i <= inputs@.len(),
            input_at(inputs@, port, i as int) == input_at(inputs@, port, 0),
        decreases inputs@.len() - i,
    {
        if inputs[i].port == port {
            return Some(inputs[i]);
        }
        i = i + 1;
    }
    None
}

/// Adds the writes that set the ports up.
fn config_stream_input(ws: &mut Vec<RegWrite>, inputs: &[Input])
    ensures
        final(ws)@ == with_ports(old(ws)@, inputs@, 0),
{
    let ghost start = ws@;
    let mut port: u8 = 0;
    while port < 5
        invariant
            port <= 5,
            start == old(ws)@,
            with_ports(ws@, inputs@, port) == with_ports(start, inputs@, 0),
        decreases 5 - port,
    {
        let reg: u32 = port as u32;
        match find_input(inputs, port) {
            None => {
                ws.push(write_of(0xda4c + reg, 0));
            },
            Some(input) => {
                if port < 2 {
                    // Serial, not parallel.
                    ws.push(write_of(0xda58 + reg, 0));
                }
                // Aggregation mode: sync byte.
                ws.push(write_of(0xda73 + reg, 1));
                ws.push(write_of(0xda78 + reg, input.sync_byte));
                ws.push(write_of(0xda4c + reg, 1));
            },
        }
        port = port + 1;
    }
}

/// What [`It930x::init_warm`] does and gives.
pub open spec fn warmed<T: UsbTransport>(b: Bridge<T::State>, inputs: Seq<Input>) -> Ran<
    Bridge<T::State>,
    (),
> {
    let (b1, r1) = written::<T>(b, warm_start());
    match r1 {
        Err(e) => (b1, Err(e)),
        Ok(_) => {
            let (b2, r2) = output_set::<T>(b1);
            match r2 {
                Err(e) => (b2, Err(e)),
                Ok(_) => written::<T>(b2, warm_end(inputs)),
            }
        },
    }
}

impl<T: UsbTransport> It930x<T> {
    fn firmware_version(&mut self) -> (r: Result<u32, Error>)
        ensures
            (final(self)@, r) == version_asked::<T>(old(self)@),
    {
        let what: [u8; 1] = [1];
        assert(what@ =~= seq![1u8]);
        let data: Vec<u8> = match self.ctrl(CMD_QUERYINFO, &what) {
            Ok(data) => data,
            Err(e) => return Err(e),
        };
        if data.len() < 4 {
            return Err(error("short firmware version"));
        }
        Ok(
            data[0] as u32 * 0x100_0000 + data[1] as u32 * 0x1_0000 + data[2] as u32 * 0x100
                + data[3] as u32,
        )
    }

    /// Wakes the bridge up, which may take a few tries.
    pub fn raise(&mut self) -> (r: Result<(), Error>)
        ensures
            (final(self)@, r) == raised::<T>(old(self)@, 5),
    {
        let ghost b0 = self@;
        let mut tries: usize = 5;
        while tries > 1
            invariant
                1 <= tries <= 5,
                b0 == old(self)@,
                raised::<T>(self@, tries as nat) == raised::<T>(b0, 5),
            decreases tries,
        {
            match self.firmware_version() {
                Ok(_) => return Ok(()),
                Err(_) => {},
            }
            tries = tries - 1;
        }
        match self.firmware_version() {
            Ok(_) => Ok(()),
            Err(e) => Err(e),
        }
    }

    /// Sends the blocks of a firmware.
    fn send_blocks(&mut self, firmware: &[u8]) -> (r: Result<(), Error>)
        ensures
            (final(self)@, r) == blocks_sent::<T>(old(self)@, firmware@),
    {
        let ghost b0 = self@;
        let mut at: usize = 0;
        assert(firmware@.skip(0) =~= firmware@);
        while at < firmware.len()
            invariant
                at <= firmware@.len(),
                b0 == old(self)@,
                blocks_sent::<T>(self@, firmware@.skip(at as int)) == blocks_sent::<T>(
                    b0,
                    firmware@,
                ),
            decreases firmware@.len() - at,
        {
            let rest: &[u8] = vstd::slice::slice_subrange(firmware, at, firmware.len());
            assert(rest@ =~= firmware@.skip(at as int));
            let n: usize = match find_block(rest) {
                Ok(n) => n,
                Err(e) => return Err(e),
            };
            let block: &[u8] = vstd::slice::slice_subrange(rest, 0, n);
            match self.ctrl(CMD_FW_SCATTER_WRITE, block) {
                Ok(_) => {},
                Err(e) => return Err(e),
            }
            assert(rest@.skip(n as int) =~= firmware@.skip(at + n));
            at = at + n;
        }
        Ok(())
    }

    /// Loads the firmware unless the bridge has one running.
    pub fn load_firmware(&mut self, firmware: &[u8]) -> (r: Result<(), Error>)
        ensures
            (final(self)@, r) == loaded::<T>(old(self)@, firmware@),
    {
        match self.firmware_version() {
            Ok(version) => if version != 0 {
                return Ok(());
            },
            Err(e) => return Err(e),
        }
        match self.write_reg(0xf103, I2C_SPEED) {
            Ok(_) => {},
            Err(e) => return Err(e),
        }
        match self.send_blocks(firmware) {
            Ok(_) => {},
            Err(e) => return Err(e),
        }
        let nothing: [u8; 0] = [];
        assert(nothing@ =~= Seq::empty());
        match self.ctrl(CMD_BOOT, &nothing) {
            Ok(_) => {},
            Err(e) => return Err(e),
        }
        match self.firmware_version() {
            Ok(version) => if version == 0 {
                Err(error("the firmware did not boot"))
            } else {
                Ok(())
            },
            Err(e) => Err(e),
        }
    }

    fn config_endpoint(&mut self) -> (r: Result<(), Error>)
        ensures
            (final(self)@, r) == output_endpoint::<T>(old(self)@),
    {
        // Disable EP4, disable its NAK, enable it again.
        let mut first: Vec<RegWrite> = Vec::new();
        first.push(RegWrite { reg: 0xdd11, value: 0x00, mask: 0x20 });
        first.push(RegWrite { reg: 0xdd13, value: 0x00, mask: 0x20 });
        first.push(RegWrite { reg: 0xdd11, value: 0x20, mask: 0x20 });
        match self.write_all(first.as_slice()) {
            Ok(_) => {},
            Err(e) => return Err(e),
        }
        let threshold: u16 = (XFER_SIZE / 4) as u16;
        let mut data: Vec<u8> = Vec::new();
        data.push((threshold % 256) as u8);
        data.push((threshold / 256) as u8);
        match self.write_regs(0xdd88, data.as_slice()) {
            Ok(_) => {},
            Err(e) => return Err(e),
        }
        let mut last: Vec<RegWrite> = Vec::new();
        last.push(write_of(0xdd0c, (self.max_bulk_size / 4) as u8));
        last.push(RegWrite { reg: 0xda05, value: 0x00, mask: 0x01 });
        last.push(RegWrite { reg: 0xda06, value: 0x00, mask: 0x01 });
        self.write_all(last.as_slice())
    }

    fn config_stream_output(&mut self) -> (r: Result<(), Error>)
        ensures
            (final(self)@, r) == output_set::<T>(old(self)@),
    {
        match self.write_reg_mask(0xda1d, 0x01, 0x01) {
            Ok(_) => {},
            Err(e) => return Err(e),
        }
        let result: Result<(), Error> = self.config_endpoint();
        let r1: Result<(), Error> = self.write_reg_mask(0xda1d, 0x00, 0x01);
        // Reverse: no.
        let r2: Result<(), Error> = self.write_reg(0xd920, 0);
        match result {
            Err(e) => Err(e),
            Ok(_) => match r1 {
                Err(e) => Err(e),
                Ok(_) => r2,
            },
        }
    }

    /// Sets the bridge up once the firmware runs.
    pub fn init_warm(&mut self, inputs: &[Input]) -> (r: Result<(), Error>)
        requires
            forall|i: int| 0 <= i < inputs@.len() ==> (#[trigger] inputs@[i]).slave < 5,
        ensures
            (final(self)@, r) == warmed::<T>(old(self)@, inputs@),
    {
        let first: Vec<RegWrite> = start_warm();
        match self.write_all(first.as_slice()) {
            Ok(_) => {},
            Err(e) => return Err(e),
        }
        match self.config_stream_output() {
            Ok(_) => {},
            Err(e) => return Err(e),
        }
        let mut last: Vec<RegWrite> = Vec::new();
        last.push(write_of(0xd833, 1));
        last.push(write_of(0xd830, 0));
        last.push(write_of(0xd831, 1));
        last.push(write_of(0xd832, 0));
        last.push(write_of(0xf6a7, I2C_SPEED));
        last.push(write_of(0xf103, I2C_SPEED));
        config_i2c(&mut last, inputs);
        config_stream_input(&mut last, inputs);
        self.write_all(last.as_slice())
    }
}

/// Where the direction of each GPIO is set; whether it is enabled, in the
/// register after that.
pub const GPIO_MODE_REGS: [u32; 16] = [
    0xd8b0, 0xd8b8, 0xd8b4, 0xd8c0, 0xd8bc, 0xd8c8, 0xd8c4, 0xd8d0, 0xd8cc, 0xd8d8, 0xd8d4, 0xd8e0,
    0xd8dc, 0xd8e4, 0xd8e8, 0xd8ec,
];

/// Where the level of each GPIO is set.
pub const GPIO_OUT_REGS: [u32; 16] = [
    0xd8af, 0xd8b7, 0xd8b3, 0xd8bf, 0xd8bb, 0xd8c7, 0xd8c3, 0xd8cf, 0xd8cb, 0xd8d7, 0xd8d3, 0xd8df,
    0xd8db, 0xd8e3, 0xd8e7, 0xd8eb,
];

/// The bit of a GPIO, from 1 to 16.
pub open spec fn gpio_bit(gpio: u8) -> u16 {
    1u16 << ((gpio - 1) as u16)
}

/// What making a GPIO an enabled output does and gives: only what is not so yet
/// is written.
pub open spec fn gpio_made_output<T: UsbTransport>(b: Bridge<T::State>, gpio: u8) -> Ran<
    Bridge<T::State>,
    (),
> {
    let bit = gpio_bit(gpio);
    let reg = GPIO_MODE_REGS@[gpio - 1];
    let (b1, r1) = if b.gpio_out & bit == 0 {
        let (b1, r1) = regs_written::<T>(b, reg, seq![1u8]);
        (
            if r1 is Ok {
                Bridge { gpio_out: b1.gpio_out | bit, ..b1 }
            } else {
                b1
            },
            r1,
        )
    } else {
        (b, Ok(()))
    };
    match r1 {
        Err(e) => (b1, Err(e)),
        Ok(_) => if b1.gpio_on & bit == 0 {
            let (b2, r2) = regs_written::<T>(b1, (reg + 1) as u32, seq![1u8]);
            (
                if r2 is Ok {
                    Bridge { gpio_on: b2.gpio_on | bit, ..b2 }
                } else {
                    b2
                },
                r2,
            )
        } else {
            (b1, Ok(()))
        },
    }
}

/// What setting the level of a GPIO does and gives.
pub open spec fn gpio_written<T: UsbTransport>(b: Bridge<T::State>, gpio: u8, high: bool) -> Ran<
    Bridge<T::State>,
    (),
> {
    if b.gpio_out & gpio_bit(gpio) == 0 {
        (b, Err(error("GPIO is not an output")))
    } else {
        regs_written::<T>(
            b,
            GPIO_OUT_REGS@[gpio - 1],
            seq![
                if high {
                    1u8
                } else {
                    0u8
                },
            ],
        )
    }
}

/// What a transfer from an endpoint just opened gives.
pub open spec fn one_taken<Q: BulkIn>(q: Q::State, len: usize, timeout_ms: u64) -> Result<
    Seq<u8>,
    Error,
> {
    Q::on_complete_within(Q::on_submit(q, len), timeout_ms).1
}

/// What dropping the data buffered does and gives: whether the reset can be
/// lifted again does not count. It is not tried if the stream cannot be opened.
pub open spec fn purged<T: UsbTransport>(b: Bridge<T::State>) -> Ran<Bridge<T::State>, ()> {
    let (b1, r1) = masked::<T>(b, output_reset(1));
    match r1 {
        Err(e) => (b1, Err(e)),
        Ok(_) => {
            let (s2, r2) = T::on_open(b1.usb, EP_STREAM);
            let b2 = Bridge { usb: s2, ..b1 };
            match r2 {
                Err(e) => (b2, Err(e)),
                Ok(q) => (
                    masked::<T>(b2, output_reset(0)).0,
                    unit(one_taken::<T::BulkIn>(q, 1024, PSB_PURGE_TIMEOUT_MS)),
                ),
            }
        },
    }
}

/// Takes one transfer from an endpoint, which is closed again.
fn take_one<Q: BulkIn>(queue: Q, len: usize, timeout_ms: u64) -> (r: Result<Vec<u8>, Error>)
    requires
        queue.in_flight().len() == 0,
    ensures
        traits::seen(r) == one_taken::<Q>(queue.state(), len, timeout_ms),
{
    let mut queue: Q = queue;
    queue.submit(len);
    queue.next_complete_within(timeout_ms)
}

impl<T: UsbTransport> It930x<T> {
    /// Makes GPIO `gpio` (1 to 16) an enabled output.
    pub fn gpio_output(&mut self, gpio: u8) -> (r: Result<(), Error>)
        requires
            1 <= gpio <= 16,
        ensures
            (final(self)@, r) == gpio_made_output::<T>(old(self)@, gpio),
    {
        let regs: [u32; 16] = GPIO_MODE_REGS;
        let bit: u16 = 1u16 << ((gpio - 1) as u16);
        let reg: u32 = regs[gpio as usize - 1];
        assert(GPIO_MODE_REGS@[gpio - 1] < 0x1_0000);
        if self.gpio_out & bit == 0 {
            match self.write_reg(reg, 1) {
                Ok(_) => {},
                Err(e) => return Err(e),
            }
            self.gpio_out = self.gpio_out | bit;
        }
        if self.gpio_on & bit == 0 {
            match self.write_reg(reg + 1, 1) {
                Ok(_) => {},
                Err(e) => return Err(e),
            }
            self.gpio_on = self.gpio_on | bit;
        }
        Ok(())
    }

    /// Sets the level of GPIO `gpio` (1 to 16), which must be an output.
    pub fn write_gpio(&mut self, gpio: u8, high: bool) -> (r: Result<(), Error>)
        requires
            1 <= gpio <= 16,
        ensures
            (final(self)@, r) == gpio_written::<T>(old(self)@, gpio, high),
    {
        let regs: [u32; 16] = GPIO_OUT_REGS;
        let bit: u16 = 1u16 << ((gpio - 1) as u16);
        if self.gpio_out & bit == 0 {
            return Err(error("GPIO is not an output"));
        }
        self.write_reg(regs[gpio as usize - 1], if high { 1 } else { 0 })
    }

    /// Drops what the bridge has buffered, before the stream starts.
    pub fn purge_psb(&mut self) -> (r: Result<(), Error>)
        ensures
            (final(self)@, r) == purged::<T>(old(self)@),
    {
        match self.write_reg_mask(0xda1d, 0x01, 0x01) {
            Ok(_) => {},
            Err(e) => return Err(e),
        }
        let result: Result<Vec<u8>, Error> = match self.usb.bulk_in_queue(EP_STREAM) {
            Ok(queue) => take_one(queue, 1024, PSB_PURGE_TIMEOUT_MS),
            Err(e) => return Err(e),
        };
        // The stream goes on whether this fails or not.
        let _ = self.write_reg_mask(0xda1d, 0x00, 0x01);
        match result {
            Ok(_) => Ok(()),
            Err(e) => Err(e),
        }
    }

    /// I2C bus 1, 2 or 3 of the bridge.
    pub fn i2c(self, bus: u8) -> (r: I2cBus<T>)
        ensures
            r == (I2cBus { it930x: self, bus }),
    {
        I2cBus { it930x: self, bus }
    }
}

/// An I2C bus of the bridge.
pub struct I2cBus<T> {
    pub it930x: It930x<T>,
    pub bus: u8,
}

/// What an [`I2cBus`] holds.
pub struct Wire<S> {
    pub bridge: Bridge<S>,
    pub bus: u8,
}

/// What a write over I2C does and gives.
pub open spec fn i2c_written<T: UsbTransport>(w: Wire<T::State>, addr: u8, data: Seq<u8>) -> Ran<
    Wire<T::State>,
    (),
> {
    let (b1, r) = control::<T>(
        w.bridge,
        CMD_I2C_WRITE,
        seq![data.len() as u8].push(w.bus).push(addr << 1) + data,
    );
    (Wire { bridge: b1, ..w }, unit(r))
}

/// What a write and a read over I2C do and give.
pub open spec fn i2c_read<T: UsbTransport>(
    w: Wire<T::State>,
    addr: u8,
    data: Seq<u8>,
    len: usize,
) -> Ran<Wire<T::State>, Seq<u8>> {
    let (w1, r1) = i2c_written::<T>(w, addr, data);
    match r1 {
        Err(e) => (w1, Err(e)),
        Ok(_) => {
            let (b2, r2) = control::<T>(
                w1.bridge,
                CMD_I2C_READ,
                seq![len as u8].push(w.bus).push(addr << 1),
            );
            let w2 = Wire { bridge: b2, ..w1 };
            match r2 {
                Err(e) => (w2, Err(e)),
                Ok(read) => if read.len() < len {
                    (w2, Err(error("short I2C read")))
                } else {
                    (w2, Ok(read.subrange(0, len as int)))
                },
            }
        },
    }
}

impl<T: UsbTransport> I2c for I2cBus<T> {
    type State = Wire<T::State>;

    open spec fn state(&self) -> Wire<T::State> {
        Wire { bridge: self.it930x@, bus: self.bus }
    }

    open spec fn on_write(s: Wire<T::State>, addr: u8, data: Seq<u8>) -> Ran<Wire<T::State>, ()> {
        i2c_written::<T>(s, addr, data)
    }

    open spec fn on_read(s: Wire<T::State>, addr: u8, data: Seq<u8>, len: usize) -> Ran<
        Wire<T::State>,
        Seq<u8>,
    > {
        i2c_read::<T>(s, addr, data, len)
    }

    open spec fn on_delay(s: Wire<T::State>, ms: u64) -> Wire<T::State> {
        Wire { bridge: Bridge { usb: T::on_delay(s.bridge.usb, ms), ..s.bridge }, ..s }
    }

    fn write(&mut self, addr: u8, data: &[u8]) -> (r: Result<(), Error>) {
        let mut payload: Vec<u8> = Vec::new();
        payload.push(data.len() as u8);
        payload.push(self.bus);
        payload.push(addr << 1);
        payload.extend_from_slice(data);
        assert(payload@ =~= seq![data@.len() as u8].push(self.bus).push(addr << 1) + data@);
        match self.it930x.ctrl(CMD_I2C_WRITE, payload.as_slice()) {
            Ok(_) => Ok(()),
            Err(e) => Err(e),
        }
    }

    fn write_read(&mut self, addr: u8, data: &[u8], len: usize) -> (r: Result<Vec<u8>, Error>) {
        match self.write(addr, data) {
            Ok(_) => {},
            Err(e) => return Err(e),
        }
        let mut payload: Vec<u8> = Vec::new();
        payload.push(len as u8);
        payload.push(self.bus);
        payload.push(addr << 1);
        let mut read: Vec<u8> = match self.it930x.ctrl(CMD_I2C_READ, payload.as_slice()) {
            Ok(read) => read,
            Err(e) => return Err(e),
        };
        if read.len() < len {
            return Err(error("short I2C read"));
        }
        read.truncate(len);
        Ok(read)
    }

    fn delay_ms(&mut self, ms: u64) {
        self.it930x.usb.delay_ms(ms);
    }
}

/// A message tells its length and its checksum, the way a response is checked.
pub proof fn messages_check_out(cmd: u16, seq: u8, payload: Seq<u8>)
    requires
        payload.len() <= 250,
    ensures
        ({
            let m = message(cmd, seq, payload);
            let n = m.len() as int;
            &&& n == payload.len() + 6
            &&& m[0] == n - 1
            &&& sum_check(m.subrange(1, n - 2)) == m[n - 2] * 256 + m[n - 1]
        }),
{
    let m = message(cmd, seq, payload);
    let n = m.len() as int;
    let body = seq![hi(cmd)].push(lo(cmd)).push(seq) + payload;
    assert(m.subrange(1, n - 2) =~= body);
}

/// The response of a bridge that did what message `seq` asked, and answers with `data`.
pub open spec fn answer(seq: u8, data: Seq<u8>) -> Seq<u8> {
    let body = seq![seq].push(0) + data;
    let check = sum_check(body);
    (seq![(data.len() + 4) as u8] + body).push(hi(check)).push(lo(check))
}

/// What a bridge answers a message with is what comes out, and the answer to another
/// message is not taken for it.
pub proof fn answers_are_read(seq: u8, data: Seq<u8>, other: u8)
    ensures
        response(answer(seq, data), seq) == Ok::<Seq<u8>, Error>(data),
        other != seq ==> response(answer(seq, data), other) == Err::<Seq<u8>, Error>(
            error("control response out of sequence"),
        ),
{
    let buf = answer(seq, data);
    let n = buf.len() as int;
    let body = seq![seq].push(0) + data;
    assert(buf.subrange(1, n - 2) =~= body);
    assert(buf[1] == seq && buf[2] == 0);
    assert(buf.subrange(3, n - 2) =~= data);
}

/// A register address goes out whole: its bytes make it up, and those beyond the length
/// told are zero.
pub proof fn addresses_agree(reg: u32)
    ensures
        1 <= address_length(reg) <= 4,
        be32(reg).len() == 4,
        be32_value(be32(reg)) == reg,
        forall|i: int| 0 <= i < 4 - address_length(reg) ==> be32(reg)[i] == 0,
{
}

proof fn sums_add_up(buf: Seq<u8>, more: Seq<u8>, i: int)
    requires
        0 <= i <= buf.len(),
        (buf.len() - i) % 2 == 0,
    ensures
        word_sum(buf + more, i) == word_sum(buf, i) + word_sum(more, 0),
    decreases buf.len() - i,
{
    let all = buf + more;
    if i < buf.len() {
        assert(all[i] == buf[i] && all[i + 1] == buf[i + 1]);
        sums_add_up(buf, more, i + 2);
    } else {
        words_shift(buf, more, 0);
    }
}

proof fn words_shift(buf: Seq<u8>, more: Seq<u8>, i: int)
    requires
        0 <= i,
    ensures
        word_sum(buf + more, buf.len() + i) == word_sum(more, i),
    decreases more.len() + 2 - i,
{
    if i < more.len() {
        assert((buf + more)[buf.len() + i] == more[i]);
        if i + 1 < more.len() {
            assert((buf + more)[buf.len() + i + 1] == more[i + 1]);
        }
        words_shift(buf, more, i + 2);
    }
}

proof fn word_is_taken(sum: int, word: int)
    requires
        0 <= word < 0x1_0000,
    ensures
        (0xffff - (sum + word) % 0x1_0000 + word) % 0x1_0000 == 0xffff - sum % 0x1_0000,
{
    let left = sum % 0x1_0000;
    assert((sum + word) % 0x1_0000 == if left + word < 0x1_0000 {
        left + word
    } else {
        left + word - 0x1_0000
    });
}

proof fn words_sum(upper: u8, lower: u8)
    ensures
        word_sum(seq![upper, lower], 0) == upper * 256 + lower,
        word_sum(seq![upper], 0) == upper * 256,
        word_sum(Seq::empty(), 0) == 0,
{
    reveal_with_fuel(word_sum, 3);
}

/// The checksum is what is left of 0xffff after the words: nothing is taken from it for
/// no bytes, a word that is added takes itself, the upper byte first, and a last byte on
/// its own takes a word of which it is the upper one.
pub proof fn checksum_takes_words(buf: Seq<u8>, upper: u8, lower: u8)
    ensures
        sum_check(Seq::empty()) == 0xffff,
        buf.len() % 2 == 0 ==> (sum_check(buf + seq![upper, lower]) + upper * 256 + lower)
            % 0x1_0000 == sum_check(buf) as int,
        buf.len() % 2 == 0 ==> (sum_check(buf + seq![upper]) + upper * 256) % 0x1_0000
            == sum_check(buf) as int,
{
    words_sum(upper, lower);
    if buf.len() % 2 == 0 {
        sums_add_up(buf, seq![upper, lower], 0);
        sums_add_up(buf, seq![upper], 0);
        word_is_taken(word_sum(buf, 0), upper * 256 + lower);
        word_is_taken(word_sum(buf, 0), upper * 256);
    }
}

/// A message tells its command, its number and its payload, and behind them what is left
/// of 0xffff.
pub proof fn messages_tell_all(cmd: u16, seq: u8, payload: Seq<u8>)
    requires
        payload.len() <= 250,
    ensures
        ({
            let m = message(cmd, seq, payload);
            let n = m.len() as int;
            &&& m[0] == payload.len() + 5
            &&& m[1] * 256 + m[2] == cmd
            &&& m[3] == seq
            &&& m.subrange(4, n - 2) == payload
            &&& m[n - 2] * 256 + m[n - 1] == sum_check(seq![m[1], m[2], m[3]] + payload)
        }),
{
    let m = message(cmd, seq, payload);
    let n = m.len() as int;
    assert(m.subrange(4, n - 2) =~= payload);
    assert(seq![m[1], m[2], m[3]] + payload =~= seq![hi(cmd)].push(lo(cmd)).push(seq) + payload);
}

proof fn bytes_of_a_number(v: u32, a: u8, b: u8, c: u8, d: u8)
    requires
        a * 0x100_0000 + b * 0x1_0000 + c * 0x100 + d == v,
    ensures
        v / 0x100_0000 == a,
        v / 0x1_0000 % 256 == b,
        v / 0x100 % 256 == c,
        v % 256 == d,
        address_length(v) == if a != 0 {
            4int
        } else if b != 0 {
            3
        } else if c != 0 {
            2
        } else {
            1
        },
{
    assert(v / 0x100 == a * 0x1_0000 + b * 0x100 + c);
    assert(v / 0x1_0000 == a * 0x100 + b);
    assert(v / 0x100_0000 == a);
}

/// A register is asked for and written by its number, the uppermost byte first, with the
/// number of bytes it takes to tell it, which is as small as can be.
pub proof fn registers_go_by_number<T: UsbTransport>(
    b: Bridge<T::State>,
    reg: u32,
    data: Seq<u8>,
    number: Seq<u8>,
    len: u8,
)
    requires
        number.len() == 4,
        number[0] * 0x100_0000 + number[1] * 0x1_0000 + number[2] * 0x100 + number[3] == reg,
        len == if number[0] != 0 {
            4int
        } else if number[1] != 0 {
            3
        } else if number[2] != 0 {
            2
        } else {
            1
        },
        data.len() <= 244,
    ensures
        regs_written::<T>(b, reg, data).0 == control::<T>(
            b,
            0x01,
            seq![data.len() as u8, len] + number + data,
        ).0,
        (regs_written::<T>(b, reg, data).1 is Ok) == (control::<T>(
            b,
            0x01,
            seq![data.len() as u8, len] + number + data,
        ).1 is Ok),
        ({
            let (b1, r1) = control::<T>(b, 0x00, seq![1u8, len] + number);
            &&& reg_read::<T>(b, reg).0 == b1
            &&& r1 is Ok && r1->Ok_0.len() > 0 ==> reg_read::<T>(b, reg).1 == Ok::<u8, Error>(
                r1->Ok_0[0],
            )
            &&& !(r1 is Ok && r1->Ok_0.len() > 0) ==> reg_read::<T>(b, reg).1 is Err
        }),
{
    bytes_of_a_number(reg, number[0], number[1], number[2], number[3]);
    assert(number =~= be32(reg));
    assert(seq![data.len() as u8, len] =~= seq![data.len() as u8].push(len));
    assert(seq![1u8, len] =~= seq![1u8].push(len));
}

/// Some bits of a register are written with the others of it as they were read: what is
/// written has the bits asked for where the mask is set, and those read elsewhere.
pub proof fn masks_keep_the_other_bits<T: UsbTransport>(
    b: Bridge<T::State>,
    w: RegWrite,
    value: u8,
)
    requires
        w.mask != 0xff,
        value & w.mask == w.value & w.mask,
        reg_read::<T>(b, w.reg).1 is Ok,
        value & !w.mask == reg_read::<T>(b, w.reg).1->Ok_0 & !w.mask,
    ensures
        masked::<T>(b, w) == regs_written::<T>(reg_read::<T>(b, w.reg).0, w.reg, seq![value]),
{
    let v = reg_read::<T>(b, w.reg).1->Ok_0;
    let (mask, asked) = (w.mask, w.value);
    assert((v & !mask) | (asked & mask) == value) by (bit_vector)
        requires
            value & mask == asked & mask,
            value & !mask == v & !mask,
    ;
}

/// What is written to and read from a chip over I2C is told with twice its address of 7
/// bits.
pub proof fn chips_go_by_address<T: UsbTransport>(
    w: Wire<T::State>,
    addr: u8,
    data: Seq<u8>,
    len: usize,
)
    requires
        addr < 0x80,
        data.len() <= 247,
        len <= 255,
    ensures
        ({
            let (b1, r1) = control::<T>(
                w.bridge,
                0x2b,
                seq![data.len() as u8, w.bus, (2 * addr) as u8] + data,
            );
            let (b2, r2) = control::<T>(b1, 0x2a, seq![len as u8, w.bus, (2 * addr) as u8]);
            &&& i2c_written::<T>(w, addr, data) == (Wire { bridge: b1, bus: w.bus }, unit(r1))
            &&& r1 is Err ==> i2c_read::<T>(w, addr, data, len).0 == (Wire {
                bridge: b1,
                bus: w.bus,
            }) && i2c_read::<T>(w, addr, data, len).1 is Err
            &&& r1 is Ok ==> i2c_read::<T>(w, addr, data, len).0 == (Wire {
                bridge: b2,
                bus: w.bus,
            })
            &&& r1 is Ok && r2 is Ok && r2->Ok_0.len() == len ==> i2c_read::<T>(
                w,
                addr,
                data,
                len,
            ).1 == r2
        }),
{
    assert(addr << 1 == 2 * addr) by (bit_vector)
        requires
            addr < 0x80,
    ;
    assert(seq![data.len() as u8, w.bus, (2 * addr) as u8] =~= seq![data.len() as u8].push(
        w.bus,
    ).push(addr << 1));
    assert(seq![len as u8, w.bus, (2 * addr) as u8] =~= seq![len as u8].push(w.bus).push(
        addr << 1,
    ));
    let (b1, r1) = control::<T>(
        w.bridge,
        0x2b,
        seq![data.len() as u8, w.bus, (2 * addr) as u8] + data,
    );
    let (b2, r2) = control::<T>(b1, 0x2a, seq![len as u8, w.bus, (2 * addr) as u8]);
    if r2 is Ok && r2->Ok_0.len() == len {
        assert(r2->Ok_0.subrange(0, len as int) =~= r2->Ok_0);
    }
}

/// A GPIO that is made an output counts as one from then on, and nothing changes for the
/// others.
pub proof fn gpios_are_kept_apart<T: UsbTransport>(b: Bridge<T::State>, gpio: u8, other: u8)
    requires
        1 <= gpio <= 16,
        1 <= other <= 16,
        gpio_made_output::<T>(b, gpio).1 is Ok,
    ensures
        ({
            let b1 = gpio_made_output::<T>(b, gpio).0;
            let bit: u16 = 1u16 << ((other - 1) as u16);
            if other == gpio {
                b1.gpio_out & bit != 0 && b1.gpio_on & bit != 0
            } else {
                b1.gpio_out & bit == b.gpio_out & bit && b1.gpio_on & bit == b.gpio_on & bit
            }
        }),
{
    let g = (gpio - 1) as u16;
    let o = (other - 1) as u16;
    let (before_out, before_on) = (b.gpio_out, b.gpio_on);
    assert(forall|v: u16|
        #![auto]
        g < 16 && o < 16 && g != o ==> (v | (1u16 << g)) & (1u16 << o) == v & (1u16 << o))
        by (bit_vector);
    assert(forall|v: u16| #![auto] g < 16 ==> (v | (1u16 << g)) & (1u16 << g) != 0)
        by (bit_vector);
    let (b1, r1) = regs_written::<T>(b, GPIO_MODE_REGS@[gpio - 1], seq![1u8]);
    assert(b1.gpio_out == before_out && b1.gpio_on == before_on);
}

/// The heads of the segments of a firmware block.
pub open spec fn heads(segments: Seq<(u8, u8, Seq<u8>)>) -> Seq<u8>
    decreases segments.len(),
{
    if segments.len() == 0 {
        Seq::empty()
    } else {
        let (upper, lower, data) = segments[0];
        seq![upper, lower, data.len() as u8] + heads(segments.skip(1))
    }
}

/// The data of the segments of a firmware block.
pub open spec fn bodies(segments: Seq<(u8, u8, Seq<u8>)>) -> Seq<u8>
    decreases segments.len(),
{
    if segments.len() == 0 {
        Seq::empty()
    } else {
        segments[0].2 + bodies(segments.skip(1))
    }
}

/// A block of a firmware: 3, two bytes, the number of its segments, their heads, each an
/// address and a length, and their data.
pub open spec fn block(a: u8, b: u8, segments: Seq<(u8, u8, Seq<u8>)>) -> Seq<u8> {
    seq![3u8, a, b, segments.len() as u8] + heads(segments) + bodies(segments)
}

proof fn segments_are_counted(
    before: Seq<u8>,
    segments: Seq<(u8, u8, Seq<u8>)>,
    after: Seq<u8>,
    i: int,
    n: int,
)
    requires
        0 <= i,
        n == i + segments.len(),
        before.len() == 4 + 3 * i,
        forall|k: int| 0 <= k < segments.len() ==> (#[trigger] segments[k]).2.len() <= 255,
    ensures
        heads(segments).len() == 3 * segments.len(),
        segment_bytes(before + heads(segments) + after, n, i) == bodies(segments).len(),
    decreases segments.len(),
{
    if segments.len() > 0 {
        let rest = segments.skip(1);
        let (upper, lower, data) = segments[0];
        let head = seq![upper, lower, data.len() as u8];
        assert forall|k: int| 0 <= k < rest.len() implies (#[trigger] rest[k]).2.len() <= 255 by {
            assert(rest[k] == segments[k + 1]);
        }
        segments_are_counted(before + head, rest, after, i + 1, n);
        let all = before + heads(segments) + after;
        assert(all =~= (before + head) + heads(rest) + after);
        assert(all[6 + i * 3] == head[2]);
    }
}

/// A firmware is sent block by block, each as it is: one that starts with a block sends
/// that, and then what is left.
pub proof fn blocks_are_sent_whole<T: UsbTransport>(
    bridge: Bridge<T::State>,
    a: u8,
    b: u8,
    segments: Seq<(u8, u8, Seq<u8>)>,
    rest: Seq<u8>,
)
    requires
        segments.len() <= 255,
        forall|k: int| 0 <= k < segments.len() ==> (#[trigger] segments[k]).2.len() <= 255,
    ensures
        ({
            let (b1, r1) = control::<T>(bridge, 0x29, block(a, b, segments));
            blocks_sent::<T>(bridge, block(a, b, segments) + rest) == match r1 {
                Err(e) => (b1, Err(e)),
                Ok(_) => blocks_sent::<T>(b1, rest),
            }
        }),
{
    let head = seq![3u8, a, b, segments.len() as u8];
    let this = block(a, b, segments);
    let all = this + rest;
    segments_are_counted(head, segments, bodies(segments) + rest, 0, segments.len() as int);
    assert(all =~= head + heads(segments) + (bodies(segments) + rest));
    assert(all[0] == 3 && all[3] == segments.len());
    assert(block_length(all) == Ok::<int, Error>(this.len() as int));
    assert(all.subrange(0, this.len() as int) =~= this);
    assert(all.skip(this.len() as int) =~= rest);
}

/// The writes of a list that another list goes on from.
proof fn demods_go_on(ws: Seq<RegWrite>, inputs: Seq<Input>, w: RegWrite)
    requires
        ws.contains(w),
    ensures
        with_demods(ws, inputs).contains(w),
    decreases inputs.len(),
{
    if inputs.len() > 0 {
        let x = whole(I2C_REGS@[inputs[0].slave as int].0, inputs[0].i2c_addr << 1);
        let y = whole(I2C_REGS@[inputs[0].slave as int].1, inputs[0].i2c_bus);
        let k = choose|k: int| 0 <= k < ws.len() && ws[k] == w;
        assert(ws.push(x).push(y)[k] == w);
        demods_go_on(ws.push(x).push(y), inputs.skip(1), w);
    }
}

proof fn demods_are_written(ws: Seq<RegWrite>, inputs: Seq<Input>, i: int)
    requires
        0 <= i < inputs.len(),
    ensures
        with_demods(ws, inputs).contains(
            whole(I2C_REGS@[inputs[i].slave as int].0, inputs[i].i2c_addr << 1),
        ),
        with_demods(ws, inputs).contains(
            whole(I2C_REGS@[inputs[i].slave as int].1, inputs[i].i2c_bus),
        ),
    decreases inputs.len(),
{
    let x = whole(I2C_REGS@[inputs[0].slave as int].0, inputs[0].i2c_addr << 1);
    let y = whole(I2C_REGS@[inputs[0].slave as int].1, inputs[0].i2c_bus);
    let next = ws.push(x).push(y);
    if i == 0 {
        assert(next[ws.len() as int] == x && next[ws.len() as int + 1] == y);
        demods_go_on(next, inputs.skip(1), x);
        demods_go_on(next, inputs.skip(1), y);
    } else {
        assert(inputs.skip(1)[i - 1] == inputs[i]);
        demods_are_written(next, inputs.skip(1), i - 1);
    }
}

/// What is written for a port on the way.
spec fn port_writes(inputs: Seq<Input>, port: u8) -> Seq<RegWrite> {
    match input_at(inputs, port, 0) {
        None => seq![whole((0xda4c + port) as u32, 0)],
        Some(input) => (if port < 2 {
            seq![whole((0xda58 + port) as u32, 0)]
        } else {
            Seq::empty()
        }).push(whole((0xda73 + port) as u32, 1)).push(
            whole((0xda78 + port) as u32, input.sync_byte),
        ).push(whole((0xda4c + port) as u32, 1)),
    }
}

proof fn ports_go_on(ws: Seq<RegWrite>, inputs: Seq<Input>, from: u8, w: RegWrite)
    requires
        ws.contains(w) || exists|p: u8|
            from <= p < 5 && #[trigger] port_writes(inputs, p).contains(w),
    ensures
        with_ports(ws, inputs, from).contains(w),
    decreases 5 - from,
{
    if from < 5 {
        let here = port_writes(inputs, from);
        let next = ws + here;
        let stepped = match input_at(inputs, from, 0) {
            None => ws.push(whole((0xda4c + from) as u32, 0)),
            Some(input) => (if from < 2 {
                ws.push(whole((0xda58 + from) as u32, 0))
            } else {
                ws
            }).push(whole((0xda73 + from) as u32, 1)).push(
                whole((0xda78 + from) as u32, input.sync_byte),
            ).push(whole((0xda4c + from) as u32, 1)),
        };
        assert(stepped =~= next);
        if ws.contains(w) {
            let k = choose|k: int| 0 <= k < ws.len() && ws[k] == w;
            assert(next[k] == w);
        } else {
            let p = choose|p: u8| from <= p < 5 && #[trigger] port_writes(inputs, p).contains(w);
            if p == from {
                let k = choose|k: int| 0 <= k < here.len() && here[k] == w;
                assert(next[ws.len() + k] == w);
            }
        }
        ports_go_on(next, inputs, (from + 1) as u8, w);
    }
}

proof fn input_of_a_port(inputs: Seq<Input>, port: u8, i: int)
    requires
        0 <= i <= inputs.len(),
    ensures
        match input_at(inputs, port, i) {
            Some(input) => inputs.contains(input) && input.port == port,
            None => forall|k: int| i <= k < inputs.len() ==> (#[trigger] inputs[k]).port != port,
        },
    decreases inputs.len() - i,
{
    if i < inputs.len() && inputs[i].port != port {
        input_of_a_port(inputs, port, i + 1);
    }
}

/// Every input of a bridge is set up: its port is on, marks its packets with the sync byte
/// of the input, and the bridge is told the bus and twice the address of its demodulator;
/// a port without an input is off.
pub proof fn inputs_are_set_up(inputs: Seq<Input>, i: int, port: u8)
    requires
        forall|k: int| 0 <= k < inputs.len() ==> (#[trigger] inputs[k]).port < 5,
        forall|k: int, m: int|
            0 <= k < m < inputs.len() ==> (#[trigger] inputs[k]).port != (#[trigger] inputs[m]).port,
        port < 5,
    ensures
        0 <= i < inputs.len() ==> {
            let input = inputs[i];
            &&& warm_end(inputs).contains(
                RegWrite { reg: (0xda78 + input.port) as u32, value: input.sync_byte, mask: 0xff },
            )
            &&& warm_end(inputs).contains(
                RegWrite { reg: (0xda4c + input.port) as u32, value: 1, mask: 0xff },
            )
            &&& warm_end(inputs).contains(
                RegWrite {
                    reg: I2C_REGS@[input.slave as int].1,
                    value: input.i2c_bus,
                    mask: 0xff,
                },
            )
            &&& input.i2c_addr < 0x80 ==> warm_end(inputs).contains(
                RegWrite {
                    reg: I2C_REGS@[input.slave as int].0,
                    value: (2 * input.i2c_addr) as u8,
                    mask: 0xff,
                },
            )
        },
        (forall|k: int| 0 <= k < inputs.len() ==> (#[trigger] inputs[k]).port != port)
            ==> warm_end(inputs).contains(
            RegWrite { reg: (0xda4c + port) as u32, value: 0, mask: 0xff },
        ),
{
    let first = seq![whole(0xd833, 1)]
        .push(whole(0xd830, 0))
        .push(whole(0xd831, 1))
        .push(whole(0xd832, 0))
        .push(whole(0xf6a7, I2C_SPEED))
        .push(whole(0xf103, I2C_SPEED));
    let ws = with_demods(first, inputs);
    if 0 <= i < inputs.len() {
        let input = inputs[i];
        demods_are_written(first, inputs, i);
        input_of_a_port(inputs, input.port, 0);
        assert(input_at(inputs, input.port, 0) == Some(input));
        let here = port_writes(inputs, input.port);
        let n = here.len() as int;
        assert(here[n - 2] == whole((0xda78 + input.port) as u32, input.sync_byte));
        assert(here[n - 1] == whole((0xda4c + input.port) as u32, 1));
        assert(here.contains(whole((0xda78 + input.port) as u32, input.sync_byte)));
        assert(here.contains(whole((0xda4c + input.port) as u32, 1)));
        ports_go_on(ws, inputs, 0, whole((0xda78 + input.port) as u32, input.sync_byte));
        ports_go_on(ws, inputs, 0, whole((0xda4c + input.port) as u32, 1));
        ports_go_on(ws, inputs, 0, whole(I2C_REGS@[input.slave as int].1, input.i2c_bus));
        ports_go_on(ws, inputs, 0, whole(I2C_REGS@[input.slave as int].0, input.i2c_addr << 1));
        let addr = input.i2c_addr;
        if addr < 0x80 {
            assert(addr << 1 == 2 * addr) by (bit_vector)
                requires
                    addr < 0x80,
            ;
        }
    }
    if forall|k: int| 0 <= k < inputs.len() ==> (#[trigger] inputs[k]).port != port {
        input_of_a_port(inputs, port, 0);
        let here = port_writes(inputs, port);
        assert(here[0] == whole((0xda4c + port) as u32, 0));
        assert(here.contains(whole((0xda4c + port) as u32, 0)));
        ports_go_on(ws, inputs, 0, whole((0xda4c + port) as u32, 0));
    }
}

} // verus!
