//! Toshiba TC90522, the ISDB-T/S demodulator.

use vstd::prelude::*;

use crate::error::{error, Error};
use crate::shadow;
use crate::traits;
use crate::traits::{I2c, Ran};

verus! {

#[derive(Clone, Copy, Debug, PartialEq, Eq, Structural)]
pub struct Tc90522 {
    pub addr: u8,
    /// The second ISDB-S demodulator of a pair, which takes a different AGC setting.
    pub is_secondary: bool,
}

/// What reading registers does and gives.
pub open spec fn regs_read<B: I2c>(s: B::State, addr: u8, reg: u8, len: usize) -> Ran<
    B::State,
    Seq<u8>,
> {
    if len == 0 {
        (s, Err(error("empty TC90522 read")))
    } else {
        B::on_read(s, addr, seq![reg], len)
    }
}

/// What reading a register does and gives.
pub open spec fn reg_read<B: I2c>(s: B::State, addr: u8, reg: u8) -> Ran<B::State, u8> {
    let (s1, r) = regs_read::<B>(s, addr, reg, 1);
    match r {
        Ok(b) => (s1, Ok(b[0])),
        Err(e) => (s1, Err(e)),
    }
}

/// What reading a number of two registers does and gives.
pub open spec fn word_read<B: I2c>(s: B::State, addr: u8, reg: u8) -> Ran<B::State, u16> {
    let (s1, r) = regs_read::<B>(s, addr, reg, 2);
    match r {
        Ok(b) => (s1, Ok((b[0] * 256 + b[1]) as u16)),
        Err(e) => (s1, Err(e)),
    }
}

/// What writing registers does and gives.
pub open spec fn regs_written<B: I2c>(s: B::State, addr: u8, reg: u8, data: Seq<u8>) -> Ran<
    B::State,
    (),
> {
    if data.len() == 0 || data.len() > 254 {
        (s, Err(error("bad TC90522 write length")))
    } else {
        B::on_write(s, addr, seq![reg] + data)
    }
}

/// What writing a register does and gives.
pub open spec fn reg_written<B: I2c>(s: B::State, addr: u8, reg: u8, value: u8) -> Ran<
    B::State,
    (),
> {
    B::on_write(s, addr, seq![reg].push(value))
}

/// What writing `(reg, value)` pairs in order does and gives, up to the first
/// that fails.
pub open spec fn written<B: I2c>(s: B::State, addr: u8, regs: Seq<(u8, u8)>) -> Ran<B::State, ()>
    decreases regs.len(),
{
    if regs.len() == 0 {
        (s, Ok(()))
    } else {
        let (s1, r) = reg_written::<B>(s, addr, regs[0].0, regs[0].1);
        match r {
            Err(e) => (s1, Err(e)),
            Ok(_) => written::<B>(s1, addr, regs.skip(1)),
        }
    }
}

/// The registers that put the ISDB-S side to sleep or wake it up.
pub open spec fn sleep_s_regs(sleep: bool) -> Seq<(u8, u8)> {
    if sleep {
        seq![(0x13u8, 0x80u8)].push((0x17u8, 0xffu8))
    } else {
        seq![(0x13u8, 0x00u8)].push((0x17u8, 0x00u8))
    }
}

/// The registers that switch the AGC of the ISDB-S side.
pub open spec fn agc_s_regs(secondary: bool, on: bool) -> Seq<(u8, u8)> {
    let base = if secondary {
        0x30u8
    } else {
        0xb0u8
    };
    if on {
        seq![(0x0au8, 0xffu8)].push((0x10u8, base | 0x02)).push((0x11u8, 0x00u8)).push(
            (0x03u8, 0x01u8),
        )
    } else {
        seq![(0x0au8, 0x00u8)].push((0x10u8, base)).push((0x11u8, 0x02u8)).push((0x03u8, 0x01u8))
    }
}

/// The registers that switch the TS pins of the ISDB-S side.
pub open spec fn ts_pins_s_regs(enable: bool) -> Seq<(u8, u8)> {
    if enable {
        seq![(0x1cu8, 0x00u8)].push((0x1fu8, 0x00u8))
    } else {
        seq![(0x1cu8, 0x80u8)].push((0x1fu8, 0x22u8))
    }
}

/// The registers that switch the AGC of the ISDB-T side.
pub open spec fn agc_t_regs(on: bool) -> Seq<(u8, u8)> {
    seq![(0x25u8, 0x00u8)].push((0x20u8, 0x00u8)).push(
        (
            0x23u8,
            if on {
                0x4cu8
            } else {
                0x4du8
            },
        ),
    ).push((0x01u8, 0x50u8))
}

/// Whether the ISDB-S side is locked: bit 4 of register 0xc3 is clear.
pub open spec fn locked_s<B: I2c>(s: B::State, addr: u8) -> Ran<B::State, bool> {
    let (s1, r) = reg_read::<B>(s, addr, 0xc3);
    match r {
        Ok(v) => (s1, Ok(v & 0x10 == 0)),
        Err(e) => (s1, Err(e)),
    }
}

/// Whether the ISDB-T side is locked: neither bit 3 nor bit 5 of register 0x80 is
/// set, and the sequence of register 0xb0 has come to 8. A read that fails
/// counts as no lock.
pub open spec fn locked_t<B: I2c>(s: B::State, addr: u8) -> (B::State, bool) {
    let (s1, r1) = reg_read::<B>(s, addr, 0x80);
    match r1 {
        Err(_) => (s1, false),
        Ok(v) => if v & 0x28 != 0 {
            (s1, false)
        } else {
            let (s2, r2) = reg_read::<B>(s1, addr, 0xb0);
            match r2 {
                Err(_) => (s2, false),
                Ok(v) => (s2, v & 0x0f >= 8),
            }
        },
    }
}

/// What reading the C/N of the ISDB-T side does and gives.
pub open spec fn cndat_t<B: I2c>(s: B::State, addr: u8) -> Ran<B::State, u32> {
    let (s1, r) = regs_read::<B>(s, addr, 0x8b, 3);
    match r {
        Ok(b) => (s1, Ok((b[0] * 0x1_0000 + b[1] * 0x100 + b[2]) as u32)),
        Err(e) => (s1, Err(e)),
    }
}

impl Tc90522 {
    pub fn new(i2c_addr: u8) -> (r: Self)
        ensures
            r == (Tc90522 { addr: i2c_addr, is_secondary: false }),
    {
        Tc90522 { addr: i2c_addr, is_secondary: false }
    }

    pub fn read_regs<B: I2c>(&self, i2c: &mut B, reg: u8, len: usize) -> (r: Result<Vec<u8>, Error>)
        ensures
            (final(i2c).state(), traits::seen(r)) == regs_read::<B>(
                old(i2c).state(),
                self.addr,
                reg,
                len,
            ),
            r matches Ok(bytes) ==> bytes@.len() == len,
    {
        if len == 0 {
            return Err(error("empty TC90522 read"));
        }
        let which: [u8; 1] = [reg];
        assert(which@ =~= seq![reg]);
        i2c.write_read(self.addr, &which, len)
    }

    pub fn read_reg<B: I2c>(&self, i2c: &mut B, reg: u8) -> (r: Result<u8, Error>)
        ensures
            (final(i2c).state(), r) == reg_read::<B>(old(i2c).state(), self.addr, reg),
    {
        match self.read_regs(i2c, reg, 1) {
            Ok(b) => Ok(b[0]),
            Err(e) => Err(e),
        }
    }

    pub fn write_regs<B: I2c>(&self, i2c: &mut B, reg: u8, data: &[u8]) -> (r: Result<(), Error>)
        ensures
            (final(i2c).state(), r) == regs_written::<B>(
                old(i2c).state(),
                self.addr,
                reg,
                data@,
            ),
    {
        if data.len() == 0 || data.len() > 254 {
            return Err(error("bad TC90522 write length"));
        }
        let mut b: Vec<u8> = Vec::new();
        b.push(reg);
        b.extend_from_slice(data);
        assert(b@ =~= seq![reg] + data@);
        i2c.write(self.addr, b.as_slice())
    }

    pub fn write_reg<B: I2c>(&self, i2c: &mut B, reg: u8, value: u8) -> (r: Result<(), Error>)
        ensures
            (final(i2c).state(), r) == reg_written::<B>(old(i2c).state(), self.addr, reg, value),
    {
        let data: [u8; 1] = [value];
        assert(seq![reg] + data@ =~= seq![reg].push(value));
        self.write_regs(i2c, reg, &data)
    }

    /// Writes `(reg, value)` pairs in order, stopping at the first error.
    pub fn write_multiple_regs<B: I2c>(&self, i2c: &mut B, regs: &[(u8, u8)]) -> (r: Result<
        (),
        Error,
    >)
        ensures
            (final(i2c).state(), r) == written::<B>(old(i2c).state(), self.addr, regs@),
    {
        let ghost s0 = i2c.state();
        let mut i: usize = 0;
        assert(regs@.skip(0) =~= regs@);
        while i < regs.len()
            invariant
                i <= regs@.len(),
                s0 == old(i2c).state(),
                written::<B>(i2c.state(), self.addr, regs@.skip(i as int)) == written::<B>(
                    s0,
                    self.addr,
                    regs@,
                ),
            decreases regs@.len() - i,
        {
            let ghost rest = regs@.skip(i as int);
            assert(rest[0] == regs@[i as int]);
            assert(rest.skip(1) =~= regs@.skip(i + 1));
            match self.write_reg(i2c, regs[i].0, regs[i].1) {
                Ok(_) => {},
                Err(e) => return Err(e),
            }
            i = i + 1;
        }
        Ok(())
    }

    /// Relays I2C to the tuner behind the demodulator.
    pub fn tuner_bus<B: I2c>(&self, i2c: B) -> (r: TunerBus<B>)
        ensures
            r == (TunerBus { i2c, addr: self.addr }),
    {
        TunerBus { i2c, addr: self.addr }
    }

    pub fn sleep_s<B: I2c>(&self, i2c: &mut B, sleep: bool) -> (r: Result<(), Error>)
        ensures
            (final(i2c).state(), r) == written::<B>(
                old(i2c).state(),
                self.addr,
                sleep_s_regs(sleep),
            ),
    {
        let (a, b): (u8, u8) = if sleep { (0x80, 0xff) } else { (0x00, 0x00) };
        let regs: [(u8, u8); 2] = [(0x13, a), (0x17, b)];
        assert(regs@ =~= sleep_s_regs(sleep));
        self.write_multiple_regs(i2c, &regs)
    }

    pub fn set_agc_s<B: I2c>(&self, i2c: &mut B, on: bool) -> (r: Result<(), Error>)
        ensures
            (final(i2c).state(), r) == written::<B>(
                old(i2c).state(),
                self.addr,
                agc_s_regs(self.is_secondary, on),
            ),
    {
        let base: u8 = if self.is_secondary { 0x30 } else { 0xb0 };
        let regs: [(u8, u8); 4] = if on {
            [(0x0a, 0xff), (0x10, base | 0x02), (0x11, 0x00), (0x03, 0x01)]
        } else {
            [(0x0a, 0x00), (0x10, base), (0x11, 0x02), (0x03, 0x01)]
        };
        assert(regs@ =~= agc_s_regs(self.is_secondary, on));
        self.write_multiple_regs(i2c, &regs)
    }

    pub fn get_tsid_s<B: I2c>(&self, i2c: &mut B) -> (r: Result<u16, Error>)
        ensures
            (final(i2c).state(), r) == word_read::<B>(old(i2c).state(), self.addr, 0xe6),
    {
        self.read_u16(i2c, 0xe6)
    }

    pub fn set_tsid_s<B: I2c>(&self, i2c: &mut B, tsid: u16) -> (r: Result<(), Error>)
        ensures
            (final(i2c).state(), r) == regs_written::<B>(
                old(i2c).state(),
                self.addr,
                0x8f,
                tsid_bytes(tsid),
            ),
    {
        let mut data: Vec<u8> = Vec::new();
        data.push((tsid / 256) as u8);
        data.push((tsid % 256) as u8);
        self.write_regs(i2c, 0x8f, data.as_slice())
    }

    pub fn get_cn_s<B: I2c>(&self, i2c: &mut B) -> (r: Result<u16, Error>)
        ensures
            (final(i2c).state(), r) == word_read::<B>(old(i2c).state(), self.addr, 0xbc),
    {
        self.read_u16(i2c, 0xbc)
    }

    pub fn enable_ts_pins_s<B: I2c>(&self, i2c: &mut B, enable: bool) -> (r: Result<(), Error>)
        ensures
            (final(i2c).state(), r) == written::<B>(
                old(i2c).state(),
                self.addr,
                ts_pins_s_regs(enable),
            ),
    {
        let (a, b): (u8, u8) = if enable { (0x00, 0x00) } else { (0x80, 0x22) };
        let regs: [(u8, u8); 2] = [(0x1c, a), (0x1f, b)];
        assert(regs@ =~= ts_pins_s_regs(enable));
        self.write_multiple_regs(i2c, &regs)
    }

    pub fn is_signal_locked_s<B: I2c>(&self, i2c: &mut B) -> (r: Result<bool, Error>)
        ensures
            (final(i2c).state(), r) == locked_s::<B>(old(i2c).state(), self.addr),
    {
        match self.read_reg(i2c, 0xc3) {
            Ok(v) => Ok(v & 0x10 == 0),
            Err(e) => Err(e),
        }
    }

    pub fn sleep_t<B: I2c>(&self, i2c: &mut B, sleep: bool) -> (r: Result<(), Error>)
        ensures
            (final(i2c).state(), r) == reg_written::<B>(
                old(i2c).state(),
                self.addr,
                0x03,
                sleep_t_value(sleep),
            ),
    {
        self.write_reg(i2c, 0x03, if sleep { 0xf0 } else { 0x00 })
    }

    pub fn set_agc_t<B: I2c>(&self, i2c: &mut B, on: bool) -> (r: Result<(), Error>)
        ensures
            (final(i2c).state(), r) == written::<B>(
                old(i2c).state(),
                self.addr,
                agc_t_regs(on),
            ),
    {
        let v: u8 = if on { 0x4c } else { 0x4d };
        let regs: [(u8, u8); 4] = [(0x25, 0x00), (0x20, 0x00), (0x23, v), (0x01, 0x50)];
        assert(regs@ =~= agc_t_regs(on));
        self.write_multiple_regs(i2c, &regs)
    }

    pub fn get_cndat_t<B: I2c>(&self, i2c: &mut B) -> (r: Result<u32, Error>)
        ensures
            (final(i2c).state(), r) == cndat_t::<B>(old(i2c).state(), self.addr),
    {
        match self.read_regs(i2c, 0x8b, 3) {
            Ok(b) => Ok(b[0] as u32 * 0x1_0000 + b[1] as u32 * 0x100 + b[2] as u32),
            Err(e) => Err(e),
        }
    }

    pub fn enable_ts_pins_t<B: I2c>(&self, i2c: &mut B, enable: bool) -> (r: Result<(), Error>)
        ensures
            (final(i2c).state(), r) == reg_written::<B>(
                old(i2c).state(),
                self.addr,
                0x1d,
                ts_pins_t_value(enable),
            ),
    {
        self.write_reg(i2c, 0x1d, if enable { 0x00 } else { 0xa8 })
    }

    /// Whether the ISDB-T side is locked; a read that fails counts as no lock.
    pub fn is_signal_locked_t<B: I2c>(&self, i2c: &mut B) -> (r: Result<bool, Error>)
        ensures
            r matches Ok(locked) && (final(i2c).state(), locked) == locked_t::<B>(
                old(i2c).state(),
                self.addr,
            ),
    {
        match self.read_reg(i2c, 0x80) {
            Err(_) => return Ok(false),
            Ok(v) => if v & 0x28 != 0 {
                return Ok(false);
            },
        }
        match self.read_reg(i2c, 0xb0) {
            Err(_) => Ok(false),
            Ok(v) => Ok(v & 0x0f >= 8),
        }
    }

    fn read_u16<B: I2c>(&self, i2c: &mut B, reg: u8) -> (r: Result<u16, Error>)
        ensures
            (final(i2c).state(), r) == word_read::<B>(old(i2c).state(), self.addr, reg),
    {
        match self.read_regs(i2c, reg, 2) {
            Ok(b) => Ok(b[0] as u16 * 256 + b[1] as u16),
            Err(e) => Err(e),
        }
    }
}

/// The two bytes of a TSID, the upper one first.
pub open spec fn tsid_bytes(tsid: u16) -> Seq<u8> {
    seq![(tsid / 256) as u8].push((tsid % 256) as u8)
}

/// The value that puts the ISDB-T side to sleep or wakes it up.
pub open spec fn sleep_t_value(sleep: bool) -> u8 {
    if sleep {
        0xf0
    } else {
        0x00
    }
}

/// The value that switches the TS pins of the ISDB-T side.
pub open spec fn ts_pins_t_value(enable: bool) -> u8 {
    if enable {
        0x00
    } else {
        0xa8
    }
}

/// I2C to the tuner, relayed by the demodulator.
pub struct TunerBus<B> {
    pub i2c: B,
    /// The address of the demodulator.
    pub addr: u8,
}

/// What a [`TunerBus`] holds.
pub struct Relay<S> {
    pub bus: S,
    pub addr: u8,
}

/// What a relayed write does and gives.
pub open spec fn relay_written<B: I2c>(t: Relay<B::State>, addr: u8, data: Seq<u8>) -> Ran<
    Relay<B::State>,
    (),
> {
    if data.len() == 0 || data.len() > 253 {
        (t, Err(error("bad TC90522 relay write length")))
    } else {
        let (s1, r) = B::on_write(t.bus, t.addr, seq![0xfeu8].push(addr << 1) + data);
        (Relay { bus: s1, ..t }, r)
    }
}

/// What a relayed write and read do and give.
pub open spec fn relay_read<B: I2c>(t: Relay<B::State>, addr: u8, data: Seq<u8>, len: usize) -> Ran<
    Relay<B::State>,
    Seq<u8>,
> {
    if len == 0 {
        (t, Err(error("empty TC90522 relay read")))
    } else {
        let (t1, r1) = relay_written::<B>(t, addr, data);
        match r1 {
            Err(e) => (t1, Err(e)),
            Ok(_) => {
                let (s2, r2) = B::on_read(
                    t1.bus,
                    t1.addr,
                    seq![0xfeu8].push((addr << 1) | 0x01),
                    len,
                );
                (Relay { bus: s2, ..t1 }, r2)
            },
        }
    }
}

impl<B: I2c> I2c for TunerBus<B> {
    type State = Relay<B::State>;

    open spec fn state(&self) -> Relay<B::State> {
        Relay { bus: self.i2c.state(), addr: self.addr }
    }

    open spec fn on_write(s: Relay<B::State>, addr: u8, data: Seq<u8>) -> Ran<
        Relay<B::State>,
        (),
    > {
        relay_written::<B>(s, addr, data)
    }

    open spec fn on_read(s: Relay<B::State>, addr: u8, data: Seq<u8>, len: usize) -> Ran<
        Relay<B::State>,
        Seq<u8>,
    > {
        relay_read::<B>(s, addr, data, len)
    }

    open spec fn on_delay(s: Relay<B::State>, ms: u64) -> Relay<B::State> {
        Relay { bus: B::on_delay(s.bus, ms), ..s }
    }

    fn write(&mut self, addr: u8, data: &[u8]) -> (r: Result<(), Error>) {
        if data.len() == 0 || data.len() > 253 {
            return Err(error("bad TC90522 relay write length"));
        }
        let mut b: Vec<u8> = Vec::new();
        b.push(0xfe);
        b.push(addr << 1);
        b.extend_from_slice(data);
        assert(b@ =~= seq![0xfeu8].push(addr << 1) + data@);
        self.i2c.write(self.addr, b.as_slice())
    }

    fn write_read(&mut self, addr: u8, data: &[u8], len: usize) -> (r: Result<Vec<u8>, Error>) {
        if len == 0 {
            return Err(error("empty TC90522 relay read"));
        }
        match self.write(addr, data) {
            Ok(_) => {},
            Err(e) => return Err(e),
        }
        let mut b: Vec<u8> = Vec::new();
        b.push(0xfe);
        b.push((addr << 1) | 0x01);
        self.i2c.write_read(self.addr, b.as_slice(), len)
    }

    fn delay_ms(&mut self, ms: u64) {
        self.i2c.delay_ms(ms);
    }
}

/// What writing `(reg, value)` pairs does and gives, if nothing failed before it.
#[verifier::opaque]
pub open spec fn regs_then<B: I2c>(p: Ran<B::State, ()>, addr: u8, regs: Seq<(u8, u8)>) -> Ran<
    B::State,
    (),
> {
    match p.1 {
        Err(e) => (p.0, Err(e)),
        Ok(_) => written::<B>(p.0, addr, regs),
    }
}

impl Tc90522 {
    /// Writes `(reg, value)` pairs in order, unless something failed before.
    pub fn regs_if_ok<B: I2c>(
        &self,
        i2c: &mut B,
        before: Result<(), Error>,
        regs: &[(u8, u8)],
    ) -> (r: Result<(), Error>)
        ensures
            (final(i2c).state(), r) == regs_then::<B>(
                (old(i2c).state(), before),
                self.addr,
                regs@,
            ),
    {
        reveal(regs_then);
        match before {
            Ok(_) => self.write_multiple_regs(i2c, regs),
            Err(e) => Err(e),
        }
    }

    /// Switches the AGC of the ISDB-S side, unless something failed before.
    pub fn agc_s_if_ok<B: I2c>(&self, i2c: &mut B, before: Result<(), Error>, on: bool) -> (r:
        Result<(), Error>)
        ensures
            (final(i2c).state(), r) == regs_then::<B>(
                (old(i2c).state(), before),
                self.addr,
                agc_s_regs(self.is_secondary, on),
            ),
    {
        reveal(regs_then);
        match before {
            Ok(_) => self.set_agc_s(i2c, on),
            Err(e) => Err(e),
        }
    }

    /// Switches the AGC of the ISDB-T side, unless something failed before.
    pub fn agc_t_if_ok<B: I2c>(&self, i2c: &mut B, before: Result<(), Error>, on: bool) -> (r:
        Result<(), Error>)
        ensures
            (final(i2c).state(), r) == regs_then::<B>(
                (old(i2c).state(), before),
                self.addr,
                agc_t_regs(on),
            ),
    {
        reveal(regs_then);
        match before {
            Ok(_) => self.set_agc_t(i2c, on),
            Err(e) => Err(e),
        }
    }

    /// Puts the ISDB-S side to sleep or wakes it up, unless something failed
    /// before.
    pub fn sleep_s_if_ok<B: I2c>(&self, i2c: &mut B, before: Result<(), Error>, sleep: bool) -> (r:
        Result<(), Error>)
        ensures
            (final(i2c).state(), r) == regs_then::<B>(
                (old(i2c).state(), before),
                self.addr,
                sleep_s_regs(sleep),
            ),
    {
        reveal(regs_then);
        match before {
            Ok(_) => self.sleep_s(i2c, sleep),
            Err(e) => Err(e),
        }
    }

    /// Switches the TS pins of the ISDB-S side, unless something failed before.
    pub fn ts_pins_s_if_ok<B: I2c>(&self, i2c: &mut B, before: Result<(), Error>, enable: bool) -> (
    r: Result<(), Error>)
        ensures
            (final(i2c).state(), r) == regs_then::<B>(
                (old(i2c).state(), before),
                self.addr,
                ts_pins_s_regs(enable),
            ),
    {
        reveal(regs_then);
        match before {
            Ok(_) => self.enable_ts_pins_s(i2c, enable),
            Err(e) => Err(e),
        }
    }
}

proof fn words_are_read<B: I2c>(
    s: B::State,
    addr: u8,
    reg: u8,
    file: spec_fn(B::State) -> Seq<u8>,
)
    requires
        shadow::shows_registers::<B>(addr, file),
        word_read::<B>(s, addr, reg).1 is Ok,
    ensures
        word_read::<B>(s, addr, reg).1->Ok_0 / 256 == file(s)[reg as int],
        word_read::<B>(s, addr, reg).1->Ok_0 % 256 == file(s)[reg + 1],
        file(word_read::<B>(s, addr, reg).0) == file(s),
{
}

proof fn pairs_land<B: I2c>(
    s: B::State,
    addr: u8,
    regs: Seq<(u8, u8)>,
    file: spec_fn(B::State) -> Seq<u8>,
    i: int,
)
    requires
        shadow::takes_writes::<B>(addr, file),
        file(s).len() == 0x100,
        written::<B>(s, addr, regs).1 is Ok,
        0 <= i < regs.len(),
        forall|j: int| i < j < regs.len() ==> (#[trigger] regs[j]).0 != regs[i].0,
    ensures
        file(written::<B>(s, addr, regs).0).len() == 0x100,
        file(written::<B>(s, addr, regs).0)[regs[i].0 as int] == regs[i].1,
    decreases regs.len(),
{
    let rest = regs.skip(1);
    let s1 = reg_written::<B>(s, addr, regs[0].0, regs[0].1).0;
    if i > 0 {
        assert forall|j: int| i - 1 < j < rest.len() implies (#[trigger] rest[j]).0 != rest[i
            - 1].0 by {
            assert(rest[j] == regs[j + 1]);
        }
        pairs_land::<B>(s1, addr, rest, file, i - 1);
    } else {
        assert forall|j: int| 0 <= j < rest.len() implies (#[trigger] rest[j]).0
            != regs[0].0 by {
            assert(rest[j] == regs[j + 1]);
        }
        others_stay::<B>(s1, addr, rest, file, regs[0].0 as int);
    }
}

proof fn others_stay<B: I2c>(
    s: B::State,
    addr: u8,
    regs: Seq<(u8, u8)>,
    file: spec_fn(B::State) -> Seq<u8>,
    r: int,
)
    requires
        shadow::takes_writes::<B>(addr, file),
        file(s).len() == 0x100,
        written::<B>(s, addr, regs).1 is Ok,
        0 <= r < 0x100,
        forall|j: int| 0 <= j < regs.len() ==> (#[trigger] regs[j]).0 != r,
    ensures
        file(written::<B>(s, addr, regs).0).len() == 0x100,
        file(written::<B>(s, addr, regs).0)[r] == file(s)[r],
    decreases regs.len(),
{
    if regs.len() > 0 {
        let rest = regs.skip(1);
        assert forall|j: int| 0 <= j < rest.len() implies (#[trigger] rest[j]).0 != r by {
            assert(rest[j] == regs[j + 1]);
        }
        others_stay::<B>(
            reg_written::<B>(s, addr, regs[0].0, regs[0].1).0,
            addr,
            rest,
            file,
            r,
        );
    }
}

/// A TSID that is set stands in registers 0x8f and 0x90, the upper byte first.
pub proof fn tsid_lands<B: I2c>(
    s: B::State,
    addr: u8,
    tsid: u16,
    file: spec_fn(B::State) -> Seq<u8>,
)
    requires
        shadow::takes_writes::<B>(addr, file),
        file(s).len() == 0x100,
        regs_written::<B>(s, addr, 0x8f, tsid_bytes(tsid)).1 is Ok,
    ensures
        ({
            let left = file(regs_written::<B>(s, addr, 0x8f, tsid_bytes(tsid)).0);
            left[0x8f] * 256 + left[0x90] == tsid
        }),
{
}

/// What the ISDB-S side tells is what its registers hold: the TSID in 0xe6 and 0xe7, the
/// C/N in 0xbc and 0xbd, the upper byte first, and the lock in bit 4 of 0xc3, which is
/// clear when it is locked.
pub proof fn satellite_side_is_read<B: I2c>(
    s: B::State,
    addr: u8,
    file: spec_fn(B::State) -> Seq<u8>,
)
    requires
        shadow::shows_registers::<B>(addr, file),
    ensures
        word_read::<B>(s, addr, 0xe6).1 matches Ok(tsid) ==> tsid == file(s)[0xe6] * 256 + file(
            s,
        )[0xe7],
        word_read::<B>(s, addr, 0xbc).1 matches Ok(cn) ==> cn == file(s)[0xbc] * 256 + file(
            s,
        )[0xbd],
        locked_s::<B>(s, addr).1 matches Ok(locked) ==> locked == (file(s)[0xc3] / 16 % 2 == 0),
{
    if word_read::<B>(s, addr, 0xe6).1 is Ok {
        words_are_read::<B>(s, addr, 0xe6, file);
    }
    if word_read::<B>(s, addr, 0xbc).1 is Ok {
        words_are_read::<B>(s, addr, 0xbc, file);
    }
    let v = file(s)[0xc3];
    assert((v & 0x10 == 0) == (v / 16 % 2 == 0)) by (bit_vector);
}

/// What the ISDB-T side tells is what its registers hold: the C/N in 0x8b to 0x8d, the
/// upper byte first, and the lock, which needs bits 3 and 5 of 0x80 clear and the lower
/// half of 0xb0 at 8 or more.
pub proof fn terrestrial_side_is_read<B: I2c>(
    s: B::State,
    addr: u8,
    file: spec_fn(B::State) -> Seq<u8>,
)
    requires
        shadow::shows_registers::<B>(addr, file),
    ensures
        cndat_t::<B>(s, addr).1 matches Ok(cn) ==> cn == file(s)[0x8b] * 0x1_0000 + file(s)[0x8c]
            * 0x100 + file(s)[0x8d],
        locked_t::<B>(s, addr).1 ==> file(s)[0x80] / 8 % 2 == 0 && file(s)[0x80] / 32 % 2 == 0
            && file(s)[0xb0] % 16 >= 8,
        ({
            let (s1, r1) = B::on_read(s, addr, seq![0x80u8], 1);
            let (s2, r2) = B::on_read(s1, addr, seq![0xb0u8], 1);
            r1 is Ok && r2 is Ok && file(s)[0x80] / 8 % 2 == 0 && file(s)[0x80] / 32 % 2 == 0
                && file(s)[0xb0] % 16 >= 8 ==> locked_t::<B>(s, addr).1
        }),
{
    let v = file(s)[0x80];
    let w = file(s)[0xb0];
    assert((v & 0x28 == 0) == (v / 8 % 2 == 0 && v / 32 % 2 == 0)) by (bit_vector);
    assert(w & 0x0f == w % 16) by (bit_vector);
}

/// What is relayed to a chip at an address of 7 bits is sent behind 0xfe and twice that
/// address, and one more to read.
pub proof fn relay_addresses_the_tuner<B: I2c>(
    t: Relay<B::State>,
    addr: u8,
    data: Seq<u8>,
    len: usize,
)
    requires
        addr < 0x80,
        1 <= data.len() <= 253,
        len > 0,
    ensures
        ({
            let (s1, r1) = B::on_write(t.bus, t.addr, seq![0xfeu8, (2 * addr) as u8] + data);
            let (s2, r2) = B::on_read(s1, t.addr, seq![0xfeu8, (2 * addr + 1) as u8], len);
            &&& relay_written::<B>(t, addr, data) == (Relay { bus: s1, addr: t.addr }, r1)
            &&& r1 is Ok ==> relay_read::<B>(t, addr, data, len) == (
                Relay { bus: s2, addr: t.addr },
                r2,
            )
            &&& r1 matches Err(e) ==> relay_read::<B>(t, addr, data, len) == (
                Relay { bus: s1, addr: t.addr },
                Err::<Seq<u8>, Error>(e),
            )
        }),
{
    assert(addr << 1 == 2 * addr && (addr << 1) | 0x01 == 2 * addr + 1) by (bit_vector)
        requires
            addr < 0x80,
    ;
    assert(seq![0xfeu8, (2 * addr) as u8] =~= seq![0xfeu8].push(addr << 1));
    assert(seq![0xfeu8, (2 * addr + 1) as u8] =~= seq![0xfeu8].push((addr << 1) | 0x01));
}

/// The sides of the demodulator are switched by their registers: asleep, awake, the AGC
/// on and off, and the TS pins on and off each leave what the chip takes for it.
pub proof fn switches_land<B: I2c>(
    s: B::State,
    addr: u8,
    secondary: bool,
    on: bool,
    file: spec_fn(B::State) -> Seq<u8>,
)
    requires
        shadow::takes_writes::<B>(addr, file),
        file(s).len() == 0x100,
    ensures
        ({
            let (s1, r1) = written::<B>(s, addr, sleep_s_regs(on));
            r1 is Ok ==> (file(s1)[0x13], file(s1)[0x17]) == (if on {
                (0x80u8, 0xffu8)
            } else {
                (0u8, 0u8)
            })
        }),
        ({
            let (s1, r1) = written::<B>(s, addr, ts_pins_s_regs(on));
            r1 is Ok ==> (file(s1)[0x1c], file(s1)[0x1f]) == (if on {
                (0u8, 0u8)
            } else {
                (0x80u8, 0x22u8)
            })
        }),
        ({
            let (s1, r1) = written::<B>(s, addr, agc_t_regs(on));
            r1 is Ok ==> file(s1)[0x23] == (if on {
                0x4cu8
            } else {
                0x4du8
            }) && file(s1)[0x01] == 0x50 && file(s1)[0x20] == 0 && file(s1)[0x25] == 0
        }),
        ({
            let (s1, r1) = written::<B>(s, addr, agc_s_regs(secondary, on));
            r1 is Ok ==> (file(s1)[0x0a], file(s1)[0x10], file(s1)[0x11], file(s1)[0x03]) == (match (
                secondary,
                on,
            ) {
                (false, true) => (0xffu8, 0xb2u8, 0u8, 1u8),
                (false, false) => (0u8, 0xb0u8, 2u8, 1u8),
                (true, true) => (0xffu8, 0x32u8, 0u8, 1u8),
                (true, false) => (0u8, 0x30u8, 2u8, 1u8),
            })
        }),
{
    assert(0xb0u8 | 0x02 == 0xb2u8 && 0x30u8 | 0x02 == 0x32u8) by (bit_vector);
    if written::<B>(s, addr, sleep_s_regs(on)).1 is Ok {
        pairs_land::<B>(s, addr, sleep_s_regs(on), file, 0);
        pairs_land::<B>(s, addr, sleep_s_regs(on), file, 1);
    }
    if written::<B>(s, addr, ts_pins_s_regs(on)).1 is Ok {
        pairs_land::<B>(s, addr, ts_pins_s_regs(on), file, 0);
        pairs_land::<B>(s, addr, ts_pins_s_regs(on), file, 1);
    }
    if written::<B>(s, addr, agc_t_regs(on)).1 is Ok {
        pairs_land::<B>(s, addr, agc_t_regs(on), file, 0);
        pairs_land::<B>(s, addr, agc_t_regs(on), file, 1);
        pairs_land::<B>(s, addr, agc_t_regs(on), file, 2);
        pairs_land::<B>(s, addr, agc_t_regs(on), file, 3);
    }
    if written::<B>(s, addr, agc_s_regs(secondary, on)).1 is Ok {
        pairs_land::<B>(s, addr, agc_s_regs(secondary, on), file, 0);
        pairs_land::<B>(s, addr, agc_s_regs(secondary, on), file, 1);
        pairs_land::<B>(s, addr, agc_s_regs(secondary, on), file, 2);
        pairs_land::<B>(s, addr, agc_s_regs(secondary, on), file, 3);
    }
}

} // verus!
