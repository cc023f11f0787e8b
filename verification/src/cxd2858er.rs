//! Sony CXD2858ER, the ISDB-T/S tuner, reached through the repeater of the
//! demodulator in front of it. The crystal is 16 MHz and both LNAs are on, as on
//! every model using it.

use vstd::prelude::*;

use crate::cxd2856er;
use crate::cxd2856er::{Cxd2856er, Mode};
use crate::error::{error, Error};
use crate::shadow;
use crate::traits;
use crate::traits::{bits_if_ok, block_if_ok, delay_if_ok, reg_if_ok, I2c, Ran};

verus! {

pub const ADDR: u8 = 0x60;

#[derive(Clone, Copy, Debug, PartialEq, Eq, Structural)]
pub struct Cxd2858er {
    /// The system it is set up for, if any.
    pub mode: Option<Mode>,
}

impl Default for Cxd2858er {
    fn default() -> (r: Self)
        ensures
            r == (Cxd2858er { mode: None }),
    {
        Cxd2858er { mode: None }
    }
}

/// What reading a register does and gives, if nothing failed before it.
pub open spec fn read_then<B: I2c>(p: Ran<B::State, ()>, reg: u8) -> Ran<B::State, u8> {
    match p.1 {
        Err(e) => (p.0, Err(e)),
        Ok(_) => {
            let (s1, r) = B::on_read(p.0, ADDR, seq![reg], 1);
            match r {
                Err(e) => (s1, Err(e)),
                Ok(b) => (s1, Ok(b[0])),
            }
        },
    }
}

fn read_if_ok<B: I2c>(i2c: &mut B, before: Result<(), Error>, reg: u8) -> (r: Result<u8, Error>)
    ensures
        (final(i2c).state(), r) == read_then::<B>((old(i2c).state(), before), reg),
{
    match before {
        Ok(_) => {},
        Err(e) => return Err(e),
    }
    let mut which: Vec<u8> = Vec::new();
    which.push(reg);
    match i2c.write_read(ADDR, which.as_slice(), 1) {
        Ok(b) => Ok(b[0]),
        Err(e) => Err(e),
    }
}

/// The first writes of the power-on sequence.
pub open spec fn power_begun<B: I2c>(s: B::State) -> Ran<B::State, ()> {
    let p = traits::reg_then::<B>((s, Ok(())), ADDR, 0x01, 0x00);
    let p = traits::reg_then::<B>(p, ADDR, 0x67, 0x00);
    let p = traits::reg_then::<B>(p, ADDR, 0x43, 0x07);
    let p = traits::block_then::<B>(p, ADDR, 0x5e, seq![0x15, 0x00, 0x00]);
    let p = traits::reg_then::<B>(p, ADDR, 0x0c, 0x14);
    let p = traits::block_then::<B>(p, ADDR, 0x99, seq![0x7a, 0x01]);
    let p = traits::block_then::<B>(
        p,
        ADDR,
        0x81,
        seq![
            0x10,
            0x84,
            0xa6,
            0x00,
            0x00,
            0x00,
            0xc4,
            0x40,
            0x10,
            0x00,
            0x45,
            0x75,
            0x07,
            0x1c,
            0x3f,
            0x02,
            0x10,
            0x20,
            0x0a,
            0x00,
        ],
    );
    let p = traits::reg_then::<B>(p, ADDR, 0x9b, 0x00);
    traits::delay_then::<B>(p, 10)
}

/// The last writes of the power-on sequence, with what register 0x19 held.
pub open spec fn power_ended<B: I2c>(s: B::State, value: u8) -> Ran<B::State, ()> {
    let p = traits::reg_then::<B>((s, Ok(())), ADDR, 0x95, (value & 0xf0) >> 4);
    let p = traits::reg_then::<B>(p, ADDR, 0x74, 0x02);
    let p = traits::reg_then::<B>(p, ADDR, 0x88, 0x00);
    let p = traits::reg_then::<B>(p, ADDR, 0x87, 0xc0);
    let p = traits::reg_then::<B>(p, ADDR, 0x80, 0x01);
    traits::block_then::<B>(p, ADDR, 0x41, seq![0x07, 0x00])
}

/// What powering the tuner on does and gives.
pub open spec fn powered<B: I2c>(s: B::State) -> Ran<B::State, ()> {
    let (s1, r1) = read_then::<B>(power_begun::<B>(s), 0x1a);
    match r1 {
        Err(e) => (s1, Err(e)),
        Ok(v) => if v != 0x00 {
            (s1, Err(error("CXD2858ER did not power on")))
        } else {
            let p = traits::block_then::<B>((s1, Ok(())), ADDR, 0x17, seq![0x90, 0x06]);
            let (s2, r2) = read_then::<B>(traits::delay_then::<B>(p, 1), 0x19);
            match r2 {
                Err(e) => (s2, Err(e)),
                Ok(v) => power_ended::<B>(s2, v),
            }
        },
    }
}

fn power_on<B: I2c>(i2c: &mut B) -> (r: Result<(), Error>)
    ensures
        (final(i2c).state(), r) == powered::<B>(old(i2c).state()),
{
    // T mode.
    let r = reg_if_ok(i2c, Ok(()), ADDR, 0x01, 0x00);
    let r = reg_if_ok(i2c, r, ADDR, 0x67, 0x00);
    let r = reg_if_ok(i2c, r, ADDR, 0x43, 0x07);
    let r = block_if_ok(i2c, r, ADDR, 0x5e, &[0x15, 0x00, 0x00]);
    let r = reg_if_ok(i2c, r, ADDR, 0x0c, 0x14);
    let r = block_if_ok(i2c, r, ADDR, 0x99, &[0x7a, 0x01]);
    let r = block_if_ok(
        i2c,
        r,
        ADDR,
        0x81,
        &[
            0x10,
            0x84,
            0xa6,
            0x00,
            0x00,
            0x00,
            0xc4,
            0x40,
            0x10,
            0x00,
            0x45,
            0x75,
            0x07,
            0x1c,
            0x3f,
            0x02,
            0x10,
            0x20,
            0x0a,
            0x00,
        ],
    );
    let r = reg_if_ok(i2c, r, ADDR, 0x9b, 0x00);
    let r = delay_if_ok(i2c, r, 10);
    match read_if_ok(i2c, r, 0x1a) {
        Ok(v) => if v != 0x00 {
            return Err(error("CXD2858ER did not power on"));
        },
        Err(e) => return Err(e),
    }
    let r = block_if_ok(i2c, Ok(()), ADDR, 0x17, &[0x90, 0x06]);
    let r = delay_if_ok(i2c, r, 1);
    let value: u8 = match read_if_ok(i2c, r, 0x19) {
        Ok(v) => v,
        Err(e) => return Err(e),
    };
    let r = reg_if_ok(i2c, Ok(()), ADDR, 0x95, (value & 0xf0) >> 4);
    let r = reg_if_ok(i2c, r, ADDR, 0x74, 0x02);
    let r = reg_if_ok(i2c, r, ADDR, 0x88, 0x00);
    let r = reg_if_ok(i2c, r, ADDR, 0x87, 0xc0);
    let r = reg_if_ok(i2c, r, ADDR, 0x80, 0x01);
    block_if_ok(i2c, r, ADDR, 0x41, &[0x07, 0x00])
}

/// What stopping the tuner does and gives.
pub open spec fn stopped<B: I2c>(s: B::State, mode: Option<Mode>) -> Ran<B::State, ()> {
    match mode {
        None => (s, Ok(())),
        Some(Mode::T) => {
            let p = traits::reg_then::<B>((s, Ok(())), ADDR, 0x74, 0x02);
            let p = traits::bits_then::<B>(p, ADDR, 0x67, 0x00, 0xfe);
            let p = traits::block_then::<B>(p, ADDR, 0x5e, seq![0x15, 0x00, 0x00]);
            let p = traits::reg_then::<B>(p, ADDR, 0x88, 0x00);
            traits::reg_then::<B>(p, ADDR, 0x87, 0xc0)
        },
        Some(Mode::S) => {
            let p = traits::reg_then::<B>((s, Ok(())), ADDR, 0x15, 0x02);
            let p = traits::reg_then::<B>(p, ADDR, 0x43, 0x07);
            let p = traits::block_then::<B>(p, ADDR, 0x0c, seq![0x14, 0x00, 0x00]);
            let p = traits::reg_then::<B>(p, ADDR, 0x01, 0x00);
            let p = traits::reg_then::<B>(p, ADDR, 0x05, 0x00);
            traits::reg_then::<B>(p, ADDR, 0x04, 0xc0)
        },
    }
}

/// What setting the tuner on an ISDB-T frequency does and gives: the frequency
/// goes in 20 bits, the lowest first.
pub open spec fn frequency_t<B: I2c>(p: Ran<B::State, ()>, khz: u32) -> Ran<B::State, ()> {
    let p = traits::reg_then::<B>(p, ADDR, 0x01, 0x00);
    let p = traits::reg_then::<B>(p, ADDR, 0x74, 0x02);
    let p = traits::block_then::<B>(p, ADDR, 0x87, seq![0xc4, 0x40]);
    let p = traits::block_then::<B>(p, ADDR, 0x91, seq![0x10, 0x20]);
    let p = traits::block_then::<B>(p, ADDR, 0x9c, seq![0x00, 0x00]);
    let p = traits::block_then::<B>(
        p,
        ADDR,
        0x5e,
        seq![0xee, 0x02, 0x1e, 0x67, 0x02, 0xb4, 0x78, 0x08, 0x30],
    );
    let p = traits::bits_then::<B>(p, ADDR, 0x67, 0x00, 0x02);
    let p = traits::block_then::<B>(
        p,
        ADDR,
        0x68,
        seq![
            0x00,
            0x88,
            0x00,
            0x0b,
            0x22,
            0x00,
            0x17,
            0x1b,
            (khz % 0x100) as u8,
            (khz / 0x100 % 0x100) as u8,
            (khz / 0x1_0000 % 0x10) as u8,
            0xff,
            0x01,
            0x99,
            0x00,
            0x24,
            0x87,
        ],
    );
    let p = traits::delay_then::<B>(p, 50);
    let p = traits::reg_then::<B>(p, ADDR, 0x88, 0x00);
    traits::reg_then::<B>(p, ADDR, 0x87, 0xc0)
}

/// What setting the tuner on an ISDB-S intermediate frequency does and gives:
/// the frequency goes in 20 bits, in units of 4 kHz, the lowest first.
pub open spec fn frequency_s<B: I2c>(p: Ran<B::State, ()>, khz: u32) -> Ran<B::State, ()> {
    let f = (khz + 2) / 4;
    let p = traits::reg_then::<B>(p, ADDR, 0x15, 0x02);
    let p = traits::reg_then::<B>(p, ADDR, 0x43, 0x06);
    let p = traits::block_then::<B>(p, ADDR, 0x6a, seq![0x00, 0x00]);
    let p = traits::reg_then::<B>(p, ADDR, 0x75, 0x99);
    let p = traits::reg_then::<B>(p, ADDR, 0x9d, 0x00);
    let p = traits::reg_then::<B>(p, ADDR, 0x61, 0x07);
    let p = traits::reg_then::<B>(p, ADDR, 0x01, 0x01);
    let p = traits::block_then::<B>(
        p,
        ADDR,
        0x04,
        seq![
            0xc4,
            0x40,
            0x02,
            0x00,
            0xb4,
            0x78,
            0x08,
            0x30,
            0xff,
            0x02,
            0x1e,
            0x16,
            (f % 0x100) as u8,
            (f / 0x100 % 0x100) as u8,
            (f / 0x1_0000 % 0x10) as u8,
            0xff,
            0x00,
            0x01,
        ],
    );
    let p = traits::delay_then::<B>(p, 10);
    let p = traits::reg_then::<B>(p, ADDR, 0x05, 0x00);
    traits::reg_then::<B>(p, ADDR, 0x04, 0xc0)
}

/// What setting the tuner on a frequency does and gives: it is stopped first if
/// it was set up for the other system.
pub open spec fn frequency_set<B: I2c>(s: B::State, t: Cxd2858er, mode: Mode, khz: u32) -> (
    B::State,
    Cxd2858er,
    Result<(), Error>,
) {
    let other = t.mode is Some && t.mode != Some(mode);
    let (p1, t1) = if other {
        (stopped::<B>(s, t.mode), Cxd2858er { mode: None })
    } else {
        ((s, Ok(())), t)
    };
    match p1.1 {
        Err(e) => (p1.0, t1, Err(e)),
        Ok(_) => {
            let p2 = if mode == Mode::T {
                frequency_t::<B>((p1.0, Ok(())), khz)
            } else {
                frequency_s::<B>((p1.0, Ok(())), khz)
            };
            match p2.1 {
                Err(e) => (p2.0, t1, Err(e)),
                Ok(_) => (p2.0, Cxd2858er { mode: Some(mode) }, Ok(())),
            }
        },
    }
}

/// The repeater closed after something, whatever came of it; the first error counts.
pub open spec fn closed<B: I2c>(p: Ran<B::State, ()>, demod: Cxd2856er) -> Ran<B::State, ()> {
    let (s1, r1) = cxd2856er::gated::<B>(p.0, demod, false);
    (
        s1,
        if p.1 is Err {
            p.1
        } else {
            r1
        },
    )
}

/// Closes the repeater after `result` whatever it is, keeping the first error.
fn close<B: I2c>(i2c: &mut B, demod: &Cxd2856er, result: Result<(), Error>) -> (r: Result<
    (),
    Error,
>)
    ensures
        (final(i2c).state(), r) == closed::<B>((old(i2c).state(), result), *demod),
{
    let shut: Result<(), Error> = demod.gate(i2c, false);
    match result {
        Ok(_) => shut,
        Err(e) => Err(e),
    }
}

/// What tuning does and gives, through the repeater.
pub open spec fn tuned<B: I2c>(
    s: B::State,
    t: Cxd2858er,
    demod: Cxd2856er,
    mode: Mode,
    khz: u32,
) -> (B::State, Cxd2858er, Result<(), Error>) {
    let p1 = cxd2856er::gated::<B>(s, demod, true);
    match p1.1 {
        Err(e) => (p1.0, t, Err(e)),
        Ok(_) => {
            let (s2, t2, r2) = frequency_set::<B>(p1.0, t, mode, khz);
            let p3 = closed::<B>((s2, r2), demod);
            (p3.0, t2, p3.1)
        },
    }
}

impl Cxd2858er {
    pub fn init<B: I2c>(&mut self, i2c: &mut B, demod: &Cxd2856er) -> (r: Result<(), Error>)
        ensures
            final(self).mode is None,
            ({
                let p = cxd2856er::gated::<B>(old(i2c).state(), *demod, true);
                match p.1 {
                    Err(e) => (final(i2c).state(), r) == (p.0, Err::<(), Error>(e)),
                    Ok(_) => (final(i2c).state(), r) == closed::<B>(powered::<B>(p.0), *demod),
                }
            }),
    {
        self.mode = None;
        match demod.gate(i2c, true) {
            Ok(_) => {},
            Err(e) => return Err(e),
        }
        let result: Result<(), Error> = power_on(i2c);
        close(i2c, demod, result)
    }

    pub fn term<B: I2c>(&mut self, i2c: &mut B, demod: &Cxd2856er) -> (r: Result<(), Error>)
        ensures
            old(self).mode is None ==> *final(self) == *old(self) && final(i2c).state() == old(
                i2c,
            ).state() && r == Ok::<(), Error>(()),
            old(self).mode is Some ==> ({
                let p = cxd2856er::gated::<B>(old(i2c).state(), *demod, true);
                match p.1 {
                    Err(e) => (final(i2c).state(), *final(self), r) == (
                        p.0,
                        *old(self),
                        Err::<(), Error>(e),
                    ),
                    Ok(_) => {
                        &&& final(self).mode is None
                        &&& (final(i2c).state(), r) == closed::<B>(
                            stopped::<B>(p.0, old(self).mode),
                            *demod,
                        )
                    },
                }
            }),
    {
        if self.mode.is_none() {
            return Ok(());
        }
        match demod.gate(i2c, true) {
            Ok(_) => {},
            Err(e) => return Err(e),
        }
        let result: Result<(), Error> = self.stop(i2c);
        close(i2c, demod, result)
    }

    fn stop<B: I2c>(&mut self, i2c: &mut B) -> (r: Result<(), Error>)
        ensures
            final(self).mode is None,
            (final(i2c).state(), r) == stopped::<B>(old(i2c).state(), old(self).mode),
    {
        let mode: Option<Mode> = self.mode;
        self.mode = None;
        match mode {
            Some(Mode::T) => {
                let r = reg_if_ok(i2c, Ok(()), ADDR, 0x74, 0x02);
                let r = bits_if_ok(i2c, r, ADDR, 0x67, 0x00, 0xfe);
                let r = block_if_ok(i2c, r, ADDR, 0x5e, &[0x15, 0x00, 0x00]);
                let r = reg_if_ok(i2c, r, ADDR, 0x88, 0x00);
                reg_if_ok(i2c, r, ADDR, 0x87, 0xc0)
            },
            Some(Mode::S) => {
                let r = reg_if_ok(i2c, Ok(()), ADDR, 0x15, 0x02);
                let r = reg_if_ok(i2c, r, ADDR, 0x43, 0x07);
                let r = block_if_ok(i2c, r, ADDR, 0x0c, &[0x14, 0x00, 0x00]);
                let r = reg_if_ok(i2c, r, ADDR, 0x01, 0x00);
                let r = reg_if_ok(i2c, r, ADDR, 0x05, 0x00);
                reg_if_ok(i2c, r, ADDR, 0x04, 0xc0)
            },
            None => Ok(()),
        }
    }

    /// Tunes to an ISDB-T frequency in kHz, 6 MHz wide.
    pub fn tune_t<B: I2c>(&mut self, i2c: &mut B, demod: &Cxd2856er, khz: u32) -> (r: Result<
        (),
        Error,
    >)
        ensures
            (final(i2c).state(), *final(self), r) == tuned::<B>(
                old(i2c).state(),
                *old(self),
                *demod,
                Mode::T,
                khz,
            ),
    {
        match demod.gate(i2c, true) {
            Ok(_) => {},
            Err(e) => return Err(e),
        }
        let result: Result<(), Error> = self.set_t(i2c, khz);
        close(i2c, demod, result)
    }

    fn set_t<B: I2c>(&mut self, i2c: &mut B, khz: u32) -> (r: Result<(), Error>)
        ensures
            (final(i2c).state(), *final(self), r) == frequency_set::<B>(
                old(i2c).state(),
                *old(self),
                Mode::T,
                khz,
            ),
    {
        match self.mode {
            Some(Mode::S) => match self.stop(i2c) {
                Ok(_) => {},
                Err(e) => return Err(e),
            },
            _ => {},
        }
        let r = reg_if_ok(i2c, Ok(()), ADDR, 0x01, 0x00);
        let r = reg_if_ok(i2c, r, ADDR, 0x74, 0x02);
        let r = block_if_ok(i2c, r, ADDR, 0x87, &[0xc4, 0x40]);
        let r = block_if_ok(i2c, r, ADDR, 0x91, &[0x10, 0x20]);
        let r = block_if_ok(i2c, r, ADDR, 0x9c, &[0x00, 0x00]);
        let r = block_if_ok(
            i2c,
            r,
            ADDR,
            0x5e,
            &[0xee, 0x02, 0x1e, 0x67, 0x02, 0xb4, 0x78, 0x08, 0x30],
        );
        let r = bits_if_ok(i2c, r, ADDR, 0x67, 0x00, 0x02);
        let r = block_if_ok(
            i2c,
            r,
            ADDR,
            0x68,
            &[
                0x00,
                0x88,
                0x00,
                0x0b,
                0x22,
                0x00,
                0x17,
                0x1b,
                (khz % 0x100) as u8,
                (khz / 0x100 % 0x100) as u8,
                (khz / 0x1_0000 % 0x10) as u8,
                0xff,
                0x01,
                0x99,
                0x00,
                0x24,
                0x87,
            ],
        );
        let r = delay_if_ok(i2c, r, 50);
        let r = reg_if_ok(i2c, r, ADDR, 0x88, 0x00);
        match reg_if_ok(i2c, r, ADDR, 0x87, 0xc0) {
            Ok(_) => {},
            Err(e) => return Err(e),
        }
        self.mode = Some(Mode::T);
        Ok(())
    }

    /// Tunes to an ISDB-S intermediate frequency in kHz.
    pub fn tune_s<B: I2c>(&mut self, i2c: &mut B, demod: &Cxd2856er, khz: u32) -> (r: Result<
        (),
        Error,
    >)
        requires
            khz <= u32::MAX - 2,
        ensures
            (final(i2c).state(), *final(self), r) == tuned::<B>(
                old(i2c).state(),
                *old(self),
                *demod,
                Mode::S,
                khz,
            ),
    {
        match demod.gate(i2c, true) {
            Ok(_) => {},
            Err(e) => return Err(e),
        }
        let result: Result<(), Error> = self.set_s(i2c, khz);
        close(i2c, demod, result)
    }

    fn set_s<B: I2c>(&mut self, i2c: &mut B, khz: u32) -> (r: Result<(), Error>)
        requires
            khz <= u32::MAX - 2,
        ensures
            (final(i2c).state(), *final(self), r) == frequency_set::<B>(
                old(i2c).state(),
                *old(self),
                Mode::S,
                khz,
            ),
    {
        match self.mode {
            Some(Mode::T) => match self.stop(i2c) {
                Ok(_) => {},
                Err(e) => return Err(e),
            },
            _ => {},
        }
        let f: u32 = (khz + 2) / 4;
        let r = reg_if_ok(i2c, Ok(()), ADDR, 0x15, 0x02);
        let r = reg_if_ok(i2c, r, ADDR, 0x43, 0x06);
        let r = block_if_ok(i2c, r, ADDR, 0x6a, &[0x00, 0x00]);
        let r = reg_if_ok(i2c, r, ADDR, 0x75, 0x99);
        let r = reg_if_ok(i2c, r, ADDR, 0x9d, 0x00);
        let r = reg_if_ok(i2c, r, ADDR, 0x61, 0x07);
        let r = reg_if_ok(i2c, r, ADDR, 0x01, 0x01);
        let r = block_if_ok(
            i2c,
            r,
            ADDR,
            0x04,
            &[
                0xc4,
                0x40,
                0x02,
                0x00,
                0xb4,
                0x78,
                0x08,
                0x30,
                0xff,
                0x02,
                0x1e,
                0x16,
                (f % 0x100) as u8,
                (f / 0x100 % 0x100) as u8,
                (f / 0x1_0000 % 0x10) as u8,
                0xff,
                0x00,
                0x01,
            ],
        );
        let r = delay_if_ok(i2c, r, 10);
        let r = reg_if_ok(i2c, r, ADDR, 0x05, 0x00);
        match reg_if_ok(i2c, r, ADDR, 0x04, 0xc0) {
            Ok(_) => {},
            Err(e) => return Err(e),
        }
        self.mode = Some(Mode::S);
        Ok(())
    }
}

/// The 20-bit number that three registers hold, the lowest first.
pub open spec fn number_in(file: Seq<u8>, reg: int) -> int {
    file[reg] + 0x100 * file[reg + 1] + 0x1_0000 * (file[reg + 2] & 0x0f)
}

proof fn digits_make_the_number(f: int)
    requires
        0 <= f < 0x10_0000,
    ensures
        ((f % 0x100) as u8) + 0x100 * ((f / 0x100 % 0x100) as u8) + 0x1_0000 * (((f / 0x1_0000
            % 0x10) as u8) & 0x0f) == f,
{
    let top = (f / 0x1_0000 % 0x10) as u8;
    assert(top & 0x0f == top) by (bit_vector)
        requires
            top < 0x10,
    ;
}

/// A tuner that is set on an ISDB-S frequency holds it in its registers from 0x10 on, in
/// steps of 4 kHz, to within half a step.
proof fn satellite_frequency_lands<B: I2c>(
    p: Ran<B::State, ()>,
    khz: u32,
    file: spec_fn(B::State) -> Seq<u8>,
)
    requires
        khz <= 4_194_301,
        shadow::takes_writes::<B>(ADDR, file),
        file(p.0).len() == 0x100,
        frequency_s::<B>(p, khz).1 is Ok,
    ensures
        p.1 is Ok,
        file(frequency_s::<B>(p, khz).0).len() == 0x100,
        -2 <= number_in(file(frequency_s::<B>(p, khz).0), 0x10) * 4 - khz <= 2,
        file(frequency_s::<B>(p, khz).0)[0x01] == 1,
{
    broadcast use {
        crate::shadow::register_lands,
        crate::shadow::block_lands,
        crate::shadow::delay_changes_nothing,
    };

    digits_make_the_number((khz + 2) / 4);
}

/// A tuner that is set on an ISDB-T frequency holds it in its registers from 0x70 on, in
/// kHz.
proof fn terrestrial_frequency_lands<B: I2c>(
    p: Ran<B::State, ()>,
    khz: u32,
    file: spec_fn(B::State) -> Seq<u8>,
)
    requires
        khz < 0x10_0000,
        shadow::takes_writes::<B>(ADDR, file),
        shadow::shows_registers::<B>(ADDR, file),
        file(p.0).len() == 0x100,
        frequency_t::<B>(p, khz).1 is Ok,
    ensures
        p.1 is Ok,
        file(frequency_t::<B>(p, khz).0).len() == 0x100,
        number_in(file(frequency_t::<B>(p, khz).0), 0x70) == khz,
        file(frequency_t::<B>(p, khz).0)[0x01] == 0,
{
    broadcast use {
        crate::shadow::register_lands,
        crate::shadow::block_lands,
        crate::shadow::bits_land,
        crate::shadow::delay_changes_nothing,
    };

    digits_make_the_number(khz as int);
}

/// A tuner that was tuned is on the frequency asked for: the number in its registers is
/// it, in kHz for ISDB-T and in steps of 4 kHz, to within half a step, for ISDB-S, and
/// register 1 says which of the two it is.
pub proof fn tuning_lands_on_the_frequency<B: I2c>(
    s: B::State,
    t: Cxd2858er,
    demod: Cxd2856er,
    mode: Mode,
    khz: u32,
    file: spec_fn(B::State) -> Seq<u8>,
)
    requires
        mode == Mode::T ==> khz < 0x10_0000,
        mode == Mode::S ==> khz <= 4_194_301,
        demod.slvx != ADDR,
        shadow::takes_writes::<B>(ADDR, file),
        shadow::shows_registers::<B>(ADDR, file),
        shadow::stands_alone::<B>(ADDR, file),
        forall|s: B::State| (#[trigger] file(s)).len() == 0x100,
        tuned::<B>(s, t, demod, mode, khz).2 is Ok,
    ensures
        ({
            let left = file(tuned::<B>(s, t, demod, mode, khz).0);
            match mode {
                Mode::T => left[0x01] == 0 && number_in(left, 0x70) == khz,
                Mode::S => left[0x01] == 1 && -2 <= number_in(left, 0x10) * 4 - khz <= 2,
            }
        }),
        tuned::<B>(s, t, demod, mode, khz).1.mode == Some(mode),
{
    let p1 = cxd2856er::gated::<B>(s, demod, true);
    let other = t.mode is Some && t.mode != Some(mode);
    let p2 = if other {
        stopped::<B>(p1.0, t.mode)
    } else {
        p1
    };
    if mode == Mode::T {
        terrestrial_frequency_lands::<B>((p2.0, Ok(())), khz, file);
    } else {
        satellite_frequency_lands::<B>((p2.0, Ok(())), khz, file);
    }
    let p3 = frequency_set::<B>(p1.0, t, mode, khz);
    assert(file(cxd2856er::gated::<B>(p3.0, demod, false).0) == file(p3.0)) by {
        reveal(traits::reg_then);
        reveal(traits::write_then);
    }
}

} // verus!
