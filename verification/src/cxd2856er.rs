//! Sony CXD2856ER, the ISDB-T/S demodulator.

use vstd::prelude::*;

use crate::error::Error;
use crate::traits;
use crate::traits::{bits_if_ok, block_if_ok, delay_if_ok, reg_if_ok, I2c, Ran};

verus! {

/// The system the demodulator runs.
#[derive(Clone, Copy, Debug, PartialEq, Eq, Structural)]
pub enum Mode {
    T,
    S,
}

#[derive(Clone, Copy, Debug, PartialEq, Eq, Structural)]
pub struct Cxd2856er {
    /// The address of the system registers.
    pub slvx: u8,
    /// The address of the demodulator registers.
    pub slvt: u8,
    /// The system it runs, or `None` asleep.
    pub mode: Option<Mode>,
}

/// The setting of the clock of the TS for a system.
pub open spec fn clock_bits(mode: Mode) -> u8 {
    if mode == Mode::T {
        0x02
    } else {
        0x00
    }
}

/// The system is started from a crystal of 24 MHz, with the tuner on the I2C of
/// the demodulator.
#[verifier::opaque]
pub open spec fn started<B: I2c>(p: Ran<B::State, ()>, c: Cxd2856er) -> Ran<
    B::State,
    (),
> {
    let p = traits::reg_then::<B>(p, c.slvx, 0x00, 0x00);
    let p = traits::reg_then::<B>(p, c.slvx, 0x10, 0x01);
    let p = traits::reg_then::<B>(p, c.slvx, 0x18, 0x01);
    let p = traits::reg_then::<B>(p, c.slvx, 0x28, 0x13);
    let p = traits::reg_then::<B>(p, c.slvx, 0x17, 0x01);
    let p = traits::reg_then::<B>(p, c.slvx, 0x1d, 0x00);
    let p = traits::reg_then::<B>(p, c.slvx, 0x14, 0x01);
    let p = traits::reg_then::<B>(p, c.slvx, 0x1c, 0x03);
    let p = traits::delay_then::<B>(p, 4);
    let p = traits::reg_then::<B>(p, c.slvx, 0x50, 0x00);
    let p = traits::delay_then::<B>(p, 1);
    let p = traits::reg_then::<B>(p, c.slvx, 0x10, 0x00);
    let p = traits::delay_then::<B>(p, 1);
    let p = traits::reg_then::<B>(p, c.slvx, 0x00, 0x00);
    let p = traits::reg_then::<B>(p, c.slvx, 0x1a, 0x01);
    p
}

/// The ISDB-T side is set up and started, 6 MHz wide.
#[verifier::opaque]
pub open spec fn wakeup_t_done<B: I2c>(p: Ran<B::State, ()>, c: Cxd2856er) -> Ran<
    B::State,
    (),
> {
    let p = traits::reg_then::<B>(p, c.slvx, 0x00, 0x00);
    let p = traits::reg_then::<B>(p, c.slvx, 0x17, 0x06);
    let p = traits::reg_then::<B>(p, c.slvt, 0x00, 0x00);
    let p = traits::reg_then::<B>(p, c.slvt, 0xa9, 0x00);
    let p = traits::reg_then::<B>(p, c.slvt, 0x2c, 0x01);
    let p = traits::reg_then::<B>(p, c.slvt, 0x4b, 0x74);
    let p = traits::reg_then::<B>(p, c.slvt, 0x49, 0x00);
    let p = traits::reg_then::<B>(p, c.slvx, 0x18, 0x00);
    let p = traits::reg_then::<B>(p, c.slvt, 0x00, 0x11);
    let p = traits::reg_then::<B>(p, c.slvt, 0x6a, 0x50);
    let p = traits::reg_then::<B>(p, c.slvt, 0x00, 0x10);
    let p = traits::reg_then::<B>(p, c.slvt, 0xa5, 0x01);
    let p = traits::reg_then::<B>(p, c.slvt, 0x00, 0x00);
    let p = traits::block_then::<B>(p, c.slvt, 0xce, seq![0x00, 0x00]);
    let p = traits::reg_then::<B>(p, c.slvt, 0x00, 0x10);
    let p = traits::reg_then::<B>(p, c.slvt, 0x69, 0x04);
    let p = traits::reg_then::<B>(p, c.slvt, 0x6b, 0x03);
    let p = traits::reg_then::<B>(p, c.slvt, 0x9d, 0x50);
    let p = traits::reg_then::<B>(p, c.slvt, 0xd3, 0x06);
    let p = traits::reg_then::<B>(p, c.slvt, 0xed, 0x00);
    let p = traits::reg_then::<B>(p, c.slvt, 0xe2, 0xce);
    let p = traits::reg_then::<B>(p, c.slvt, 0xf2, 0x13);
    let p = traits::reg_then::<B>(p, c.slvt, 0xde, 0x2e);
    let p = traits::reg_then::<B>(p, c.slvt, 0x00, 0x15);
    let p = traits::reg_then::<B>(p, c.slvt, 0xde, 0x02);
    let p = traits::reg_then::<B>(p, c.slvt, 0x00, 0x17);
    let p = traits::block_then::<B>(p, c.slvt, 0x38, seq![0x00, 0x03]);
    let p = traits::reg_then::<B>(p, c.slvt, 0x00, 0x1e);
    let p = traits::reg_then::<B>(p, c.slvt, 0x73, 0x68);
    let p = traits::reg_then::<B>(p, c.slvt, 0x00, 0x63);
    let p = traits::reg_then::<B>(p, c.slvt, 0x81, 0x00);
    let p = traits::reg_then::<B>(p, c.slvt, 0x00, 0x11);
    let p = traits::block_then::<B>(p, c.slvt, 0x33, seq![0x00, 0x03, 0x3b]);
    let p = traits::reg_then::<B>(p, c.slvt, 0x00, 0x60);
    let p = traits::block_then::<B>(p, c.slvt, 0xa8, seq![0xb7, 0x1b]);
    let p = traits::reg_then::<B>(p, c.slvt, 0x00, 0x10);
    let p = traits::block_then::<B>(p, c.slvt, 0x9f, seq![0x17, 0xa0, 0x80, 0x00, 0x00]);
    let p = traits::block_then::<B>(p, c.slvt, 0xa6, seq![0x31, 0xa8, 0x29, 0x9b, 0x27, 0x9c, 0x28, 0x9e, 0x29, 0xa4, 0x29, 0xa2, 0x29, 0xa8]);
    let p = traits::block_then::<B>(p, c.slvt, 0xb6, seq![0x12, 0xee, 0xef]);
    let p = traits::reg_then::<B>(p, c.slvt, 0xd7, 0x04);
    let p = traits::block_then::<B>(p, c.slvt, 0xd9, seq![0x1f, 0x79]);
    let p = traits::reg_then::<B>(p, c.slvt, 0x00, 0x12);
    let p = traits::reg_then::<B>(p, c.slvt, 0x71, 0x07);
    let p = traits::reg_then::<B>(p, c.slvt, 0x00, 0x15);
    let p = traits::reg_then::<B>(p, c.slvt, 0xbe, 0x02);
    let p = traits::reg_then::<B>(p, c.slvt, 0x00, 0x00);
    let p = traits::bits_then::<B>(p, c.slvt, 0x80, 0x08, 0x1f);
    p
}

/// The ISDB-S side is set up and started.
#[verifier::opaque]
pub open spec fn wakeup_s_done<B: I2c>(p: Ran<B::State, ()>, c: Cxd2856er) -> Ran<
    B::State,
    (),
> {
    let p = traits::reg_then::<B>(p, c.slvx, 0x00, 0x00);
    let p = traits::reg_then::<B>(p, c.slvx, 0x17, 0x0c);
    let p = traits::reg_then::<B>(p, c.slvt, 0x00, 0x00);
    let p = traits::reg_then::<B>(p, c.slvt, 0x2d, 0x00);
    let p = traits::reg_then::<B>(p, c.slvt, 0xa9, 0x00);
    let p = traits::reg_then::<B>(p, c.slvt, 0x2c, 0x01);
    let p = traits::reg_then::<B>(p, c.slvx, 0x28, 0x31);
    let p = traits::reg_then::<B>(p, c.slvt, 0x4b, 0x31);
    let p = traits::reg_then::<B>(p, c.slvt, 0x6a, 0x00);
    let p = traits::reg_then::<B>(p, c.slvx, 0x18, 0x00);
    let p = traits::reg_then::<B>(p, c.slvt, 0x00, 0x00);
    let p = traits::reg_then::<B>(p, c.slvt, 0x20, 0x01);
    let p = traits::block_then::<B>(p, c.slvt, 0xce, seq![0x00, 0x00]);
    let p = traits::reg_then::<B>(p, c.slvt, 0x00, 0xae);
    let p = traits::block_then::<B>(p, c.slvt, 0x20, seq![0x07, 0x37, 0x0a]);
    let p = traits::reg_then::<B>(p, c.slvt, 0x00, 0xa0);
    let p = traits::reg_then::<B>(p, c.slvt, 0xd7, 0x00);
    let p = traits::reg_then::<B>(p, c.slvt, 0x00, 0x00);
    let p = traits::bits_then::<B>(p, c.slvt, 0x80, 0x10, 0x1f);
    p
}

/// The demodulation is stopped.
#[verifier::opaque]
pub open spec fn sleep_head_done<B: I2c>(p: Ran<B::State, ()>, c: Cxd2856er) -> Ran<
    B::State,
    (),
> {
    let p = traits::reg_then::<B>(p, c.slvt, 0x00, 0x00);
    let p = traits::reg_then::<B>(p, c.slvt, 0xc3, 0x01);
    let p = traits::bits_then::<B>(p, c.slvt, 0x80, 0x1f, 0x1f);
    p
}

/// The ISDB-T side is shut down.
#[verifier::opaque]
pub open spec fn sleep_t_done<B: I2c>(p: Ran<B::State, ()>, c: Cxd2856er) -> Ran<
    B::State,
    (),
> {
    let p = traits::reg_then::<B>(p, c.slvt, 0x00, 0x10);
    let p = traits::reg_then::<B>(p, c.slvt, 0x69, 0x05);
    let p = traits::reg_then::<B>(p, c.slvt, 0x6b, 0x07);
    let p = traits::reg_then::<B>(p, c.slvt, 0x9d, 0x14);
    let p = traits::reg_then::<B>(p, c.slvt, 0xd3, 0x00);
    let p = traits::reg_then::<B>(p, c.slvt, 0xed, 0x01);
    let p = traits::reg_then::<B>(p, c.slvt, 0xe2, 0x4e);
    let p = traits::reg_then::<B>(p, c.slvt, 0xf2, 0x03);
    let p = traits::reg_then::<B>(p, c.slvt, 0xde, 0x32);
    let p = traits::reg_then::<B>(p, c.slvt, 0x00, 0x15);
    let p = traits::reg_then::<B>(p, c.slvt, 0xde, 0x03);
    let p = traits::reg_then::<B>(p, c.slvt, 0x00, 0x17);
    let p = traits::block_then::<B>(p, c.slvt, 0x38, seq![0x01, 0x00]);
    let p = traits::reg_then::<B>(p, c.slvt, 0x00, 0x1e);
    let p = traits::reg_then::<B>(p, c.slvt, 0x73, 0x00);
    let p = traits::reg_then::<B>(p, c.slvt, 0x00, 0x63);
    let p = traits::reg_then::<B>(p, c.slvt, 0x81, 0x01);
    let p = traits::reg_then::<B>(p, c.slvx, 0x00, 0x00);
    let p = traits::reg_then::<B>(p, c.slvx, 0x18, 0x01);
    let p = traits::reg_then::<B>(p, c.slvt, 0x00, 0x00);
    let p = traits::reg_then::<B>(p, c.slvt, 0x49, 0x33);
    let p = traits::reg_then::<B>(p, c.slvt, 0x4b, 0x21);
    let p = traits::reg_then::<B>(p, c.slvt, 0xfe, 0x01);
    let p = traits::reg_then::<B>(p, c.slvt, 0x2c, 0x00);
    let p = traits::reg_then::<B>(p, c.slvt, 0xa9, 0x00);
    let p = traits::reg_then::<B>(p, c.slvx, 0x17, 0x01);
    p
}

/// The ISDB-S side is shut down.
#[verifier::opaque]
pub open spec fn sleep_s_done<B: I2c>(p: Ran<B::State, ()>, c: Cxd2856er) -> Ran<
    B::State,
    (),
> {
    let p = traits::reg_then::<B>(p, c.slvx, 0x00, 0x00);
    let p = traits::reg_then::<B>(p, c.slvx, 0x18, 0x01);
    let p = traits::reg_then::<B>(p, c.slvt, 0x00, 0x00);
    let p = traits::reg_then::<B>(p, c.slvt, 0x6a, 0x11);
    let p = traits::reg_then::<B>(p, c.slvt, 0x4b, 0x21);
    let p = traits::reg_then::<B>(p, c.slvx, 0x28, 0x13);
    let p = traits::reg_then::<B>(p, c.slvt, 0xfe, 0x01);
    let p = traits::reg_then::<B>(p, c.slvt, 0x2c, 0x00);
    let p = traits::reg_then::<B>(p, c.slvt, 0xa9, 0x00);
    let p = traits::reg_then::<B>(p, c.slvt, 0x2d, 0x00);
    let p = traits::reg_then::<B>(p, c.slvx, 0x17, 0x01);
    let p = traits::reg_then::<B>(p, c.slvt, 0x00, 0xa0);
    let p = traits::reg_then::<B>(p, c.slvt, 0xd7, 0x00);
    p
}

/// The demodulation is started on the signal.
#[verifier::opaque]
pub open spec fn post_tune_done<B: I2c>(p: Ran<B::State, ()>, c: Cxd2856er) -> Ran<
    B::State,
    (),
> {
    let p = traits::reg_then::<B>(p, c.slvt, 0x00, 0x00);
    let p = traits::reg_then::<B>(p, c.slvt, 0xfe, 0x01);
    let p = traits::reg_then::<B>(p, c.slvt, 0xc3, 0x00);
    p
}

/// The clock of the TS is set for a system.
#[verifier::opaque]
pub open spec fn ts_clock_done<B: I2c>(p: Ran<B::State, ()>, c: Cxd2856er, mode: Mode) -> Ran<
    B::State,
    (),
> {
    let p = traits::reg_then::<B>(p, c.slvt, 0x00, 0x00);
    let p = traits::bits_then::<B>(p, c.slvt, 0xd3, 0x01, 0x01);
    let p = traits::bits_then::<B>(p, c.slvt, 0xde, 0x00, 0x01);
    let p = traits::bits_then::<B>(p, c.slvt, 0xda, 0x00, 0x01);
    let p = traits::bits_then::<B>(p, c.slvt, 0xc4, 0x00, 0x03);
    let p = traits::bits_then::<B>(p, c.slvt, 0xd1, 0x02, 0x03);
    let p = traits::reg_then::<B>(p, c.slvt, 0xd9, 0x10);
    let p = traits::bits_then::<B>(p, c.slvt, 0x32, 0x00, 0x01);
    let p = traits::bits_then::<B>(p, c.slvt, 0x33, clock_bits(mode), 0x03);
    let p = traits::bits_then::<B>(p, c.slvt, 0x32, 0x01, 0x01);
    let p = traits::reg_then::<B>(p, c.slvt, 0x00, 0x10);
    let p = traits::bits_then::<B>(p, c.slvt, 0x66, 0x01, 0x01);
    let p = traits::reg_then::<B>(p, c.slvt, 0x00, 0x40);
    let p = traits::bits_then::<B>(p, c.slvt, 0x66, 0x01, 0x01);
    p
}

/// Nothing done yet.
pub open spec fn begun<S>(s: S) -> Ran<S, ()> {
    (s, Ok(()))
}

/// What reading registers does and gives, if nothing failed before it.
pub open spec fn read_then<B: I2c>(p: Ran<B::State, ()>, c: Cxd2856er, reg: u8, len: usize) -> Ran<
    B::State,
    Seq<u8>,
> {
    match p.1 {
        Err(e) => (p.0, Err(e)),
        Ok(_) => B::on_read(p.0, c.slvt, seq![reg], len),
    }
}

/// The bits of the TS pins, by how the TS comes out.
pub open spec fn pin_mask(c4: u8) -> u8 {
    if c4 & 0x88 == 0x80 {
        0x01
    } else if c4 & 0x88 == 0x88 {
        0x80
    } else {
        0xff
    }
}

/// The TS pins are switched.
pub open spec fn pins_set<B: I2c>(p: Ran<B::State, ()>, c: Cxd2856er, on: bool) -> Ran<
    B::State,
    (),
> {
    let p1 = traits::reg_then::<B>(p, c.slvt, 0x00, 0x00);
    let (s2, r2) = read_then::<B>(p1, c, 0xc4, 1);
    match r2 {
        Err(e) => (s2, Err(e)),
        Ok(b) => traits::bits_then::<B>(
            traits::reg_then::<B>((s2, Ok(())), c.slvt, 0x00, 0x00),
            c.slvt,
            0x81,
            if on {
                0x00
            } else {
                0xff
            },
            pin_mask(b[0]),
        ),
    }
}

/// What [`Cxd2856er::sleep`] does and gives: nothing if it is asleep.
pub open spec fn slept<B: I2c>(s: B::State, c: Cxd2856er) -> Ran<B::State, ()> {
    match c.mode {
        None => (s, Ok(())),
        Some(mode) => {
            let p = sleep_head_done::<B>(begun(s), c);
            match p.1 {
                Err(e) => (p.0, Err(e)),
                Ok(_) => {
                    let p2 = pins_set::<B>(p, c, false);
                    if mode == Mode::T {
                        sleep_t_done::<B>(p2, c)
                    } else {
                        sleep_s_done::<B>(p2, c)
                    }
                },
            }
        },
    }
}

/// What [`Cxd2856er::wakeup`] does and gives: it goes to sleep first.
pub open spec fn woken<B: I2c>(s: B::State, c: Cxd2856er, mode: Mode) -> (
    B::State,
    Cxd2856er,
    Result<(), Error>,
) {
    let asleep = Cxd2856er { mode: None, ..c };
    let p1 = ts_clock_done::<B>(slept::<B>(s, c), c, mode);
    let p2 = if mode == Mode::T {
        wakeup_t_done::<B>(p1, c)
    } else {
        wakeup_s_done::<B>(p1, c)
    };
    match p2.1 {
        Err(e) => (p2.0, asleep, Err(e)),
        Ok(_) => {
            let p3 = pins_set::<B>(p2, c, true);
            match p3.1 {
                Err(e) => (p3.0, asleep, Err(e)),
                Ok(_) => (p3.0, Cxd2856er { mode: Some(mode), ..c }, Ok(())),
            }
        },
    }
}

/// The writes of a table, bit by bit, from `i` on.
pub open spec fn set_up<B: I2c>(p: Ran<B::State, ()>, c: Cxd2856er, ops: Seq<(u8, u8, u8)>) -> Ran<
    B::State,
    (),
>
    decreases ops.len(),
{
    if ops.len() == 0 {
        p
    } else {
        set_up::<B>(
            traits::bits_then::<B>(p, c.slvt, ops[0].0, ops[0].1, ops[0].2),
            c,
            ops.skip(1),
        )
    }
}

/// What [`Cxd2856er::lock_status`] does and gives.
pub open spec fn lock_seen<B: I2c>(s: B::State, c: Cxd2856er) -> Ran<B::State, (bool, bool)> {
    if c.mode == Some(Mode::T) {
        let (s1, r) = read_then::<B>(
            traits::reg_then::<B>(begun(s), c.slvt, 0x00, 0x60),
            c,
            0x10,
            1,
        );
        match r {
            Err(e) => (s1, Err(e)),
            Ok(b) => (s1, Ok((b[0] & 0x01 != 0, b[0] & 0x10 != 0))),
        }
    } else {
        let (s1, r) = read_then::<B>(
            traits::reg_then::<B>(begun(s), c.slvt, 0x00, 0xa0),
            c,
            0x12,
            1,
        );
        match r {
            Err(e) => (s1, Err(e)),
            Ok(b) => (s1, Ok((b[0] & 0x40 != 0, false))),
        }
    }
}

/// What [`Cxd2856er::cnr_raw`] does and gives. The ISDB-S side has no value until
/// bit 0 of the first register is set.
pub open spec fn cnr_seen<B: I2c>(s: B::State, c: Cxd2856er) -> Ran<B::State, u16> {
    if c.mode == Some(Mode::T) {
        let p1 = traits::reg_then::<B>(begun(s), c.slvt, 0x01, 0x01);
        let (s2, r2) = read_then::<B>(
            traits::reg_then::<B>(p1, c.slvt, 0x00, 0x60),
            c,
            0x28,
            2,
        );
        match r2 {
            Err(e) => (s2, Err(e)),
            Ok(raw) => {
                let p3 = traits::reg_then::<B>((s2, Ok(())), c.slvt, 0x01, 0x00);
                match p3.1 {
                    Err(e) => (p3.0, Err(e)),
                    Ok(_) => (p3.0, Ok((raw[0] * 256 + raw[1]) as u16)),
                }
            },
        }
    } else {
        let (s1, r1) = read_then::<B>(
            traits::reg_then::<B>(begun(s), c.slvt, 0x00, 0xa1),
            c,
            0x10,
            3,
        );
        match r1 {
            Err(e) => (s1, Err(e)),
            Ok(raw) => (
                s1,
                Ok(
                    if raw[0] & 0x01 != 0 {
                        ((raw[1] % 0x20) * 256 + raw[2]) as u16
                    } else {
                        0x5af
                    },
                ),
            ),
        }
    }
}

impl Cxd2856er {
    pub fn new(i2c_addr: u8) -> (r: Self)
        requires
            i2c_addr <= 0xfd,
        ensures
            r == (Cxd2856er { slvx: (i2c_addr + 2) as u8, slvt: i2c_addr, mode: None }),
    {
        Cxd2856er { slvx: i2c_addr + 2, slvt: i2c_addr, mode: None }
    }

    fn start<B: I2c>(&self, i2c: &mut B, start: Result<(), Error>) -> (r: Result<(), Error>)
        ensures
            (final(i2c).state(), r) == started::<B>((old(i2c).state(), start), *self),
    {
        reveal(started);
        let r = start;
        let r = reg_if_ok(i2c, r, self.slvx, 0x00, 0x00);
        let r = reg_if_ok(i2c, r, self.slvx, 0x10, 0x01);
        let r = reg_if_ok(i2c, r, self.slvx, 0x18, 0x01);
        let r = reg_if_ok(i2c, r, self.slvx, 0x28, 0x13);
        let r = reg_if_ok(i2c, r, self.slvx, 0x17, 0x01);
        let r = reg_if_ok(i2c, r, self.slvx, 0x1d, 0x00);
        let r = reg_if_ok(i2c, r, self.slvx, 0x14, 0x01);
        let r = reg_if_ok(i2c, r, self.slvx, 0x1c, 0x03);
        let r = delay_if_ok(i2c, r, 4);
        let r = reg_if_ok(i2c, r, self.slvx, 0x50, 0x00);
        let r = delay_if_ok(i2c, r, 1);
        let r = reg_if_ok(i2c, r, self.slvx, 0x10, 0x00);
        let r = delay_if_ok(i2c, r, 1);
        let r = reg_if_ok(i2c, r, self.slvx, 0x00, 0x00);
        let r = reg_if_ok(i2c, r, self.slvx, 0x1a, 0x01);
        r
    }

    fn wakeup_t<B: I2c>(&self, i2c: &mut B, start: Result<(), Error>) -> (r: Result<(), Error>)
        ensures
            (final(i2c).state(), r) == wakeup_t_done::<B>((old(i2c).state(), start), *self),
    {
        reveal(wakeup_t_done);
        let r = start;
        let r = reg_if_ok(i2c, r, self.slvx, 0x00, 0x00);
        let r = reg_if_ok(i2c, r, self.slvx, 0x17, 0x06);
        let r = reg_if_ok(i2c, r, self.slvt, 0x00, 0x00);
        let r = reg_if_ok(i2c, r, self.slvt, 0xa9, 0x00);
        let r = reg_if_ok(i2c, r, self.slvt, 0x2c, 0x01);
        let r = reg_if_ok(i2c, r, self.slvt, 0x4b, 0x74);
        let r = reg_if_ok(i2c, r, self.slvt, 0x49, 0x00);
        let r = reg_if_ok(i2c, r, self.slvx, 0x18, 0x00);
        let r = reg_if_ok(i2c, r, self.slvt, 0x00, 0x11);
        let r = reg_if_ok(i2c, r, self.slvt, 0x6a, 0x50);
        let r = reg_if_ok(i2c, r, self.slvt, 0x00, 0x10);
        let r = reg_if_ok(i2c, r, self.slvt, 0xa5, 0x01);
        let r = reg_if_ok(i2c, r, self.slvt, 0x00, 0x00);
        let r = block_if_ok(i2c, r, self.slvt, 0xce, &[0x00, 0x00]);
        let r = reg_if_ok(i2c, r, self.slvt, 0x00, 0x10);
        let r = reg_if_ok(i2c, r, self.slvt, 0x69, 0x04);
        let r = reg_if_ok(i2c, r, self.slvt, 0x6b, 0x03);
        let r = reg_if_ok(i2c, r, self.slvt, 0x9d, 0x50);
        let r = reg_if_ok(i2c, r, self.slvt, 0xd3, 0x06);
        let r = reg_if_ok(i2c, r, self.slvt, 0xed, 0x00);
        let r = reg_if_ok(i2c, r, self.slvt, 0xe2, 0xce);
        let r = reg_if_ok(i2c, r, self.slvt, 0xf2, 0x13);
        let r = reg_if_ok(i2c, r, self.slvt, 0xde, 0x2e);
        let r = reg_if_ok(i2c, r, self.slvt, 0x00, 0x15);
        let r = reg_if_ok(i2c, r, self.slvt, 0xde, 0x02);
        let r = reg_if_ok(i2c, r, self.slvt, 0x00, 0x17);
        let r = block_if_ok(i2c, r, self.slvt, 0x38, &[0x00, 0x03]);
        let r = reg_if_ok(i2c, r, self.slvt, 0x00, 0x1e);
        let r = reg_if_ok(i2c, r, self.slvt, 0x73, 0x68);
        let r = reg_if_ok(i2c, r, self.slvt, 0x00, 0x63);
        let r = reg_if_ok(i2c, r, self.slvt, 0x81, 0x00);
        let r = reg_if_ok(i2c, r, self.slvt, 0x00, 0x11);
        let r = block_if_ok(i2c, r, self.slvt, 0x33, &[0x00, 0x03, 0x3b]);
        let r = reg_if_ok(i2c, r, self.slvt, 0x00, 0x60);
        let r = block_if_ok(i2c, r, self.slvt, 0xa8, &[0xb7, 0x1b]);
        let r = reg_if_ok(i2c, r, self.slvt, 0x00, 0x10);
        let r = block_if_ok(i2c, r, self.slvt, 0x9f, &[0x17, 0xa0, 0x80, 0x00, 0x00]);
        let r = block_if_ok(i2c, r, self.slvt, 0xa6, &[0x31, 0xa8, 0x29, 0x9b, 0x27, 0x9c, 0x28, 0x9e, 0x29, 0xa4, 0x29, 0xa2, 0x29, 0xa8]);
        let r = block_if_ok(i2c, r, self.slvt, 0xb6, &[0x12, 0xee, 0xef]);
        let r = reg_if_ok(i2c, r, self.slvt, 0xd7, 0x04);
        let r = block_if_ok(i2c, r, self.slvt, 0xd9, &[0x1f, 0x79]);
        let r = reg_if_ok(i2c, r, self.slvt, 0x00, 0x12);
        let r = reg_if_ok(i2c, r, self.slvt, 0x71, 0x07);
        let r = reg_if_ok(i2c, r, self.slvt, 0x00, 0x15);
        let r = reg_if_ok(i2c, r, self.slvt, 0xbe, 0x02);
        let r = reg_if_ok(i2c, r, self.slvt, 0x00, 0x00);
        let r = bits_if_ok(i2c, r, self.slvt, 0x80, 0x08, 0x1f);
        r
    }

    fn wakeup_s<B: I2c>(&self, i2c: &mut B, start: Result<(), Error>) -> (r: Result<(), Error>)
        ensures
            (final(i2c).state(), r) == wakeup_s_done::<B>((old(i2c).state(), start), *self),
    {
        reveal(wakeup_s_done);
        let r = start;
        let r = reg_if_ok(i2c, r, self.slvx, 0x00, 0x00);
        let r = reg_if_ok(i2c, r, self.slvx, 0x17, 0x0c);
        let r = reg_if_ok(i2c, r, self.slvt, 0x00, 0x00);
        let r = reg_if_ok(i2c, r, self.slvt, 0x2d, 0x00);
        let r = reg_if_ok(i2c, r, self.slvt, 0xa9, 0x00);
        let r = reg_if_ok(i2c, r, self.slvt, 0x2c, 0x01);
        let r = reg_if_ok(i2c, r, self.slvx, 0x28, 0x31);
        let r = reg_if_ok(i2c, r, self.slvt, 0x4b, 0x31);
        let r = reg_if_ok(i2c, r, self.slvt, 0x6a, 0x00);
        let r = reg_if_ok(i2c, r, self.slvx, 0x18, 0x00);
        let r = reg_if_ok(i2c, r, self.slvt, 0x00, 0x00);
        let r = reg_if_ok(i2c, r, self.slvt, 0x20, 0x01);
        let r = block_if_ok(i2c, r, self.slvt, 0xce, &[0x00, 0x00]);
        let r = reg_if_ok(i2c, r, self.slvt, 0x00, 0xae);
        let r = block_if_ok(i2c, r, self.slvt, 0x20, &[0x07, 0x37, 0x0a]);
        let r = reg_if_ok(i2c, r, self.slvt, 0x00, 0xa0);
        let r = reg_if_ok(i2c, r, self.slvt, 0xd7, 0x00);
        let r = reg_if_ok(i2c, r, self.slvt, 0x00, 0x00);
        let r = bits_if_ok(i2c, r, self.slvt, 0x80, 0x10, 0x1f);
        r
    }

    fn sleep_head<B: I2c>(&self, i2c: &mut B, start: Result<(), Error>) -> (r: Result<(), Error>)
        ensures
            (final(i2c).state(), r) == sleep_head_done::<B>((old(i2c).state(), start), *self),
    {
        reveal(sleep_head_done);
        let r = start;
        let r = reg_if_ok(i2c, r, self.slvt, 0x00, 0x00);
        let r = reg_if_ok(i2c, r, self.slvt, 0xc3, 0x01);
        let r = bits_if_ok(i2c, r, self.slvt, 0x80, 0x1f, 0x1f);
        r
    }

    fn sleep_t<B: I2c>(&self, i2c: &mut B, start: Result<(), Error>) -> (r: Result<(), Error>)
        ensures
            (final(i2c).state(), r) == sleep_t_done::<B>((old(i2c).state(), start), *self),
    {
        reveal(sleep_t_done);
        let r = start;
        let r = reg_if_ok(i2c, r, self.slvt, 0x00, 0x10);
        let r = reg_if_ok(i2c, r, self.slvt, 0x69, 0x05);
        let r = reg_if_ok(i2c, r, self.slvt, 0x6b, 0x07);
        let r = reg_if_ok(i2c, r, self.slvt, 0x9d, 0x14);
        let r = reg_if_ok(i2c, r, self.slvt, 0xd3, 0x00);
        let r = reg_if_ok(i2c, r, self.slvt, 0xed, 0x01);
        let r = reg_if_ok(i2c, r, self.slvt, 0xe2, 0x4e);
        let r = reg_if_ok(i2c, r, self.slvt, 0xf2, 0x03);
        let r = reg_if_ok(i2c, r, self.slvt, 0xde, 0x32);
        let r = reg_if_ok(i2c, r, self.slvt, 0x00, 0x15);
        let r = reg_if_ok(i2c, r, self.slvt, 0xde, 0x03);
        let r = reg_if_ok(i2c, r, self.slvt, 0x00, 0x17);
        let r = block_if_ok(i2c, r, self.slvt, 0x38, &[0x01, 0x00]);
        let r = reg_if_ok(i2c, r, self.slvt, 0x00, 0x1e);
        let r = reg_if_ok(i2c, r, self.slvt, 0x73, 0x00);
        let r = reg_if_ok(i2c, r, self.slvt, 0x00, 0x63);
        let r = reg_if_ok(i2c, r, self.slvt, 0x81, 0x01);
        let r = reg_if_ok(i2c, r, self.slvx, 0x00, 0x00);
        let r = reg_if_ok(i2c, r, self.slvx, 0x18, 0x01);
        let r = reg_if_ok(i2c, r, self.slvt, 0x00, 0x00);
        let r = reg_if_ok(i2c, r, self.slvt, 0x49, 0x33);
        let r = reg_if_ok(i2c, r, self.slvt, 0x4b, 0x21);
        let r = reg_if_ok(i2c, r, self.slvt, 0xfe, 0x01);
        let r = reg_if_ok(i2c, r, self.slvt, 0x2c, 0x00);
        let r = reg_if_ok(i2c, r, self.slvt, 0xa9, 0x00);
        let r = reg_if_ok(i2c, r, self.slvx, 0x17, 0x01);
        r
    }

    fn sleep_s<B: I2c>(&self, i2c: &mut B, start: Result<(), Error>) -> (r: Result<(), Error>)
        ensures
            (final(i2c).state(), r) == sleep_s_done::<B>((old(i2c).state(), start), *self),
    {
        reveal(sleep_s_done);
        let r = start;
        let r = reg_if_ok(i2c, r, self.slvx, 0x00, 0x00);
        let r = reg_if_ok(i2c, r, self.slvx, 0x18, 0x01);
        let r = reg_if_ok(i2c, r, self.slvt, 0x00, 0x00);
        let r = reg_if_ok(i2c, r, self.slvt, 0x6a, 0x11);
        let r = reg_if_ok(i2c, r, self.slvt, 0x4b, 0x21);
        let r = reg_if_ok(i2c, r, self.slvx, 0x28, 0x13);
        let r = reg_if_ok(i2c, r, self.slvt, 0xfe, 0x01);
        let r = reg_if_ok(i2c, r, self.slvt, 0x2c, 0x00);
        let r = reg_if_ok(i2c, r, self.slvt, 0xa9, 0x00);
        let r = reg_if_ok(i2c, r, self.slvt, 0x2d, 0x00);
        let r = reg_if_ok(i2c, r, self.slvx, 0x17, 0x01);
        let r = reg_if_ok(i2c, r, self.slvt, 0x00, 0xa0);
        let r = reg_if_ok(i2c, r, self.slvt, 0xd7, 0x00);
        r
    }

    fn end_tuning<B: I2c>(&self, i2c: &mut B, start: Result<(), Error>) -> (r: Result<(), Error>)
        ensures
            (final(i2c).state(), r) == post_tune_done::<B>((old(i2c).state(), start), *self),
    {
        reveal(post_tune_done);
        let r = start;
        let r = reg_if_ok(i2c, r, self.slvt, 0x00, 0x00);
        let r = reg_if_ok(i2c, r, self.slvt, 0xfe, 0x01);
        let r = reg_if_ok(i2c, r, self.slvt, 0xc3, 0x00);
        r
    }

    fn ts_clock<B: I2c>(&self, i2c: &mut B, start: Result<(), Error>, mode: Mode) -> (r: Result<(), Error>)
        ensures
            (final(i2c).state(), r) == ts_clock_done::<B>((old(i2c).state(), start), *self, mode),
    {
        reveal(ts_clock_done);
        let r = start;
        let r = reg_if_ok(i2c, r, self.slvt, 0x00, 0x00);
        let r = bits_if_ok(i2c, r, self.slvt, 0xd3, 0x01, 0x01);
        let r = bits_if_ok(i2c, r, self.slvt, 0xde, 0x00, 0x01);
        let r = bits_if_ok(i2c, r, self.slvt, 0xda, 0x00, 0x01);
        let r = bits_if_ok(i2c, r, self.slvt, 0xc4, 0x00, 0x03);
        let r = bits_if_ok(i2c, r, self.slvt, 0xd1, 0x02, 0x03);
        let r = reg_if_ok(i2c, r, self.slvt, 0xd9, 0x10);
        let r = bits_if_ok(i2c, r, self.slvt, 0x32, 0x00, 0x01);
        let r = bits_if_ok(i2c, r, self.slvt, 0x33, if mode == Mode::T { 0x02 } else { 0x00 }, 0x03);
        let r = bits_if_ok(i2c, r, self.slvt, 0x32, 0x01, 0x01);
        let r = reg_if_ok(i2c, r, self.slvt, 0x00, 0x10);
        let r = bits_if_ok(i2c, r, self.slvt, 0x66, 0x01, 0x01);
        let r = reg_if_ok(i2c, r, self.slvt, 0x00, 0x40);
        let r = bits_if_ok(i2c, r, self.slvt, 0x66, 0x01, 0x01);
        r
    }

    fn read_if_ok<B: I2c>(
        &self,
        i2c: &mut B,
        before: Result<(), Error>,
        reg: u8,
        len: usize,
    ) -> (r: Result<Vec<u8>, Error>)
        ensures
            (final(i2c).state(), traits::seen(r)) == read_then::<B>(
                (old(i2c).state(), before),
                *self,
                reg,
                len,
            ),
            r matches Ok(bytes) ==> bytes@.len() == len,
    {
        match before {
            Ok(_) => {},
            Err(e) => return Err(e),
        }
        let mut which: Vec<u8> = Vec::new();
        which.push(reg);
        i2c.write_read(self.slvt, which.as_slice(), len)
    }

    /// Writes the SLVT registers the device model sets up after [`init`](Self::init).
    pub fn setup<B: I2c>(&self, i2c: &mut B, ops: &[(u8, u8, u8)]) -> (r: Result<(), Error>)
        ensures
            (final(i2c).state(), r) == set_up::<B>(begun(old(i2c).state()), *self, ops@),
    {
        let ghost s0 = i2c.state();
        let mut r: Result<(), Error> = Ok(());
        let mut i: usize = 0;
        assert(ops@.skip(0) =~= ops@);
        while i < ops.len()
            invariant
                i <= ops@.len(),
                s0 == old(i2c).state(),
                set_up::<B>((i2c.state(), r), *self, ops@.skip(i as int)) == set_up::<B>(
                    begun(s0),
                    *self,
                    ops@,
                ),
            decreases ops@.len() - i,
        {
            let ghost rest = ops@.skip(i as int);
            assert(rest[0] == ops@[i as int]);
            assert(rest.skip(1) =~= ops@.skip(i + 1));
            r = bits_if_ok(i2c, r, self.slvt, ops[i].0, ops[i].1, ops[i].2);
            i = i + 1;
        }
        r
    }

    pub fn init<B: I2c>(&mut self, i2c: &mut B) -> (r: Result<(), Error>)
        ensures
            *final(self) == (Cxd2856er { mode: None, ..*old(self) }),
            (final(i2c).state(), r) == started::<B>(begun(old(i2c).state()), *final(self)),
    {
        self.mode = None;
        self.start(i2c, Ok(()))
    }

    /// Opens or closes the way to the tuner behind the demodulator.
    pub fn gate<B: I2c>(&self, i2c: &mut B, open: bool) -> (r: Result<(), Error>)
        ensures
            (final(i2c).state(), r) == gated::<B>(old(i2c).state(), *self, open),
    {
        reg_if_ok(i2c, Ok(()), self.slvx, 0x08, if open { 1 } else { 0 })
    }

    fn set_ts_pins<B: I2c>(&self, i2c: &mut B, before: Result<(), Error>, on: bool) -> (r: Result<
        (),
        Error,
    >)
        ensures
            (final(i2c).state(), r) == pins_set::<B>((old(i2c).state(), before), *self, on),
    {
        let r = reg_if_ok(i2c, before, self.slvt, 0x00, 0x00);
        let c4: u8 = match self.read_if_ok(i2c, r, 0xc4, 1) {
            Ok(b) => b[0],
            Err(e) => return Err(e),
        };
        let mask: u8 = match c4 & 0x88 {
            0x80 => 0x01,
            0x88 => 0x80,
            _ => 0xff,
        };
        let r = reg_if_ok(i2c, Ok(()), self.slvt, 0x00, 0x00);
        bits_if_ok(i2c, r, self.slvt, 0x81, if on { 0x00 } else { 0xff }, mask)
    }

    pub fn sleep<B: I2c>(&mut self, i2c: &mut B) -> (r: Result<(), Error>)
        ensures
            *final(self) == (Cxd2856er { mode: None, ..*old(self) }),
            (final(i2c).state(), r) == slept::<B>(old(i2c).state(), *old(self)),
    {
        let was: Cxd2856er = *self;
        self.mode = None;
        let mode: Mode = match was.mode {
            Some(mode) => mode,
            None => return Ok(()),
        };
        let r = was.sleep_head(i2c, Ok(()));
        match r {
            Ok(_) => {},
            Err(e) => return Err(e),
        }
        let r = was.set_ts_pins(i2c, r, false);
        if mode == Mode::T {
            was.sleep_t(i2c, r)
        } else {
            was.sleep_s(i2c, r)
        }
    }

    pub fn wakeup<B: I2c>(&mut self, i2c: &mut B, mode: Mode) -> (r: Result<(), Error>)
        ensures
            (final(i2c).state(), *final(self), r) == woken::<B>(
                old(i2c).state(),
                *old(self),
                mode,
            ),
    {
        let was: Cxd2856er = *self;
        let r = self.sleep(i2c);
        let r = was.ts_clock(i2c, r, mode);
        let r = if mode == Mode::T {
            was.wakeup_t(i2c, r)
        } else {
            was.wakeup_s(i2c, r)
        };
        match r {
            Ok(_) => {},
            Err(e) => return Err(e),
        }
        match was.set_ts_pins(i2c, r, true) {
            Ok(_) => {},
            Err(e) => return Err(e),
        }
        self.mode = Some(mode);
        Ok(())
    }

    pub fn post_tune<B: I2c>(&self, i2c: &mut B) -> (r: Result<(), Error>)
        ensures
            (final(i2c).state(), r) == post_tune_done::<B>(begun(old(i2c).state()), *self),
    {
        self.end_tuning(i2c, Ok(()))
    }

    pub fn set_tsid<B: I2c>(&self, i2c: &mut B, tsid: u16) -> (r: Result<(), Error>)
        ensures
            (final(i2c).state(), r) == tsid_set::<B>(old(i2c).state(), *self, tsid),
    {
        let r = reg_if_ok(i2c, Ok(()), self.slvt, 0x00, 0xc0);
        let mut data: Vec<u8> = Vec::new();
        data.push((tsid / 256) as u8);
        data.push((tsid % 256) as u8);
        data.push(0);
        block_if_ok(i2c, r, self.slvt, 0xe9, data.as_slice())
    }

    /// Whether the TS has locked, and for ISDB-T whether the demodulator
    /// has given up on it.
    pub fn lock_status<B: I2c>(&self, i2c: &mut B) -> (r: Result<(bool, bool), Error>)
        ensures
            (final(i2c).state(), r) == lock_seen::<B>(old(i2c).state(), *self),
    {
        let terrestrial: bool = match self.mode {
            Some(mode) => mode == Mode::T,
            None => false,
        };
        if terrestrial {
            let r = reg_if_ok(i2c, Ok(()), self.slvt, 0x00, 0x60);
            match self.read_if_ok(i2c, r, 0x10, 1) {
                Ok(b) => Ok((b[0] & 0x01 != 0, b[0] & 0x10 != 0)),
                Err(e) => Err(e),
            }
        } else {
            let r = reg_if_ok(i2c, Ok(()), self.slvt, 0x00, 0xa0);
            match self.read_if_ok(i2c, r, 0x12, 1) {
                Ok(b) => Ok((b[0] & 0x40 != 0, false)),
                Err(e) => Err(e),
            }
        }
    }

    /// The raw C/N value the device model converts.
    pub fn cnr_raw<B: I2c>(&self, i2c: &mut B) -> (r: Result<u16, Error>)
        ensures
            (final(i2c).state(), r) == cnr_seen::<B>(old(i2c).state(), *self),
    {
        let terrestrial: bool = match self.mode {
            Some(mode) => mode == Mode::T,
            None => false,
        };
        if terrestrial {
            let r = reg_if_ok(i2c, Ok(()), self.slvt, 0x01, 0x01);
            let r = reg_if_ok(i2c, r, self.slvt, 0x00, 0x60);
            let raw: Vec<u8> = match self.read_if_ok(i2c, r, 0x28, 2) {
                Ok(raw) => raw,
                Err(e) => return Err(e),
            };
            match reg_if_ok(i2c, Ok(()), self.slvt, 0x01, 0x00) {
                Ok(_) => Ok(raw[0] as u16 * 256 + raw[1] as u16),
                Err(e) => Err(e),
            }
        } else {
            let r = reg_if_ok(i2c, Ok(()), self.slvt, 0x00, 0xa1);
            match self.read_if_ok(i2c, r, 0x10, 3) {
                Ok(raw) => if raw[0] & 0x01 != 0 {
                    Ok((raw[1] % 0x20) as u16 * 256 + raw[2] as u16)
                } else {
                    Ok(0x5af)
                },
                Err(e) => Err(e),
            }
        }
    }
}

/// The way to the tuner is opened or closed.
pub open spec fn gated<B: I2c>(s: B::State, c: Cxd2856er, open: bool) -> Ran<B::State, ()> {
    traits::reg_then::<B>(
        begun(s),
        c.slvx,
        0x08,
        if open {
            1
        } else {
            0
        },
    )
}

/// The TSID is set.
pub open spec fn tsid_set<B: I2c>(s: B::State, c: Cxd2856er, tsid: u16) -> Ran<B::State, ()> {
    traits::block_then::<B>(
        traits::reg_then::<B>(begun(s), c.slvt, 0x00, 0xc0),
        c.slvt,
        0xe9,
        seq![(tsid / 256) as u8].push((tsid % 256) as u8).push(0u8),
    )
}

/// Whether the chip at `addr` of a bus keeps its registers in banks: `bank` is the one
/// that is chosen, by writing its number to register 0, and `cell` is what a register of
/// a bank holds. A write that succeeds goes to the bank that is chosen, and a read shows
/// it and changes nothing.
pub open spec fn keeps_banks<B: I2c>(
    addr: u8,
    bank: spec_fn(B::State) -> u8,
    cell: spec_fn(B::State, u8, int) -> u8,
) -> bool {
    &&& forall|s: B::State, data: Seq<u8>|
        data.len() == 2 && data[0] == 0 && (#[trigger] B::on_write(s, addr, data)).1 is Ok ==> {
            let s1 = B::on_write(s, addr, data).0;
            &&& bank(s1) == data[1]
            &&& forall|b: u8, r: int| #[trigger] cell(s1, b, r) == cell(s, b, r)
        }
    &&& forall|s: B::State, data: Seq<u8>|
        data.len() >= 2 && data[0] != 0 && (#[trigger] B::on_write(s, addr, data)).1 is Ok ==> {
            let s1 = B::on_write(s, addr, data).0;
            &&& bank(s1) == bank(s)
            &&& forall|b: u8, r: int| #[trigger]
                cell(s1, b, r) == if b == bank(s) && data[0] <= r < data[0] + data.len() - 1 {
                    data[1 + r - data[0]]
                } else {
                    cell(s, b, r)
                }
        }
    &&& forall|s: B::State, data: Seq<u8>, len: usize|
        ({
            let (s1, r1) = #[trigger] B::on_read(s, addr, data, len);
            &&& bank(s1) == bank(s)
            &&& forall|b: u8, r: int| #[trigger] cell(s1, b, r) == cell(s, b, r)
            &&& data.len() == 1 && r1 is Ok ==> r1->Ok_0 == Seq::new(
                len as nat,
                |i: int| cell(s, bank(s), data[0] + i),
            )
        })
}

/// The lock is what the registers say: for ISDB-T bit 0 of register 0x10 of bank 0x60,
/// with bit 4 for having given up, and for ISDB-S bit 6 of register 0x12 of bank 0xa0.
pub proof fn lock_is_read<B: I2c>(
    s: B::State,
    c: Cxd2856er,
    bank: spec_fn(B::State) -> u8,
    cell: spec_fn(B::State, u8, int) -> u8,
)
    requires
        keeps_banks::<B>(c.slvt, bank, cell),
    ensures
        lock_seen::<B>(s, c).1 matches Ok(seen) ==> if c.mode == Some(Mode::T) {
            &&& seen.0 == (cell(s, 0x60, 0x10) % 2 == 1)
            &&& seen.1 == (cell(s, 0x60, 0x10) / 16 % 2 == 1)
        } else {
            &&& seen.0 == (cell(s, 0xa0, 0x12) / 64 % 2 == 1)
            &&& !seen.1
        },
{
    reveal(traits::reg_then);
    reveal(traits::write_then);
    let v = cell(s, 0x60, 0x10);
    let w = cell(s, 0xa0, 0x12);
    assert((v & 0x01 != 0) == (v % 2 == 1) && (v & 0x10 != 0) == (v / 16 % 2 == 1) && (w & 0x40 != 0)
        == (w / 64 % 2 == 1)) by (bit_vector);
}

/// The C/N is what the registers say: for ISDB-T that of registers 0x28 and 0x29 of bank
/// 0x60, and for ISDB-S the lower 13 bits of registers 0x11 and 0x12 of bank 0xa1 once
/// bit 0 of register 0x10 is set, the upper byte first.
pub proof fn cnr_is_read<B: I2c>(
    s: B::State,
    c: Cxd2856er,
    bank: spec_fn(B::State) -> u8,
    cell: spec_fn(B::State, u8, int) -> u8,
)
    requires
        keeps_banks::<B>(c.slvt, bank, cell),
    ensures
        cnr_seen::<B>(s, c).1 matches Ok(raw) ==> if c.mode == Some(Mode::T) {
            raw == cell(s, 0x60, 0x28) * 256 + cell(s, 0x60, 0x29)
        } else if cell(s, 0xa1, 0x10) % 2 == 1 {
            raw == cell(s, 0xa1, 0x11) % 32 * 256 + cell(s, 0xa1, 0x12)
        } else {
            raw == 0x5af
        },
{
    reveal(traits::reg_then);
    reveal(traits::write_then);
    let v = cell(s, 0xa1, 0x10);
    assert((v & 0x01 != 0) == (v % 2 == 1)) by (bit_vector);
}

/// A TSID that is set stands in registers 0xe9 and 0xea of bank 0xc0, the upper byte
/// first, and register 0xeb says that it is one.
pub proof fn tsid_lands<B: I2c>(
    s: B::State,
    c: Cxd2856er,
    tsid: u16,
    bank: spec_fn(B::State) -> u8,
    cell: spec_fn(B::State, u8, int) -> u8,
)
    requires
        keeps_banks::<B>(c.slvt, bank, cell),
        tsid_set::<B>(s, c, tsid).1 is Ok,
    ensures
        ({
            let s1 = tsid_set::<B>(s, c, tsid).0;
            &&& cell(s1, 0xc0, 0xe9) * 256 + cell(s1, 0xc0, 0xea) == tsid
            &&& cell(s1, 0xc0, 0xeb) == 0
        }),
{
    reveal(traits::reg_then);
    reveal(traits::block_then);
    reveal(traits::write_then);
}

/// The way to the tuner is open while register 8 of the system side is 1, and closed
/// while it is 0.
pub proof fn gate_lands<B: I2c>(
    s: B::State,
    c: Cxd2856er,
    open: bool,
    bank: spec_fn(B::State) -> u8,
    cell: spec_fn(B::State, u8, int) -> u8,
)
    requires
        keeps_banks::<B>(c.slvx, bank, cell),
        gated::<B>(s, c, open).1 is Ok,
    ensures
        cell(gated::<B>(s, c, open).0, bank(s), 0x08) == if open {
            1u8
        } else {
            0u8
        },
{
    reveal(traits::reg_then);
    reveal(traits::write_then);
}

/// The pins of the TS are switched by register 0x81 of bank 0: the pin of bit 0 alone if
/// the TS comes out serially there, that of bit 7 alone if it does there, and all of them
/// if it comes out in parallel. Those that are on are clear.
pub proof fn pins_land<B: I2c>(
    s: B::State,
    c: Cxd2856er,
    on: bool,
    bank: spec_fn(B::State) -> u8,
    cell: spec_fn(B::State, u8, int) -> u8,
)
    requires
        keeps_banks::<B>(c.slvt, bank, cell),
        pins_set::<B>(begun(s), c, on).1 is Ok,
    ensures
        ({
            let was = cell(s, 0, 0x81);
            let is = cell(pins_set::<B>(begun(s), c, on).0, 0, 0x81);
            let how = cell(s, 0, 0xc4);
            let off: int = if on {
                0
            } else {
                1
            };
            if how / 128 % 2 == 0 {
                is == 255 * off
            } else if how / 8 % 2 == 0 {
                is == was / 2 * 2 + off
            } else {
                is == was % 128 + 128 * off
            }
        }),
{
    reveal(traits::reg_then);
    reveal(traits::bits_then);
    reveal(traits::write_then);
    let was = cell(s, 0, 0x81);
    let how = cell(s, 0, 0xc4);
    assert((how & 0x88 == 0x80) == (how / 128 % 2 == 1 && how / 8 % 2 == 0) && (how & 0x88 == 0x88)
        == (how / 128 % 2 == 1 && how / 8 % 2 == 1)) by (bit_vector);
    assert((was & !0x01u8) | (0xffu8 & 0x01) == was / 2 * 2 + 1 && (was & !0x01u8) | (0x00u8 & 0x01)
        == was / 2 * 2 && (was & !0x80u8) | (0xffu8 & 0x80) == was % 128 + 128 && (was & !0x80u8) | (
    0x00u8 & 0x80) == was % 128) by (bit_vector);
}

} // verus!
