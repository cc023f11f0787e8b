//! The calibration of the low-pass filter of the R850.

use vstd::prelude::*;

use crate::error::{error, Error};
use crate::r850::imr;
use crate::r850::imr::try_out;
use crate::r850::tables::Lpf;
use crate::shadow::{field, out, Op};
use crate::traits::I2c;

verus! {

broadcast use {
    crate::shadow::fits_nothing,
    crate::shadow::fits_one_more,
    crate::shadow::fits_both,
};

/// The program that tries a gain in front of the filter.
pub open spec fn lpf_gain_program(i: u8) -> Seq<Op> {
    seq![field(0x29, 0x0f, (i << 4) & 0xf0)]
        .push(out(0x29, 1))
        .push(Op::Delay { ms: 5 })
}

/// The gain turned up from `i` on, until the reading is high enough: the last
/// reading.
pub open spec fn lpf_gain_from<B: I2c>(s: B::State, addr: u8, regs: Seq<u8>, i: u8, val: u8) -> (
    B::State,
    Seq<u8>,
    Result<u8, Error>,
)
    decreases 16 - i,
{
    if i >= 16 {
        (s, regs, Ok(val))
    } else {
        let (s1, regs1, r) = imr::probe::<B>(s, addr, regs, lpf_gain_program(i));
        match r {
            Err(e) => (s1, regs1, Err(e)),
            Ok(v) => if v > 0x28 {
                (s1, regs1, Ok(v))
            } else {
                lpf_gain_from::<B>(s1, addr, regs1, (i + 1) as u8, v)
            },
        }
    }
}

pub(crate) fn turn_gain_up<B: I2c>(i2c: &mut B, addr: u8, regs: &mut Vec<u8>) -> (r: Result<u8, Error>)
    requires
        old(regs)@.len() == 48,
    ensures
        final(regs)@.len() == 48,
        (final(i2c).state(), final(regs)@, r) == lpf_gain_from::<B>(
            old(i2c).state(),
            addr,
            old(regs)@,
            5,
            0,
        ),
{
    let ghost whole = lpf_gain_from::<B>(i2c.state(), addr, regs@, 5, 0);
    let mut val: u8 = 0;
    let mut i: u8 = 5;
    while i < 16
        invariant
            5 <= i <= 16,
            regs@.len() == 48,
            whole == lpf_gain_from::<B>(old(i2c).state(), addr, old(regs)@, 5, 0),
            lpf_gain_from::<B>(i2c.state(), addr, regs@, i, val) == whole,
        decreases 16 - i,
    {
        let mut ops: Vec<Op> = Vec::new();
        ops.push(field(0x29, 0x0f, (i << 4) & 0xf0));
        ops.push(out(0x29, 1));
        ops.push(Op::Delay { ms: 5 });
        assert(ops@ =~= lpf_gain_program(i));
        val = match try_out(i2c, addr, regs, &ops) {
            Ok(v) => v,
            Err(e) => return Err(e),
        };
        if val > 0x28 {
            return Ok(val);
        }
        i = i + 1;
    }
    Ok(val)
}

/// The setting of a coarse bandwidth of the filter.
pub open spec fn lpf_band(i: u8) -> u8 {
    if i == 0 {
        0
    } else {
        (i + 1) as u8
    }
}

/// The program that tries a coarse bandwidth with the filter wide open.
pub open spec fn lpf_open_program(i: u8) -> Seq<Op> {
    seq![field(0x17, 0x9f, 0)]
        .push(field(0x17, 0xe1, (lpf_band(i) << 5) & 0x60))
        .push(out(0x17, 1))
        .push(Op::Delay { ms: 5 })
}

/// The program that closes the filter nearly all the way.
pub open spec fn lpf_close_program() -> Seq<Op> {
    seq![field(0x17, 0xe1, 0x1a)]
        .push(out(0x17, 1))
        .push(Op::Delay { ms: 5 })
}

/// The coarse bandwidths tried from `i` on: the first at which closing the
/// filter makes a difference, else the last.
pub open spec fn lpf_band_from<B: I2c>(s: B::State, addr: u8, regs: Seq<u8>, i: u8, band: u8) -> (
    B::State,
    Seq<u8>,
    Result<u8, Error>,
)
    decreases 3 - i,
{
    if i >= 3 {
        (s, regs, Ok(band))
    } else {
        let (s1, regs1, r1) = imr::probe::<B>(s, addr, regs, lpf_open_program(i));
        match r1 {
            Err(e) => (s1, regs1, Err(e)),
            Ok(open) => {
                let (s2, regs2, r2) = imr::probe::<B>(s1, addr, regs1, lpf_close_program());
                match r2 {
                    Err(e) => (s2, regs2, Err(e)),
                    Ok(closed) => if closed + 16 < open {
                        (s2, regs2, Ok(lpf_band(i)))
                    } else {
                        lpf_band_from::<B>(s2, addr, regs2, (i + 1) as u8, lpf_band(i))
                    },
                }
            },
        }
    }
}

pub(crate) fn find_band<B: I2c>(i2c: &mut B, addr: u8, regs: &mut Vec<u8>, from: u8) -> (r: Result<u8, Error>)
    requires
        old(regs)@.len() == 48,
        from <= 3,
    ensures
        final(regs)@.len() == 48,
        (final(i2c).state(), final(regs)@, r) == lpf_band_from::<B>(
            old(i2c).state(),
            addr,
            old(regs)@,
            from,
            0,
        ),
{
    let ghost whole = lpf_band_from::<B>(i2c.state(), addr, regs@, from, 0);
    let mut band: u8 = 0;
    let mut i: u8 = from;
    while i < 3
        invariant
            i <= 3,
            regs@.len() == 48,
            whole == lpf_band_from::<B>(old(i2c).state(), addr, old(regs)@, from, 0),
            lpf_band_from::<B>(i2c.state(), addr, regs@, i, band) == whole,
        decreases 3 - i,
    {
        band = if i == 0 { 0 } else { i + 1 };
        let mut wide: Vec<Op> = Vec::new();
        wide.push(field(0x17, 0x9f, 0));
        wide.push(field(0x17, 0xe1, (band << 5) & 0x60));
        wide.push(out(0x17, 1));
        wide.push(Op::Delay { ms: 5 });
        assert(wide@ =~= lpf_open_program(i));
        let open: u8 = match try_out(i2c, addr, regs, &wide) {
            Ok(v) => v,
            Err(e) => return Err(e),
        };
        let mut tight: Vec<Op> = Vec::new();
        tight.push(field(0x17, 0xe1, 0x1a));
        tight.push(out(0x17, 1));
        tight.push(Op::Delay { ms: 5 });
        assert(tight@ =~= lpf_close_program());
        let closed: u8 = match try_out(i2c, addr, regs, &tight) {
            Ok(v) => v,
            Err(e) => return Err(e),
        };
        if (closed as u16) + 16 < open as u16 {
            return Ok(band);
        }
        i = i + 1;
    }
    Ok(band)
}

/// The program that tries a code of the filter.
pub open spec fn lpf_code_program(i: u8) -> Seq<Op> {
    seq![field(0x17, 0xe1, (i << 1) & 0x1e)]
        .push(out(0x17, 1))
        .push(Op::Delay { ms: 5 })
}

/// The program that tries the half step below a code of the filter.
pub open spec fn lpf_half_program(i: u8) -> Seq<Op> {
    seq![field(0x17, 0xe0, 1 | ((((i - 1) as u8) << 1) & 0x1e))]
        .push(out(0x17, 1))
        .push(Op::Delay { ms: 5 })
}

/// The codes tried from `i` on: the first at which the reading is `gap` below
/// what it is compared with, or the half step below it if that is too; 16 if
/// none is. The reading at code 0 is compared with, unless one was given.
pub open spec fn lpf_code_from<B: I2c>(
    s: B::State,
    addr: u8,
    regs: Seq<u8>,
    band: u8,
    gap: u8,
    given: Option<u8>,
    i: u8,
    val: u8,
) -> (B::State, Seq<u8>, Result<Lpf, Error>)
    decreases 16 - i,
{
    if i >= 16 {
        (s, regs, Ok(Lpf { code: 16, bandwidth: band, lsb: 0 }))
    } else {
        let (s1, regs1, r1) = imr::probe::<B>(s, addr, regs, lpf_code_program(i));
        match r1 {
            Err(e) => (s1, regs1, Err(e)),
            Ok(v) => {
                let against = if i == 0 {
                    match given {
                        Some(g) => g,
                        None => v,
                    }
                } else {
                    val
                };
                if v + gap >= against {
                    lpf_code_from::<B>(
                        s1,
                        addr,
                        regs1,
                        band,
                        gap,
                        given,
                        (i + 1) as u8,
                        against,
                    )
                } else if i == 0 {
                    (s1, regs1, Err(error("R850: LPF calibration failed")))
                } else {
                    let (s2, regs2, r2) = imr::probe::<B>(s1, addr, regs1, lpf_half_program(i));
                    match r2 {
                        Err(e) => (s2, regs2, Err(e)),
                        Ok(half) => (
                            s2,
                            regs2,
                            Ok(
                                if half + gap < against {
                                    Lpf { code: (i - 1) as u8, bandwidth: band, lsb: 1 }
                                } else {
                                    Lpf { code: i, bandwidth: band, lsb: 0 }
                                },
                            ),
                        ),
                    }
                }
            },
        }
    }
}

pub(crate) fn find_code<B: I2c>(
    i2c: &mut B,
    addr: u8,
    regs: &mut Vec<u8>,
    band: u8,
    gap: u8,
    given: Option<u8>,
) -> (r: Result<Lpf, Error>)
    requires
        old(regs)@.len() == 48,
    ensures
        final(regs)@.len() == 48,
        (final(i2c).state(), final(regs)@, r) == lpf_code_from::<B>(
            old(i2c).state(),
            addr,
            old(regs)@,
            band,
            gap,
            given,
            0,
            0,
        ),
{
    let ghost whole = lpf_code_from::<B>(i2c.state(), addr, regs@, band, gap, given, 0, 0);
    let mut val: u8 = 0;
    let mut i: u8 = 0;
    while i < 16
        invariant
            i <= 16,
            regs@.len() == 48,
            whole == lpf_code_from::<B>(old(i2c).state(), addr, old(regs)@, band, gap, given, 0, 0),
            lpf_code_from::<B>(i2c.state(), addr, regs@, band, gap, given, i, val) == whole,
        decreases 16 - i,
    {
        let mut ops: Vec<Op> = Vec::new();
        ops.push(field(0x17, 0xe1, (i << 1) & 0x1e));
        ops.push(out(0x17, 1));
        ops.push(Op::Delay { ms: 5 });
        assert(ops@ =~= lpf_code_program(i));
        let v: u8 = match try_out(i2c, addr, regs, &ops) {
            Ok(v) => v,
            Err(e) => return Err(e),
        };
        if i == 0 {
            val = match given {
                Some(g) => g,
                None => v,
            };
        }
        if (v as u16) + (gap as u16) < val as u16 {
            if i == 0 {
                return Err(error("R850: LPF calibration failed"));
            }
            let mut last: Vec<Op> = Vec::new();
            last.push(field(0x17, 0xe0, 1 | (((i - 1) << 1) & 0x1e)));
            last.push(out(0x17, 1));
            last.push(Op::Delay { ms: 5 });
            assert(last@ =~= lpf_half_program(i));
            let half: u8 = match try_out(i2c, addr, regs, &last) {
                Ok(v) => v,
                Err(e) => return Err(e),
            };
            if (half as u16) + (gap as u16) < val as u16 {
                return Ok(Lpf { code: i - 1, bandwidth: band, lsb: 1 });
            }
            return Ok(Lpf { code: i, bandwidth: band, lsb: 0 });
        }
        i = i + 1;
    }
    Ok(Lpf { code: 16, bandwidth: band, lsb: 0 })
}

} // verus!
