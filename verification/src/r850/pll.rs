//! The PLL of the R850.

use vstd::prelude::*;

use crate::r850::tables::System;
use crate::shadow;
use crate::shadow::{field, out, Op};

verus! {

broadcast use {
    crate::shadow::fits_nothing,
    crate::shadow::fits_one_more,
    crate::shadow::fits_both,
};

/// The crystals the maths of the PLL hold for.
pub open spec fn xtal_fits(xtal: u32) -> bool {
    140 <= xtal <= 0x7fff_ffff
}

/// What [`pll_sdm`] gives, from bit `nsdm` on: each bit stands for half of what
/// the one before it does, from the crystal frequency down.
pub open spec fn sdm_from(fra: u16, xtal: u32, nsdm: u32, sdm: u32) -> u32
    decreases 0x10000 - nsdm,
{
    if fra <= 1 || nsdm > 0x8000 || nsdm < 2 {
        sdm
    } else {
        let step = ((xtal * 2) as u32) / nsdm;
        if step < fra {
            let sdm1 = (sdm + 0x8000u32 / (nsdm / 2)) as u32;
            if nsdm == 0x8000 {
                sdm1
            } else {
                sdm_from((fra - step) as u16, xtal, (nsdm * 2) as u32, sdm1)
            }
        } else {
            sdm_from(fra, xtal, (nsdm * 2) as u32, sdm)
        }
    }
}

/// The values `nsdm` takes: the powers of two from 2 to 0x10000.
pub open spec fn is_step(nsdm: u32) -> bool {
    nsdm == 2 || nsdm == 4 || nsdm == 8 || nsdm == 0x10 || nsdm == 0x20 || nsdm == 0x40 || nsdm
        == 0x80 || nsdm == 0x100 || nsdm == 0x200 || nsdm == 0x400 || nsdm == 0x800 || nsdm
        == 0x1000 || nsdm == 0x2000 || nsdm == 0x4000 || nsdm == 0x8000 || nsdm == 0x10000
}

/// Each bit weighs half of the one before it.
pub proof fn weight_halves(nsdm: u32)
    requires
        is_step(nsdm),
        nsdm <= 0x8000,
    ensures
        2 * (0x8000u32 / (((nsdm + nsdm) as u32) / 2)) == 0x8000u32 / (nsdm / 2),
        0x8000u32 / (nsdm / 2) >= 2,
{
    let twice: u32 = (nsdm + nsdm) as u32;
    assert(2 * (0x8000u32 / (twice / 2)) == 0x8000u32 / (nsdm / 2) && 0x8000u32 / (nsdm / 2) >= 2)
        by (bit_vector)
        requires
            is_step(nsdm),
            nsdm <= 0x8000,
            twice == nsdm + nsdm,
    ;
}

/// The fractional part of the PLL divider, found bit by bit.
pub fn pll_sdm(vco_fra: u16, xtal: u32) -> (r: u16)
    requires
        xtal <= 0x7fff_ffff,
    ensures
        r == sdm_from(vco_fra, xtal, 2, 0),
{
    let mut fra: u16 = vco_fra;
    let mut nsdm: u32 = 2;
    let mut sdm: u32 = 0;
    while fra > 1 && nsdm <= 0x8000
        invariant
            xtal <= 0x7fff_ffff,
            is_step(nsdm),
            sdm + 2 * (0x8000u32 / (nsdm / 2)) <= 0x10000,
            sdm < 0x10000,
            sdm_from(fra, xtal, nsdm, sdm) == sdm_from(vco_fra, xtal, 2, 0),
        decreases 0x20000 - nsdm,
    {
        proof {
            weight_halves(nsdm);
        }
        let step: u32 = xtal * 2 / nsdm;
        if step < fra as u32 {
            fra = fra - step as u16;
            sdm = sdm + 0x8000 / (nsdm / 2);
            if nsdm == 0x8000 {
                return sdm as u16;
            }
        }
        nsdm = nsdm + nsdm;
    }
    sdm as u16
}

/// The lowest frequency of the VCO in kHz; the highest is below twice that.
pub open spec fn vco_min(chip: usize) -> u32 {
    if chip != 0 {
        2_200_000
    } else {
        2_270_000
    }
}

/// The divider of the mixer for a setting.
pub open spec fn mixer_divider(div: u8) -> u32 {
    if div == 0 {
        2
    } else if div == 1 {
        4
    } else if div == 2 {
        8
    } else if div == 3 {
        16
    } else if div == 4 {
        32
    } else if div == 5 {
        64
    } else {
        128
    }
}

/// The setting of the divider of the mixer: the first from `div` on that brings
/// the VCO into its range, 6 if none does.
pub open spec fn mixer_setting(lo_freq: u32, chip: usize, div: u8) -> u8
    decreases 6 - div,
{
    if div >= 6 {
        6
    } else if vco_min(chip) <= lo_freq * mixer_divider(div) < 2 * vco_min(chip) {
        div
    } else {
        mixer_setting(lo_freq, chip, (div + 1) as u8)
    }
}

fn find_mixer(lo_freq: u32, chip: usize) -> (r: (u8, u32))
    requires
        lo_freq < 2_200_000,
    ensures
        r.0 == mixer_setting(lo_freq, chip, 0),
        r.1 == mixer_divider(r.0),
        r.0 <= 6,
        lo_freq * r.1 < 2 * vco_min(chip),
{
    let min: u32 = if chip != 0 { 2_200_000 } else { 2_270_000 };
    let max: u32 = min * 2;
    let mut div: u8 = 0;
    let mut mix_div: u32 = 2;
    while div < 6
        invariant
            lo_freq < 2_200_000,
            min == vco_min(chip),
            max == 2 * min,
            div <= 6,
            mix_div == mixer_divider(div),
            lo_freq * mix_div < max,
            mixer_setting(lo_freq, chip, div) == mixer_setting(lo_freq, chip, 0),
        decreases 6 - div,
    {
        let vco: u32 = lo_freq * mix_div;
        if min <= vco && vco < max {
            return (div, mix_div);
        }
        assert(lo_freq * (mix_div * 2) == 2 * (lo_freq * mix_div)) by (nonlinear_arith);
        mix_div = mix_div * 2;
        div = div + 1;
    }
    (div, mix_div)
}

/// The crystal as the PLL takes it, divided by 1, 2 or 4, and the setting for
/// that.
pub open spec fn xtal_division(xtal: u32, lo_freq: u32, if_freq: u32, sys: Option<System>) -> (
    u32,
    u8,
) {
    match sys {
        None => (xtal, 0u8),
        Some(system) => if lo_freq < 380_500 {
            if div_judge(lo_freq, if_freq) % 2 == 0 {
                (xtal / 2, 2u8)
            } else {
                (xtal, 0u8)
            }
        } else if 478_000 <= lo_freq + if_freq < 482_000 && system == System::IsdbT {
            (xtal / 4, 3u8)
        } else {
            (xtal, 0u8)
        },
    }
}

/// The frequency received, in units of half a crystal of 24 MHz.
pub open spec fn div_judge(lo_freq: u32, if_freq: u32) -> int {
    (lo_freq + if_freq) / 1000 / 12
}

/// The divider of the PLL: its whole part, and what is left of the VCO frequency
/// in kHz, moved away from the values the PLL does not lock on.
pub open spec fn pll_divider(vco: u32, xtal: u32) -> (u16, u16) {
    let nint = ((vco / 2) / xtal) as u16;
    let fra = (vco - xtal * 2 * nint) as u16;
    let x = xtal as int;
    if fra < x / 64 {
        (nint, 0u16)
    } else if fra > x * 127 / 64 {
        ((nint + 1) as u16, 0u16)
    } else if fra > x * 127 / 128 && x > fra {
        (nint, (x * 127 / 128) as u16)
    } else if x < fra && fra < x * 129 / 128 {
        (nint, (x * 129 / 128) as u16)
    } else {
        (nint, fra)
    }
}

fn split_divider(vco: u32, xtal: u32) -> (r: (u16, u16))
    requires
        vco < 4_540_000,
        35 <= xtal <= 0x7fff_ffff,
    ensures
        r == pll_divider(vco, xtal),
{
    assert((vco / 2) / xtal <= 64_858 && xtal * 2 * ((vco / 2) / xtal) <= vco) by (nonlinear_arith)
        requires
            vco < 4_540_000,
            35 <= xtal,
    ;
    let nint: u16 = ((vco / 2) / xtal) as u16;
    let fra: u16 = (vco - xtal * 2 * nint as u32) as u16;
    if (fra as u32) < xtal / 64 {
        (nint, 0)
    } else if fra as u32 > xtal * 127 / 64 {
        (nint + 1, 0)
    } else if fra as u32 > xtal * 127 / 128 && xtal > fra as u32 {
        (nint, (xtal * 127 / 128) as u16)
    } else if xtal < fra as u32 && (fra as u32) < xtal * 129 / 128 {
        (nint, (xtal * 129 / 128) as u16)
    } else {
        (nint, fra)
    }
}

/// A division by 4 that rounds toward zero.
pub open spec fn quarter(n: int) -> int {
    if n >= 0 {
        n / 4
    } else {
        -((-n) / 4)
    }
}

/// The two settings for the whole part of the divider.
pub open spec fn nint_settings(nint: u16) -> (u8, u8) {
    let ni = quarter(nint - 13) as u8;
    (ni, (nint - 13 - ni * 4) as u8)
}

fn split_nint(nint: u16) -> (r: (u8, u8))
    ensures
        r == nint_settings(nint),
{
    let n: i32 = nint as i32 - 13;
    let q: i32 = if n >= 0 { n / 4 } else { -((-n) / 4) };
    let ni: u8 = q as u8;
    (ni, (n - ni as i32 * 4) as u8)
}

/// The setting of the crystal driver for a local oscillator frequency.
pub open spec fn xtal_drive(lo_freq: u32, pwr: u8) -> u8 {
    if lo_freq < 100_000 {
        if pwr > 1 {
            (3 - pwr) as u8
        } else {
            2
        }
    } else if lo_freq < 130_000 {
        if pwr > 2 {
            (3 - pwr) as u8
        } else {
            1
        }
    } else {
        0
    }
}

/// The program that sets the capacitance at the crystal.
pub open spec fn xtal_cap_program(cap: u8) -> Seq<Op> {
    let (c, g) = if cap > 0x1f {
        ((cap - 10) as u8, 0x80u8)
    } else {
        (cap, 0x00u8)
    };
    seq![field(0x21, 0x07, ((c << 2) & 0x78) | g)]
        .push(field(0x22, 0xf7, (c << 3) & 0x08))
}

fn set_xtal_cap(cap: u8) -> (r: Vec<Op>)
    ensures
        shadow::built(r, xtal_cap_program(cap), 48),
{
    let (c, g): (u8, u8) = if cap > 0x1f { (cap - 10, 0x80) } else { (cap, 0x00) };
    let mut ops: Vec<Op> = Vec::new();
    ops.push(field(0x21, 0x07, ((c << 2) & 0x78) | g));
    ops.push(field(0x22, 0xf7, (c << 3) & 0x08));
    ops
}

/// The program that prepares the PLL.
pub open spec fn pll_start(chip: usize, pwr: u8, lo_freq: u32, if_freq: u32) -> Seq<Op> {
    let judge = div_judge(lo_freq, if_freq);
    (seq![field(0x20, 0xfc, 0)]
        .push(field(0x2e, 0xff, 0x40))
        .push(field(0x0c, 0x3c, 0))
        .push(field(0x09, 0xf9, 0))
        .push(field(0x22, 0x3f, 0))
        .push(field(0x0b, 0xc3, 0x10))
        .push(field(0x25, 0xef, 0x20)) + xtal_cap_program(0x27)).push(field(0x22, 0xcf, (xtal_drive(lo_freq, pwr) << 4) & 0x30)).push(
        field(0x1e, 0x1f, 0),
    ).push(
        field(
            0x25,
            0xfd,
            if judge == 4 || judge == 10 || judge == 22 || judge == 24 || judge == 28 {
                0x02
            } else {
                0
            },
        ),
    ).push(field(0x2f, if chip != 0 { 0xfd } else { 0xfc }, 0))
}

fn start_pll(chip: usize, pwr: u8, lo_freq: u32, if_freq: u32) -> (r: Vec<Op>)
    requires
        pwr <= 3,
        lo_freq + if_freq <= u32::MAX,
    ensures
        shadow::built(r, pll_start(chip, pwr, lo_freq, if_freq), 48),
{
    let drive: u8 = if lo_freq < 100_000 {
        if pwr > 1 { 3 - pwr } else { 2 }
    } else if lo_freq < 130_000 {
        if pwr > 2 { 3 - pwr } else { 1 }
    } else {
        0
    };
    let judge: u32 = (lo_freq + if_freq) / 1000 / 12;
    let mut ops: Vec<Op> = Vec::new();
    ops.push(field(0x20, 0xfc, 0));
    ops.push(field(0x2e, 0xff, 0x40));
    ops.push(field(0x0c, 0x3c, 0));
    ops.push(field(0x09, 0xf9, 0));
    ops.push(field(0x22, 0x3f, 0));
    ops.push(field(0x0b, 0xc3, 0x10));
    ops.push(field(0x25, 0xef, 0x20));
    let mut cap: Vec<Op> = set_xtal_cap(0x27);
    ops.append(&mut cap);
    ops.push(field(0x22, 0xcf, (drive << 4) & 0x30));
    ops.push(field(0x1e, 0x1f, 0));
    ops.push(
        field(
            0x25,
            0xfd,
            if judge == 4 || judge == 10 || judge == 22 || judge == 24 || judge == 28 {
                0x02
            } else {
                0
            },
        ),
    );
    ops.push(field(0x2f, if chip != 0 { 0xfd } else { 0xfc }, 0));
    ops
}

/// The program that sets the dividers of the mixer and the PLL.
pub open spec fn pll_dividers(xtal_setting: u8, div: u8, ni: u8, si: u8, sdm: u16) -> Seq<Op> {
    let mix_div = mixer_divider(div);
    seq![field(0x22, 0xfc, xtal_setting)]
        .push(field(0x0b, 0xfe, 0))
        .push(field(0x2d, 0xf3, if mix_div == 8 { 0x04 } else if mix_div == 16 { 0x08 } else if mix_div >= 32 { 0x0c } else { 0 }))
        .push(field(0x2e, 0xfc, if mix_div <= 4 { 0x01 } else { 0x02 }))
        .push(field(0x20, 0xec, if mix_div <= 4 { 0 } else { 0x01 }))
        .push(field(0x11, 0x7f, if mix_div == 8 { 0x80 } else { 0 }))
        .push(field(0x1e, 0xe3, (div << 2) & 0x1c))
        .push(field(0x1b, 0x80, ni & 0x7f))
        .push(field(0x1e, 0xfc, si & 0x03))
        .push(field(0x20, 0x3f, 0))
        .push(field(0x1c, 0x00, sdm as u8))
        .push(field(0x1d, 0x00, (sdm >> 8) as u8))
}

fn set_dividers(xtal_setting: u8, div: u8, ni: u8, si: u8, sdm: u16) -> (r: Vec<Op>)
    ensures
        shadow::built(r, pll_dividers(xtal_setting, div, ni, si, sdm), 48),
{
    let mut ops: Vec<Op> = Vec::new();
    ops.push(field(0x22, 0xfc, xtal_setting));
    ops.push(field(0x0b, 0xfe, 0));
    ops.push(
        field(
            0x2d,
            0xf3,
            match div {
                0 | 1 => 0,
                2 => 0x04,
                3 => 0x08,
                _ => 0x0c,
            },
        ),
    );
    ops.push(field(0x2e, 0xfc, if div <= 1 { 0x01 } else { 0x02 }));
    ops.push(field(0x20, 0xec, if div <= 1 { 0 } else { 0x01 }));
    ops.push(field(0x11, 0x7f, if div == 2 { 0x80 } else { 0 }));
    ops.push(field(0x1e, 0xe3, (div << 2) & 0x1c));
    ops.push(field(0x1b, 0x80, ni & 0x7f));
    ops.push(field(0x1e, 0xfc, si & 0x03));
    ops.push(field(0x20, 0x3f, 0));
    ops.push(field(0x1c, 0x00, sdm as u8));
    ops.push(field(0x1d, 0x00, (sdm >> 8) as u8));
    ops
}

/// The program that sets the PLL: everything is written out at once, and the
/// calibration of the VCO is started once the crystal has settled.
#[verifier::opaque]
pub open spec fn pll_program(
    xtal: u32,
    chip: usize,
    pwr: u8,
    lo_freq: u32,
    if_freq: u32,
    sys: Option<System>,
) -> Seq<Op> {
    let div = mixer_setting(lo_freq, chip, 0);
    let (divided, setting) = xtal_division(xtal, lo_freq, if_freq, sys);
    let (nint, fra) = pll_divider((lo_freq * mixer_divider(div)) as u32, divided);
    let (ni, si) = nint_settings(nint);
    let sdm = sdm_from(fra, divided, 2, 0) as u16;
    (pll_start(chip, pwr, lo_freq, if_freq) + pll_dividers(setting, div, ni, si, sdm)).push(
        out(0x08, 0x28),
    ).push(
        Op::Delay {
            ms: if setting == 0 {
                10
            } else if setting == 2 {
                20
            } else {
                40
            },
        },
    ).push(field(0x2f, if chip != 0 { 0xff } else { 0xfc }, 0x02)).push(out(0x2f, 1))
}

/// Whether the PLL can be set for a frequency.
pub open spec fn lo_fits(lo_freq: u32, if_freq: u32) -> bool {
    lo_freq < 2_200_000 && if_freq < 2_200_000
}

/// Builds the program that sets the PLL.
pub(crate) fn set_pll(xtal: u32, chip: usize, pwr: u8, lo_freq: u32, if_freq: u32, sys: Option<System>) -> (r:
    Vec<Op>)
    requires
        xtal_fits(xtal),
        pwr <= 3,
        lo_fits(lo_freq, if_freq),
    ensures
        shadow::built(r, pll_program(xtal, chip, pwr, lo_freq, if_freq, sys), 48),
{
    reveal(pll_program);
    let (div, mix_div) = find_mixer(lo_freq, chip);
    let (divided, setting): (u32, u8) = match sys {
        None => (xtal, 0),
        Some(system) => if lo_freq < 380_500 {
            if ((lo_freq + if_freq) / 1000 / 12) % 2 == 0 { (xtal / 2, 2) } else { (xtal, 0) }
        } else if (lo_freq + if_freq).wrapping_sub(478_000) < 4000 && system == System::IsdbT {
            (xtal / 4, 3)
        } else {
            (xtal, 0)
        },
    };
    let (nint, fra) = split_divider(lo_freq * mix_div, divided);
    let (ni, si) = split_nint(nint);
    let sdm: u16 = pll_sdm(fra, divided);
    let mut ops: Vec<Op> = start_pll(chip, pwr, lo_freq, if_freq);
    let mut dividers: Vec<Op> = set_dividers(setting, div, ni, si, sdm);
    ops.append(&mut dividers);
    ops.push(out(0x08, 0x28));
    ops.push(
        Op::Delay {
            ms: match setting {
                0 => 10,
                2 => 20,
                _ => 40,
            },
        },
    );
    ops.push(field(0x2f, if chip != 0 { 0xff } else { 0xfc }, 0x02));
    ops.push(out(0x2f, 1));
    ops
}

/// A frequency of the mixer the divider can bring to the VCO is brought into its
/// range.
pub proof fn vco_in_range(lo_freq: u32, chip: usize)
    requires
        lo_freq < vco_min(chip) <= lo_freq * 128,
    ensures
        vco_min(chip) <= lo_freq * mixer_divider(mixer_setting(lo_freq, chip, 0)) < 2 * vco_min(
            chip,
        ),
{
    reveal_with_fuel(mixer_setting, 8);
    let min = vco_min(chip);
    if lo_freq * 2 >= min {
        assert(mixer_setting(lo_freq, chip, 0) == 0);
    } else if lo_freq * 4 >= min {
        assert(mixer_setting(lo_freq, chip, 0) == 1);
    } else if lo_freq * 8 >= min {
        assert(mixer_setting(lo_freq, chip, 0) == 2);
    } else if lo_freq * 16 >= min {
        assert(mixer_setting(lo_freq, chip, 0) == 3);
    } else if lo_freq * 32 >= min {
        assert(mixer_setting(lo_freq, chip, 0) == 4);
    } else if lo_freq * 64 >= min {
        assert(mixer_setting(lo_freq, chip, 0) == 5);
    } else {
        assert(mixer_setting(lo_freq, chip, 0) == 6);
    }
}

/// The bits from one on add up to less than the one before it, and none is the
/// lowest.
proof fn sdm_stays_below(fra: u16, xtal: u32, nsdm: u32, sdm: u32)
    requires
        is_step(nsdm),
        nsdm <= 0x8000,
        sdm + 2 * (0x8000u32 / (nsdm / 2)) <= 0x10000,
        sdm % 2 == 0,
    ensures
        ({
            let end = sdm_from(fra, xtal, nsdm, sdm);
            sdm <= end <= sdm + 2 * (0x8000u32 / (nsdm / 2)) - 2 && end % 2 == 0
        }),
    decreases 0x10000 - nsdm,
{
    weight_halves(nsdm);
    weight_is_even(nsdm);
    let step = ((xtal * 2) as u32) / nsdm;
    let weight = 0x8000u32 / (nsdm / 2);
    if fra > 1 && nsdm < 0x8000 {
        let next = (nsdm * 2) as u32;
        if step < fra {
            sdm_stays_below((fra - step) as u16, xtal, next, (sdm + weight) as u32);
        } else {
            sdm_stays_below(fra, xtal, next, sdm);
        }
    } else if fra > 1 {
        reveal_with_fuel(sdm_from, 2);
    }
}

proof fn weight_is_even(nsdm: u32)
    requires
        is_step(nsdm),
        nsdm <= 0x8000,
    ensures
        0x8000u32 / (nsdm / 2) % 2 == 0,
        nsdm < 0x8000 ==> is_step((nsdm * 2) as u32),
        nsdm == 0x8000 ==> 0x8000u32 / (nsdm / 2) == 2,
{
    assert(0x8000u32 / (nsdm / 2) % 2 == 0 && (nsdm == 0x8000 ==> 0x8000u32 / (nsdm / 2) == 2))
        by (bit_vector)
        requires
            is_step(nsdm),
            nsdm <= 0x8000,
    ;
}

proof fn sdm_grows_from(low: u16, high: u16, xtal: u32, nsdm: u32, sdm: u32)
    requires
        low <= high,
        is_step(nsdm),
        nsdm <= 0x8000,
        sdm + 2 * (0x8000u32 / (nsdm / 2)) <= 0x10000,
        sdm % 2 == 0,
    ensures
        sdm_from(low, xtal, nsdm, sdm) <= sdm_from(high, xtal, nsdm, sdm),
    decreases 0x10000 - nsdm,
{
    sdm_stays_below(high, xtal, nsdm, sdm);
    weight_halves(nsdm);
    weight_is_even(nsdm);
    let step = ((xtal * 2) as u32) / nsdm;
    let weight = 0x8000u32 / (nsdm / 2);
    if low > 1 && nsdm < 0x8000 {
        let next = (nsdm * 2) as u32;
        let more = (sdm + weight) as u32;
        if step < low {
            sdm_grows_from((low - step) as u16, (high - step) as u16, xtal, next, more);
        } else if step < high {
            sdm_stays_below(low, xtal, next, sdm);
            sdm_stays_below((high - step) as u16, xtal, next, more);
        } else {
            sdm_grows_from(low, high, xtal, next, sdm);
        }
    } else if low > 1 {
        reveal_with_fuel(sdm_from, 2);
    }
}

/// A larger fraction never gets a smaller setting, and the lowest bit of the
/// setting is never set.
pub proof fn sdm_grows_with_the_fraction(low: u16, high: u16, xtal: u32)
    requires
        low <= high,
        xtal <= 0x7fff_ffff,
    ensures
        sdm_from(low, xtal, 2, 0) <= sdm_from(high, xtal, 2, 0) <= 0xfffe,
        sdm_from(low, xtal, 2, 0) % 2 == 0,
        sdm_from(high, xtal, 2, 0) % 2 == 0,
{
    sdm_stays_below(low, xtal, 2, 0);
    sdm_stays_below(high, xtal, 2, 0);
    sdm_grows_from(low, high, xtal, 2, 0);
}

/// What a bit stands for is near its share of the crystal frequency.
proof fn bit_is_near(xtal: u32, nsdm: u32)
    requires
        xtal <= 0x7fff_ffff,
        is_step(nsdm),
        nsdm <= 0x8000,
    ensures
        ({
            let step = ((xtal * 2) as u32) / nsdm;
            let weight = 0x8000u32 / (nsdm / 2);
            &&& 0 <= (xtal * 2) * weight - step * 0x10000 < 0x10000
            &&& ((xtal * 2) as u32) / (nsdm / 2) <= 2 * step + 1
            &&& nsdm == 2 || is_step(nsdm / 2)
            &&& nsdm == 0x8000 || is_step((nsdm * 2) as u32)
        }),
{
    let twice = (xtal * 2) as u32;
    let step = twice / nsdm;
    let rest = twice % nsdm;
    let weight = 0x8000u32 / (nsdm / 2);
    assert(nsdm * (0x8000u32 / (nsdm / 2)) == 0x10000) by (bit_vector)
        requires
            is_step(nsdm),
            nsdm <= 0x8000,
    ;
    assert(weight > 0) by (nonlinear_arith)
        requires
            nsdm * weight == 0x10000,
            weight >= 0,
    ;
    assert(twice == nsdm * step + rest) by {
        vstd::arithmetic::div_mod::lemma_fundamental_div_mod(twice as int, nsdm as int);
    }
    assert(twice * weight == step * 0x10000 + rest * weight) by (nonlinear_arith)
        requires
            twice == nsdm * step + rest,
            nsdm * weight == 0x10000,
    ;
    assert(0 <= rest * weight < 0x10000) by (nonlinear_arith)
        requires
            0 <= rest < nsdm,
            nsdm * weight == 0x10000,
            weight > 0,
    ;
    let half = nsdm / 2;
    let more = twice / half;
    assert(more <= 2 * step + 1) by (nonlinear_arith)
        requires
            twice == nsdm * step + rest,
            0 <= rest < nsdm,
            nsdm == 2 * half,
            half > 0,
            more == twice / half,
    ;
}

/// The bits from one on.
pub open spec fn bits_left(nsdm: u32) -> int
    decreases 0x10000 - nsdm,
{
    if nsdm < 2 || nsdm > 0x8000 {
        0
    } else {
        1 + bits_left((nsdm * 2) as u32)
    }
}

proof fn bits_are_some(nsdm: u32)
    ensures
        bits_left(nsdm) >= 0,
        nsdm == 0x8000 ==> bits_left(nsdm) == 1,
    decreases 0x10000 - nsdm,
{
    reveal_with_fuel(bits_left, 2);
    if 2 <= nsdm <= 0x8000 {
        bits_are_some((nsdm * 2) as u32);
    }
}

proof fn sdm_ends_near(fra: u16, xtal: u32, nsdm: u32, sdm: u32, bits: int)
    requires
        xtal <= 0x7fff_ffff,
        is_step(nsdm),
        nsdm <= 0x8000,
        sdm + 2 * (0x8000u32 / (nsdm / 2)) <= 0x10000,
        0 <= bits,
        fra <= ((xtal * 2) as u32) / (nsdm / 2) + bits,
    ensures
        ({
            let end = sdm_from(fra, xtal, nsdm, sdm);
            let last = ((xtal * 2) as u32) / 0x8000;
            let found = (xtal * 2) * end - (xtal * 2) * sdm;
            &&& fra * 0x10000 - (last + bits + bits_left(nsdm) + 1) * 0x10000 <= found
            &&& found <= fra * 0x10000 + bits_left(nsdm) * 0x10000
        }),
    decreases 0x10000 - nsdm,
{
    bit_is_near(xtal, nsdm);
    weight_halves(nsdm);
    bits_are_some(nsdm);
    bits_are_some((nsdm * 2) as u32);
    let step = ((xtal * 2) as u32) / nsdm;
    let weight = 0x8000u32 / (nsdm / 2);
    let next = (nsdm * 2) as u32;
    if fra <= 1 {
    } else if step < fra {
        let sdm1 = (sdm + weight) as u32;
        let fra1 = (fra - step) as u16;
        assert((xtal * 2) * sdm1 == (xtal * 2) * sdm + (xtal * 2) * weight) by (nonlinear_arith)
            requires
                sdm1 == sdm + weight,
        ;
        if nsdm == 0x8000 {
        } else {
            assert(next / 2 == nsdm);
            sdm_ends_near(fra1, xtal, next, sdm1, bits + 1);
        }
    } else if nsdm == 0x8000 {
        assert(sdm_from(fra, xtal, next, sdm) == sdm);
    } else {
        assert(next / 2 == nsdm);
        sdm_ends_near(fra, xtal, next, sdm, bits);
    }
}

/// The fraction found bit by bit is the one asked for, in parts of twice the crystal
/// frequency, to within the last bit and what rounding each of the 15 takes.
pub proof fn sdm_is_near(fra: u16, xtal: u32)
    requires
        xtal <= 0x7fff_ffff,
        fra <= xtal * 2,
    ensures
        ({
            let found = (xtal * 2) * sdm_from(fra, xtal, 2, 0);
            let last = ((xtal * 2) as u32) / 0x8000;
            &&& fra * 0x10000 - (last + 16) * 0x10000 <= found
            &&& found <= fra * 0x10000 + 15 * 0x10000
        }),
{
    reveal_with_fuel(bits_left, 17);
    assert(bits_left(2) == 15);
    sdm_ends_near(fra, xtal, 2, 0, 0);
}

/// The crystal by which the PLL counts, from what register 0x22 holds.
pub open spec fn counted_crystal(xtal: u32, r22: u8) -> int {
    if r22 & 0x03 == 0 {
        xtal as int
    } else if r22 & 0x03 == 2 {
        xtal as int / 2
    } else {
        xtal as int / 4
    }
}

/// The frequency of the VCO in parts of 0x10000 of a kHz, from what registers 0x1b to
/// 0x1e and 0x22 hold: twice the crystal, times the whole part and the fraction of the
/// divider.
pub open spec fn vco_of(xtal: u32, r1b: u8, r1c: u8, r1d: u8, r1e: u8, r22: u8) -> int {
    2 * counted_crystal(xtal, r22) * ((13 + 4 * (r1b & 0x7f) + (r1e & 0x03)) * 0x1_0000 + r1d
        * 0x100 + r1c)
}

/// What the mixer divides the VCO by, from what register 0x1e holds.
pub open spec fn mixer_of(r1e: u8) -> u32 {
    2u32 << ((r1e >> 2) & 0x07)
}

/// What register `r` of the chip holds after a program.
pub open spec fn left_in(regs: Seq<u8>, file: Seq<u8>, ops: Seq<Op>, r: u8) -> u8 {
    shadow::at_end((regs[r as int], file[r as int]), ops, r).1
}

proof fn field_bits(v: u8, ni: u8, div: u8, si: u8, setting: u8)
    requires
        setting < 4,
        div < 8,
        si < 4,
    ensures
        ((v & 0x80) | (ni & 0x7f)) & 0x7f == ni & 0x7f,
        ((((((v & 0x1f) | 0) & 0xe3) | ((div << 2) & 0x1c)) & 0xfc) | (si & 0x03)) & 0x03 == si,
        ((((((((v & 0x1f) | 0) & 0xe3) | ((div << 2) & 0x1c)) & 0xfc) | (si & 0x03)) >> 2) & 0x07)
            == div,
        ((v & 0xfc) | setting) & 0x03 == setting,
{
    assert(((v & 0x80) | (ni & 0x7f)) & 0x7f == ni & 0x7f) by (bit_vector);
    assert(((((((v & 0x1f) | 0) & 0xe3) | ((div << 2) & 0x1c)) & 0xfc) | (si & 0x03)) & 0x03 == si
        && ((((((((v & 0x1f) | 0) & 0xe3) | ((div << 2) & 0x1c)) & 0xfc) | (si & 0x03)) >> 2)
        & 0x07) == div && ((v & 0xfc) | setting) & 0x03 == setting) by (bit_vector)
        requires
            setting < 4,
            div < 8,
            si < 4,
    ;
}

proof fn settings_left(
    xtal: u32,
    chip: usize,
    pwr: u8,
    lo_freq: u32,
    if_freq: u32,
    sys: Option<System>,
    regs: Seq<u8>,
    file: Seq<u8>,
)
    ensures
        ({
            let ops = pll_program(xtal, chip, pwr, lo_freq, if_freq, sys);
            let div = mixer_setting(lo_freq, chip, 0);
            let (divided, setting) = xtal_division(xtal, lo_freq, if_freq, sys);
            let (nint, fra) = pll_divider((lo_freq * mixer_divider(div)) as u32, divided);
            let (ni, si) = nint_settings(nint);
            let sdm = sdm_from(fra, divided, 2, 0) as u16;
            &&& left_in(regs, file, ops, 0x1b) & 0x7f == ni & 0x7f
            &&& left_in(regs, file, ops, 0x1c) == sdm as u8
            &&& left_in(regs, file, ops, 0x1d) == (sdm >> 8) as u8
            &&& si < 4 && div < 8 ==> left_in(regs, file, ops, 0x1e) & 0x03 == si
            &&& si < 4 && div < 8 ==> (left_in(regs, file, ops, 0x1e) >> 2) & 0x07 == div
            &&& left_in(regs, file, ops, 0x22) & 0x03 == setting
        }),
{
    broadcast use {
        crate::shadow::at_end_of_nothing,
        crate::shadow::at_end_of_one_more,
        crate::shadow::at_end_of_both,
    };

    reveal(pll_program);
    let div = mixer_setting(lo_freq, chip, 0);
    let (divided, setting) = xtal_division(xtal, lo_freq, if_freq, sys);
    let (nint, fra) = pll_divider((lo_freq * mixer_divider(div)) as u32, divided);
    let (ni, si) = nint_settings(nint);
    let sdm = sdm_from(fra, divided, 2, 0) as u16;
    let ops = pll_program(xtal, chip, pwr, lo_freq, if_freq, sys);
    let start = pll_start(chip, pwr, lo_freq, if_freq);
    let v1b = shadow::at_end((regs[0x1b], file[0x1b]), start, 0x1b).0;
    let v22 = shadow::at_end((regs[0x22], file[0x22]), start, 0x22).0;
    assert(left_in(regs, file, ops, 0x1b) == (v1b & 0x80) | (ni & 0x7f));
    assert(left_in(regs, file, ops, 0x22) == (v22 & 0xfc) | setting);
    let lo = sdm as u8;
    let hi = (sdm >> 8) as u8;
    let v1c = shadow::at_end((regs[0x1c], file[0x1c]), start, 0x1c).0;
    let v1d = shadow::at_end((regs[0x1d], file[0x1d]), start, 0x1d).0;
    assert((v1c & 0x00) | lo == lo && (v1d & 0x00) | hi == hi) by (bit_vector);
    field_bits(v1b, ni, 0, 0, 0);
    field_bits(v22, 0, 0, 0, setting);
    if si < 4 && div < 8 {
        field_bits(regs[0x1e], 0, div, si, 0);
    }
}

proof fn mixer_shifts(div: u8)
    requires
        div <= 6,
    ensures
        mixer_divider(div) == 2u32 << div,
{
    assert(2u32 << 0u8 == 2 && 2u32 << 1u8 == 4 && 2u32 << 2u8 == 8 && 2u32 << 3u8 == 16 && 2u32
        << 4u8 == 32 && 2u32 << 5u8 == 64 && 2u32 << 6u8 == 128) by (bit_vector);
}

/// The divider of the PLL stands for the frequency of the VCO, to within a part of 64
/// of the crystal and what rounding the fraction takes.
proof fn divider_is_near(vco: u32, divided: u32)
    requires
        2_200_000 <= vco < 4_540_000,
        4_350 <= divided < 0x8000,
    ensures
        ({
            let (nint, fra) = pll_divider(vco, divided);
            let sdm = sdm_from(fra, divided, 2, 0);
            let made = 2 * divided * (nint * 0x1_0000 + sdm);
            &&& 13 < nint <= 523
            &&& sdm <= 0xfffe
            &&& -(divided / 64 + 18) * 0x1_0000 <= made - vco * 0x1_0000 <= (divided / 64 + 18)
                * 0x1_0000
        }),
{
    let whole = (vco / 2) / divided;
    assert(33 <= whole <= 521 && 2 * divided * whole <= vco < 2 * divided * whole + 2 * divided + 1)
        by (nonlinear_arith)
        requires
            2_200_000 <= vco < 4_540_000,
            4_350 <= divided < 0x8000,
            whole == (vco / 2) / divided,
    ;
    assert(divided * 2 * whole == 2 * divided * whole) by (nonlinear_arith);
    let rest = vco - 2 * divided * whole;
    let (nint, fra) = pll_divider(vco, divided);
    assert((whole as u16) == whole);
    sdm_is_near(if fra <= divided * 2 { fra } else { 0 }, divided);
    sdm_grows_with_the_fraction(fra, fra, divided);
    let sdm = sdm_from(fra, divided, 2, 0);
    assert(2 * divided * (nint * 0x1_0000 + sdm) == (2 * divided * nint) * 0x1_0000 + (divided * 2)
        * sdm) by (nonlinear_arith);
    if nint == whole + 1 {
        assert(2 * divided * nint == 2 * divided * whole + 2 * divided) by (nonlinear_arith)
            requires
                nint == whole + 1,
        ;
    }
    if fra == 0 {
        assert((divided * 2) * 0 == 0);
    }
}

/// What the PLL is left with after a program is the frequency asked of the local
/// oscillator: the VCO its divider makes of the crystal, divided by the mixer, is that
/// frequency, to within a part of 64 of the crystal at the VCO.
pub proof fn oscillator_is_set(
    xtal: u32,
    chip: usize,
    pwr: u8,
    lo_freq: u32,
    if_freq: u32,
    sys: Option<System>,
    regs: Seq<u8>,
    file: Seq<u8>,
)
    requires
        17_400 <= xtal < 0x8000,
        xtal % 4 == 0,
        17_800 <= lo_freq < 2_200_000,
    ensures
        ({
            let ops = pll_program(xtal, chip, pwr, lo_freq, if_freq, sys);
            let r1e = left_in(regs, file, ops, 0x1e);
            let r22 = left_in(regs, file, ops, 0x22);
            let vco = vco_of(
                xtal,
                left_in(regs, file, ops, 0x1b),
                left_in(regs, file, ops, 0x1c),
                left_in(regs, file, ops, 0x1d),
                r1e,
                r22,
            );
            let off = (counted_crystal(xtal, r22) / 64 + 18) * 0x1_0000;
            &&& 2_200_000 <= lo_freq * mixer_of(r1e) < 4_540_000
            &&& -off <= vco - lo_freq * mixer_of(r1e) * 0x1_0000 <= off
        }),
{
    settings_left(xtal, chip, pwr, lo_freq, if_freq, sys, regs, file);
    vco_in_range(lo_freq, chip);
    let div = mixer_setting(lo_freq, chip, 0);
    setting_is_one(lo_freq, chip, 0);
    mixer_shifts(div);
    let (divided, setting) = xtal_division(xtal, lo_freq, if_freq, sys);
    let vco = (lo_freq * mixer_divider(div)) as u32;
    divider_is_near(vco, divided);
    let (nint, fra) = pll_divider(vco, divided);
    let (ni, si) = nint_settings(nint);
    assert(ni == (nint - 13) / 4);
    assert(ni & 0x7f == ni) by (bit_vector)
        requires
            ni <= 127,
    ;
    let sdm = sdm_from(fra, divided, 2, 0) as u16;
    assert((sdm as u8) + 0x100 * ((sdm >> 8) as u8) == sdm) by (bit_vector);
}

proof fn setting_is_one(lo_freq: u32, chip: usize, div: u8)
    requires
        div <= 6,
    ensures
        div <= mixer_setting(lo_freq, chip, div) <= 6,
    decreases 6 - div,
{
    if div < 6 {
        setting_is_one(lo_freq, chip, (div + 1) as u8);
    }
}

} // verus!
