//! What the calibrations and the look-ups of the R850 come to.

use vstd::prelude::*;

use crate::r850;
use crate::r850::fields;
use crate::r850::imr;
use crate::r850::imr::{Direction, Imr};
use crate::r850::mux;
use crate::r850::pll;
use crate::r850::tables;
use crate::r850::tables::{Bandwidth, FreqParams, FreqRow, Lpf, System, SystemParams, SystemRow};
use crate::r850::{Chip, SystemConfig};
use crate::shadow;
use crate::traits::I2c;

verus! {

/// What the ADC reads as settings along an axis are tried from `i` on.
pub open spec fn readings_along<B: I2c>(
    s: B::State,
    addr: u8,
    regs: Seq<u8>,
    direction: Direction,
    vals: Seq<u8>,
    i: int,
) -> Seq<u8>
    decreases vals.len() - i,
{
    if i < 0 || i >= vals.len() {
        Seq::empty()
    } else {
        let (s1, regs1, r) = imr::probe::<B>(s, addr, regs, imr::axis_program(direction, vals[i]));
        match r {
            Err(_) => Seq::empty(),
            Ok(v) => seq![v] + readings_along::<B>(s1, addr, regs1, direction, vals, i + 1),
        }
    }
}

/// What is found along an axis is the setting with the lowest reading: no reading is below
/// the one it gave, and it is what was known before, or one of those tried.
pub proof fn lowest_along_is_found<B: I2c>(
    s: B::State,
    addr: u8,
    regs: Seq<u8>,
    direction: Direction,
    vals: Seq<u8>,
    i: int,
    best: Imr,
)
    requires
        0 <= i <= vals.len(),
        imr::best_along::<B>(s, addr, regs, direction, vals, i, best).2 is Ok,
    ensures
        ({
            let found = imr::best_along::<B>(s, addr, regs, direction, vals, i, best).2->Ok_0;
            let seen = readings_along::<B>(s, addr, regs, direction, vals, i);
            &&& seen.len() == vals.len() - i
            &&& found.value <= best.value
            &&& forall|k: int| 0 <= k < seen.len() ==> found.value <= #[trigger] seen[k]
            &&& found == best || exists|k: int|
                #![trigger seen[k]]
                0 <= k < seen.len() && found.value == seen[k] && (match direction {
                    Direction::Gain => found.gain == vals[i + k] && found.phase == best.phase,
                    Direction::Phase => found.phase == vals[i + k] && found.gain == best.gain,
                }) && found.iqcap == best.iqcap
        }),
    decreases vals.len() - i,
{
    if i < vals.len() {
        let (s1, regs1, r) = imr::probe::<B>(s, addr, regs, imr::axis_program(direction, vals[i]));
        let v = r->Ok_0;
        let next = if best.value > v {
            imr::moved(best, direction, vals[i], v)
        } else {
            best
        };
        lowest_along_is_found::<B>(s1, addr, regs1, direction, vals, i + 1, next);
        let found = imr::best_along::<B>(s, addr, regs, direction, vals, i, best).2->Ok_0;
        let seen = readings_along::<B>(s, addr, regs, direction, vals, i);
        let rest = readings_along::<B>(s1, addr, regs1, direction, vals, i + 1);
        assert(seen =~= seq![v] + rest);
        assert(seen[0] == v);
        assert forall|k: int| 0 <= k < seen.len() implies found.value <= #[trigger] seen[k] by {
            if k > 0 {
                assert(seen[k] == rest[k - 1]);
            }
        }
        if found != next {
            let k = choose|k: int|
                #![trigger rest[k]]
                0 <= k < rest.len() && found.value == rest[k] && (match direction {
                    Direction::Gain => found.gain == vals[i + 1 + k] && found.phase == next.phase,
                    Direction::Phase => found.phase == vals[i + 1 + k] && found.gain == next.gain,
                }) && found.iqcap == next.iqcap;
            assert(seen[k + 1] == rest[k]);
        }
    }
}

/// What the ADC reads as the points of the cross are tried from `i` on.
pub open spec fn readings_on_cross<B: I2c>(s: B::State, addr: u8, regs: Seq<u8>, i: int) -> Seq<u8>
    decreases 9 - i,
{
    if i < 0 || i >= 9 {
        Seq::empty()
    } else {
        let (gain, phase) = imr::CROSS@[i];
        let (s1, regs1, r) = imr::probe::<B>(s, addr, regs, imr::point_program(gain, phase));
        match r {
            Err(_) => Seq::empty(),
            Ok(v) => seq![v] + readings_on_cross::<B>(s1, addr, regs1, i + 1),
        }
    }
}

/// What is found on the cross is the point with the lowest reading.
pub proof fn lowest_on_cross_is_found<B: I2c>(
    s: B::State,
    addr: u8,
    regs: Seq<u8>,
    i: int,
    best: Imr,
)
    requires
        0 <= i <= 9,
        imr::cross_from::<B>(s, addr, regs, i, best).2 is Ok,
    ensures
        ({
            let found = imr::cross_from::<B>(s, addr, regs, i, best).2->Ok_0;
            let seen = readings_on_cross::<B>(s, addr, regs, i);
            &&& seen.len() == 9 - i
            &&& found.value <= best.value
            &&& forall|k: int| 0 <= k < seen.len() ==> found.value <= #[trigger] seen[k]
            &&& found == best || exists|k: int|
                #![trigger seen[k]]
                0 <= k < seen.len() && found.value == seen[k] && (found.gain, found.phase)
                    == imr::CROSS@[i + k]
        }),
    decreases 9 - i,
{
    if i < 9 {
        let (gain, phase) = imr::CROSS@[i];
        let (s1, regs1, r) = imr::probe::<B>(s, addr, regs, imr::point_program(gain, phase));
        let v = r->Ok_0;
        let next = if best.value > v {
            Imr { gain, phase, value: v, ..best }
        } else {
            best
        };
        lowest_on_cross_is_found::<B>(s1, addr, regs1, i + 1, next);
        let found = imr::cross_from::<B>(s, addr, regs, i, best).2->Ok_0;
        let seen = readings_on_cross::<B>(s, addr, regs, i);
        let rest = readings_on_cross::<B>(s1, addr, regs1, i + 1);
        assert(seen =~= seq![v] + rest);
        assert(seen[0] == v);
        assert forall|k: int| 0 <= k < seen.len() implies found.value <= #[trigger] seen[k] by {
            if k > 0 {
                assert(seen[k] == rest[k - 1]);
            }
        }
        if found != next {
            let k = choose|k: int|
                #![trigger rest[k]]
                0 <= k < rest.len() && found.value == rest[k] && (found.gain, found.phase)
                    == imr::CROSS@[i + 1 + k];
            assert(seen[k + 1] == rest[k]);
        }
    }
}

/// What the ADC reads as the iqcaps are tried from `i` on.
pub open spec fn readings_of_iqcaps<B: I2c>(s: B::State, addr: u8, regs: Seq<u8>, i: u8) -> Seq<u8>
    decreases 3 - i,
{
    if i >= 3 {
        Seq::empty()
    } else {
        let (s1, regs1, r) = imr::probe::<B>(s, addr, regs, imr::iqcap_program(i));
        match r {
            Err(_) => Seq::empty(),
            Ok(v) => seq![v] + readings_of_iqcaps::<B>(s1, addr, regs1, (i + 1) as u8),
        }
    }
}

/// The iqcap that is found is the one with the lowest reading; the gain and the phase stay.
pub proof fn lowest_iqcap_is_found<B: I2c>(
    s: B::State,
    addr: u8,
    regs: Seq<u8>,
    i: u8,
    best: Imr,
)
    requires
        i <= 3,
        imr::iqcap_from::<B>(s, addr, regs, i, best).2 is Ok,
    ensures
        ({
            let found = imr::iqcap_from::<B>(s, addr, regs, i, best).2->Ok_0;
            let seen = readings_of_iqcaps::<B>(s, addr, regs, i);
            &&& seen.len() == 3 - i
            &&& found.gain == best.gain && found.phase == best.phase
            &&& found.value <= best.value
            &&& forall|k: int| 0 <= k < seen.len() ==> found.value <= #[trigger] seen[k]
            &&& found == best || i <= found.iqcap < 3 && found.value == seen[found.iqcap - i]
        }),
    decreases 3 - i,
{
    if i < 3 {
        let (s1, regs1, r) = imr::probe::<B>(s, addr, regs, imr::iqcap_program(i));
        let v = r->Ok_0;
        let next = if v < best.value {
            Imr { iqcap: i, value: v, ..best }
        } else {
            best
        };
        lowest_iqcap_is_found::<B>(s1, addr, regs1, (i + 1) as u8, next);
        let found = imr::iqcap_from::<B>(s, addr, regs, i, best).2->Ok_0;
        let seen = readings_of_iqcaps::<B>(s, addr, regs, i);
        let rest = readings_of_iqcaps::<B>(s1, addr, regs1, (i + 1) as u8);
        assert(seen =~= seq![v] + rest);
        assert(seen[0] == v);
        assert forall|k: int| 0 <= k < seen.len() implies found.value <= #[trigger] seen[k] by {
            if k > 0 {
                assert(seen[k] == rest[k - 1]);
            }
        }
    }
}

/// Going up along an axis never ends with a worse reading than it began with, and leaves
/// the other axis and the iqcap as they are.
pub proof fn steps_do_not_get_worse<B: I2c>(
    s: B::State,
    addr: u8,
    regs: Seq<u8>,
    direction: Direction,
    val: u8,
    best: Imr,
)
    requires
        imr::step_from::<B>(s, addr, regs, direction, val, best).2 is Ok,
    ensures
        ({
            let found = imr::step_from::<B>(s, addr, regs, direction, val, best).2->Ok_0;
            &&& found.value <= best.value
            &&& found.iqcap == best.iqcap
            &&& direction == Direction::Gain ==> found.phase == best.phase
            &&& direction == Direction::Phase ==> found.gain == best.gain
        }),
    decreases 16 - (val & 0x0f),
{
    if val & 0x0f <= 8 {
        imr::steps_up(val);
        let next = (val + 1) as u8;
        let (s1, regs1, r) = imr::probe::<B>(s, addr, regs, imr::axis_program(direction, next));
        let v = r->Ok_0;
        if best.value > v {
            steps_do_not_get_worse::<B>(
                s1,
                addr,
                regs1,
                direction,
                next,
                imr::moved(best, direction, next, v),
            );
        } else if best.value + 2 >= v {
            steps_do_not_get_worse::<B>(s1, addr, regs1, direction, next, best);
        }
    }
}

/// What a setting of the image rejection stands for: its lower four bits, negative if bit
/// 5 is set.
pub open spec fn signed(v: u8) -> int {
    if v / 32 % 2 == 1 {
        -(v % 16)
    } else {
        (v % 16) as int
    }
}

/// Whether a value is a setting that leaves room on either side.
pub open spec fn has_room(v: u8) -> bool {
    v <= 12 || 0x20 <= v <= 0x2c
}

proof fn sign_flips(v: u8)
    requires
        has_room(v),
    ensures
        v & 0x0f == v % 16,
        v ^ 0x20 == if v < 0x20 {
            v + 0x20
        } else {
            v - 0x20
        },
{
    assert(v & 0x0f == v % 16 && (v < 0x20 ==> v ^ 0x20 == v + 0x20) && (0x20 <= v && v <= 0x2c
        ==> v ^ 0x20 == v - 0x20)) by (bit_vector);
}

/// A tree tries a setting and those next to it on both sides of it: one on each for three,
/// two on each for five, across zero too.
pub proof fn trees_try_both_sides(v: u8)
    requires
        has_room(v),
    ensures
        ({
            let t = imr::tree_values(v, 3);
            let m = signed(v);
            &&& t.len() == 3
            &&& signed(t[0]) == m
            &&& signed(t[1]) - m == 1 && signed(t[2]) - m == -1 || signed(t[1]) - m == -1 && signed(
                t[2],
            ) - m == 1
        }),
        ({
            let t = imr::tree_values(v, 5);
            let m = signed(v);
            let e = signed(t[1]) - m;
            &&& t.len() == 5
            &&& signed(t[0]) == m
            &&& e == 1 || e == -1
            &&& signed(t[2]) == m + 2 * e
            &&& signed(t[3]) == m - e
            &&& signed(t[4]) == m - 2 * e
        }),
{
    sign_flips(v);
    if v % 16 > 0 {
        sign_flips((v - 1) as u8);
    }
}

/// The gains tried around one are that one and those next to it on both sides.
pub proof fn gains_are_on_both_sides(gain: u8)
    requires
        has_room(gain),
        gain != 0x20,
    ensures
        ({
            let g = imr::gains_around(gain);
            let m = signed(gain);
            &&& g.len() == 3
            &&& signed(g[1]) == m
            &&& signed(g[0]) + signed(g[2]) == 2 * m
            &&& signed(g[0]) - m == 1 || signed(g[0]) - m == -1
        }),
{
}

/// A setting is good within six steps of the middle on both axes.
pub proof fn good_settings_are_near_the_middle(imr: Imr)
    ensures
        imr::imr_is_good(imr) <==> -6 <= signed(imr.gain) <= 6 && -6 <= signed(imr.phase) <= 6,
{
    let (g, p) = (imr.gain, imr.phase);
    assert(g & 0x0f == g % 16 && p & 0x0f == p % 16) by (bit_vector);
}

/// The ring oscillator is received as the image would be: as far from the local oscillator
/// as the signal, on the other side of it.
pub proof fn rings_are_images(j: usize, mode: usize)
    ensures
        imr::ring_lo(j, mode) + r850::lo_of(mode, imr::ring(j, mode).freq, 5300) == 2 * imr::ring(
            j,
            mode,
        ).freq,
        imr::ring_lo(j, mode) != imr::ring(j, mode).freq,
{
}

/// Each calibration serves the frequencies around the one it was made at, and each that
/// builds on another comes after it.
pub proof fn calibrations_serve_their_frequencies(j: usize, mode: usize, k: int)
    requires
        j < 5,
        0 <= k < 5,
    ensures
        mux::imr_step(imr::ring(j, mode).freq) == j,
        !imr::ring(r850::RING_ORDER@[k], mode).full ==> exists|m: int|
            0 <= m < k && #[trigger] r850::RING_ORDER@[m] == imr::ring(
                r850::RING_ORDER@[k],
                mode,
            ).pre,
{
    reveal_with_fuel(mux::below_from, 6);
    assert(r850::RING_ORDER@[0] == 2 && r850::RING_ORDER@[1] == 1);
}

/// The step that serves a frequency is the first whose bound it is below, and the last if
/// there is none.
pub proof fn first_bound_above_serves<T>(freq: u32, steps: Seq<(u32, T)>, last: T, i: int, k: int)
    requires
        0 <= i <= k <= steps.len(),
        k < steps.len() ==> freq < steps[k].0,
        forall|m: int| i <= m < k ==> freq >= (#[trigger] steps[m]).0,
    ensures
        mux::below_from(freq, steps, last, i) == if k < steps.len() {
            steps[k].1
        } else {
            last
        },
    decreases k - i,
{
    if i < k {
        first_bound_above_serves(freq, steps, last, i + 1, k);
    }
}

/// A row for frequencies serves those from its lower bound to its upper one, for the
/// intermediate frequency it is for; where it says 0 it does not care.
pub proof fn rows_serve_their_frequencies(row: FreqRow, if_freq: u32, rf_freq: u32)
    ensures
        tables::serves(row, if_freq, rf_freq) == !((row.0 != 0 && row.0 != if_freq) || rf_freq
            < row.1 || (row.2 != 0 && row.2 < rf_freq)),
{
}

/// The row that is taken is the first that serves.
pub proof fn first_row_is_taken(
    rows: Seq<FreqRow>,
    if_freq: u32,
    rf_freq: u32,
    i: int,
    k: int,
)
    requires
        0 <= i <= k <= rows.len(),
        k < rows.len() ==> tables::serves(rows[k], if_freq, rf_freq),
        forall|m: int| i <= m < k ==> !tables::serves(#[trigger] rows[m], if_freq, rf_freq),
    ensures
        tables::first_freq(rows, if_freq, rf_freq, i) == if k < rows.len() {
            Some(tables::freq_row(rows[k]))
        } else {
            None
        },
    decreases k - i,
{
    if i < k {
        assert(!tables::serves(rows[i], if_freq, rf_freq));
        first_row_is_taken(rows, if_freq, rf_freq, i + 1, k);
    }
}

/// The row of a system that is taken is the first of its bandwidth and intermediate
/// frequency.
pub proof fn first_system_is_taken(
    rows: Seq<SystemRow>,
    bandwidth: Bandwidth,
    if_freq: u32,
    i: int,
    k: int,
)
    requires
        0 <= i <= k <= rows.len(),
        k < rows.len() ==> rows[k].0 == bandwidth && rows[k].1 == if_freq,
        forall|m: int|
            i <= m < k ==> (#[trigger] rows[m]).0 != bandwidth || rows[m].1 != if_freq,
    ensures
        tables::first_system(rows, bandwidth, if_freq, i) == if k < rows.len() {
            Some(tables::system_row(rows[k]))
        } else {
            None
        },
    decreases k - i,
{
    if i < k {
        assert(rows[i].0 != bandwidth || rows[i].1 != if_freq);
        first_system_is_taken(rows, bandwidth, if_freq, i + 1, k);
    }
}

/// What the front program leaves in the registers of the levels, from any `p`.
proof fn front_leaves(mode: usize, prm: FreqParams, p: (u8, u8))
    ensures
        ({
            let ops = fields::front_program(mode, prm);
            &&& shadow::at_end(p, ops, 0x26).0 == (((p.0 & 0xf8) | (((7 - prm.lna_top) as u8)
                & 0x07)) & 0x8f) | ((((7 - prm.rf_top) as u8) << 4) & 0x70)
            &&& shadow::at_end(p, ops, 0x27).0 == (p.0 & 0x00) | prm.lna_vtl_h
            &&& shadow::at_end(p, ops, 0x2a).0 == (p.0 & 0x00) | prm.rf_vtl_h
            &&& shadow::at_end(p, ops, 0x17) == p
        }),
{
    broadcast use {
        crate::shadow::at_end_of_nothing,
        crate::shadow::at_end_of_one_more,
    };

    reveal(fields::front_program);
}

proof fn middle_leaves(chip: usize, prm: FreqParams, p: (u8, u8))
    ensures
        ({
            let ops = fields::middle_program(chip, prm);
            &&& shadow::at_end(p, ops, 0x26) == p
            &&& shadow::at_end(p, ops, 0x27) == p
            &&& shadow::at_end(p, ops, 0x2a) == p
            &&& shadow::at_end(p, ops, 0x17) == p
            &&& shadow::at_end(p, ops, 0x28).0 == (p.0 & 0xf0) | (((15 - prm.mixer_top) as u8)
                & 0x0f)
            &&& shadow::at_end(p, ops, 0x29).0 == (p.0 & 0x00) | (((prm.filter_vth << 4) & 0xf0) | (
            prm.mixer_vth & 0x0f))
            &&& shadow::at_end(p, ops, 0x2b).0 == (p.0 & 0x00) | (((prm.filter_vtl << 4) & 0xf0) | (
            prm.mixer_vtl & 0x0f))
        }),
{
    broadcast use {
        crate::shadow::at_end_of_nothing,
        crate::shadow::at_end_of_one_more,
    };

    reveal(fields::middle_program);
}

proof fn discharge_leaves(prm: FreqParams, p: (u8, u8), r: u8)
    requires
        r == 0x17 || 0x26 <= r <= 0x2b,
    ensures
        shadow::at_end(p, fields::discharge_program(prm), r) == p,
{
    broadcast use {
        crate::shadow::at_end_of_nothing,
        crate::shadow::at_end_of_one_more,
    };

    reveal(fields::discharge_program);
}

proof fn back_leaves(c: Chip, sys: SystemConfig, prm: FreqParams, rf_freq: u32, p: (u8, u8), r: u8)
    requires
        r == 0x17 || 0x26 <= r <= 0x2b,
    ensures
        ({
            let ops = fields::back_program(c.config, sys.system, prm, rf_freq);
            if r == 0x28 {
                shadow::at_end(p, ops, r).0 == (p.0 & 0x0f) | ((((15 - prm.nrb_top) as u8) << 4)
                    & 0xf0)
            } else {
                shadow::at_end(p, ops, r) == p
            }
        }),
{
    broadcast use {
        crate::shadow::at_end_of_nothing,
        crate::shadow::at_end_of_one_more,
    };

    reveal(fields::back_program);
}

proof fn mux_leaves(c: Chip, lo_freq: u32, sys: Option<System>, p: (u8, u8), r: u8)
    requires
        r == 0x14 || r == 0x15 || r == 0x17 || 0x26 <= r <= 0x2b,
    ensures
        ({
            let ops = c.mux_program(lo_freq, sys);
            let (gain, phase, iqcap) = c.rejection(lo_freq, sys);
            if r == 0x14 {
                shadow::at_end(p, ops, r).0 == (p.0 & 0xd0) | (gain & 0x2f)
            } else if r == 0x15 {
                shadow::at_end(p, ops, r).0 == (p.0 & 0x10) | ((phase & 0x2f) | ((iqcap << 6)
                    & 0xc0))
            } else {
                shadow::at_end(p, ops, r) == p
            }
        }),
{
    broadcast use {
        crate::shadow::at_end_of_nothing,
        crate::shadow::at_end_of_one_more,
    };

    reveal(mux::mux_program);
}

pub(crate) proof fn pll_writes_out(
    xtal: u32,
    chip: usize,
    pwr: u8,
    lo_freq: u32,
    if_freq: u32,
    sys: Option<System>,
    p: (u8, u8),
    r: u8,
)
    requires
        r == 0x14 || r == 0x15 || r == 0x17 || 0x26 <= r <= 0x2b,
    ensures
        shadow::at_end(p, pll::pll_program(xtal, chip, pwr, lo_freq, if_freq, sys), r) == (
            p.0,
            p.0,
        ),
{
    broadcast use {
        crate::shadow::at_end_of_nothing,
        crate::shadow::at_end_of_one_more,
        crate::shadow::at_end_of_both,
    };

    reveal(pll::pll_program);
}

/// The bytes that two levels are put together to come apart as them.
proof fn levels_come_apart(v: u8, w: u8, x: u8, y: u8, a: u8, b: u8)
    requires
        a <= 7,
        b <= 7,
        x <= 15,
        y <= 15,
    ensures
        ((((v & 0xf8) | (a & 0x07)) & 0x8f) | ((b << 4) & 0x70)) % 8 == a,
        ((((v & 0xf8) | (a & 0x07)) & 0x8f) | ((b << 4) & 0x70)) / 16 % 8 == b,
        ((((v & 0xf0) | (x & 0x0f)) & 0x0f) | ((y << 4) & 0xf0)) % 16 == x,
        ((((v & 0xf0) | (x & 0x0f)) & 0x0f) | ((y << 4) & 0xf0)) / 16 == y,
        (v & 0x00) | (((w << 4) & 0xf0) | (x & 0x0f)) == w % 16 * 16 + x,
        (v & 0x00) | w == w,
{
    assert(((((v & 0xf8) | (a & 0x07)) & 0x8f) | ((b << 4) & 0x70)) % 8 == a && ((((v & 0xf8) | (a
        & 0x07)) & 0x8f) | ((b << 4) & 0x70)) / 16 % 8 == b && ((((v & 0xf0) | (x & 0x0f)) & 0x0f)
        | ((y << 4) & 0xf0)) % 16 == x && ((((v & 0xf0) | (x & 0x0f)) & 0x0f) | ((y << 4) & 0xf0))
        / 16 == y && (v & 0x00) | (((w << 4) & 0xf0) | (x & 0x0f)) == w % 16 * 16 + x && (v & 0x00)
        | w == w) by (bit_vector)
        requires
            a <= 7,
            b <= 7,
            x <= 15,
            y <= 15,
    ;
}

/// What the program that tunes leaves in a register of the levels, part by part.
proof fn tuning_goes_through(
    c: Chip,
    sys: SystemConfig,
    prm: FreqParams,
    rf_freq: u32,
    p: (u8, u8),
    r: u8,
)
    requires
        r == 0x17 || 0x26 <= r <= 0x2b,
    ensures
        ({
            let one = shadow::at_end(p, fields::front_program(c.mixer_mode, prm), r);
            let two = shadow::at_end(one, fields::middle_program(c.chip, prm), r);
            let back = fields::back_program(c.config, sys.system, prm, rf_freq);
            shadow::at_end(p, c.tuning_program(sys, prm, rf_freq), r).1 == shadow::at_end(
                two,
                back,
                r,
            ).0
        }),
{
    broadcast use crate::shadow::at_end_of_both;

    reveal(Chip::tuning_program);
    let lo_freq = r850::lo_of(c.mixer_mode, rf_freq, sys.if_freq);
    let one = shadow::at_end(p, fields::front_program(c.mixer_mode, prm), r);
    let two = shadow::at_end(one, fields::middle_program(c.chip, prm), r);
    discharge_leaves(prm, two, r);
    let three = shadow::at_end(
        two,
        fields::back_program(c.config, sys.system, prm, rf_freq),
        r,
    );
    mux_leaves(c, lo_freq, Some(sys.system), three, r);
    pll_writes_out(
        c.config.xtal,
        c.chip,
        c.xtal_pwr,
        lo_freq,
        sys.if_freq,
        Some(sys.system),
        three,
        r,
    );
}

/// The levels of a row reach the chip: the registers left by the program that tunes hold
/// how far each is below the most it can be, and the thresholds as they are. The filter
/// that was set stays set.
pub proof fn levels_reach_the_chip(
    c: Chip,
    sys: SystemConfig,
    prm: FreqParams,
    rf_freq: u32,
    regs: Seq<u8>,
    file: Seq<u8>,
)
    requires
        tables::freq_sane(prm),
        prm.mixer_vth <= 15,
        prm.mixer_vtl <= 15,
        prm.filter_vth <= 15,
        prm.filter_vtl <= 15,
    ensures
        ({
            let ops = c.tuning_program(sys, prm, rf_freq);
            let r26 = pll::left_in(regs, file, ops, 0x26);
            let r28 = pll::left_in(regs, file, ops, 0x28);
            let r29 = pll::left_in(regs, file, ops, 0x29);
            let r2b = pll::left_in(regs, file, ops, 0x2b);
            &&& r26 % 8 + prm.lna_top == 7
            &&& r26 / 16 % 8 + prm.rf_top == 7
            &&& r28 % 16 + prm.mixer_top == 15
            &&& r28 / 16 + prm.nrb_top == 15
            &&& pll::left_in(regs, file, ops, 0x27) == prm.lna_vtl_h
            &&& pll::left_in(regs, file, ops, 0x2a) == prm.rf_vtl_h
            &&& r29 == prm.filter_vth * 16 + prm.mixer_vth
            &&& r2b == prm.filter_vtl * 16 + prm.mixer_vtl
            &&& pll::left_in(regs, file, ops, 0x17) == regs[0x17]
        }),
{
    let (p26, p27, p28) = (
        (regs[0x26], file[0x26]),
        (regs[0x27], file[0x27]),
        (regs[0x28], file[0x28]),
    );
    let (p29, p2a, p2b) = (
        (regs[0x29], file[0x29]),
        (regs[0x2a], file[0x2a]),
        (regs[0x2b], file[0x2b]),
    );
    let p17 = (regs[0x17], file[0x17]);
    let front = fields::front_program(c.mixer_mode, prm);
    let middle = fields::middle_program(c.chip, prm);
    tuning_goes_through(c, sys, prm, rf_freq, p26, 0x26);
    tuning_goes_through(c, sys, prm, rf_freq, p27, 0x27);
    tuning_goes_through(c, sys, prm, rf_freq, p28, 0x28);
    tuning_goes_through(c, sys, prm, rf_freq, p29, 0x29);
    tuning_goes_through(c, sys, prm, rf_freq, p2a, 0x2a);
    tuning_goes_through(c, sys, prm, rf_freq, p2b, 0x2b);
    tuning_goes_through(c, sys, prm, rf_freq, p17, 0x17);
    front_leaves(c.mixer_mode, prm, p26);
    front_leaves(c.mixer_mode, prm, p27);
    front_leaves(c.mixer_mode, prm, p2a);
    front_leaves(c.mixer_mode, prm, p17);
    let q26 = shadow::at_end(p26, front, 0x26);
    let q27 = shadow::at_end(p27, front, 0x27);
    let q28 = shadow::at_end(p28, front, 0x28);
    let q29 = shadow::at_end(p29, front, 0x29);
    let q2a = shadow::at_end(p2a, front, 0x2a);
    let q2b = shadow::at_end(p2b, front, 0x2b);
    middle_leaves(c.chip, prm, q26);
    middle_leaves(c.chip, prm, q27);
    middle_leaves(c.chip, prm, q28);
    middle_leaves(c.chip, prm, q29);
    middle_leaves(c.chip, prm, q2a);
    middle_leaves(c.chip, prm, q2b);
    middle_leaves(c.chip, prm, p17);
    back_leaves(c, sys, prm, rf_freq, q26, 0x26);
    back_leaves(c, sys, prm, rf_freq, q27, 0x27);
    back_leaves(c, sys, prm, rf_freq, shadow::at_end(q28, middle, 0x28), 0x28);
    back_leaves(c, sys, prm, rf_freq, shadow::at_end(q29, middle, 0x29), 0x29);
    back_leaves(c, sys, prm, rf_freq, q2a, 0x2a);
    back_leaves(c, sys, prm, rf_freq, shadow::at_end(q2b, middle, 0x2b), 0x2b);
    back_leaves(c, sys, prm, rf_freq, p17, 0x17);
    let (a, b) = ((7 - prm.lna_top) as u8, (7 - prm.rf_top) as u8);
    let (x, y) = ((15 - prm.mixer_top) as u8, (15 - prm.nrb_top) as u8);
    levels_come_apart(p26.0, 0, 0, 0, a, b);
    levels_come_apart(q28.0, 0, x, y, 0, 0);
    levels_come_apart(q29.0, prm.filter_vth, prm.mixer_vth, 0, 0, 0);
    levels_come_apart(q2b.0, prm.filter_vtl, prm.mixer_vtl, 0, 0, 0);
    levels_come_apart(p27.0, prm.lna_vtl_h, 0, 0, 0, 0);
    levels_come_apart(p2a.0, prm.rf_vtl_h, 0, 0, 0, 0);
}

/// The filter of a system is set as it was calibrated: register 0x17 of the shadow holds
/// its half step, its code, its bandwidth and the notch of the system.
pub proof fn filters_are_set_as_calibrated(
    prm: SystemParams,
    lpf: Lpf,
    chip: usize,
    p: (u8, u8),
)
    requires
        lpf.lsb <= 1,
        lpf.code <= 15,
        lpf.bandwidth <= 3,
        prm.hpf_notch <= 1,
    ensures
        shadow::at_end(p, fields::filter_program(prm, lpf, chip), 0x17).0 == lpf.lsb + 2 * lpf.code
            + 32 * lpf.bandwidth + 128 * prm.hpf_notch,
{
    broadcast use {
        crate::shadow::at_end_of_nothing,
        crate::shadow::at_end_of_one_more,
    };

    reveal(fields::filter_program);
    let (v, l, c, b, n) = (p.0, lpf.lsb, lpf.code, lpf.bandwidth, prm.hpf_notch);
    assert((v & 0x00) | ((l & 0x01) | ((c << 1) & 0x1e) | ((b << 5) & 0x60) | ((n << 7) & 0x80)) == l
        + 2 * c + 32 * b + 128 * n) by (bit_vector)
        requires
            l <= 1,
            c <= 15,
            b <= 3,
            n <= 1,
    ;
}

/// What a calibration found good is what the mixer is given: its gain and its phase, each
/// with its sign, and its iqcap. Without one, it is given a gain of two while a system is
/// received, and nothing while none is.
pub proof fn rejections_reach_the_mixer(
    c: Chip,
    lo_freq: u32,
    sys: Option<System>,
    p: (u8, u8),
    q: (u8, u8),
)
    ensures
        ({
            let ops = c.mux_program(lo_freq, sys);
            let r14 = shadow::at_end(p, ops, 0x14).0;
            let r15 = shadow::at_end(q, ops, 0x15).0;
            let i = c.mixer_mode * 5 + mux::imr_step(lo_freq);
            let good = c.imr_done[c.mixer_mode as int] && c.imr_good[i];
            &&& r14 / 64 == p.0 / 64
            &&& good ==> r14 % 16 == c.imr[i].gain % 16 && r14 / 32 % 2 == c.imr[i].gain / 32 % 2
            &&& good ==> r15 % 16 == c.imr[i].phase % 16 && r15 / 32 % 2 == c.imr[i].phase / 32 % 2
            &&& good ==> r15 / 64 == c.imr[i].iqcap % 4
            &&& !good ==> r14 % 16 == (if sys is Some {
                2int
            } else {
                0
            }) && r14 / 32 % 2 == 0
            &&& !good ==> r15 % 16 == 0 && r15 / 32 == 0
        }),
{
    mux_leaves(c, lo_freq, sys, p, 0x14);
    mux_leaves(c, lo_freq, sys, q, 0x15);
    let (gain, phase, iqcap) = c.rejection(lo_freq, sys);
    let (v, w) = (p.0, q.0);
    let a = (v & 0xd0) | (gain & 0x2f);
    let b = (w & 0x10) | ((phase & 0x2f) | ((iqcap << 6) & 0xc0));
    assert(a / 64 == v / 64 && a % 16 == gain % 16 && a / 32 % 2 == gain / 32 % 2 && b % 16 == phase
        % 16 && b / 32 % 2 == phase / 32 % 2 && b / 64 == iqcap % 4) by (bit_vector)
        requires
            a == (v & 0xd0) | (gain & 0x2f),
            b == (w & 0x10) | ((phase & 0x2f) | ((iqcap << 6) & 0xc0)),
    ;
}

} // verus!
