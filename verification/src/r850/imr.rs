//! The search for the image rejection of the R850.

use vstd::prelude::*;

use crate::error::{error, Error};
use crate::shadow;
use crate::shadow::{field, out, perform, read_reg, Op};
use crate::traits::{I2c, Ran};

verus! {

broadcast use {
    crate::shadow::fits_nothing,
    crate::shadow::fits_one_more,
    crate::shadow::fits_both,
};

/// An axis of the image rejection.
#[derive(Clone, Copy, PartialEq, Eq, Debug, Structural)]
pub enum Direction {
    Gain,
    Phase,
}

/// A setting of the image rejection, and what the ADC read with it.
#[derive(Clone, Copy, PartialEq, Eq, Debug, Structural)]
pub struct Imr {
    pub gain: u8,
    pub phase: u8,
    pub iqcap: u8,
    pub value: u8,
}

/// What reading the ADC does and gives.
pub open spec fn adc<B: I2c>(s: B::State, addr: u8) -> Ran<B::State, u8> {
    let (s1, r) = shadow::read_one::<B>(B::on_delay(s, 2), addr, 0x01);
    match r {
        Ok(v) => (s1, Ok(v & 0x3f)),
        Err(e) => (s1, Err(e)),
    }
}

pub(crate) fn read_adc_value<B: I2c>(i2c: &mut B, addr: u8) -> (r: Result<u8, Error>)
    ensures
        (final(i2c).state(), r) == adc::<B>(old(i2c).state(), addr),
{
    i2c.delay_ms(2);
    match read_reg(i2c, addr, 0x01) {
        Ok(v) => Ok(v & 0x3f),
        Err(e) => Err(e),
    }
}

/// What running a program and then reading the ADC does and gives.
pub open spec fn probe<B: I2c>(s: B::State, addr: u8, regs: Seq<u8>, ops: Seq<Op>) -> (
    B::State,
    Seq<u8>,
    Result<u8, Error>,
) {
    let (s1, regs1, r) = shadow::run::<B>(s, addr, regs, ops);
    match r {
        Err(e) => (s1, regs1, Err(e)),
        Ok(_) => {
            let (s2, v) = adc::<B>(s1, addr);
            (s2, regs1, v)
        },
    }
}

/// Runs a program, then reads the ADC.
pub(crate) fn try_out<B: I2c>(i2c: &mut B, addr: u8, regs: &mut Vec<u8>, ops: &Vec<Op>) -> (r: Result<
    u8,
    Error,
>)
    requires
        shadow::fits(ops@, old(regs)@.len()),
    ensures
        (final(i2c).state(), final(regs)@, r) == probe::<B>(
            old(i2c).state(),
            addr,
            old(regs)@,
            ops@,
        ),
        final(regs)@.len() == old(regs)@.len(),
{
    match perform(i2c, addr, regs, ops) {
        Ok(_) => read_adc_value(i2c, addr),
        Err(e) => Err(e),
    }
}

/// The gains and phases tried first: around the middle, on both axes.
pub const CROSS: [(u8, u8); 9] = [
    (0, 0),
    (0, 1),
    (0, 0x21),
    (1, 0),
    (0x21, 0),
    (0, 2),
    (0, 0x22),
    (2, 0),
    (0x22, 0),
];

/// The program that tries a gain and a phase.
pub open spec fn point_program(gain: u8, phase: u8) -> Seq<Op> {
    seq![field(0x14, 0xd0, gain & 0x2f)]
        .push(field(0x15, 0xd0, phase & 0x2f))
        .push(out(0x14, 2))
}

/// What trying the points of the cross from `i` on gives: the one with the
/// lowest reading.
pub open spec fn cross_from<B: I2c>(s: B::State, addr: u8, regs: Seq<u8>, i: int, best: Imr) -> (
    B::State,
    Seq<u8>,
    Result<Imr, Error>,
)
    decreases 9 - i,
{
    if i < 0 || i >= 9 {
        (s, regs, Ok(best))
    } else {
        let (gain, phase) = CROSS@[i];
        let (s1, regs1, r) = probe::<B>(s, addr, regs, point_program(gain, phase));
        match r {
            Err(e) => (s1, regs1, Err(e)),
            Ok(v) => cross_from::<B>(
                s1,
                addr,
                regs1,
                i + 1,
                if best.value > v {
                    Imr { gain, phase, value: v, ..best }
                } else {
                    best
                },
            ),
        }
    }
}

/// What no point was tried for yet.
pub open spec fn untried() -> Imr {
    Imr { gain: 0, phase: 0, iqcap: 0, value: 0xff }
}

/// The axis a point lies on.
pub open spec fn axis(imr: Imr) -> Direction {
    if imr.phase != 0 {
        Direction::Phase
    } else {
        Direction::Gain
    }
}

pub(crate) fn imr_check_iq_cross<B: I2c>(i2c: &mut B, addr: u8, regs: &mut Vec<u8>) -> (r: Result<
    (Imr, Direction),
    Error,
>)
    requires
        old(regs)@.len() == 48,
    ensures
        final(regs)@.len() == 48,
        ({
            let (s, regs1, found) = cross_from::<B>(
                old(i2c).state(),
                addr,
                old(regs)@,
                0,
                untried(),
            );
            &&& final(i2c).state() == s
            &&& final(regs)@ == regs1
            &&& match found {
                Ok(imr) => r == Ok::<(Imr, Direction), Error>((imr, axis(imr))),
                Err(e) => r == Err::<(Imr, Direction), Error>(e),
            }
        }),
        r matches Ok(found) ==> found.0.gain <= 0x22 && found.0.phase <= 0x22,
{
    let cross: [(u8, u8); 9] = CROSS;
    let ghost s0 = i2c.state();
    let ghost regs0 = regs@;
    let mut best: Imr = Imr { gain: 0, phase: 0, iqcap: 0, value: 0xff };
    let mut i: usize = 0;
    while i < 9
        invariant
            i <= 9,
            cross@ == CROSS@,
            regs@.len() == 48,
            s0 == old(i2c).state(),
            regs0 == old(regs)@,
            best.gain <= 0x22 && best.phase <= 0x22,
            cross_from::<B>(i2c.state(), addr, regs@, i as int, best) == cross_from::<B>(
                s0,
                addr,
                regs0,
                0,
                untried(),
            ),
        decreases 9 - i,
    {
        let (gain, phase): (u8, u8) = cross[i];
        assert(gain <= 0x22 && phase <= 0x22);
        let mut ops: Vec<Op> = Vec::new();
        ops.push(field(0x14, 0xd0, gain & 0x2f));
        ops.push(field(0x15, 0xd0, phase & 0x2f));
        ops.push(out(0x14, 2));
        assert(ops@ =~= point_program(gain, phase));
        let v: u8 = match try_out(i2c, addr, regs, &ops) {
            Ok(v) => v,
            Err(e) => return Err(e),
        };
        if best.value > v {
            best = Imr { gain, phase, iqcap: best.iqcap, value: v };
        }
        i = i + 1;
    }
    let direction: Direction = if best.phase != 0 { Direction::Phase } else { Direction::Gain };
    Ok((best, direction))
}

/// The register of an axis.
pub open spec fn axis_reg(direction: Direction) -> u8 {
    match direction {
        Direction::Gain => 0x14,
        Direction::Phase => 0x15,
    }
}

/// The setting of a point along an axis.
pub open spec fn along(imr: Imr, direction: Direction) -> u8 {
    match direction {
        Direction::Gain => imr.gain,
        Direction::Phase => imr.phase,
    }
}

/// The point with another setting along an axis, and the reading it gave.
pub open spec fn moved(imr: Imr, direction: Direction, v: u8, value: u8) -> Imr {
    match direction {
        Direction::Gain => Imr { gain: v, value, ..imr },
        Direction::Phase => Imr { phase: v, value, ..imr },
    }
}

pub(crate) fn move_to(imr: &Imr, direction: Direction, v: u8, value: u8) -> (r: Imr)
    ensures
        r == moved(*imr, direction, v, value),
{
    match direction {
        Direction::Gain => Imr { gain: v, phase: imr.phase, iqcap: imr.iqcap, value },
        Direction::Phase => Imr { gain: imr.gain, phase: v, iqcap: imr.iqcap, value },
    }
}

/// The program that tries a setting along an axis.
pub open spec fn axis_program(direction: Direction, v: u8) -> Seq<Op> {
    seq![field(axis_reg(direction), 0xd0, v & 0x2f)]
        .push(out(0x14, 2))
}

pub(crate) fn axis_ops(direction: Direction, v: u8) -> (r: Vec<Op>)
    ensures
        shadow::built(r, axis_program(direction, v), 48),
{
    let reg: u8 = match direction {
        Direction::Gain => 0x14,
        Direction::Phase => 0x15,
    };
    let mut ops: Vec<Op> = Vec::new();
    ops.push(field(reg, 0xd0, v & 0x2f));
    ops.push(out(0x14, 2));
    ops
}

/// The shadow with the other axis of a point fixed.
pub open spec fn other_fixed(regs: Seq<u8>, imr: Imr, direction: Direction) -> Seq<u8> {
    match direction {
        Direction::Gain => shadow::changed(regs, 0x15, 0xd0, imr.phase & 0x2f),
        Direction::Phase => shadow::changed(regs, 0x14, 0xd0, imr.gain & 0x2f),
    }
}

/// Fixes the other axis of `imr` and returns the current value along
/// `direction`.
pub(crate) fn imr_fix_other(regs: &mut Vec<u8>, imr: &Imr, direction: Direction) -> (r: u8)
    requires
        old(regs)@.len() == 48,
    ensures
        final(regs)@ == other_fixed(old(regs)@, *imr, direction),
        final(regs)@.len() == 48,
        r == along(*imr, direction),
{
    match direction {
        Direction::Gain => {
            let v: u8 = (regs[0x15] & 0xd0) | (imr.phase & 0x2f);
            regs.set(0x15, v);
            imr.gain
        },
        Direction::Phase => {
            let v: u8 = (regs[0x14] & 0xd0) | (imr.gain & 0x2f);
            regs.set(0x14, v);
            imr.phase
        },
    }
}

/// The settings a tree of three or five tries around `v0`: bit 5 is the sign, so
/// that 0 goes on to 0x21.
pub open spec fn tree_values(v0: u8, num: usize) -> Seq<u8> {
    let up = v0.wrapping_add(1);
    if num == 3 {
        seq![v0]
            .push(up)
            .push(if v0 & 0x0f == 0 { (v0 ^ 0x20).wrapping_add(1) } else { v0.wrapping_sub(1) })
    } else {
        let (a, b) = if v0 & 0x0f == 0 {
            ((v0 ^ 0x20).wrapping_add(1), (v0 ^ 0x20).wrapping_add(1).wrapping_add(1))
        } else if v0 & 0x0f == 1 {
            (v0.wrapping_sub(1), (v0.wrapping_sub(1) ^ 0x20).wrapping_add(1))
        } else {
            (v0.wrapping_sub(1), v0.wrapping_sub(1).wrapping_sub(1))
        };
        seq![v0]
            .push(up)
            .push(v0.wrapping_add(2))
            .push(a)
            .push(b)
    }
}

pub(crate) fn grow_tree(v0: u8, num: usize) -> (r: Vec<u8>)
    requires
        num == 3 || num == 5,
    ensures
        r@ == tree_values(v0, num),
{
    let up: u8 = v0.wrapping_add(1);
    let mut vals: Vec<u8> = Vec::new();
    vals.push(v0);
    vals.push(up);
    if num == 3 {
        vals.push(
            if v0 & 0x0f == 0 {
                (v0 ^ 0x20).wrapping_add(1)
            } else {
                v0.wrapping_sub(1)
            },
        );
    } else {
        vals.push(v0.wrapping_add(2));
        match v0 & 0x0f {
            0 => {
                let v3: u8 = (v0 ^ 0x20).wrapping_add(1);
                vals.push(v3);
                vals.push(v3.wrapping_add(1));
            },
            1 => {
                let v3: u8 = v0.wrapping_sub(1);
                vals.push(v3);
                vals.push((v3 ^ 0x20).wrapping_add(1));
            },
            _ => {
                let v3: u8 = v0.wrapping_sub(1);
                vals.push(v3);
                vals.push(v3.wrapping_sub(1));
            },
        }
    }
    vals
}

/// What trying settings along an axis from `i` on gives: the one with the lowest
/// reading.
pub open spec fn best_along<B: I2c>(
    s: B::State,
    addr: u8,
    regs: Seq<u8>,
    direction: Direction,
    vals: Seq<u8>,
    i: int,
    best: Imr,
) -> (B::State, Seq<u8>, Result<Imr, Error>)
    decreases vals.len() - i,
{
    if i < 0 || i >= vals.len() {
        (s, regs, Ok(best))
    } else {
        let (s1, regs1, r) = probe::<B>(s, addr, regs, axis_program(direction, vals[i]));
        match r {
            Err(e) => (s1, regs1, Err(e)),
            Ok(v) => best_along::<B>(
                s1,
                addr,
                regs1,
                direction,
                vals,
                i + 1,
                if best.value > v {
                    moved(best, direction, vals[i], v)
                } else {
                    best
                },
            ),
        }
    }
}

/// What [`imr_check_iq_tree`] does and gives.
pub open spec fn tree<B: I2c>(
    s: B::State,
    addr: u8,
    regs: Seq<u8>,
    imr: Imr,
    direction: Direction,
    num: usize,
) -> (B::State, Seq<u8>, Result<Imr, Error>) {
    let regs1 = other_fixed(regs, imr, direction);
    if num == 3 || num == 5 {
        best_along::<B>(
            s,
            addr,
            regs1,
            direction,
            tree_values(along(imr, direction), num),
            0,
            Imr { value: 0xff, ..imr },
        )
    } else {
        (s, regs1, Err(error("R850: invalid IMR tree size")))
    }
}

/// The settings of a tree stay near where it starts.
proof fn tree_stays_near(v0: u8, num: usize, i: int)
    requires
        num == 3 || num == 5,
        v0 <= 0x30,
        0 <= i < num,
    ensures
        tree_values(v0, num)[i] <= 0x32,
{
    assert((v0 & 0x0f == 0 ==> (v0 ^ 0x20) <= 0x30) && (v0 & 0x0f == 1 ==> v0 >= 1 && ((v0
        - 1) as u8 ^ 0x20) <= 0x30) && (v0 & 0x0f != 0 && v0 & 0x0f != 1 ==> v0 >= 2))
        by (bit_vector)
        requires
            v0 <= 0x30,
    ;
}

/// Looks around a point along one axis, in a tree of three or five settings.
pub(crate) fn imr_check_iq_tree<B: I2c>(
    i2c: &mut B,
    addr: u8,
    regs: &mut Vec<u8>,
    imr: &Imr,
    direction: Direction,
    num: usize,
) -> (r: Result<Imr, Error>)
    requires
        old(regs)@.len() == 48,
    ensures
        final(regs)@.len() == 48,
        (final(i2c).state(), final(regs)@, r) == tree::<B>(
            old(i2c).state(),
            addr,
            old(regs)@,
            *imr,
            direction,
            num,
        ),
        r matches Ok(found) ==> (imr.gain <= 0x30 ==> found.gain <= 0x32) && (direction
            == Direction::Phase ==> found.gain == imr.gain),
{
    let v0: u8 = imr_fix_other(regs, imr, direction);
    if num != 3 && num != 5 {
        return Err(error("R850: invalid IMR tree size"));
    }
    let vals: Vec<u8> = grow_tree(v0, num);
    let ghost s0 = i2c.state();
    let ghost regs0 = regs@;
    let ghost start = Imr { value: 0xff, ..*imr };
    let mut best: Imr = Imr { gain: imr.gain, phase: imr.phase, iqcap: imr.iqcap, value: 0xff };
    let mut i: usize = 0;
    while i < num
        invariant
            i <= num,
            num == 3 || num == 5,
            vals@ == tree_values(v0, num),
            vals@.len() == num,
            v0 == along(*imr, direction),
            regs@.len() == 48,
            s0 == old(i2c).state(),
            regs0 == other_fixed(old(regs)@, *imr, direction),
            start == (Imr { value: 0xff, ..*imr }),
            imr.gain <= 0x30 ==> best.gain <= 0x32,
            direction == Direction::Phase ==> best.gain == imr.gain,
            best_along::<B>(i2c.state(), addr, regs@, direction, vals@, i as int, best)
                == best_along::<B>(s0, addr, regs0, direction, vals@, 0, start),
        decreases num - i,
    {
        let ops: Vec<Op> = axis_ops(direction, vals[i]);
        let v: u8 = match try_out(i2c, addr, regs, &ops) {
            Ok(v) => v,
            Err(e) => return Err(e),
        };
        proof {
            if v0 <= 0x30 {
                tree_stays_near(v0, num, i as int);
            }
        }
        if best.value > v {
            best = move_to(&best, direction, vals[i], v);
        }
        i = i + 1;
    }
    Ok(best)
}

/// What [`imr_check_iq_step`] does and gives from a setting on.
pub open spec fn step_from<B: I2c>(
    s: B::State,
    addr: u8,
    regs: Seq<u8>,
    direction: Direction,
    val: u8,
    best: Imr,
) -> (B::State, Seq<u8>, Result<Imr, Error>)
    decreases 16 - (val & 0x0f),
{
    if val & 0x0f > 8 {
        (s, regs, Ok(best))
    } else {
        let next = (val + 1) as u8;
        proof {
            steps_up(val);
        }
        let (s1, regs1, r) = probe::<B>(s, addr, regs, axis_program(direction, next));
        match r {
            Err(e) => (s1, regs1, Err(e)),
            Ok(v) => if best.value > v {
                step_from::<B>(s1, addr, regs1, direction, next, moved(best, direction, next, v))
            } else if best.value + 2 < v {
                (s1, regs1, Ok(best))
            } else {
                step_from::<B>(s1, addr, regs1, direction, next, best)
            },
        }
    }
}

/// A setting below 9 along its axis goes up by one within its nibble.
pub proof fn steps_up(val: u8)
    requires
        val & 0x0f <= 8,
    ensures
        val < 0xff,
        ((val + 1) as u8) & 0x0f == (val & 0x0f) + 1,
{
    assert(val < 0xff && ((val + 1) as u8) & 0x0f == (val & 0x0f) + 1) by (bit_vector)
        requires
            val & 0x0f <= 8,
    ;
}

/// Goes up along one axis from a point, until the reading gets worse.
pub(crate) fn imr_check_iq_step<B: I2c>(
    i2c: &mut B,
    addr: u8,
    regs: &mut Vec<u8>,
    imr: &Imr,
    direction: Direction,
) -> (r: Result<Imr, Error>)
    requires
        old(regs)@.len() == 48,
    ensures
        final(regs)@.len() == 48,
        (final(i2c).state(), final(regs)@, r) == step_from::<B>(
            old(i2c).state(),
            addr,
            other_fixed(old(regs)@, *imr, direction),
            direction,
            along(*imr, direction),
            *imr,
        ),
        r matches Ok(found) ==> imr.gain <= 0x22 ==> found.gain <= 0x2c,
{
    let v0: u8 = imr_fix_other(regs, imr, direction);
    let ghost s0 = i2c.state();
    let ghost regs0 = regs@;
    let mut val: u8 = v0;
    let mut best: Imr = *imr;
    while val & 0x0f <= 8
        invariant
            regs@.len() == 48,
            v0 == along(*imr, direction),
            s0 == old(i2c).state(),
            regs0 == other_fixed(old(regs)@, *imr, direction),
            direction == Direction::Gain && imr.gain <= 0x22 ==> val <= 0x22 + (val & 0x0f),
            imr.gain <= 0x22 ==> best.gain <= 0x2c,
            step_from::<B>(i2c.state(), addr, regs@, direction, val, best) == step_from::<B>(
                s0,
                addr,
                regs0,
                direction,
                v0,
                *imr,
            ),
        decreases 16 - (val & 0x0f),
    {
        proof {
            steps_up(val);
        }
        val = val + 1;
        let ops: Vec<Op> = axis_ops(direction, val);
        let v: u8 = match try_out(i2c, addr, regs, &ops) {
            Ok(v) => v,
            Err(e) => return Err(e),
        };
        if best.value > v {
            best = move_to(&best, direction, val, v);
        } else if best.value as u16 + 2 < v as u16 {
            return Ok(best);
        }
    }
    Ok(best)
}

/// The gains on either side of one.
pub open spec fn gains_around(gain: u8) -> Seq<u8> {
    if gain != 0 {
        seq![(gain - 1) as u8]
            .push(gain)
            .push((gain + 1) as u8)
    } else {
        seq![1u8, 0u8, 0x21u8]
    }
}

/// What [`imr_check_section`] does and gives from gain `i` on.
pub open spec fn section_from<B: I2c>(
    s: B::State,
    addr: u8,
    regs: Seq<u8>,
    gains: Seq<u8>,
    phase: u8,
    i: int,
    best: Imr,
) -> (B::State, Seq<u8>, Result<Imr, Error>)
    decreases gains.len() - i,
{
    if i < 0 || i >= gains.len() {
        (s, regs, Ok(best))
    } else {
        let point = Imr { gain: gains[i], phase, iqcap: 0, value: 0 };
        let (s1, regs1, r) = tree::<B>(s, addr, regs, point, Direction::Phase, 3);
        match r {
            Err(e) => (s1, regs1, Err(e)),
            Ok(found) => section_from::<B>(
                s1,
                addr,
                regs1,
                gains,
                phase,
                i + 1,
                if i == 0 || best.value > found.value {
                    found
                } else {
                    best
                },
            ),
        }
    }
}

/// Looks along the phase at a gain and at those on either side of it.
pub(crate) fn imr_check_section<B: I2c>(i2c: &mut B, addr: u8, regs: &mut Vec<u8>, imr: &Imr) -> (r: Result<
    Imr,
    Error,
>)
    requires
        old(regs)@.len() == 48,
        imr.gain < 0xff,
    ensures
        final(regs)@.len() == 48,
        (final(i2c).state(), final(regs)@, r) == section_from::<B>(
            old(i2c).state(),
            addr,
            old(regs)@,
            gains_around(imr.gain),
            imr.phase,
            0,
            untried(),
        ),
        r matches Ok(found) ==> found.gain <= imr.gain + 1 || found.gain <= 0x21,
{
    let gains: [u8; 3] = if imr.gain != 0 {
        [imr.gain - 1, imr.gain, imr.gain + 1]
    } else {
        [1, 0, 0x21]
    };
    assert(gains@ =~= gains_around(imr.gain));
    let ghost s0 = i2c.state();
    let ghost regs0 = regs@;
    let mut best: Imr = Imr { gain: 0, phase: 0, iqcap: 0, value: 0xff };
    let mut i: usize = 0;
    while i < 3
        invariant
            i <= 3,
            gains@ == gains_around(imr.gain),
            regs@.len() == 48,
            imr.gain < 0xff,
            s0 == old(i2c).state(),
            regs0 == old(regs)@,
            best.gain <= imr.gain + 1 || best.gain <= 0x21,
            section_from::<B>(i2c.state(), addr, regs@, gains@, imr.phase, i as int, best)
                == section_from::<B>(s0, addr, regs0, gains@, imr.phase, 0, untried()),
        decreases 3 - i,
    {
        let point: Imr = Imr { gain: gains[i], phase: imr.phase, iqcap: 0, value: 0 };
        let found: Imr = match imr_check_iq_tree(i2c, addr, regs, &point, Direction::Phase, 3) {
            Ok(found) => found,
            Err(e) => return Err(e),
        };
        if i == 0 || best.value > found.value {
            best = found;
        }
        i = i + 1;
    }
    Ok(best)
}

/// The program that sets a gain and, to be written with the iqcap, a phase.
pub open spec fn iqcap_start(imr: Imr) -> Seq<Op> {
    seq![field(0x14, 0xd0, imr.gain & 0x2f)]
        .push(out(0x14, 1))
        .push(field(0x15, 0xd0, imr.phase & 0x2f))
}

/// The program that tries an iqcap.
pub open spec fn iqcap_program(i: u8) -> Seq<Op> {
    seq![field(0x15, 0x3f, (i << 6) & 0xc0)]
        .push(out(0x15, 1))
}

/// What trying the iqcaps from `i` on gives: the one with the lowest reading.
pub open spec fn iqcap_from<B: I2c>(s: B::State, addr: u8, regs: Seq<u8>, i: u8, best: Imr) -> (
    B::State,
    Seq<u8>,
    Result<Imr, Error>,
)
    decreases 3 - i,
{
    if i >= 3 {
        (s, regs, Ok(best))
    } else {
        let (s1, regs1, r) = probe::<B>(s, addr, regs, iqcap_program(i));
        match r {
            Err(e) => (s1, regs1, Err(e)),
            Ok(v) => iqcap_from::<B>(
                s1,
                addr,
                regs1,
                (i + 1) as u8,
                if v < best.value {
                    Imr { iqcap: i, value: v, ..best }
                } else {
                    best
                },
            ),
        }
    }
}

/// What [`imr_check_iqcap`] does and gives.
pub open spec fn iqcap<B: I2c>(s: B::State, addr: u8, regs: Seq<u8>, imr: Imr) -> (
    B::State,
    Seq<u8>,
    Result<Imr, Error>,
) {
    let (s1, regs1, r) = shadow::run::<B>(s, addr, regs, iqcap_start(imr));
    match r {
        Err(e) => (s1, regs1, Err(e)),
        Ok(_) => iqcap_from::<B>(s1, addr, regs1, 0, Imr { iqcap: 0, value: 0xff, ..imr }),
    }
}

/// Finds the iqcap for a gain and a phase.
pub(crate) fn imr_check_iqcap<B: I2c>(i2c: &mut B, addr: u8, regs: &mut Vec<u8>, imr: &Imr) -> (r: Result<
    Imr,
    Error,
>)
    requires
        old(regs)@.len() == 48,
    ensures
        final(regs)@.len() == 48,
        (final(i2c).state(), final(regs)@, r) == iqcap::<B>(
            old(i2c).state(),
            addr,
            old(regs)@,
            *imr,
        ),
        r matches Ok(found) ==> found.gain == imr.gain && found.phase == imr.phase,
{
    let mut start: Vec<Op> = Vec::new();
    start.push(field(0x14, 0xd0, imr.gain & 0x2f));
    start.push(out(0x14, 1));
    start.push(field(0x15, 0xd0, imr.phase & 0x2f));
    assert(start@ =~= iqcap_start(*imr));
    match perform(i2c, addr, regs, &start) {
        Ok(_) => {},
        Err(e) => return Err(e),
    }
    let ghost s0 = i2c.state();
    let ghost regs0 = regs@;
    let ghost first = Imr { iqcap: 0, value: 0xff, ..*imr };
    let ghost whole = iqcap::<B>(old(i2c).state(), addr, old(regs)@, *imr);
    let mut best: Imr = Imr { gain: imr.gain, phase: imr.phase, iqcap: 0, value: 0xff };
    let mut i: u8 = 0;
    while i < 3
        invariant
            i <= 3,
            regs@.len() == 48,
            best.gain == imr.gain && best.phase == imr.phase,
            whole == iqcap::<B>(old(i2c).state(), addr, old(regs)@, *imr),
            iqcap_from::<B>(i2c.state(), addr, regs@, i, best) == whole,
        decreases 3 - i,
    {
        let mut ops: Vec<Op> = Vec::new();
        ops.push(field(0x15, 0x3f, (i << 6) & 0xc0));
        ops.push(out(0x15, 1));
        assert(ops@ =~= iqcap_program(i));
        let v: u8 = match try_out(i2c, addr, regs, &ops) {
            Ok(v) => v,
            Err(e) => return Err(e),
        };
        if v < best.value {
            best = Imr { gain: best.gain, phase: best.phase, iqcap: i, value: v };
        }
        i = i + 1;
    }
    Ok(best)
}

/// The calibration of the image rejection at one of the five frequencies of the
/// ring oscillator.
pub struct Ring {
    /// The frequency in kHz.
    pub freq: u32,
    /// The setting of the ring oscillator.
    pub setting: u8,
    /// Whether the search starts from nothing.
    pub full: bool,
    /// Else, the frequency whose result it starts from.
    pub pre: usize,
}

/// The calibration at frequency `j`.
pub open spec fn ring(j: usize, mode: usize) -> Ring {
    if j == 0 {
        Ring { freq: 136_000, setting: 0x0a, full: false, pre: 1 }
    } else if j == 1 {
        Ring { freq: 326_400, setting: 0x05, full: false, pre: 2 }
    } else if j == 2 {
        Ring { freq: 544_000, setting: 0x02, full: true, pre: 2 }
    } else if j == 3 {
        Ring { freq: 816_000, setting: 0x00, full: mode != 0, pre: 2 }
    } else {
        Ring { freq: 204_000, setting: 0x08, full: false, pre: 1 }
    }
}

pub(crate) fn pick_ring(j: usize, mode: usize) -> (r: Ring)
    ensures
        r == ring(j, mode),
{
    match j {
        0 => Ring { freq: 136_000, setting: 0x0a, full: false, pre: 1 },
        1 => Ring { freq: 326_400, setting: 0x05, full: false, pre: 2 },
        2 => Ring { freq: 544_000, setting: 0x02, full: true, pre: 2 },
        3 => Ring { freq: 816_000, setting: 0x00, full: mode != 0, pre: 2 },
        _ => Ring { freq: 204_000, setting: 0x08, full: false, pre: 1 },
    }
}

/// The frequency of the local oscillator to receive the ring oscillator with.
pub open spec fn ring_lo(j: usize, mode: usize) -> u32 {
    if mode == 0 {
        (ring(j, mode).freq - 5300) as u32
    } else {
        (ring(j, mode).freq + 5300) as u32
    }
}

/// The program that sets the levels for the ring oscillator.
#[verifier::opaque]
pub open spec fn ring_levels(j: usize, mode: usize, amp_lpf: u8) -> Seq<Op> {
    let osc = if j == 4 {
        field(0x24, 0xcf, 0x10)
    } else {
        field(0x24, 0xff, 0x30)
    };
    (if mode == 0 {
        seq![field(0x13, 0xe8, amp_lpf & 0x07)]
            .push(out(0x13, 1))
            .push(osc)
            .push(out(0x24, 1))
            .push(field(0x29, 0xf0, 0x08))
            .push(out(0x29, 1))
    } else {
        seq![field(0x13, 0xff, 0x10)]
            .push(field(0x13, 0xf8, amp_lpf & 0x07))
            .push(out(0x13, 1))
            .push(field(0x29, 0xf0, if j == 4 { 0x07 } else { 0x06 }))
            .push(osc)
            .push(out(0x29, 1))
            .push(out(0x24, 1))
    }).push(field(0x29, 0xff, 0xf0)).push(out(0x29, 1))
}

pub(crate) fn set_ring_levels(j: usize, mode: usize, amp_lpf: u8) -> (r: Vec<Op>)
    ensures
        shadow::built(r, ring_levels(j, mode, amp_lpf), 48),
{
    let mut ops: Vec<Op> = Vec::new();
    reveal(ring_levels);
    let osc: Op = if j == 4 { field(0x24, 0xcf, 0x10) } else { field(0x24, 0xff, 0x30) };
    if mode == 0 {
        ops.push(field(0x13, 0xe8, amp_lpf & 0x07));
        ops.push(out(0x13, 1));
        ops.push(osc);
        ops.push(out(0x24, 1));
        ops.push(field(0x29, 0xf0, 0x08));
        ops.push(out(0x29, 1));
    } else {
        ops.push(field(0x13, 0xff, 0x10));
        ops.push(field(0x13, 0xf8, amp_lpf & 0x07));
        ops.push(out(0x13, 1));
        ops.push(field(0x29, 0xf0, if j == 4 { 0x07 } else { 0x06 }));
        ops.push(osc);
        ops.push(out(0x29, 1));
        ops.push(out(0x24, 1));
    }
    ops.push(field(0x29, 0xff, 0xf0));
    ops.push(out(0x29, 1));
    ops
}

/// The other axis.
pub open spec fn other_axis(direction: Direction) -> Direction {
    match direction {
        Direction::Gain => Direction::Phase,
        Direction::Phase => Direction::Gain,
    }
}

/// The search from nothing: the cross, up along its axis, then around on both.
pub open spec fn full_search<B: I2c>(s: B::State, addr: u8, regs: Seq<u8>) -> (
    B::State,
    Seq<u8>,
    Result<Imr, Error>,
) {
    let (s1, regs1, r1) = cross_from::<B>(s, addr, regs, 0, untried());
    match r1 {
        Err(e) => (s1, regs1, Err(e)),
        Ok(a) => {
            let d = axis(a);
            let (s2, regs2, r2) = step_from::<B>(
                s1,
                addr,
                other_fixed(regs1, a, d),
                d,
                along(a, d),
                a,
            );
            match r2 {
                Err(e) => (s2, regs2, Err(e)),
                Ok(b) => {
                    let (s3, regs3, r3) = tree::<B>(s2, addr, regs2, b, other_axis(d), 5);
                    match r3 {
                        Err(e) => (s3, regs3, Err(e)),
                        Ok(c) => tree::<B>(s3, addr, regs3, c, d, 3),
                    }
                },
            }
        },
    }
}

pub(crate) fn search_fully<B: I2c>(i2c: &mut B, addr: u8, regs: &mut Vec<u8>) -> (r: Result<Imr, Error>)
    requires
        old(regs)@.len() == 48,
    ensures
        final(regs)@.len() == 48,
        (final(i2c).state(), final(regs)@, r) == full_search::<B>(
            old(i2c).state(),
            addr,
            old(regs)@,
        ),
        r matches Ok(found) ==> found.gain <= 0x40,
{
    let (a, d): (Imr, Direction) = match imr_check_iq_cross(i2c, addr, regs) {
        Ok(found) => found,
        Err(e) => return Err(e),
    };
    let b: Imr = match imr_check_iq_step(i2c, addr, regs, &a, d) {
        Ok(found) => found,
        Err(e) => return Err(e),
    };
    let other: Direction = match d {
        Direction::Gain => Direction::Phase,
        Direction::Phase => Direction::Gain,
    };
    let c: Imr = match imr_check_iq_tree(i2c, addr, regs, &b, other, 5) {
        Ok(found) => found,
        Err(e) => return Err(e),
    };
    imr_check_iq_tree(i2c, addr, regs, &c, d, 3)
}

/// Whether the gain and the phase found are near enough to the middle.
pub open spec fn imr_is_good(imr: Imr) -> bool {
    imr.gain & 0x0f <= 0x06 && imr.phase & 0x0f <= 0x06
}

/// The program that resets the gain, the phase and the iqcap.
pub open spec fn imr_reset() -> Seq<Op> {
    seq![field(0x14, 0xd0, 0)]
        .push(field(0x15, 0x10, 0))
        .push(out(0x14, 2))
}

} // verus!
