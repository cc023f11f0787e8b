//! What the calibration of the filter of the R850, and the search for the power of its
//! crystal, find on a chip whose readings hang on what its registers hold.

use vstd::prelude::*;

use crate::error::Error;
use crate::r850;
use crate::r850::imr;
use crate::r850::laws;
use crate::r850::lpf;
use crate::r850::pll;
use crate::r850::tables;
use crate::r850::tables::Lpf;
use crate::r850::Chip;
use crate::shadow;
use crate::shadow::Op;
use crate::traits::I2c;

verus! {

/// Whether the ADC of the chip at `addr` of a bus reads what `reading` says of the
/// registers that `file` says were written: it is in the lower six bits of the second
/// register that the chip shows.
pub open spec fn reads_by<B: I2c>(
    addr: u8,
    file: spec_fn(B::State) -> Seq<u8>,
    shown: spec_fn(B::State) -> Seq<u8>,
    reading: spec_fn(Seq<u8>) -> u8,
) -> bool {
    &&& shadow::takes_writes::<B>(addr, file)
    &&& shadow::sends_mirrored::<B>(addr, shown)
    &&& forall|s: B::State, data: Seq<u8>, len: usize|
        file((#[trigger] B::on_read(s, addr, data, len)).0) == file(s)
    &&& forall|s: B::State| (#[trigger] shown(s))[1] % 64 == reading(file(s))
    &&& forall|s: B::State| (#[trigger] file(s)).len() == 48
}

/// The bytes that settings are put together to come apart as them.
proof fn settings_come_apart(v: u8, i: u8, b: u8)
    requires
        i <= 15,
        b <= 3,
    ensures
        v & 0x3f == v % 64,
        (v & 0xe1) | ((i << 1) & 0x1e) == v / 32 * 32 + 2 * i + v % 2,
        (v & 0xe0) | (1 | ((i << 1) & 0x1e)) == v / 32 * 32 + 2 * i + 1,
        (((v & 0x9f) | 0) & 0xe1) | ((b << 5) & 0x60) == v / 128 * 128 + 32 * b + v % 2,
        (v & 0xe1) | 0x1a == v / 32 * 32 + 26 + v % 2,
        (v & 0x0f) | ((i << 4) & 0xf0) == 16 * i + v % 16,
        (v & 0xcf) | (b << 4) == v / 64 * 64 + 16 * b + v % 16,
        v & 0x40 != 0 <==> v / 64 % 2 == 1,
{
    assert(v & 0x3f == v % 64 && (v & 0xe1) | ((i << 1) & 0x1e) == v / 32 * 32 + 2 * i + v % 2 && (v
        & 0xe0) | (1 | ((i << 1) & 0x1e)) == v / 32 * 32 + 2 * i + 1 && (((v & 0x9f) | 0) & 0xe1) | (
    (b << 5) & 0x60) == v / 128 * 128 + 32 * b + v % 2 && (v & 0xe1) | 0x1a == v / 32 * 32 + 26 + v
        % 2 && (v & 0x0f) | ((i << 4) & 0xf0) == 16 * i + v % 16 && (v & 0xcf) | (b << 4) == v / 64 * 64
        + 16 * b + v % 16 && (v & 0x40 != 0 <==> v / 64 % 2 == 1)) by (bit_vector)
        requires
            i <= 15,
            b <= 3,
    ;
}

/// A program that sets one register leaves it set, and the others as they are.
proof fn setting_is_left<B: I2c>(
    s: B::State,
    addr: u8,
    regs: Seq<u8>,
    ops: Seq<Op>,
    reg: u8,
    x: u8,
    file: spec_fn(B::State) -> Seq<u8>,
)
    requires
        shadow::takes_writes::<B>(addr, file),
        file(s).len() == 48,
        regs.len() == 48,
        reg < 48,
        shadow::fits(ops, 48),
        shadow::at_end((regs[reg as int], file(s)[reg as int]), ops, reg) == (x, x),
        forall|p: (u8, u8), r: u8| r != reg ==> #[trigger] shadow::at_end(p, ops, r) == p,
        shadow::run::<B>(s, addr, regs, ops).2 is Ok,
    ensures
        ({
            let (s1, regs1, done) = shadow::run::<B>(s, addr, regs, ops);
            &&& regs1 == regs.update(reg as int, x)
            &&& file(s1) == file(s).update(reg as int, x)
        }),
{
    let (s1, regs1, done) = shadow::run::<B>(s, addr, regs, ops);
    shadow::programs_reach_the_chip::<B>(s, addr, regs, ops, file, 0);
    assert forall|k: int| 0 <= k < 48 implies #[trigger] regs1[k] == regs.update(reg as int, x)[k] by {
        shadow::programs_reach_the_chip::<B>(s, addr, regs, ops, file, k as u8);
    }
    assert forall|k: int| 0 <= k < 48 implies #[trigger] file(s1)[k] == file(s).update(
        reg as int,
        x,
    )[k] by {
        shadow::programs_reach_the_chip::<B>(s, addr, regs, ops, file, k as u8);
    }
    assert(regs1 =~= regs.update(reg as int, x));
    assert(file(s1) =~= file(s).update(reg as int, x));
}

/// A program that sets one register is read with it set.
proof fn setting_is_read<B: I2c>(
    s: B::State,
    addr: u8,
    regs: Seq<u8>,
    ops: Seq<Op>,
    reg: u8,
    x: u8,
    file: spec_fn(B::State) -> Seq<u8>,
    shown: spec_fn(B::State) -> Seq<u8>,
    reading: spec_fn(Seq<u8>) -> u8,
)
    requires
        reads_by::<B>(addr, file, shown, reading),
        regs.len() == 48,
        reg < 48,
        shadow::fits(ops, 48),
        shadow::at_end((regs[reg as int], file(s)[reg as int]), ops, reg) == (x, x),
        forall|p: (u8, u8), r: u8| r != reg ==> #[trigger] shadow::at_end(p, ops, r) == p,
        imr::probe::<B>(s, addr, regs, ops).2 is Ok,
    ensures
        ({
            let (s1, regs1, got) = imr::probe::<B>(s, addr, regs, ops);
            &&& regs1 == regs.update(reg as int, x)
            &&& file(s1) == file(s).update(reg as int, x)
            &&& got == Ok::<u8, Error>(reading(file(s).update(reg as int, x)))
        }),
{
    let (s1, regs1, done) = shadow::run::<B>(s, addr, regs, ops);
    setting_is_left::<B>(s, addr, regs, ops, reg, x, file);
    let s2 = B::on_delay(s1, 2);
    assert(file(s2) == file(s1));
    shadow::registers_are_read::<B>(s2, addr, 0x01, 1, 0, shown);
    assert(shown(s2)[1] % 64 == reading(file(s2)));
    settings_come_apart(shown(s2)[1], 0, 0);
}

/// What the ADC reads with register 0x29 holding a gain, the rest as `f` holds it.
pub open spec fn at_gain(reading: spec_fn(Seq<u8>) -> u8, f: Seq<u8>, v: u8, gain: int) -> u8 {
    reading(f.update(0x29, (16 * gain + v % 16) as u8))
}

/// The gain is turned up from five on until the ADC reads over 40, and to the most if it
/// never does: the gain that is left on the chip is the first at which it does, and the
/// reading is the one there.
pub proof fn gain_is_turned_up<B: I2c>(
    s: B::State,
    addr: u8,
    regs: Seq<u8>,
    file: spec_fn(B::State) -> Seq<u8>,
    shown: spec_fn(B::State) -> Seq<u8>,
    reading: spec_fn(Seq<u8>) -> u8,
) -> (gain: int)
    requires
        reads_by::<B>(addr, file, shown, reading),
        regs.len() == 48,
        lpf::lpf_gain_from::<B>(s, addr, regs, 5, 0).2 is Ok,
    ensures
        ({
            let (s1, regs1, r) = lpf::lpf_gain_from::<B>(s, addr, regs, 5, 0);
            let v = regs[0x29];
            &&& 5 <= gain <= 15
            &&& r->Ok_0 == at_gain(reading, file(s), v, gain)
            &&& r->Ok_0 > 40 || gain == 15
            &&& forall|k: int| 5 <= k < gain ==> #[trigger] at_gain(reading, file(s), v, k) <= 40
            &&& file(s1) == file(s).update(0x29, (16 * gain + v % 16) as u8)
            &&& regs1 == regs.update(0x29, (16 * gain + v % 16) as u8)
        }),
{
    gain_from::<B>(s, addr, regs, 5, 0, s, regs, file, shown, reading)
}

proof fn gain_from<B: I2c>(
    s: B::State,
    addr: u8,
    regs: Seq<u8>,
    i: u8,
    val: u8,
    s0: B::State,
    regs0: Seq<u8>,
    file: spec_fn(B::State) -> Seq<u8>,
    shown: spec_fn(B::State) -> Seq<u8>,
    reading: spec_fn(Seq<u8>) -> u8,
) -> (gain: int)
    requires
        reads_by::<B>(addr, file, shown, reading),
        regs0.len() == 48,
        5 <= i <= 16,
        i == 5 ==> s == s0 && regs == regs0,
        i > 5 ==> val == at_gain(reading, file(s0), regs0[0x29], i - 1) && file(s) == file(
            s0,
        ).update(0x29, (16 * (i - 1) + regs0[0x29] % 16) as u8) && regs == regs0.update(
            0x29,
            (16 * (i - 1) + regs0[0x29] % 16) as u8,
        ),
        forall|k: int|
            5 <= k < i ==> #[trigger] at_gain(reading, file(s0), regs0[0x29], k) <= 40,
        lpf::lpf_gain_from::<B>(s, addr, regs, i, val).2 is Ok,
    ensures
        ({
            let (s1, regs1, r) = lpf::lpf_gain_from::<B>(s, addr, regs, i, val);
            let v = regs0[0x29];
            &&& 5 <= gain <= 15
            &&& r->Ok_0 == at_gain(reading, file(s0), v, gain)
            &&& r->Ok_0 > 40 || gain == 15
            &&& forall|k: int| 5 <= k < gain ==> #[trigger] at_gain(reading, file(s0), v, k) <= 40
            &&& file(s1) == file(s0).update(0x29, (16 * gain + v % 16) as u8)
            &&& regs1 == regs0.update(0x29, (16 * gain + v % 16) as u8)
        }),
    decreases 16 - i,
{
    broadcast use {
        crate::shadow::at_end_of_nothing,
        crate::shadow::at_end_of_one_more,
        crate::shadow::fits_nothing,
        crate::shadow::fits_one_more,
    };

    if i >= 16 {
        15
    } else {
        let ops = lpf::lpf_gain_program(i);
        let x = (16 * i + regs0[0x29] % 16) as u8;
        settings_come_apart(regs[0x29], i, 0);
        setting_is_read::<B>(s, addr, regs, ops, 0x29, x, file, shown, reading);
        assert(file(s).update(0x29, x) =~= file(s0).update(0x29, x));
        assert(regs.update(0x29, x) =~= regs0.update(0x29, x));
        let (s1, regs1, r) = imr::probe::<B>(s, addr, regs, ops);
        let v = r->Ok_0;
        assert(v == at_gain(reading, file(s0), regs0[0x29], i as int));
        if v > 0x28 {
            i as int
        } else {
            gain_from::<B>(s1, addr, regs1, (i + 1) as u8, v, s0, regs0, file, shown, reading)
        }
    }
}

/// What the ADC reads with register 0x17 holding a bandwidth and a code of the filter, the
/// rest as `f` holds it and its ends as `v` does.
pub open spec fn at_band(
    reading: spec_fn(Seq<u8>) -> u8,
    f: Seq<u8>,
    v: u8,
    band: int,
    code: int,
) -> u8 {
    reading(f.update(0x17, (v / 128 * 128 + 32 * band + 2 * code + v % 2) as u8))
}

/// Whether closing the filter from code 0 to code 13 takes more than 16 off the reading.
pub open spec fn closing_tells(
    reading: spec_fn(Seq<u8>) -> u8,
    f: Seq<u8>,
    v: u8,
    band: int,
) -> bool {
    at_band(reading, f, v, band, 13) + 16 < at_band(reading, f, v, band, 0)
}

/// The bandwidth that is found is the first of 0, 2 and 3, or of 2 and 3, at which closing
/// the filter tells, and the last if it tells at none.
pub proof fn bandwidth_tells<B: I2c>(
    s: B::State,
    addr: u8,
    regs: Seq<u8>,
    from: u8,
    file: spec_fn(B::State) -> Seq<u8>,
    shown: spec_fn(B::State) -> Seq<u8>,
    reading: spec_fn(Seq<u8>) -> u8,
)
    requires
        reads_by::<B>(addr, file, shown, reading),
        regs.len() == 48,
        from <= 1,
        lpf::lpf_band_from::<B>(s, addr, regs, from, 0).2 is Ok,
    ensures
        ({
            let (s1, regs1, r) = lpf::lpf_band_from::<B>(s, addr, regs, from, 0);
            let (band, v, f) = (r->Ok_0, regs[0x17], file(s));
            let x = (v / 128 * 128 + 32 * band + 26 + v % 2) as u8;
            &&& band == 2 || band == 3 || band == 0 && from == 0
            &&& closing_tells(reading, f, v, band as int) || band == 3
            &&& band > 0 && from == 0 ==> !closing_tells(reading, f, v, 0)
            &&& band == 3 ==> !closing_tells(reading, f, v, 2)
            &&& file(s1) == f.update(0x17, x)
            &&& regs1 == regs.update(0x17, x)
        }),
{
    band_from::<B>(s, addr, regs, from, from, 0, s, regs, file, shown, reading);
}

/// What trying a coarse bandwidth brings.
proof fn band_is_read<B: I2c>(
    s: B::State,
    addr: u8,
    regs: Seq<u8>,
    i: u8,
    file: spec_fn(B::State) -> Seq<u8>,
    shown: spec_fn(B::State) -> Seq<u8>,
    reading: spec_fn(Seq<u8>) -> u8,
)
    requires
        reads_by::<B>(addr, file, shown, reading),
        regs.len() == 48,
        i <= 2,
    ensures
        ({
            let (s1, regs1, open) = imr::probe::<B>(s, addr, regs, lpf::lpf_open_program(i));
            let (s2, regs2, closed) = imr::probe::<B>(
                s1,
                addr,
                regs1,
                lpf::lpf_close_program(),
            );
            let (band, v, f) = (
                if i == 0 {
                    0int
                } else {
                    i + 1
                },
                regs[0x17],
                file(s),
            );
            let x = (v / 128 * 128 + 32 * band + 26 + v % 2) as u8;
            open is Ok && closed is Ok ==> {
                &&& open->Ok_0 == at_band(reading, f, v, band, 0)
                &&& closed->Ok_0 == at_band(reading, f, v, band, 13)
                &&& file(s2) == f.update(0x17, x)
                &&& regs2 == regs.update(0x17, x)
            }
        }),
{
    broadcast use {
        crate::shadow::at_end_of_nothing,
        crate::shadow::at_end_of_one_more,
        crate::shadow::fits_nothing,
        crate::shadow::fits_one_more,
    };

    let (s1, regs1, open) = imr::probe::<B>(s, addr, regs, lpf::lpf_open_program(i));
    let (s2, regs2, closed) = imr::probe::<B>(s1, addr, regs1, lpf::lpf_close_program());
    if open is Ok && closed is Ok {
        let b = lpf::lpf_band(i);
        let (v, f) = (regs[0x17], file(s));
        let y = (v / 128 * 128 + 32 * b + v % 2) as u8;
        let x = (v / 128 * 128 + 32 * b + 26 + v % 2) as u8;
        settings_come_apart(v, 0, b);
        setting_is_read::<B>(
            s,
            addr,
            regs,
            lpf::lpf_open_program(i),
            0x17,
            y,
            file,
            shown,
            reading,
        );
        settings_come_apart(y, 0, 0);
        setting_is_read::<B>(
            s1,
            addr,
            regs1,
            lpf::lpf_close_program(),
            0x17,
            x,
            file,
            shown,
            reading,
        );
        assert(f.update(0x17, y).update(0x17, x) =~= f.update(0x17, x));
        assert(regs.update(0x17, y).update(0x17, x) =~= regs.update(0x17, x));
    }
}

proof fn band_from<B: I2c>(
    s: B::State,
    addr: u8,
    regs: Seq<u8>,
    from: u8,
    i: u8,
    last: u8,
    s0: B::State,
    regs0: Seq<u8>,
    file: spec_fn(B::State) -> Seq<u8>,
    shown: spec_fn(B::State) -> Seq<u8>,
    reading: spec_fn(Seq<u8>) -> u8,
)
    requires
        reads_by::<B>(addr, file, shown, reading),
        regs0.len() == 48,
        from <= 1,
        from <= i <= 3,
        i == from ==> s == s0 && regs == regs0,
        i > from ==> {
            let v = regs0[0x17];
            let band = if i == 1 {
                0int
            } else {
                i as int
            };
            let x = (v / 128 * 128 + 32 * band + 26 + v % 2) as u8;
            &&& last == band
            &&& file(s) == file(s0).update(0x17, x)
            &&& regs == regs0.update(0x17, x)
        },
        from == 0 && i >= 1 ==> !closing_tells(reading, file(s0), regs0[0x17], 0),
        i >= 2 ==> !closing_tells(reading, file(s0), regs0[0x17], 2),
        i >= 3 ==> !closing_tells(reading, file(s0), regs0[0x17], 3),
        lpf::lpf_band_from::<B>(s, addr, regs, i, last).2 is Ok,
    ensures
        ({
            let (s1, regs1, r) = lpf::lpf_band_from::<B>(s, addr, regs, i, last);
            let (band, v, f) = (r->Ok_0, regs0[0x17], file(s0));
            let x = (v / 128 * 128 + 32 * band + 26 + v % 2) as u8;
            &&& band == 2 || band == 3 || band == 0 && from == 0
            &&& closing_tells(reading, f, v, band as int) || band == 3
            &&& band > 0 && from == 0 ==> !closing_tells(reading, f, v, 0)
            &&& band == 3 ==> !closing_tells(reading, f, v, 2)
            &&& file(s1) == f.update(0x17, x)
            &&& regs1 == regs0.update(0x17, x)
        }),
    decreases 3 - i,
{
    if i < 3 {
        let band = lpf::lpf_band(i);
        let (v, f) = (regs0[0x17], file(s0));
        band_is_read::<B>(s, addr, regs, i, file, shown, reading);
        assert(regs[0x17] / 128 == v / 128 && regs[0x17] % 2 == v % 2);
        let x = (v / 128 * 128 + 32 * band + 26 + v % 2) as u8;
        let y = (v / 128 * 128 + 32 * band + v % 2) as u8;
        assert(file(s).update(0x17, x) =~= f.update(0x17, x));
        assert(file(s).update(0x17, y) =~= f.update(0x17, y));
        assert(regs.update(0x17, x) =~= regs0.update(0x17, x));
        let (s1, regs1, open) = imr::probe::<B>(s, addr, regs, lpf::lpf_open_program(i));
        let (s2, regs2, closed) = imr::probe::<B>(s1, addr, regs1, lpf::lpf_close_program());
        assert(open->Ok_0 == at_band(reading, f, v, band as int, 0));
        assert(closed->Ok_0 == at_band(reading, f, v, band as int, 13));
        if closed->Ok_0 + 16 >= open->Ok_0 {
            band_from::<B>(
                s2,
                addr,
                regs2,
                from,
                (i + 1) as u8,
                band,
                s0,
                regs0,
                file,
                shown,
                reading,
            );
        }
    }
}

/// What the ADC reads with register 0x17 holding a code and a half step of the filter, the
/// rest as `f` holds it and its bandwidth as `v` does.
pub open spec fn at_code(
    reading: spec_fn(Seq<u8>) -> u8,
    f: Seq<u8>,
    v: u8,
    code: int,
    half: u8,
) -> u8 {
    reading(f.update(0x17, (v / 32 * 32 + 2 * code + half) as u8))
}

/// What it reads with a code whose half step is as `v` holds it.
pub open spec fn at_whole(reading: spec_fn(Seq<u8>) -> u8, f: Seq<u8>, v: u8, code: int) -> u8 {
    at_code(reading, f, v, code, v % 2)
}

/// What the readings of the codes are compared with: what is given, else the reading of
/// the filter wide open.
pub open spec fn compared_with(
    reading: spec_fn(Seq<u8>) -> u8,
    f: Seq<u8>,
    v: u8,
    given: Option<u8>,
) -> int {
    match given {
        Some(g) => g as int,
        None => at_whole(reading, f, v, 0) as int,
    }
}

/// Whether a code is the first that takes the reading more than `gap` below what it is
/// compared with, or the half step before that code where that does so too; 16 stands for
/// none. The filter wide open is never it.
pub open spec fn is_first_to_tell(
    reading: spec_fn(Seq<u8>) -> u8,
    f: Seq<u8>,
    v: u8,
    gap: u8,
    given: Option<u8>,
    found: Lpf,
) -> bool {
    let base = compared_with(reading, f, v, given);
    &&& found.lsb <= 1 && 1 <= found.code + found.lsb <= 16
    &&& forall|k: int|
        0 <= k < found.code + found.lsb ==> #[trigger] at_whole(reading, f, v, k) + gap >= base
    &&& found.code + found.lsb < 16 ==> at_whole(reading, f, v, found.code + found.lsb) + gap < base
    &&& found.lsb == 1 ==> found.code < 15 && at_code(reading, f, v, found.code as int, 1) + gap
        < base
    &&& found.lsb == 0 && found.code < 16 ==> at_code(reading, f, v, found.code - 1, 1) + gap
        >= base
}

/// The code that is found is the first that takes the reading more than `gap` below what
/// it is compared with, or the half step before it if that does so too; it is 16 if none
/// does. The filter wide open never does.
pub proof fn code_is_the_first_that_tells<B: I2c>(
    s: B::State,
    addr: u8,
    regs: Seq<u8>,
    band: u8,
    gap: u8,
    given: Option<u8>,
    file: spec_fn(B::State) -> Seq<u8>,
    shown: spec_fn(B::State) -> Seq<u8>,
    reading: spec_fn(Seq<u8>) -> u8,
)
    requires
        reads_by::<B>(addr, file, shown, reading),
        regs.len() == 48,
        lpf::lpf_code_from::<B>(s, addr, regs, band, gap, given, 0, 0).2 is Ok,
    ensures
        ({
            let (s1, regs1, r) = lpf::lpf_code_from::<B>(s, addr, regs, band, gap, given, 0, 0);
            let (found, v, f) = (r->Ok_0, regs[0x17], file(s));
            &&& found.bandwidth == band
            &&& is_first_to_tell(reading, f, v, gap, given, found)
            &&& forall|k: int| 0 <= k < 48 && k != 0x17 ==> #[trigger] file(s1)[k] == f[k]
        }),
{
    code_from::<B>(s, addr, regs, band, gap, given, 0, 0, file(s), regs[0x17], file, shown, reading);
}

/// What trying a code, and what trying the half step before it, brings.
proof fn code_is_read<B: I2c>(
    s: B::State,
    addr: u8,
    regs: Seq<u8>,
    ops: Seq<Op>,
    i: u8,
    half: u8,
    f: Seq<u8>,
    v: u8,
    file: spec_fn(B::State) -> Seq<u8>,
    shown: spec_fn(B::State) -> Seq<u8>,
    reading: spec_fn(Seq<u8>) -> u8,
)
    requires
        reads_by::<B>(addr, file, shown, reading),
        regs.len() == 48,
        i < 16,
        f.len() == 48,
        forall|k: int| 0 <= k < 48 && k != 0x17 ==> #[trigger] file(s)[k] == f[k],
        regs[0x17] / 32 == v / 32 && regs[0x17] % 2 == v % 2,
        ops == lpf::lpf_code_program(i) && half == v % 2 || i < 15 && ops == lpf::lpf_half_program(
            (i + 1) as u8,
        ) && half == 1,
        imr::probe::<B>(s, addr, regs, ops).2 is Ok,
    ensures
        ({
            let (s1, regs1, r) = imr::probe::<B>(s, addr, regs, ops);
            &&& r->Ok_0 == at_code(reading, f, v, i as int, half)
            &&& regs1.len() == 48
            &&& regs1[0x17] / 32 == v / 32 && regs1[0x17] % 2 == half
            &&& forall|k: int| 0 <= k < 48 && k != 0x17 ==> #[trigger] file(s1)[k] == f[k]
        }),
{
    broadcast use {
        crate::shadow::at_end_of_nothing,
        crate::shadow::at_end_of_one_more,
        crate::shadow::fits_nothing,
        crate::shadow::fits_one_more,
    };

    let x = (v / 32 * 32 + 2 * i + half) as u8;
    settings_come_apart(regs[0x17], i, 0);
    setting_is_read::<B>(s, addr, regs, ops, 0x17, x, file, shown, reading);
    assert(file(s).update(0x17, x) =~= f.update(0x17, x));
}

proof fn code_from<B: I2c>(
    s: B::State,
    addr: u8,
    regs: Seq<u8>,
    band: u8,
    gap: u8,
    given: Option<u8>,
    i: u8,
    val: u8,
    f: Seq<u8>,
    v: u8,
    file: spec_fn(B::State) -> Seq<u8>,
    shown: spec_fn(B::State) -> Seq<u8>,
    reading: spec_fn(Seq<u8>) -> u8,
)
    requires
        reads_by::<B>(addr, file, shown, reading),
        regs.len() == 48,
        i <= 16,
        f.len() == 48,
        forall|k: int| 0 <= k < 48 && k != 0x17 ==> #[trigger] file(s)[k] == f[k],
        regs[0x17] / 32 == v / 32 && regs[0x17] % 2 == v % 2,
        i > 0 ==> val == compared_with(reading, f, v, given),
        forall|k: int|
            0 <= k < i ==> #[trigger] at_whole(reading, f, v, k) + gap >= compared_with(
                reading,
                f,
                v,
                given,
            ),
        lpf::lpf_code_from::<B>(s, addr, regs, band, gap, given, i, val).2 is Ok,
    ensures
        ({
            let (s1, regs1, r) = lpf::lpf_code_from::<B>(s, addr, regs, band, gap, given, i, val);
            let found = r->Ok_0;
            &&& found.bandwidth == band
            &&& is_first_to_tell(reading, f, v, gap, given, found)
            &&& forall|k: int| 0 <= k < 48 && k != 0x17 ==> #[trigger] file(s1)[k] == f[k]
        }),
    decreases 16 - i,
{
    if i < 16 {
        let ops = lpf::lpf_code_program(i);
        let base = compared_with(reading, f, v, given);
        code_is_read::<B>(s, addr, regs, ops, i, v % 2, f, v, file, shown, reading);
        let (s1, regs1, r1) = imr::probe::<B>(s, addr, regs, ops);
        let got = r1->Ok_0;
        assert(got == at_whole(reading, f, v, i as int));
        if got + gap >= base {
            code_from::<B>(
                s1,
                addr,
                regs1,
                band,
                gap,
                given,
                (i + 1) as u8,
                base as u8,
                f,
                v,
                file,
                shown,
                reading,
            );
        } else {
            assert(i > 0);
            let more = lpf::lpf_half_program(i);
            let j = (i - 1) as u8;
            code_is_read::<B>(s1, addr, regs1, more, j, 1, f, v, file, shown, reading);
            let half = imr::probe::<B>(s1, addr, regs1, more).2->Ok_0;
            assert(half == at_code(reading, f, v, i - 1, 1));
        }
    }
}

/// What a program that sets the PLL for a calibration leaves.
proof fn pll_is_left<B: I2c>(
    s: B::State,
    c: Chip,
    regs: Seq<u8>,
    lo_freq: u32,
    if_freq: u32,
    file: spec_fn(B::State) -> Seq<u8>,
)
    requires
        shadow::takes_writes::<B>(c.i2c_addr, file),
        file(s).len() == 48,
        regs.len() == 48,
        17_400 <= c.config.xtal < 0x8000,
        c.config.xtal % 4 == 0,
        17_800 <= lo_freq < 2_200_000,
        shadow::run::<B>(s, c.i2c_addr, regs, c.lpf_pll(lo_freq, if_freq)).2 is Ok,
    ensures
        shadow::fits(c.lpf_pll(lo_freq, if_freq), 48),
        ({
            let (s1, regs1, done) = shadow::run::<B>(
                s,
                c.i2c_addr,
                regs,
                c.lpf_pll(lo_freq, if_freq),
            );
            &&& regs1.len() == 48
            &&& r850::stands_for(file(s1), c.config.xtal, lo_freq as int)
            &&& regs1[0x17] == regs[0x17] && file(s1)[0x17] == regs[0x17]
            &&& regs1[0x29] == regs[0x29] && file(s1)[0x29] == regs[0x29]
        }),
{
    let ops = c.lpf_pll(lo_freq, if_freq);
    pll_fits(c, lo_freq, if_freq);
    let addr = c.i2c_addr;
    shadow::programs_reach_the_chip::<B>(s, addr, regs, ops, file, 0x17);
    shadow::programs_reach_the_chip::<B>(s, addr, regs, ops, file, 0x29);
    shadow::programs_reach_the_chip::<B>(s, addr, regs, ops, file, 0x1b);
    shadow::programs_reach_the_chip::<B>(s, addr, regs, ops, file, 0x1c);
    shadow::programs_reach_the_chip::<B>(s, addr, regs, ops, file, 0x1d);
    shadow::programs_reach_the_chip::<B>(s, addr, regs, ops, file, 0x1e);
    shadow::programs_reach_the_chip::<B>(s, addr, regs, ops, file, 0x22);
    let (xtal, chip, pwr) = (c.config.xtal, c.chip, c.xtal_pwr);
    let (p17, p29) = ((regs[0x17], file(s)[0x17]), (regs[0x29], file(s)[0x29]));
    laws::pll_writes_out(xtal, chip, pwr, lo_freq, if_freq, None, p17, 0x17);
    laws::pll_writes_out(xtal, chip, pwr, lo_freq, if_freq, None, p29, 0x29);
    pll::oscillator_is_set(xtal, chip, pwr, lo_freq, if_freq, None, regs, file(s));
}

proof fn pll_fits(c: Chip, lo_freq: u32, if_freq: u32)
    ensures
        shadow::fits(c.lpf_pll(lo_freq, if_freq), 48),
{
    broadcast use {
        crate::shadow::fits_nothing,
        crate::shadow::fits_one_more,
        crate::shadow::fits_both,
    };

    reveal(pll::pll_program);
}

/// Taking the reading to compare with leaves the gain and the filter as they are, and the
/// PLL where it was.
proof fn reference_leaves<B: I2c>(
    s: B::State,
    c: Chip,
    regs: Seq<u8>,
    if_freq: u32,
    val: u8,
    file: spec_fn(B::State) -> Seq<u8>,
    shown: spec_fn(B::State) -> Seq<u8>,
    reading: spec_fn(Seq<u8>) -> u8,
)
    requires
        reads_by::<B>(c.i2c_addr, file, shown, reading),
        regs.len() == 48,
        17_400 <= c.config.xtal < 0x8000,
        c.config.xtal % 4 == 0,
        9_999 < if_freq <= 54_000,
        r850::lpf_reference::<B>(s, c, regs, if_freq, val).2 is Ok,
    ensures
        ({
            let (s1, regs1, given) = r850::lpf_reference::<B>(s, c, regs, if_freq, val);
            &&& given->Ok_0 is Some
            &&& regs1.len() == 48
            &&& r850::stands_for(file(s1), c.config.xtal, 72_000 - if_freq)
            &&& regs1[0x17] == regs[0x17]
        }),
{
    broadcast use {crate::shadow::at_end_of_one_more, crate::shadow::fits_one_more};

    let addr = c.i2c_addr;
    let pll = c.lpf_pll(63_500, 8_500);
    let ops = pll.push(Op::Delay { ms: 5 });
    pll_fits(c, 63_500, 8_500);
    let p17 = (regs[0x17], file(s)[0x17]);
    laws::pll_writes_out(c.config.xtal, c.chip, c.xtal_pwr, 63_500, 8_500, None, p17, 0x17);
    shadow::programs_reach_the_chip::<B>(s, addr, regs, ops, file, 0x17);
    let (s1, regs1, r1) = imr::probe::<B>(s, addr, regs, ops);
    assert(regs1[0x17] == regs[0x17]);
    pll_is_left::<B>(s1, c, regs1, (72_000 - if_freq) as u32, if_freq, file);
}

/// A calibration of the filter of the chip finds a setting with the oscillator one
/// intermediate frequency below 72 MHz. The gain is the first from five on at which the
/// ADC reads over 40; the bandwidth is the first at which closing the filter tells, from
/// the second on for the filters of bandwidth two; the code is the first that takes the
/// reading more than `gap` below that of the filter wide open or, above 9999 kHz, below
/// the one that was `given` to compare with.
pub proof fn filter_is_calibrated<B: I2c>(
    s: B::State,
    c: Chip,
    if_freq: u32,
    bw: u8,
    gap: u8,
    file: spec_fn(B::State) -> Seq<u8>,
    shown: spec_fn(B::State) -> Seq<u8>,
    reading: spec_fn(Seq<u8>) -> u8,
) -> (given: Option<u8>)
    requires
        reads_by::<B>(c.i2c_addr, file, shown, reading),
        c.regs.len() == 48,
        17_400 <= c.config.xtal < 0x8000,
        c.config.xtal % 4 == 0,
        if_freq <= 54_000,
        r850::lpf_calibrated::<B>(s, c, if_freq, bw, gap).2 is Ok,
    ensures
        given is None <==> if_freq <= 9_999,
        ({
            let (s1, c1, r) = r850::lpf_calibrated::<B>(s, c, if_freq, bw, gap);
            let (found, g, v, u) = (r->Ok_0, file(s1), c.regs[0x17], c.regs[0x29]);
            let band = found.bandwidth as int;
            &&& r850::stands_for(g, c.config.xtal, 72_000 - if_freq)
            &&& if_freq <= 9_999 ==> {
                let h = g.update(0x17, v);
                let gain = g[0x29] / 16;
                &&& 5 <= gain
                &&& at_gain(reading, h, u, gain as int) > 40 || gain == 15
                &&& forall|k: int| 5 <= k < gain ==> #[trigger] at_gain(reading, h, u, k) <= 40
            }
            &&& band == 2 || band == 3 || band == 0 && bw != 2
            &&& closing_tells(reading, g, v, band) || band == 3
            &&& band > 0 && bw != 2 ==> !closing_tells(reading, g, v, 0)
            &&& band == 3 ==> !closing_tells(reading, g, v, 2)
            &&& is_first_to_tell(
                reading,
                g,
                (v / 128 * 128 + 32 * band + 26 + v % 2) as u8,
                gap,
                given,
                found,
            )
        }),
{
    let addr = c.i2c_addr;
    let (v, u) = (c.regs[0x17], c.regs[0x29]);
    let lo_freq = (72_000 - if_freq) as u32;
    let (s1, regs1, r1) = shadow::run::<B>(s, addr, c.regs, c.lpf_pll(lo_freq, if_freq));
    pll_is_left::<B>(s, c, c.regs, lo_freq, if_freq, file);
    let (s2, regs2, r2) = lpf::lpf_gain_from::<B>(s1, addr, regs1, 5, 0);
    let gain = gain_is_turned_up::<B>(s1, addr, regs1, file, shown, reading);
    let val = r2->Ok_0;
    let (s3, regs3, r3) = r850::lpf_reference::<B>(s2, c, regs2, if_freq, val);
    if if_freq > 9_999 {
        reference_leaves::<B>(s2, c, regs2, if_freq, val, file, shown, reading);
    }
    let given = r3->Ok_0;
    let from: u8 = if bw == 2 {
        1
    } else {
        0
    };
    let (s4, regs4, r4) = lpf::lpf_band_from::<B>(s3, addr, regs3, from, 0);
    bandwidth_tells::<B>(s3, addr, regs3, from, file, shown, reading);
    let band = r4->Ok_0;
    let (s5, regs5, r5) = lpf::lpf_code_from::<B>(s4, addr, regs4, band, gap, given, 0, 0);
    code_is_the_first_that_tells::<B>(
        s4,
        addr,
        regs4,
        band,
        gap,
        given,
        file,
        shown,
        reading,
    );
    let g = file(s5);
    let w = (v / 128 * 128 + 32 * band + 26 + v % 2) as u8;
    assert(regs4[0x17] == w);
    assert forall|b: int, k: int| #[trigger]
        at_band(reading, g, v, b, k) == at_band(reading, file(s3), v, b, k) by {
        let x = (v / 128 * 128 + 32 * b + 2 * k + v % 2) as u8;
        assert(g.update(0x17, x) =~= file(s3).update(0x17, x));
    }
    assert forall|k: int, half: u8| #[trigger]
        at_code(reading, g, w, k, half) == at_code(reading, file(s4), w, k, half) by {
        let x = (w / 32 * 32 + 2 * k + half) as u8;
        assert(g.update(0x17, x) =~= file(s4).update(0x17, x));
    }
    assert forall|k: int| #[trigger] at_whole(reading, g, w, k) == at_whole(
        reading,
        file(s4),
        w,
        k,
    ) by {
        assert(at_code(reading, g, w, k, w % 2) == at_code(reading, file(s4), w, k, w % 2));
    }
    if if_freq <= 9_999 {
        let h = g.update(0x17, v);
        assert(h =~= file(s2));
        assert(g[0x29] == (16 * gain + u % 16) as u8);
        assert forall|k: int| #[trigger] at_gain(reading, h, u, k) == at_gain(
            reading,
            file(s1),
            u,
            k,
        ) by {
            let x = (16 * k + u % 16) as u8;
            assert(h.update(0x29, x) =~= file(s1).update(0x29, x));
        }
    }
    given
}

/// Whether the third register that the chip at `addr` of a bus shows is what `status` says
/// of the registers that `file` says were written.
pub open spec fn tells_by<B: I2c>(
    addr: u8,
    file: spec_fn(B::State) -> Seq<u8>,
    shown: spec_fn(B::State) -> Seq<u8>,
    status: spec_fn(Seq<u8>) -> u8,
) -> bool {
    &&& shadow::takes_writes::<B>(addr, file)
    &&& shadow::sends_mirrored::<B>(addr, shown)
    &&& forall|s: B::State, data: Seq<u8>, len: usize|
        file((#[trigger] B::on_read(s, addr, data, len)).0) == file(s)
    &&& forall|s: B::State| (#[trigger] shown(s))[2] == status(file(s))
    &&& forall|s: B::State| (#[trigger] file(s)).len() == 48
}

/// Whether the PLL locks, at a bank of 61 at most, with the crystal at a power, which
/// bits 4 and 5 of register 0x22 hold.
pub open spec fn locks_at(status: spec_fn(Seq<u8>) -> u8, f: Seq<u8>, power: int) -> bool {
    let told = status(f.update(0x22, (f[0x22] / 64 * 64 + 16 * power + f[0x22] % 16) as u8));
    told / 64 % 2 == 1 && told % 64 <= 61
}

/// The crystal gets one step more than the least power that the PLL locks with, and the
/// most there is if there is none above; the chip is otherwise as it was.
pub proof fn crystal_gets_a_step_more<B: I2c>(
    s: B::State,
    c: Chip,
    file: spec_fn(B::State) -> Seq<u8>,
    shown: spec_fn(B::State) -> Seq<u8>,
    status: spec_fn(Seq<u8>) -> u8,
)
    requires
        tells_by::<B>(c.i2c_addr, file, shown, status),
        r850::xtal_checked::<B>(s, c).2 is Ok,
    ensures
        ({
            let (s1, c1, r) = r850::xtal_checked::<B>(s, c);
            let f = file(s1);
            &&& 1 <= c1.xtal_pwr <= 3
            &&& forall|p: int| 0 <= p < c1.xtal_pwr - 1 ==> !#[trigger] locks_at(status, f, p)
            &&& c1.xtal_pwr < 3 ==> locks_at(status, f, c1.xtal_pwr - 1)
            &&& c1 == (Chip { xtal_pwr: c1.xtal_pwr, regs: c1.regs, ..c })
        }),
{
    broadcast use {crate::shadow::fits_nothing, crate::shadow::fits_one_more};

    let regs = tables::init_values();
    assert(regs.len() == 48) by {
        reveal(tables::init_values);
    }
    let ops = r850::xtal_check_program(c.chip);
    shadow::programs_reach_the_chip::<B>(s, c.i2c_addr, regs, ops, file, 0);
    let (s1, regs1, done) = shadow::run::<B>(s, c.i2c_addr, regs, ops);
    power_from::<B>(s1, c.i2c_addr, regs1, 0, file, shown, status);
    let (s2, c2, r) = r850::xtal_checked::<B>(s, c);
    let found = r850::xtal_power_from::<B>(s1, c.i2c_addr, regs1, 0).2->Ok_0;
    assert(c2.xtal_pwr - 1 <= found);
    assert forall|p: int| 0 <= p < c2.xtal_pwr - 1 implies !#[trigger] locks_at(
        status,
        file(s2),
        p,
    ) by {
        assert(p < found);
    }
}

/// What trying a power brings.
proof fn power_is_tried<B: I2c>(
    s: B::State,
    addr: u8,
    regs: Seq<u8>,
    i: u8,
    file: spec_fn(B::State) -> Seq<u8>,
)
    requires
        shadow::takes_writes::<B>(addr, file),
        file(s).len() == 48,
        regs.len() == 48,
        i < 4,
        shadow::run::<B>(s, addr, regs, r850::xtal_power_program(i)).2 is Ok,
    ensures
        ({
            let (s1, regs1, done) = shadow::run::<B>(s, addr, regs, r850::xtal_power_program(i));
            let x = (regs[0x22] / 64 * 64 + 16 * i + regs[0x22] % 16) as u8;
            &&& regs1 == regs.update(0x22, x)
            &&& file(s1) == file(s).update(0x22, x)
        }),
{
    broadcast use {
        crate::shadow::at_end_of_nothing,
        crate::shadow::at_end_of_one_more,
        crate::shadow::fits_nothing,
        crate::shadow::fits_one_more,
    };

    let x = (regs[0x22] / 64 * 64 + 16 * i + regs[0x22] % 16) as u8;
    settings_come_apart(regs[0x22], 0, i);
    setting_is_left::<B>(s, addr, regs, r850::xtal_power_program(i), 0x22, x, file);
}

proof fn power_from<B: I2c>(
    s: B::State,
    addr: u8,
    regs: Seq<u8>,
    i: u8,
    file: spec_fn(B::State) -> Seq<u8>,
    shown: spec_fn(B::State) -> Seq<u8>,
    status: spec_fn(Seq<u8>) -> u8,
)
    requires
        tells_by::<B>(addr, file, shown, status),
        regs.len() == 48,
        i <= 4,
        i > 0 ==> file(s)[0x22] == regs[0x22],
        forall|p: int| 0 <= p < i ==> !#[trigger] locks_at(status, file(s), p),
        r850::xtal_power_from::<B>(s, addr, regs, i).2 is Ok,
    ensures
        ({
            let (s1, regs1, r) = r850::xtal_power_from::<B>(s, addr, regs, i);
            let (f, found) = (file(s1), r->Ok_0);
            &&& i <= found <= 3 || found == 3
            &&& forall|p: int| 0 <= p < found ==> !#[trigger] locks_at(status, f, p)
            &&& found < 3 ==> locks_at(status, f, found as int)
        }),
    decreases 4 - i,
{
    if i < 4 {
        power_is_tried::<B>(s, addr, regs, i, file);
        let (s1, regs1, done) = shadow::run::<B>(s, addr, regs, r850::xtal_power_program(i));
        let (s2, r2) = shadow::read_one::<B>(s1, addr, 0x02);
        shadow::registers_are_read::<B>(s1, addr, 0x02, 1, 0, shown);
        let f = file(s2);
        assert(f == file(s1));
        let told = r2->Ok_0;
        assert(shown(s1)[2] == status(file(s1)));
        settings_come_apart(told, 0, 0);
        let x = f[0x22];
        assert(x == (regs[0x22] / 64 * 64 + 16 * i + regs[0x22] % 16) as u8);
        assert(x / 64 == regs[0x22] / 64 && x % 16 == regs[0x22] % 16);
        assert(f.update(0x22, x) =~= f);
        assert(locks_at(status, f, i as int) == r850::xtal_locked(told));
        assert forall|p: int| 0 <= p < i implies !#[trigger] locks_at(status, f, p) by {
            let y = (x / 64 * 64 + 16 * p + x % 16) as u8;
            assert(f.update(0x22, y) =~= file(s).update(0x22, y));
            assert(!locks_at(status, file(s), p));
        }
        if !r850::xtal_locked(told) {
            power_from::<B>(s2, addr, regs1, (i + 1) as u8, file, shown, status);
        }
    }
}

} // verus!
