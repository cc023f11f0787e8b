//! What a tuned RT710 is left with besides its frequency.

use vstd::prelude::*;

use crate::rt710;
use crate::rt710::{
    AgcMode, ChipType, FineGain, Rt710, Rt710Config, ScanMode, SignalOutputMode, VgaAttenMode,
};
use crate::shadow;
use crate::traits::I2c;

verus! {

proof fn bits_stay_apart(v: u8, g: u8)
    ensures
        ((v & 0xfb) | 0) / 4 % 2 == 0,
        ((v & 0xff) | 0x04) / 4 % 2 == 1,
        ((v & 0xef) | 0) / 16 % 2 == 0,
        ((v & 0xff) | 0x10) / 16 % 2 == 1,
        ((v & 0xf0) | 0) / 16 % 2 == v / 16 % 2,
        ((v & 0xf0) | 0) % 16 == 0,
        ((v & 0xf7) | 0) / 16 % 2 == v / 16 % 2,
        ((v & 0xf7) | 0) / 8 % 2 == 0,
        ((v & 0xff) | 0x08) / 16 % 2 == v / 16 % 2,
        ((v & 0xff) | 0x08) / 8 % 2 == 1,
        ((v & 0xff) | 0x02) / 16 % 2 == v / 16 % 2,
        ((v & 0xff) | 0x02) / 8 % 2 == v / 8 % 2,
        ((v & 0xff) | 0x02) / 2 % 2 == 1,
        ((v & 0xfc) | 0) / 16 % 2 == v / 16 % 2,
        ((v & 0xfc) | 0) / 8 % 2 == v / 8 % 2,
        ((v & 0xfc) | 0) % 4 == 0,
        ((v & 0xfc) | (g & 0x03)) % 4 == g % 4,
        ((v & 0xf3) | 0x08) % 16 == v % 4 + 8,
        ((v & 0xf3) | 0) % 16 == v % 4,
        ((v & 0xfe) | 0) % 2 == 0,
        ((v & 0xff) | 0x01) % 2 == 1,
        ((v & 0xff) | 0x40) / 64 % 2 == 1,
        ((v & 0xbf) | 0) / 64 % 2 == 0,
        ((v & 0xff) | 0x80) / 128 == 1,
        ((v & 0x7f) | 0) / 128 == 0,
        (v & 0x00) | 0x38 == 0x38,
        (v & 0x00) | g == g,
{
    assert(((v & 0xfb) | 0) / 4 % 2 == 0
        && ((v & 0xff) | 0x04) / 4 % 2 == 1
        && ((v & 0xef) | 0) / 16 % 2 == 0
        && ((v & 0xff) | 0x10) / 16 % 2 == 1
        && ((v & 0xf0) | 0) / 16 % 2 == v / 16 % 2
        && ((v & 0xf0) | 0) % 16 == 0
        && ((v & 0xf7) | 0) / 16 % 2 == v / 16 % 2
        && ((v & 0xf7) | 0) / 8 % 2 == 0
        && ((v & 0xff) | 0x08) / 16 % 2 == v / 16 % 2
        && ((v & 0xff) | 0x08) / 8 % 2 == 1
        && ((v & 0xff) | 0x02) / 16 % 2 == v / 16 % 2
        && ((v & 0xff) | 0x02) / 8 % 2 == v / 8 % 2
        && ((v & 0xff) | 0x02) / 2 % 2 == 1
        && ((v & 0xfc) | 0) / 16 % 2 == v / 16 % 2
        && ((v & 0xfc) | 0) / 8 % 2 == v / 8 % 2
        && ((v & 0xfc) | 0) % 4 == 0
        && ((v & 0xfc) | (g & 0x03)) % 4 == g % 4
        && ((v & 0xf3) | 0x08) % 16 == v % 4 + 8
        && ((v & 0xf3) | 0) % 16 == v % 4
        && ((v & 0xfe) | 0) % 2 == 0
        && ((v & 0xff) | 0x01) % 2 == 1
        && ((v & 0xff) | 0x40) / 64 % 2 == 1
        && ((v & 0xbf) | 0) / 64 % 2 == 0
        && ((v & 0xff) | 0x80) / 128 == 1
        && ((v & 0x7f) | 0) / 128 == 0
        && (v & 0x00) | 0x38 == 0x38
        && (v & 0x00) | g == g)
        by (bit_vector);
}

/// What the setup leaves in a register.
#[verifier::opaque]
pub open spec fn after_setup(config: Rt710Config, chip: ChipType, p: (u8, u8), r: u8) -> (u8, u8) {
    shadow::at_end(p, rt710::setup_program(config, chip), r)
}

/// What setting the PLL leaves in a register.
#[verifier::opaque]
pub open spec fn after_pll(chip: ChipType, xtal: u32, freq: u32, p: (u8, u8), r: u8) -> (u8, u8) {
    shadow::at_end(p, rt710::pll_program(chip, xtal, freq), r)
}

/// What follows the PLL leaves in a register.
#[verifier::opaque]
pub open spec fn after_band(
    config: Rt710Config,
    chip: ChipType,
    freq: u32,
    p: (u8, u8),
    r: u8,
) -> (u8, u8) {
    shadow::at_end(p, rt710::band_program(config, chip, freq), r)
}

/// The registers of the chip once all is done, part by part.
proof fn parts_follow_each_other<B: I2c>(
    s: B::State,
    t: Rt710,
    freq: u32,
    symbol_rate: u32,
    rolloff: u32,
    file: spec_fn(B::State) -> Seq<u8>,
    r: u8,
)
    requires
        shadow::takes_writes::<B>(t.i2c_addr, file),
        file(s).len() == 16,
        r < 16,
        rt710::tuned::<B>(s, t, freq, symbol_rate, rolloff).2 is Ok,
    ensures
        ({
            let chip = t.chip->0;
            let rate = rt710::padded_rate(t.config, chip, symbol_rate);
            let v = rt710::bandwidth_setting(chip, rate, rolloff);
            let last = seq![shadow::put(0x0f, 0x00, v->0)].push(shadow::flush(0x0f, 1));
            let p = (rt710::init_regs(chip)[r as int], file(s)[r as int]);
            let p1 = after_setup(t.config, chip, p, r);
            let p2 = after_pll(chip, t.config.xtal, freq, p1, r);
            let p3 = after_band(t.config, chip, freq, p2, r);
            &&& t.chip is Some
            &&& v is Some
            &&& file(rt710::tuned::<B>(s, t, freq, symbol_rate, rolloff).0)[r as int]
                == shadow::at_end(p3, last, r).1
        }),
{
    broadcast use {crate::shadow::fits_nothing, crate::shadow::fits_one_more};

    reveal(rt710::tuned);
    reveal(after_setup);
    reveal(after_pll);
    reveal(after_band);
    let chip = t.chip->0;
    let (xtal, addr) = (t.config.xtal, t.i2c_addr);
    let setup = rt710::setup_program(t.config, chip);
    let pll = rt710::pll_program(chip, xtal, freq);
    let band = rt710::band_program(t.config, chip, freq);
    let rate = rt710::padded_rate(t.config, chip, symbol_rate);
    let v = rt710::bandwidth_setting(chip, rate, rolloff)->0;
    let last = seq![shadow::put(0x0f, 0x00, v)].push(shadow::flush(0x0f, 1));
    rt710::programs_fit(t.config, chip, xtal, freq);
    let regs = rt710::init_regs(chip);
    let (s1, regs1, r1) = shadow::run::<B>(s, addr, regs, setup);
    shadow::programs_reach_the_chip::<B>(s, addr, regs, setup, file, r);
    let (s2, regs2, r2) = shadow::run::<B>(s1, addr, regs1, pll);
    shadow::programs_reach_the_chip::<B>(s1, addr, regs1, pll, file, r);
    let (s3, regs3, r3) = shadow::run::<B>(s2, addr, regs2, band);
    shadow::programs_reach_the_chip::<B>(s2, addr, regs2, band, file, r);
    shadow::programs_reach_the_chip::<B>(s3, addr, regs3, last, file, r);
}

/// Setting the PLL leaves what is not of it alone.
proof fn pll_leaves_the_rest(chip: ChipType, xtal: u32, freq: u32, p: (u8, u8), r: u8)
    requires
        r <= 0x03 || 0x09 <= r <= 0x0b || 0x0d <= r <= 0x0f,
    ensures
        after_pll(chip, xtal, freq, p, r) == p,
{
    broadcast use {crate::shadow::at_end_of_nothing, crate::shadow::at_end_of_one_more};

    reveal(after_pll);
}

/// The setting of the filter leaves the other registers alone.
proof fn filter_leaves_the_rest(v: u8, p: (u8, u8), r: u8)
    requires
        r < 16,
    ensures
        shadow::at_end(p, seq![shadow::put(0x0f, 0x00, v)].push(shadow::flush(0x0f, 1)), r) == if r
            == 0x0f {
            ((p.0 & 0x00) | v, (p.0 & 0x00) | v)
        } else {
            p
        },
{
    broadcast use {crate::shadow::at_end_of_nothing, crate::shadow::at_end_of_one_more};

}

/// What the setup leaves in the registers of the configuration.
proof fn setup_puts(config: Rt710Config, chip: ChipType, p: (u8, u8))
    ensures
        ({
            let v = p.0;
            let r03 = if config.clock_out {
                (v & 0xef) | 0
            } else {
                (v & 0xff) | 0x10
            };
            let r0b = if config.signal_output_mode == SignalOutputMode::Single {
                (v & 0xff) | 0x10
            } else {
                (v & 0xef) | 0
            };
            &&& after_setup(config, chip, p, 0x01).0 == if config.loop_through {
                (v & 0xfb) | 0
            } else {
                (v & 0xff) | 0x04
            }
            &&& after_setup(config, chip, p, 0x03).0 == if chip == ChipType::Rt710 {
                r03
            } else {
                (r03 & 0xf0) | 0
            }
            &&& after_setup(config, chip, p, 0x0b).0 == if config.vga_atten_mode
                == VgaAttenMode::On {
                (r0b & 0xff) | 0x08
            } else {
                (r0b & 0xf7) | 0
            }
            &&& after_setup(config, chip, p, 0x0d).0 == if config.agc_mode == AgcMode::Positive {
                (v & 0xff) | 0x10
            } else {
                (v & 0xef) | 0
            }
            &&& after_setup(config, chip, p, 0x0e).0 == if chip == ChipType::Rt710 {
                (v & 0xfc) | (config.fine_gain.setting() & 0x03)
            } else if config.fine_gain == FineGain::Db3 || config.fine_gain == FineGain::Db2 {
                (v & 0xfe) | 0
            } else {
                (v & 0xff) | 0x01
            }
        }),
{
    broadcast use {crate::shadow::at_end_of_nothing, crate::shadow::at_end_of_one_more};

    reveal(after_setup);
}

/// What the setup writes out it has put.
proof fn setup_writes_out(config: Rt710Config, chip: ChipType, p: (u8, u8), r: u8)
    requires
        r < 16,
    ensures
        after_setup(config, chip, p, r).0 == after_setup(config, chip, p, r).1,
{
    broadcast use {crate::shadow::at_end_of_nothing, crate::shadow::at_end_of_one_more};

    reveal(after_setup);
}

/// What the setup leaves of the configuration.
proof fn setup_leaves(config: Rt710Config, chip: ChipType, p: (u8, u8), r: u8)
    requires
        r < 16,
    ensures
        ({
            let r01 = after_setup(config, chip, p, 0x01).0;
            let r03 = after_setup(config, chip, p, 0x03).0;
            let r0b = after_setup(config, chip, p, 0x0b).0;
            let r0d = after_setup(config, chip, p, 0x0d).0;
            let r0e = after_setup(config, chip, p, 0x0e).0;
            &&& config.loop_through <==> r01 / 4 % 2 == 0
            &&& config.clock_out <==> r03 / 16 % 2 == 0
            &&& config.signal_output_mode == SignalOutputMode::Single <==> r0b / 16 % 2 == 1
            &&& config.vga_atten_mode == VgaAttenMode::On <==> r0b / 8 % 2 == 1
            &&& config.agc_mode == AgcMode::Positive <==> r0d / 16 % 2 == 1
            &&& chip == ChipType::Rt710 ==> r0e % 4 == config.fine_gain.setting()
            &&& chip == ChipType::Rt720 ==> r03 % 16 == 0
            &&& chip == ChipType::Rt720 ==> (r0e % 2 == 0 <==> config.fine_gain == FineGain::Db3
                || config.fine_gain == FineGain::Db2)
        }),
        after_setup(config, chip, p, r).0 == after_setup(config, chip, p, r).1,
{
    let v = p.0;
    setup_puts(config, chip, p);
    setup_writes_out(config, chip, p, r);
    bits_stay_apart(v, config.fine_gain.setting());
    let x = (v & 0xef) | 0;
    let y = (v & 0xff) | 0x10;
    bits_stay_apart(x, 0);
    bits_stay_apart(y, 0);
}

/// What follows the PLL leaves of the configuration, and of the frequency.
proof fn band_leaves(config: Rt710Config, chip: ChipType, freq: u32, p: (u8, u8))
    ensures
        ({
            let r0b = after_band(config, chip, freq, p, 0x0b);
            let r0e = after_band(config, chip, freq, p, 0x0e);
            &&& after_band(config, chip, freq, p, 0x01) == p
            &&& after_band(config, chip, freq, p, 0x03) == p
            &&& after_band(config, chip, freq, p, 0x0d) == p
            &&& chip == ChipType::Rt710 ==> {
                &&& r0b == p
                &&& r0e.1 % 16 == p.0 % 4 + (if freq >= 2_000_000 {
                    8int
                } else {
                    0
                })
                &&& after_band(config, chip, freq, p, 0x02).1 / 64 % 2 == 1 <==> 1_600_000 <= freq < 1_950_000
                &&& after_band(config, chip, freq, p, 0x08).1 / 128 == 1 <==> 1_600_000 <= freq < 1_950_000
                &&& freq >= 1_950_000 ==> after_band(config, chip, freq, p, 0x0a).1 == 0x38
            }
            &&& chip == ChipType::Rt720 ==> {
                &&& r0e == p
                &&& r0b.1 / 8 % 2 == p.0 / 8 % 2
                &&& r0b.1 / 16 % 2 == p.0 / 16 % 2
                &&& config.scan_mode == ScanMode::Auto ==> r0b.1 / 2 % 2 == 1
                &&& config.scan_mode == ScanMode::Manual ==> r0b.1 % 4 == 0
            }
        }),
{
    broadcast use {crate::shadow::at_end_of_nothing, crate::shadow::at_end_of_one_more};

    reveal(after_band);
    bits_stay_apart(p.0, 0);
}

/// A chip that was tuned is set up as it is configured: its loop through and its clock
/// output are on where their bits are clear, and its output, its gain control, its
/// attenuator, its fine gain and its way of scanning are as they were asked for. An RT710
/// is also told the part of the band that the frequency is in. The filter is the one for
/// the symbol rate.
pub proof fn configuration_reaches_the_chip<B: I2c>(
    s: B::State,
    t: Rt710,
    freq: u32,
    symbol_rate: u32,
    rolloff: u32,
    file: spec_fn(B::State) -> Seq<u8>,
)
    requires
        shadow::takes_writes::<B>(t.i2c_addr, file),
        file(s).len() == 16,
        rt710::tuned::<B>(s, t, freq, symbol_rate, rolloff).2 is Ok,
    ensures
        ({
            let left = file(rt710::tuned::<B>(s, t, freq, symbol_rate, rolloff).0);
            let config = t.config;
            let rate = rt710::padded_rate(config, t.chip->0, symbol_rate);
            &&& t.chip is Some && rolloff <= 5
            &&& config.loop_through <==> left[0x01] / 4 % 2 == 0
            &&& config.clock_out <==> left[0x03] / 16 % 2 == 0
            &&& config.signal_output_mode == SignalOutputMode::Single <==> left[0x0b] / 16 % 2 == 1
            &&& config.vga_atten_mode == VgaAttenMode::On <==> left[0x0b] / 8 % 2 == 1
            &&& config.agc_mode == AgcMode::Positive <==> left[0x0d] / 16 % 2 == 1
            &&& rt710::bandwidth_setting(t.chip->0, rate, rolloff) == Some(left[0x0f])
            &&& t.chip == Some(ChipType::Rt710) ==> {
                &&& 3 - left[0x0e] % 4 == (match config.fine_gain {
                    FineGain::Db0 => 0int,
                    FineGain::Db1 => 1,
                    FineGain::Db2 => 2,
                    FineGain::Db3 => 3,
                })
                &&& left[0x0e] / 4 % 4 == (if freq >= 2_000_000 {
                    2int
                } else {
                    0
                })
                &&& left[0x02] / 64 % 2 == 1 <==> 1_600_000 <= freq < 1_950_000
                &&& left[0x08] / 128 == 1 <==> 1_600_000 <= freq < 1_950_000
                &&& freq >= 1_950_000 ==> left[0x0a] == 0x38
            }
            &&& t.chip == Some(ChipType::Rt720) ==> {
                &&& left[0x03] % 16 == 0
                &&& left[0x0e] % 2 == 0 <==> config.fine_gain == FineGain::Db3 || config.fine_gain
                    == FineGain::Db2
                &&& config.scan_mode == ScanMode::Auto ==> left[0x0b] / 2 % 2 == 1
                &&& config.scan_mode == ScanMode::Manual ==> left[0x0b] % 4 == 0
            }
        }),
{
    let left = file(rt710::tuned::<B>(s, t, freq, symbol_rate, rolloff).0);
    assert(t.chip is Some && rolloff <= 5) by {
        reveal(rt710::tuned);
    }
    let (config, chip) = (t.config, t.chip->0);
    goes_through::<B>(s, t, freq, symbol_rate, rolloff, file, 0x01);
    goes_through::<B>(s, t, freq, symbol_rate, rolloff, file, 0x02);
    goes_through::<B>(s, t, freq, symbol_rate, rolloff, file, 0x03);
    goes_through::<B>(s, t, freq, symbol_rate, rolloff, file, 0x0a);
    goes_through::<B>(s, t, freq, symbol_rate, rolloff, file, 0x0b);
    goes_through::<B>(s, t, freq, symbol_rate, rolloff, file, 0x0d);
    goes_through::<B>(s, t, freq, symbol_rate, rolloff, file, 0x0e);
    parts_follow_each_other::<B>(s, t, freq, symbol_rate, rolloff, file, 0x08);
    parts_follow_each_other::<B>(s, t, freq, symbol_rate, rolloff, file, 0x0f);
    let rate = rt710::padded_rate(config, chip, symbol_rate);
    let v = rt710::bandwidth_setting(chip, rate, rolloff)->0;
    let p8 = (rt710::init_regs(chip)[0x08], file(s)[0x08]);
    let q8 = after_pll(chip, config.xtal, freq, after_setup(config, chip, p8, 0x08), 0x08);
    band_leaves(config, chip, freq, q8);
    filter_leaves_the_rest(v, after_band(config, chip, freq, q8, 0x08), 0x08);
    let pf = (rt710::init_regs(chip)[0x0f], file(s)[0x0f]);
    let of = after_pll(chip, config.xtal, freq, after_setup(config, chip, pf, 0x0f), 0x0f);
    let qf = after_band(config, chip, freq, of, 0x0f);
    filter_leaves_the_rest(v, qf, 0x0f);
    bits_stay_apart(qf.0, v);
}

/// What a register that is not of the PLL is left with, and what is known of it.
proof fn goes_through<B: I2c>(
    s: B::State,
    t: Rt710,
    freq: u32,
    symbol_rate: u32,
    rolloff: u32,
    file: spec_fn(B::State) -> Seq<u8>,
    r: u8,
)
    requires
        shadow::takes_writes::<B>(t.i2c_addr, file),
        file(s).len() == 16,
        r <= 0x03 || 0x09 <= r <= 0x0b || 0x0d <= r <= 0x0e,
        rt710::tuned::<B>(s, t, freq, symbol_rate, rolloff).2 is Ok,
    ensures
        ({
            let (config, chip) = (t.config, t.chip->0);
            let left = file(rt710::tuned::<B>(s, t, freq, symbol_rate, rolloff).0)[r as int];
            &&& r == 0x01 ==> (config.loop_through <==> left / 4 % 2 == 0)
            &&& r == 0x03 ==> (config.clock_out <==> left / 16 % 2 == 0)
            &&& r == 0x03 && chip == ChipType::Rt720 ==> left % 16 == 0
            &&& r == 0x0b ==> (config.signal_output_mode == SignalOutputMode::Single <==> left / 16
                % 2 == 1)
            &&& r == 0x0b ==> (config.vga_atten_mode == VgaAttenMode::On <==> left / 8 % 2 == 1)
            &&& r == 0x0b && chip == ChipType::Rt720 && config.scan_mode == ScanMode::Auto ==> left
                / 2 % 2 == 1
            &&& r == 0x0b && chip == ChipType::Rt720 && config.scan_mode == ScanMode::Manual
                ==> left % 4 == 0
            &&& r == 0x0d ==> (config.agc_mode == AgcMode::Positive <==> left / 16 % 2 == 1)
            &&& r == 0x0e && chip == ChipType::Rt710 ==> left % 16 == config.fine_gain.setting() + (
            if freq >= 2_000_000 {
                8int
            } else {
                0
            })
            &&& r == 0x0e && chip == ChipType::Rt720 ==> (left % 2 == 0 <==> config.fine_gain
                == FineGain::Db3 || config.fine_gain == FineGain::Db2)
            &&& r == 0x02 && chip == ChipType::Rt710 ==> (left / 64 % 2 == 1 <==> 1_600_000 <= freq
                < 1_950_000)
            &&& r == 0x0a && chip == ChipType::Rt710 && freq >= 1_950_000 ==> left == 0x38
        }),
{
    let (config, chip) = (t.config, t.chip->0);
    parts_follow_each_other::<B>(s, t, freq, symbol_rate, rolloff, file, r);
    let rate = rt710::padded_rate(config, chip, symbol_rate);
    let v = rt710::bandwidth_setting(chip, rate, rolloff)->0;
    let p = (rt710::init_regs(chip)[r as int], file(s)[r as int]);
    let p1 = after_setup(config, chip, p, r);
    pll_leaves_the_rest(chip, config.xtal, freq, p1, r);
    let p3 = after_band(config, chip, freq, p1, r);
    filter_leaves_the_rest(v, p3, r);
    setup_leaves(config, chip, p, r);
    band_leaves(config, chip, freq, p1);
}

} // verus!
