//! Rafael Micro RT710 (and its successor RT720), the ISDB-S tuner, reached
//! through the I2C relay of the demodulator in front of it.

use vstd::prelude::*;

use crate::error::{error, Error};
use crate::r850;
use crate::shadow;
use crate::shadow::{field, out, perform, read_reg, Op};
use crate::traits::{I2c, Ran};

pub mod laws;

verus! {

broadcast use {crate::shadow::fits_nothing, crate::shadow::fits_one_more};

/// The number of registers.
pub const NUM_REGS: usize = 0x10;

pub const RT710_INIT_REGS: [u8; 16] = [
    0x40, 0x1d, 0x20, 0x10, 0x41, 0x50, 0xed, 0x25, 0x07, 0x58, 0x39, 0x64, 0x38, 0xe7, 0x90, 0x35,
];

pub const RT720_INIT_REGS: [u8; 16] = [
    0x00, 0x1c, 0x00, 0x10, 0x41, 0x48, 0xda, 0x4b, 0x07, 0x58, 0x38, 0x40, 0x37, 0xe7, 0x4c, 0x59,
];

pub const SLEEP_REGS: [u8; 16] = [
    0xff, 0x5c, 0x88, 0x30, 0x41, 0xc8, 0xed, 0x25, 0x47, 0xfc, 0x48, 0xa2, 0x08, 0x0f, 0xf3, 0x59,
];

/// Upper bandwidth in units of 100 Hz and its (coarse, fine) setting, for the
/// RT710.
pub const BANDWIDTH_PARAMS: [(u32, u8, u8); 26] = [
    (50000, 0, 0),
    (73000, 0, 1),
    (96000, 1, 0),
    (104000, 1, 1),
    (116000, 2, 0),
    (126000, 2, 1),
    (134000, 3, 0),
    (146000, 3, 1),
    (158000, 4, 0),
    (170000, 4, 1),
    (178000, 5, 0),
    (190000, 5, 1),
    (202000, 6, 0),
    (212000, 6, 1),
    (218000, 7, 0),
    (234000, 7, 1),
    (244000, 9, 1),
    (246000, 10, 0),
    (262000, 10, 1),
    (266000, 11, 0),
    (282000, 11, 1),
    (298000, 12, 1),
    (318000, 13, 1),
    (340000, 14, 1),
    (358000, 15, 1),
    (379999, 16, 1),
];

#[derive(Clone, Copy, PartialEq, Eq, Debug, Structural)]
pub enum ChipType {
    Rt710,
    Rt720,
}

#[derive(Clone, Copy, PartialEq, Eq, Debug, Structural)]
pub enum SignalOutputMode {
    Single,
    Differential,
}

#[derive(Clone, Copy, PartialEq, Eq, Debug, Structural)]
pub enum AgcMode {
    Negative,
    Positive,
}

#[derive(Clone, Copy, PartialEq, Eq, Debug, Structural)]
pub enum VgaAttenMode {
    Off,
    On,
}

#[derive(Clone, Copy, PartialEq, Eq, Debug, Structural)]
pub enum FineGain {
    Db3,
    Db2,
    Db1,
    Db0,
}

impl FineGain {
    /// The setting of the chip for the gain.
    pub open spec fn setting(self) -> u8 {
        match self {
            FineGain::Db3 => 0,
            FineGain::Db2 => 1,
            FineGain::Db1 => 2,
            FineGain::Db0 => 3,
        }
    }

    fn bits(self) -> (r: u8)
        ensures
            r == self.setting(),
    {
        match self {
            FineGain::Db3 => 0,
            FineGain::Db2 => 1,
            FineGain::Db1 => 2,
            FineGain::Db0 => 3,
        }
    }
}

#[derive(Clone, Copy, PartialEq, Eq, Debug, Structural)]
pub enum ScanMode {
    Manual,
    Auto,
}

#[derive(Clone, Copy, PartialEq, Eq, Debug, Structural)]
pub struct Rt710Config {
    /// Crystal frequency in kHz.
    pub xtal: u32,
    pub loop_through: bool,
    pub clock_out: bool,
    pub signal_output_mode: SignalOutputMode,
    pub agc_mode: AgcMode,
    pub vga_atten_mode: VgaAttenMode,
    pub fine_gain: FineGain,
    /// Only for the RT720.
    pub scan_mode: ScanMode,
}

#[derive(Clone, Copy, PartialEq, Eq, Debug, Structural)]
pub struct Rt710 {
    pub i2c_addr: u8,
    pub config: Rt710Config,
    /// The detected chip, `None` until initialised.
    pub chip: Option<ChipType>,
    /// The frequency in kHz the PLL is set to, 0 if none.
    pub freq: u32,
}

/// The divider of the mixer for a frequency: the first power of two from 2 to 16
/// that brings the VCO into its range, else 32.
pub open spec fn mixer_divider(freq: u32, mix_div: u32) -> u32
    decreases 32 - mix_div,
{
    if mix_div < 2 || mix_div > 16 || 2_350_000 <= freq * mix_div <= 4_700_000 {
        mix_div
    } else {
        mixer_divider(freq, (mix_div * 2) as u32)
    }
}

/// The setting of the chip for a divider of the mixer.
pub open spec fn divider_setting(mix_div: u32) -> u8 {
    if mix_div == 2 {
        1
    } else if mix_div == 8 {
        2
    } else if mix_div == 16 {
        3
    } else {
        0
    }
}

/// The divider of the PLL: its whole part, and what is left of the VCO frequency
/// in kHz, moved away from the values the PLL does not lock on.
pub open spec fn pll_divider(vco: u32, xtal: u32) -> (u8, u16) {
    let nint = ((vco / 2) / xtal) as u8;
    let fra = vco.wrapping_sub((xtal * 2 * nint) as u32) as u16;
    if fra < xtal / 64 {
        (nint, 0u16)
    } else if fra > ((xtal * 127) as u32) / 64 {
        (nint.wrapping_add(1), 0u16)
    } else if fra > ((xtal * 127) as u32) / 128 && fra < xtal {
        (nint, (((xtal * 127) as u32) / 128) as u16)
    } else if fra > xtal && fra < ((xtal * 129) as u32) / 128 {
        (nint, (((xtal * 129) as u32) / 128) as u16)
    } else {
        (nint, fra)
    }
}

/// The fractional part of the divider of the PLL, found bit by bit: each bit
/// from the top stands for half of what the one before it does.
pub open spec fn sdm_from(fra: u16, xtal: u32, nsdm: u16, sdm: u16) -> u16
    decreases 0x10000 - nsdm,
{
    if fra <= 1 || nsdm < 2 {
        sdm
    } else {
        let t = ((xtal * 2) as u32) / (nsdm as u32);
        if fra > t {
            let sdm1 = sdm.wrapping_add(0x8000u16 / (nsdm / 2));
            if nsdm >= 0x8000 {
                sdm1
            } else {
                sdm_from((fra - t) as u16, xtal, (nsdm * 2) as u16, sdm1)
            }
        } else if nsdm >= 0x8000 {
            sdm
        } else {
            sdm_from(fra, xtal, (nsdm * 2) as u16, sdm)
        }
    }
}

/// Whether [`sdm_from`] gets to its end before its bits are used up: always with
/// a crystal below 32.768 MHz, where the last bit stands for no more than 1 kHz.
pub open spec fn sdm_ends(fra: u16, xtal: u32, nsdm: u16) -> bool
    decreases 0x10000 - nsdm,
{
    if fra <= 1 || nsdm < 2 {
        true
    } else {
        let t = ((xtal * 2) as u32) / (nsdm as u32);
        if fra > t {
            nsdm >= 0x8000 || sdm_ends((fra - t) as u16, xtal, (nsdm * 2) as u16)
        } else {
            nsdm < 0x8000 && sdm_ends(fra, xtal, (nsdm * 2) as u16)
        }
    }
}

/// Whether the PLL can be set to a frequency with a crystal.
pub open spec fn pll_fits(xtal: u32, freq: u32) -> bool {
    &&& 0 < xtal <= 0x7fff_ffff
    &&& freq <= 0x7ff_ffff
    &&& xtal < 0x8000 || sdm_ends(
        pll_divider((freq * mixer_divider(freq, 2)) as u32, xtal).1,
        xtal,
        2,
    )
}

/// The register settings for the whole part of the divider of the PLL.
pub open spec fn nint_bits(nint: u8) -> u8 {
    let ni = nint.wrapping_sub(13) / 4;
    let si = nint.wrapping_sub((ni * 4) as u8).wrapping_sub(13);
    (ni & 0x3f) | ((si << 6) & 0xc0)
}

/// The program that sets the PLL.
pub open spec fn pll_program(chip: ChipType, xtal: u32, freq: u32) -> Seq<Op> {
    let mix_div = mixer_divider(freq, 2);
    let div_num = divider_setting(mix_div);
    let (nint, fra) = pll_divider((freq * mix_div) as u32, xtal);
    let sdm = sdm_from(fra, xtal, 2, 0);
    let start = seq![field(0x04, 0xfe, div_num & 0x01)]
        .push(out(0x04, 1));
    let split = if chip == ChipType::Rt720 {
        start.push(field(0x08, 0xef, (div_num << 3) & 0x10)).push(out(0x08, 1)).push(
            field(0x04, 0x3f, if div_num <= 1 { 0x40 } else { 0x80 }),
        ).push(
            if div_num <= 1 {
                field(0x0c, 0xff, 0x10)
            } else {
                field(0x0c, 0xef, 0)
            },
        ).push(out(0x04, 1)).push(out(0x0c, 1))
    } else {
        start
    };
    split.push(field(0x05, 0x00, nint_bits(nint))).push(out(0x05, 1)).push(
        field(0x04, 0xff, if fra == 0 { 0x02 } else { 0 }),
    ).push(out(0x04, 1)).push(field(0x07, 0x00, (sdm >> 8) as u8)).push(
        field(0x06, 0x00, sdm as u8),
    ).push(out(0x07, 1)).push(out(0x06, 1))
}

/// The divider of the mixer for a frequency.
fn find_divider(freq: u32) -> (r: u32)
    requires
        freq <= 0x7ff_ffff,
    ensures
        r == mixer_divider(freq, 2),
        2 <= r <= 32,
{
    let mut mix_div: u32 = 2;
    while mix_div <= 16
        invariant
            freq <= 0x7ff_ffff,
            2 <= mix_div <= 32,
            mixer_divider(freq, mix_div) == mixer_divider(freq, 2),
        decreases 32 - mix_div,
    {
        assert(freq * mix_div <= 0x7ff_ffff * 16) by (nonlinear_arith)
            requires
                freq <= 0x7ff_ffff,
                mix_div <= 16,
        ;
        let vco: u32 = freq * mix_div;
        if vco >= 2_350_000 && vco <= 4_700_000 {
            return mix_div;
        }
        mix_div = mix_div * 2;
    }
    mix_div
}

/// The divider of the PLL for a frequency of the VCO.
fn split_divider(vco: u32, xtal: u32) -> (r: (u8, u16))
    requires
        0 < xtal <= 0x7fff_ffff,
    ensures
        r == pll_divider(vco, xtal),
{
    let whole: u32 = (vco / 2) / xtal;
    let nint: u8 = whole as u8;
    assert(whole as u8 <= whole) by (bit_vector);
    assert(xtal * 2 * nint <= vco) by (nonlinear_arith)
        requires
            nint <= whole,
            whole == (vco / 2) / xtal,
            0 < xtal,
    ;
    let fra: u16 = vco.wrapping_sub(xtal * 2 * nint as u32) as u16;
    if (fra as u32) < xtal / 64 {
        (nint, 0)
    } else if fra as u32 > xtal * 127 / 64 {
        (nint.wrapping_add(1), 0)
    } else if fra as u32 > xtal * 127 / 128 && (fra as u32) < xtal {
        (nint, (xtal * 127 / 128) as u16)
    } else if fra as u32 > xtal && (fra as u32) < xtal * 129 / 128 {
        (nint, (xtal * 129 / 128) as u16)
    } else {
        (nint, fra)
    }
}

/// The fractional part of the divider of the PLL.
fn find_sdm(vco_fra: u16, xtal: u32) -> (r: u16)
    requires
        xtal <= 0x7fff_ffff,
        xtal < 0x8000 || sdm_ends(vco_fra, xtal, 2),
    ensures
        r == sdm_from(vco_fra, xtal, 2, 0),
{
    let mut fra: u16 = vco_fra;
    let mut nsdm: u16 = 2;
    let mut sdm: u16 = 0;
    while fra > 1
        invariant
            xtal <= 0x7fff_ffff,
            xtal < 0x8000 || sdm_ends(fra, xtal, nsdm),
            2 <= nsdm,
            sdm_from(fra, xtal, nsdm, sdm) == sdm_from(vco_fra, xtal, 2, 0),
        decreases 0x10000 - nsdm,
    {
        let t: u32 = (xtal * 2) / nsdm as u32;
        if fra as u32 > t {
            sdm = sdm.wrapping_add(0x8000 / (nsdm / 2));
            fra = (fra as u32 - t) as u16;
            if nsdm >= 0x8000 {
                return sdm;
            }
        }
        assert(nsdm < 0x8000) by {
            assert(xtal < 0x8000 && nsdm >= 0x8000 ==> t <= 1) by (nonlinear_arith)
                requires
                    t == (xtal * 2) / nsdm as int,
            ;
        }
        nsdm = nsdm * 2;
    }
    sdm
}

/// The register settings for the whole part of the divider.
fn set_nint(nint: u8) -> (r: u8)
    ensures
        r == nint_bits(nint),
{
    let ni: u8 = nint.wrapping_sub(13) / 4;
    let si: u8 = nint.wrapping_sub(ni * 4).wrapping_sub(13);
    (ni & 0x3f) | ((si << 6) & 0xc0)
}

/// Builds the program that sets the PLL.
fn pll_ops(chip: ChipType, xtal: u32, freq: u32) -> (r: Vec<Op>)
    requires
        pll_fits(xtal, freq),
    ensures
        shadow::built(r, pll_program(chip, xtal, freq), 16),
{
    let mix_div: u32 = find_divider(freq);
    assert(freq * mix_div <= 0x7ff_ffff * 32) by (nonlinear_arith)
        requires
            freq <= 0x7ff_ffff,
            mix_div <= 32,
    ;
    let div_num: u8 = match mix_div {
        2 => 1,
        8 => 2,
        16 => 3,
        _ => 0,
    };
    let (nint, fra) = split_divider(freq * mix_div, xtal);
    let sdm: u16 = find_sdm(fra, xtal);
    let mut ops: Vec<Op> = Vec::new();
    ops.push(field(0x04, 0xfe, div_num & 0x01));
    ops.push(out(0x04, 1));
    if chip == ChipType::Rt720 {
        ops.push(field(0x08, 0xef, (div_num << 3) & 0x10));
        ops.push(out(0x08, 1));
        ops.push(field(0x04, 0x3f, if div_num <= 1 { 0x40 } else { 0x80 }));
        ops.push(
            if div_num <= 1 {
                field(0x0c, 0xff, 0x10)
            } else {
                field(0x0c, 0xef, 0)
            },
        );
        ops.push(out(0x04, 1));
        ops.push(out(0x0c, 1));
    }
    ops.push(field(0x05, 0x00, set_nint(nint)));
    ops.push(out(0x05, 1));
    ops.push(field(0x04, 0xff, if fra == 0 { 0x02 } else { 0 }));
    ops.push(out(0x04, 1));
    ops.push(field(0x07, 0x00, (sdm >> 8) as u8));
    ops.push(field(0x06, 0x00, sdm as u8));
    ops.push(out(0x07, 1));
    ops.push(out(0x06, 1));
    ops
}

/// The program that applies the configuration and writes every register.
pub open spec fn setup_program(config: Rt710Config, chip: ChipType) -> Seq<Op> {
    let common = seq![if config.loop_through {
            field(0x01, 0xfb, 0)
        } else {
            field(0x01, 0xff, 0x04)
        }]
        .push(if config.clock_out { field(0x03, 0xef, 0) } else { field(0x03, 0xff, 0x10) })
        .push(if config.signal_output_mode == SignalOutputMode::Differential { field(0x0b, 0xef, 0) } else { field(0x0b, 0xff, 0x10) })
        .push(if config.agc_mode == AgcMode::Positive { field(0x0d, 0xff, 0x10) } else { field(0x0d, 0xef, 0) })
        .push(if config.vga_atten_mode == VgaAttenMode::On { field(0x0b, 0xff, 0x08) } else { field(0x0b, 0xf7, 0) });
    let own = if chip == ChipType::Rt710 {
        common.push(field(0x0e, 0xfc, config.fine_gain.setting() & 0x03))
    } else {
        common.push(
            if config.fine_gain == FineGain::Db3 || config.fine_gain == FineGain::Db2 {
                field(0x0e, 0xfe, 0)
            } else {
                field(0x0e, 0xff, 0x01)
            },
        ).push(field(0x03, 0xf0, 0))
    };
    own.push(out(0x00, 16))
}

fn setup_ops(config: Rt710Config, chip: ChipType) -> (r: Vec<Op>)
    ensures
        shadow::built(r, setup_program(config, chip), 16),
{
    let mut ops: Vec<Op> = Vec::new();
    ops.push(
        if config.loop_through {
            field(0x01, 0xfb, 0)
        } else {
            field(0x01, 0xff, 0x04)
        },
    );
    ops.push(
        if config.clock_out {
            field(0x03, 0xef, 0)
        } else {
            field(0x03, 0xff, 0x10)
        },
    );
    ops.push(
        match config.signal_output_mode {
            SignalOutputMode::Differential => field(0x0b, 0xef, 0),
            SignalOutputMode::Single => field(0x0b, 0xff, 0x10),
        },
    );
    ops.push(
        match config.agc_mode {
            AgcMode::Positive => field(0x0d, 0xff, 0x10),
            AgcMode::Negative => field(0x0d, 0xef, 0),
        },
    );
    ops.push(
        match config.vga_atten_mode {
            VgaAttenMode::On => field(0x0b, 0xff, 0x08),
            VgaAttenMode::Off => field(0x0b, 0xf7, 0),
        },
    );
    if chip == ChipType::Rt710 {
        ops.push(field(0x0e, 0xfc, config.fine_gain.bits() & 0x03));
    } else {
        ops.push(
            match config.fine_gain {
                FineGain::Db3 | FineGain::Db2 => field(0x0e, 0xfe, 0),
                _ => field(0x0e, 0xff, 0x01),
            },
        );
        ops.push(field(0x03, 0xf0, 0));
    }
    ops.push(out(0x00, 16));
    ops
}

/// The program that follows the PLL: it waits for it, then sets what depends on
/// the frequency (RT710) or on the way of scanning (RT720).
pub open spec fn band_program(config: Rt710Config, chip: ChipType, freq: u32) -> Seq<Op> {
    let wait = seq![Op::Delay { ms: 10 }];
    if chip == ChipType::Rt710 {
        let inside = 1_600_000 <= freq < 1_950_000;
        wait.push(
            if inside {
                field(0x02, 0xff, 0x40)
            } else {
                field(0x02, 0xbf, 0)
            },
        ).push(
            if inside {
                field(0x08, 0xff, 0x80)
            } else {
                field(0x08, 0x7f, 0)
            },
        ).push(
            if freq >= 1_950_000 {
                field(0x0a, 0x00, 0x38)
            } else {
                field(0x0a, 0xff, 0)
            },
        ).push(out(0x0a, 1)).push(out(0x02, 1)).push(out(0x08, 1)).push(
            field(0x0e, 0xf3, if freq >= 2_000_000 { 0x08 } else { 0 }),
        ).push(out(0x0e, 1))
    } else {
        wait.push(
            if config.scan_mode == ScanMode::Auto {
                field(0x0b, 0xff, 0x02)
            } else {
                field(0x0b, 0xfc, 0)
            },
        ).push(out(0x0b, 1))
    }
}

fn band_ops(config: Rt710Config, chip: ChipType, freq: u32) -> (r: Vec<Op>)
    ensures
        shadow::built(r, band_program(config, chip, freq), 16),
{
    let mut ops: Vec<Op> = Vec::new();
    ops.push(Op::Delay { ms: 10 });
    if chip == ChipType::Rt710 {
        let inside: bool = freq.wrapping_sub(1_600_000) < 350_000;
        ops.push(
            if inside {
                field(0x02, 0xff, 0x40)
            } else {
                field(0x02, 0xbf, 0)
            },
        );
        ops.push(
            if inside {
                field(0x08, 0xff, 0x80)
            } else {
                field(0x08, 0x7f, 0)
            },
        );
        ops.push(
            if freq >= 1_950_000 {
                field(0x0a, 0x00, 0x38)
            } else {
                field(0x0a, 0xff, 0)
            },
        );
        ops.push(out(0x0a, 1));
        ops.push(out(0x02, 1));
        ops.push(out(0x08, 1));
        ops.push(field(0x0e, 0xf3, if freq >= 2_000_000 { 0x08 } else { 0 }));
        ops.push(out(0x0e, 1));
    } else {
        ops.push(
            match config.scan_mode {
                ScanMode::Auto => field(0x0b, 0xff, 0x02),
                ScanMode::Manual => field(0x0b, 0xfc, 0),
            },
        );
        ops.push(out(0x0b, 1));
    }
    ops
}

/// The symbol rate the filter is set for: the RT720 takes it with a margin.
pub open spec fn padded_rate(config: Rt710Config, chip: ChipType, symbol_rate: u32) -> u32 {
    (symbol_rate + padding(config, chip, symbol_rate)) as u32
}

/// What is added to the symbol rate for the filter, in ksps.
pub open spec fn padding(config: Rt710Config, chip: ChipType, symbol_rate: u32) -> int {
    if chip == ChipType::Rt710 {
        0
    } else if config.scan_mode == ScanMode::Auto {
        10_000
    } else if symbol_rate >= 15_000 {
        6_000
    } else {
        0
    }
}

/// The (coarse, fine) setting of the first row from `i` on whose bandwidth is
/// not below `bandwidth`, (0, 0) if there is none.
pub open spec fn row_setting(bandwidth: int, i: int) -> (u8, u8)
    decreases 26 - i,
{
    if i < 0 || i >= 26 {
        (0u8, 0u8)
    } else if bandwidth <= BANDWIDTH_PARAMS@[i].0 {
        (BANDWIDTH_PARAMS@[i].1, BANDWIDTH_PARAMS@[i].2)
    } else {
        row_setting(bandwidth, i + 1)
    }
}

/// A division that rounds up.
pub open spec fn ceil_div(a: int, b: int) -> int {
    a / b + if a % b != 0 { 1int } else { 0 }
}

/// The coarse setting of the RT720 for a symbol rate times 12, less what the
/// fine setting covers. The steps of the chip have gaps, which are skipped.
pub open spec fn rt720_coarse(s: int, range: int) -> int {
    if s <= 88_000 + range {
        0
    } else if s <= 368_000 + range {
        let c = ceil_div(s - 88_000 - range, 20_000);
        if c > 6 {
            c + 1
        } else {
            c
        }
    } else if s <= 764_000 + range {
        let c = (s - 368_000 - range) / 20_000 + 15 + if (s + 25_216 - range) % 20_000 != 0 {
            1int
        } else {
            0
        };
        if c >= 33 {
            c + 3
        } else if c >= 29 {
            c + 2
        } else if c >= 27 {
            c + 3
        } else if c >= 24 {
            c + 2
        } else if c >= 19 {
            c + 1
        } else {
            c
        }
    } else {
        42
    }
}

/// The bandwidth of a signal, in the unit of the rows of [`BANDWIDTH_PARAMS`].
pub open spec fn bandwidth_of(symbol_rate: u32, rolloff: u32) -> int {
    symbol_rate * (115 + rolloff * 5) / 10
}

/// What [`bandwidth_reg`] gives.
pub open spec fn bandwidth_setting(chip: ChipType, symbol_rate: u32, rolloff: u32) -> Option<u8> {
    let bandwidth = bandwidth_of(symbol_rate, rolloff);
    if bandwidth == 0 {
        None
    } else {
        let (coarse, fine) = if chip == ChipType::Rt710 {
            if bandwidth >= 380_000 {
                let over = ceil_div(bandwidth - 380_000, 17_400);
                (((over + 0x10) % 256) as u8, 1u8)
            } else {
                row_setting(bandwidth, 0)
            }
        } else {
            let fine = if rolloff > 1 {
                1u8
            } else {
                0u8
            };
            (rt720_coarse(symbol_rate * 12, fine * 20_000) as u8, fine)
        };
        Some(((coarse << 2) & 0xfc) | (fine & 0x03))
    }
}

/// The row of the bandwidth table for a bandwidth.
fn find_row(bandwidth: u32) -> (r: (u8, u8))
    ensures
        r == row_setting(bandwidth as int, 0),
{
    let rows: [(u32, u8, u8); 26] = BANDWIDTH_PARAMS;
    let mut i: usize = 0;
    while i < 26
        invariant
            i <= 26,
            rows@ == BANDWIDTH_PARAMS@,
            rows@.len() == 26,
            row_setting(bandwidth as int, i as int) == row_setting(bandwidth as int, 0),
        decreases 26 - i,
    {
        if bandwidth <= rows[i].0 {
            return (rows[i].1, rows[i].2);
        }
        i = i + 1;
    }
    (0, 0)
}

fn find_rt720_coarse(s: u32, range: u32) -> (r: u8)
    requires
        range <= 20_000,
        s < 0xffff_0000,
    ensures
        r == rt720_coarse(s as int, range as int),
{
    if s <= 88_000 + range {
        0
    } else if s <= 368_000 + range {
        let mut coarse: u8 = ((s - 88_000 - range) / 20_000) as u8;
        if (s - 88_000 - range) % 20_000 != 0 {
            coarse = coarse + 1;
        }
        if coarse > 6 {
            coarse = coarse + 1;
        }
        coarse
    } else if s <= 764_000 + range {
        let mut coarse: u8 = ((s - 368_000 - range) / 20_000) as u8 + 15;
        if (s + 25_216 - range) % 20_000 != 0 {
            coarse = coarse + 1;
        }
        if coarse >= 33 {
            coarse + 3
        } else if coarse >= 29 {
            coarse + 2
        } else if coarse >= 27 {
            coarse + 3
        } else if coarse >= 24 {
            coarse + 2
        } else if coarse >= 19 {
            coarse + 1
        } else {
            coarse
        }
    } else {
        42
    }
}

/// The value of register 0x0f for the filter bandwidth, `None` if it is zero.
pub fn bandwidth_reg(chip: ChipType, symbol_rate: u32, rolloff: u32) -> (r: Option<u8>)
    requires
        symbol_rate * (115 + rolloff * 5) <= u32::MAX,
        115 + rolloff * 5 <= u32::MAX,
    ensures
        r == bandwidth_setting(chip, symbol_rate, rolloff),
{
    assert(symbol_rate * 115 <= symbol_rate * (115 + rolloff * 5)) by (nonlinear_arith);
    let bandwidth: u32 = (symbol_rate * (115 + rolloff * 5)) / 10;
    if bandwidth == 0 {
        return None;
    }
    let coarse: u8;
    let fine: u8;
    if chip == ChipType::Rt710 {
        if bandwidth >= 380_000 {
            let over: u32 = bandwidth - 380_000;
            let up: u32 = if over % 17_400 != 0 { 1 } else { 0 };
            let steps: u32 = over / 17_400 + up + 0x10;
            coarse = (steps % 256) as u8;
            fine = 1;
        } else {
            let (c, f) = find_row(bandwidth);
            coarse = c;
            fine = f;
        }
    } else {
        fine = if rolloff > 1 { 1 } else { 0 };
        coarse = find_rt720_coarse(symbol_rate * 12, fine as u32 * 20_000);
    }
    Some(((coarse << 2) & 0xfc) | (fine & 0x03))
}

/// The registers a chip starts from.
pub open spec fn init_regs(chip: ChipType) -> Seq<u8> {
    match chip {
        ChipType::Rt710 => RT710_INIT_REGS@,
        ChipType::Rt720 => RT720_INIT_REGS@,
    }
}

/// The registers that put the chip to sleep.
pub open spec fn sleep_regs(chip: ChipType, clock_out: bool) -> Seq<u8> {
    if chip == ChipType::Rt720 {
        SLEEP_REGS@.update(0x01, 0x5e).update(0x03, SLEEP_REGS@[0x03] | 0x20)
    } else if clock_out {
        SLEEP_REGS@.update(0x03, 0x20)
    } else {
        SLEEP_REGS@
    }
}

fn copy_regs(from: &[u8; 16]) -> (r: Vec<u8>)
    ensures
        r@ == from@,
{
    let mut regs: Vec<u8> = Vec::new();
    let mut i: usize = 0;
    while i < 16
        invariant
            i <= 16,
            regs@ == from@.subrange(0, i as int),
        decreases 16 - i,
    {
        regs.push(from[i]);
        assert(from@.subrange(0, i + 1) =~= from@.subrange(0, i as int).push(from@[i as int]));
        i = i + 1;
    }
    assert(from@.subrange(0, 16) =~= from@);
    regs
}

/// A tuner that could not be used yet.
pub open spec fn not_initialised<T>() -> Result<T, Error> {
    Err(error("RT710 not initialised"))
}

/// What [`Rt710::sleep`] does and gives.
#[verifier::opaque]
pub open spec fn slept<B: I2c>(s: B::State, t: Rt710) -> Ran<B::State, ()> {
    match t.chip {
        None => (s, not_initialised()),
        Some(chip) => B::on_write(
            s,
            t.i2c_addr,
            seq![0u8] + sleep_regs(chip, t.config.clock_out),
        ),
    }
}

/// What [`Rt710::init`] does and gives.
#[verifier::opaque]
pub open spec fn inited<B: I2c>(s: B::State, t: Rt710) -> (B::State, Rt710, Result<(), Error>) {
    let off = Rt710 { chip: None, freq: 0, ..t };
    let (s1, r) = shadow::read_one::<B>(s, t.i2c_addr, 0x03);
    match r {
        Err(e) => (s1, off, Err(e)),
        Ok(id) => (
            s1,
            Rt710 {
                chip: Some(
                    if id & 0xf0 == 0x70 {
                        ChipType::Rt710
                    } else {
                        ChipType::Rt720
                    },
                ),
                ..off
            },
            Ok(()),
        ),
    }
}

/// What [`Rt710::set_params`] does and gives: the setup, the PLL and what
/// follows it, then the filter. The frequency counts as set once the PLL is.
#[verifier::opaque]
pub open spec fn tuned<B: I2c>(
    s: B::State,
    t: Rt710,
    freq: u32,
    symbol_rate: u32,
    rolloff: u32,
) -> (B::State, Rt710, Result<(), Error>) {
    match t.chip {
        None => (s, t, not_initialised()),
        Some(chip) => if rolloff > 5 {
            (s, t, Err(error("invalid RT710 rolloff")))
        } else {
            let (s1, regs1, r1) = shadow::run::<B>(
                s,
                t.i2c_addr,
                init_regs(chip),
                setup_program(t.config, chip),
            );
            match r1 {
                Err(e) => (s1, t, Err(e)),
                Ok(_) => {
                    let (s2, regs2, r2) = shadow::run::<B>(
                        s1,
                        t.i2c_addr,
                        regs1,
                        pll_program(chip, t.config.xtal, freq),
                    );
                    match r2 {
                        Err(e) => (s2, Rt710 { freq: 0, ..t }, Err(e)),
                        Ok(_) => {
                            let (s3, r3) = filtered::<B>(s2, t, chip, regs2, freq, symbol_rate, rolloff);
                            (s3, Rt710 { freq, ..t }, r3)
                        },
                    }
                },
            }
        },
    }
}

/// What follows the PLL, and the filter.
pub open spec fn filtered<B: I2c>(
    s: B::State,
    t: Rt710,
    chip: ChipType,
    regs: Seq<u8>,
    freq: u32,
    symbol_rate: u32,
    rolloff: u32,
) -> Ran<B::State, ()> {
    let (s1, regs1, r1) = shadow::run::<B>(
        s,
        t.i2c_addr,
        regs,
        band_program(t.config, chip, freq),
    );
    match r1 {
        Err(e) => (s1, Err(e)),
        Ok(_) => match bandwidth_setting(
            chip,
            padded_rate(t.config, chip, symbol_rate),
            rolloff,
        ) {
            None => (s1, Err(error("RT710 bandwidth is zero"))),
            Some(v) => {
                let (s2, regs2, r2) = shadow::run::<B>(
                    s1,
                    t.i2c_addr,
                    regs1,
                    seq![field(0x0f, 0x00, v)]
                        .push(out(0x0f, 1)),
                );
                (s2, r2)
            },
        },
    }
}

impl Rt710 {
    /// Whether what [`Rt710::set_params`] computes stays within the integers it
    /// is computed in. A chip that is not initialised, and a rolloff that is not
    /// valid, are told before that.
    pub open spec fn takes(self, freq: u32, symbol_rate: u32, rolloff: u32) -> bool {
        self.chip matches Some(chip) ==> rolloff <= 5 ==> {
            &&& pll_fits(self.config.xtal, freq)
            &&& (symbol_rate + padding(self.config, chip, symbol_rate)) * (115 + rolloff * 5)
                <= u32::MAX
        }
    }

    pub fn new(i2c_addr: u8, config: Rt710Config) -> (r: Self)
        ensures
            r == (Rt710 { i2c_addr, config, chip: None, freq: 0 }),
    {
        Rt710 { i2c_addr, config, chip: None, freq: 0 }
    }

    fn chip_or_err(&self) -> (r: Result<ChipType, Error>)
        ensures
            self.chip matches Some(chip) ==> r == Ok::<ChipType, Error>(chip),
            self.chip is None ==> r == not_initialised::<ChipType>(),
    {
        match self.chip {
            Some(chip) => Ok(chip),
            None => Err(error("RT710 not initialised")),
        }
    }

    /// Finds out which chip it is.
    pub fn init<B: I2c>(&mut self, i2c: &mut B) -> (r: Result<(), Error>)
        ensures
            (final(i2c).state(), *final(self), r) == inited::<B>(old(i2c).state(), *old(self)),
            final(self).config == old(self).config,
    {
        reveal(inited);
        self.chip = None;
        self.freq = 0;
        let id: u8 = match read_reg(i2c, self.i2c_addr, 0x03) {
            Ok(id) => id,
            Err(e) => return Err(e),
        };
        self.chip = Some(
            if id & 0xf0 == 0x70 {
                ChipType::Rt710
            } else {
                ChipType::Rt720
            },
        );
        Ok(())
    }

    pub fn term(&mut self) -> (r: Result<(), Error>)
        ensures
            *final(self) == (Rt710 { chip: None, ..*old(self) }),
            r is Ok,
    {
        self.chip = None;
        Ok(())
    }

    /// Puts the chip to sleep.
    pub fn sleep<B: I2c>(&mut self, i2c: &mut B) -> (r: Result<(), Error>)
        ensures
            *final(self) == *old(self),
            (final(i2c).state(), r) == slept::<B>(old(i2c).state(), *old(self)),
    {
        reveal(slept);
        let chip: ChipType = match self.chip_or_err() {
            Ok(chip) => chip,
            Err(e) => return Err(e),
        };
        let asleep: [u8; 16] = SLEEP_REGS;
        let mut regs: Vec<u8> = copy_regs(&asleep);
        if chip == ChipType::Rt720 {
            regs.set(0x01, 0x5e);
            let v: u8 = regs[0x03] | 0x20;
            regs.set(0x03, v);
        } else if self.config.clock_out {
            regs.set(0x03, 0x20);
        }
        let mut data: Vec<u8> = Vec::new();
        data.push(0);
        data.append(&mut regs);
        assert(data@ =~= seq![0u8] + sleep_regs(chip, self.config.clock_out));
        i2c.write(self.i2c_addr, data.as_slice())
    }

    /// `freq` and `symbol_rate` in kHz and ksps; `rolloff` 0 to 5.
    pub fn set_params<B: I2c>(
        &mut self,
        i2c: &mut B,
        freq: u32,
        symbol_rate: u32,
        rolloff: u32,
    ) -> (r: Result<(), Error>)
        requires
            old(self).takes(freq, symbol_rate, rolloff),
        ensures
            (final(i2c).state(), *final(self), r) == tuned::<B>(
                old(i2c).state(),
                *old(self),
                freq,
                symbol_rate,
                rolloff,
            ),
            final(self).config == old(self).config,
    {
        reveal(tuned);
        let chip: ChipType = match self.chip_or_err() {
            Ok(chip) => chip,
            Err(e) => return Err(e),
        };
        if rolloff > 5 {
            return Err(error("invalid RT710 rolloff"));
        }
        let config: Rt710Config = self.config;
        let start: [u8; 16] = match chip {
            ChipType::Rt710 => RT710_INIT_REGS,
            ChipType::Rt720 => RT720_INIT_REGS,
        };
        let mut regs: Vec<u8> = copy_regs(&start);
        let setup: Vec<Op> = setup_ops(config, chip);
        match perform(i2c, self.i2c_addr, &mut regs, &setup) {
            Ok(_) => {},
            Err(e) => return Err(e),
        }
        self.freq = 0;
        let pll: Vec<Op> = pll_ops(chip, config.xtal, freq);
        match perform(i2c, self.i2c_addr, &mut regs, &pll) {
            Ok(_) => {},
            Err(e) => return Err(e),
        }
        self.freq = freq;
        let band: Vec<Op> = band_ops(config, chip, freq);
        match perform(i2c, self.i2c_addr, &mut regs, &band) {
            Ok(_) => {},
            Err(e) => return Err(e),
        }
        assert(symbol_rate + padding(config, chip, symbol_rate) <= u32::MAX) by (nonlinear_arith)
            requires
                (symbol_rate + padding(config, chip, symbol_rate)) * (115 + rolloff * 5)
                    <= u32::MAX,
        ;
        let rate: u32 = if chip == ChipType::Rt710 {
            symbol_rate
        } else {
            match config.scan_mode {
                ScanMode::Auto => symbol_rate + 10_000,
                ScanMode::Manual => if symbol_rate >= 15_000 {
                    symbol_rate + 6_000
                } else {
                    symbol_rate
                },
            }
        };
        let v: u8 = match bandwidth_reg(chip, rate, rolloff) {
            Some(v) => v,
            None => return Err(error("RT710 bandwidth is zero")),
        };
        let mut last: Vec<Op> = Vec::new();
        last.push(field(0x0f, 0x00, v));
        last.push(out(0x0f, 1));
        assert(last@ =~= seq![field(0x0f, 0x00, v)]
            .push(out(0x0f, 1)));
        perform(i2c, self.i2c_addr, &mut regs, &last)
    }

    pub fn is_pll_locked<B: I2c>(&mut self, i2c: &mut B) -> (r: Result<bool, Error>)
        ensures
            *final(self) == *old(self),
            old(self).chip is None ==> final(i2c).state() == old(i2c).state() && r
                == not_initialised::<bool>(),
            old(self).chip is Some ==> (final(i2c).state(), r) == pll_lock::<B>(
                old(i2c).state(),
                old(self).i2c_addr,
            ),
    {
        match self.chip_or_err() {
            Ok(_) => {},
            Err(e) => return Err(e),
        }
        match read_reg(i2c, self.i2c_addr, 0x02) {
            Ok(v) => Ok(v & 0x80 != 0),
            Err(e) => Err(e),
        }
    }
}

/// Whether the PLL is locked: bit 7 of register 2.
pub open spec fn pll_lock<B: I2c>(s: B::State, addr: u8) -> Ran<B::State, bool> {
    let (s1, r) = shadow::read_one::<B>(s, addr, 0x02);
    match r {
        Ok(v) => (s1, Ok(v & 0x80 != 0)),
        Err(e) => (s1, Err(e)),
    }
}

/// What a row of the bandwidths sets the filter to.
spec fn row_width(i: int) -> int {
    BANDWIDTH_PARAMS@[i].1 * 4 + BANDWIDTH_PARAMS@[i].2
}

proof fn rows_widen(i: int)
    requires
        0 <= i < 25,
    ensures
        row_width(i) <= row_width(i + 1),
        BANDWIDTH_PARAMS@[i + 1].1 <= 16,
        BANDWIDTH_PARAMS@[i].2 <= 1,
        BANDWIDTH_PARAMS@[i + 1].2 <= 1,
        BANDWIDTH_PARAMS@[25].0 == 379_999,
{
}

proof fn row_is_no_narrower(bandwidth: int, i: int)
    requires
        0 <= i < 26,
        bandwidth < 380_000,
    ensures
        ({
            let (coarse, fine) = row_setting(bandwidth, i);
            row_width(i) <= coarse * 4 + fine <= 65 && fine <= 1 && coarse <= 16
        }),
    decreases 26 - i,
{
    if i < 25 {
        rows_widen(i);
        row_is_no_narrower(bandwidth, i + 1);
    } else {
        rows_widen(24);
    }
}

proof fn rows_follow(low: int, high: int, i: int)
    requires
        0 <= i < 26,
        low <= high < 380_000,
    ensures
        ({
            let (c0, f0) = row_setting(low, i);
            let (c1, f1) = row_setting(high, i);
            c0 * 4 + f0 <= c1 * 4 + f1
        }),
    decreases 26 - i,
{
    row_is_no_narrower(high, i);
    if low > BANDWIDTH_PARAMS@[i].0 && i < 25 {
        rows_follow(low, high, i + 1);
    }
}

/// What the RT710 is told for a bandwidth is its setting in steps of a quarter.
proof fn setting_is_a_width(coarse: u8, fine: u8)
    requires
        coarse <= 63,
        fine <= 1,
    ensures
        ((coarse << 2) & 0xfc) | (fine & 0x03) == coarse * 4 + fine,
{
    assert(((coarse << 2) & 0xfc) | (fine & 0x03) == coarse * 4 + fine) by (bit_vector)
        requires
            coarse <= 63,
            fine <= 1,
    ;
}

/// A wider signal never gets a narrower filter on the RT710, up to the widest that
/// the register holds.
pub proof fn wider_signals_get_wider_filters(low: u32, high: u32, rolloff: u32)
    requires
        0 < low <= high,
        bandwidth_of(high, rolloff) <= 1_197_800,
    ensures
        bandwidth_setting(ChipType::Rt710, low, rolloff) matches Some(narrow)
            && bandwidth_setting(ChipType::Rt710, high, rolloff) matches Some(wide) && narrow <= wide,
{
    let share = 115 + rolloff * 5;
    assert(115 <= low * share && low * share <= high * share) by (nonlinear_arith)
        requires
            0 < low <= high,
            share >= 115,
    ;
    let a = bandwidth_of(low, rolloff);
    let b = bandwidth_of(high, rolloff);
    assert(0 < a <= b);
    rows_follow(if a < 380_000 { a } else { 0 }, if b < 380_000 { b } else { 379_999 }, 0);
    row_is_no_narrower(if a < 380_000 { a } else { 0 }, 0);
    row_is_no_narrower(if b < 380_000 { b } else { 0 }, 0);
    let over_a = if a < 380_000 { 0 } else { ceil_div(a - 380_000, 17_400) };
    let over_b = if b < 380_000 { 0 } else { ceil_div(b - 380_000, 17_400) };
    assert(0 <= over_a <= over_b <= 47 || b < 380_000);
    let (ca, fa) = if a < 380_000 { row_setting(a, 0) } else { ((over_a + 0x10) as u8, 1u8) };
    let (cb, fb) = if b < 380_000 { row_setting(b, 0) } else { ((over_b + 0x10) as u8, 1u8) };
    setting_is_a_width(ca, fa);
    setting_is_a_width(cb, fb);
}

/// A frequency the divider of the mixer can bring to the VCO is brought into its
/// range.
pub proof fn vco_in_range(freq: u32)
    requires
        73_438 <= freq <= 2_350_000,
    ensures
        2_350_000 <= freq * mixer_divider(freq, 2) <= 4_700_000,
{
    reveal_with_fuel(mixer_divider, 6);
}

/// What the chip divides the VCO by, by its setting.
pub open spec fn divider_for(setting: u8) -> int {
    if setting == 1 {
        2
    } else if setting == 0 {
        4
    } else if setting == 2 {
        8
    } else {
        16
    }
}

/// The setting of the divider that a chip holds: its lower bit is bit 0 of register 4,
/// and on the RT720 its upper one is bit 4 of register 8.
pub open spec fn setting_in(chip: ChipType, r04: u8, r08: u8) -> u8 {
    if chip == ChipType::Rt720 {
        (r04 & 0x01) | ((r08 & 0x10) >> 3)
    } else {
        r04 & 0x01
    }
}

/// The frequency of the VCO in parts of 0x10000 of a kHz, from what registers 5 to 7
/// hold: twice the crystal, times the whole part and the fraction of the divider.
pub open spec fn vco_of(xtal: u32, r05: u8, r06: u8, r07: u8) -> int {
    2 * xtal * ((13 + 4 * (r05 & 0x3f) + (r05 >> 6)) * 0x1_0000 + r07 * 0x100 + r06)
}

/// Whether the registers of a chip stand for a frequency: what the PLL makes of the
/// crystal, divided by the divider that is set, is it, to within a part of 64 of the
/// crystal at the VCO.
pub open spec fn stands_for(chip: ChipType, file: Seq<u8>, xtal: u32, freq: u32) -> bool {
    let off = (xtal / 64 + 18) * 0x1_0000;
    let divider = divider_for(setting_in(chip, file[0x04], file[0x08]));
    -off <= vco_of(xtal, file[0x05], file[0x06], file[0x07]) - freq * divider * 0x1_0000 <= off
}

/// The divider the setting stands for on the chip, times the frequency asked for, is the
/// frequency the divider of the PLL is worked out from.
pub proof fn divider_brings_the_frequency_to_the_vco(freq: u32)
    requires
        146_875 <= freq <= 2_350_000,
    ensures
        divider_for(divider_setting(mixer_divider(freq, 2))) == mixer_divider(freq, 2),
        2_350_000 <= freq * divider_for(divider_setting(mixer_divider(freq, 2))) <= 4_700_000,
        587_500 <= freq ==> divider_setting(mixer_divider(freq, 2)) <= 1,
{
    reveal_with_fuel(mixer_divider, 6);
}

proof fn sdm_is_shared(fra: u16, xtal: u32, nsdm: u16, sdm: u16, found: u32)
    requires
        xtal < 0x8000,
        r850::pll::is_step(nsdm as u32),
        sdm == found,
        nsdm <= 0x8000,
        found + 2 * (0x8000u32 / ((nsdm as u32) / 2)) <= 0x1_0000,
    ensures
        sdm_from(fra, xtal, nsdm, sdm) == r850::pll::sdm_from(fra, xtal, nsdm as u32, found),
    decreases 0x10000 - nsdm,
{
    let step = ((xtal * 2) as u32) / (nsdm as u32);
    let weight = 0x8000u16 / (nsdm / 2);
    assert(weight == 0x8000u32 / ((nsdm as u32) / 2));
    r850::pll::weight_halves(nsdm as u32);
    if nsdm < 0x8000 {
        let next = (nsdm * 2) as u16;
        assert(next as u32 == ((nsdm as u32) + (nsdm as u32)) as u32);
        if fra > step {
            sdm_is_shared((fra - step) as u16, xtal, next, sdm.wrapping_add(weight), (found + weight) as u32);
        } else {
            sdm_is_shared(fra, xtal, next, sdm, found);
        }
    } else {
        assert(step == ((xtal * 2) as u32) / 0x8000u32);
        assert(step <= 1);
        reveal_with_fuel(r850::pll::sdm_from, 2);
    }
}

/// The divider of the PLL stands for the frequency of the VCO, to within a part of 64
/// of the crystal and what rounding the fraction takes.
proof fn divider_is_near(vco: u32, xtal: u32)
    requires
        2_350_000 <= vco <= 4_700_000,
        9_300 <= xtal < 0x8000,
    ensures
        ({
            let (nint, fra) = pll_divider(vco, xtal);
            let made = 2 * xtal * (nint * 0x1_0000 + sdm_from(fra, xtal, 2, 0));
            &&& 13 < nint
            &&& -(xtal / 64 + 18) * 0x1_0000 <= made - vco * 0x1_0000 <= (xtal / 64 + 18)
                * 0x1_0000
        }),
{
    let whole = (vco / 2) / xtal;
    assert(34 <= whole <= 252 && 2 * xtal * whole <= vco < 2 * xtal * whole + 2 * xtal)
        by (nonlinear_arith)
        requires
            2_350_000 <= vco <= 4_700_000,
            9_300 <= xtal < 0x8000,
            whole == (vco / 2) / xtal,
    ;
    assert(xtal * 2 * whole == 2 * xtal * whole) by (nonlinear_arith);
    let rest = vco - 2 * xtal * whole;
    let (nint, fra) = pll_divider(vco, xtal);
    assert((whole as u8) == whole);
    assert(fra <= xtal * 2);
    sdm_is_shared(fra, xtal, 2, 0, 0);
    r850::pll::sdm_is_near(fra, xtal);
    let sdm = sdm_from(fra, xtal, 2, 0);
    assert(2 * xtal * (nint * 0x1_0000 + sdm) == (2 * xtal * nint) * 0x1_0000 + (xtal * 2) * sdm)
        by (nonlinear_arith);
    if nint == whole + 1 {
        assert(2 * xtal * nint == 2 * xtal * whole + 2 * xtal) by (nonlinear_arith)
            requires
                nint == whole + 1,
        ;
    }
    if fra == 0 {
        assert((xtal * 2) * 0 == 0);
    }
}

proof fn programs_fit(config: Rt710Config, chip: ChipType, xtal: u32, freq: u32)
    ensures
        shadow::fits(setup_program(config, chip), 16),
        shadow::fits(pll_program(chip, xtal, freq), 16),
        shadow::fits(band_program(config, chip, freq), 16),
{
}

proof fn setting_bits(r04: u8, r08: u8, num: u8, nint: u8, top: u8, low: u8)
    requires
        num < 4,
        13 <= nint,
        top == 0x40 || top == 0x80,
        low == 0 || low == 2,
    ensures
        ((((((r04 & 0xfe) | (num & 0x01)) & 0x3f) | top) & 0xff) | low) & 0x01 == num & 0x01,
        ((((r04 & 0xfe) | (num & 0x01)) & 0xff) | low) & 0x01 == num & 0x01,
        (num & 0x01) | ((((r08 & 0xef) | ((num << 3) & 0x10)) & 0x10) >> 3) == num,
        num < 2 ==> num & 0x01 == num,
        13 + 4 * (nint_bits(nint) & 0x3f) + (nint_bits(nint) >> 6) == nint,
{
    assert(((((((r04 & 0xfe) | (num & 0x01)) & 0x3f) | top) & 0xff) | low) & 0x01 == num & 0x01
        && ((((r04 & 0xfe) | (num & 0x01)) & 0xff) | low) & 0x01 == num & 0x01 && (num & 0x01) | (((
    (r08 & 0xef) | ((num << 3) & 0x10)) & 0x10) >> 3) == num && (num < 2 ==> num & 0x01 == num))
        by (bit_vector)
        requires
            num < 4,
            top == 0x40 || top == 0x80,
            low == 0 || low == 2,
    ;
    let ni = (nint.wrapping_sub(13) / 4) as u8;
    let si = nint.wrapping_sub((ni * 4) as u8).wrapping_sub(13);
    assert(ni <= 60 && si < 4 && 13 + 4 * ni + si == nint);
    assert(((ni & 0x3f) | ((si << 6) & 0xc0)) & 0x3f == ni && ((ni & 0x3f) | ((si << 6) & 0xc0)) >> 6
        == si) by (bit_vector)
        requires
            ni <= 60,
            si < 4,
    ;
}

/// What registers 4 to 8 of the chip hold after the program that sets the PLL.
proof fn settings_left(chip: ChipType, xtal: u32, freq: u32, regs: Seq<u8>, file: Seq<u8>)
    requires
        9_300 <= xtal < 0x8000,
        146_875 <= freq <= 2_350_000,
    ensures
        ({
            let ops = pll_program(chip, xtal, freq);
            let num = divider_setting(mixer_divider(freq, 2));
            let (nint, fra) = pll_divider((freq * mixer_divider(freq, 2)) as u32, xtal);
            let sdm = sdm_from(fra, xtal, 2, 0);
            let r04 = shadow::at_end((regs[0x04], file[0x04]), ops, 0x04).1;
            let r05 = shadow::at_end((regs[0x05], file[0x05]), ops, 0x05).1;
            let r06 = shadow::at_end((regs[0x06], file[0x06]), ops, 0x06).1;
            let r07 = shadow::at_end((regs[0x07], file[0x07]), ops, 0x07).1;
            let r08 = shadow::at_end((regs[0x08], file[0x08]), ops, 0x08).1;
            &&& chip == ChipType::Rt720 ==> setting_in(chip, r04, r08) == num
            &&& num < 2 ==> setting_in(ChipType::Rt710, r04, r08) == num
            &&& 13 + 4 * (r05 & 0x3f) + (r05 >> 6) == nint
            &&& r07 * 0x100 + r06 == sdm
        }),
{
    broadcast use {
        crate::shadow::at_end_of_nothing,
        crate::shadow::at_end_of_one_more,
    };

    let num = divider_setting(mixer_divider(freq, 2));
    let (nint, fra) = pll_divider((freq * mixer_divider(freq, 2)) as u32, xtal);
    let sdm = sdm_from(fra, xtal, 2, 0);
    vco_in_range(freq);
    divider_is_near((freq * mixer_divider(freq, 2)) as u32, xtal);
    setting_bits(
        regs[0x04],
        regs[0x08],
        num,
        nint,
        if num <= 1 {
            0x40
        } else {
            0x80
        },
        if fra == 0 {
            0x02
        } else {
            0
        },
    );
    assert((((sdm >> 8) as u8) as int) * 0x100 + ((sdm as u8) as int) == sdm) by (bit_vector);
    let bits = nint_bits(nint);
    let high = (sdm >> 8) as u8;
    let low = sdm as u8;
    let (r05, r06, r07) = (regs[0x05], regs[0x06], regs[0x07]);
    assert((r05 & 0) | bits == bits && (r06 & 0) | low == low && (r07 & 0) | high == high)
        by (bit_vector);
}

/// What follows the PLL leaves its registers alone.
proof fn band_leaves_the_pll(
    config: Rt710Config,
    chip: ChipType,
    freq: u32,
    p: (u8, u8),
    r: u8,
    v: u8,
)
    requires
        0x04 <= r <= 0x07 || r == 0x08 && chip == ChipType::Rt720,
    ensures
        shadow::at_end(p, band_program(config, chip, freq), r) == p,
        shadow::at_end(p, seq![field(0x0f, 0x00, v)].push(out(0x0f, 1)), r) == p,
{
    broadcast use {
        crate::shadow::at_end_of_nothing,
        crate::shadow::at_end_of_one_more,
    };

}

/// One of the registers of the PLL once everything that follows it is done.
proof fn pll_stays_set<B: I2c>(
    s: B::State,
    t: Rt710,
    chip: ChipType,
    regs: Seq<u8>,
    freq: u32,
    symbol_rate: u32,
    rolloff: u32,
    file: spec_fn(B::State) -> Seq<u8>,
    r: u8,
)
    requires
        regs.len() == 16,
        file(s).len() == 16,
        shadow::takes_writes::<B>(t.i2c_addr, file),
        filtered::<B>(s, t, chip, regs, freq, symbol_rate, rolloff).1 is Ok,
        0x04 <= r <= 0x07 || r == 0x08 && chip == ChipType::Rt720,
    ensures
        file(filtered::<B>(s, t, chip, regs, freq, symbol_rate, rolloff).0)[r as int] == file(
            s,
        )[r as int],
{
    let band = band_program(t.config, chip, freq);
    let v = bandwidth_setting(chip, padded_rate(t.config, chip, symbol_rate), rolloff)->0;
    let last = seq![field(0x0f, 0x00, v)].push(out(0x0f, 1));
    programs_fit(t.config, chip, t.config.xtal, freq);
    let (s1, regs1, r1) = shadow::run::<B>(s, t.i2c_addr, regs, band);
    shadow::programs_reach_the_chip::<B>(s, t.i2c_addr, regs, band, file, r);
    shadow::programs_reach_the_chip::<B>(s1, t.i2c_addr, regs1, last, file, r);
    band_leaves_the_pll(t.config, chip, freq, (regs[r as int], file(s)[r as int]), r, v);
    band_leaves_the_pll(t.config, chip, freq, (regs1[r as int], file(s1)[r as int]), r, v);
}

/// A chip that was tuned is on the frequency asked for: what its registers make of the
/// crystal, divided by the divider they set, is that frequency. The RT710 has no more
/// than the dividers 2 and 4.
pub proof fn tuning_lands_on_the_frequency<B: I2c>(
    s: B::State,
    t: Rt710,
    freq: u32,
    symbol_rate: u32,
    rolloff: u32,
    file: spec_fn(B::State) -> Seq<u8>,
)
    requires
        9_300 <= t.config.xtal < 0x8000,
        t.chip is Some,
        t.chip == Some(ChipType::Rt710) ==> 587_500 <= freq,
        146_875 <= freq <= 2_350_000,
        shadow::takes_writes::<B>(t.i2c_addr, file),
        file(s).len() == 16,
        tuned::<B>(s, t, freq, symbol_rate, rolloff).2 is Ok,
    ensures
        stands_for(
            t.chip->0,
            file(tuned::<B>(s, t, freq, symbol_rate, rolloff).0),
            t.config.xtal,
            freq,
        ),
        tuned::<B>(s, t, freq, symbol_rate, rolloff).1.freq == freq,
{
    reveal(tuned);
    let chip = t.chip->0;
    let (xtal, addr) = (t.config.xtal, t.i2c_addr);
    let setup = setup_program(t.config, chip);
    let pll = pll_program(chip, xtal, freq);
    programs_fit(t.config, chip, xtal, freq);
    let (s1, regs1, r1) = shadow::run::<B>(s, addr, init_regs(chip), setup);
    shadow::programs_reach_the_chip::<B>(s, addr, init_regs(chip), setup, file, 0);
    let (s2, regs2, r2) = shadow::run::<B>(s1, addr, regs1, pll);
    shadow::programs_reach_the_chip::<B>(s1, addr, regs1, pll, file, 0x04);
    shadow::programs_reach_the_chip::<B>(s1, addr, regs1, pll, file, 0x05);
    shadow::programs_reach_the_chip::<B>(s1, addr, regs1, pll, file, 0x06);
    shadow::programs_reach_the_chip::<B>(s1, addr, regs1, pll, file, 0x07);
    shadow::programs_reach_the_chip::<B>(s1, addr, regs1, pll, file, 0x08);
    settings_left(chip, xtal, freq, regs1, file(s1));
    pll_stays_set::<B>(s2, t, chip, regs2, freq, symbol_rate, rolloff, file, 0x04);
    pll_stays_set::<B>(s2, t, chip, regs2, freq, symbol_rate, rolloff, file, 0x05);
    pll_stays_set::<B>(s2, t, chip, regs2, freq, symbol_rate, rolloff, file, 0x06);
    pll_stays_set::<B>(s2, t, chip, regs2, freq, symbol_rate, rolloff, file, 0x07);
    if chip == ChipType::Rt720 {
        pll_stays_set::<B>(s2, t, chip, regs2, freq, symbol_rate, rolloff, file, 0x08);
    }
    divider_brings_the_frequency_to_the_vco(freq);
    divider_is_near((freq * mixer_divider(freq, 2)) as u32, xtal);
}

/// The chip tells what it is and whether its PLL is locked: it is an RT710 if the upper
/// half of register 3 is 7, and locked if bit 7 of register 2 is set.
pub proof fn chip_is_read<B: I2c>(
    s: B::State,
    t: Rt710,
    file: spec_fn(B::State) -> Seq<u8>,
)
    requires
        shadow::sends_mirrored::<B>(t.i2c_addr, file),
    ensures
        inited::<B>(s, t).2 is Ok ==> inited::<B>(s, t).1.chip == Some(
            if file(s)[3] / 16 == 7 {
                ChipType::Rt710
            } else {
                ChipType::Rt720
            },
        ),
        pll_lock::<B>(s, t.i2c_addr).1 matches Ok(locked) ==> locked == (file(s)[2] >= 128),
{
    reveal(inited);
    if shadow::read_one::<B>(s, t.i2c_addr, 3).1 is Ok {
        shadow::registers_are_read::<B>(s, t.i2c_addr, 3, 1, 0, file);
    }
    if shadow::read_one::<B>(s, t.i2c_addr, 2).1 is Ok {
        shadow::registers_are_read::<B>(s, t.i2c_addr, 2, 1, 0, file);
    }
    let (id, status) = (file(s)[3], file(s)[2]);
    assert((id & 0xf0 == 0x70) == (id / 16 == 7) && (status & 0x80 != 0) == (status >= 128))
        by (bit_vector);
}

/// The filter of an RT710 is the first of the table that is wide enough, or else as many
/// steps of 1.74 MHz above 38 MHz as it takes.
pub proof fn filters_are_just_wide_enough(symbol_rate: u32, rolloff: u32, i: int)
    requires
        0 <= i < 26,
        0 < bandwidth_of(symbol_rate, rolloff) <= 1_197_800,
    ensures
        ({
            let wanted = bandwidth_of(symbol_rate, rolloff);
            let set = bandwidth_setting(ChipType::Rt710, symbol_rate, rolloff);
            &&& wanted <= BANDWIDTH_PARAMS@[i].0 && (i > 0 ==> BANDWIDTH_PARAMS@[i - 1].0 < wanted)
                ==> set is Some && set->0 == BANDWIDTH_PARAMS@[i].1 * 4 + BANDWIDTH_PARAMS@[i].2
            &&& wanted >= 380_000 ==> set is Some && set->0 % 4 == 1 && set->0 >= 64 && wanted
                <= 380_000 + (set->0 / 4 - 16) * 17_400 && 380_000 + (set->0 / 4 - 17) * 17_400
                < wanted
        }),
{
    let wanted = bandwidth_of(symbol_rate, rolloff);
    if wanted >= 380_000 {
        let over = ceil_div(wanted - 380_000, 17_400);
        assert(0 <= over <= 47);
        setting_is_a_width((over + 0x10) as u8, 1);
        assert(BANDWIDTH_PARAMS@[25].0 == 379_999);
        rows_rise(i, 25);
    } else if wanted <= BANDWIDTH_PARAMS@[i].0 && (i > 0 ==> BANDWIDTH_PARAMS@[i - 1].0 < wanted) {
        row_is_the_first(wanted, i, 0);
        row_is_no_narrower(wanted, i);
        setting_is_a_width(BANDWIDTH_PARAMS@[i].1, BANDWIDTH_PARAMS@[i].2);
    }
}

proof fn rows_rise(i: int, j: int)
    requires
        0 <= i <= j < 26,
    ensures
        BANDWIDTH_PARAMS@[i].0 <= BANDWIDTH_PARAMS@[j].0,
    decreases j - i,
{
    if i < j {
        rows_rise(i, j - 1);
        next_row_rises(j - 1);
    }
}

proof fn next_row_rises(i: int)
    requires
        0 <= i < 25,
    ensures
        BANDWIDTH_PARAMS@[i].0 < BANDWIDTH_PARAMS@[i + 1].0,
{
}

proof fn row_is_the_first(wanted: int, i: int, from: int)
    requires
        0 <= from <= i < 26,
        wanted <= BANDWIDTH_PARAMS@[i].0,
        i > 0 ==> BANDWIDTH_PARAMS@[i - 1].0 < wanted,
    ensures
        row_setting(wanted, from) == (BANDWIDTH_PARAMS@[i].1, BANDWIDTH_PARAMS@[i].2),
    decreases i - from,
{
    if from < i {
        rows_rise(from, i - 1);
        row_is_the_first(wanted, i, from + 1);
    }
}

/// An RT720 gets its filter wider than the signal: by 10 Msps when it scans by itself, and
/// else by 6 Msps from 15 Msps on; an RT710 gets it as it is.
pub proof fn filters_have_a_margin(config: Rt710Config, symbol_rate: u32)
    requires
        symbol_rate <= 1_000_000,
    ensures
        padded_rate(config, ChipType::Rt710, symbol_rate) == symbol_rate,
        padded_rate(config, ChipType::Rt720, symbol_rate) == symbol_rate + (if config.scan_mode
            == ScanMode::Auto {
            10_000int
        } else if symbol_rate >= 15_000 {
            6_000
        } else {
            0
        }),
{
}

} // verus!
