//! The filters in front of the mixer of the R850.

use vstd::prelude::*;

use crate::r850::tables::System;
use crate::shadow;
use crate::shadow::{field, Op};

verus! {

broadcast use {
    crate::shadow::fits_nothing,
    crate::shadow::fits_one_more,
    crate::shadow::fits_both,
};

/// The value of the first step from `i` on whose bound `freq` is below, else
/// `last`.
pub open spec fn below_from<T>(freq: u32, steps: Seq<(u32, T)>, last: T, i: int) -> T
    decreases steps.len() - i,
{
    if i < 0 || i >= steps.len() {
        last
    } else if freq < steps[i].0 {
        steps[i].1
    } else {
        below_from(freq, steps, last, i + 1)
    }
}

/// The value of the first step whose bound `freq` is below, else `last`.
pub fn below<T: Copy>(freq: u32, steps: &[(u32, T)], last: T) -> (r: T)
    ensures
        r == below_from(freq, steps@, last, 0),
{
    let mut i: usize = 0;
    while i < steps.len()
        invariant
            i <= steps@.len(),
            below_from(freq, steps@, last, i as int) == below_from(freq, steps@, last, 0),
        decreases steps@.len() - i,
    {
        if freq < steps[i].0 {
            return steps[i].1;
        }
        i = i + 1;
    }
    last
}

/// Which of the five settings of the image rejection serves a frequency.
pub const IMR_STEPS: [(u32, u8); 4] = [(170_000, 0), (240_000, 4), (400_000, 1), (760_000, 2)];

pub const TF_HPF_BPF_STEPS: [(u32, u8); 4] = [
    (580_000, 7),
    (660_000, 1),
    (780_000, 6),
    (900_000, 4),
];

pub const RF_POLY_STEPS: [(u32, u8); 3] = [(133_000, 2), (221_000, 1), (760_000, 0)];

pub const TF_HPF_CNR_STEPS: [(u32, u8); 3] = [(480_000, 3), (550_000, 2), (700_000, 1)];

/// The notch and the capacitance of the low-pass filter for cable.
pub const LPF_CABLE_STEPS: [(u32, (u8, u8)); 8] = [
    (77_000, (10, 15)),
    (85_000, (4, 15)),
    (115_000, (3, 13)),
    (125_000, (1, 11)),
    (141_000, (0, 9)),
    (157_000, (0, 8)),
    (181_000, (0, 6)),
    (205_000, (0, 3)),
];

/// The notch and the capacitance of the low-pass filter for the rest.
pub const LPF_AIR_STEPS: [(u32, (u8, u8)); 8] = [
    (73_000, (10, 8)),
    (81_000, (4, 8)),
    (89_000, (3, 8)),
    (121_000, (1, 6)),
    (145_000, (0, 4)),
    (153_000, (0, 3)),
    (177_000, (0, 2)),
    (201_000, (0, 1)),
];

proof fn imr_steps_small(lo_freq: u32, i: int)
    requires
        0 <= i,
    ensures
        below_from(lo_freq, IMR_STEPS@, 3, i) <= 4,
    decreases 4 - i,
{
    if i < 4 {
        imr_steps_small(lo_freq, i + 1);
    }
}

/// The program that sets the filters in front of the mixer and the image
/// rejection: its gain, its phase and its iqcap.
#[verifier::opaque]
pub open spec fn mux_program(rejection: (u8, u8, u8), lo_freq: u32, sys: Option<System>) -> Seq<Op> {
    let (notch, cap) = if sys == Some(System::DvbC) || sys == Some(System::J83b) {
        below_from(lo_freq, LPF_CABLE_STEPS@, (0u8, 0u8), 0)
    } else {
        below_from(lo_freq, LPF_AIR_STEPS@, (0u8, 0u8), 0)
    };
    let diplexer = if lo_freq < 330_000 {
        2u8
    } else {
        0u8
    };
    let hpf_cnr = below_from(lo_freq, TF_HPF_CNR_STEPS@, 0, 0);
    let hpf_bpf = below_from(lo_freq, TF_HPF_BPF_STEPS@, 0, 0);
    let poly = below_from(lo_freq, RF_POLY_STEPS@, 3, 0);
    let (gain, phase, iqcap) = rejection;
    seq![field(0x0e, 0x03, ((diplexer << 2) & 0x0c) | ((cap << 4) & 0xf0))]
        .push(field(0x0f, 0xf0, notch & 0x0f))
        .push(field(0x10, 0xe0, ((hpf_cnr << 3) & 0x18) | (hpf_bpf & 0x07)))
        .push(field(0x12, 0xfc, poly & 0x03))
        .push(field(0x14, 0xd0, gain & 0x2f))
        .push(field(0x15, 0x10, (phase & 0x2f) | ((iqcap << 6) & 0xc0)))
}

/// Builds the program that sets the filters in front of the mixer.
pub(crate) fn set_mux(rejection: (u8, u8, u8), lo_freq: u32, sys: Option<System>) -> (r: Vec<Op>)
    ensures
        shadow::built(r, mux_program(rejection, lo_freq, sys), 48),
{
    reveal(mux_program);
    let cable: bool = matches!(sys, Some(System::DvbC) | Some(System::J83b));
    let (notch, cap): (u8, u8) = if cable {
        below(lo_freq, &LPF_CABLE_STEPS, (0, 0))
    } else {
        below(lo_freq, &LPF_AIR_STEPS, (0, 0))
    };
    let diplexer: u8 = if lo_freq < 330_000 { 2 } else { 0 };
    let hpf_cnr: u8 = below(lo_freq, &TF_HPF_CNR_STEPS, 0);
    let hpf_bpf: u8 = below(lo_freq, &TF_HPF_BPF_STEPS, 0);
    let poly: u8 = below(lo_freq, &RF_POLY_STEPS, 3);
    let (gain, phase, iqcap) = rejection;
    let mut ops: Vec<Op> = Vec::new();
    ops.push(field(0x0e, 0x03, ((diplexer << 2) & 0x0c) | ((cap << 4) & 0xf0)));
    ops.push(field(0x0f, 0xf0, notch & 0x0f));
    ops.push(field(0x10, 0xe0, ((hpf_cnr << 3) & 0x18) | (hpf_bpf & 0x07)));
    ops.push(field(0x12, 0xfc, poly & 0x03));
    ops.push(field(0x14, 0xd0, gain & 0x2f));
    ops.push(field(0x15, 0x10, (phase & 0x2f) | ((iqcap << 6) & 0xc0)));
    ops
}

/// Which of the five settings of the image rejection serves a frequency.
pub open spec fn imr_step(lo_freq: u32) -> u8 {
    below_from(lo_freq, IMR_STEPS@, 3, 0)
}

pub(crate) fn find_imr_step(lo_freq: u32) -> (r: u8)
    ensures
        r == imr_step(lo_freq),
        r <= 4,
{
    proof {
        imr_steps_small(lo_freq, 0);
    }
    below(lo_freq, &IMR_STEPS, 3)
}

} // verus!
