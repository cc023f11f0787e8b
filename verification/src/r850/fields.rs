//! The fields of the R850 that follow from its tables.

use vstd::prelude::*;

use crate::r850::tables;
use crate::r850::tables::{FreqParams, Lpf, System, SystemParams};
use crate::r850::R850Config;
use crate::shadow;
use crate::shadow::{field, Op};

verus! {

broadcast use {
    crate::shadow::fits_nothing,
    crate::shadow::fits_one_more,
    crate::shadow::fits_both,
};

/// The program that sets the filter for a system, from the initial registers.
#[verifier::opaque]
pub open spec fn filter_program(prm: SystemParams, lpf: Lpf, chip: usize) -> Seq<Op> {
    seq![field(
            0x17,
            0x00,
            (lpf.lsb & 0x01) | ((lpf.code << 1) & 0x1e) | ((lpf.bandwidth << 5) & 0x60) | ((
            prm.hpf_notch << 7) & 0x80),
        )]
        .push(field(0x18, 0x0f, (prm.hpf_cor << 4) & 0xf0))
        .push(field(0x12, 0xbf, (prm.filt_ext_ena << 6) & 0x40))
        .push(field(0x18, 0xf3, (prm.filt_comp << 2) & 0x0c))
        .push(field(0x2f, 0xf3, (prm.agc_clk << 2) & 0x0c))
        .push(if chip != 0 { field(0x2c, 0xfe, (prm.img_gain >> 1) & 0x01) } else { field(0x2c, 0xff, 0) })
        .push(field(0x2e, 0xef, (prm.img_gain << 4) & 0x10))
}

pub(crate) fn set_filter(prm: &SystemParams, lpf: &Lpf, chip: usize) -> (r: Vec<Op>)
    ensures
        shadow::built(r, filter_program(*prm, *lpf, chip), 48),
{
    reveal(filter_program);
    let mut ops: Vec<Op> = Vec::new();
    ops.push(
        field(
            0x17,
            0x00,
            (lpf.lsb & 0x01) | ((lpf.code << 1) & 0x1e) | ((lpf.bandwidth << 5) & 0x60) | ((
            prm.hpf_notch << 7) & 0x80),
        ),
    );
    ops.push(field(0x18, 0x0f, (prm.hpf_cor << 4) & 0xf0));
    ops.push(field(0x12, 0xbf, (prm.filt_ext_ena << 6) & 0x40));
    ops.push(field(0x18, 0xf3, (prm.filt_comp << 2) & 0x0c));
    ops.push(field(0x2f, 0xf3, (prm.agc_clk << 2) & 0x0c));
    ops.push(
        if chip != 0 {
            field(0x2c, 0xfe, (prm.img_gain >> 1) & 0x01)
        } else {
            field(0x2c, 0xff, 0)
        },
    );
    ops.push(field(0x2e, 0xef, (prm.img_gain << 4) & 0x10));
    ops
}

/// The parameters of a frequency as the chip takes them: the second chip has its
/// own filter level for some systems.
pub open spec fn adjusted(prm: FreqParams, system: System, chip: usize) -> FreqParams {
    if (system == System::DvbC || system == System::J83b || system == System::IsdbT) && chip != 0 {
        FreqParams { filter_top: 6, ..prm }
    } else {
        prm
    }
}

/// The program that sets the amplifiers in front of the mixer.
#[verifier::opaque]
pub open spec fn front_program(mode: usize, prm: FreqParams) -> Seq<Op> {
    let limit = prm.rf_gain_limit;
    seq![field(0x13, 0xef, if mode != 0 { 0x10 } else { 0 })]
        .push(field(0x0a, 0xbf, (prm.na_pwr_det << 6) & 0x40))
        .push(field(0x10, 0xdf, 0))
        .push(field(0x0b, 0x7f, (prm.lna_nrb_det << 7) & 0x80))
        .push(field(0x26, 0xf8, ((7 - prm.lna_top) as u8) & 0x07))
        .push(field(0x27, 0x00, prm.lna_vtl_h))
        .push(field(0x11, 0xef, (prm.rf_lte_psg << 4) & 0x10))
        .push(field(0x26, 0x8f, (((7 - prm.rf_top) as u8) << 4) & 0x70))
        .push(field(0x2a, 0x00, prm.rf_vtl_h))
        .push(if limit < 2 { field(0x12, 0xfb, 0) } else if limit <= 3 { field(0x12, 0xff, 0x02) } else { field(0x12, 0xff, 0) })
        .push(if limit == 1 || limit == 3 { field(0x10, 0xff, 0x40) } else if limit <= 3 { field(0x10, 0xbf, 0) } else { field(0x10, 0xff, 0) })
}

pub(crate) fn set_front(mode: usize, prm: &FreqParams) -> (r: Vec<Op>)
    requires
        tables::freq_sane(*prm),
    ensures
        shadow::built(r, front_program(mode, *prm), 48),
{
    reveal(front_program);
    let limit: u8 = prm.rf_gain_limit;
    let mut ops: Vec<Op> = Vec::new();
    ops.push(field(0x13, 0xef, if mode != 0 { 0x10 } else { 0 }));
    ops.push(field(0x0a, 0xbf, (prm.na_pwr_det << 6) & 0x40));
    ops.push(field(0x10, 0xdf, 0));
    ops.push(field(0x0b, 0x7f, (prm.lna_nrb_det << 7) & 0x80));
    ops.push(field(0x26, 0xf8, (7 - prm.lna_top) & 0x07));
    ops.push(field(0x27, 0x00, prm.lna_vtl_h));
    ops.push(field(0x11, 0xef, (prm.rf_lte_psg << 4) & 0x10));
    ops.push(field(0x26, 0x8f, ((7 - prm.rf_top) << 4) & 0x70));
    ops.push(field(0x2a, 0x00, prm.rf_vtl_h));
    ops.push(
        if limit < 2 {
            field(0x12, 0xfb, 0)
        } else if limit <= 3 {
            field(0x12, 0xff, 0x02)
        } else {
            field(0x12, 0xff, 0)
        },
    );
    ops.push(
        if limit <= 3 {
            if limit % 2 != 0 { field(0x10, 0xff, 0x40) } else { field(0x10, 0xbf, 0) }
        } else {
            field(0x10, 0xff, 0)
        },
    );
    ops
}

/// The program that sets the mixer and the filter.
#[verifier::opaque]
pub open spec fn middle_program(chip: usize, prm: FreqParams) -> Seq<Op> {
    seq![field(0x13, 0xf8, prm.mixer_amp_lpf & 0x07)]
        .push(field(0x28, 0xf0, ((15 - prm.mixer_top) as u8) & 0x0f))
        .push(if chip != 0 { field(0x2c, 0xf1, (((7 - prm.filter_top) as u8) << 1) & 0x0e) } else { field(0x2c, 0xf0, ((15 - prm.filter_top) as u8) & 0x0f) })
        .push(field(0x0a, 0xef, (prm.filt_3th_lpf_cur << 4) & 0x10))
        .push(field(0x18, 0xfc, prm.filt_3th_lpf_gain & 0x03))
        .push(field(0x29, 0x00, ((prm.filter_vth << 4) & 0xf0) | (prm.mixer_vth & 0x0f)))
        .push(field(0x2b, 0x00, ((prm.filter_vtl << 4) & 0xf0) | (prm.mixer_vtl & 0x0f)))
        .push(field(0x16, 0x3f, (prm.mixer_gain_limit << 6) & 0xc0))
        .push(field(0x2e, 0x7f, (prm.mixer_detbw_lpf << 7) & 0x80))
}

pub(crate) fn set_middle(chip: usize, prm: &FreqParams) -> (r: Vec<Op>)
    requires
        tables::freq_sane(*prm),
        chip != 0 ==> prm.filter_top <= 7,
    ensures
        shadow::built(r, middle_program(chip, *prm), 48),
{
    reveal(middle_program);
    let mut ops: Vec<Op> = Vec::new();
    ops.push(field(0x13, 0xf8, prm.mixer_amp_lpf & 0x07));
    ops.push(field(0x28, 0xf0, (15 - prm.mixer_top) & 0x0f));
    ops.push(
        if chip != 0 {
            field(0x2c, 0xf1, ((7 - prm.filter_top) << 1) & 0x0e)
        } else {
            field(0x2c, 0xf0, (15 - prm.filter_top) & 0x0f)
        },
    );
    ops.push(field(0x0a, 0xef, (prm.filt_3th_lpf_cur << 4) & 0x10));
    ops.push(field(0x18, 0xfc, prm.filt_3th_lpf_gain & 0x03));
    ops.push(field(0x29, 0x00, ((prm.filter_vth << 4) & 0xf0) | (prm.mixer_vth & 0x0f)));
    ops.push(field(0x2b, 0x00, ((prm.filter_vtl << 4) & 0xf0) | (prm.mixer_vtl & 0x0f)));
    ops.push(field(0x16, 0x3f, (prm.mixer_gain_limit << 6) & 0xc0));
    ops.push(field(0x2e, 0x7f, (prm.mixer_detbw_lpf << 7) & 0x80));
    ops
}

/// The program that sets how fast the gains follow the signal.
#[verifier::opaque]
pub open spec fn discharge_program(prm: FreqParams) -> Seq<Op> {
    let dis = prm.lna_rf_dis_mode;
    seq![if 1 <= dis <= 4 {
            field(0x2d, 0xff, 0x03)
        } else {
            field(0x2d, 0xfc, 0)
        }]
        .push(if dis == 2 || dis == 4 { field(0x1f, 0xfe, 0) } else { field(0x1f, 0xff, 0x01) })
        .push(if dis == 2 || dis == 3 { field(0x20, 0xdf, 0) } else { field(0x20, 0xff, 0x20) })
        .push(field(0x1f, 0xfd, (prm.lna_rf_charge_cur << 1) & 0x02))
        .push(field(0x0d, 0xdf, (prm.lna_rf_dis_curr << 5) & 0x20))
        .push(field(0x2d, 0x0f, (prm.rf_dis_slow_fast << 4) & 0xf0))
        .push(field(0x2c, 0x0f, (prm.lna_dis_slow_fast << 4) & 0xf0))
        .push(field(0x19, 0xbf, (prm.bb_dis_curr << 6) & 0x40))
        .push(field(0x25, 0x3b, ((prm.mixer_filter_dis << 6) & 0xc0) | ((prm.bb_det_mode << 2) & 0x04)))
}

pub(crate) fn set_discharge(prm: &FreqParams) -> (r: Vec<Op>)
    ensures
        shadow::built(r, discharge_program(*prm), 48),
{
    reveal(discharge_program);
    let dis: u8 = prm.lna_rf_dis_mode;
    let mut ops: Vec<Op> = Vec::new();
    ops.push(
        if dis >= 1 && dis <= 4 {
            field(0x2d, 0xff, 0x03)
        } else {
            field(0x2d, 0xfc, 0)
        },
    );
    ops.push(
        if dis == 2 || dis == 4 {
            field(0x1f, 0xfe, 0)
        } else {
            field(0x1f, 0xff, 0x01)
        },
    );
    ops.push(
        if dis == 2 || dis == 3 {
            field(0x20, 0xdf, 0)
        } else {
            field(0x20, 0xff, 0x20)
        },
    );
    ops.push(field(0x1f, 0xfd, (prm.lna_rf_charge_cur << 1) & 0x02));
    ops.push(field(0x0d, 0xdf, (prm.lna_rf_dis_curr << 5) & 0x20));
    ops.push(field(0x2d, 0x0f, (prm.rf_dis_slow_fast << 4) & 0xf0));
    ops.push(field(0x2c, 0x0f, (prm.lna_dis_slow_fast << 4) & 0xf0));
    ops.push(field(0x19, 0xbf, (prm.bb_dis_curr << 6) & 0x40));
    ops.push(
        field(0x25, 0x3b, ((prm.mixer_filter_dis << 6) & 0xc0) | ((prm.bb_det_mode << 2) & 0x04)),
    );
    ops
}

/// The program that sets the rest of what depends on the frequency, and the
/// configuration.
#[verifier::opaque]
pub open spec fn back_program(
    config: R850Config,
    system: System,
    prm: FreqParams,
    rf_freq: u32,
) -> Seq<Op> {
    seq![field(0x19, 0xfd, (prm.enb_poly_gain << 1) & 0x02)]
        .push(field(0x28, 0x0f, (((15 - prm.nrb_top) as u8) << 4) & 0xf0))
        .push(field(0x1a, 0x33, ((prm.nrb_bw_lpf << 6) & 0xc0) | ((prm.nrb_bw_hpf << 2) & 0x0c)))
        .push(field(0x2e, 0xf3, (prm.img_nrb_adder << 2) & 0x0c))
        .push(field(0x0d, 0xf9, (prm.hpf_comp << 1) & 0x06))
        .push(field(0x15, 0xef, (prm.fb_res_1st << 4) & 0x10))
        .push(if 478_000 <= rf_freq < 482_000 && system == System::IsdbT { field(0x2f, 0xf3, 0) } else { field(0x2f, 0xff, 0) })
        .push(field(0x19, 0xdf, 0))
        .push(if config.loop_through { field(0x08, 0xff, 0xc0) } else { field(0x08, 0x3f, 0x40) })
        .push(if config.loop_through { field(0x0a, 0xff, 0x02) } else { field(0x0a, 0xfd, 0) })
        .push(if config.clock_out { field(0x22, 0xfb, 0) } else { field(0x22, 0xff, 0x04) })
}

pub(crate) fn set_back(config: &R850Config, system: System, prm: &FreqParams, rf_freq: u32) -> (r: Vec<Op>)
    requires
        tables::freq_sane(*prm),
    ensures
        shadow::built(r, back_program(*config, system, *prm, rf_freq), 48),
{
    reveal(back_program);
    let mut ops: Vec<Op> = Vec::new();
    ops.push(field(0x19, 0xfd, (prm.enb_poly_gain << 1) & 0x02));
    ops.push(field(0x28, 0x0f, ((15 - prm.nrb_top) << 4) & 0xf0));
    ops.push(field(0x1a, 0x33, ((prm.nrb_bw_lpf << 6) & 0xc0) | ((prm.nrb_bw_hpf << 2) & 0x0c)));
    ops.push(field(0x2e, 0xf3, (prm.img_nrb_adder << 2) & 0x0c));
    ops.push(field(0x0d, 0xf9, (prm.hpf_comp << 1) & 0x06));
    ops.push(field(0x15, 0xef, (prm.fb_res_1st << 4) & 0x10));
    ops.push(
        if rf_freq.wrapping_sub(478_000) <= 3999 && system == System::IsdbT {
            field(0x2f, 0xf3, 0)
        } else {
            field(0x2f, 0xff, 0)
        },
    );
    ops.push(field(0x19, 0xdf, 0));
    ops.push(
        if config.loop_through {
            field(0x08, 0xff, 0xc0)
        } else {
            field(0x08, 0x3f, 0x40)
        },
    );
    ops.push(
        if config.loop_through {
            field(0x0a, 0xff, 0x02)
        } else {
            field(0x0a, 0xfd, 0)
        },
    );
    ops.push(
        if config.clock_out {
            field(0x22, 0xfb, 0)
        } else {
            field(0x22, 0xff, 0x04)
        },
    );
    ops
}

} // verus!
