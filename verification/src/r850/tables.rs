//! The settings of the R850 for each system, bandwidth, intermediate frequency
//! and range of frequencies.

use vstd::prelude::*;

verus! {

#[derive(Clone, Copy, PartialEq, Eq, Debug, Structural)]
pub enum System {
    DvbT,
    DvbT2,
    DvbT2_1,
    DvbC,
    J83b,
    IsdbT,
    Dtmb,
    Atsc,
    Fm,
}

#[derive(Clone, Copy, PartialEq, Eq, Debug, Structural)]
pub enum Bandwidth {
    M6,
    M7,
    M8,
}

/// The bandwidth, the intermediate frequency, the one to calibrate the filter
/// at, then the settings in the order of the fields of [`SystemParams`].
pub type SystemRow = (Bandwidth, u32, u32, [u8; 10]);

/// The intermediate frequency and the lowest and the highest frequency, each 0
/// for any, then the settings in the order of the fields of [`FreqParams`].
pub type FreqRow = (u32, u32, u32, [u8; 34]);

pub const DVB_T_T2_PARAMS_0: [SystemRow; 6] = [
    (Bandwidth::M6, 4570, 7550, [1, 0, 0, 0x08, 1, 0, 0, 0x01, 3, 1]),
    (Bandwidth::M7, 4570, 7920, [1, 0, 0, 0x0b, 1, 0, 0, 0x04, 2, 0]),
    (Bandwidth::M8, 4570, 8450, [0, 0, 0, 0x0c, 1, 0, 0, 0x01, 2, 0]),
    (Bandwidth::M6, 5000, 7920, [1, 0, 0, 0x06, 1, 0, 0, 0x06, 2, 1]),
    (Bandwidth::M7, 5000, 8450, [0, 0, 0, 0x09, 1, 0, 0, 0x00, 2, 1]),
    (Bandwidth::M8, 5000, 8700, [0, 0, 0, 0x0a, 1, 0, 0, 0x06, 0, 1]),
];

pub const DVB_T_T2_PARAMS_1: [SystemRow; 6] = [
    (Bandwidth::M6, 4570, 7550, [1, 0, 0, 0x08, 1, 3, 1, 0x01, 3, 1]),
    (Bandwidth::M7, 4570, 7920, [1, 0, 0, 0x0b, 1, 3, 1, 0x04, 2, 0]),
    (Bandwidth::M8, 4570, 8450, [0, 0, 0, 0x0c, 1, 3, 1, 0x01, 2, 0]),
    (Bandwidth::M6, 5000, 7920, [1, 0, 0, 0x06, 1, 3, 1, 0x06, 2, 1]),
    (Bandwidth::M7, 5000, 8450, [0, 0, 0, 0x09, 1, 3, 1, 0x00, 2, 1]),
    (Bandwidth::M8, 5000, 8700, [0, 0, 0, 0x0a, 1, 3, 1, 0x06, 0, 1]),
];

pub const DVB_T2_1_PARAMS_0: [SystemRow; 2] = [
    (Bandwidth::M7, 1900, 7920, [1, 0, 0, 0x08, 1, 0, 0, 0x04, 2, 0]),
    (Bandwidth::M7, 5000, 6000, [2, 0, 0, 0x01, 1, 0, 0, 0x0b, 3, 1]),
];

pub const DVB_T2_1_PARAMS_1: [SystemRow; 2] = [
    (Bandwidth::M7, 1900, 7920, [1, 0, 0, 0x08, 1, 3, 1, 0x04, 2, 0]),
    (Bandwidth::M7, 5000, 6000, [2, 0, 0, 0x01, 1, 3, 1, 0x0b, 3, 1]),
];

pub const DVB_C_PARAMS_0: [SystemRow; 4] = [
    (Bandwidth::M6, 5070, 8100, [1, 0, 0, 0x05, 1, 0, 0, 0x02, 2, 0]),
    (Bandwidth::M8, 5070, 9550, [0, 0, 0, 0x0b, 1, 0, 0, 0x04, 0, 0]),
    (Bandwidth::M6, 5000, 7780, [1, 0, 0, 0x06, 1, 0, 0, 0x01, 2, 1]),
    (Bandwidth::M8, 5000, 9250, [0, 0, 0, 0x0b, 1, 0, 0, 0x05, 0, 1]),
];

pub const DVB_C_PARAMS_1: [SystemRow; 4] = [
    (Bandwidth::M6, 5070, 8100, [1, 0, 0, 0x05, 1, 3, 1, 0x02, 2, 0]),
    (Bandwidth::M8, 5070, 9550, [0, 0, 0, 0x0b, 1, 3, 1, 0x04, 0, 0]),
    (Bandwidth::M6, 5000, 7780, [1, 0, 0, 0x06, 1, 3, 1, 0x01, 2, 1]),
    (Bandwidth::M8, 5000, 9250, [0, 0, 0, 0x0b, 1, 3, 1, 0x05, 0, 1]),
];

pub const J83B_PARAMS_0: [SystemRow; 2] = [
    (Bandwidth::M6, 5070, 8100, [1, 0, 0, 0x05, 1, 0, 0, 0x03, 2, 1]),
    (Bandwidth::M6, 5000, 7550, [1, 0, 0, 0x05, 1, 0, 0, 0x05, 2, 1]),
];

pub const J83B_PARAMS_1: [SystemRow; 2] = [
    (Bandwidth::M6, 5070, 8100, [1, 0, 0, 0x05, 1, 3, 1, 0x03, 2, 1]),
    (Bandwidth::M6, 5000, 7550, [1, 0, 0, 0x05, 1, 3, 1, 0x05, 2, 1]),
];

pub const ISDB_T_PARAMS_0: [SystemRow; 3] = [
    (Bandwidth::M6, 4063, 7070, [1, 0, 0, 0x08, 1, 0, 0, 0x02, 3, 1]),
    (Bandwidth::M6, 4570, 7400, [1, 0, 0, 0x05, 1, 0, 0, 0x08, 2, 0]),
    (Bandwidth::M6, 5000, 7780, [1, 1, 0, 0x03, 1, 0, 0, 0x05, 2, 0]),
];

pub const ISDB_T_PARAMS_1: [SystemRow; 3] = [
    (Bandwidth::M6, 4063, 7070, [1, 0, 0, 0x0a, 1, 3, 1, 0x02, 3, 1]),
    (Bandwidth::M6, 4570, 7400, [1, 0, 0, 0x08, 1, 3, 1, 0x08, 2, 0]),
    (Bandwidth::M6, 5000, 7780, [1, 0, 0, 0x03, 1, 3, 1, 0x05, 2, 0]),
];

pub const DTMB_PARAMS_0: [SystemRow; 4] = [
    (Bandwidth::M6, 4500, 7200, [1, 0, 0, 0x08, 1, 0, 0, 0x02, 3, 1]),
    (Bandwidth::M8, 4570, 8450, [0, 0, 0, 0x0c, 1, 0, 0, 0x00, 2, 1]),
    (Bandwidth::M6, 5000, 8100, [1, 0, 0, 0x06, 1, 0, 0, 0x04, 2, 1]),
    (Bandwidth::M8, 5000, 8800, [0, 0, 0, 0x0b, 2, 0, 0, 0x05, 0, 1]),
];

pub const DTMB_PARAMS_1: [SystemRow; 4] = [
    (Bandwidth::M6, 4500, 7200, [1, 0, 0, 0x08, 1, 3, 1, 0x02, 3, 1]),
    (Bandwidth::M8, 4570, 8450, [0, 0, 0, 0x0c, 1, 3, 1, 0x00, 2, 1]),
    (Bandwidth::M6, 5000, 8100, [1, 0, 0, 0x06, 1, 3, 1, 0x04, 2, 1]),
    (Bandwidth::M8, 5000, 8800, [0, 0, 0, 0x0b, 2, 3, 1, 0x05, 0, 1]),
];

pub const ATSC_PARAMS_0: [SystemRow; 2] = [
    (Bandwidth::M6, 5070, 8050, [1, 0, 0, 0x05, 1, 0, 0, 0x03, 2, 0]),
    (Bandwidth::M6, 5000, 7920, [1, 0, 0, 0x05, 1, 0, 0, 0x04, 2, 0]),
];

pub const ATSC_PARAMS_1: [SystemRow; 2] = [
    (Bandwidth::M6, 5070, 8050, [1, 0, 0, 0x05, 1, 3, 1, 0x03, 2, 0]),
    (Bandwidth::M6, 5000, 7920, [1, 0, 0, 0x05, 1, 3, 1, 0x04, 2, 0]),
];

pub const DVB_T_T2_FREQ_PARAMS: [FreqRow; 4] = [
    (
        0,
        0,
        340000,
        [
            5, 0x5a, 0, 1, 1, 1, 0x05, 4, 0x5a, 0, 0x05, 1, 5, 0, 2, 9, 0x09, 0x04, 4, 3, 0, 2,
            4, 0x09, 0x04, 1, 3, 0, 0, 1, 0, 2, 1, 1,
        ],
    ),
    (
        0,
        662001,
        670000,
        [
            4, 0x5a, 0, 4, 1, 1, 0x05, 4, 0x5a, 0, 0x05, 1, 4, 0, 2, 9, 0x09, 0x04, 4, 3, 0, 2,
            4, 0x09, 0x04, 1, 3, 0, 0, 1, 0, 2, 1, 1,
        ],
    ),
    (
        0,
        782001,
        790000,
        [
            5, 0x5a, 0, 2, 0, 1, 0x05, 4, 0x5a, 0, 0x05, 1, 4, 0, 2, 9, 0x09, 0x04, 4, 3, 0, 2,
            4, 0x09, 0x04, 1, 3, 0, 0, 1, 0, 2, 1, 1,
        ],
    ),
    (
        0,
        0,
        0,
        [
            4, 0x5a, 0, 1, 1, 1, 0x05, 4, 0x5a, 0, 0x05, 1, 4, 0, 2, 9, 0x09, 0x04, 4, 3, 0, 2,
            4, 0x09, 0x04, 1, 3, 0, 0, 1, 0, 2, 1, 1,
        ],
    ),
];

pub const DVB_C_FREQ_PARAMS: [FreqRow; 2] = [
    (
        0,
        0,
        660000,
        [
            4, 0x5a, 0, 1, 1, 1, 0x05, 4, 0x4a, 0, 0x05, 0, 5, 0, 2, 12, 0x09, 0x04, 4, 2, 0, 0,
            12, 0x09, 0x04, 1, 0, 1, 0, 1, 1, 2, 1, 1,
        ],
    ),
    (
        0,
        0,
        0,
        [
            4, 0x5a, 0, 1, 1, 1, 0x05, 3, 0x4a, 0, 0x05, 0, 5, 0, 2, 12, 0x09, 0x04, 4, 2, 0, 0,
            12, 0x09, 0x04, 1, 0, 1, 0, 1, 1, 1, 1, 1,
        ],
    ),
];

pub const J83B_FREQ_PARAMS: [FreqRow; 3] = [
    (
        0,
        0,
        335000,
        [
            5, 0x5a, 0, 1, 1, 1, 0x05, 4, 0x4a, 0, 0x05, 0, 5, 0, 0, 12, 0x09, 0x04, 7, 2, 0, 0,
            12, 0x09, 0x04, 1, 0, 1, 0, 1, 1, 2, 1, 1,
        ],
    ),
    (
        0,
        340001,
        660000,
        [
            5, 0x5a, 0, 1, 1, 1, 0x05, 4, 0x4a, 0, 0x05, 0, 5, 0, 0, 12, 0x09, 0x04, 7, 2, 0, 0,
            12, 0x09, 0x04, 1, 0, 1, 0, 1, 1, 2, 1, 1,
        ],
    ),
    (
        0,
        0,
        0,
        [
            4, 0x5a, 0, 1, 1, 1, 0x05, 3, 0x4a, 0, 0x05, 0, 5, 0, 0, 12, 0x09, 0x04, 7, 2, 0, 0,
            12, 0x09, 0x04, 1, 0, 1, 0, 1, 1, 1, 1, 1,
        ],
    ),
];

pub const ISDB_T_FREQ_PARAMS: [FreqRow; 10] = [
    (
        4063,
        0,
        340000,
        [
            5, 0x6b, 0, 1, 1, 1, 0x05, 5, 0x4a, 0, 0x05, 1, 12, 0, 2, 15, 0x09, 0x04, 7, 3, 0, 0,
            12, 0x09, 0x04, 1, 0, 1, 0, 1, 0, 2, 2, 1,
        ],
    ),
    (
        4063,
        470000,
        487999,
        [
            6, 0x8c, 0, 1, 1, 1, 0x05, 5, 0x6b, 0, 0x05, 1, 3, 0, 2, 14, 0x09, 0x04, 7, 3, 0, 0,
            12, 0x09, 0x04, 1, 3, 1, 0, 1, 1, 3, 2, 1,
        ],
    ),
    (
        4063,
        680000,
        691999,
        [
            5, 0x5a, 0, 2, 1, 1, 0x07, 6, 0x6b, 0, 0x04, 1, 3, 0, 2, 14, 0x09, 0x05, 7, 3, 0, 0,
            12, 0x09, 0x04, 1, 3, 1, 0, 0, 1, 3, 2, 1,
        ],
    ),
    (
        4063,
        692000,
        697999,
        [
            5, 0x5b, 0, 2, 1, 1, 0x07, 6, 0x6b, 0, 0x04, 1, 10, 0, 3, 12, 0x09, 0x05, 7, 3, 0, 0,
            12, 0x09, 0x04, 1, 3, 1, 0, 0, 1, 2, 2, 1,
        ],
    ),
    (
        4063,
        0,
        0,
        [
            5, 0x5a, 0, 1, 1, 1, 0x05, 6, 0x6b, 0, 0x05, 1, 3, 0, 2, 14, 0x09, 0x04, 7, 3, 0, 0,
            12, 0x09, 0x04, 1, 3, 1, 0, 1, 1, 3, 2, 1,
        ],
    ),
    (
        0,
        0,
        340000,
        [
            5, 0x6b, 0, 1, 1, 1, 0x05, 5, 0x4a, 0, 0x05, 1, 12, 0, 2, 15, 0x0b, 0x06, 7, 3, 0, 0,
            12, 0x09, 0x04, 1, 0, 1, 0, 1, 0, 2, 2, 1,
        ],
    ),
    (
        0,
        470000,
        487999,
        [
            5, 0x5a, 0, 2, 1, 1, 0x07, 6, 0x6b, 0, 0x04, 1, 3, 0, 2, 14, 0x09, 0x05, 7, 3, 0, 0,
            12, 0x09, 0x04, 1, 3, 1, 0, 0, 1, 3, 2, 1,
        ],
    ),
    (
        0,
        680000,
        691999,
        [
            5, 0x5b, 0, 2, 1, 1, 0x07, 6, 0x6b, 0, 0x04, 1, 10, 0, 3, 12, 0x09, 0x05, 7, 3, 0, 0,
            12, 0x09, 0x04, 1, 3, 1, 0, 0, 1, 2, 2, 1,
        ],
    ),
    (
        0,
        692000,
        697999,
        [
            5, 0x5a, 0, 1, 1, 1, 0x05, 6, 0x6b, 0, 0x05, 1, 3, 0, 2, 14, 0x09, 0x04, 7, 3, 0, 0,
            12, 0x09, 0x04, 1, 3, 1, 0, 1, 1, 3, 2, 1,
        ],
    ),
    (
        0,
        0,
        0,
        [
            5, 0x5a, 0, 1, 1, 1, 0x05, 6, 0x6b, 0, 0x05, 1, 3, 0, 2, 14, 0x09, 0x04, 7, 3, 0, 0,
            12, 0x09, 0x04, 1, 3, 1, 0, 1, 1, 3, 2, 1,
        ],
    ),
];

pub const DTMB_FREQ_PARAMS: [FreqRow; 3] = [
    (
        0,
        0,
        100000,
        [
            4, 0x6b, 0, 1, 1, 1, 0x05, 4, 0x4a, 0, 0x05, 1, 10, 3, 3, 9, 0x09, 0x04, 4, 1, 0, 2,
            4, 0x09, 0x04, 0, 0, 0, 0, 1, 0, 1, 0, 0,
        ],
    ),
    (
        0,
        0,
        340000,
        [
            4, 0x6b, 0, 1, 1, 1, 0x05, 4, 0x4a, 0, 0x05, 1, 10, 0, 2, 9, 0x09, 0x04, 4, 1, 0, 2,
            4, 0x09, 0x04, 0, 0, 0, 0, 1, 0, 1, 0, 0,
        ],
    ),
    (
        0,
        0,
        0,
        [
            4, 0x5a, 0, 1, 1, 1, 0x05, 4, 0x4a, 0, 0x05, 1, 6, 3, 2, 9, 0x09, 0x04, 4, 1, 0, 2,
            4, 0x09, 0x04, 0, 3, 0, 0, 1, 0, 0, 0, 0,
        ],
    ),
];

pub const ATSC_FREQ_PARAMS: [FreqRow; 2] = [
    (
        0,
        0,
        340000,
        [
            6, 0x5a, 0, 1, 1, 1, 0x05, 5, 0x6b, 0, 0x05, 1, 12, 2, 2, 12, 0x0b, 0x04, 7, 2, 1, 2,
            6, 0x09, 0x04, 1, 0, 0, 0, 1, 0, 1, 2, 1,
        ],
    ),
    (
        0,
        0,
        0,
        [
            6, 0x5a, 0, 1, 1, 1, 0x05, 5, 0x6b, 0, 0x05, 1, 12, 2, 2, 12, 0x0b, 0x04, 7, 2, 1, 2,
            6, 0x09, 0x04, 1, 3, 0, 0, 1, 0, 1, 2, 1,
        ],
    ),
];

#[derive(Clone, Copy, PartialEq, Eq, Debug, Structural)]
pub struct Lpf {
    pub code: u8,
    pub bandwidth: u8,
    pub lsb: u8,
}

#[derive(Clone, Copy, PartialEq, Eq, Debug, Structural)]
pub struct SystemParams {
    pub bandwidth: Bandwidth,
    pub if_freq: u32,
    pub filt_cal_if: u32,
    pub bw: u8,
    pub filt_ext_ena: u8,
    pub hpf_notch: u8,
    pub hpf_cor: u8,
    pub filt_comp: u8,
    pub img_gain: u8,
    pub agc_clk: u8,
    pub lpf: Lpf,
}

#[derive(Clone, Copy, PartialEq, Eq, Debug, Structural)]
pub struct FreqParams {
    pub if_freq: u32,
    pub rf_freq_min: u32,
    pub rf_freq_max: u32,
    pub lna_top: u8,
    pub lna_vtl_h: u8,
    pub lna_nrb_det: u8,
    pub lna_rf_dis_mode: u8,
    pub lna_rf_charge_cur: u8,
    pub lna_rf_dis_curr: u8,
    pub lna_dis_slow_fast: u8,
    pub rf_top: u8,
    pub rf_vtl_h: u8,
    pub rf_gain_limit: u8,
    pub rf_dis_slow_fast: u8,
    pub rf_lte_psg: u8,
    pub nrb_top: u8,
    pub nrb_bw_hpf: u8,
    pub nrb_bw_lpf: u8,
    pub mixer_top: u8,
    pub mixer_vth: u8,
    pub mixer_vtl: u8,
    pub mixer_amp_lpf: u8,
    pub mixer_gain_limit: u8,
    pub mixer_detbw_lpf: u8,
    pub mixer_filter_dis: u8,
    pub filter_top: u8,
    pub filter_vth: u8,
    pub filter_vtl: u8,
    pub filt_3th_lpf_cur: u8,
    pub filt_3th_lpf_gain: u8,
    pub bb_dis_curr: u8,
    pub bb_det_mode: u8,
    pub na_pwr_det: u8,
    pub enb_poly_gain: u8,
    pub img_nrb_adder: u8,
    pub hpf_comp: u8,
    pub fb_res_1st: u8,
}

/// What [`sp`] gives.
pub open spec fn system_row(row: SystemRow) -> SystemParams {
    let v = row.3@;
    SystemParams {
        bandwidth: row.0,
        if_freq: row.1,
        filt_cal_if: row.2,
        bw: v[0],
        filt_ext_ena: v[1],
        hpf_notch: v[2],
        hpf_cor: v[3],
        filt_comp: v[4],
        img_gain: v[5],
        agc_clk: v[6],
        lpf: Lpf { code: v[7], bandwidth: v[8], lsb: v[9] },
    }
}

/// The parameters of a row: the seven settings from `bw` on, then the LPF.
pub fn sp(row: &SystemRow) -> (r: SystemParams)
    ensures
        r == system_row(*row),
{
    let v: &[u8; 10] = &row.3;
    SystemParams {
        bandwidth: row.0,
        if_freq: row.1,
        filt_cal_if: row.2,
        bw: v[0],
        filt_ext_ena: v[1],
        hpf_notch: v[2],
        hpf_cor: v[3],
        filt_comp: v[4],
        img_gain: v[5],
        agc_clk: v[6],
        lpf: Lpf { code: v[7], bandwidth: v[8], lsb: v[9] },
    }
}

/// What [`fp`] gives.
pub open spec fn freq_row(row: FreqRow) -> FreqParams {
    let v = row.3@;
    FreqParams {
        if_freq: row.0,
        rf_freq_min: row.1,
        rf_freq_max: row.2,
        lna_top: v[0],
        lna_vtl_h: v[1],
        lna_nrb_det: v[2],
        lna_rf_dis_mode: v[3],
        lna_rf_charge_cur: v[4],
        lna_rf_dis_curr: v[5],
        lna_dis_slow_fast: v[6],
        rf_top: v[7],
        rf_vtl_h: v[8],
        rf_gain_limit: v[9],
        rf_dis_slow_fast: v[10],
        rf_lte_psg: v[11],
        nrb_top: v[12],
        nrb_bw_hpf: v[13],
        nrb_bw_lpf: v[14],
        mixer_top: v[15],
        mixer_vth: v[16],
        mixer_vtl: v[17],
        mixer_amp_lpf: v[18],
        mixer_gain_limit: v[19],
        mixer_detbw_lpf: v[20],
        mixer_filter_dis: v[21],
        filter_top: v[22],
        filter_vth: v[23],
        filter_vtl: v[24],
        filt_3th_lpf_cur: v[25],
        filt_3th_lpf_gain: v[26],
        bb_dis_curr: v[27],
        bb_det_mode: v[28],
        na_pwr_det: v[29],
        enb_poly_gain: v[30],
        img_nrb_adder: v[31],
        hpf_comp: v[32],
        fb_res_1st: v[33],
    }
}

/// The parameters of a row: the frequencies, then the rest in field order.
pub fn fp(row: &FreqRow) -> (r: FreqParams)
    ensures
        r == freq_row(*row),
{
    let v: &[u8; 34] = &row.3;
    FreqParams {
        if_freq: row.0,
        rf_freq_min: row.1,
        rf_freq_max: row.2,
        lna_top: v[0],
        lna_vtl_h: v[1],
        lna_nrb_det: v[2],
        lna_rf_dis_mode: v[3],
        lna_rf_charge_cur: v[4],
        lna_rf_dis_curr: v[5],
        lna_dis_slow_fast: v[6],
        rf_top: v[7],
        rf_vtl_h: v[8],
        rf_gain_limit: v[9],
        rf_dis_slow_fast: v[10],
        rf_lte_psg: v[11],
        nrb_top: v[12],
        nrb_bw_hpf: v[13],
        nrb_bw_lpf: v[14],
        mixer_top: v[15],
        mixer_vth: v[16],
        mixer_vtl: v[17],
        mixer_amp_lpf: v[18],
        mixer_gain_limit: v[19],
        mixer_detbw_lpf: v[20],
        mixer_filter_dis: v[21],
        filter_top: v[22],
        filter_vth: v[23],
        filter_vtl: v[24],
        filt_3th_lpf_cur: v[25],
        filt_3th_lpf_gain: v[26],
        bb_dis_curr: v[27],
        bb_det_mode: v[28],
        na_pwr_det: v[29],
        enb_poly_gain: v[30],
        img_nrb_adder: v[31],
        hpf_comp: v[32],
        fb_res_1st: v[33],
    }
}

/// The rows of a system for chip `chip` (0, or anything else).
pub open spec fn system_rows(system: System, chip: usize) -> Seq<SystemRow> {
    match system {
        System::DvbT | System::DvbT2 => if chip == 0 {
            DVB_T_T2_PARAMS_0@
        } else {
            DVB_T_T2_PARAMS_1@
        },
        System::DvbT2_1 => if chip == 0 {
            DVB_T2_1_PARAMS_0@
        } else {
            DVB_T2_1_PARAMS_1@
        },
        System::DvbC => if chip == 0 {
            DVB_C_PARAMS_0@
        } else {
            DVB_C_PARAMS_1@
        },
        System::J83b => if chip == 0 {
            J83B_PARAMS_0@
        } else {
            J83B_PARAMS_1@
        },
        System::IsdbT => if chip == 0 {
            ISDB_T_PARAMS_0@
        } else {
            ISDB_T_PARAMS_1@
        },
        System::Dtmb => if chip == 0 {
            DTMB_PARAMS_0@
        } else {
            DTMB_PARAMS_1@
        },
        System::Atsc => if chip == 0 {
            ATSC_PARAMS_0@
        } else {
            ATSC_PARAMS_1@
        },
        System::Fm => Seq::empty(),
    }
}

/// The rows of frequencies of a system.
pub open spec fn freq_rows(system: System) -> Seq<FreqRow> {
    match system {
        System::DvbT | System::DvbT2 | System::DvbT2_1 => DVB_T_T2_FREQ_PARAMS@,
        System::DvbC => DVB_C_FREQ_PARAMS@,
        System::J83b => J83B_FREQ_PARAMS@,
        System::IsdbT => ISDB_T_FREQ_PARAMS@,
        System::Dtmb => DTMB_FREQ_PARAMS@,
        System::Atsc => ATSC_FREQ_PARAMS@,
        System::Fm => Seq::empty(),
    }
}

/// The first row from `i` on for a bandwidth and an intermediate frequency.
pub open spec fn first_system(
    rows: Seq<SystemRow>,
    bandwidth: Bandwidth,
    if_freq: u32,
    i: int,
) -> Option<SystemParams>
    decreases rows.len() - i,
{
    if i < 0 || i >= rows.len() {
        None
    } else if rows[i].0 == bandwidth && rows[i].1 == if_freq {
        Some(system_row(rows[i]))
    } else {
        first_system(rows, bandwidth, if_freq, i + 1)
    }
}

/// Whether a row is for an intermediate frequency and a frequency.
pub open spec fn serves(row: FreqRow, if_freq: u32, rf_freq: u32) -> bool {
    &&& row.0 == 0 || row.0 == if_freq
    &&& row.1 == 0 || row.1 <= rf_freq
    &&& row.2 == 0 || row.2 >= rf_freq
}

/// The first row from `i` on that serves.
pub open spec fn first_freq(
    rows: Seq<FreqRow>,
    if_freq: u32,
    rf_freq: u32,
    i: int,
) -> Option<FreqParams>
    decreases rows.len() - i,
{
    if i < 0 || i >= rows.len() {
        None
    } else if serves(rows[i], if_freq, rf_freq) {
        Some(freq_row(rows[i]))
    } else {
        first_freq(rows, if_freq, rf_freq, i + 1)
    }
}

/// The intermediate frequencies of the rows are within what the PLL takes.
pub open spec fn system_sane(p: SystemParams) -> bool {
    p.if_freq <= 6_000 && p.filt_cal_if <= 9_999
}

/// The levels of the rows are within the fields they are counted down from.
pub open spec fn freq_sane(p: FreqParams) -> bool {
    p.lna_top <= 7 && p.rf_top <= 7 && p.nrb_top <= 15 && p.mixer_top <= 15 && p.filter_top <= 15
}

/// The systems whose filter level fits the narrower field of the second chip as
/// it stands in the rows.
pub open spec fn narrow_top(system: System) -> bool {
    !(system == System::DvbC || system == System::J83b || system == System::IsdbT)
}

fn search_system(rows: &[SystemRow], bandwidth: Bandwidth, if_freq: u32) -> (r: Option<
    SystemParams,
>)
    ensures
        r == first_system(rows@, bandwidth, if_freq, 0),
{
    let mut i: usize = 0;
    while i < rows.len()
        invariant
            i <= rows@.len(),
            first_system(rows@, bandwidth, if_freq, i as int) == first_system(
                rows@,
                bandwidth,
                if_freq,
                0,
            ),
        decreases rows@.len() - i,
    {
        if rows[i].0 == bandwidth && rows[i].1 == if_freq {
            return Some(sp(&rows[i]));
        }
        i = i + 1;
    }
    None
}

fn search_freq(rows: &[FreqRow], if_freq: u32, rf_freq: u32) -> (r: Option<FreqParams>)
    ensures
        r == first_freq(rows@, if_freq, rf_freq, 0),
{
    let mut i: usize = 0;
    while i < rows.len()
        invariant
            i <= rows@.len(),
            first_freq(rows@, if_freq, rf_freq, i as int) == first_freq(
                rows@,
                if_freq,
                rf_freq,
                0,
            ),
        decreases rows@.len() - i,
    {
        let row: &FreqRow = &rows[i];
        if (row.0 == 0 || row.0 == if_freq) && (row.1 == 0 || row.1 <= rf_freq) && (row.2 == 0
            || row.2 >= rf_freq) {
            return Some(fp(row));
        }
        i = i + 1;
    }
    None
}

/// The parameters of a system for chip `chip`.
pub fn system_params(system: System, chip: usize, bandwidth: Bandwidth, if_freq: u32) -> (r: Option<
    SystemParams,
>)
    ensures
        r == first_system(system_rows(system, chip), bandwidth, if_freq, 0),
        r matches Some(p) ==> system_sane(p) && p.if_freq == if_freq,
{
    proof {
        system_rows_sane(system, chip, bandwidth, if_freq, 0);
    }
    let first: bool = chip == 0;
    match system {
        System::DvbT | System::DvbT2 => if first {
            search_system(&DVB_T_T2_PARAMS_0, bandwidth, if_freq)
        } else {
            search_system(&DVB_T_T2_PARAMS_1, bandwidth, if_freq)
        },
        System::DvbT2_1 => if first {
            search_system(&DVB_T2_1_PARAMS_0, bandwidth, if_freq)
        } else {
            search_system(&DVB_T2_1_PARAMS_1, bandwidth, if_freq)
        },
        System::DvbC => if first {
            search_system(&DVB_C_PARAMS_0, bandwidth, if_freq)
        } else {
            search_system(&DVB_C_PARAMS_1, bandwidth, if_freq)
        },
        System::J83b => if first {
            search_system(&J83B_PARAMS_0, bandwidth, if_freq)
        } else {
            search_system(&J83B_PARAMS_1, bandwidth, if_freq)
        },
        System::IsdbT => if first {
            search_system(&ISDB_T_PARAMS_0, bandwidth, if_freq)
        } else {
            search_system(&ISDB_T_PARAMS_1, bandwidth, if_freq)
        },
        System::Dtmb => if first {
            search_system(&DTMB_PARAMS_0, bandwidth, if_freq)
        } else {
            search_system(&DTMB_PARAMS_1, bandwidth, if_freq)
        },
        System::Atsc => if first {
            search_system(&ATSC_PARAMS_0, bandwidth, if_freq)
        } else {
            search_system(&ATSC_PARAMS_1, bandwidth, if_freq)
        },
        System::Fm => None,
    }
}

/// The parameters of a system at a frequency.
pub fn freq_params(system: System, if_freq: u32, rf_freq: u32) -> (r: Option<FreqParams>)
    ensures
        r == first_freq(freq_rows(system), if_freq, rf_freq, 0),
        r matches Some(p) ==> freq_sane(p) && (narrow_top(system) ==> p.filter_top <= 7),
{
    proof {
        freq_rows_sane(system, if_freq, rf_freq, 0);
    }
    match system {
        System::DvbT | System::DvbT2 | System::DvbT2_1 => search_freq(
            &DVB_T_T2_FREQ_PARAMS,
            if_freq,
            rf_freq,
        ),
        System::DvbC => search_freq(&DVB_C_FREQ_PARAMS, if_freq, rf_freq),
        System::J83b => search_freq(&J83B_FREQ_PARAMS, if_freq, rf_freq),
        System::IsdbT => search_freq(&ISDB_T_FREQ_PARAMS, if_freq, rf_freq),
        System::Dtmb => search_freq(&DTMB_FREQ_PARAMS, if_freq, rf_freq),
        System::Atsc => search_freq(&ATSC_FREQ_PARAMS, if_freq, rf_freq),
        System::Fm => None,
    }
}

/// Whatever the tables give for a system is sane.
proof fn system_rows_sane(system: System, chip: usize, bandwidth: Bandwidth, if_freq: u32, i: int)
    requires
        0 <= i,
    ensures
        first_system(system_rows(system, chip), bandwidth, if_freq, i) matches Some(p)
            ==> system_sane(p) && p.if_freq == if_freq,
    decreases system_rows(system, chip).len() - i,
{
    if i < system_rows(system, chip).len() {
        system_rows_sane(system, chip, bandwidth, if_freq, i + 1);
    }
}

/// Whatever the tables give for a frequency is sane.
proof fn freq_rows_sane(system: System, if_freq: u32, rf_freq: u32, i: int)
    requires
        0 <= i,
    ensures
        first_freq(freq_rows(system), if_freq, rf_freq, i) matches Some(p) ==> freq_sane(p) && (
        narrow_top(system) ==> p.filter_top <= 7),
    decreases freq_rows(system).len() - i,
{
    if i < freq_rows(system).len() {
        freq_rows_sane(system, if_freq, rf_freq, i + 1);
    }
}

/// The number of registers.
pub const NUM_REGS: usize = 0x30;

pub const INIT_REGS: [u8; 48] = [
    0x00, 0x00, 0x00, 0x00, 0x00, 0x00, 0x00, 0x00, 0xca, 0xc0, 0x72, 0x50, 0x00, 0xe0, 0x00, 0x30,
    0x86, 0xbb, 0xf8, 0xb0, 0xd2, 0x81, 0xcd, 0x46, 0x37, 0x40, 0x89, 0x8c, 0x55, 0x95, 0x07, 0x23,
    0x21, 0xf1, 0x4c, 0x5f, 0xc4, 0x20, 0xa9, 0x6c, 0x53, 0xab, 0x5b, 0x46, 0xb3, 0x93, 0x6e, 0x41,
];

pub const IMR_CAL_REGS: [u8; 48] = [
    0x00, 0x00, 0x00, 0x00, 0x00, 0x00, 0x00, 0x00, 0xc0, 0x49, 0x3a, 0x90, 0x03, 0xc1, 0x61, 0x71,
    0x17, 0xf1, 0x18, 0x55, 0x30, 0x20, 0xf3, 0xed, 0x1f, 0x1c, 0x81, 0x13, 0x00, 0x80, 0x0a, 0x07,
    0x21, 0x71, 0x54, 0xf1, 0xf2, 0xa9, 0xbb, 0x0b, 0xa3, 0xf6, 0x0b, 0x44, 0x92, 0x17, 0xe6, 0x80,
];

pub const LPF_CAL_REGS: [u8; 48] = [
    0x00, 0x00, 0x00, 0x00, 0x00, 0x00, 0x00, 0x00, 0xc0, 0x49, 0x3f, 0x90, 0x13, 0xe1, 0x89, 0x7a,
    0x07, 0xf1, 0x9a, 0x50, 0x30, 0x20, 0xe1, 0x00, 0x00, 0x04, 0x81, 0x11, 0xef, 0xee, 0x17, 0x07,
    0x31, 0x71, 0x54, 0xb2, 0xee, 0xa9, 0xbb, 0x0b, 0xa3, 0x00, 0x0b, 0x44, 0x92, 0x1f, 0xe6, 0x80,
];

/// The registers the chip starts from.
#[verifier::opaque]
pub open spec fn init_values() -> Seq<u8> {
    INIT_REGS@
}

/// The registers to calibrate the image rejection with.
#[verifier::opaque]
pub open spec fn imr_cal_values() -> Seq<u8> {
    IMR_CAL_REGS@
}

/// The registers to calibrate the filter with.
#[verifier::opaque]
pub open spec fn lpf_cal_values() -> Seq<u8> {
    LPF_CAL_REGS@
}

fn copy_regs(from: &[u8; 48]) -> (r: Vec<u8>)
    ensures
        r@ == from@,
        r@.len() == 48,
{
    let mut regs: Vec<u8> = Vec::new();
    let mut i: usize = 0;
    while i < 48
        invariant
            i <= 48,
            regs@ == from@.subrange(0, i as int),
        decreases 48 - i,
    {
        regs.push(from[i]);
        assert(from@.subrange(0, i + 1) =~= from@.subrange(0, i as int).push(from@[i as int]));
        i = i + 1;
    }
    assert(from@.subrange(0, 48) =~= from@);
    regs
}

pub(crate) fn init_regs() -> (r: Vec<u8>)
    ensures
        r@ == init_values(),
        r@.len() == 48,
{
    reveal(init_values);
    let regs: [u8; 48] = INIT_REGS;
    copy_regs(&regs)
}

pub(crate) fn imr_cal_regs() -> (r: Vec<u8>)
    ensures
        r@ == imr_cal_values(),
        r@.len() == 48,
{
    reveal(imr_cal_values);
    let regs: [u8; 48] = IMR_CAL_REGS;
    copy_regs(&regs)
}

pub(crate) fn lpf_cal_regs() -> (r: Vec<u8>)
    ensures
        r@ == lpf_cal_values(),
        r@.len() == 48,
{
    reveal(lpf_cal_values);
    let regs: [u8; 48] = LPF_CAL_REGS;
    copy_regs(&regs)
}

} // verus!
