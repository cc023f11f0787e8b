//! Rafael Micro R850, the ISDB-T tuner of the PX4 series and its kin,
//! reached through the demodulator in front of it.

use vstd::prelude::*;

use crate::error::{error, Error};
use crate::r850::imr::{Imr, Ring};
use crate::r850::tables::{
    freq_params, imr_cal_regs, init_regs, lpf_cal_regs, system_params, FreqParams, SystemParams,
};
use crate::shadow;
use crate::shadow::{field, out, perform, read_back, read_reg, Op};
use crate::traits::{I2c, Ran};

pub use crate::r850::tables::{Bandwidth, Lpf, System};

pub mod fields;
pub mod imr;
pub mod filters;
pub mod laws;
pub mod lpf;
pub mod mux;
pub mod pll;
pub mod tables;

verus! {

broadcast use {
    crate::shadow::fits_nothing,
    crate::shadow::fits_one_more,
    crate::shadow::fits_both,
};

#[derive(Clone, Copy, PartialEq, Eq, Debug, Structural)]
pub struct R850Config {
    /// The crystal in kHz; the PLL maths assume 24000.
    pub xtal: u32,
    pub loop_through: bool,
    pub clock_out: bool,
    pub no_imr_calibration: bool,
    pub no_lpf_calibration: bool,
}

#[derive(Clone, Copy, PartialEq, Eq, Debug, Structural)]
pub struct SystemConfig {
    pub system: System,
    pub bandwidth: Bandwidth,
    /// The intermediate frequency in kHz.
    pub if_freq: u32,
}

pub struct R850 {
    pub i2c_addr: u8,
    pub config: R850Config,
    pub init: bool,
    /// 0 or 1, from the id register; picks the table row set.
    pub chip: usize,
    pub xtal_pwr: u8,
    /// The shadow of the registers.
    pub regs: Vec<u8>,
    pub sys: Option<SystemConfig>,
    /// 0 or 1.
    pub mixer_mode: usize,
    pub mixer_amp_lpf_imr_cal: u8,
    /// The image rejection found, five settings for each mode of the mixer.
    pub imr: Vec<Imr>,
    /// Which of them are good.
    pub imr_good: Vec<bool>,
    /// For each mode of the mixer, whether it was calibrated.
    pub imr_done: Vec<bool>,
    /// For each mode of the mixer, the amplifier setting it was calibrated at.
    pub imr_amp_lpf: Vec<u8>,
    pub sys_curr: Option<SystemConfig>,
}

/// What an [`R850`] holds.
#[verifier::ext_equal]
pub struct Chip {
    pub i2c_addr: u8,
    pub config: R850Config,
    pub init: bool,
    pub chip: usize,
    pub xtal_pwr: u8,
    pub regs: Seq<u8>,
    pub sys: Option<SystemConfig>,
    pub mixer_mode: usize,
    pub mixer_amp_lpf_imr_cal: u8,
    pub imr: Seq<Imr>,
    pub imr_good: Seq<bool>,
    pub imr_done: Seq<bool>,
    pub imr_amp_lpf: Seq<u8>,
    pub sys_curr: Option<SystemConfig>,
}

impl View for R850 {
    type V = Chip;

    open spec fn view(&self) -> Chip {
        Chip {
            i2c_addr: self.i2c_addr,
            config: self.config,
            init: self.init,
            chip: self.chip,
            xtal_pwr: self.xtal_pwr,
            regs: self.regs@,
            sys: self.sys,
            mixer_mode: self.mixer_mode,
            mixer_amp_lpf_imr_cal: self.mixer_amp_lpf_imr_cal,
            imr: self.imr@,
            imr_good: self.imr_good@,
            imr_done: self.imr_done@,
            imr_amp_lpf: self.imr_amp_lpf@,
            sys_curr: self.sys_curr,
        }
    }
}

impl Chip {
    /// The shadow and the calibrations have their sizes, the chip and the mode
    /// are 0 or 1, and the crystal is one the PLL can be set for.
    pub open spec fn wf(self) -> bool {
        &&& self.regs.len() == 48
        &&& self.imr.len() == 10
        &&& self.imr_good.len() == 10
        &&& self.imr_done.len() == 2
        &&& self.imr_amp_lpf.len() == 2
        &&& self.chip <= 1
        &&& self.mixer_mode <= 1
        &&& self.xtal_pwr <= 3
        &&& pll::xtal_fits(self.config.xtal)
        &&& self.sys_curr matches Some(sys) ==> sys.if_freq <= 6_000
    }
}

impl Chip {
    /// The gain, the phase and the iqcap of the image rejection at a frequency:
    /// what the calibration found, if it found anything good.
    pub open spec fn rejection(self, lo_freq: u32, sys: Option<System>) -> (u8, u8, u8) {
        let i = self.mixer_mode * 5 + mux::imr_step(lo_freq);
        if self.imr_done[self.mixer_mode as int] && self.imr_good[i] {
            (self.imr[i].gain, self.imr[i].phase, self.imr[i].iqcap)
        } else if sys is Some {
            (2u8, 0u8, 0u8)
        } else {
            (0u8, 0u8, 0u8)
        }
    }

    /// The program that sets the filters in front of the mixer and the image
    /// rejection.
    pub open spec fn mux_program(self, lo_freq: u32, sys: Option<System>) -> Seq<Op> {
        mux::mux_program(self.rejection(lo_freq, sys), lo_freq, sys)
    }
}

impl R850 {
    /// Builds the program that sets the filters in front of the mixer.
    fn set_mux(&self, lo_freq: u32, sys: Option<System>) -> (r: Vec<Op>)
        requires
            self@.wf(),
        ensures
            shadow::built(r, self@.mux_program(lo_freq, sys), 48),
    {
        let i: usize = self.mixer_mode * 5 + mux::find_imr_step(lo_freq) as usize;
        let rejection: (u8, u8, u8) = if self.imr_done[self.mixer_mode] && self.imr_good[i] {
            (self.imr[i].gain, self.imr[i].phase, self.imr[i].iqcap)
        } else if sys.is_some() {
            (2, 0, 0)
        } else {
            (0, 0, 0)
        };
        mux::set_mux(rejection, lo_freq, sys)
    }
}

impl Chip {
    /// The shadow replaced.
    pub open spec fn with_regs(self, regs: Seq<u8>) -> Chip {
        Chip { regs, ..self }
    }

    /// The program that sets up the calibration at frequency `j`.
    #[verifier::opaque]
    pub open spec fn ring_program(self, j: usize) -> Seq<Op> {
        let mode = self.mixer_mode;
        seq![field(0x24, 0xf0, imr::ring(j, mode).setting)]
            .push(field(0x23, 0xa0, 0x11))
            + self.mux_program(imr::ring(j, mode).freq, None) + pll::pll_program(
            self.config.xtal,
            self.chip,
            self.xtal_pwr,
            imr::ring_lo(j, mode),
            5300,
            None,
        ) + imr::ring_levels(j, mode, self.mixer_amp_lpf_imr_cal)
    }

    /// The calibration at frequency `j` recorded.
    pub open spec fn recorded(self, j: usize, imr: Imr) -> Chip {
        let i = self.mixer_mode * 5 + j;
        Chip {
            imr: self.imr.update(i, imr),
            imr_good: self.imr_good.update(i, imr::imr_is_good(imr)),
            ..self
        }
    }
}

/// What the calibration of the image rejection at frequency `j` does and gives.
pub open spec fn ring_calibrated<B: I2c>(s: B::State, c: Chip, j: usize) -> (
    B::State,
    Chip,
    Result<(), Error>,
) {
    let mode = c.mixer_mode;
    let addr = c.i2c_addr;
    let (s1, regs1, r1) = shadow::run::<B>(s, addr, c.regs, c.ring_program(j));
    match r1 {
        Err(e) => (s1, c.with_regs(regs1), Err(e)),
        Ok(_) => {
            let (s2, regs2, r2) = if imr::ring(j, mode).full {
                imr::full_search::<B>(s1, addr, regs1)
            } else {
                (s1, regs1, Ok(c.imr[mode * 5 + imr::ring(j, mode).pre]))
            };
            match r2 {
                Err(e) => (s2, c.with_regs(regs2), Err(e)),
                Ok(a) => {
                    let (s3, regs3, r3) = imr::section_from::<B>(
                        s2,
                        addr,
                        regs2,
                        imr::gains_around(a.gain),
                        a.phase,
                        0,
                        imr::untried(),
                    );
                    match r3 {
                        Err(e) => (s3, c.with_regs(regs3), Err(e)),
                        Ok(b) => {
                            let (s4, regs4, r4) = imr::iqcap::<B>(s3, addr, regs3, b);
                            match r4 {
                                Err(e) => (s4, c.with_regs(regs4), Err(e)),
                                Ok(imr) => ring_ended::<B>(
                                    s4,
                                    c.with_regs(regs4).recorded(j, imr),
                                    imr::ring(j, mode).full,
                                ),
                            }
                        },
                    }
                },
            }
        },
    }
}

/// The end of a calibration: one from nothing leaves nothing set.
pub open spec fn ring_ended<B: I2c>(s: B::State, c: Chip, full: bool) -> (
    B::State,
    Chip,
    Result<(), Error>,
) {
    if full {
        let (s1, regs1, r1) = shadow::run::<B>(s, c.i2c_addr, c.regs, imr::imr_reset());
        (s1, c.with_regs(regs1), r1)
    } else {
        (s, c, Ok(()))
    }
}

/// What the calibrations at the five frequencies do and give, in the order in
/// which one builds on another: from `k` on.
pub open spec fn rings_from<B: I2c>(s: B::State, c: Chip, k: int) -> (
    B::State,
    Chip,
    Result<(), Error>,
)
    decreases 5 - k,
{
    if k < 0 || k >= 5 {
        let mode = c.mixer_mode as int;
        (
            s,
            Chip {
                imr_done: c.imr_done.update(mode, true),
                imr_amp_lpf: c.imr_amp_lpf.update(mode, c.mixer_amp_lpf_imr_cal),
                ..c
            },
            Ok(()),
        )
    } else {
        let (s1, c1, r1) = ring_calibrated::<B>(s, c, RING_ORDER@[k]);
        match r1 {
            Err(e) => (s1, c1, Err(e)),
            Ok(_) => rings_from::<B>(s1, c1, k + 1),
        }
    }
}

/// The order of the calibrations.
pub const RING_ORDER: [usize; 5] = [2, 1, 0, 3, 4];

impl R850 {
    /// Builds the program that sets up the calibration at frequency `j`.
    fn set_ring(&self, j: usize) -> (r: Vec<Op>)
        requires
            self@.wf(),
        ensures
            shadow::built(r, self@.ring_program(j), 48),
    {
        reveal(Chip::ring_program);
        let mode: usize = self.mixer_mode;
        let plan: Ring = imr::pick_ring(j, mode);
        let lo_freq: u32 = if mode == 0 { plan.freq - 5300 } else { plan.freq + 5300 };
        let mut ops: Vec<Op> = Vec::new();
        ops.push(field(0x24, 0xf0, plan.setting));
        ops.push(field(0x23, 0xa0, 0x11));
        let mut mux: Vec<Op> = self.set_mux(plan.freq, None);
        let mut pll: Vec<Op> = pll::set_pll(
            self.config.xtal,
            self.chip,
            self.xtal_pwr,
            lo_freq,
            5300,
            None,
        );
        let mut levels: Vec<Op> = imr::set_ring_levels(j, mode, self.mixer_amp_lpf_imr_cal);
        ops.append(&mut mux);
        ops.append(&mut pll);
        ops.append(&mut levels);
        ops
    }

    /// Calibrates the image rejection at frequency `j`.
    fn calibrate_ring<B: I2c>(&mut self, i2c: &mut B, j: usize) -> (r: Result<(), Error>)
        requires
            old(self)@.wf(),
            j < 5,
            !imr::ring(j, old(self).mixer_mode).full ==> old(self).imr@[old(self).mixer_mode * 5 + imr::ring(
                j,
                old(self).mixer_mode,
            ).pre].gain <= 0xf0,
        ensures
            final(self)@.wf(),
            final(self).config == old(self).config,
            (final(i2c).state(), final(self)@, r) == ring_calibrated::<B>(
                old(i2c).state(),
                old(self)@,
                j,
            ),
            final(self).mixer_mode == old(self).mixer_mode,
            r is Ok ==> final(self).imr@ == old(self).imr@.update(
                old(self).mixer_mode * 5 + j,
                final(self).imr@[old(self).mixer_mode * 5 + j],
            ),
            ({
                let mode = old(self).mixer_mode;
                let gain = final(self).imr@[mode * 5 + j].gain;
                r is Ok ==> gain <= 0x41 || (!imr::ring(j, mode).full && gain <= old(self).imr@[mode * 5
                    + imr::ring(j, mode).pre].gain + 1)
            }),
    {
        let mode: usize = self.mixer_mode;
        let addr: u8 = self.i2c_addr;
        let plan: Ring = imr::pick_ring(j, mode);
        let ops: Vec<Op> = self.set_ring(j);
        match perform(i2c, addr, &mut self.regs, &ops) {
            Ok(_) => {},
            Err(e) => return Err(e),
        }
        let a: Imr = if plan.full {
            match imr::search_fully(i2c, addr, &mut self.regs) {
                Ok(found) => found,
                Err(e) => return Err(e),
            }
        } else {
            self.imr[mode * 5 + plan.pre]
        };
        let b: Imr = match imr::imr_check_section(i2c, addr, &mut self.regs, &a) {
            Ok(found) => found,
            Err(e) => return Err(e),
        };
        let imr: Imr = match imr::imr_check_iqcap(i2c, addr, &mut self.regs, &b) {
            Ok(found) => found,
            Err(e) => return Err(e),
        };
        let ghost regs4 = self.regs@;
        self.imr.set(mode * 5 + j, imr);
        self.imr_good.set(mode * 5 + j, imr.gain & 0x0f <= 0x06 && imr.phase & 0x0f <= 0x06);
        assert(self@ =~= old(self)@.with_regs(regs4).recorded(j, imr));
        if plan.full {
            let mut reset: Vec<Op> = Vec::new();
            reset.push(field(0x14, 0xd0, 0));
            reset.push(field(0x15, 0x10, 0));
            reset.push(out(0x14, 2));
            assert(reset@ =~= imr::imr_reset());
            perform(i2c, addr, &mut self.regs, &reset)
        } else {
            Ok(())
        }
    }

    /// Calibrates the image rejection in the mode of the mixer set.
    fn calibrate_imr<B: I2c>(&mut self, i2c: &mut B) -> (r: Result<(), Error>)
        requires
            old(self)@.wf(),
        ensures
            final(self)@.wf(),
            final(self).config == old(self).config,
            (final(i2c).state(), final(self)@, r) == rings_from::<B>(
                old(i2c).state(),
                old(self)@,
                0,
            ),
    {
        reveal_with_fuel(rings_from, 6);
        match self.calibrate_ring(i2c, 2) {
            Ok(_) => {},
            Err(e) => return Err(e),
        }
        match self.calibrate_ring(i2c, 1) {
            Ok(_) => {},
            Err(e) => return Err(e),
        }
        match self.calibrate_ring(i2c, 0) {
            Ok(_) => {},
            Err(e) => return Err(e),
        }
        match self.calibrate_ring(i2c, 3) {
            Ok(_) => {},
            Err(e) => return Err(e),
        }
        match self.calibrate_ring(i2c, 4) {
            Ok(_) => {},
            Err(e) => return Err(e),
        }
        self.imr_done.set(self.mixer_mode, true);
        self.imr_amp_lpf.set(self.mixer_mode, self.mixer_amp_lpf_imr_cal);
        Ok(())
    }
}

impl Chip {
    /// The program that sets the PLL for a calibration of the filter.
    pub open spec fn lpf_pll(self, lo_freq: u32, if_freq: u32) -> Seq<Op> {
        pll::pll_program(self.config.xtal, self.chip, self.xtal_pwr, lo_freq, if_freq, None)
    }
}

/// The reading above 9999 kHz is compared with: one at 8500 kHz, which must not
/// be higher than the one at hand by more than 8. The PLL is set back after it.
pub open spec fn lpf_reference<B: I2c>(
    s: B::State,
    c: Chip,
    regs: Seq<u8>,
    if_freq: u32,
    val: u8,
) -> (B::State, Seq<u8>, Result<Option<u8>, Error>) {
    if if_freq <= 9_999 {
        (s, regs, Ok(None))
    } else {
        let (s1, regs1, r1) = imr::probe::<B>(
            s,
            c.i2c_addr,
            regs,
            c.lpf_pll(63_500, 8_500).push(Op::Delay { ms: 5 }),
        );
        match r1 {
            Err(e) => (s1, regs1, Err(e)),
            Ok(v) => if v <= val + 8 {
                let (s2, regs2, r2) = shadow::run::<B>(
                    s1,
                    c.i2c_addr,
                    regs1,
                    c.lpf_pll((72_000 - if_freq) as u32, if_freq),
                );
                match r2 {
                    Err(e) => (s2, regs2, Err(e)),
                    Ok(_) => (s2, regs2, Ok(Some(v))),
                }
            } else {
                (s1, regs1, Err(error("R850: LPF calibration failed")))
            },
        }
    }
}

/// What the calibration of the filter does and gives.
pub open spec fn lpf_calibrated<B: I2c>(s: B::State, c: Chip, if_freq: u32, bw: u8, gap: u8) -> (
    B::State,
    Chip,
    Result<Lpf, Error>,
) {
    let addr = c.i2c_addr;
    let (s1, regs1, r1) = shadow::run::<B>(
        s,
        addr,
        c.regs,
        c.lpf_pll((72_000 - if_freq) as u32, if_freq),
    );
    match r1 {
        Err(e) => (s1, c.with_regs(regs1), Err(e)),
        Ok(_) => {
            let (s2, regs2, r2) = lpf::lpf_gain_from::<B>(s1, addr, regs1, 5, 0);
            match r2 {
                Err(e) => (s2, c.with_regs(regs2), Err(e)),
                Ok(val) => {
                    let (s3, regs3, r3) = lpf_reference::<B>(s2, c, regs2, if_freq, val);
                    match r3 {
                        Err(e) => (s3, c.with_regs(regs3), Err(e)),
                        Ok(given) => {
                            let (s4, regs4, r4) = lpf::lpf_band_from::<B>(
                                s3,
                                addr,
                                regs3,
                                if bw == 2 {
                                    1
                                } else {
                                    0
                                },
                                0,
                            );
                            match r4 {
                                Err(e) => (s4, c.with_regs(regs4), Err(e)),
                                Ok(band) => {
                                    let (s5, regs5, r5) = lpf::lpf_code_from::<B>(
                                        s4,
                                        addr,
                                        regs4,
                                        band,
                                        gap,
                                        given,
                                        0,
                                        0,
                                    );
                                    (s5, c.with_regs(regs5), r5)
                                },
                            }
                        },
                    }
                },
            }
        },
    }
}

impl R850 {
    /// Takes the reading to compare with above 9999 kHz.
    fn take_reference<B: I2c>(&mut self, i2c: &mut B, if_freq: u32, val: u8) -> (r: Result<
        Option<u8>,
        Error,
    >)
        requires
            old(self)@.wf(),
            if_freq <= 72_000,
        ensures
            final(self)@.wf(),
            final(self).config == old(self).config,
            ({
                let (s, regs, given) = lpf_reference::<B>(
                    old(i2c).state(),
                    old(self)@,
                    old(self).regs@,
                    if_freq,
                    val,
                );
                &&& final(i2c).state() == s
                &&& final(self)@ == old(self)@.with_regs(regs)
                &&& r == given
            }),
    {
        if if_freq <= 9_999 {
            return Ok(None);
        }
        let mut ops: Vec<Op> = pll::set_pll(
            self.config.xtal,
            self.chip,
            self.xtal_pwr,
            63_500,
            8_500,
            None,
        );
        ops.push(Op::Delay { ms: 5 });
        let v: u8 = match imr::try_out(i2c, self.i2c_addr, &mut self.regs, &ops) {
            Ok(v) => v,
            Err(e) => return Err(e),
        };
        if v as u16 > val as u16 + 8 {
            return Err(error("R850: LPF calibration failed"));
        }
        let back: Vec<Op> = pll::set_pll(
            self.config.xtal,
            self.chip,
            self.xtal_pwr,
            72_000 - if_freq,
            if_freq,
            None,
        );
        match perform(i2c, self.i2c_addr, &mut self.regs, &back) {
            Ok(_) => Ok(Some(v)),
            Err(e) => Err(e),
        }
    }

    /// Calibrates the low-pass filter at an intermediate frequency.
    fn calibrate_lpf<B: I2c>(&mut self, i2c: &mut B, if_freq: u32, bw: u8, gap: u8) -> (r: Result<
        Lpf,
        Error,
    >)
        requires
            old(self)@.wf(),
            if_freq <= 72_000,
        ensures
            final(self)@.wf(),
            final(self).config == old(self).config,
            (final(i2c).state(), final(self)@, r) == lpf_calibrated::<B>(
                old(i2c).state(),
                old(self)@,
                if_freq,
                bw,
                gap,
            ),
    {
        let addr: u8 = self.i2c_addr;
        let ops: Vec<Op> = pll::set_pll(
            self.config.xtal,
            self.chip,
            self.xtal_pwr,
            72_000 - if_freq,
            if_freq,
            None,
        );
        match perform(i2c, addr, &mut self.regs, &ops) {
            Ok(_) => {},
            Err(e) => return Err(e),
        }
        let val: u8 = match lpf::turn_gain_up(i2c, addr, &mut self.regs) {
            Ok(v) => v,
            Err(e) => return Err(e),
        };
        let given: Option<u8> = match self.take_reference(i2c, if_freq, val) {
            Ok(v) => v,
            Err(e) => return Err(e),
        };
        let from: u8 = if bw == 2 { 1 } else { 0 };
        let band: u8 = match lpf::find_band(i2c, addr, &mut self.regs, from) {
            Ok(v) => v,
            Err(e) => return Err(e),
        };
        lpf::find_code(i2c, addr, &mut self.regs, band, gap, given)
    }
}

impl Chip {
    /// Whether the image rejection is to be calibrated before tuning.
    pub open spec fn wants_imr(self) -> bool {
        let mode = self.mixer_mode as int;
        &&& !self.config.no_imr_calibration
        &&& !self.imr_done[mode] || self.imr_amp_lpf[mode] != self.mixer_amp_lpf_imr_cal
    }
}

/// What applying a system that is not the current one does and gives.
pub open spec fn system_applied<B: I2c>(s: B::State, c: Chip, sys: SystemConfig) -> (
    B::State,
    Chip,
    Result<(), Error>,
) {
    match tables::first_system(
        tables::system_rows(sys.system, c.chip),
        sys.bandwidth,
        sys.if_freq,
        0,
    ) {
        None => (s, c, Err(error("R850: unsupported system"))),
        Some(prm) => {
            let (s1, c1, r1) = if c.config.no_lpf_calibration {
                (s, c, Ok(prm.lpf))
            } else {
                lpf_calibrated::<B>(s, c.with_regs(tables::lpf_cal_values()), prm.filt_cal_if, prm.bw, 2)
            };
            match r1 {
                Err(e) => (s1, c1, Err(e)),
                Ok(lpf) => {
                    let (s2, regs2, r2) = shadow::run::<B>(
                        s1,
                        c.i2c_addr,
                        tables::init_values(),
                        fields::filter_program(prm, lpf, c.chip),
                    );
                    match r2 {
                        Err(e) => (s2, c1.with_regs(regs2), Err(e)),
                        Ok(_) => (
                            s2,
                            Chip { sys_curr: Some(sys), ..c1.with_regs(regs2) },
                            Ok(()),
                        ),
                    }
                },
            }
        },
    }
}

/// What [`R850::set_system_params`] does and gives: the calibrations that are
/// missing, and the filter of the system.
pub open spec fn system_set<B: I2c>(s: B::State, c: Chip) -> (
    B::State,
    Chip,
    Result<SystemConfig, Error>,
) {
    match c.sys {
        None => (s, c, Err(error("R850: no system is set"))),
        Some(sys) => {
            let (s1, c1, r1) = if c.wants_imr() {
                rings_from::<B>(s, c.with_regs(tables::imr_cal_values()), 0)
            } else {
                (s, c, Ok(()))
            };
            match r1 {
                Err(e) => (s1, c1, Err(e)),
                Ok(_) => if c1.sys_curr == Some(sys) {
                    (s1, c1, Ok(sys))
                } else {
                    let (s2, c2, r2) = system_applied::<B>(s1, c1, sys);
                    match r2 {
                        Err(e) => (s2, c2, Err(e)),
                        Ok(_) => (s2, c2, Ok(sys)),
                    }
                },
            }
        },
    }
}

impl R850 {
    /// Applies a system that is not the current one.
    fn apply_system<B: I2c>(&mut self, i2c: &mut B, sys: SystemConfig) -> (r: Result<(), Error>)
        requires
            old(self)@.wf(),
        ensures
            final(self)@.wf(),
            final(self).config == old(self).config,
            (final(i2c).state(), final(self)@, r) == system_applied::<B>(
                old(i2c).state(),
                old(self)@,
                sys,
            ),
            r is Ok ==> sys.if_freq <= 6_000,
    {
        let prm: SystemParams = match system_params(
            sys.system,
            self.chip,
            sys.bandwidth,
            sys.if_freq,
        ) {
            Some(prm) => prm,
            None => return Err(error("R850: unsupported system")),
        };
        let lpf: Lpf = if self.config.no_lpf_calibration {
            prm.lpf
        } else {
            self.regs = lpf_cal_regs();
            match self.calibrate_lpf(i2c, prm.filt_cal_if, prm.bw, 2) {
                Ok(lpf) => lpf,
                Err(e) => return Err(e),
            }
        };
        self.regs = init_regs();
        let ops: Vec<Op> = fields::set_filter(&prm, &lpf, self.chip);
        match perform(i2c, self.i2c_addr, &mut self.regs, &ops) {
            Ok(_) => {},
            Err(e) => return Err(e),
        }
        self.sys_curr = Some(sys);
        Ok(())
    }

    /// Makes the calibrations that are missing and sets the filter of the
    /// system.
    fn set_system_params<B: I2c>(&mut self, i2c: &mut B) -> (r: Result<SystemConfig, Error>)
        requires
            old(self)@.wf(),
        ensures
            final(self)@.wf(),
            final(self).config == old(self).config,
            (final(i2c).state(), final(self)@, r) == system_set::<B>(
                old(i2c).state(),
                old(self)@,
            ),
            r matches Ok(sys) ==> sys.if_freq <= 6_000,
    {
        let sys: SystemConfig = match self.sys {
            Some(sys) => sys,
            None => return Err(error("R850: no system is set")),
        };
        if !self.config.no_imr_calibration && (!self.imr_done[self.mixer_mode]
            || self.imr_amp_lpf[self.mixer_mode] != self.mixer_amp_lpf_imr_cal) {
            self.regs = imr_cal_regs();
            match self.calibrate_imr(i2c) {
                Ok(_) => {},
                Err(e) => return Err(e),
            }
        }
        let current: bool = match self.sys_curr {
            Some(curr) => curr == sys,
            None => false,
        };
        if !current {
            match self.apply_system(i2c, sys) {
                Ok(_) => {},
                Err(e) => return Err(e),
            }
        }
        Ok(sys)
    }
}

/// The frequency of the local oscillator for a frequency.
pub open spec fn lo_of(mode: usize, rf_freq: u32, if_freq: u32) -> u32 {
    if mode != 0 {
        (rf_freq - if_freq) as u32
    } else {
        (rf_freq + if_freq) as u32
    }
}

impl Chip {
    /// The program that tunes to a frequency in a system.
    #[verifier::opaque]
    pub open spec fn tuning_program(
        self,
        sys: SystemConfig,
        prm: FreqParams,
        rf_freq: u32,
    ) -> Seq<Op> {
        let lo_freq = lo_of(self.mixer_mode, rf_freq, sys.if_freq);
        fields::front_program(self.mixer_mode, prm) + fields::middle_program(self.chip, prm) + fields::discharge_program(
            prm,
        ) + fields::back_program(self.config, sys.system, prm, rf_freq) + self.mux_program(
            lo_freq,
            Some(sys.system),
        ) + pll::pll_program(
            self.config.xtal,
            self.chip,
            self.xtal_pwr,
            lo_freq,
            sys.if_freq,
            Some(sys.system),
        )
    }
}

/// What [`R850::set_system_frequency`] does and gives.
pub open spec fn frequency_set<B: I2c>(s: B::State, c: Chip, sys: SystemConfig, rf_freq: u32) -> (
    B::State,
    Chip,
    Result<(), Error>,
) {
    match tables::first_freq(
        tables::freq_rows(sys.system),
        sys.if_freq,
        rf_freq,
        0,
    ) {
        None => (s, c, Err(error("R850: unsupported frequency"))),
        Some(prm) => {
            let (s1, regs1, r1) = shadow::run::<B>(
                s,
                c.i2c_addr,
                c.regs,
                c.tuning_program(sys, fields::adjusted(prm, sys.system, c.chip), rf_freq),
            );
            (s1, c.with_regs(regs1), r1)
        },
    }
}

impl R850 {
    /// Tunes to a frequency in a system whose filter is set.
    fn set_system_frequency<B: I2c>(&mut self, i2c: &mut B, sys: SystemConfig, rf_freq: u32) -> (r:
        Result<(), Error>)
        requires
            old(self)@.wf(),
            sys.if_freq <= 6_000,
            40_000 <= rf_freq <= 1_002_000,
        ensures
            final(self)@.wf(),
            final(self).config == old(self).config,
            (final(i2c).state(), final(self)@, r) == frequency_set::<B>(
                old(i2c).state(),
                old(self)@,
                sys,
                rf_freq,
            ),
    {
        reveal(Chip::tuning_program);
        let mut prm: FreqParams = match freq_params(sys.system, sys.if_freq, rf_freq) {
            Some(prm) => prm,
            None => return Err(error("R850: unsupported frequency")),
        };
        if matches!(sys.system, System::DvbC | System::J83b | System::IsdbT) && self.chip != 0 {
            prm.filter_top = 6;
        }
        let lo_freq: u32 = if self.mixer_mode != 0 {
            rf_freq - sys.if_freq
        } else {
            rf_freq + sys.if_freq
        };
        let mut ops: Vec<Op> = fields::set_front(self.mixer_mode, &prm);
        let mut middle: Vec<Op> = fields::set_middle(self.chip, &prm);
        let mut discharge: Vec<Op> = fields::set_discharge(&prm);
        let mut back: Vec<Op> = fields::set_back(&self.config, sys.system, &prm, rf_freq);
        let mut mux: Vec<Op> = self.set_mux(lo_freq, Some(sys.system));
        let mut pll: Vec<Op> = pll::set_pll(
            self.config.xtal,
            self.chip,
            self.xtal_pwr,
            lo_freq,
            sys.if_freq,
            Some(sys.system),
        );
        ops.append(&mut middle);
        ops.append(&mut discharge);
        ops.append(&mut back);
        ops.append(&mut mux);
        ops.append(&mut pll);
        perform(i2c, self.i2c_addr, &mut self.regs, &ops)
    }
}

/// The program that prepares the search for the power of the crystal.
pub open spec fn xtal_check_program(chip: usize) -> Seq<Op> {
    seq![field(0x2f, if chip != 0 { 0xfd } else { 0xfc }, 0)]
        .push(field(0x1b, 0x80, 0x12))
        .push(field(0x1e, 0xe0, 0x08))
        .push(field(0x22, 0x27, 0))
        .push(field(0x1d, 0x0f, 0))
        .push(field(0x21, 0xff, 0xf8))
        .push(field(0x22, 0x77, 0x80))
        .push(field(0x1f, 0x80, 0x40))
        .push(field(0x1f, 0xbf, 0))
        .push(out(0x08, 0x28))
}

/// The program that tries a power of the crystal.
pub open spec fn xtal_power_program(i: u8) -> Seq<Op> {
    seq![field(0x22, 0xcf, i << 4)].push(out(0x22, 1))
}

/// Whether the PLL locked on the crystal, at a bank of the VCO that is not above
/// the window.
pub open spec fn xtal_locked(v: u8) -> bool {
    v & 0x40 != 0 && (v & 0x3f) - 49 <= 12
}

/// The powers tried from `i` on: the first the PLL locks with, else 3.
pub open spec fn xtal_power_from<B: I2c>(s: B::State, addr: u8, regs: Seq<u8>, i: u8) -> (
    B::State,
    Seq<u8>,
    Result<u8, Error>,
)
    decreases 4 - i,
{
    if i >= 4 {
        (s, regs, Ok(3))
    } else {
        let (s1, regs1, r1) = shadow::run::<B>(s, addr, regs, xtal_power_program(i));
        match r1 {
            Err(e) => (s1, regs1, Err(e)),
            Ok(_) => {
                let (s2, r2) = shadow::read_one::<B>(s1, addr, 0x02);
                match r2 {
                    Err(e) => (s2, regs1, Err(e)),
                    Ok(v) => if xtal_locked(v) {
                        (s2, regs1, Ok(i))
                    } else {
                        xtal_power_from::<B>(s2, addr, regs1, (i + 1) as u8)
                    },
                }
            },
        }
    }
}

/// What the search for the power of the crystal does and gives: one step above
/// the lowest that works.
pub open spec fn xtal_checked<B: I2c>(s: B::State, c: Chip) -> (
    B::State,
    Chip,
    Result<(), Error>,
) {
    let (s1, regs1, r1) = shadow::run::<B>(
        s,
        c.i2c_addr,
        tables::init_values(),
        xtal_check_program(c.chip),
    );
    match r1 {
        Err(e) => (s1, c.with_regs(regs1), Err(e)),
        Ok(_) => {
            let (s2, regs2, r2) = xtal_power_from::<B>(s1, c.i2c_addr, regs1, 0);
            match r2 {
                Err(e) => (s2, c.with_regs(regs2), Err(e)),
                Ok(pwr) => (
                    s2,
                    Chip {
                        xtal_pwr: if pwr < 3 {
                            (pwr + 1) as u8
                        } else {
                            pwr
                        },
                        ..c.with_regs(regs2)
                    },
                    Ok(()),
                ),
            }
        },
    }
}

fn find_xtal_power<B: I2c>(i2c: &mut B, addr: u8, regs: &mut Vec<u8>) -> (r: Result<u8, Error>)
    requires
        old(regs)@.len() == 48,
    ensures
        final(regs)@.len() == 48,
        (final(i2c).state(), final(regs)@, r) == xtal_power_from::<B>(
            old(i2c).state(),
            addr,
            old(regs)@,
            0,
        ),
        r matches Ok(pwr) ==> pwr <= 3,
{
    let ghost whole = xtal_power_from::<B>(i2c.state(), addr, regs@, 0);
    let mut i: u8 = 0;
    while i < 4
        invariant
            i <= 4,
            regs@.len() == 48,
            whole == xtal_power_from::<B>(old(i2c).state(), addr, old(regs)@, 0),
            xtal_power_from::<B>(i2c.state(), addr, regs@, i) == whole,
        decreases 4 - i,
    {
        let mut ops: Vec<Op> = Vec::new();
        ops.push(field(0x22, 0xcf, i << 4));
        ops.push(out(0x22, 1));
        match perform(i2c, addr, regs, &ops) {
            Ok(_) => {},
            Err(e) => return Err(e),
        }
        let v: u8 = match read_reg(i2c, addr, 0x02) {
            Ok(v) => v,
            Err(e) => return Err(e),
        };
        if v & 0x40 != 0 && (v & 0x3f) as i32 - 49 <= 12 {
            return Ok(i);
        }
        i = i + 1;
    }
    Ok(3)
}

/// What reading the id does and gives, with the tries left: the chip is the
/// second one if the id says so in any of them, and the result is that of the
/// last.
pub open spec fn identified<B: I2c>(s: B::State, addr: u8, tries: nat) -> (
    B::State,
    usize,
    Result<(), Error>,
)
    decreases tries,
{
    let (s1, r1) = shadow::read_one::<B>(s, addr, 0x00);
    match r1 {
        Ok(v) => if v & 0x98 != 0 {
            (s1, 1, Ok(()))
        } else if tries <= 1 {
            (s1, 0, Ok(()))
        } else {
            identified::<B>(s1, addr, (tries - 1) as nat)
        },
        Err(e) => if tries <= 1 {
            (s1, 0, Err(e))
        } else {
            identified::<B>(s1, addr, (tries - 1) as nat)
        },
    }
}

fn identify<B: I2c>(i2c: &mut B, addr: u8) -> (r: (usize, Result<(), Error>))
    ensures
        (final(i2c).state(), r.0, r.1) == identified::<B>(old(i2c).state(), addr, 4),
        r.0 <= 1,
{
    let ghost whole = identified::<B>(i2c.state(), addr, 4);
    let mut tries: usize = 4;
    while tries > 1
        invariant
            1 <= tries <= 4,
            whole == identified::<B>(old(i2c).state(), addr, 4),
            identified::<B>(i2c.state(), addr, tries as nat) == whole,
        decreases tries,
    {
        match read_reg(i2c, addr, 0x00) {
            Ok(v) => if v & 0x98 != 0 {
                return (1, Ok(()));
            },
            Err(_) => {},
        }
        tries = tries - 1;
    }
    match read_reg(i2c, addr, 0x00) {
        Ok(v) => (if v & 0x98 != 0 { 1 } else { 0 }, Ok(())),
        Err(e) => (0, Err(e)),
    }
}

impl Chip {
    /// Nothing known of the system, and no calibration made.
    pub open spec fn forgotten(self) -> Chip {
        Chip {
            init: false,
            chip: 0,
            sys: None,
            imr_done: seq![false].push(false),
            sys_curr: None,
            ..self
        }
    }
}

/// What [`R850::init`] does and gives: it identifies the chip, finds the power
/// of the crystal, and leaves the registers of the chip as they were.
#[verifier::opaque]
pub open spec fn inited<B: I2c>(s: B::State, c: Chip) -> (B::State, Chip, Result<(), Error>) {
    let addr = c.i2c_addr;
    let (s1, chip, r1) = identified::<B>(s, addr, 4);
    let c1 = Chip { chip, ..c.forgotten() };
    match r1 {
        Err(e) => (s1, c1, Err(e)),
        Ok(_) => {
            let (s2, r2) = shadow::read::<B>(s1, addr, 0x08, 0x28);
            match r2 {
                Err(e) => (s2, c1, Err(e)),
                Ok(kept) => {
                    let (s3, c3, r3) = xtal_checked::<B>(s2, c1);
                    match r3 {
                        Err(e) => (s3, c3, Err(e)),
                        Ok(_) => {
                            let (s4, r4) = B::on_write(s3, addr, seq![0x08u8] + kept);
                            match r4 {
                                Err(e) => (s4, c3, Err(e)),
                                Ok(_) => (
                                    s4,
                                    Chip { init: true, ..c3.with_regs(tables::init_values()) },
                                    Ok(()),
                                ),
                            }
                        },
                    }
                },
            }
        },
    }
}

/// A chip that was not initialised.
pub open spec fn uninitialised<T>() -> Result<T, Error> {
    Err(error("R850 is not initialised"))
}

fn not_initialized() -> (r: Error)
    ensures
        r == error("R850 is not initialised"),
{
    error("R850 is not initialised")
}

/// The mode of the mixer and the amplifier setting to calibrate at.
pub open spec fn mixing(system: System) -> (usize, u8) {
    match system {
        System::DvbT | System::DvbT2 | System::DvbT2_1 | System::DvbC | System::Fm => (1, 4),
        System::J83b | System::Dtmb | System::Atsc => (0, 7),
        System::IsdbT => (1, 7),
    }
}

/// What [`R850::set_system`] makes of a chip, and gives.
pub open spec fn chosen(c: Chip, system: SystemConfig) -> (Chip, Result<(), Error>) {
    if c.init {
        (
            Chip {
                sys: Some(system),
                mixer_mode: mixing(system.system).0,
                mixer_amp_lpf_imr_cal: mixing(system.system).1,
                sys_curr: None,
                ..c
            },
            Ok(()),
        )
    } else {
        (c, uninitialised())
    }
}

/// What [`R850::term`] makes of a chip.
pub open spec fn ended(c: Chip) -> Chip {
    if c.init {
        c.forgotten().with_regs(Seq::new(48, |i: int| 0u8))
    } else {
        c
    }
}

/// What [`R850::set_frequency`] does and gives.
#[verifier::opaque]
pub open spec fn tuned<B: I2c>(s: B::State, c: Chip, freq: u32) -> (
    B::State,
    Chip,
    Result<(), Error>,
) {
    if !c.init {
        (s, c, uninitialised())
    } else if freq < 40_000 || freq > 1_002_000 {
        (s, c, Err(error("R850: frequency out of range")))
    } else {
        let (s1, c1, r1) = system_set::<B>(s, c);
        match r1 {
            Err(e) => (s1, c1, Err(e)),
            Ok(sys) => frequency_set::<B>(s1, c1, sys, freq),
        }
    }
}

/// Whether the PLL is locked: bit 6 of register 2.
pub open spec fn pll_lock<B: I2c>(s: B::State, addr: u8) -> Ran<B::State, bool> {
    let (s1, r) = shadow::read_one::<B>(s, addr, 0x02);
    match r {
        Ok(v) => (s1, Ok(v & 0x40 != 0)),
        Err(e) => (s1, Err(e)),
    }
}

fn two(v: bool) -> (r: Vec<bool>)
    ensures
        r@ == seq![v].push(v),
{
    let mut both: Vec<bool> = Vec::new();
    both.push(v);
    both.push(v);
    both
}

/// A chip nothing was done with yet.
pub open spec fn fresh(i2c_addr: u8, config: R850Config) -> Chip {
    Chip {
        i2c_addr,
        config,
        init: false,
        chip: 0,
        xtal_pwr: 0,
        regs: Seq::new(48, |i: int| 0u8),
        sys: None,
        mixer_mode: 0,
        mixer_amp_lpf_imr_cal: 0,
        imr: Seq::new(10, |i: int| Imr { gain: 0, phase: 0, iqcap: 0, value: 0 }),
        imr_good: Seq::new(10, |i: int| false),
        imr_done: seq![false].push(false),
        imr_amp_lpf: Seq::new(2, |i: int| 0u8),
        sys_curr: None,
    }
}

impl R850 {
    pub fn new(i2c_addr: u8, config: R850Config) -> (r: Self)
        requires
            pll::xtal_fits(config.xtal),
        ensures
            r@.wf(),
            r@ == fresh(i2c_addr, config),
    {
        let none: Imr = Imr { gain: 0, phase: 0, iqcap: 0, value: 0 };
        let r: R850 = R850 {
            i2c_addr,
            config,
            init: false,
            chip: 0,
            xtal_pwr: 0,
            regs: vec![0u8; 48],
            sys: None,
            mixer_mode: 0,
            mixer_amp_lpf_imr_cal: 0,
            imr: vec![none; 10],
            imr_good: vec![false; 10],
            imr_done: two(false),
            imr_amp_lpf: vec![0u8; 2],
            sys_curr: None,
        };
        assert(r@ =~= fresh(i2c_addr, config));
        r
    }

    fn check_xtal_power<B: I2c>(&mut self, i2c: &mut B) -> (r: Result<(), Error>)
        requires
            old(self)@.wf(),
        ensures
            final(self)@.wf(),
            final(self).config == old(self).config,
            (final(i2c).state(), final(self)@, r) == xtal_checked::<B>(
                old(i2c).state(),
                old(self)@,
            ),
    {
        self.regs = init_regs();
        let mut ops: Vec<Op> = Vec::new();
        ops.push(field(0x2f, if self.chip != 0 { 0xfd } else { 0xfc }, 0));
        ops.push(field(0x1b, 0x80, 0x12));
        ops.push(field(0x1e, 0xe0, 0x08));
        ops.push(field(0x22, 0x27, 0));
        ops.push(field(0x1d, 0x0f, 0));
        ops.push(field(0x21, 0xff, 0xf8));
        ops.push(field(0x22, 0x77, 0x80));
        ops.push(field(0x1f, 0x80, 0x40));
        ops.push(field(0x1f, 0xbf, 0));
        ops.push(out(0x08, 0x28));
        match perform(i2c, self.i2c_addr, &mut self.regs, &ops) {
            Ok(_) => {},
            Err(e) => return Err(e),
        }
        let pwr: u8 = match find_xtal_power(i2c, self.i2c_addr, &mut self.regs) {
            Ok(pwr) => pwr,
            Err(e) => return Err(e),
        };
        self.xtal_pwr = if pwr < 3 { pwr + 1 } else { pwr };
        Ok(())
    }

    /// Identifies the chip and finds the power of the crystal.
    pub fn init<B: I2c>(&mut self, i2c: &mut B) -> (r: Result<(), Error>)
        requires
            old(self)@.wf(),
        ensures
            final(self)@.wf(),
            final(self).config == old(self).config,
            (final(i2c).state(), final(self)@, r) == inited::<B>(old(i2c).state(), old(self)@),
    {
        reveal(inited);
        self.init = false;
        self.sys = None;
        self.imr_done = two(false);
        self.sys_curr = None;
        let (chip, found) = identify(i2c, self.i2c_addr);
        self.chip = chip;
        match found {
            Ok(_) => {},
            Err(e) => return Err(e),
        }
        let mut kept: Vec<u8> = match read_back(i2c, self.i2c_addr, 0x08, 0x28) {
            Ok(regs) => regs,
            Err(e) => return Err(e),
        };
        match self.check_xtal_power(i2c) {
            Ok(_) => {},
            Err(e) => return Err(e),
        }
        let mut data: Vec<u8> = Vec::new();
        data.push(0x08);
        data.append(&mut kept);
        match i2c.write(self.i2c_addr, data.as_slice()) {
            Ok(_) => {},
            Err(e) => return Err(e),
        }
        self.regs = init_regs();
        self.init = true;
        Ok(())
    }

    pub fn term(&mut self)
        requires
            old(self)@.wf(),
        ensures
            final(self)@.wf(),
            final(self).config == old(self).config,
            final(self)@ == ended(old(self)@),
    {
        if !self.init {
            return;
        }
        self.sys = None;
        self.imr_done = two(false);
        self.sys_curr = None;
        self.regs = vec![0u8; 48];
        self.chip = 0;
        self.init = false;
        assert(self@ =~= old(self)@.forgotten().with_regs(Seq::new(48, |i: int| 0u8)));
    }

    /// Does nothing but check: the chip has no use for its sleep sequence.
    pub fn sleep(&mut self) -> (r: Result<(), Error>)
        ensures
            *final(self) == *old(self),
            old(self).init ==> r == Ok::<(), Error>(()),
            !old(self).init ==> r == uninitialised::<()>(),
    {
        if !self.init {
            return Err(not_initialized());
        }
        Ok(())
    }

    /// Does nothing but check: the chip has no use for its wakeup sequence.
    pub fn wakeup(&mut self) -> (r: Result<(), Error>)
        ensures
            *final(self) == *old(self),
            old(self).init ==> r == Ok::<(), Error>(()),
            !old(self).init ==> r == uninitialised::<()>(),
    {
        if !self.init {
            return Err(not_initialized());
        }
        Ok(())
    }

    /// Sets the system to receive, to be applied with the next frequency.
    pub fn set_system(&mut self, system: SystemConfig) -> (r: Result<(), Error>)
        requires
            old(self)@.wf(),
        ensures
            final(self)@.wf(),
            final(self).config == old(self).config,
            (final(self)@, r) == chosen(old(self)@, system),
    {
        if !self.init {
            return Err(not_initialized());
        }
        let (mixer_mode, amp_lpf): (usize, u8) = match system.system {
            System::DvbT | System::DvbT2 | System::DvbT2_1 | System::DvbC | System::Fm => (1, 4),
            System::J83b | System::Dtmb | System::Atsc => (0, 7),
            System::IsdbT => (1, 7),
        };
        self.sys = Some(system);
        self.mixer_mode = mixer_mode;
        self.mixer_amp_lpf_imr_cal = amp_lpf;
        self.sys_curr = None;
        Ok(())
    }

    /// Tunes to `freq` in kHz, in the system last set.
    pub fn set_frequency<B: I2c>(&mut self, i2c: &mut B, freq: u32) -> (r: Result<(), Error>)
        requires
            old(self)@.wf(),
        ensures
            final(self)@.wf(),
            final(self).config == old(self).config,
            (final(i2c).state(), final(self)@, r) == tuned::<B>(
                old(i2c).state(),
                old(self)@,
                freq,
            ),
    {
        reveal(tuned);
        if !self.init {
            return Err(not_initialized());
        }
        if freq < 40_000 || freq > 1_002_000 {
            return Err(error("R850: frequency out of range"));
        }
        let sys: SystemConfig = match self.set_system_params(i2c) {
            Ok(sys) => sys,
            Err(e) => return Err(e),
        };
        self.set_system_frequency(i2c, sys, freq)
    }

    pub fn is_pll_locked<B: I2c>(&mut self, i2c: &mut B) -> (r: Result<bool, Error>)
        ensures
            *final(self) == *old(self),
            !old(self).init ==> final(i2c).state() == old(i2c).state() && r
                == uninitialised::<bool>(),
            old(self).init ==> (final(i2c).state(), r) == pll_lock::<B>(
                old(i2c).state(),
                old(self).i2c_addr,
            ),
    {
        if !self.init {
            return Err(not_initialized());
        }
        match read_reg(i2c, self.i2c_addr, 0x02) {
            Ok(v) => Ok(v & 0x40 != 0),
            Err(e) => Err(e),
        }
    }
}

proof fn tuning_fits(c: Chip, sys: SystemConfig, prm: FreqParams, rf_freq: u32)
    ensures
        shadow::fits(c.tuning_program(sys, prm, rf_freq), 48),
{
    broadcast use {
        crate::shadow::fits_nothing,
        crate::shadow::fits_one_more,
        crate::shadow::fits_both,
    };

    reveal(Chip::tuning_program);
    reveal(fields::front_program);
    reveal(fields::middle_program);
    reveal(fields::discharge_program);
    reveal(fields::back_program);
    reveal(mux::mux_program);
    reveal(pll::pll_program);
}

/// Register 0x13 after the program that tunes: bit 4 is set by the mode alone.
proof fn side_left(c: Chip, sys: SystemConfig, prm: FreqParams, rf_freq: u32, p: (u8, u8))
    ensures
        shadow::at_end(p, c.tuning_program(sys, prm, rf_freq), 0x13).1 & 0x10 == if c.mixer_mode
            != 0 {
            0x10u8
        } else {
            0u8
        },
{
    broadcast use {
        crate::shadow::at_end_of_nothing,
        crate::shadow::at_end_of_one_more,
        crate::shadow::at_end_of_both,
    };

    reveal(Chip::tuning_program);
    let lo_freq = lo_of(c.mixer_mode, rf_freq, sys.if_freq);
    let front = fields::front_program(c.mixer_mode, prm);
    let middle = fields::middle_program(c.chip, prm);
    let discharge = fields::discharge_program(prm);
    let back = fields::back_program(c.config, sys.system, prm, rf_freq);
    let mux = c.mux_program(lo_freq, Some(sys.system));
    let pll = pll::pll_program(
        c.config.xtal,
        c.chip,
        c.xtal_pwr,
        lo_freq,
        sys.if_freq,
        Some(sys.system),
    );
    let bit: u8 = if c.mixer_mode != 0 {
        0x10
    } else {
        0
    };
    let (p0, low) = (p.0, prm.mixer_amp_lpf & 0x07);
    let p1 = shadow::at_end(p, front, 0x13);
    assert(p1.0 == (p0 & 0xef) | bit) by {
        reveal(fields::front_program);
    }
    let p2 = shadow::at_end(p1, middle, 0x13);
    assert(p2.0 == (p1.0 & 0xf8) | low) by {
        reveal(fields::middle_program);
    }
    let p3 = shadow::at_end(p2, discharge, 0x13);
    assert(p3 == p2) by {
        reveal(fields::discharge_program);
    }
    let p4 = shadow::at_end(p3, back, 0x13);
    assert(p4 == p3) by {
        reveal(fields::back_program);
    }
    let p5 = shadow::at_end(p4, mux, 0x13);
    assert(p5 == p4) by {
        reveal(mux::mux_program);
    }
    let p6 = shadow::at_end(p5, pll, 0x13);
    assert(p6.1 == p5.0) by {
        reveal(pll::pll_program);
    }
    let m = prm.mixer_amp_lpf;
    assert(((((p0 & 0xef) | bit) & 0xf8) | (m & 0x07)) & 0x10 == bit) by (bit_vector)
        requires
            bit == 0x10 || bit == 0,
    ;
}

/// The frequency of the local oscillator that goes with one asked for, by the side of it
/// that bit 4 of register 0x13 says the oscillator is on.
pub open spec fn oscillator_for(rf_freq: u32, if_freq: u32, r13: u8) -> int {
    if r13 & 0x10 != 0 {
        rf_freq - if_freq
    } else {
        rf_freq + if_freq
    }
}

/// Whether the registers of a chip stand for a frequency of the local oscillator: what
/// the PLL makes of the crystal, divided by the mixer, is it, to within a part of 64 of
/// the crystal at the VCO.
pub open spec fn stands_for(file: Seq<u8>, xtal: u32, lo_freq: int) -> bool {
    let mixer = pll::mixer_of(file[0x1e]);
    let off = (pll::counted_crystal(xtal, file[0x22]) / 64 + 18) * 0x1_0000;
    -off <= pll::vco_of(xtal, file[0x1b], file[0x1c], file[0x1d], file[0x1e], file[0x22]) - lo_freq
        * mixer * 0x1_0000 <= off
}

/// A chip that was tuned is on the frequency asked for: its oscillator stands one
/// intermediate frequency below it where bit 4 of register 0x13 says that it is below,
/// and one above where it says that it is above.
pub proof fn tuning_lands_on_the_frequency<B: I2c>(
    s: B::State,
    c: Chip,
    sys: SystemConfig,
    rf_freq: u32,
    file: spec_fn(B::State) -> Seq<u8>,
)
    requires
        c.regs.len() == 48,
        17_400 <= c.config.xtal < 0x8000,
        c.config.xtal % 4 == 0,
        sys.if_freq <= 6_000,
        40_000 <= rf_freq <= 1_002_000,
        shadow::takes_writes::<B>(c.i2c_addr, file),
        file(s).len() == 48,
        frequency_set::<B>(s, c, sys, rf_freq).2 is Ok,
    ensures
        ({
            let left = file(frequency_set::<B>(s, c, sys, rf_freq).0);
            &&& stands_for(left, c.config.xtal, oscillator_for(rf_freq, sys.if_freq, left[0x13]))
            &&& (left[0x13] & 0x10 != 0) == (c.mixer_mode != 0)
        }),
{
    let found = tables::first_freq(tables::freq_rows(sys.system), sys.if_freq, rf_freq, 0);
    let prm = fields::adjusted(found->0, sys.system, c.chip);
    let ops = c.tuning_program(sys, prm, rf_freq);
    let start = file(s);
    let left = file(frequency_set::<B>(s, c, sys, rf_freq).0);
    tuning_fits(c, sys, prm, rf_freq);
    shadow::programs_reach_the_chip::<B>(s, c.i2c_addr, c.regs, ops, file, 0x13);
    shadow::programs_reach_the_chip::<B>(s, c.i2c_addr, c.regs, ops, file, 0x1b);
    shadow::programs_reach_the_chip::<B>(s, c.i2c_addr, c.regs, ops, file, 0x1c);
    shadow::programs_reach_the_chip::<B>(s, c.i2c_addr, c.regs, ops, file, 0x1d);
    shadow::programs_reach_the_chip::<B>(s, c.i2c_addr, c.regs, ops, file, 0x1e);
    shadow::programs_reach_the_chip::<B>(s, c.i2c_addr, c.regs, ops, file, 0x22);
    side_left(c, sys, prm, rf_freq, (c.regs[0x13], start[0x13]));
    let lo_freq = lo_of(c.mixer_mode, rf_freq, sys.if_freq);
    let before = fields::front_program(c.mixer_mode, prm) + fields::middle_program(c.chip, prm)
        + fields::discharge_program(prm) + fields::back_program(
        c.config,
        sys.system,
        prm,
        rf_freq,
    ) + c.mux_program(lo_freq, Some(sys.system));
    let pll = pll::pll_program(
        c.config.xtal,
        c.chip,
        c.xtal_pwr,
        lo_freq,
        sys.if_freq,
        Some(sys.system),
    );
    assert(ops == before + pll) by {
        reveal(Chip::tuning_program);
    }
    let regs = Seq::new(
        48,
        |r: int| shadow::at_end((c.regs[r], start[r]), before, r as u8).0,
    );
    let chip = Seq::new(
        48,
        |r: int| shadow::at_end((c.regs[r], start[r]), before, r as u8).1,
    );
    shadow::at_end_of_both((c.regs[0x1b], start[0x1b]), before, pll, 0x1b);
    shadow::at_end_of_both((c.regs[0x1c], start[0x1c]), before, pll, 0x1c);
    shadow::at_end_of_both((c.regs[0x1d], start[0x1d]), before, pll, 0x1d);
    shadow::at_end_of_both((c.regs[0x1e], start[0x1e]), before, pll, 0x1e);
    shadow::at_end_of_both((c.regs[0x22], start[0x22]), before, pll, 0x22);
    pll::oscillator_is_set(
        c.config.xtal,
        c.chip,
        c.xtal_pwr,
        lo_freq,
        sys.if_freq,
        Some(sys.system),
        regs,
        chip,
    );
    assert((left[0x13] & 0x10 != 0) == (c.mixer_mode != 0));
    assert(lo_freq == oscillator_for(rf_freq, sys.if_freq, left[0x13]));
    assert(left[0x1b] == pll::left_in(regs, chip, pll, 0x1b));
    assert(left[0x1c] == pll::left_in(regs, chip, pll, 0x1c));
    assert(left[0x1d] == pll::left_in(regs, chip, pll, 0x1d));
    assert(left[0x1e] == pll::left_in(regs, chip, pll, 0x1e));
    assert(left[0x22] == pll::left_in(regs, chip, pll, 0x22));
}

/// What a chip stays told: its address, its configuration and the system and mode it was
/// given last.
pub open spec fn same_orders(a: Chip, b: Chip) -> bool {
    &&& a.i2c_addr == b.i2c_addr
    &&& a.config == b.config
    &&& a.chip == b.chip
    &&& a.xtal_pwr == b.xtal_pwr
    &&& a.sys == b.sys
    &&& a.sys_curr == b.sys_curr
    &&& a.mixer_mode == b.mixer_mode
}

proof fn rings_keep_orders<B: I2c>(s: B::State, c: Chip, k: int)
    ensures
        same_orders(rings_from::<B>(s, c, k).1, c),
    decreases 5 - k,
{
    if 0 <= k < 5 {
        let (s1, c1, r1) = ring_calibrated::<B>(s, c, RING_ORDER@[k]);
        assert(same_orders(c1, c));
        if r1 is Ok {
            rings_keep_orders::<B>(s1, c1, k + 1);
        }
    }
}

proof fn filter_fits(prm: tables::SystemParams, lpf: Lpf, chip: usize)
    ensures
        shadow::fits(fields::filter_program(prm, lpf, chip), 48),
{
    broadcast use {
        crate::shadow::fits_nothing,
        crate::shadow::fits_one_more,
        crate::shadow::fits_both,
    };

    reveal(fields::filter_program);
}

proof fn filter_keeps_orders<B: I2c>(s: B::State, c: Chip, if_freq: u32, bw: u8, gap: u8)
    ensures
        same_orders(lpf_calibrated::<B>(s, c, if_freq, bw, gap).1, c),
{
}

proof fn filter_leaves_registers<B: I2c>(
    s: B::State,
    addr: u8,
    regs: Seq<u8>,
    prm: tables::SystemParams,
    lpf: Lpf,
    chip: usize,
    file: spec_fn(B::State) -> Seq<u8>,
)
    requires
        shadow::takes_writes::<B>(addr, file),
        file(s).len() == 48,
        regs.len() == 48,
        shadow::run::<B>(s, addr, regs, fields::filter_program(prm, lpf, chip)).2 is Ok,
    ensures
        shadow::run::<B>(s, addr, regs, fields::filter_program(prm, lpf, chip)).1.len() == 48,
{
    filter_fits(prm, lpf, chip);
    shadow::programs_reach_the_chip::<B>(
        s,
        addr,
        regs,
        fields::filter_program(prm, lpf, chip),
        file,
        0,
    );
}

proof fn applied_is_ready<B: I2c>(
    s: B::State,
    c: Chip,
    sys: SystemConfig,
    file: spec_fn(B::State) -> Seq<u8>,
)
    requires
        shadow::takes_writes::<B>(c.i2c_addr, file),
        forall|s: B::State| (#[trigger] file(s)).len() == 48,
        system_applied::<B>(s, c, sys).2 is Ok,
    ensures
        same_orders(Chip { sys_curr: c.sys_curr, ..system_applied::<B>(s, c, sys).1 }, c),
        system_applied::<B>(s, c, sys).1.sys_curr == Some(sys),
        system_applied::<B>(s, c, sys).1.regs.len() == 48,
{
    let prm = tables::first_system(
        tables::system_rows(sys.system, c.chip),
        sys.bandwidth,
        sys.if_freq,
        0,
    )->0;
    let start = c.with_regs(tables::lpf_cal_values());
    filter_keeps_orders::<B>(s, start, prm.filt_cal_if, prm.bw, 2);
    let (s2, c2, r2) = if c.config.no_lpf_calibration {
        (s, c, Ok(prm.lpf))
    } else {
        lpf_calibrated::<B>(s, start, prm.filt_cal_if, prm.bw, 2)
    };
    assert(tables::init_values().len() == 48) by {
        reveal(tables::init_values);
    }
    assert(same_orders(c2, c));
    filter_leaves_registers::<B>(
        s2,
        c.i2c_addr,
        tables::init_values(),
        prm,
        r2->Ok_0,
        c.chip,
        file,
    );
}

/// Whether a system is received with the oscillator above the frequency.
pub open spec fn from_above(system: System) -> bool {
    system == System::J83b || system == System::Dtmb || system == System::Atsc
}

/// Whether a chip was told to receive a system: the side its oscillator is on is that of
/// the system, and what it has applied is complete.
pub open spec fn is_told(c: Chip, sys: SystemConfig) -> bool {
    &&& c.init
    &&& c.sys == Some(sys)
    &&& (c.mixer_mode == 0) == from_above(sys.system)
    &&& c.sys_curr == Some(sys) ==> !c.wants_imr()
}

/// A chip that a system is set on was told to receive it.
pub proof fn setting_a_system_tells_it(c: Chip, sys: SystemConfig)
    requires
        c.init,
    ensures
        is_told(chosen(c, sys).0, sys),
        chosen(c, sys).1 is Ok,
{
}

/// A chip that was told to receive a system and is tuned is on the frequency: for J.83 B,
/// DTMB and ATSC its oscillator stands one intermediate frequency above it, for the others
/// one below.
pub proof fn systems_are_received_on_their_side<B: I2c>(
    s: B::State,
    c: Chip,
    sys: SystemConfig,
    freq: u32,
    file: spec_fn(B::State) -> Seq<u8>,
)
    requires
        c.wf(),
        is_told(c, sys),
        17_400 <= c.config.xtal < 0x8000,
        c.config.xtal % 4 == 0,
        sys.if_freq <= 6_000,
        shadow::takes_writes::<B>(c.i2c_addr, file),
        forall|s: B::State| (#[trigger] file(s)).len() == 48,
        tuned::<B>(s, c, freq).2 is Ok,
    ensures
        40_000 <= freq <= 1_002_000,
        stands_for(
            file(tuned::<B>(s, c, freq).0),
            c.config.xtal,
            if from_above(sys.system) {
                freq + sys.if_freq
            } else {
                freq - sys.if_freq
            },
        ),
        tuned::<B>(s, c, freq).1.sys_curr == Some(sys),
{
    reveal(tuned);
    let (s1, c1, r1) = if c.wants_imr() {
        rings_from::<B>(s, c.with_regs(tables::imr_cal_values()), 0)
    } else {
        (s, c, Ok(()))
    };
    rings_keep_orders::<B>(s, c.with_regs(tables::imr_cal_values()), 0);
    assert(same_orders(c1, c));
    if c1.sys_curr == Some(sys) {
        tuning_lands_on_the_frequency::<B>(s1, c1, sys, freq, file);
    } else {
        let (s3, c3, r3) = system_applied::<B>(s1, c1, sys);
        assert(r1 is Ok && r3 is Ok);
        applied_is_ready::<B>(s1, c1, sys, file);
        tuning_lands_on_the_frequency::<B>(s3, c3, sys, freq, file);
    }
}

/// Tuning a chip changes nothing that it was told.
pub proof fn tuning_keeps_orders<B: I2c>(s: B::State, c: Chip, freq: u32)
    requires
        tuned::<B>(s, c, freq).2 is Ok,
    ensures
        same_orders(Chip { sys_curr: c.sys_curr, ..tuned::<B>(s, c, freq).1 }, c),
{
    reveal(tuned);
    let start = c.with_regs(tables::imr_cal_values());
    rings_keep_orders::<B>(s, start, 0);
    let (s1, c1, r1) = if c.wants_imr() {
        rings_from::<B>(s, start, 0)
    } else {
        (s, c, Ok(()))
    };
    let sys = c.sys->0;
    if c1.sys_curr != Some(sys) {
        applying_keeps_orders::<B>(s1, c1, sys);
    }
}

proof fn applying_keeps_orders<B: I2c>(s: B::State, c: Chip, sys: SystemConfig)
    ensures
        same_orders(
            Chip { sys_curr: c.sys_curr, ..system_applied::<B>(s, c, sys).1 },
            c,
        ),
{
    let prm = tables::first_system(
        tables::system_rows(sys.system, c.chip),
        sys.bandwidth,
        sys.if_freq,
        0,
    )->0;
    let start = c.with_regs(tables::lpf_cal_values());
    filter_keeps_orders::<B>(s, start, prm.filt_cal_if, prm.bw, 2);
}

/// The PLL is locked if bit 6 of register 2 is set.
pub proof fn lock_is_read<B: I2c>(
    s: B::State,
    addr: u8,
    file: spec_fn(B::State) -> Seq<u8>,
)
    requires
        shadow::sends_mirrored::<B>(addr, file),
    ensures
        pll_lock::<B>(s, addr).1 matches Ok(locked) ==> locked == (file(s)[2] / 64 % 2 == 1),
{
    if shadow::read_one::<B>(s, addr, 2).1 is Ok {
        shadow::registers_are_read::<B>(s, addr, 2, 1, 0, file);
    }
    let v = file(s)[2];
    assert((v & 0x40 != 0) == (v / 64 % 2 == 1)) by (bit_vector);
}

} // verus!
