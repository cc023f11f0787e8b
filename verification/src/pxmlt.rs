//! The PX-MLT series and its kin: an IT930x with up to five CXD2856ER and
//! CXD2858ER pairs, every tuner receiving both ISDB-T and ISDB-S.

use vstd::prelude::*;

use crate::board;
use crate::board::{power_backend, Lock, LNB_GPIO};
use crate::cxd2856er;
use crate::cxd2856er::{Cxd2856er, Mode};
use crate::cxd2858er;
use crate::cxd2858er::Cxd2858er;
use crate::error::Error;
use crate::it930x;
use crate::it930x::{Bridge, I2cBus, Input, It930x, Wire};
use crate::px4;
use crate::px4::set_lnb_gpio;
use crate::single;
use crate::single::set_gpios;
use crate::stream;
use crate::stream::Packet;
use crate::traits::{I2c, Ran};
use crate::types::{Cnr, Signal, StreamId, System, TuneParams};
use crate::usb::UsbTransport;

pub mod laws;

verus! {

pub const GPIO_BACKEND_RESET: u8 = 7;

/// What is set on a demodulator once it is initialised: register, value, mask.
pub const DEMOD_SETUP: [(u8, u8, u8); 11] = [
    (0x00, 0x00, 0xff),
    (0xc4, 0x80, 0x88),
    (0xc5, 0x01, 0x01),
    (0xc6, 0x03, 0x1f),
    (0x00, 0x60, 0xff),
    (0x52, 0x03, 0x1f),
    (0x00, 0x00, 0xff),
    (0xc8, 0x03, 0x1f),
    (0xc9, 0x03, 0x1f),
    (0x00, 0xa0, 0xff),
    (0xb9, 0x01, 0x01),
];

/// The chips of a tuner.
#[derive(Clone, Copy, Debug, PartialEq, Eq, Structural)]
pub struct Chip {
    pub demod: Cxd2856er,
    pub tuner: Cxd2858er,
    pub i2c_bus: u8,
    pub lnb: bool,
}

/// A device of the series.
pub struct PxMlt<T> {
    /// The bridge, and the I2C bus used last.
    pub bus: I2cBus<T>,
    pub chips: Vec<Chip>,
    /// How many tuners are open.
    pub open_count: usize,
    /// How many tuners want the LNB supply.
    pub lnb_count: usize,
}

/// What a [`PxMlt`] holds.
#[verifier::ext_equal]
pub struct PxMltModel<S> {
    pub wire: Wire<S>,
    pub chips: Seq<Chip>,
    pub open_count: usize,
    pub lnb_count: usize,
}

impl<T: UsbTransport> View for PxMlt<T> {
    type V = PxMltModel<T::State>;

    open spec fn view(&self) -> PxMltModel<T::State> {
        PxMltModel {
            wire: self.bus.state(),
            chips: self.chips@,
            open_count: self.open_count,
            lnb_count: self.lnb_count,
        }
    }
}

impl<S> PxMltModel<S> {
    /// The bus a tuner is on.
    pub open spec fn wire_to(self, i: int) -> Wire<S> {
        Wire { bus: self.chips[i].i2c_bus, ..self.wire }
    }

    /// A tuner after something was done to it over its bus.
    pub open spec fn with_chip(self, i: int, wire: Wire<S>, chip: Chip) -> Self {
        PxMltModel { wire, chips: self.chips.update(i, chip), ..self }
    }

    /// The bridge after something was done on it.
    pub open spec fn with_bridge(self, bridge: Bridge<S>) -> Self {
        PxMltModel { wire: Wire { bridge, ..self.wire }, ..self }
    }
}

/// What initialising the chips of a tuner does and gives.
pub open spec fn chip_inited<B: I2c>(s: B::State, c: Chip) -> (B::State, Chip, Result<(), Error>) {
    let demod = Cxd2856er { mode: None, ..c.demod };
    let c1 = Chip { demod, ..c };
    let (s1, r1) = cxd2856er::started::<B>(cxd2856er::begun(s), demod);
    match r1 {
        Err(e) => (s1, c1, Err(e)),
        Ok(_) => {
            let c2 = Chip { tuner: Cxd2858er { mode: None }, ..c1 };
            let p2 = cxd2856er::gated::<B>(s1, demod, true);
            let (s3, r3) = match p2.1 {
                Err(e) => (p2.0, Err(e)),
                Ok(_) => cxd2858er::closed::<B>(cxd2858er::powered::<B>(p2.0), demod),
            };
            match r3 {
                Err(e) => (s3, c2, Err(e)),
                Ok(_) => {
                    let (s4, r4) = cxd2856er::set_up::<B>(
                        cxd2856er::begun(s3),
                        demod,
                        DEMOD_SETUP@,
                    );
                    (s4, c2, r4)
                },
            }
        },
    }
}

fn init_chip<B: I2c>(i2c: &mut B, chip: &mut Chip) -> (r: Result<(), Error>)
    ensures
        (final(i2c).state(), *final(chip), r) == chip_inited::<B>(old(i2c).state(), *old(chip)),
{
    match chip.demod.init(i2c) {
        Ok(_) => {},
        Err(e) => return Err(e),
    }
    let demod: Cxd2856er = chip.demod;
    match chip.tuner.init(i2c, &demod) {
        Ok(_) => {},
        Err(e) => return Err(e),
    }
    demod.setup(i2c, &DEMOD_SETUP)
}

/// What setting the chips of a tuner on a signal does and gives.
pub open spec fn chip_tuned<B: I2c>(
    s: B::State,
    c: Chip,
    mode: Mode,
    khz: u32,
    stream_id: Option<StreamId>,
) -> (B::State, Chip, Result<(), Error>) {
    let (s1, r1) = match stream_id {
        Some(id) => cxd2856er::tsid_set::<B>(s, c.demod, id.0),
        None => (s, Ok(())),
    };
    match r1 {
        Err(e) => (s1, c, Err(e)),
        Ok(_) => {
            let (s2, demod, r2) = cxd2856er::woken::<B>(s1, c.demod, mode);
            let c2 = Chip { demod, ..c };
            match r2 {
                Err(e) => (s2, c2, Err(e)),
                Ok(_) => {
                    let (s3, tuner, r3) = cxd2858er::tuned::<B>(s2, c.tuner, demod, mode, khz);
                    let c3 = Chip { tuner, ..c2 };
                    match r3 {
                        Err(e) => (s3, c3, Err(e)),
                        Ok(_) => {
                            let (s4, r4) = cxd2856er::post_tune_done::<B>(
                                cxd2856er::begun(s3),
                                demod,
                            );
                            (s4, c3, r4)
                        },
                    }
                },
            }
        },
    }
}

fn tune_chip<B: I2c>(
    i2c: &mut B,
    chip: &mut Chip,
    mode: Mode,
    khz: u32,
    stream_id: Option<StreamId>,
) -> (r: Result<(), Error>)
    requires
        mode == Mode::S ==> khz <= u32::MAX - 2,
    ensures
        (final(i2c).state(), *final(chip), r) == chip_tuned::<B>(
            old(i2c).state(),
            *old(chip),
            mode,
            khz,
            stream_id,
        ),
{
    match stream_id {
        Some(id) => match chip.demod.set_tsid(i2c, id.0) {
            Ok(_) => {},
            Err(e) => return Err(e),
        },
        None => {},
    }
    match chip.demod.wakeup(i2c, mode) {
        Ok(_) => {},
        Err(e) => return Err(e),
    }
    let demod: Cxd2856er = chip.demod;
    let r: Result<(), Error> = match mode {
        Mode::T => chip.tuner.tune_t(i2c, &demod, khz),
        Mode::S => chip.tuner.tune_s(i2c, &demod, khz),
    };
    match r {
        Ok(_) => {},
        Err(e) => return Err(e),
    }
    demod.post_tune(i2c)
}

/// What ending the chips of a tuner does: what fails is passed over.
pub open spec fn chip_ended<B: I2c>(s: B::State, c: Chip) -> (B::State, Chip) {
    let (s1, tuner) = match c.tuner.mode {
        None => (s, c.tuner),
        Some(_) => {
            let p = cxd2856er::gated::<B>(s, c.demod, true);
            match p.1 {
                Err(_) => (p.0, c.tuner),
                Ok(_) => (
                    cxd2858er::closed::<B>(
                        cxd2858er::stopped::<B>(p.0, c.tuner.mode),
                        c.demod,
                    ).0,
                    Cxd2858er { mode: None },
                ),
            }
        },
    };
    let (s2, r2) = cxd2856er::slept::<B>(s1, c.demod);
    (s2, Chip { tuner, demod: Cxd2856er { mode: None, ..c.demod }, ..c })
}

fn end_chip<B: I2c>(i2c: &mut B, chip: &mut Chip)
    ensures
        (final(i2c).state(), *final(chip)) == chip_ended::<B>(old(i2c).state(), *old(chip)),
{
    let demod: Cxd2856er = chip.demod;
    let _ = chip.tuner.term(i2c, &demod);
    let _ = chip.demod.sleep(i2c);
}

/// What opening a tuner does and gives. The first powers the chips; if opening it
/// fails, the power goes off again.
pub open spec fn opened<T: UsbTransport>(m: PxMltModel<T::State>, i: int) -> Ran<
    PxMltModel<T::State>,
    (),
> {
    let first = m.open_count == 0;
    let (m1, r1) = if first {
        let (b, r) = board::powered::<T>(m.wire.bridge, GPIO_BACKEND_RESET, 80, true);
        (m.with_bridge(b), r)
    } else {
        (m, Ok(()))
    };
    match r1 {
        Err(e) => (m1, Err(e)),
        Ok(_) => {
            let (wire, chip, r2) = chip_inited::<I2cBus<T>>(m1.wire_to(i), m1.chips[i]);
            let m2 = m1.with_chip(i, wire, chip);
            match r2 {
                Ok(_) => (
                    PxMltModel { open_count: (m2.open_count + 1) as usize, ..m2 },
                    Ok(()),
                ),
                Err(e) => if first {
                    let (b, r3) = board::powered::<T>(
                        m2.wire.bridge,
                        GPIO_BACKEND_RESET,
                        80,
                        false,
                    );
                    (m2.with_bridge(b), Err(e))
                } else {
                    (m2, Err(e))
                },
            }
        },
    }
}

/// What closing a tuner does: its LNB supply is given up, its chips are ended,
/// and the last tuner switches the power off.
pub open spec fn closed<T: UsbTransport>(m: PxMltModel<T::State>, i: int) -> PxMltModel<T::State> {
    let (m1, r1) = lnb_switched::<T>(m, i, false);
    let (wire, chip) = chip_ended::<I2cBus<T>>(m1.wire_to(i), m1.chips[i]);
    let m2 = PxMltModel {
        open_count: (m1.open_count - 1) as usize,
        ..m1.with_chip(i, wire, chip)
    };
    if m2.open_count == 0 {
        m2.with_bridge(
            board::powered::<T>(m2.wire.bridge, GPIO_BACKEND_RESET, 80, false).0,
        )
    } else {
        m2
    }
}

/// What switching the LNB supply for a tuner does and gives: the GPIO is written
/// for the first tuner that wants it and for the last that does not any more. A
/// tuner that gives it up is counted out before the GPIO is written.
pub open spec fn lnb_switched<T: UsbTransport>(m: PxMltModel<T::State>, i: int, on: bool) -> Ran<
    PxMltModel<T::State>,
    (),
> {
    if m.chips[i].lnb == on {
        (m, Ok(()))
    } else {
        let m1 = if on {
            m
        } else {
            PxMltModel { lnb_count: (m.lnb_count - 1) as usize, ..m }
        };
        let (m2, r2) = if m1.lnb_count == 0 {
            let (b, r) = it930x::gpio_written::<T>(m1.wire.bridge, LNB_GPIO, on);
            (m1.with_bridge(b), r)
        } else {
            (m1, Ok(()))
        };
        match r2 {
            Err(e) => (m2, Err(e)),
            Ok(_) => (
                PxMltModel {
                    lnb_count: if on {
                        (m2.lnb_count + 1) as usize
                    } else {
                        m2.lnb_count
                    },
                    chips: m2.chips.update(i, Chip { lnb: on, ..m2.chips[i] }),
                    ..m2
                },
                Ok(()),
            ),
        }
    }
}

impl<T: UsbTransport> PxMlt<T> {
    /// Readies a tuner for use.
    pub fn open(&mut self, index: usize) -> (r: Result<(), Error>)
        requires
            index < old(self)@.chips.len(),
            old(self).open_count < usize::MAX,
        ensures
            (final(self)@, r) == opened::<T>(old(self)@, index as int),
            final(self)@.chips.len() == old(self)@.chips.len(),
    {
        let first: bool = self.open_count == 0;
        if first {
            match power_backend(&mut self.bus.it930x, GPIO_BACKEND_RESET, 80, true) {
                Ok(_) => {},
                Err(e) => return Err(e),
            }
        }
        let mut chip: Chip = self.chips[index];
        self.bus.bus = chip.i2c_bus;
        let r: Result<(), Error> = init_chip(&mut self.bus, &mut chip);
        self.chips.set(index, chip);
        match r {
            Ok(_) => {
                self.open_count = self.open_count + 1;
                Ok(())
            },
            Err(e) => {
                if first {
                    let _ = power_backend(&mut self.bus.it930x, GPIO_BACKEND_RESET, 80, false);
                }
                Err(e)
            },
        }
    }

    /// Puts a tuner back to rest; it cannot fail, as there is no one to tell.
    pub fn close(&mut self, index: usize)
        requires
            index < old(self)@.chips.len(),
            old(self).open_count > 0,
            old(self)@.chips[index as int].lnb ==> old(self).lnb_count > 0,
        ensures
            final(self)@ == closed::<T>(old(self)@, index as int),
            final(self)@.chips.len() == old(self)@.chips.len(),
    {
        let _ = self.set_lnb(index, false);
        let mut chip: Chip = self.chips[index];
        self.bus.bus = chip.i2c_bus;
        end_chip(&mut self.bus, &mut chip);
        self.chips.set(index, chip);
        self.open_count = self.open_count - 1;
        if self.open_count == 0 {
            let _ = power_backend(&mut self.bus.it930x, GPIO_BACKEND_RESET, 80, false);
        }
    }

    /// Switches the LNB supply for a tuner.
    pub fn set_lnb(&mut self, index: usize, on: bool) -> (r: Result<(), Error>)
        requires
            index < old(self)@.chips.len(),
            old(self)@.chips[index as int].lnb && !on ==> old(self).lnb_count > 0,
            !old(self)@.chips[index as int].lnb && on ==> old(self).lnb_count < usize::MAX,
        ensures
            (final(self)@, r) == lnb_switched::<T>(old(self)@, index as int, on),
            final(self)@.chips.len() == old(self)@.chips.len(),
            final(self).open_count == old(self).open_count,
    {
        let mut chip: Chip = self.chips[index];
        if chip.lnb == on {
            return Ok(());
        }
        if !on {
            self.lnb_count = self.lnb_count - 1;
        }
        if self.lnb_count == 0 {
            match self.bus.it930x.write_gpio(LNB_GPIO, on) {
                Ok(_) => {},
                Err(e) => return Err(e),
            }
        }
        if on {
            self.lnb_count = self.lnb_count + 1;
        }
        chip.lnb = on;
        self.chips.set(index, chip);
        Ok(())
    }

    /// Sets the tuner and the demodulator on the signal.
    pub fn tune(&mut self, index: usize, mode: Mode, khz: u32, stream_id: Option<StreamId>) -> (r:
        Result<(), Error>)
        requires
            index < old(self)@.chips.len(),
            mode == Mode::S ==> khz <= u32::MAX - 2,
        ensures
            ({
                let m = old(self)@;
                let i = index as int;
                let (wire, chip, tuned) = chip_tuned::<I2cBus<T>>(
                    m.wire_to(i),
                    m.chips[i],
                    mode,
                    khz,
                    stream_id,
                );
                final(self)@ == m.with_chip(i, wire, chip) && r == tuned
            }),
    {
        let mut chip: Chip = self.chips[index];
        self.bus.bus = chip.i2c_bus;
        let r: Result<(), Error> = tune_chip(&mut self.bus, &mut chip, mode, khz, stream_id);
        self.chips.set(index, chip);
        r
    }

    /// Whether a tuner is locked on its signal, or has given up on it.
    pub fn lock(&mut self, index: usize) -> (r: Result<Lock, Error>)
        requires
            index < old(self)@.chips.len(),
        ensures
            ({
                let m = old(self)@;
                let i = index as int;
                let (wire, seen) = cxd2856er::lock_seen::<I2cBus<T>>(
                    m.wire_to(i),
                    m.chips[i].demod,
                );
                &&& final(self)@ == (PxMltModel { wire, ..m })
                &&& match seen {
                    Err(e) => r == Err::<Lock, Error>(e),
                    Ok((true, _)) => r == Ok::<Lock, Error>(Lock::Locked),
                    Ok((false, true)) => r == Ok::<Lock, Error>(Lock::Failed),
                    Ok((false, false)) => r == Ok::<Lock, Error>(Lock::Waiting),
                }
            }),
    {
        let chip: Chip = self.chips[index];
        self.bus.bus = chip.i2c_bus;
        match chip.demod.lock_status(&mut self.bus) {
            Ok((locked, gave_up)) => if locked {
                Ok(Lock::Locked)
            } else if gave_up {
                Ok(Lock::Failed)
            } else {
                Ok(Lock::Waiting)
            },
            Err(e) => Err(e),
        }
    }

    /// The signal of a tuner that was tuned to a system.
    pub fn signal(&mut self, index: usize, mode: Mode) -> (r: Result<Signal, Error>)
        requires
            index < old(self)@.chips.len(),
        ensures
            ({
                let m = old(self)@;
                let demod = m.chips[index as int].demod;
                let (w1, seen) = cxd2856er::lock_seen::<I2cBus<T>>(
                    m.wire_to(index as int),
                    demod,
                );
                match seen {
                    Err(e) => final(self)@ == (PxMltModel { wire: w1, ..m }) && r == Err::<
                        Signal,
                        Error,
                    >(e),
                    Ok((locked, _)) => {
                        let (w2, raw) = cxd2856er::cnr_seen::<I2cBus<T>>(w1, demod);
                        &&& final(self)@ == (PxMltModel { wire: w2, ..m })
                        &&& match raw {
                            Err(e) => r == Err::<Signal, Error>(e),
                            Ok(v) => r == Ok::<Signal, Error>(
                                Signal { locked, cnr: Some(raw_cnr(mode, v)) },
                            ),
                        }
                    },
                }
            }),
    {
        let chip: Chip = self.chips[index];
        self.bus.bus = chip.i2c_bus;
        let locked: bool = match chip.demod.lock_status(&mut self.bus) {
            Ok((locked, _)) => locked,
            Err(e) => return Err(e),
        };
        match chip.demod.cnr_raw(&mut self.bus) {
            Ok(raw) => Ok(
                Signal {
                    locked,
                    cnr: Some(
                        match mode {
                            Mode::T => Cnr::IsdbT(raw as u32),
                            Mode::S => Cnr::IsdbS(raw),
                        },
                    ),
                },
            ),
            Err(e) => Err(e),
        }
    }
}

/// The C/N of a demodulator, by the system it runs.
pub open spec fn raw_cnr(mode: Mode, raw: u16) -> Cnr {
    match mode {
        Mode::T => Cnr::IsdbT(raw as u32),
        Mode::S => Cnr::IsdbS(raw),
    }
}

/// How many tuners want the LNB supply.
pub open spec fn wanting(chips: Seq<Chip>) -> nat
    decreases chips.len(),
{
    if chips.len() == 0 {
        0
    } else {
        wanting(chips.drop_last()) + if chips.last().lnb {
            1nat
        } else {
            0nat
        }
    }
}

proof fn wanting_after(chips: Seq<Chip>, i: int, chip: Chip)
    requires
        0 <= i < chips.len(),
    ensures
        wanting(chips.update(i, chip)) + (if chips[i].lnb {
            1int
        } else {
            0
        }) == wanting(chips) + (if chip.lnb {
            1int
        } else {
            0
        }),
    decreases chips.len(),
{
    let after = chips.update(i, chip);
    if i == chips.len() - 1 {
        assert(after.drop_last() =~= chips.drop_last());
    } else {
        assert(after.drop_last() =~= chips.drop_last().update(i, chip));
        wanting_after(chips.drop_last(), i, chip);
    }
}

/// The count of the tuners that want the LNB supply stays right through every
/// switch that succeeds.
pub proof fn lnb_count_stays_right<T: UsbTransport>(m: PxMltModel<T::State>, i: int, on: bool)
    requires
        0 <= i < m.chips.len(),
        m.lnb_count == wanting(m.chips),
        m.lnb_count < usize::MAX,
        lnb_switched::<T>(m, i, on).1 is Ok,
    ensures
        lnb_switched::<T>(m, i, on).0.lnb_count == wanting(lnb_switched::<T>(m, i, on).0.chips),
{
    if m.chips[i].lnb != on {
        wanting_after(m.chips, i, Chip { lnb: on, ..m.chips[i] });
    }
}

/// A tuner of the series.
#[derive(Clone, Copy, Debug, PartialEq, Eq, Structural)]
pub struct PxMltTuner {
    pub index: usize,
    /// The system last tuned to.
    pub mode: Option<Mode>,
}

/// What to tune to, or why not.
pub open spec fn plan(params: TuneParams) -> Result<(Mode, u32), Error> {
    if params.system.satellite() && params.stream_id is None {
        Err(Error::InvalidParams("a satellite stream needs a stream id"))
    } else if !params.system.satellite() && params.stream_id is Some {
        Err(Error::InvalidParams("ISDB-T takes no stream id"))
    } else {
        match params.system {
            System::IsdbT => Ok((Mode::T, params.frequency_khz)),
            System::IsdbS => match params.if_khz() {
                Ok(khz) => Ok((Mode::S, khz)),
                Err(e) => Err(e),
            },
            System::IsdbS3 => Err(Error::Unsupported(System::IsdbS3)),
        }
    }
}

impl PxMltTuner {
    /// Checks what to tune to; from here on the tuner counts as not tuned.
    pub fn begin(&mut self, params: &TuneParams) -> (r: Result<(Mode, u32), Error>)
        ensures
            r == plan(*params),
            *final(self) == if r is Ok {
                PxMltTuner { mode: None, ..*old(self) }
            } else {
                *old(self)
            },
    {
        match params.validate() {
            Ok(_) => {},
            Err(e) => return Err(e),
        }
        let found: (Mode, u32) = match params.system {
            System::IsdbT => (Mode::T, params.frequency_khz),
            System::IsdbS => match params.if_frequency_khz() {
                Ok(khz) => (Mode::S, khz),
                Err(e) => return Err(e),
            },
            System::IsdbS3 => return Err(Error::Unsupported(params.system)),
        };
        self.mode = None;
        Ok(found)
    }
}

/// The inputs of a layout: the TS of tuner `i` is tagged with `i + 1`.
pub open spec fn inputs_of(layout: Seq<(u8, u8, u8)>) -> Seq<Input> {
    layout.map(
        |i: int, l: (u8, u8, u8)|
            Input {
                port: l.2,
                slave: i as u8,
                i2c_bus: l.1,
                i2c_addr: l.0,
                sync_byte: (((i + 1) as u8) << 4) | 0x07,
            },
    )
}

/// The chips of a layout.
pub open spec fn chips_of(layout: Seq<(u8, u8, u8)>) -> Seq<Chip> {
    layout.map(
        |i: int, l: (u8, u8, u8)|
            Chip {
                demod: Cxd2856er { slvx: (l.0 + 2) as u8, slvt: l.0, mode: None },
                tuner: Cxd2858er { mode: None },
                i2c_bus: l.1,
                lnb: false,
            },
    )
}

/// What opening the bridge of a device does and gives.
pub open spec fn bridge_opened<T: UsbTransport>(
    b: Bridge<T::State>,
    layout: Seq<(u8, u8, u8)>,
    firmware: Seq<u8>,
) -> Ran<Bridge<T::State>, ()> {
    let (b1, r1) = board::bridge_opened::<T>(b, inputs_of(layout), firmware);
    match r1 {
        Err(e) => (b1, Err(e)),
        Ok(_) => {
            let (b2, r2) = single::gpios_set::<T>(b1, GPIO_BACKEND_RESET);
            match r2 {
                Err(e) => (b2, Err(e)),
                Ok(_) => px4::lnb_gpio_set::<T>(b2),
            }
        },
    }
}

/// Opens a device, given the address, I2C bus and TS port of the demodulator of
/// each tuner: its bridge is set up, its chips stay off.
pub fn open<T: UsbTransport>(
    usb: T,
    usb_version: u16,
    layout: &[(u8, u8, u8)],
    firmware: &[u8],
) -> (r: Result<PxMlt<T>, Error>)
    requires
        layout@.len() <= 5,
        forall|i: int| 0 <= i < layout@.len() ==> (#[trigger] layout@[i]).0 <= 0xfd,
    ensures
        ({
            let (b, opened) = bridge_opened::<T>(
                px4::fresh(usb.state(), usb_version),
                layout@,
                firmware@,
            );
            match opened {
                Err(e) => r == Err::<PxMlt<T>, Error>(e),
                Ok(_) => {
                    &&& r matches Ok(device)
                    &&& device@.wire == (Wire { bridge: b, bus: 1 })
                    &&& device@.chips == chips_of(layout@)
                    &&& device@.open_count == 0
                    &&& device@.lnb_count == 0
                },
            }
        }),
{
    let mut inputs: Vec<Input> = Vec::new();
    let mut chips: Vec<Chip> = Vec::new();
    let mut i: usize = 0;
    while i < layout.len()
        invariant
            i <= layout@.len() <= 5,
            forall|k: int| 0 <= k < layout@.len() ==> (#[trigger] layout@[k]).0 <= 0xfd,
            inputs@ =~= inputs_of(layout@).take(i as int),
            chips@ =~= chips_of(layout@).take(i as int),
        decreases layout@.len() - i,
    {
        let (i2c_addr, i2c_bus, port): (u8, u8, u8) = layout[i];
        assert(layout@[i as int].0 <= 0xfd);
        inputs.push(
            Input {
                port,
                slave: i as u8,
                i2c_bus,
                i2c_addr,
                sync_byte: ((i as u8 + 1) << 4) | 0x07,
            },
        );
        chips.push(
            Chip {
                demod: Cxd2856er::new(i2c_addr),
                tuner: Cxd2858er { mode: None },
                i2c_bus,
                lnb: false,
            },
        );
        i = i + 1;
    }
    assert(inputs@ =~= inputs_of(layout@));
    assert(chips@ =~= chips_of(layout@));
    let mut bridge: It930x<T> = match board::open_bridge(
        usb,
        usb_version,
        inputs.as_slice(),
        firmware,
    ) {
        Ok(bridge) => bridge,
        Err(e) => return Err(e),
    };
    match set_gpios(&mut bridge, GPIO_BACKEND_RESET) {
        Ok(_) => {},
        Err(e) => return Err(e),
    }
    match set_lnb_gpio(&mut bridge) {
        Ok(_) => {},
        Err(e) => return Err(e),
    }
    Ok(PxMlt { bus: bridge.i2c(1), chips, open_count: 0, lnb_count: 0 })
}

/// Splits the stream of the bridge into the 188-byte packets of each input,
/// telling them apart by the sync byte, 0x17 for the first input to 0x57 for
/// the fifth, and restoring it to 0x47. `carry` keeps what is left over for
/// the next call.
pub fn demux(carry: &mut Vec<u8>, data: &[u8]) -> (r: Vec<Packet>)
    ensures
        ({
            let buf = old(carry)@ + data@;
            let (packets, end) = stream::packets_from(buf, true, 0, false);
            &&& stream::contents(r@) == packets
            &&& 0 <= end <= buf.len()
            &&& final(carry)@ == buf.skip(end)
        }),
{
    stream::demux(carry, data, true)
}

/// The tuner is set on the frequency on air for ISDB-T, and for ISDB-S on that less the
/// oscillator of the LNB.
pub proof fn plans_follow_the_signal(params: TuneParams)
    ensures
        plan(params) matches Ok((mode, khz)) ==> match params.system {
            System::IsdbT => mode == Mode::T && khz == params.frequency_khz,
            System::IsdbS => mode == Mode::S && khz + (if params.polarization == Some(
                crate::types::Polarization::Left,
            ) {
                9_505_000int
            } else {
                10_678_000
            }) == params.frequency_khz,
            System::IsdbS3 => false,
        },
{
}

/// What a demodulator tells is the C/N of the system it runs, as it is.
pub proof fn cnr_is_of_the_system(raw: u16)
    ensures
        raw_cnr(Mode::T, raw) matches Cnr::IsdbT(v) && v == raw,
        raw_cnr(Mode::S, raw) == Cnr::IsdbS(raw),
{
}

/// The stream of each tuner is told apart by its place: the bridge marks the packets of
/// the demodulator of tuner `i` the way those of input `i` are known, takes them from the
/// port of that demodulator, and finds its registers where the tuner does.
pub proof fn streams_are_marked_by_place(layout: Seq<(u8, u8, u8)>, i: int)
    requires
        layout.len() <= 5,
        0 <= i < layout.len(),
        layout[i].0 <= 253,
    ensures
        ({
            let input = inputs_of(layout)[i];
            let chip = chips_of(layout)[i];
            &&& input.sync_byte == stream::tag_of(true, i as usize)
            &&& input.i2c_addr == layout[i].0 && input.i2c_bus == layout[i].1 && input.port
                == layout[i].2
            &&& input.slave == i
            &&& chip.demod.slvt == input.i2c_addr
            &&& chip.demod.slvx == input.i2c_addr + 2
            &&& chip.i2c_bus == input.i2c_bus
        }),
{
    let n = (i + 1) as u8;
    assert((n << 4) | 0x07 == 0x10 * n + 7) by (bit_vector)
        requires
            n <= 5,
    ;
}

} // verus!
