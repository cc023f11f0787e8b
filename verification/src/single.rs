//! The models with a single tuner: the PX-M1UR and Digibest ISDB2056/2056N,
//! switching between ISDB-T and ISDB-S, and the PX-S1UR and Digibest
//! ISDBT2071, receiving ISDB-T alone. Each has a TC90522 per system, with
//! an R850 and an RT710.

use vstd::prelude::*;

use crate::board;
use crate::board::{power_backend, Lock};
use crate::error::{error, Error};
use crate::it930x;
use crate::it930x::{Bridge, I2cBus, Input, It930x, Wire};
use crate::px4;
use crate::px4::{
    r850_config, r850_isdb_t, rt710_config, select_tsid, tune_r850, tune_rt710, R850_ADDR,
    RT710_ADDR, RT710_MAX_KHZ, TC_INIT_S, TC_INIT_T,
};
use crate::r850;
use crate::r850::R850;
use crate::rt710;
use crate::rt710::Rt710;
use crate::tc90522;
use crate::tc90522::{Relay, Tc90522, TunerBus};
use crate::traits;
use crate::traits::{delay_if_ok, reg_if_ok, I2c, Ran};
use crate::types::{Cnr, Signal, System, TuneParams};
use crate::usb::UsbTransport;

pub mod laws;

verus! {

pub const I2C_BUS: u8 = 3;

pub const GPIO_BACKEND_RESET: u8 = 3;

pub const TC_INIT_ISDBT2071: [(u8, u8); 17] = [
    (0x04, 0x00),
    (0x10, 0x00),
    (0x11, 0x2d),
    (0x12, 0x02),
    (0x13, 0x62),
    (0x14, 0x60),
    (0x15, 0x00),
    (0x16, 0x00),
    (0x1d, 0x05),
    (0x1e, 0x15),
    (0x1f, 0x40),
    (0x30, 0x20),
    (0x31, 0x0b),
    (0x32, 0x8f),
    (0x34, 0x0f),
    (0x38, 0x01),
    (0x39, 0x1c),
];

/// What is set before tuning the PX-S1UR.
pub const TUNE_S1UR: [(u8, u8); 5] = [
    (0x0e, 0x77),
    (0x0f, 0x10),
    (0x71, 0x20),
    (0x76, 0x0c),
    (0x1f, 0x30),
];

/// What is set before tuning the ISDBT2071.
pub const TUNE_ISDBT2071: [(u8, u8); 5] = [
    (0x76, 0x03),
    (0x77, 0x01),
    (0x3b, 0x10),
    (0x3c, 0x10),
    (0x3d, 0x24),
];

#[derive(Clone, Copy, Debug, PartialEq, Eq, Structural)]
pub enum Model {
    M1ur,
    Isdb2056,
    Isdb2056n,
    S1ur,
    Isdbt2071,
}

impl Model {
    /// Whether the model receives ISDB-S.
    pub open spec fn satellite(self) -> bool {
        self == Model::M1ur || self == Model::Isdb2056 || self == Model::Isdb2056n
    }

    /// The demodulator of ISDB-T.
    pub open spec fn demod_t(self) -> Tc90522 {
        Tc90522 {
            addr: if self == Model::Isdbt2071 {
                0x18
            } else {
                0x10
            },
            is_secondary: false,
        }
    }

    /// The demodulator of ISDB-S, which the ISDBT2071 has not.
    pub open spec fn demod_s(self) -> Option<Tc90522> {
        match self {
            Model::Isdbt2071 => None,
            Model::Isdb2056n => Some(Tc90522 { addr: 0x13, is_secondary: true }),
            _ => Some(Tc90522 { addr: 0x11, is_secondary: false }),
        }
    }

    /// The second ISDB-S demodulator, of the ISDB2056N.
    pub open spec fn demod_s0(self) -> Option<Tc90522> {
        if self == Model::Isdb2056n {
            Some(Tc90522 { addr: 0x11, is_secondary: false })
        } else {
            None
        }
    }

    fn find_demod_t(self) -> (r: Tc90522)
        ensures
            r == self.demod_t(),
    {
        Tc90522::new(
            match self {
                Model::Isdbt2071 => 0x18,
                _ => 0x10,
            },
        )
    }

    fn find_demod_s(self) -> (r: Option<Tc90522>)
        ensures
            r == self.demod_s(),
    {
        match self {
            Model::Isdbt2071 => None,
            Model::Isdb2056n => Some(Tc90522 { addr: 0x13, is_secondary: true }),
            _ => Some(Tc90522::new(0x11)),
        }
    }

    fn find_demod_s0(self) -> (r: Option<Tc90522>)
        ensures
            r == self.demod_s0(),
    {
        match self {
            Model::Isdb2056n => Some(Tc90522::new(0x11)),
            _ => None,
        }
    }

    /// The systems the tuner of the model receives.
    pub fn systems(self) -> (r: Vec<System>)
        ensures
            r@ == if self.satellite() {
                seq![System::IsdbT].push(System::IsdbS)
            } else {
                seq![System::IsdbT]
            },
    {
        let mut systems: Vec<System> = Vec::new();
        systems.push(System::IsdbT);
        match self {
            Model::M1ur | Model::Isdb2056 | Model::Isdb2056n => systems.push(System::IsdbS),
            _ => {},
        }
        systems
    }
}

/// A device with a single tuner.
pub struct Single<T> {
    pub model: Model,
    /// The bridge, its I2C bus, and the relay to the tuner used last.
    pub bus: TunerBus<I2cBus<T>>,
    pub demod_t: Tc90522,
    /// Absent on the ISDBT2071.
    pub demod_s: Option<Tc90522>,
    /// The second ISDB-S demodulator of the ISDB2056N.
    pub demod_s0: Option<Tc90522>,
    pub r850: R850,
    /// Absent on the ISDB-T models.
    pub rt710: Option<Rt710>,
    /// The system last tuned to.
    pub system: Option<System>,
}

/// What a [`Single`] holds.
pub struct SingleModel<S> {
    pub model: Model,
    pub relay: Relay<Wire<S>>,
    pub demod_t: Tc90522,
    pub demod_s: Option<Tc90522>,
    pub demod_s0: Option<Tc90522>,
    pub r850: r850::Chip,
    pub rt710: Option<Rt710>,
    pub system: Option<System>,
}

impl<T: UsbTransport> View for Single<T> {
    type V = SingleModel<T::State>;

    open spec fn view(&self) -> SingleModel<T::State> {
        SingleModel {
            model: self.model,
            relay: self.bus.state(),
            demod_t: self.demod_t,
            demod_s: self.demod_s,
            demod_s0: self.demod_s0,
            r850: self.r850@,
            rt710: self.rt710,
            system: self.system,
        }
    }
}

impl<S> SingleModel<S> {
    /// The demodulators are those of the model, and the tuners can be set, with
    /// crystals of 24 MHz.
    pub open spec fn wf(self) -> bool {
        &&& self.r850.wf()
        &&& self.r850.config.xtal == 24000
        &&& self.demod_t == self.model.demod_t()
        &&& self.demod_s == self.model.demod_s()
        &&& self.demod_s0 == self.model.demod_s0()
        &&& self.rt710 is Some == self.model.satellite()
        &&& self.rt710 matches Some(t) ==> t.config.xtal == 24000
    }

    /// The bus of the demodulators.
    pub open spec fn wire(self) -> Wire<S> {
        Wire { bus: I2C_BUS, ..self.relay.bus }
    }

    /// The bus of the demodulators after something was done on it.
    pub open spec fn with_wire(self, wire: Wire<S>) -> Self {
        SingleModel { relay: Relay { bus: wire, ..self.relay }, ..self }
    }

    /// The bridge after something was done on it.
    pub open spec fn with_bridge(self, bridge: Bridge<S>) -> Self {
        self.with_wire(Wire { bridge, ..self.relay.bus })
    }
}

/// What initialising the tuners does and gives.
pub open spec fn tuners_inited<T: UsbTransport>(m: SingleModel<T::State>) -> Ran<
    SingleModel<T::State>,
    (),
> {
    let (t1, c, r1) = r850::inited::<TunerBus<I2cBus<T>>>(
        Relay { addr: m.demod_t.addr, bus: m.wire() },
        m.r850,
    );
    let m1 = SingleModel { relay: t1, r850: c, ..m };
    match r1 {
        Err(e) => (m1, Err(e)),
        Ok(_) => match (m.rt710, m.demod_s) {
            (Some(rt710), Some(demod_s)) => {
                let (t2, rt, r2) = rt710::inited::<TunerBus<I2cBus<T>>>(
                    Relay { addr: demod_s.addr, bus: t1.bus },
                    rt710,
                );
                (SingleModel { relay: t2, rt710: Some(rt), ..m1 }, r2)
            },
            _ => (m1, Ok(())),
        },
    }
}

/// The ISDB-T demodulator initialised: asleep until tuned to ISDB-T, where there
/// is another system.
pub open spec fn demod_t_inited<B: I2c>(s: B::State, model: Model) -> Ran<B::State, ()> {
    let addr = model.demod_t().addr;
    let p = tc90522::regs_then::<B>(
        (s, Ok(())),
        addr,
        if model == Model::Isdbt2071 {
            TC_INIT_ISDBT2071@
        } else {
            TC_INIT_T@
        },
    );
    let p = traits::reg_then::<B>(p, addr, 0x1d, tc90522::ts_pins_t_value(false));
    traits::reg_then::<B>(p, addr, 0x03, tc90522::sleep_t_value(model.satellite()))
}

/// The ISDB-S demodulator initialised, if there is one, and put to sleep.
pub open spec fn demod_s_inited<B: I2c>(s: B::State, model: Model) -> Ran<B::State, ()> {
    match model.demod_s() {
        None => (s, Ok(())),
        Some(demod_s) => {
            let p0 = (s, Ok(()));
            let p = if model.satellite() {
                tc90522::regs_then::<B>(p0, demod_s.addr, TC_INIT_S@)
            } else {
                p0
            };
            let p = tc90522::regs_then::<B>(p, demod_s.addr, tc90522::ts_pins_s_regs(false));
            tc90522::regs_then::<B>(p, demod_s.addr, tc90522::sleep_s_regs(true))
        },
    }
}

/// What initialising the device does and gives.
pub open spec fn inited<T: UsbTransport>(m: SingleModel<T::State>) -> Ran<
    SingleModel<T::State>,
    (),
> {
    let (m1, r1) = tuners_inited::<T>(m);
    match r1 {
        Err(e) => (m1, Err(e)),
        Ok(_) => {
            let (w2, r2) = demod_t_inited::<I2cBus<T>>(m1.relay.bus, m.model);
            let m2 = m1.with_wire(w2);
            match r2 {
                Err(e) => (m2, Err(e)),
                Ok(_) => {
                    let (c, r3) = r850::chosen(m2.r850, px4::isdb_t());
                    let m3 = SingleModel { r850: c, ..m2 };
                    match r3 {
                        Err(e) => (m3, Err(e)),
                        Ok(_) => {
                            let (w4, r4) = demod_s_inited::<I2cBus<T>>(m3.relay.bus, m.model);
                            (m3.with_wire(w4), r4)
                        },
                    }
                },
            }
        },
    }
}

/// A device whose tuners are ended.
pub open spec fn ended<S>(m: SingleModel<S>) -> SingleModel<S> {
    SingleModel {
        r850: r850::ended(m.r850),
        rt710: match m.rt710 {
            Some(t) => Some(Rt710 { chip: None, ..t }),
            None => None,
        },
        ..m
    }
}

/// What switching the power does and gives.
pub open spec fn powered<T: UsbTransport>(m: SingleModel<T::State>, on: bool) -> Ran<
    SingleModel<T::State>,
    (),
> {
    let (b, r) = board::powered::<T>(m.relay.bus.bridge, GPIO_BACKEND_RESET, 100, on);
    (m.with_bridge(b), r)
}

/// What opening the tuner does and gives: it goes off again if that fails.
pub open spec fn opened<T: UsbTransport>(m: SingleModel<T::State>) -> Ran<
    SingleModel<T::State>,
    (),
> {
    let (m1, r1) = powered::<T>(m, true);
    match r1 {
        Err(e) => (m1, Err(e)),
        Ok(_) => {
            let (m2, r2) = inited::<T>(m1);
            match r2 {
                Err(e) => (powered::<T>(ended(m2), false).0, Err(e)),
                Ok(_) => (m2, Ok(())),
            }
        },
    }
}

impl<T: UsbTransport> Single<T> {
    fn power(&mut self, on: bool) -> (r: Result<(), Error>)
        requires
            old(self)@.wf(),
        ensures
            final(self)@.wf(),
            (final(self)@, r) == powered::<T>(old(self)@, on),
    {
        power_backend(&mut self.bus.i2c.it930x, GPIO_BACKEND_RESET, 100, on)
    }

    fn term(&mut self)
        requires
            old(self)@.wf(),
        ensures
            final(self)@.wf(),
            final(self)@ == ended(old(self)@),
    {
        self.r850.term();
        match self.rt710 {
            Some(t) => {
                let mut tuner: Rt710 = t;
                let _ = tuner.term();
                self.rt710 = Some(tuner);
            },
            None => {},
        }
    }

    fn init_tuners(&mut self) -> (r: Result<(), Error>)
        requires
            old(self)@.wf(),
        ensures
            final(self)@.wf(),
            (final(self)@, r) == tuners_inited::<T>(old(self)@),
    {
        self.bus.i2c.bus = I2C_BUS;
        self.bus.addr = self.demod_t.addr;
        match self.r850.init(&mut self.bus) {
            Ok(_) => {},
            Err(e) => return Err(e),
        }
        match (self.rt710, self.demod_s) {
            (Some(t), Some(demod_s)) => {
                let mut tuner: Rt710 = t;
                self.bus.addr = demod_s.addr;
                let r: Result<(), Error> = tuner.init(&mut self.bus);
                self.rt710 = Some(tuner);
                r
            },
            _ => Ok(()),
        }
    }

    fn init(&mut self) -> (r: Result<(), Error>)
        requires
            old(self)@.wf(),
        ensures
            final(self)@.wf(),
            (final(self)@, r) == inited::<T>(old(self)@),
    {
        match self.init_tuners() {
            Ok(_) => {},
            Err(e) => return Err(e),
        }
        let satellite: bool = self.rt710.is_some();
        let d: Tc90522 = self.demod_t;
        let r = if self.model == Model::Isdbt2071 {
            d.regs_if_ok(&mut self.bus.i2c, Ok(()), &TC_INIT_ISDBT2071)
        } else {
            d.regs_if_ok(&mut self.bus.i2c, Ok(()), &TC_INIT_T)
        };
        let r = reg_if_ok(&mut self.bus.i2c, r, d.addr, 0x1d, 0xa8);
        match reg_if_ok(
            &mut self.bus.i2c,
            r,
            d.addr,
            0x03,
            if satellite { 0xf0 } else { 0x00 },
        ) {
            Ok(_) => {},
            Err(e) => return Err(e),
        }
        let system: r850::SystemConfig = r850_isdb_t();
        match self.r850.set_system(system) {
            Ok(_) => {},
            Err(e) => return Err(e),
        }
        match self.demod_s {
            None => Ok(()),
            Some(demod_s) => {
                let r = if satellite {
                    demod_s.regs_if_ok(&mut self.bus.i2c, Ok(()), &TC_INIT_S)
                } else {
                    Ok(())
                };
                let r = demod_s.ts_pins_s_if_ok(&mut self.bus.i2c, r, false);
                demod_s.sleep_s_if_ok(&mut self.bus.i2c, r, true)
            },
        }
    }

    /// Readies the tuner for use.
    pub fn open(&mut self) -> (r: Result<(), Error>)
        requires
            old(self)@.wf(),
        ensures
            final(self)@.wf(),
            (final(self)@, r) == opened::<T>(old(self)@),
    {
        match self.power(true) {
            Ok(_) => {},
            Err(e) => return Err(e),
        }
        match self.init() {
            Ok(_) => Ok(()),
            Err(e) => {
                self.term();
                let _ = self.power(false);
                Err(e)
            },
        }
    }

    /// Puts the tuner back to rest; it cannot fail, as there is no one to tell.
    pub fn close(&mut self)
        requires
            old(self)@.wf(),
        ensures
            final(self)@.wf(),
            final(self)@ == (SingleModel {
                system: None,
                ..powered::<T>(ended(old(self)@), false).0
            }),
    {
        self.term();
        let _ = self.power(false);
        self.system = None;
    }
}

/// The demodulators made ready for the ISDB-T tuner to be set.
pub open spec fn ready_t<B: I2c>(s: B::State, model: Model) -> Ran<B::State, ()> {
    let addr = model.demod_t().addr;
    let p = traits::reg_then::<B>((s, Ok(())), addr, 0x47, 0x30);
    let p = tc90522::regs_then::<B>(p, addr, tc90522::agc_t_regs(false));
    match model {
        Model::S1ur => tc90522::regs_then::<B>(p, addr, TUNE_S1UR@),
        Model::Isdbt2071 => tc90522::regs_then::<B>(p, addr, TUNE_ISDBT2071@),
        _ => {
            let p = match model.demod_s() {
                Some(demod_s) => tc90522::regs_then::<B>(
                    p,
                    demod_s.addr,
                    tc90522::sleep_s_regs(true),
                ),
                None => p,
            };
            let p = tc90522::regs_then::<B>(
                p,
                addr,
                seq![(0x0eu8, 0x77u8), (0x0fu8, 0x10u8), (0x71u8, 0x20u8)],
            );
            let p = traits::reg_then::<B>(p, addr, 0x03, tc90522::sleep_t_value(false));
            tc90522::regs_then::<B>(p, addr, seq![(0x76u8, 0x0cu8), (0x1fu8, 0x30u8)])
        },
    }
}

/// The ISDB-T demodulator set on the signal, and given time.
pub open spec fn set_on_t<B: I2c>(s: B::State, model: Model) -> Ran<B::State, ()> {
    let addr = model.demod_t().addr;
    let p = tc90522::regs_then::<B>((s, Ok(())), addr, tc90522::agc_t_regs(true));
    let p = if model == Model::Isdbt2071 {
        p
    } else {
        tc90522::regs_then::<B>(
            p,
            addr,
            seq![(0x71u8, 0x01u8), (0x72u8, 0x25u8), (0x75u8, 0x00u8)],
        )
    };
    traits::delay_then::<B>(p, 100)
}

/// What setting the tuner on an ISDB-T signal does and gives.
pub open spec fn tuned_t<T: UsbTransport>(m: SingleModel<T::State>, khz: u32) -> Ran<
    SingleModel<T::State>,
    (),
> {
    let (w1, r1) = ready_t::<I2cBus<T>>(m.wire(), m.model);
    let m1 = SingleModel { relay: Relay { addr: m.demod_t.addr, bus: w1 }, ..m };
    match r1 {
        Err(e) => (m1, Err(e)),
        Ok(_) => if m.model.satellite() && !m.r850.init {
            (m1, r850::uninitialised())
        } else {
            let (relay, c, r2) = px4::r850_tuned::<TunerBus<I2cBus<T>>>(m1.relay, m.r850, khz);
            let m2 = SingleModel { relay, r850: c, ..m1 };
            match r2 {
                Err(e) => (m2, Err(e)),
                Ok(_) => {
                    let (w3, r3) = set_on_t::<I2cBus<T>>(relay.bus, m.model);
                    (m2.with_wire(w3), r3)
                },
            }
        },
    }
}

/// The demodulators made ready for the ISDB-S tuner to be set.
pub open spec fn ready_s<B: I2c>(s: B::State, model: Model, demod_s: Tc90522) -> Ran<B::State, ()> {
    let addr_t = model.demod_t().addr;
    let p = tc90522::regs_then::<B>(
        (s, Ok(())),
        demod_s.addr,
        tc90522::agc_s_regs(demod_s.is_secondary, false),
    );
    let p = tc90522::regs_then::<B>(p, addr_t, seq![(0x0eu8, 0x11u8), (0x0fu8, 0x70u8)]);
    let p = traits::reg_then::<B>(p, addr_t, 0x03, tc90522::sleep_t_value(true));
    let p = match model.demod_s0() {
        Some(demod_s0) => tc90522::regs_then::<B>(
            p,
            demod_s0.addr,
            seq![(0x07u8, 0x77u8), (0x08u8, 0x37u8)],
        ),
        None => tc90522::regs_then::<B>(
            p,
            demod_s.addr,
            seq![(0x07u8, 0x77u8), (0x08u8, 0x10u8)],
        ),
    };
    let p = tc90522::regs_then::<B>(p, demod_s.addr, tc90522::sleep_s_regs(false));
    let p = tc90522::regs_then::<B>(p, demod_s.addr, seq![(0x04u8, 0x02u8), (0x8eu8, 0x02u8)]);
    traits::reg_then::<B>(p, addr_t, 0x1f, 0x20)
}

/// What setting the tuner on an ISDB-S signal does and gives.
pub open spec fn tuned_s<T: UsbTransport>(m: SingleModel<T::State>, khz: u32) -> Ran<
    SingleModel<T::State>,
    (),
> {
    match (m.demod_s, m.rt710) {
        (Some(demod_s), Some(rt710)) => {
            let (w1, r1) = ready_s::<I2cBus<T>>(m.wire(), m.model, demod_s);
            let m1 = SingleModel { relay: Relay { addr: demod_s.addr, bus: w1 }, ..m };
            match r1 {
                Err(e) => (m1, Err(e)),
                Ok(_) => {
                    let (relay, t, r2) = px4::rt710_tuned::<TunerBus<I2cBus<T>>>(
                        m1.relay,
                        rt710,
                        khz,
                    );
                    let m2 = SingleModel { relay, rt710: Some(t), ..m1 };
                    match r2 {
                        Err(e) => (m2, Err(e)),
                        Ok(_) => {
                            let (w3, r3) = tc90522::written::<I2cBus<T>>(
                                relay.bus,
                                demod_s.addr,
                                tc90522::agc_s_regs(demod_s.is_secondary, true),
                            );
                            (m2.with_wire(w3), r3)
                        },
                    }
                },
            }
        },
        _ => (m, Err(Error::Unsupported(System::IsdbS))),
    }
}

/// What setting the tuner on a signal does and gives.
pub open spec fn tuned<T: UsbTransport>(m: SingleModel<T::State>, params: TuneParams) -> Ran<
    SingleModel<T::State>,
    (),
> {
    let m0 = SingleModel { system: None, ..m };
    let (m1, r1) = match params.system {
        System::IsdbT => tuned_t::<T>(m0, params.frequency_khz),
        System::IsdbS => match params.if_khz() {
            Ok(khz) => tuned_s::<T>(m0, khz),
            Err(e) => (m0, Err(e)),
        },
        System::IsdbS3 => (m0, Err(Error::Unsupported(System::IsdbS3))),
    };
    match r1 {
        Err(e) => (m1, Err(e)),
        Ok(_) => (SingleModel { system: Some(params.system), ..m1 }, Ok(())),
    }
}

/// What asking for the lock does and gives.
pub open spec fn locked<T: UsbTransport>(m: SingleModel<T::State>, system: System) -> Ran<
    SingleModel<T::State>,
    bool,
> {
    if system == System::IsdbT {
        let (wire, r) = tc90522::locked_t::<I2cBus<T>>(m.wire(), m.demod_t.addr);
        (m.with_wire(wire), Ok(r))
    } else {
        match m.demod_s {
            None => (m, Err(Error::Unsupported(system))),
            Some(demod_s) => {
                let (wire, r) = tc90522::locked_s::<I2cBus<T>>(m.wire(), demod_s.addr);
                (m.with_wire(wire), r)
            },
        }
    }
}

/// What asking for the signal does and gives.
pub open spec fn signalled<T: UsbTransport>(m: SingleModel<T::State>, system: System) -> Ran<
    SingleModel<T::State>,
    Signal,
> {
    let (m1, r1) = locked::<T>(m, system);
    match r1 {
        Err(e) => (m1, Err(e)),
        Ok(locked) => if system == System::IsdbT {
            let (wire, r2) = tc90522::cndat_t::<I2cBus<T>>(m1.relay.bus, m.demod_t.addr);
            match r2 {
                Err(e) => (m1.with_wire(wire), Err(e)),
                Ok(raw) => (
                    m1.with_wire(wire),
                    Ok(Signal { locked, cnr: Some(Cnr::IsdbT(raw)) }),
                ),
            }
        } else {
            let addr = m.demod_s->0.addr;
            let (wire, r2) = tc90522::word_read::<I2cBus<T>>(m1.relay.bus, addr, 0xbc);
            match r2 {
                Err(e) => (m1.with_wire(wire), Err(e)),
                Ok(raw) => (
                    m1.with_wire(wire),
                    Ok(Signal { locked, cnr: Some(Cnr::IsdbS(raw)) }),
                ),
            }
        },
    }
}

/// What letting the TS out does and gives, by the system tuned to.
pub open spec fn captured<T: UsbTransport>(m: SingleModel<T::State>, on: bool) -> Ran<
    SingleModel<T::State>,
    (),
> {
    match m.system {
        None => (m, Ok(())),
        Some(System::IsdbT) => {
            let (wire, r) = tc90522::reg_written::<I2cBus<T>>(
                m.wire(),
                m.demod_t.addr,
                0x1d,
                tc90522::ts_pins_t_value(on),
            );
            (m.with_wire(wire), r)
        },
        Some(_) => match m.demod_s {
            None => (m, Err(Error::Unsupported(System::IsdbS))),
            Some(demod_s) => {
                let (wire, r) = tc90522::written::<I2cBus<T>>(
                    m.wire(),
                    demod_s.addr,
                    tc90522::ts_pins_s_regs(on),
                );
                (m.with_wire(wire), r)
            },
        },
    }
}

impl<T: UsbTransport> Single<T> {
    fn ready_for_t(&mut self) -> (r: Result<(), Error>)
        requires
            old(self)@.wf(),
        ensures
            final(self)@.wf(),
            ({
                let (wire, ready) = ready_t::<I2cBus<T>>(old(self)@.wire(), old(self).model);
                final(self)@ == old(self)@.with_wire(wire) && r == ready
            }),
    {
        self.bus.i2c.bus = I2C_BUS;
        let d: Tc90522 = self.demod_t;
        let r = reg_if_ok(&mut self.bus.i2c, Ok(()), d.addr, 0x47, 0x30);
        let r = d.agc_t_if_ok(&mut self.bus.i2c, r, false);
        match self.model {
            Model::S1ur => d.regs_if_ok(&mut self.bus.i2c, r, &TUNE_S1UR),
            Model::Isdbt2071 => d.regs_if_ok(&mut self.bus.i2c, r, &TUNE_ISDBT2071),
            _ => {
                let r = match self.demod_s {
                    Some(demod_s) => demod_s.sleep_s_if_ok(&mut self.bus.i2c, r, true),
                    None => r,
                };
                let r = d.regs_if_ok(
                    &mut self.bus.i2c,
                    r,
                    &[(0x0e, 0x77), (0x0f, 0x10), (0x71, 0x20)],
                );
                let r = reg_if_ok(&mut self.bus.i2c, r, d.addr, 0x03, 0x00);
                d.regs_if_ok(&mut self.bus.i2c, r, &[(0x76, 0x0c), (0x1f, 0x30)])
            },
        }
    }

    fn tune_t(&mut self, khz: u32) -> (r: Result<(), Error>)
        requires
            old(self)@.wf(),
        ensures
            final(self)@.wf(),
            (final(self)@, r) == tuned_t::<T>(old(self)@, khz),
    {
        let d: Tc90522 = self.demod_t;
        self.bus.addr = d.addr;
        match self.ready_for_t() {
            Ok(_) => {},
            Err(e) => return Err(e),
        }
        if self.rt710.is_some() {
            match self.r850.wakeup() {
                Ok(_) => {},
                Err(e) => return Err(e),
            }
        }
        match tune_r850(&mut self.r850, &mut self.bus, khz) {
            Ok(_) => {},
            Err(e) => return Err(e),
        }
        let r = d.agc_t_if_ok(&mut self.bus.i2c, Ok(()), true);
        let r = if self.model == Model::Isdbt2071 {
            r
        } else {
            d.regs_if_ok(&mut self.bus.i2c, r, &[(0x71, 0x01), (0x72, 0x25), (0x75, 0x00)])
        };
        delay_if_ok(&mut self.bus.i2c, r, 100)
    }

    fn ready_for_s(&mut self, demod_s: &Tc90522) -> (r: Result<(), Error>)
        requires
            old(self)@.wf(),
        ensures
            final(self)@.wf(),
            ({
                let (wire, ready) = ready_s::<I2cBus<T>>(
                    old(self)@.wire(),
                    old(self).model,
                    *demod_s,
                );
                final(self)@ == old(self)@.with_wire(wire) && r == ready
            }),
    {
        self.bus.i2c.bus = I2C_BUS;
        let d: Tc90522 = self.demod_t;
        let r = demod_s.agc_s_if_ok(&mut self.bus.i2c, Ok(()), false);
        let r = d.regs_if_ok(&mut self.bus.i2c, r, &[(0x0e, 0x11), (0x0f, 0x70)]);
        let r = reg_if_ok(&mut self.bus.i2c, r, d.addr, 0x03, 0xf0);
        let r = match self.demod_s0 {
            Some(demod_s0) => demod_s0.regs_if_ok(
                &mut self.bus.i2c,
                r,
                &[(0x07, 0x77), (0x08, 0x37)],
            ),
            None => demod_s.regs_if_ok(&mut self.bus.i2c, r, &[(0x07, 0x77), (0x08, 0x10)]),
        };
        let r = demod_s.sleep_s_if_ok(&mut self.bus.i2c, r, false);
        let r = demod_s.regs_if_ok(&mut self.bus.i2c, r, &[(0x04, 0x02), (0x8e, 0x02)]);
        reg_if_ok(&mut self.bus.i2c, r, d.addr, 0x1f, 0x20)
    }

    fn tune_s(&mut self, khz: u32) -> (r: Result<(), Error>)
        requires
            old(self)@.wf(),
            khz <= RT710_MAX_KHZ,
        ensures
            final(self)@.wf(),
            (final(self)@, r) == tuned_s::<T>(old(self)@, khz),
    {
        match (self.demod_s, self.rt710) {
            (Some(demod_s), Some(t)) => {
                self.bus.addr = demod_s.addr;
                match self.ready_for_s(&demod_s) {
                    Ok(_) => {},
                    Err(e) => return Err(e),
                }
                let mut tuner: Rt710 = t;
                let r: Result<(), Error> = tune_rt710(&mut tuner, &mut self.bus, khz);
                self.rt710 = Some(tuner);
                match r {
                    Ok(_) => {},
                    Err(e) => return Err(e),
                }
                demod_s.set_agc_s(&mut self.bus.i2c, true)
            },
            _ => Err(Error::Unsupported(System::IsdbS)),
        }
    }

    /// Sets the tuner and the demodulator on the signal.
    pub fn tune(&mut self, params: &TuneParams) -> (r: Result<(), Error>)
        requires
            old(self)@.wf(),
            params.system == System::IsdbS ==> px4::if_fits(*params),
        ensures
            final(self)@.wf(),
            (final(self)@, r) == tuned::<T>(old(self)@, *params),
    {
        self.system = None;
        let r: Result<(), Error> = match params.system {
            System::IsdbT => self.tune_t(params.frequency_khz),
            System::IsdbS => match params.if_frequency_khz() {
                Ok(khz) => self.tune_s(khz),
                Err(e) => Err(e),
            },
            System::IsdbS3 => Err(Error::Unsupported(params.system)),
        };
        match r {
            Ok(_) => {},
            Err(e) => return Err(e),
        }
        self.system = Some(params.system);
        Ok(())
    }

    fn is_locked(&mut self, system: System) -> (r: Result<bool, Error>)
        requires
            old(self)@.wf(),
        ensures
            final(self)@.wf(),
            (final(self)@, r) == locked::<T>(old(self)@, system),
            r is Ok && system != System::IsdbT ==> old(self).demod_s is Some,
            final(self).demod_s == old(self).demod_s,
            final(self).demod_t == old(self).demod_t,
    {
        match system {
            System::IsdbT => {
                self.bus.i2c.bus = I2C_BUS;
                let d: Tc90522 = self.demod_t;
                d.is_signal_locked_t(&mut self.bus.i2c)
            },
            _ => match self.demod_s {
                None => Err(Error::Unsupported(system)),
                Some(demod_s) => {
                    self.bus.i2c.bus = I2C_BUS;
                    demod_s.is_signal_locked_s(&mut self.bus.i2c)
                },
            },
        }
    }

    /// Whether the tuner is locked on its signal.
    pub fn lock(&mut self, system: System) -> (r: Result<Lock, Error>)
        requires
            old(self)@.wf(),
        ensures
            final(self)@.wf(),
            ({
                let (m, found) = locked::<T>(old(self)@, system);
                &&& final(self)@ == m
                &&& match found {
                    Ok(true) => r == Ok::<Lock, Error>(Lock::Locked),
                    Ok(false) => r == Ok::<Lock, Error>(Lock::Waiting),
                    Err(e) => r == Err::<Lock, Error>(e),
                }
            }),
    {
        match self.is_locked(system) {
            Ok(true) => Ok(Lock::Locked),
            Ok(false) => Ok(Lock::Waiting),
            Err(e) => Err(e),
        }
    }

    /// Picks the stream out of the transponder; ISDB-T has but the one.
    pub fn select(&mut self, params: &TuneParams) -> (r: Result<(), Error>)
        requires
            old(self)@.wf(),
        ensures
            final(self)@.wf(),
            match (params.stream_id, old(self).demod_s) {
                (None, _) => final(self)@ == old(self)@ && r == Ok::<(), Error>(()),
                (Some(_), None) => final(self)@ == old(self)@ && r == Err::<(), Error>(
                    Error::Unsupported(System::IsdbS),
                ),
                (Some(id), Some(demod_s)) => {
                    let (wire, selected) = px4::tsid_selected::<I2cBus<T>>(
                        old(self)@.wire(),
                        demod_s.addr,
                        id.0,
                    );
                    final(self)@ == old(self)@.with_wire(wire) && r == selected
                },
            },
    {
        match params.stream_id {
            None => Ok(()),
            Some(id) => match self.demod_s {
                None => Err(Error::Unsupported(System::IsdbS)),
                Some(demod_s) => {
                    self.bus.i2c.bus = I2C_BUS;
                    select_tsid(&demod_s, &mut self.bus.i2c, id.0)
                },
            },
        }
    }

    /// The signal of the tuner.
    pub fn signal(&mut self, system: System) -> (r: Result<Signal, Error>)
        requires
            old(self)@.wf(),
        ensures
            final(self)@.wf(),
            (final(self)@, r) == signalled::<T>(old(self)@, system),
    {
        let found: bool = match self.is_locked(system) {
            Ok(found) => found,
            Err(e) => return Err(e),
        };
        match system {
            System::IsdbT => {
                let d: Tc90522 = self.demod_t;
                match d.get_cndat_t(&mut self.bus.i2c) {
                    Ok(raw) => Ok(Signal { locked: found, cnr: Some(Cnr::IsdbT(raw)) }),
                    Err(e) => Err(e),
                }
            },
            _ => match self.demod_s {
                None => Err(Error::Unsupported(system)),
                Some(demod_s) => match demod_s.get_cn_s(&mut self.bus.i2c) {
                    Ok(raw) => Ok(Signal { locked: found, cnr: Some(Cnr::IsdbS(raw)) }),
                    Err(e) => Err(e),
                },
            },
        }
    }

    /// Lets the TS out to the bridge, or not.
    pub fn set_capture(&mut self, on: bool) -> (r: Result<(), Error>)
        requires
            old(self)@.wf(),
        ensures
            final(self)@.wf(),
            (final(self)@, r) == captured::<T>(old(self)@, on),
    {
        match self.system {
            None => Ok(()),
            Some(System::IsdbT) => {
                self.bus.i2c.bus = I2C_BUS;
                let d: Tc90522 = self.demod_t;
                d.enable_ts_pins_t(&mut self.bus.i2c, on)
            },
            Some(_) => match self.demod_s {
                None => Err(Error::Unsupported(System::IsdbS)),
                Some(demod_s) => {
                    self.bus.i2c.bus = I2C_BUS;
                    demod_s.enable_ts_pins_s(&mut self.bus.i2c, on)
                },
            },
        }
    }
}

/// What setting the GPIOs up does and gives: the chips are in reset and off.
pub open spec fn gpios_set<T: UsbTransport>(b: Bridge<T::State>, reset: u8) -> Ran<
    Bridge<T::State>,
    (),
> {
    let (b1, r1) = it930x::gpio_made_output::<T>(b, reset);
    match r1 {
        Err(e) => (b1, Err(e)),
        Ok(_) => {
            let (b2, r2) = it930x::gpio_written::<T>(b1, reset, true);
            match r2 {
                Err(e) => (b2, Err(e)),
                Ok(_) => {
                    let (b3, r3) = it930x::gpio_made_output::<T>(b2, board::GPIO_BACKEND_POWER);
                    match r3 {
                        Err(e) => (b3, Err(e)),
                        Ok(_) => it930x::gpio_written::<T>(
                            b3,
                            board::GPIO_BACKEND_POWER,
                            false,
                        ),
                    }
                },
            }
        },
    }
}

pub(crate) fn set_gpios<T: UsbTransport>(bridge: &mut It930x<T>, reset: u8) -> (r: Result<
    (),
    Error,
>)
    requires
        1 <= reset <= 16,
    ensures
        (final(bridge)@, r) == gpios_set::<T>(old(bridge)@, reset),
{
    match bridge.gpio_output(reset) {
        Ok(_) => {},
        Err(e) => return Err(e),
    }
    match bridge.write_gpio(reset, true) {
        Ok(_) => {},
        Err(e) => return Err(e),
    }
    match bridge.gpio_output(board::GPIO_BACKEND_POWER) {
        Ok(_) => {},
        Err(e) => return Err(e),
    }
    bridge.write_gpio(board::GPIO_BACKEND_POWER, false)
}

/// The input of a model, which the stream carries as is.
pub open spec fn input_of(model: Model) -> Input {
    Input {
        port: if model == Model::Isdbt2071 {
            4
        } else {
            0
        },
        slave: 0,
        i2c_bus: I2C_BUS,
        i2c_addr: model.demod_t().addr,
        sync_byte: 0x47,
    }
}

/// What opening the bridge of a device does and gives.
pub open spec fn bridge_opened<T: UsbTransport>(
    b: Bridge<T::State>,
    model: Model,
    firmware: Seq<u8>,
) -> Ran<Bridge<T::State>, ()> {
    let (b1, r1) = board::bridge_opened::<T>(b, seq![input_of(model)], firmware);
    match r1 {
        Err(e) => (b1, Err(e)),
        Ok(_) => gpios_set::<T>(b1, GPIO_BACKEND_RESET),
    }
}

/// Opens a device: its bridge is set up, its chips stay off.
pub fn open<T: UsbTransport>(usb: T, usb_version: u16, model: Model, firmware: &[u8]) -> (r: Result<
    Single<T>,
    Error,
>)
    ensures
        ({
            let (b, opened) = bridge_opened::<T>(
                px4::fresh(usb.state(), usb_version),
                model,
                firmware@,
            );
            match opened {
                Err(e) => r == Err::<Single<T>, Error>(e),
                Ok(_) => {
                    &&& r matches Ok(single)
                    &&& single@.wf()
                    &&& single@.model == model
                    &&& single@.relay == (Relay {
                        addr: model.demod_t().addr,
                        bus: Wire { bridge: b, bus: I2C_BUS },
                    })
                    &&& single@.r850 == r850::fresh(R850_ADDR, px4::r850_settings(false))
                    &&& single@.rt710 matches Some(t) ==> t == (Rt710 {
                        i2c_addr: RT710_ADDR,
                        config: px4::rt710_settings(),
                        chip: None,
                        freq: 0,
                    })
                    &&& single@.system is None
                },
            }
        }),
{
    let demod_t: Tc90522 = model.find_demod_t();
    let mut inputs: Vec<Input> = Vec::new();
    inputs.push(
        Input {
            port: if model == Model::Isdbt2071 { 4 } else { 0 },
            slave: 0,
            i2c_bus: I2C_BUS,
            i2c_addr: demod_t.addr,
            sync_byte: 0x47,
        },
    );
    let mut bridge: It930x<T> = match board::open_bridge(
        usb,
        usb_version,
        inputs.as_slice(),
        firmware,
    ) {
        Ok(bridge) => bridge,
        Err(e) => return Err(e),
    };
    match set_gpios(&mut bridge, GPIO_BACKEND_RESET) {
        Ok(_) => {},
        Err(e) => return Err(e),
    }
    let rt710: Option<Rt710> = match model {
        Model::M1ur | Model::Isdb2056 | Model::Isdb2056n => Some(
            Rt710::new(RT710_ADDR, rt710_config()),
        ),
        _ => None,
    };
    Ok(
        Single {
            model,
            bus: demod_t.tuner_bus(bridge.i2c(I2C_BUS)),
            demod_t,
            demod_s: model.find_demod_s(),
            demod_s0: model.find_demod_s0(),
            r850: R850::new(R850_ADDR, r850_config(false)),
            rt710,
            system: None,
        },
    )
}

} // verus!
