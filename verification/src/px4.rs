//! The PX4/PX5 series, PX-W3U4 to PX-Q3PE5: an IT930x with two ISDB-S
//! tuners (TC90522 and RT710) and two ISDB-T tuners (TC90522 and R850). The
//! Q models are two such boards on one card, powered together.

use vstd::prelude::*;

use crate::board;
use crate::board::{power_backend, Lnb, Lock, LNB_GPIO};
use crate::error::{error, Error};
use crate::it930x;
use crate::it930x::{Bridge, I2cBus, Input, It930x, Wire};
use crate::r850;
use crate::r850::{R850Config, SystemConfig, R850};
use crate::rt710;
use crate::rt710::{
    AgcMode, FineGain, Rt710, Rt710Config, ScanMode, SignalOutputMode, VgaAttenMode,
};
use crate::tc90522;
use crate::tc90522::{Relay, Tc90522, TunerBus};
use crate::traits;
use crate::traits::{reg_if_ok, I2c, Ran};
use crate::types::{Cnr, Signal, System, TuneParams};
use crate::usb::UsbTransport;

pub mod laws;

verus! {

pub const RT710_ADDR: u8 = 0x7a;

pub const R850_ADDR: u8 = 0x7c;

pub const TC_INIT_T: [(u8, u8); 8] = [
    (0xb0, 0xa0),
    (0xb2, 0x3d),
    (0xb3, 0x25),
    (0xb4, 0x8b),
    (0xb5, 0x4b),
    (0xb6, 0x3f),
    (0xb7, 0xff),
    (0xb8, 0xc0),
];

pub const TC_INIT_S: [(u8, u8); 2] = [(0x15, 0x00), (0x1d, 0x00)];

/// What [`rt710_config`] gives.
pub open spec fn rt710_settings() -> Rt710Config {
    Rt710Config {
        xtal: 24000,
        loop_through: false,
        clock_out: false,
        signal_output_mode: SignalOutputMode::Differential,
        agc_mode: AgcMode::Positive,
        vga_atten_mode: VgaAttenMode::Off,
        fine_gain: FineGain::Db3,
        scan_mode: ScanMode::Manual,
    }
}

pub fn rt710_config() -> (r: Rt710Config)
    ensures
        r == rt710_settings(),
{
    Rt710Config {
        xtal: 24000,
        loop_through: false,
        clock_out: false,
        signal_output_mode: SignalOutputMode::Differential,
        agc_mode: AgcMode::Positive,
        vga_atten_mode: VgaAttenMode::Off,
        fine_gain: FineGain::Db3,
        scan_mode: ScanMode::Manual,
    }
}

/// What [`r850_config`] gives.
pub open spec fn r850_settings(loop_through: bool) -> R850Config {
    R850Config {
        xtal: 24000,
        loop_through,
        clock_out: false,
        no_imr_calibration: true,
        no_lpf_calibration: true,
    }
}

pub fn r850_config(loop_through: bool) -> (r: R850Config)
    ensures
        r == r850_settings(loop_through),
{
    R850Config {
        xtal: 24000,
        loop_through,
        clock_out: false,
        no_imr_calibration: true,
        no_lpf_calibration: true,
    }
}

/// ISDB-T as the R850 is to receive it.
pub open spec fn isdb_t() -> SystemConfig {
    SystemConfig { system: r850::System::IsdbT, bandwidth: r850::Bandwidth::M6, if_freq: 4063 }
}

pub fn r850_isdb_t() -> (r: SystemConfig)
    ensures
        r == isdb_t(),
{
    SystemConfig { system: r850::System::IsdbT, bandwidth: r850::Bandwidth::M6, if_freq: 4063 }
}

/// Waiting for the demodulator to report a TSID, with the tries left, 10 ms
/// apart. A read that fails counts as another TSID.
pub open spec fn tsid_awaited<B: I2c>(s: B::State, addr: u8, tsid: u16, tries: nat) -> Ran<
    B::State,
    (),
>
    decreases tries,
{
    if tries == 0 {
        (s, Err(error("the transponder does not carry the TSID")))
    } else {
        let (s1, r) = tc90522::word_read::<B>(s, addr, 0xe6);
        if r == Ok::<u16, Error>(tsid) {
            (s1, Ok(()))
        } else {
            tsid_awaited::<B>(B::on_delay(s1, 10), addr, tsid, (tries - 1) as nat)
        }
    }
}

/// What [`select_tsid`] does and gives.
pub open spec fn tsid_selected<B: I2c>(s: B::State, addr: u8, tsid: u16) -> Ran<B::State, ()> {
    let (s1, r) = tc90522::regs_written::<B>(s, addr, 0x8f, tc90522::tsid_bytes(tsid));
    match r {
        Err(e) => (s1, Err(e)),
        Ok(_) => tsid_awaited::<B>(s1, addr, tsid, 100),
    }
}

/// Picks the stream with `tsid` out of the transponder, and waits for the
/// demodulator to report it.
pub fn select_tsid<B: I2c>(demod: &Tc90522, i2c: &mut B, tsid: u16) -> (r: Result<(), Error>)
    ensures
        (final(i2c).state(), r) == tsid_selected::<B>(old(i2c).state(), demod.addr, tsid),
{
    match demod.set_tsid_s(i2c, tsid) {
        Ok(_) => {},
        Err(e) => return Err(e),
    }
    let ghost whole = tsid_awaited::<B>(i2c.state(), demod.addr, tsid, 100);
    let mut tries: usize = 100;
    while tries > 0
        invariant
            tries <= 100,
            whole == tsid_selected::<B>(old(i2c).state(), demod.addr, tsid),
            tsid_awaited::<B>(i2c.state(), demod.addr, tsid, tries as nat) == whole,
        decreases tries,
    {
        match demod.get_tsid_s(i2c) {
            Ok(found) => if found == tsid {
                return Ok(());
            },
            Err(_) => {},
        }
        i2c.delay_ms(10);
        tries = tries - 1;
    }
    Err(error("the transponder does not carry the TSID"))
}

/// What asking the R850 whether its PLL is locked does and gives.
pub open spec fn r850_lock<B: I2c>(s: B::State, c: r850::Chip) -> Ran<B::State, bool> {
    if c.init {
        r850::pll_lock::<B>(s, c.i2c_addr)
    } else {
        (s, r850::uninitialised())
    }
}

/// What waiting for the PLL of the R850 does and gives, with the tries left,
/// 10 ms apart. A read that fails is tried again; the last one's error counts.
pub open spec fn r850_awaited<B: I2c>(s: B::State, c: r850::Chip, tries: nat) -> Ran<B::State, ()>
    decreases tries,
{
    let (s1, r) = r850_lock::<B>(s, c);
    if r == Ok::<bool, Error>(true) {
        (s1, Ok(()))
    } else {
        let s2 = B::on_delay(s1, 10);
        if tries <= 1 {
            match r {
                Err(e) => (s2, Err(e)),
                Ok(_) => (s2, Err(error("the R850 PLL did not lock"))),
            }
        } else {
            r850_awaited::<B>(s2, c, (tries - 1) as nat)
        }
    }
}

/// Waits for the PLL of the R850 to lock.
pub fn wait_r850<B: I2c>(r850: &mut R850, bus: &mut B) -> (r: Result<(), Error>)
    ensures
        *final(r850) == *old(r850),
        (final(bus).state(), r) == r850_awaited::<B>(old(bus).state(), old(r850)@, 50),
{
    let ghost whole = r850_awaited::<B>(bus.state(), r850@, 50);
    let mut tries: usize = 50;
    while tries > 1
        invariant
            1 <= tries <= 50,
            *r850 == *old(r850),
            whole == r850_awaited::<B>(old(bus).state(), old(r850)@, 50),
            r850_awaited::<B>(bus.state(), r850@, tries as nat) == whole,
        decreases tries,
    {
        match r850.is_pll_locked(bus) {
            Ok(true) => return Ok(()),
            _ => {},
        }
        bus.delay_ms(10);
        tries = tries - 1;
    }
    let last: Result<bool, Error> = r850.is_pll_locked(bus);
    match last {
        Ok(true) => return Ok(()),
        _ => {},
    }
    bus.delay_ms(10);
    match last {
        Ok(_) => Err(error("the R850 PLL did not lock")),
        Err(e) => Err(e),
    }
}

/// What asking the RT710 whether its PLL is locked does and gives.
pub open spec fn rt710_lock<B: I2c>(s: B::State, t: Rt710) -> Ran<B::State, bool> {
    if t.chip is Some {
        rt710::pll_lock::<B>(s, t.i2c_addr)
    } else {
        (s, rt710::not_initialised())
    }
}

/// What waiting for the PLL of the RT710 does and gives, with the tries left,
/// 10 ms apart. A read that fails is tried again; the last one's error counts.
pub open spec fn rt710_awaited<B: I2c>(s: B::State, t: Rt710, tries: nat) -> Ran<B::State, ()>
    decreases tries,
{
    let (s1, r) = rt710_lock::<B>(s, t);
    if r == Ok::<bool, Error>(true) {
        (s1, Ok(()))
    } else {
        let s2 = B::on_delay(s1, 10);
        if tries <= 1 {
            match r {
                Err(e) => (s2, Err(e)),
                Ok(_) => (s2, Err(error("the RT710 PLL did not lock"))),
            }
        } else {
            rt710_awaited::<B>(s2, t, (tries - 1) as nat)
        }
    }
}

/// Waits for the PLL of the RT710 to lock.
pub fn wait_rt710<B: I2c>(rt710: &mut Rt710, bus: &mut B) -> (r: Result<(), Error>)
    ensures
        *final(rt710) == *old(rt710),
        (final(bus).state(), r) == rt710_awaited::<B>(old(bus).state(), *old(rt710), 50),
{
    let ghost whole = rt710_awaited::<B>(bus.state(), *rt710, 50);
    let mut tries: usize = 50;
    while tries > 1
        invariant
            1 <= tries <= 50,
            *rt710 == *old(rt710),
            whole == rt710_awaited::<B>(old(bus).state(), *old(rt710), 50),
            rt710_awaited::<B>(bus.state(), *rt710, tries as nat) == whole,
        decreases tries,
    {
        match rt710.is_pll_locked(bus) {
            Ok(true) => return Ok(()),
            _ => {},
        }
        bus.delay_ms(10);
        tries = tries - 1;
    }
    let last: Result<bool, Error> = rt710.is_pll_locked(bus);
    match last {
        Ok(true) => return Ok(()),
        _ => {},
    }
    bus.delay_ms(10);
    match last {
        Ok(_) => Err(error("the RT710 PLL did not lock")),
        Err(e) => Err(e),
    }
}

/// The tuner of an ISDB-T signal set, and its PLL locked.
pub open spec fn r850_tuned<B: I2c>(s: B::State, c: r850::Chip, khz: u32) -> (
    B::State,
    r850::Chip,
    Result<(), Error>,
) {
    let (s1, c1, r1) = r850::tuned::<B>(s, c, khz);
    match r1 {
        Err(e) => (s1, c1, Err(e)),
        Ok(_) => {
            let (s2, r2) = r850_awaited::<B>(s1, c1, 50);
            (s2, c1, r2)
        },
    }
}

/// Sets the tuner of an ISDB-T signal, and waits for its PLL.
pub fn tune_r850<B: I2c>(r850: &mut R850, bus: &mut B, khz: u32) -> (r: Result<(), Error>)
    requires
        old(r850)@.wf(),
    ensures
        final(r850)@.wf(),
        final(r850).config == old(r850).config,
        (final(bus).state(), final(r850)@, r) == r850_tuned::<B>(
            old(bus).state(),
            old(r850)@,
            khz,
        ),
{
    match r850.set_frequency(bus, khz) {
        Ok(_) => {},
        Err(e) => return Err(e),
    }
    wait_r850(r850, bus)
}

/// The tuner of an ISDB-S signal set, and its PLL locked.
pub open spec fn rt710_tuned<B: I2c>(s: B::State, t: Rt710, khz: u32) -> (
    B::State,
    Rt710,
    Result<(), Error>,
) {
    let (s1, t1, r1) = rt710::tuned::<B>(s, t, khz, 28860, 4);
    match r1 {
        Err(e) => (s1, t1, Err(e)),
        Ok(_) => {
            let (s2, r2) = rt710_awaited::<B>(s1, t1, 50);
            (s2, t1, r2)
        },
    }
}

/// The highest intermediate frequency the RT710 can be set to.
pub const RT710_MAX_KHZ: u32 = 0x7ff_ffff;

/// Sets the tuner of an ISDB-S signal, and waits for its PLL.
pub fn tune_rt710<B: I2c>(rt710: &mut Rt710, bus: &mut B, khz: u32) -> (r: Result<(), Error>)
    requires
        old(rt710).takes(khz, 28860, 4),
    ensures
        (final(bus).state(), *final(rt710), r) == rt710_tuned::<B>(
            old(bus).state(),
            *old(rt710),
            khz,
        ),
        final(rt710).config == old(rt710).config,
{
    match rt710.set_params(bus, khz, 28860, 4) {
        Ok(_) => {},
        Err(e) => return Err(e),
    }
    wait_rt710(rt710, bus)
}

/// The I2C bus of the demodulators.
pub const I2C_BUS: u8 = 2;

/// The GPIO of the reset of the chips.
pub const GPIO_BACKEND_RESET: u8 = 7;

/// The demodulator of a tuner of a board: two ISDB-S, then two ISDB-T.
pub open spec fn demod_of(i: usize) -> Tc90522 {
    if i == 0 {
        Tc90522 { addr: 0x11, is_secondary: false }
    } else if i == 1 {
        Tc90522 { addr: 0x13, is_secondary: true }
    } else if i == 2 {
        Tc90522 { addr: 0x10, is_secondary: false }
    } else {
        Tc90522 { addr: 0x12, is_secondary: true }
    }
}

#[verifier::when_used_as_spec(demod_of)]
fn demod(i: usize) -> (r: Tc90522)
    ensures
        r == demod_of(i),
{
    match i {
        0 => Tc90522 { addr: 0x11, is_secondary: false },
        1 => Tc90522 { addr: 0x13, is_secondary: true },
        2 => Tc90522 { addr: 0x10, is_secondary: false },
        _ => Tc90522 { addr: 0x12, is_secondary: true },
    }
}

/// A board: a bridge, two ISDB-S tuners and two ISDB-T tuners.
pub struct Half<T> {
    /// The bridge, its I2C bus, and the relay to the tuner used last.
    pub bus: TunerBus<I2cBus<T>>,
    pub s: Vec<Rt710>,
    pub t: Vec<R850>,
    /// How many tuners are open.
    pub open_count: usize,
    pub lnb: Lnb,
}

/// What a [`Half`] holds.
#[verifier::ext_equal]
pub struct HalfModel<S> {
    pub relay: Relay<Wire<S>>,
    pub s: Seq<Rt710>,
    pub t: Seq<r850::Chip>,
    pub open_count: usize,
    pub lnb: Seq<bool>,
}

/// What tuners hold.
pub open spec fn r850_models(t: Seq<R850>) -> Seq<r850::Chip> {
    t.map(|i: int, c: R850| c@)
}

impl<T: UsbTransport> View for Half<T> {
    type V = HalfModel<T::State>;

    open spec fn view(&self) -> HalfModel<T::State> {
        HalfModel {
            relay: self.bus.state(),
            s: self.s@,
            t: r850_models(self.t@),
            open_count: self.open_count,
            lnb: self.lnb.wants@,
        }
    }
}

impl<S> HalfModel<S> {
    /// There are two tuners of each kind, with crystals of 24 MHz.
    pub open spec fn wf(self) -> bool {
        &&& self.s.len() == 2
        &&& self.t.len() == 2
        &&& self.lnb.len() == 4
        &&& forall|i: int| 0 <= i < 2 ==> (#[trigger] self.s[i]).config.xtal == 24000
        &&& forall|i: int|
            0 <= i < 2 ==> (#[trigger] self.t[i]).wf() && self.t[i].config.xtal == 24000
    }

    /// The bus of the demodulators.
    pub open spec fn wire(self) -> Wire<S> {
        Wire { bus: I2C_BUS, ..self.relay.bus }
    }

    /// The relay pointed at the tuner behind a demodulator.
    pub open spec fn pointed(self, i: usize) -> Relay<Wire<S>> {
        Relay { addr: demod_of(i).addr, bus: self.wire() }
    }

    /// The relay after something was done on it.
    pub open spec fn with_relay(self, relay: Relay<Wire<S>>) -> Self {
        HalfModel { relay, ..self }
    }

    /// The bus of the demodulators after something was done on it.
    pub open spec fn with_wire(self, wire: Wire<S>) -> Self {
        HalfModel { relay: Relay { bus: wire, ..self.relay }, ..self }
    }

    /// The bridge after something was done on it.
    pub open spec fn with_bridge(self, bridge: Bridge<S>) -> Self {
        self.with_wire(Wire { bridge, ..self.relay.bus })
    }
}

/// What initialising the tuner behind demodulator `i` does and gives.
pub open spec fn tuner_inited<T: UsbTransport>(m: HalfModel<T::State>, i: usize) -> Ran<
    HalfModel<T::State>,
    (),
> {
    if i < 2 {
        let (relay, t, r) = rt710::inited::<TunerBus<I2cBus<T>>>(m.pointed(i), m.s[i as int]);
        (HalfModel { relay, s: m.s.update(i as int, t), ..m }, r)
    } else {
        let (relay, c, r) = r850::inited::<TunerBus<I2cBus<T>>>(m.pointed(i), m.t[i - 2]);
        (HalfModel { relay, t: m.t.update(i - 2, c), ..m }, r)
    }
}

/// What initialising the tuners from `i` on does and gives.
pub open spec fn tuners_inited<T: UsbTransport>(m: HalfModel<T::State>, i: usize) -> Ran<
    HalfModel<T::State>,
    (),
>
    decreases 4 - i,
{
    if i >= 4 {
        (m, Ok(()))
    } else {
        let (m1, r1) = tuner_inited::<T>(m, i);
        match r1 {
            Err(e) => (m1, Err(e)),
            Ok(_) => tuners_inited::<T>(m1, (i + 1) as usize),
        }
    }
}

/// What putting a tuner and its demodulator to sleep does and gives.
pub open spec fn tuner_slept<T: UsbTransport>(m: HalfModel<T::State>, i: usize) -> Ran<
    HalfModel<T::State>,
    (),
> {
    if i < 2 {
        let (relay, r) = rt710::slept::<TunerBus<I2cBus<T>>>(m.pointed(i), m.s[i as int]);
        let m1 = m.with_relay(relay);
        match r {
            Err(e) => (m1, Err(e)),
            Ok(_) => {
                let (wire, r2) = tc90522::written::<I2cBus<T>>(
                    relay.bus,
                    demod_of(i).addr,
                    tc90522::sleep_s_regs(true),
                );
                (m1.with_wire(wire), r2)
            },
        }
    } else if m.t[i - 2].init {
        let (wire, r) = tc90522::reg_written::<I2cBus<T>>(
            m.wire(),
            demod_of(i).addr,
            0x03,
            tc90522::sleep_t_value(true),
        );
        (m.with_wire(wire), r)
    } else {
        (m, r850::uninitialised())
    }
}

/// What putting the tuners from `i` on to sleep does and gives, all but `index`.
pub open spec fn others_slept<T: UsbTransport>(
    m: HalfModel<T::State>,
    index: usize,
    i: usize,
) -> Ran<HalfModel<T::State>, ()>
    decreases 4 - i,
{
    if i >= 4 {
        (m, Ok(()))
    } else if i == index {
        others_slept::<T>(m, index, (i + 1) as usize)
    } else {
        let (m1, r1) = tuner_slept::<T>(m, i);
        match r1 {
            Err(e) => (m1, Err(e)),
            Ok(_) => others_slept::<T>(m1, index, (i + 1) as usize),
        }
    }
}

/// What initialising a board for tuner `index` does and gives.
pub open spec fn board_inited<T: UsbTransport>(m: HalfModel<T::State>, index: usize) -> Ran<
    HalfModel<T::State>,
    (),
> {
    let (m1, r1) = tuners_inited::<T>(m, 0);
    match r1 {
        Err(e) => (m1, Err(e)),
        Ok(_) => others_slept::<T>(m1, index, 0),
    }
}

impl<T: UsbTransport> Half<T> {
    /// Points the relay at the tuner behind demodulator `i`.
    fn point(&mut self, i: usize)
        ensures
            final(self)@ == old(self)@.with_relay(old(self)@.pointed(i)),
            final(self).s == old(self).s,
            final(self).t == old(self).t,
            final(self).open_count == old(self).open_count,
            final(self).lnb == old(self).lnb,
    {
        self.bus.addr = demod(i).addr;
        self.bus.i2c.bus = I2C_BUS;
    }

    /// Initialises the tuner behind demodulator `i`.
    fn init_tuner(&mut self, i: usize) -> (r: Result<(), Error>)
        requires
            old(self)@.wf(),
            i < 4,
        ensures
            final(self)@.wf(),
            (final(self)@, r) == tuner_inited::<T>(old(self)@, i),
    {
        self.point(i);
        if i < 2 {
            let mut tuner: Rt710 = self.s[i];
            let r: Result<(), Error> = tuner.init(&mut self.bus);
            self.s.set(i, tuner);
            assert(self@ =~= tuner_inited::<T>(old(self)@, i).0);
            r
        } else {
            assert(self@.t[i - 2] == self.t@[i - 2]@);
            let r: Result<(), Error> = self.t[i - 2].init(&mut self.bus);
            assert(self@ =~= tuner_inited::<T>(old(self)@, i).0);
            r
        }
    }
}

/// What waking an ISDB-S demodulator up does and gives.
pub open spec fn demod_s_woken<B: I2c>(s: B::State, addr: u8) -> Ran<B::State, ()> {
    let p = tc90522::regs_then::<B>((s, Ok(())), addr, TC_INIT_S@);
    let p = traits::reg_then::<B>(p, addr, 0x04, 0x02);
    let p = tc90522::regs_then::<B>(p, addr, tc90522::ts_pins_s_regs(false));
    tc90522::regs_then::<B>(p, addr, tc90522::sleep_s_regs(false))
}

fn wake_demod_s<B: I2c>(demod: &Tc90522, i2c: &mut B) -> (r: Result<(), Error>)
    ensures
        (final(i2c).state(), r) == demod_s_woken::<B>(old(i2c).state(), demod.addr),
{
    let r = demod.regs_if_ok(i2c, Ok(()), &TC_INIT_S);
    let r = reg_if_ok(i2c, r, demod.addr, 0x04, 0x02);
    let r = demod.ts_pins_s_if_ok(i2c, r, false);
    demod.sleep_s_if_ok(i2c, r, false)
}

/// What waking an ISDB-T demodulator up does and gives.
pub open spec fn demod_t_woken<B: I2c>(s: B::State, addr: u8) -> Ran<B::State, ()> {
    let p = tc90522::regs_then::<B>((s, Ok(())), addr, TC_INIT_T@);
    let p = traits::reg_then::<B>(p, addr, 0x1f, 0x00);
    let p = traits::reg_then::<B>(p, addr, 0x75, 0x00);
    let p = traits::reg_then::<B>(p, addr, 0x1d, tc90522::ts_pins_t_value(false));
    traits::reg_then::<B>(p, addr, 0x03, tc90522::sleep_t_value(false))
}

fn wake_demod_t<B: I2c>(demod: &Tc90522, i2c: &mut B) -> (r: Result<(), Error>)
    ensures
        (final(i2c).state(), r) == demod_t_woken::<B>(old(i2c).state(), demod.addr),
{
    let r = demod.regs_if_ok(i2c, Ok(()), &TC_INIT_T);
    let r = reg_if_ok(i2c, r, demod.addr, 0x1f, 0x00);
    let r = reg_if_ok(i2c, r, demod.addr, 0x75, 0x00);
    let r = reg_if_ok(i2c, r, demod.addr, 0x1d, 0xa8);
    reg_if_ok(i2c, r, demod.addr, 0x03, 0x00)
}

/// What waking a tuner and its demodulator up does and gives.
pub open spec fn tuner_woken<T: UsbTransport>(m: HalfModel<T::State>, i: usize) -> Ran<
    HalfModel<T::State>,
    (),
> {
    if i < 2 {
        let (wire, r) = demod_s_woken::<I2cBus<T>>(m.wire(), demod_of(i).addr);
        (m.with_wire(wire), r)
    } else {
        let (wire, r) = demod_t_woken::<I2cBus<T>>(m.wire(), demod_of(i).addr);
        let m1 = m.with_wire(wire);
        match r {
            Err(e) => (m1, Err(e)),
            Ok(_) => {
                let (c, r2) = r850::chosen(m.t[i - 2], isdb_t());
                (HalfModel { t: m.t.update(i - 2, c), ..m1 }, r2)
            },
        }
    }
}

/// The clocks that the first demodulator of each system gives the others.
pub open spec fn clocks_set<B: I2c>(s: B::State) -> Ran<B::State, ()> {
    let p = tc90522::regs_then::<B>(
        (s, Ok(())),
        demod_of(0).addr,
        seq![(0x07u8, 0x31u8), (0x08u8, 0x77u8)],
    );
    tc90522::regs_then::<B>(p, demod_of(2).addr, seq![(0x0eu8, 0x77u8), (0x0fu8, 0x13u8)])
}

fn set_clocks<B: I2c>(i2c: &mut B) -> (r: Result<(), Error>)
    ensures
        (final(i2c).state(), r) == clocks_set::<B>(old(i2c).state()),
{
    let r = demod(0).regs_if_ok(i2c, Ok(()), &[(0x07, 0x31), (0x08, 0x77)]);
    demod(2).regs_if_ok(i2c, r, &[(0x0e, 0x77), (0x0f, 0x13)])
}

/// What readying a tuner of a board for use does and gives: the first one takes
/// the whole board into use.
pub open spec fn half_opened<T: UsbTransport>(m: HalfModel<T::State>, i: usize) -> Ran<
    HalfModel<T::State>,
    (),
> {
    let first = m.open_count == 0;
    let (m1, r1) = if first {
        board_inited::<T>(m, i)
    } else {
        (m, Ok(()))
    };
    match r1 {
        Err(e) => (m1, Err(e)),
        Ok(_) => {
            let (m2, r2) = tuner_woken::<T>(m1, i);
            match r2 {
                Err(e) => (m2, Err(e)),
                Ok(_) => if first {
                    let (wire, r3) = clocks_set::<I2cBus<T>>(m2.wire());
                    (m2.with_wire(wire), r3)
                } else {
                    (m2, Ok(()))
                },
            }
        },
    }
}

/// A board whose tuners are ended.
pub open spec fn half_ended<S>(m: HalfModel<S>) -> HalfModel<S> {
    HalfModel {
        s: seq![Rt710 { chip: None, ..m.s[0] }].push(Rt710 { chip: None, ..m.s[1] }),
        t: seq![r850::ended(m.t[0])].push(r850::ended(m.t[1])),
        ..m
    }
}

impl<T: UsbTransport> Half<T> {
    /// Initialises the tuners of the board, then puts all but `index` to sleep.
    fn init(&mut self, index: usize) -> (r: Result<(), Error>)
        requires
            old(self)@.wf(),
        ensures
            final(self)@.wf(),
            (final(self)@, r) == board_inited::<T>(old(self)@, index),
            final(self).open_count == old(self).open_count,
    {
        let ghost whole = tuners_inited::<T>(self@, 0);
        let mut i: usize = 0;
        while i < 4
            invariant
                i <= 4,
                self@.wf(),
                self.open_count == old(self).open_count,
                whole == tuners_inited::<T>(old(self)@, 0),
                tuners_inited::<T>(self@, i) == whole,
            decreases 4 - i,
        {
            match self.init_tuner(i) {
                Ok(_) => {},
                Err(e) => return Err(e),
            }
            i = i + 1;
        }
        let ghost whole2 = others_slept::<T>(self@, index, 0);
        let mut i: usize = 0;
        while i < 4
            invariant
                i <= 4,
                self@.wf(),
                self.open_count == old(self).open_count,
                whole2 == board_inited::<T>(old(self)@, index),
                others_slept::<T>(self@, index, i) == whole2,
            decreases 4 - i,
        {
            if i != index {
                match self.sleep(i) {
                    Ok(_) => {},
                    Err(e) => return Err(e),
                }
            }
            i = i + 1;
        }
        Ok(())
    }

    /// Ends the tuners of the board.
    fn term(&mut self)
        requires
            old(self)@.wf(),
        ensures
            final(self)@.wf(),
            final(self)@ == half_ended(old(self)@),
    {
        let mut s0: Rt710 = self.s[0];
        let mut s1: Rt710 = self.s[1];
        let _ = s0.term();
        let _ = s1.term();
        self.s.set(0, s0);
        self.s.set(1, s1);
        assert(self@.t[0] == self.t@[0]@);
        assert(self@.t[1] == self.t@[1]@);
        self.t[0].term();
        self.t[1].term();
        assert(self@ =~= half_ended(old(self)@));
    }

    /// Puts a tuner and its demodulator to sleep.
    fn sleep(&mut self, i: usize) -> (r: Result<(), Error>)
        requires
            old(self)@.wf(),
            i < 4,
        ensures
            final(self)@.wf(),
            (final(self)@, r) == tuner_slept::<T>(old(self)@, i),
            final(self).open_count == old(self).open_count,
    {
        if i < 2 {
            self.point(i);
            let mut tuner: Rt710 = self.s[i];
            match tuner.sleep(&mut self.bus) {
                Ok(_) => {},
                Err(e) => return Err(e),
            }
            demod(i).sleep_s(&mut self.bus.i2c, true)
        } else {
            assert(self@.t[i - 2] == self.t@[i - 2]@);
            if !self.t[i - 2].init {
                return Err(error("R850 is not initialised"));
            }
            self.bus.i2c.bus = I2C_BUS;
            demod(i).sleep_t(&mut self.bus.i2c, true)
        }
    }

    /// Wakes a tuner and its demodulator up.
    fn wakeup(&mut self, i: usize) -> (r: Result<(), Error>)
        requires
            old(self)@.wf(),
            i < 4,
        ensures
            final(self)@.wf(),
            (final(self)@, r) == tuner_woken::<T>(old(self)@, i),
            final(self).open_count == old(self).open_count,
    {
        self.bus.i2c.bus = I2C_BUS;
        if i < 2 {
            wake_demod_s(&demod(i), &mut self.bus.i2c)
        } else {
            match wake_demod_t(&demod(i), &mut self.bus.i2c) {
                Ok(_) => {},
                Err(e) => return Err(e),
            }
            assert(self@.t[i - 2] == self.t@[i - 2]@);
            let system: SystemConfig = r850_isdb_t();
            let r: Result<(), Error> = self.t[i - 2].set_system(system);
            assert(self@ =~= tuner_woken::<T>(old(self)@, i).0);
            r
        }
    }

    /// Readies a tuner of the board for use.
    fn try_open(&mut self, i: usize) -> (r: Result<(), Error>)
        requires
            old(self)@.wf(),
            i < 4,
        ensures
            final(self)@.wf(),
            (final(self)@, r) == half_opened::<T>(old(self)@, i),
            final(self).open_count == old(self).open_count,
    {
        let first: bool = self.open_count == 0;
        if first {
            match self.init(i) {
                Ok(_) => {},
                Err(e) => return Err(e),
            }
        }
        match self.wakeup(i) {
            Ok(_) => {},
            Err(e) => return Err(e),
        }
        if first {
            self.bus.i2c.bus = I2C_BUS;
            return set_clocks(&mut self.bus.i2c);
        }
        Ok(())
    }
}

/// An ISDB-T demodulator made ready for its tuner to be set.
pub open spec fn demod_t_ready<B: I2c>(s: B::State, addr: u8) -> Ran<B::State, ()> {
    let p = traits::reg_then::<B>((s, Ok(())), addr, 0x47, 0x30);
    let p = tc90522::regs_then::<B>(p, addr, tc90522::agc_t_regs(false));
    traits::reg_then::<B>(p, addr, 0x76, 0x0c)
}

/// An ISDB-T demodulator set on the signal.
pub open spec fn demod_t_set<B: I2c>(s: B::State, addr: u8) -> Ran<B::State, ()> {
    let p = tc90522::regs_then::<B>((s, Ok(())), addr, tc90522::agc_t_regs(true));
    let p = traits::reg_then::<B>(p, addr, 0x71, 0x21);
    let p = traits::reg_then::<B>(p, addr, 0x72, 0x25);
    traits::reg_then::<B>(p, addr, 0x75, 0x08)
}

/// An ISDB-S demodulator made ready for its tuner to be set.
pub open spec fn demod_s_ready<B: I2c>(s: B::State, demod: Tc90522) -> Ran<B::State, ()> {
    let p = tc90522::regs_then::<B>(
        (s, Ok(())),
        demod.addr,
        tc90522::agc_s_regs(demod.is_secondary, false),
    );
    let p = traits::reg_then::<B>(p, demod.addr, 0x8e, 0x06);
    traits::reg_then::<B>(p, demod.addr, 0xa3, 0xf7)
}

/// What setting an ISDB-T tuner and its demodulator on a signal does and gives.
pub open spec fn half_tuned_t<T: UsbTransport>(m: HalfModel<T::State>, i: usize, khz: u32) -> Ran<
    HalfModel<T::State>,
    (),
> {
    let addr = demod_of(i).addr;
    let (w1, r1) = demod_t_ready::<I2cBus<T>>(m.wire(), addr);
    let m1 = m.with_relay(Relay { addr, bus: w1 });
    match r1 {
        Err(e) => (m1, Err(e)),
        Ok(_) => {
            let (relay, c, r2) = r850_tuned::<TunerBus<I2cBus<T>>>(m1.relay, m.t[i - 2], khz);
            let m2 = HalfModel { relay, t: m.t.update(i - 2, c), ..m1 };
            match r2 {
                Err(e) => (m2, Err(e)),
                Ok(_) => {
                    let (w3, r3) = demod_t_set::<I2cBus<T>>(relay.bus, addr);
                    (m2.with_wire(w3), r3)
                },
            }
        },
    }
}

/// What setting an ISDB-S tuner and its demodulator on a signal does and gives.
pub open spec fn half_tuned_s<T: UsbTransport>(
    m: HalfModel<T::State>,
    i: usize,
    params: TuneParams,
) -> Ran<HalfModel<T::State>, ()> {
    let addr = demod_of(i).addr;
    let (w1, r1) = demod_s_ready::<I2cBus<T>>(m.wire(), demod_of(i));
    let m1 = m.with_relay(Relay { addr, bus: w1 });
    match r1 {
        Err(e) => (m1, Err(e)),
        Ok(_) => match params.if_khz() {
            Err(e) => (m1, Err(e)),
            Ok(khz) => {
                let (relay, t, r2) = rt710_tuned::<TunerBus<I2cBus<T>>>(
                    m1.relay,
                    m.s[i as int],
                    khz,
                );
                let m2 = HalfModel { relay, s: m.s.update(i as int, t), ..m1 };
                match r2 {
                    Err(e) => (m2, Err(e)),
                    Ok(_) => {
                        let (w3, r3) = tc90522::written::<I2cBus<T>>(
                            relay.bus,
                            addr,
                            tc90522::agc_s_regs(demod_of(i).is_secondary, true),
                        );
                        (m2.with_wire(w3), r3)
                    },
                }
            },
        },
    }
}

/// What setting a tuner and its demodulator on a signal does and gives.
pub open spec fn half_tuned<T: UsbTransport>(
    m: HalfModel<T::State>,
    i: usize,
    params: TuneParams,
) -> Ran<HalfModel<T::State>, ()> {
    if i < 2 {
        half_tuned_s::<T>(m, i, params)
    } else {
        half_tuned_t::<T>(m, i, params.frequency_khz)
    }
}

/// What asking for the lock of a tuner does and gives.
pub open spec fn half_lock<T: UsbTransport>(m: HalfModel<T::State>, i: usize) -> Ran<
    HalfModel<T::State>,
    bool,
> {
    if i < 2 {
        let (wire, r) = tc90522::locked_s::<I2cBus<T>>(m.wire(), demod_of(i).addr);
        (m.with_wire(wire), r)
    } else {
        let (wire, locked) = tc90522::locked_t::<I2cBus<T>>(m.wire(), demod_of(i).addr);
        (m.with_wire(wire), Ok(locked))
    }
}

/// What asking for the signal of a tuner does and gives.
pub open spec fn half_signal<T: UsbTransport>(m: HalfModel<T::State>, i: usize) -> Ran<
    HalfModel<T::State>,
    Signal,
> {
    let (m1, r1) = half_lock::<T>(m, i);
    match r1 {
        Err(e) => (m1, Err(e)),
        Ok(locked) => if i < 2 {
            let (wire, r2) = tc90522::word_read::<I2cBus<T>>(m1.relay.bus, demod_of(i).addr, 0xbc);
            match r2 {
                Err(e) => (m1.with_wire(wire), Err(e)),
                Ok(raw) => (
                    m1.with_wire(wire),
                    Ok(Signal { locked, cnr: Some(Cnr::IsdbS(raw)) }),
                ),
            }
        } else {
            let (wire, r2) = tc90522::cndat_t::<I2cBus<T>>(m1.relay.bus, demod_of(i).addr);
            match r2 {
                Err(e) => (m1.with_wire(wire), Err(e)),
                Ok(raw) => (
                    m1.with_wire(wire),
                    Ok(Signal { locked, cnr: Some(Cnr::IsdbT(raw)) }),
                ),
            }
        },
    }
}

/// What letting the TS of a tuner out does and gives.
pub open spec fn half_captured<T: UsbTransport>(m: HalfModel<T::State>, i: usize, on: bool) -> Ran<
    HalfModel<T::State>,
    (),
> {
    let (wire, r) = if i < 2 {
        tc90522::written::<I2cBus<T>>(
            m.wire(),
            demod_of(i).addr,
            tc90522::ts_pins_s_regs(on),
        )
    } else {
        tc90522::reg_written::<I2cBus<T>>(
            m.wire(),
            demod_of(i).addr,
            0x1d,
            tc90522::ts_pins_t_value(on),
        )
    };
    (m.with_wire(wire), r)
}

/// What switching the LNB supply for a tuner does and gives; an ISDB-T tuner has
/// none.
pub open spec fn half_lnb<T: UsbTransport>(m: HalfModel<T::State>, i: usize, on: bool) -> Ran<
    HalfModel<T::State>,
    (),
> {
    if i >= 2 {
        (m, Err(Error::Unsupported(System::IsdbT)))
    } else {
        let (b, wants, r) = board::lnb_set::<T>(m.relay.bus.bridge, m.lnb, i as int, on);
        (HalfModel { lnb: wants, ..m.with_bridge(b) }, r)
    }
}

/// Whether the RT710 can be set to the intermediate frequency.
pub open spec fn if_fits(params: TuneParams) -> bool {
    params.if_khz() matches Ok(khz) ==> khz <= RT710_MAX_KHZ
}

impl<T: UsbTransport> Half<T> {
    fn tune_t(&mut self, i: usize, khz: u32) -> (r: Result<(), Error>)
        requires
            old(self)@.wf(),
            2 <= i < 4,
        ensures
            final(self)@.wf(),
            (final(self)@, r) == half_tuned_t::<T>(old(self)@, i, khz),
    {
        self.point(i);
        let addr: u8 = demod(i).addr;
        let d: Tc90522 = demod(i);
        let r = reg_if_ok(&mut self.bus.i2c, Ok(()), addr, 0x47, 0x30);
        let r = d.agc_t_if_ok(&mut self.bus.i2c, r, false);
        match reg_if_ok(&mut self.bus.i2c, r, addr, 0x76, 0x0c) {
            Ok(_) => {},
            Err(e) => return Err(e),
        }
        assert(self@.t[i - 2] == self.t@[i - 2]@);
        let r: Result<(), Error> = tune_r850(&mut self.t[i - 2], &mut self.bus, khz);
        assert(self@.t =~= old(self)@.t.update(i - 2, self.t@[i - 2]@));
        match r {
            Ok(_) => {},
            Err(e) => return Err(e),
        }
        let r = d.agc_t_if_ok(&mut self.bus.i2c, Ok(()), true);
        let r = reg_if_ok(&mut self.bus.i2c, r, addr, 0x71, 0x21);
        let r = reg_if_ok(&mut self.bus.i2c, r, addr, 0x72, 0x25);
        reg_if_ok(&mut self.bus.i2c, r, addr, 0x75, 0x08)
    }

    fn tune_s(&mut self, i: usize, params: &TuneParams) -> (r: Result<(), Error>)
        requires
            old(self)@.wf(),
            i < 2,
            if_fits(*params),
        ensures
            final(self)@.wf(),
            (final(self)@, r) == half_tuned_s::<T>(old(self)@, i, *params),
    {
        self.point(i);
        let addr: u8 = demod(i).addr;
        let d: Tc90522 = demod(i);
        let r = d.agc_s_if_ok(&mut self.bus.i2c, Ok(()), false);
        let r = reg_if_ok(&mut self.bus.i2c, r, addr, 0x8e, 0x06);
        match reg_if_ok(&mut self.bus.i2c, r, addr, 0xa3, 0xf7) {
            Ok(_) => {},
            Err(e) => return Err(e),
        }
        let khz: u32 = match params.if_frequency_khz() {
            Ok(khz) => khz,
            Err(e) => return Err(e),
        };
        let mut tuner: Rt710 = self.s[i];
        let r: Result<(), Error> = tune_rt710(&mut tuner, &mut self.bus, khz);
        self.s.set(i, tuner);
        match r {
            Ok(_) => {},
            Err(e) => return Err(e),
        }
        d.set_agc_s(&mut self.bus.i2c, true)
    }

    /// Sets a tuner and its demodulator on a signal.
    pub fn tune(&mut self, i: usize, params: &TuneParams) -> (r: Result<(), Error>)
        requires
            old(self)@.wf(),
            i < 4,
            i < 2 ==> if_fits(*params),
        ensures
            final(self)@.wf(),
            (final(self)@, r) == half_tuned::<T>(old(self)@, i, *params),
    {
        if i < 2 {
            self.tune_s(i, params)
        } else {
            self.tune_t(i, params.frequency_khz)
        }
    }

    fn locked(&mut self, i: usize) -> (r: Result<bool, Error>)
        requires
            old(self)@.wf(),
            i < 4,
        ensures
            final(self)@.wf(),
            (final(self)@, r) == half_lock::<T>(old(self)@, i),
    {
        self.bus.i2c.bus = I2C_BUS;
        if i < 2 {
            demod(i).is_signal_locked_s(&mut self.bus.i2c)
        } else {
            demod(i).is_signal_locked_t(&mut self.bus.i2c)
        }
    }

    /// Whether a tuner is locked on its signal.
    pub fn lock(&mut self, i: usize) -> (r: Result<Lock, Error>)
        requires
            old(self)@.wf(),
            i < 4,
        ensures
            final(self)@.wf(),
            ({
                let (m, locked) = half_lock::<T>(old(self)@, i);
                &&& final(self)@ == m
                &&& match locked {
                    Ok(true) => r == Ok::<Lock, Error>(Lock::Locked),
                    Ok(false) => r == Ok::<Lock, Error>(Lock::Waiting),
                    Err(e) => r == Err::<Lock, Error>(e),
                }
            }),
    {
        match self.locked(i) {
            Ok(true) => Ok(Lock::Locked),
            Ok(false) => Ok(Lock::Waiting),
            Err(e) => Err(e),
        }
    }

    /// Picks the stream out of the transponder; ISDB-T has but the one.
    pub fn select(&mut self, i: usize, params: &TuneParams) -> (r: Result<(), Error>)
        requires
            old(self)@.wf(),
            i < 4,
        ensures
            final(self)@.wf(),
            params.stream_id is None ==> final(self)@ == old(self)@ && r == Ok::<(), Error>(()),
            params.stream_id matches Some(id) ==> ({
                let (wire, selected) = tsid_selected::<I2cBus<T>>(
                    old(self)@.wire(),
                    demod_of(i).addr,
                    id.0,
                );
                final(self)@ == old(self)@.with_wire(wire) && r == selected
            }),
    {
        match params.stream_id {
            None => Ok(()),
            Some(id) => {
                self.bus.i2c.bus = I2C_BUS;
                select_tsid(&demod(i), &mut self.bus.i2c, id.0)
            },
        }
    }

    /// The signal of a tuner.
    pub fn signal(&mut self, i: usize) -> (r: Result<Signal, Error>)
        requires
            old(self)@.wf(),
            i < 4,
        ensures
            final(self)@.wf(),
            (final(self)@, r) == half_signal::<T>(old(self)@, i),
    {
        let locked: bool = match self.locked(i) {
            Ok(locked) => locked,
            Err(e) => return Err(e),
        };
        if i < 2 {
            match demod(i).get_cn_s(&mut self.bus.i2c) {
                Ok(raw) => Ok(Signal { locked, cnr: Some(Cnr::IsdbS(raw)) }),
                Err(e) => Err(e),
            }
        } else {
            match demod(i).get_cndat_t(&mut self.bus.i2c) {
                Ok(raw) => Ok(Signal { locked, cnr: Some(Cnr::IsdbT(raw)) }),
                Err(e) => Err(e),
            }
        }
    }

    /// Switches the LNB supply for a tuner.
    pub fn set_lnb(&mut self, i: usize, on: bool) -> (r: Result<(), Error>)
        requires
            old(self)@.wf(),
            i < 4,
        ensures
            final(self)@.wf(),
            (final(self)@, r) == half_lnb::<T>(old(self)@, i, on),
    {
        if i >= 2 {
            return Err(Error::Unsupported(System::IsdbT));
        }
        let r: Result<(), Error> = self.lnb.set(&mut self.bus.i2c.it930x, i, on);
        assert(self@ =~= half_lnb::<T>(old(self)@, i, on).0);
        r
    }

    /// Lets the TS of a tuner out to the bridge, or not.
    pub fn set_capture(&mut self, i: usize, on: bool) -> (r: Result<(), Error>)
        requires
            old(self)@.wf(),
            i < 4,
        ensures
            final(self)@.wf(),
            (final(self)@, r) == half_captured::<T>(old(self)@, i, on),
    {
        self.bus.i2c.bus = I2C_BUS;
        if i < 2 {
            demod(i).enable_ts_pins_s(&mut self.bus.i2c, on)
        } else {
            demod(i).enable_ts_pins_t(&mut self.bus.i2c, on)
        }
    }
}

/// A card: one board, or the two of a Q model.
pub struct Px4<T> {
    pub halves: Vec<Half<T>>,
}

/// What the boards of a card hold.
pub open spec fn halves_of<T: UsbTransport>(halves: Seq<Half<T>>) -> Seq<HalfModel<T::State>> {
    halves.map(|i: int, h: Half<T>| h@)
}

impl<T: UsbTransport> View for Px4<T> {
    type V = Seq<HalfModel<T::State>>;

    open spec fn view(&self) -> Seq<HalfModel<T::State>> {
        halves_of(self.halves@)
    }
}

/// Every board of a card is well-formed.
pub open spec fn card_wf<S>(m: Seq<HalfModel<S>>) -> bool {
    forall|i: int| 0 <= i < m.len() ==> (#[trigger] m[i]).wf()
}

/// No tuner of a card is open.
pub open spec fn all_closed<S>(m: Seq<HalfModel<S>>) -> bool {
    forall|i: int| 0 <= i < m.len() ==> (#[trigger] m[i]).open_count == 0
}

/// What switching the power of the boards from `i` on does and gives: each is
/// switched whatever came of the others, and the first failure counts.
pub open spec fn card_powered<T: UsbTransport>(
    m: Seq<HalfModel<T::State>>,
    on: bool,
    i: int,
    before: Result<(), Error>,
) -> Ran<Seq<HalfModel<T::State>>, ()>
    decreases m.len() - i,
{
    if i < 0 || i >= m.len() {
        (m, before)
    } else {
        let (b, r) = board::powered::<T>(m[i].relay.bus.bridge, GPIO_BACKEND_RESET, 80, on);
        card_powered::<T>(
            m.update(i, m[i].with_bridge(b)),
            on,
            i + 1,
            if before is Err {
                before
            } else {
                r
            },
        )
    }
}

/// What opening a tuner of a card does and gives. The first tuner of the card
/// powers it; if opening it fails, the power goes off again, and the tuners of a
/// board none of which is open are ended.
pub open spec fn card_opened<T: UsbTransport>(m: Seq<HalfModel<T::State>>, index: usize) -> Ran<
    Seq<HalfModel<T::State>>,
    (),
> {
    let h = index / 4;
    let first = all_closed(m);
    let (m1, r1) = if first {
        card_powered::<T>(m, true, 0, Ok(()))
    } else {
        (m, Ok(()))
    };
    match r1 {
        Err(e) => (m1, Err(e)),
        Ok(_) => {
            let (half, r2) = half_opened::<T>(m1[h as int], index % 4);
            match r2 {
                Ok(_) => (
                    m1.update(
                        h as int,
                        HalfModel { open_count: (half.open_count + 1) as usize, ..half },
                    ),
                    Ok(()),
                ),
                Err(e) => {
                    let ended = if half.open_count == 0 {
                        half_ended(half)
                    } else {
                        half
                    };
                    let m2 = m1.update(h as int, ended);
                    if first {
                        (card_powered::<T>(m2, false, 0, Ok(())).0, Err(e))
                    } else {
                        (m2, Err(e))
                    }
                },
            }
        },
    }
}

/// What closing a tuner of a card does: the last tuner of a board ends its
/// tuners, the last of the card switches the power off.
pub open spec fn card_closed<T: UsbTransport>(m: Seq<HalfModel<T::State>>, index: usize) -> Seq<
    HalfModel<T::State>,
> {
    let h = (index / 4) as int;
    let half = HalfModel { open_count: (m[h].open_count - 1) as usize, ..m[h] };
    let m1 = m.update(
        h,
        if half.open_count == 0 {
            half_ended(half)
        } else {
            tuner_slept::<T>(half, index % 4).0
        },
    );
    if all_closed(m1) {
        card_powered::<T>(m1, false, 0, Ok(())).0
    } else {
        m1
    }
}

impl<T: UsbTransport> Px4<T> {
    /// Whether no tuner of the card is open.
    fn closed(&self) -> (r: bool)
        ensures
            r == all_closed(self@),
    {
        let mut i: usize = 0;
        while i < self.halves.len()
            invariant
                i <= self.halves@.len(),
                forall|k: int| 0 <= k < i ==> (#[trigger] self@[k]).open_count == 0,
            decreases self.halves@.len() - i,
        {
            assert(self@[i as int].open_count == self.halves@[i as int].open_count);
            if self.halves[i].open_count != 0 {
                return false;
            }
            i = i + 1;
        }
        true
    }

    /// Powers every board: those of a Q model go on and off together.
    fn power(&mut self, on: bool) -> (r: Result<(), Error>)
        requires
            card_wf(old(self)@),
        ensures
            card_wf(final(self)@),
            (final(self)@, r) == card_powered::<T>(old(self)@, on, 0, Ok(())),
            final(self)@.len() == old(self)@.len(),
            forall|k: int|
                0 <= k < old(self)@.len() ==> (#[trigger] final(self)@[k]).open_count
                    == old(self)@[k].open_count,
    {
        let ghost whole = card_powered::<T>(self@, on, 0, Ok(()));
        let mut result: Result<(), Error> = Ok(());
        let mut i: usize = 0;
        let n: usize = self.halves.len();
        while i < n
            invariant
                i <= n,
                n == self.halves@.len(),
                n == old(self)@.len(),
                card_wf(self@),
                whole == card_powered::<T>(old(self)@, on, 0, Ok(())),
                card_powered::<T>(self@, on, i as int, result) == whole,
                forall|k: int|
                    0 <= k < n ==> (#[trigger] self@[k]).open_count == old(self)@[k].open_count,
            decreases n - i,
        {
            let ghost before = self@;
            let ghost b0 = before[i as int].relay.bus.bridge;
            assert(before[i as int] == self.halves@[i as int]@);
            let r: Result<(), Error> = power_backend(
                &mut self.halves[i].bus.i2c.it930x,
                GPIO_BACKEND_RESET,
                80,
                on,
            );
            assert(self@ =~= before.update(
                i as int,
                before[i as int].with_bridge(
                    board::powered::<T>(b0, GPIO_BACKEND_RESET, 80, on).0,
                ),
            ));
            result = match result {
                Ok(_) => r,
                Err(e) => Err(e),
            };
            i = i + 1;
        }
        result
    }

    /// Readies a tuner for use.
    pub fn open(&mut self, index: usize) -> (r: Result<(), Error>)
        requires
            card_wf(old(self)@),
            index / 4 < old(self)@.len(),
            old(self)@[(index / 4) as int].open_count < usize::MAX,
        ensures
            card_wf(final(self)@),
            (final(self)@, r) == card_opened::<T>(old(self)@, index),
            final(self)@.len() == old(self)@.len(),
    {
        let h: usize = index / 4;
        let first: bool = self.closed();
        if first {
            match self.power(true) {
                Ok(_) => {},
                Err(e) => return Err(e),
            }
        }
        let ghost m1 = self@;
        assert(m1[h as int] == self.halves@[h as int]@);
        let result: Result<(), Error> = self.halves[h].try_open(index % 4);
        let ghost half = half_opened::<T>(m1[h as int], index % 4).0;
        assert(self@ =~= m1.update(h as int, half));
        match result {
            Ok(_) => {
                self.halves[h].open_count = self.halves[h].open_count + 1;
                assert(self@ =~= m1.update(
                    h as int,
                    HalfModel { open_count: (half.open_count + 1) as usize, ..half },
                ));
                Ok(())
            },
            Err(e) => {
                assert(self@[h as int] == self.halves@[h as int]@);
                if self.halves[h].open_count == 0 {
                    self.halves[h].term();
                    assert(self@ =~= m1.update(h as int, half_ended(half)));
                }
                if first {
                    let _ = self.power(false);
                }
                Err(e)
            },
        }
    }

    /// Puts a tuner back to rest; it cannot fail, as there is no one to tell.
    pub fn close(&mut self, index: usize)
        requires
            card_wf(old(self)@),
            index / 4 < old(self)@.len(),
            old(self)@[(index / 4) as int].open_count > 0,
        ensures
            card_wf(final(self)@),
            final(self)@ == card_closed::<T>(old(self)@, index),
            final(self)@.len() == old(self)@.len(),
    {
        let h: usize = index / 4;
        let ghost m0 = self@;
        assert(m0[h as int] == self.halves@[h as int]@);
        self.halves[h].open_count = self.halves[h].open_count - 1;
        let ghost half = HalfModel {
            open_count: (m0[h as int].open_count - 1) as usize,
            ..m0[h as int]
        };
        assert(self.halves@[h as int]@ =~= half);
        if self.halves[h].open_count == 0 {
            self.halves[h].term();
            assert(self@ =~= m0.update(h as int, half_ended(half)));
        } else {
            let _ = self.halves[h].sleep(index % 4);
            assert(self@ =~= m0.update(h as int, tuner_slept::<T>(half, index % 4).0));
        }
        if self.closed() {
            let _ = self.power(false);
        }
    }
}

/// The inputs of a board: the TS of tuner `i` comes in on port `i + 1`, tagged
/// with that number.
pub open spec fn inputs() -> Seq<Input> {
    seq![
        Input { port: 1, slave: 0, i2c_bus: 2, i2c_addr: 0x11, sync_byte: 0x17 },
        Input { port: 2, slave: 1, i2c_bus: 2, i2c_addr: 0x13, sync_byte: 0x27 },
        Input { port: 3, slave: 2, i2c_bus: 2, i2c_addr: 0x10, sync_byte: 0x37 },
        Input { port: 4, slave: 3, i2c_bus: 2, i2c_addr: 0x12, sync_byte: 0x47 },
    ]
}

fn board_inputs() -> (r: [Input; 4])
    ensures
        r@ == inputs(),
{
    [
        Input { port: 1, slave: 0, i2c_bus: 2, i2c_addr: 0x11, sync_byte: 0x17 },
        Input { port: 2, slave: 1, i2c_bus: 2, i2c_addr: 0x13, sync_byte: 0x27 },
        Input { port: 3, slave: 2, i2c_bus: 2, i2c_addr: 0x10, sync_byte: 0x37 },
        Input { port: 4, slave: 3, i2c_bus: 2, i2c_addr: 0x12, sync_byte: 0x47 },
    ]
}

/// What setting the GPIOs of a board up does and gives: the chips are off and in
/// reset, the LNB supply is off.
pub open spec fn gpios_set<T: UsbTransport>(b: Bridge<T::State>) -> Ran<Bridge<T::State>, ()> {
    let (b1, r1) = it930x::gpio_made_output::<T>(b, GPIO_BACKEND_RESET);
    match r1 {
        Err(e) => (b1, Err(e)),
        Ok(_) => {
            let (b2, r2) = it930x::gpio_made_output::<T>(b1, board::GPIO_BACKEND_POWER);
            match r2 {
                Err(e) => (b2, Err(e)),
                Ok(_) => {
                    let (b3, r3) = it930x::gpio_written::<T>(
                        b2,
                        board::GPIO_BACKEND_POWER,
                        false,
                    );
                    match r3 {
                        Err(e) => (b3, Err(e)),
                        Ok(_) => {
                            let (b4, r4) = it930x::gpio_written::<T>(
                                b3,
                                GPIO_BACKEND_RESET,
                                true,
                            );
                            match r4 {
                                Err(e) => (b4, Err(e)),
                                Ok(_) => lnb_gpio_set::<T>(b4),
                            }
                        },
                    }
                },
            }
        },
    }
}

/// What setting the GPIO of the LNB supply up does and gives.
pub open spec fn lnb_gpio_set<T: UsbTransport>(b: Bridge<T::State>) -> Ran<Bridge<T::State>, ()> {
    let (b1, r1) = it930x::gpio_made_output::<T>(b, LNB_GPIO);
    match r1 {
        Err(e) => (b1, Err(e)),
        Ok(_) => it930x::gpio_written::<T>(b1, LNB_GPIO, false),
    }
}

pub(crate) fn set_lnb_gpio<T: UsbTransport>(bridge: &mut It930x<T>) -> (r: Result<(), Error>)
    ensures
        (final(bridge)@, r) == lnb_gpio_set::<T>(old(bridge)@),
{
    match bridge.gpio_output(LNB_GPIO) {
        Ok(_) => {},
        Err(e) => return Err(e),
    }
    bridge.write_gpio(LNB_GPIO, false)
}

fn set_gpios<T: UsbTransport>(bridge: &mut It930x<T>) -> (r: Result<(), Error>)
    ensures
        (final(bridge)@, r) == gpios_set::<T>(old(bridge)@),
{
    match bridge.gpio_output(GPIO_BACKEND_RESET) {
        Ok(_) => {},
        Err(e) => return Err(e),
    }
    match bridge.gpio_output(board::GPIO_BACKEND_POWER) {
        Ok(_) => {},
        Err(e) => return Err(e),
    }
    match bridge.write_gpio(board::GPIO_BACKEND_POWER, false) {
        Ok(_) => {},
        Err(e) => return Err(e),
    }
    match bridge.write_gpio(GPIO_BACKEND_RESET, true) {
        Ok(_) => {},
        Err(e) => return Err(e),
    }
    set_lnb_gpio(bridge)
}

/// A bridge just made for a transport.
pub open spec fn fresh<S>(usb: S, usb_version: u16) -> Bridge<S> {
    Bridge {
        usb,
        seq: 0,
        max_bulk_size: if usb_version == 0x0110 {
            64
        } else {
            512
        },
        gpio_out: 0,
        gpio_on: 0,
    }
}

/// What opening the bridge of a board does and gives.
pub open spec fn half_bridge<T: UsbTransport>(b: Bridge<T::State>, firmware: Seq<u8>) -> Ran<
    Bridge<T::State>,
    (),
> {
    let (b1, r1) = board::bridge_opened::<T>(b, inputs(), firmware);
    match r1 {
        Err(e) => (b1, Err(e)),
        Ok(_) => gpios_set::<T>(b1),
    }
}

/// Opens a board of a card: its bridge is set up, its chips stay off.
pub fn open_half<T: UsbTransport>(usb: T, usb_version: u16, firmware: &[u8]) -> (r: Result<
    Half<T>,
    Error,
>)
    ensures
        ({
            let (b, opened) = half_bridge::<T>(fresh(usb.state(), usb_version), firmware@);
            match opened {
                Err(e) => r == Err::<Half<T>, Error>(e),
                Ok(_) => {
                    &&& r matches Ok(half)
                    &&& half@.wf()
                    &&& half@.relay == (Relay {
                        addr: demod_of(0).addr,
                        bus: Wire { bridge: b, bus: I2C_BUS },
                    })
                    &&& half@.open_count == 0
                    &&& half@.lnb == Seq::new(4, |i: int| false)
                    &&& forall|i: int|
                        0 <= i < 2 ==> #[trigger] half@.s[i] == (Rt710 {
                            i2c_addr: RT710_ADDR,
                            config: rt710_settings(),
                            chip: None,
                            freq: 0,
                        })
                    &&& forall|i: int|
                        0 <= i < 2 ==> #[trigger] half@.t[i] == r850::fresh(
                            R850_ADDR,
                            r850_settings(i == 0),
                        )
                },
            }
        }),
{
    let inputs: [Input; 4] = board_inputs();
    let mut bridge: It930x<T> = match board::open_bridge(usb, usb_version, &inputs, firmware) {
        Ok(bridge) => bridge,
        Err(e) => return Err(e),
    };
    match set_gpios(&mut bridge) {
        Ok(_) => {},
        Err(e) => return Err(e),
    }
    let mut s: Vec<Rt710> = Vec::new();
    s.push(Rt710::new(RT710_ADDR, rt710_config()));
    s.push(Rt710::new(RT710_ADDR, rt710_config()));
    let mut t: Vec<R850> = Vec::new();
    t.push(R850::new(R850_ADDR, r850_config(true)));
    t.push(R850::new(R850_ADDR, r850_config(false)));
    let bus: TunerBus<I2cBus<T>> = demod(0).tuner_bus(bridge.i2c(I2C_BUS));
    Ok(Half { bus, s, t, open_count: 0, lnb: Lnb::new(4) })
}

/// The stream of each tuner of a board is told apart by its place: the bridge marks the
/// packets of the demodulator of tuner `i` the way those of input `i` are known, and finds
/// the demodulator where the tuner does.
pub proof fn streams_are_marked_by_place(i: usize)
    requires
        i < 4,
    ensures
        inputs().len() == 4,
        ({
            let input = inputs()[i as int];
            &&& input.sync_byte == crate::stream::tag_of(true, i)
            &&& input.i2c_addr == demod_of(i).addr
            &&& input.i2c_bus == I2C_BUS
            &&& input.port == i + 1
            &&& input.slave == i
        }),
{
}

} // verus!
