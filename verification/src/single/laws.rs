//! What tuning a device with a single tuner comes to.

use vstd::prelude::*;

use crate::it930x::{I2cBus, Wire};
use crate::px4;
use crate::r850;
use crate::rt710;
use crate::single;
use crate::single::{Model, SingleModel};
use crate::tc90522;
use crate::tc90522::{Relay, TunerBus};
use crate::traits;
use crate::types::{Polarization, System, TuneParams};
use crate::usb::UsbTransport;

verus! {

proof fn setting_on_leaves_the_tuner<T: UsbTransport>(
    w: Wire<T::State>,
    model: Model,
    at: u8,
    addr: u8,
    file: spec_fn(Relay<Wire<T::State>>) -> Seq<u8>,
    len: nat,
)
    requires
        px4::laws::is_behind::<T>(addr, file, len),
    ensures
        file(Relay { bus: single::set_on_t::<I2cBus<T>>(w, model).0, addr: at }) == file(
            Relay { bus: w, addr: at },
        ),
{
    reveal(tc90522::regs_then);
    reveal(traits::delay_then);
    let demod = model.demod_t().addr;
    let agc = tc90522::agc_t_regs(true);
    let more = seq![(0x71u8, 0x01u8), (0x72u8, 0x25u8), (0x75u8, 0x00u8)];
    let p1 = tc90522::regs_then::<I2cBus<T>>((w, Ok(())), demod, agc);
    px4::laws::demodulator_is_apart::<T>(w, demod, agc, at, addr, file, len);
    px4::laws::demodulator_is_apart::<T>(p1.0, demod, more, at, addr, file, len);
    let p2 = if model == Model::Isdbt2071 {
        p1
    } else {
        tc90522::regs_then::<I2cBus<T>>(p1, demod, more)
    };
    assert(file(
        Relay { bus: <I2cBus<T> as crate::traits::I2c>::on_delay(p2.0, 100), addr: at },
    ) == file(Relay { bus: p2.0, addr: at }));
}

/// A tuner that was tuned to ISDB-T is on the signal: its oscillator stands 4063 kHz below
/// the frequency on air.
pub proof fn terrestrial_tuning_lands_on_the_signal<T: UsbTransport>(
    m: SingleModel<T::State>,
    params: TuneParams,
    file: spec_fn(Relay<Wire<T::State>>) -> Seq<u8>,
)
    requires
        m.wf(),
        params.system == System::IsdbT,
        single::tuned::<T>(m, params).1 is Ok,
        px4::laws::is_behind::<T>(m.r850.i2c_addr, file, 48),
        r850::is_told(m.r850, px4::isdb_t()),
    ensures
        r850::stands_for(
            file(single::tuned::<T>(m, params).0.relay),
            24_000,
            params.frequency_khz - 4063,
        ),
        single::tuned::<T>(m, params).0.system == Some(System::IsdbT),
{
    let (w1, r1) = single::ready_t::<I2cBus<T>>(m.wire(), m.model);
    let start = Relay { addr: m.demod_t.addr, bus: w1 };
    px4::laws::r850_is_on_the_signal::<TunerBus<I2cBus<T>>>(
        start,
        m.r850,
        params.frequency_khz,
        file,
    );
    let relay = px4::r850_tuned::<TunerBus<I2cBus<T>>>(start, m.r850, params.frequency_khz).0;
    setting_on_leaves_the_tuner::<T>(
        relay.bus,
        m.model,
        relay.addr,
        m.r850.i2c_addr,
        file,
        48,
    );
}

/// A tuner that was tuned to ISDB-S is on the signal: on the frequency on air less the
/// oscillator of the LNB.
pub proof fn satellite_tuning_lands_on_the_signal<T: UsbTransport>(
    m: SingleModel<T::State>,
    params: TuneParams,
    file: spec_fn(Relay<Wire<T::State>>) -> Seq<u8>,
)
    requires
        m.wf(),
        params.system == System::IsdbS,
        single::tuned::<T>(m, params).1 is Ok,
        m.rt710 is Some,
        m.rt710->0.chip is Some,
        px4::laws::is_behind::<T>(m.rt710->0.i2c_addr, file, 16),
    ensures
        ({
            let oscillator: int = if params.polarization == Some(Polarization::Left) {
                9_505_000
            } else {
                10_678_000
            };
            let khz = params.frequency_khz - oscillator;
            587_500 <= khz <= 2_350_000 ==> rt710::stands_for(
                m.rt710->0.chip->0,
                file(single::tuned::<T>(m, params).0.relay),
                24_000,
                khz as u32,
            )
        }),
        single::tuned::<T>(m, params).0.system == Some(System::IsdbS),
{
    let demod_s = m.demod_s->0;
    let (w1, r1) = single::ready_s::<I2cBus<T>>(m.wire(), m.model, demod_s);
    let start = Relay { addr: demod_s.addr, bus: w1 };
    let khz = params.if_khz()->Ok_0;
    if 587_500 <= khz <= 2_350_000 {
        px4::laws::rt710_is_on_the_signal::<TunerBus<I2cBus<T>>>(start, m.rt710->0, khz, file);
    }
    let relay = px4::rt710_tuned::<TunerBus<I2cBus<T>>>(start, m.rt710->0, khz).0;
    px4::laws::demodulator_is_apart::<T>(
        relay.bus,
        demod_s.addr,
        tc90522::agc_s_regs(demod_s.is_secondary, true),
        relay.addr,
        m.rt710->0.i2c_addr,
        file,
        16,
    );
}

} // verus!
