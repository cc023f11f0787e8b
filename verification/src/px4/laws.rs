//! What tuning a board comes to.

use vstd::prelude::*;

use crate::it930x::{I2cBus, Wire};
use crate::px4;
use crate::px4::HalfModel;
use crate::r850;
use crate::rt710;
use crate::rt710::Rt710;
use crate::shadow;
use crate::tc90522;
use crate::tc90522::{Relay, TunerBus};
use crate::traits;
use crate::traits::{I2c, Ran};
use crate::types::TuneParams;
use crate::usb::UsbTransport;

verus! {

/// Whether reading the chip at `addr` of a bus leaves its registers as they are.
pub open spec fn reads_leave<B: I2c>(addr: u8, file: spec_fn(B::State) -> Seq<u8>) -> bool {
    forall|s: B::State, data: Seq<u8>, len: usize|
        file((#[trigger] B::on_read(s, addr, data, len)).0) == file(s)
}

proof fn r850_waits<B: I2c>(
    s: B::State,
    c: r850::Chip,
    tries: nat,
    file: spec_fn(B::State) -> Seq<u8>,
)
    requires
        reads_leave::<B>(c.i2c_addr, file),
        shadow::takes_writes::<B>(c.i2c_addr, file),
    ensures
        file(px4::r850_awaited::<B>(s, c, tries).0) == file(s),
    decreases tries,
{
    let s1 = px4::r850_lock::<B>(s, c).0;
    if tries > 1 {
        r850_waits::<B>(B::on_delay(s1, 10), c, (tries - 1) as nat, file);
    }
}

proof fn rt710_waits<B: I2c>(
    s: B::State,
    t: Rt710,
    tries: nat,
    file: spec_fn(B::State) -> Seq<u8>,
)
    requires
        reads_leave::<B>(t.i2c_addr, file),
        shadow::takes_writes::<B>(t.i2c_addr, file),
    ensures
        file(px4::rt710_awaited::<B>(s, t, tries).0) == file(s),
    decreases tries,
{
    let s1 = px4::rt710_lock::<B>(s, t).0;
    if tries > 1 {
        rt710_waits::<B>(B::on_delay(s1, 10), t, (tries - 1) as nat, file);
    }
}

/// The tuner of an ISDB-T signal that was set is on the signal: its oscillator stands
/// 4063 kHz below it.
pub proof fn r850_is_on_the_signal<B: I2c>(
    s: B::State,
    c: r850::Chip,
    khz: u32,
    file: spec_fn(B::State) -> Seq<u8>,
)
    requires
        c.wf(),
        r850::is_told(c, px4::isdb_t()),
        17_400 <= c.config.xtal < 0x8000,
        c.config.xtal % 4 == 0,
        shadow::takes_writes::<B>(c.i2c_addr, file),
        reads_leave::<B>(c.i2c_addr, file),
        forall|s: B::State| (#[trigger] file(s)).len() == 48,
        px4::r850_tuned::<B>(s, c, khz).2 is Ok,
    ensures
        r850::stands_for(file(px4::r850_tuned::<B>(s, c, khz).0), c.config.xtal, khz - 4063),
{
    r850::systems_are_received_on_their_side::<B>(s, c, px4::isdb_t(), khz, file);
    let (s1, c1, r1) = r850::tuned::<B>(s, c, khz);
    tuning_keeps_the_address::<B>(s, c, khz);
    r850_waits::<B>(s1, c1, 50, file);
}

proof fn tuning_keeps_the_address<B: I2c>(s: B::State, c: r850::Chip, khz: u32)
    requires
        r850::tuned::<B>(s, c, khz).2 is Ok,
    ensures
        r850::tuned::<B>(s, c, khz).1.i2c_addr == c.i2c_addr,
{
    r850::tuning_keeps_orders::<B>(s, c, khz);
}

/// The tuner of an ISDB-S signal that was set is on the signal.
pub proof fn rt710_is_on_the_signal<B: I2c>(
    s: B::State,
    t: Rt710,
    khz: u32,
    file: spec_fn(B::State) -> Seq<u8>,
)
    requires
        9_300 <= t.config.xtal < 0x8000,
        t.chip is Some,
        t.chip == Some(rt710::ChipType::Rt710) ==> 587_500 <= khz,
        146_875 <= khz <= 2_350_000,
        shadow::takes_writes::<B>(t.i2c_addr, file),
        reads_leave::<B>(t.i2c_addr, file),
        file(s).len() == 16,
        px4::rt710_tuned::<B>(s, t, khz).2 is Ok,
    ensures
        rt710::stands_for(t.chip->0, file(px4::rt710_tuned::<B>(s, t, khz).0), t.config.xtal, khz),
        px4::rt710_tuned::<B>(s, t, khz).1.freq == khz,
{
    rt710::tuning_lands_on_the_frequency::<B>(s, t, khz, 28860, 4, file);
    let (s1, t1, r1) = rt710::tuned::<B>(s, t, khz, 28860, 4);
    assert(t1.i2c_addr == t.i2c_addr) by {
        reveal(rt710::tuned);
    }
    rt710_waits::<B>(s1, t1, 50, file);
}

/// Whether a tuner behind the relay of a demodulator is reached by what is relayed, at
/// `addr`, and by nothing else: `file` is what its registers hold, of which there are
/// `len`.
pub open spec fn is_behind<T: UsbTransport>(
    addr: u8,
    file: spec_fn(Relay<Wire<T::State>>) -> Seq<u8>,
    len: nat,
) -> bool {
    &&& shadow::takes_writes::<TunerBus<I2cBus<T>>>(addr, file)
    &&& reads_leave::<TunerBus<I2cBus<T>>>(addr, file)
    &&& forall|s: Relay<Wire<T::State>>| (#[trigger] file(s)).len() == len
    &&& forall|w: Wire<T::State>, demod: u8, data: Seq<u8>, at: u8|
        data.len() > 0 && data[0] != 0xfe ==> #[trigger] file(
            Relay { bus: I2cBus::<T>::on_write(w, demod, data).0, addr: at },
        ) == file(Relay { bus: w, addr: at })
    &&& forall|w: Wire<T::State>, ms: u64, at: u8| #[trigger]
        file(Relay { bus: I2cBus::<T>::on_delay(w, ms), addr: at }) == file(
            Relay { bus: w, addr: at },
        )
}

pub proof fn demodulator_is_apart<T: UsbTransport>(
    w: Wire<T::State>,
    demod: u8,
    regs: Seq<(u8, u8)>,
    at: u8,
    addr: u8,
    file: spec_fn(Relay<Wire<T::State>>) -> Seq<u8>,
    len: nat,
)
    requires
        is_behind::<T>(addr, file, len),
        forall|i: int| 0 <= i < regs.len() ==> (#[trigger] regs[i]).0 != 0xfe,
    ensures
        file(Relay { bus: tc90522::written::<I2cBus<T>>(w, demod, regs).0, addr: at }) == file(
            Relay { bus: w, addr: at },
        ),
    decreases regs.len(),
{
    if regs.len() > 0 {
        let w1 = tc90522::reg_written::<I2cBus<T>>(w, demod, regs[0].0, regs[0].1).0;
        let data = seq![regs[0].0].push(regs[0].1);
        assert(w1 == I2cBus::<T>::on_write(w, demod, data).0);
        assert(data[0] != 0xfe);
        assert(file(Relay { bus: I2cBus::<T>::on_write(w, demod, data).0, addr: at }) == file(
            Relay { bus: w, addr: at },
        ));
        let rest = regs.skip(1);
        assert forall|i: int| 0 <= i < rest.len() implies (#[trigger] rest[i]).0 != 0xfe by {
            assert(rest[i] == regs[i + 1]);
        }
        demodulator_is_apart::<T>(w1, demod, rest, at, addr, file, len);
    }
}

pub proof fn register_is_apart<T: UsbTransport>(
    p: Ran<Wire<T::State>, ()>,
    demod: u8,
    reg: u8,
    value: u8,
    at: u8,
    addr: u8,
    file: spec_fn(Relay<Wire<T::State>>) -> Seq<u8>,
    len: nat,
)
    requires
        is_behind::<T>(addr, file, len),
        reg != 0xfe,
    ensures
        file(
            Relay { bus: traits::reg_then::<I2cBus<T>>(p, demod, reg, value).0, addr: at },
        ) == file(Relay { bus: p.0, addr: at }),
{
    reveal(traits::reg_then);
    reveal(traits::write_then);
    let data = seq![reg].push(value);
    assert(data[0] != 0xfe);
    assert(file(Relay { bus: I2cBus::<T>::on_write(p.0, demod, data).0, addr: at }) == file(
        Relay { bus: p.0, addr: at },
    ));
}

/// A tuner of a board that was tuned is on the signal: one of ISDB-S on the frequency on
/// air less the oscillator of the LNB, one of ISDB-T with its oscillator 4063 kHz below the
/// frequency on air.
pub proof fn tuning_lands_on_the_signal<T: UsbTransport>(
    m: HalfModel<T::State>,
    i: usize,
    params: TuneParams,
    file: spec_fn(Relay<Wire<T::State>>) -> Seq<u8>,
)
    requires
        m.wf(),
        i < 4,
        px4::half_tuned::<T>(m, i, params).1 is Ok,
        i < 2 ==> is_behind::<T>(m.s[i as int].i2c_addr, file, 16),
        i < 2 ==> m.s[i as int].chip is Some,
        i >= 2 ==> is_behind::<T>(m.t[i - 2].i2c_addr, file, 48),
        i >= 2 ==> r850::is_told(m.t[i - 2], px4::isdb_t()),
    ensures
        ({
            let left = file(px4::half_tuned::<T>(m, i, params).0.relay);
            let oscillator: int = if params.polarization == Some(
                crate::types::Polarization::Left,
            ) {
                9_505_000
            } else {
                10_678_000
            };
            let khz = params.frequency_khz - oscillator;
            &&& i < 2 && 587_500 <= khz <= 2_350_000 ==> rt710::stands_for(
                m.s[i as int].chip->0,
                left,
                24_000,
                khz as u32,
            )
            &&& i >= 2 ==> r850::stands_for(left, 24_000, params.frequency_khz - 4063)
        }),
{
    let addr = px4::demod_of(i).addr;
    if i < 2 {
        let (w1, r1) = px4::demod_s_ready::<I2cBus<T>>(m.wire(), px4::demod_of(i));
        let khz = params.if_khz()->Ok_0;
        let (relay, t, r2) = px4::rt710_tuned::<TunerBus<I2cBus<T>>>(
            Relay { addr, bus: w1 },
            m.s[i as int],
            khz,
        );
        if 587_500 <= khz <= 2_350_000 {
            rt710_is_on_the_signal::<TunerBus<I2cBus<T>>>(
                Relay { addr, bus: w1 },
                m.s[i as int],
                khz,
                file,
            );
        }
        let regs = tc90522::agc_s_regs(px4::demod_of(i).is_secondary, true);
        demodulator_is_apart::<T>(
            relay.bus,
            addr,
            regs,
            relay.addr,
            m.s[i as int].i2c_addr,
            file,
            16,
        );
    } else {
        let (w1, r1) = px4::demod_t_ready::<I2cBus<T>>(m.wire(), addr);
        let chip = m.t[i - 2];
        let (relay, c, r2) = px4::r850_tuned::<TunerBus<I2cBus<T>>>(
            Relay { addr, bus: w1 },
            chip,
            params.frequency_khz,
        );
        r850_is_on_the_signal::<TunerBus<I2cBus<T>>>(
            Relay { addr, bus: w1 },
            chip,
            params.frequency_khz,
            file,
        );
        reveal(tc90522::regs_then);
        let (behind, at, w) = (chip.i2c_addr, relay.addr, relay.bus);
        demodulator_is_apart::<T>(w, addr, tc90522::agc_t_regs(true), at, behind, file, 48);
        let p1 = tc90522::regs_then::<I2cBus<T>>((w, Ok(())), addr, tc90522::agc_t_regs(true));
        let p2 = traits::reg_then::<I2cBus<T>>(p1, addr, 0x71, 0x21);
        let p3 = traits::reg_then::<I2cBus<T>>(p2, addr, 0x72, 0x25);
        register_is_apart::<T>(p1, addr, 0x71, 0x21, at, behind, file, 48);
        register_is_apart::<T>(p2, addr, 0x72, 0x25, at, behind, file, 48);
        register_is_apart::<T>(p3, addr, 0x75, 0x08, at, behind, file, 48);
    }
}

/// A stream that was selected is the one the demodulator says it gives out, and the one it
/// was told.
pub proof fn selected_streams_are_reported<B: I2c>(
    s: B::State,
    addr: u8,
    tsid: u16,
    file: spec_fn(B::State) -> Seq<u8>,
)
    requires
        shadow::takes_writes::<B>(addr, file),
        shadow::shows_registers::<B>(addr, file),
        file(s).len() == 0x100,
        px4::tsid_selected::<B>(s, addr, tsid).1 is Ok,
    ensures
        ({
            let left = file(px4::tsid_selected::<B>(s, addr, tsid).0);
            &&& left[0xe6] * 256 + left[0xe7] == tsid
            &&& left[0x8f] * 256 + left[0x90] == tsid
        }),
{
    let s1 = tc90522::regs_written::<B>(s, addr, 0x8f, tc90522::tsid_bytes(tsid)).0;
    tc90522::tsid_lands::<B>(s, addr, tsid, file);
    tsid_is_awaited::<B>(s1, addr, tsid, 100, file);
}

proof fn tsid_is_awaited<B: I2c>(
    s: B::State,
    addr: u8,
    tsid: u16,
    tries: nat,
    file: spec_fn(B::State) -> Seq<u8>,
)
    requires
        shadow::takes_writes::<B>(addr, file),
        shadow::shows_registers::<B>(addr, file),
        px4::tsid_awaited::<B>(s, addr, tsid, tries).1 is Ok,
    ensures
        file(px4::tsid_awaited::<B>(s, addr, tsid, tries).0) == file(s),
        file(s)[0xe6] * 256 + file(s)[0xe7] == tsid,
    decreases tries,
{
    if tries > 0 {
        let (s1, r) = tc90522::word_read::<B>(s, addr, 0xe6);
        tc90522::satellite_side_is_read::<B>(s, addr, file);
        if r != Ok::<u16, crate::error::Error>(tsid) {
            tsid_is_awaited::<B>(B::on_delay(s1, 10), addr, tsid, (tries - 1) as nat, file);
        }
    }
}

/// A tuner of ISDB-T that was waited for has its PLL locked: bit 6 of register 2 is set.
pub proof fn awaited_r850_is_locked<B: I2c>(
    s: B::State,
    c: r850::Chip,
    tries: nat,
    file: spec_fn(B::State) -> Seq<u8>,
)
    requires
        shadow::sends_mirrored::<B>(c.i2c_addr, file),
        reads_leave::<B>(c.i2c_addr, file),
        shadow::takes_writes::<B>(c.i2c_addr, file),
        px4::r850_awaited::<B>(s, c, tries).1 is Ok,
    ensures
        file(px4::r850_awaited::<B>(s, c, tries).0)[2] / 64 % 2 == 1,
    decreases tries,
{
    let (s1, r) = px4::r850_lock::<B>(s, c);
    r850::lock_is_read::<B>(s, c.i2c_addr, file);
    if r != Ok::<bool, crate::error::Error>(true) && tries > 1 {
        awaited_r850_is_locked::<B>(B::on_delay(s1, 10), c, (tries - 1) as nat, file);
    }
}

/// A tuner of ISDB-S that was waited for has its PLL locked: bit 7 of register 2 is set.
pub proof fn awaited_rt710_is_locked<B: I2c>(
    s: B::State,
    t: Rt710,
    tries: nat,
    file: spec_fn(B::State) -> Seq<u8>,
)
    requires
        shadow::sends_mirrored::<B>(t.i2c_addr, file),
        reads_leave::<B>(t.i2c_addr, file),
        shadow::takes_writes::<B>(t.i2c_addr, file),
        px4::rt710_awaited::<B>(s, t, tries).1 is Ok,
    ensures
        file(px4::rt710_awaited::<B>(s, t, tries).0)[2] >= 128,
    decreases tries,
{
    let (s1, r) = px4::rt710_lock::<B>(s, t);
    rt710::chip_is_read::<B>(s, t, file);
    if r != Ok::<bool, crate::error::Error>(true) && tries > 1 {
        awaited_rt710_is_locked::<B>(B::on_delay(s1, 10), t, (tries - 1) as nat, file);
    }
}

/// A tuner tells the signal of its demodulator: whether it is locked, and the C/N of its
/// own system as the registers hold it.
pub proof fn signals_are_read<T: UsbTransport>(
    m: HalfModel<T::State>,
    i: usize,
    file: spec_fn(Wire<T::State>) -> Seq<u8>,
)
    requires
        i < 4,
        shadow::shows_registers::<I2cBus<T>>(px4::demod_of(i).addr, file),
        px4::half_signal::<T>(m, i).1 is Ok,
    ensures
        ({
            let held = file(m.wire());
            let signal = px4::half_signal::<T>(m, i).1->Ok_0;
            if i < 2 {
                &&& signal.locked == (held[0xc3] / 16 % 2 == 0)
                &&& signal.cnr matches Some(crate::types::Cnr::IsdbS(raw)) && raw == held[0xbc]
                    * 256 + held[0xbd]
            } else {
                &&& signal.locked ==> held[0x80] / 8 % 2 == 0 && held[0x80] / 32 % 2 == 0
                    && held[0xb0] % 16 >= 8
                &&& signal.cnr matches Some(crate::types::Cnr::IsdbT(raw)) && raw == held[0x8b]
                    * 0x1_0000 + held[0x8c] * 0x100 + held[0x8d]
            }
        }),
{
    let addr = px4::demod_of(i).addr;
    let w = m.wire();
    let w1 = px4::half_lock::<T>(m, i).0.relay.bus;
    tc90522::satellite_side_is_read::<I2cBus<T>>(w, addr, file);
    tc90522::terrestrial_side_is_read::<I2cBus<T>>(w, addr, file);
    tc90522::satellite_side_is_read::<I2cBus<T>>(w1, addr, file);
    tc90522::terrestrial_side_is_read::<I2cBus<T>>(w1, addr, file);
    assert(file(w1) == file(w));
}

} // verus!
