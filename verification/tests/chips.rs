use std::collections::HashMap;

use tunelith::error::{error, Error};
use tunelith::px4::{r850_config, r850_isdb_t, rt710_config};
use tunelith::r850::pll::pll_sdm;
use tunelith::r850::R850;
use tunelith::rt710::{bandwidth_reg, ChipType, Rt710};
use tunelith::tc90522::Tc90522;
use tunelith::traits::I2c;

/// Chips that keep what is written to them, the bits of what is read back being in
/// reverse if `mirrored`.
#[derive(Default)]
struct Bus {
    regs: HashMap<(u8, u8), u8>,
    writes: Vec<(u8, Vec<u8>)>,
    mirrored: bool,
    failing: bool,
    slept: u64,
}

impl I2c for Bus {
    type State = ();

    fn write(&mut self, addr: u8, data: &[u8]) -> Result<(), Error> {
        if self.failing {
            return Err(error("nack"));
        }
        self.writes.push((addr, data.to_vec()));
        for (i, &value) in data.iter().skip(1).enumerate() {
            self.regs.insert((addr, data[0].wrapping_add(i as u8)), value);
        }
        Ok(())
    }

    fn write_read(&mut self, addr: u8, data: &[u8], len: usize) -> Result<Vec<u8>, Error> {
        if self.failing {
            return Err(error("nack"));
        }
        Ok((0..len)
            .map(|i| {
                let value = self
                    .regs
                    .get(&(addr, data[0].wrapping_add(i as u8)))
                    .copied()
                    .unwrap_or(0);
                if self.mirrored {
                    value.reverse_bits()
                } else {
                    value
                }
            })
            .collect())
    }

    fn delay_ms(&mut self, ms: u64) {
        self.slept += ms;
    }
}

#[test]
fn sdm_matches_c() {
    for (fra, xtal, sdm) in [
        (0, 24000, 0x0000),
        (1, 24000, 0x0000),
        (36000, 24000, 0xbffe),
        (24000, 24000, 0x7ffe),
        (12345, 24000, 0x41dc),
        (47000, 24000, 0xfaae),
        (30311, 24000, 0xa1ac),
        (12345, 12000, 0x83b8),
    ] {
        assert_eq!(pll_sdm(fra, xtal), sdm, "fra {fra}, xtal {xtal}");
    }
}

#[test]
fn bandwidth() {
    // 28.86 Msps, rolloff 4 as every caller uses: 389610 kHz.
    assert_eq!(bandwidth_reg(ChipType::Rt710, 28860, 4), Some(0x45));
    // 98400 kHz falls in the (1, 1) row.
    assert_eq!(bandwidth_reg(ChipType::Rt710, 8200, 1), Some(0x05));
    assert_eq!(bandwidth_reg(ChipType::Rt710, 0, 4), None);
    // RT720 manual scan: 28860 + 6000.
    assert_eq!(bandwidth_reg(ChipType::Rt720, 34860, 4), Some(0x45));
}

#[test]
fn wider_signals_never_get_narrower_filters() {
    for rolloff in 0..=5 {
        let mut last = 0;
        for rate in (1..=85_000).step_by(7) {
            let setting = bandwidth_reg(ChipType::Rt710, rate, rolloff).unwrap();
            assert!(last <= setting, "rate {rate}, rolloff {rolloff}");
            last = setting;
        }
    }
    // The widest there is, and one the register has no room for.
    assert_eq!(bandwidth_reg(ChipType::Rt710, 85_557, 5), Some(0xfd));
    assert_eq!(bandwidth_reg(ChipType::Rt710, 85_558, 5), Some(0x01));
}

#[test]
fn sdm_grows_with_the_fraction() {
    let mut last = 0;
    for fra in 0..=u16::MAX {
        let sdm = pll_sdm(fra, 24000);
        assert!(last <= sdm && sdm % 2 == 0, "fra {fra}");
        last = sdm;
    }
    assert_eq!(last, 0xfffe);
}

#[test]
fn demodulator_reaches_its_registers() {
    let mut bus = Bus::default();
    let demod = Tc90522::new(0x10);
    demod.write_multiple_regs(&mut bus, &[(0x71, 0x01), (0x72, 0x25)]).unwrap();
    assert_eq!(bus.writes, vec![(0x10, vec![0x71, 0x01]), (0x10, vec![0x72, 0x25])]);
    assert_eq!(demod.read_reg(&mut bus, 0x72).unwrap(), 0x25);
    bus.failing = true;
    assert_eq!(demod.write_reg(&mut bus, 1, 2).unwrap_err().message(), "nack");
}

#[test]
fn tsid_goes_out_and_comes_back() {
    let mut bus = Bus::default();
    let demod = Tc90522::new(0x11);
    demod.set_tsid_s(&mut bus, 0x4010).unwrap();
    assert!(bus
        .writes
        .iter()
        .any(|(addr, data)| *addr == 0x11 && data.ends_with(&[0x40, 0x10])));
}

#[test]
fn tuner_bus_goes_through_the_demodulator() {
    let demod = Tc90522::new(0x12);
    let mut relay = demod.tuner_bus(Bus::default());
    relay.write(0x7a, &[1, 2, 3]).unwrap();
    let inner = relay.i2c;
    assert_eq!(inner.writes.len(), 1);
    let (addr, data) = &inner.writes[0];
    assert_eq!(*addr, 0x12);
    assert_eq!(data[..3], [0xfe, 0xf4, 1]);
}

#[test]
fn rt710_fails_on_a_silent_bus() {
    let mut bus = Bus { failing: true, ..Bus::default() };
    let mut tuner = Rt710::new(0x7a, rt710_config());
    assert_eq!(tuner.init(&mut bus).unwrap_err().message(), "nack");
    assert!(tuner.is_pll_locked(&mut bus).is_err());
}

#[test]
fn r850_must_be_set_up_first() {
    let mut bus = Bus::default();
    let mut tuner = R850::new(0x7c, r850_config(false));
    assert!(tuner.set_frequency(&mut bus, 515_143).is_err());
    assert!(tuner.set_system(r850_isdb_t()).is_err());
    assert!(bus.writes.is_empty());
}
