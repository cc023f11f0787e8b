use std::cell::RefCell;
use std::collections::{HashMap, VecDeque};
use std::rc::Rc;

use tunelith::board::{
    device, give_up, open_bridge, settle_ms, Lnb, Lock, Next, Polling, LNB_GPIO, LOCK_POLLS,
};
use tunelith::cxd2856er::Mode;
use tunelith::error::{error, of_kind, Error, ErrorKind};
use tunelith::it930x::{
    checksum, parse_response, reg_length, Input, It930x, CMD_BOOT, CMD_FW_SCATTER_WRITE,
    CMD_I2C_READ, CMD_I2C_WRITE, CMD_QUERYINFO, CMD_REG_READ, CMD_REG_WRITE, EP_CTRL_IN,
    EP_STREAM,
};
use tunelith::models::Layout;
use tunelith::px4::{open_half, r850_config, Px4};
use tunelith::pxmlt::{self, PxMltTuner};
use tunelith::single::{self, Model};
use tunelith::stream::Hub;
use tunelith::traits::I2c;
use tunelith::types::{DeviceInfo, StreamFormat, StreamId, System, TuneParams};
use tunelith::usb::{BulkIn, UsbTransport};

/// Where a bridge raises its GPIOs.
const POWER: u32 = 0xd8b7;
const LNB: u32 = 0xd8d3;

/// A bridge and the chips behind it, which keep what is written to them.
#[derive(Default)]
struct World {
    booted: bool,
    regs: HashMap<u32, u8>,
    chips: HashMap<(u8, u8, u8), u8>,
    pointers: HashMap<(u8, u8), u8>,
    blocks: Vec<Vec<u8>>,
    deaf: Vec<u8>,
    answers: VecDeque<Vec<u8>>,
    slept: u64,
    /// Whether the endpoint of the stream cannot be opened, and whether it is stuck.
    shut: bool,
    stuck: bool,
}

#[derive(Clone, Default)]
struct Usb(Rc<RefCell<World>>);

/// An endpoint that brings zeros, unless it is stuck.
struct Queue {
    submitted: VecDeque<usize>,
    stuck: bool,
}

impl BulkIn for Queue {
    type State = ();

    fn submit(&mut self, len: usize) {
        self.submitted.push_back(len);
    }

    fn next_complete(&mut self) -> Result<Vec<u8>, Error> {
        let len = self.submitted.pop_front();
        len.map(|len| vec![0; len])
            .ok_or_else(|| error("no transfer"))
    }

    fn next_complete_within(&mut self, _timeout_ms: u64) -> Result<Vec<u8>, Error> {
        if self.stuck {
            return Err(of_kind(ErrorKind::TimedOut));
        }
        self.next_complete()
    }
}

impl World {
    fn reg(data: &[u8]) -> u32 {
        u32::from_be_bytes([data[2], data[3], data[4], data[5]])
    }

    /// What a command answers, or `None` if it fails.
    fn command(&mut self, cmd: u16, data: &[u8]) -> Option<Vec<u8>> {
        match cmd {
            CMD_QUERYINFO => Some(vec![0, 0, 0, u8::from(self.booted)]),
            CMD_BOOT => {
                self.booted = true;
                Some(vec![])
            }
            CMD_FW_SCATTER_WRITE => {
                self.blocks.push(data.to_vec());
                Some(vec![])
            }
            CMD_REG_READ => {
                let reg = Self::reg(data);
                Some(
                    (0..u32::from(data[0]))
                        .map(|i| self.regs.get(&(reg + i)).copied().unwrap_or(0))
                        .collect(),
                )
            }
            CMD_REG_WRITE => {
                let reg = Self::reg(data);
                for (i, &value) in data[6..].iter().enumerate() {
                    self.regs.insert(reg + i as u32, value);
                }
                Some(vec![])
            }
            CMD_I2C_WRITE => {
                let (bus, addr) = (data[1], data[2] >> 1);
                if self.deaf.contains(&addr) {
                    return None;
                }
                self.pointers.insert((bus, addr), data[3]);
                for (i, &value) in data[4..].iter().enumerate() {
                    let reg = data[3].wrapping_add(i as u8);
                    self.chips.insert((bus, addr, reg), value);
                }
                Some(vec![])
            }
            CMD_I2C_READ => {
                let (bus, addr) = (data[1], data[2] >> 1);
                let from = self.pointers.get(&(bus, addr)).copied().unwrap_or(0);
                Some(
                    (0..data[0])
                        .map(|i| {
                            let reg = from.wrapping_add(i);
                            self.chips.get(&(bus, addr, reg)).copied().unwrap_or(0)
                        })
                        .collect(),
                )
            }
            _ => None,
        }
    }
}

fn answer(seq: u8, data: Option<Vec<u8>>) -> Vec<u8> {
    let mut body = vec![seq, u8::from(data.is_none())];
    body.extend(data.unwrap_or_default());
    let check = checksum(&body);
    let mut buf = vec![body.len() as u8 + 2];
    buf.extend(body);
    buf.extend(check.to_be_bytes());
    buf
}

impl UsbTransport for Usb {
    type State = ();
    type BulkIn = Queue;

    fn bulk_out(&mut self, _ep: u8, data: Vec<u8>, _timeout_ms: u64) -> Result<(), Error> {
        let mut world = self.0.borrow_mut();
        let end = data.len() - 2;
        let check = u16::from_be_bytes([data[end], data[end + 1]]);
        assert_eq!(checksum(&data[1..end]), check);
        assert_eq!(usize::from(data[0]), data.len() - 1);
        let cmd = u16::from_be_bytes([data[1], data[2]]);
        let told = world.command(cmd, &data[4..end]);
        world.answers.push_back(answer(data[3], told));
        Ok(())
    }

    fn bulk_in(&mut self, ep: u8, _len: usize, _timeout_ms: u64) -> Result<Vec<u8>, Error> {
        assert_eq!(ep, EP_CTRL_IN);
        let buf = self.0.borrow_mut().answers.pop_front();
        buf.ok_or_else(|| error("no answer"))
    }

    fn bulk_in_queue(&mut self, ep: u8) -> Result<Queue, Error> {
        assert_eq!(ep, EP_STREAM);
        let world = self.0.borrow();
        if world.shut {
            return Err(error("no endpoint"));
        }
        Ok(Queue {
            submitted: VecDeque::new(),
            stuck: world.stuck,
        })
    }

    fn delay_ms(&mut self, ms: u64) {
        self.0.borrow_mut().slept += ms;
    }
}

/// A bridge whose EEPROM is good.
fn usb() -> Usb {
    let usb = Usb::default();
    usb.0.borrow_mut().regs.insert(0x4979, 1);
    usb
}

/// Two blocks of a firmware: of one segment of two bytes, and of none.
const FIRMWARE: [u8; 13] = [3, 0, 0, 1, 0, 0, 2, 0xaa, 0xbb, 3, 1, 1, 0];

const INPUT: Input = Input {
    port: 1,
    slave: 0,
    i2c_bus: 2,
    i2c_addr: 0x10,
    sync_byte: 0x17,
};

#[test]
fn bridge_is_brought_up() {
    let usb = usb();
    let mut bridge = open_bridge(usb.clone(), 0x0200, &[INPUT], &FIRMWARE).unwrap();
    assert_eq!(bridge.max_bulk_size, 512);
    {
        let world = usb.0.borrow();
        assert_eq!(world.blocks, [FIRMWARE[..9].to_vec(), FIRMWARE[9..].to_vec()]);
        assert!(world.booted);
        assert_eq!(world.regs[&0x4975], 0x20);
        assert_eq!(world.regs[&0xda79], 0x17);
        assert_eq!(world.regs[&0xda4d], 1);
        assert_eq!(world.regs[&0xda4c], 0);
    }
    bridge.write_reg_mask(0x1234, 0xff, 0x0f).unwrap();
    assert_eq!(bridge.read_reg(0x1234).unwrap(), 0x0f);
    bridge.write_regs(0x20, &[1, 2, 3]).unwrap();
    assert_eq!(bridge.read_regs(0x20, 3).unwrap(), [1, 2, 3]);
    bridge.purge_psb().unwrap();
    assert_eq!(usb.0.borrow().regs[&0xda1d], 0);
    // The reset is lifted again though the transfer fails.
    usb.0.borrow_mut().stuck = true;
    assert_eq!(bridge.purge_psb().unwrap_err().message(), "timed out");
    assert_eq!(usb.0.borrow().regs[&0xda1d], 0);
    // It stays where the stream cannot be opened.
    usb.0.borrow_mut().shut = true;
    assert_eq!(bridge.purge_psb().unwrap_err().message(), "no endpoint");
    assert_eq!(usb.0.borrow().regs[&0xda1d], 1);
    // It is not loaded twice.
    let again = open_bridge(usb.clone(), 0x0110, &[INPUT], &FIRMWARE).unwrap();
    assert_eq!(again.max_bulk_size, 64);
    assert_eq!(usb.0.borrow().blocks.len(), 2);
}

#[test]
fn bridges_that_do_not_come_up() {
    let message = |usb: Usb, firmware: &[u8]| {
        let Err(e) = open_bridge(usb, 0x0200, &[INPUT], firmware) else {
            panic!("opened");
        };
        e.message()
    };
    assert_eq!(message(Usb::default(), &FIRMWARE), "EEPROM error");
    assert_eq!(message(usb(), &FIRMWARE[..8]), "truncated firmware block");
    assert_eq!(message(usb(), &[4, 0, 0, 0]), "invalid firmware block");
    let long = [vec![3, 0, 0, 1, 0, 0, 250], vec![0; 250]].concat();
    assert_eq!(message(usb(), &long), "control message too long");
}

#[test]
fn responses_are_checked() {
    let good = answer(7, Some(vec![1, 2]));
    assert_eq!(parse_response(&good, 7).unwrap(), [1, 2]);
    let message = |buf: &[u8], seq: u8| parse_response(buf, seq).unwrap_err().message();
    assert_eq!(message(&good, 8), "control response out of sequence");
    assert_eq!(message(&good[..4], 7), "control response too short");
    assert_eq!(message(&answer(7, None), 7), "control command failed");
    let mut bad = good.clone();
    bad[3] ^= 1;
    assert_eq!(message(&bad, 7), "control response checksum mismatch");
    assert_eq!(checksum(&[0x01, 0x02, 0x03]), 0xffff - 0x0402);
    assert_eq!([0xff, 0x100, 0x1_0000, 0x100_0000].map(reg_length), [1, 2, 3, 4]);
}

#[test]
fn gpios_have_to_be_outputs() {
    let usb = usb();
    let mut bridge = It930x::new(usb.clone(), 0x0200);
    assert_eq!(
        bridge.write_gpio(LNB_GPIO, true).unwrap_err().message(),
        "GPIO is not an output"
    );
    bridge.gpio_output(LNB_GPIO).unwrap();
    bridge.write_gpio(LNB_GPIO, true).unwrap();
    let world = usb.0.borrow();
    assert_eq!((world.regs[&0xd8d4], world.regs[&0xd8d5]), (1, 1));
    assert_eq!(world.regs[&LNB], 1);
}

#[test]
fn chips_are_reached_through_the_bridge() {
    let usb = usb();
    let mut bus = It930x::new(usb.clone(), 0x0200).i2c(3);
    bus.write(0x10, &[0x40, 1, 2]).unwrap();
    assert_eq!(bus.write_read(0x10, &[0x40], 2).unwrap(), [1, 2]);
    assert_eq!(usb.0.borrow().chips[&(3, 0x10, 0x41)], 2);
    usb.0.borrow_mut().deaf.push(0x10);
    assert!(bus.write(0x10, &[0]).is_err());
    assert!(bus.write_read(0x10, &[0], 1).is_err());
}

#[test]
fn supply_follows_those_who_want_it() {
    let usb = usb();
    let mut bridge = It930x::new(usb.clone(), 0x0200);
    bridge.gpio_output(LNB_GPIO).unwrap();
    let mut lnb = Lnb::new(3);
    let level = || usb.0.borrow().regs.get(&LNB).copied().unwrap_or(0);
    lnb.set(&mut bridge, 0, true).unwrap();
    lnb.set(&mut bridge, 2, true).unwrap();
    assert_eq!(level(), 1);
    lnb.set(&mut bridge, 0, false).unwrap();
    assert_eq!(level(), 1);
    lnb.set(&mut bridge, 2, false).unwrap();
    assert_eq!(level(), 0);
    lnb.set(&mut bridge, 2, false).unwrap();
    assert_eq!(lnb.wants, [false; 3]);
}

#[test]
fn pxmlt_opens_tunes_and_closes() {
    let usb = usb();
    let chips = Layout::Mlt5U.chips();
    let mut board = pxmlt::open(usb.clone(), 0x0200, &chips, &FIRMWARE).unwrap();
    let power = || usb.0.borrow().regs[&POWER];
    let lnb = || usb.0.borrow().regs[&LNB];
    assert_eq!((power(), lnb()), (0, 0));
    board.open(0).unwrap();
    board.open(3).unwrap();
    assert_eq!(board.open_count, 2);
    assert_eq!(power(), 1);
    board.set_lnb(0, true).unwrap();
    board.set_lnb(3, true).unwrap();
    assert_eq!((lnb(), board.lnb_count), (1, 2));
    board
        .tune(0, Mode::S, 1_318_000, Some(StreamId(0x4010)))
        .unwrap();
    board.tune(3, Mode::T, 473_143, None).unwrap();
    assert!(matches!(board.lock(0).unwrap(), Lock::Waiting));
    assert!(!board.signal(3, Mode::T).unwrap().locked);
    board.close(0);
    assert_eq!((power(), lnb(), board.lnb_count), (1, 1, 1));
    board.close(3);
    assert_eq!((power(), lnb(), board.open_count), (0, 0, 0));
}

#[test]
fn pxmlt_goes_off_again_if_it_does_not_open() {
    let usb = usb();
    let chips = Layout::Mlt5U.chips();
    let mut board = pxmlt::open(usb.clone(), 0x0200, &chips, &FIRMWARE).unwrap();
    usb.0.borrow_mut().deaf = (0..=0x7f).collect();
    assert!(board.open(0).is_err());
    assert_eq!(usb.0.borrow().regs[&POWER], 0);
    assert_eq!(board.open_count, 0);
}

#[test]
fn px4_goes_off_again_if_it_does_not_open() {
    let usb = usb();
    let half = open_half(usb.clone(), 0x0200, &FIRMWARE).unwrap();
    for (tuner, loop_through) in half.t.iter().zip([true, false]) {
        assert_eq!((tuner.i2c_addr, tuner.init), (0x7c, false));
        assert_eq!(tuner.config, r850_config(loop_through));
        assert_eq!(tuner.config.xtal, 24_000);
        assert!(!tuner.config.clock_out && tuner.config.no_imr_calibration);
        assert!(tuner.config.no_lpf_calibration);
    }
    let mut card = Px4 { halves: vec![half] };
    assert_eq!(usb.0.borrow().regs[&LNB], 0);
    usb.0.borrow_mut().deaf = (0..=0x7f).collect();
    assert!(card.open(1).is_err());
    assert_eq!(usb.0.borrow().regs[&POWER], 0);
    assert_eq!(card.halves[0].open_count, 0);
    card.halves[0].set_lnb(1, true).unwrap();
    assert_eq!(usb.0.borrow().regs[&LNB], 1);
    card.halves[0].set_lnb(1, false).unwrap();
    assert_eq!(usb.0.borrow().regs[&LNB], 0);
}

#[test]
fn single_goes_off_again_if_it_does_not_open() {
    assert_eq!(Model::S1ur.systems(), [System::IsdbT]);
    assert_eq!(Model::Isdb2056.systems(), [System::IsdbT, System::IsdbS]);
    let usb = usb();
    let mut board = single::open(usb.clone(), 0x0200, Model::M1ur, &FIRMWARE).unwrap();
    assert_eq!(board.r850.config, r850_config(false));
    usb.0.borrow_mut().deaf = (0..=0x7f).collect();
    assert!(board.open().is_err());
    assert_eq!(usb.0.borrow().regs[&POWER], 0);
}

fn params(system: System, stream_id: Option<u16>) -> TuneParams {
    TuneParams {
        system,
        frequency_khz: 11_996_000,
        stream_id: stream_id.map(StreamId),
        polarization: None,
    }
}

#[test]
fn board_tuners_are_taken_once() {
    let info = DeviceInfo {
        id: "px4:1".into(),
        name: "x".into(),
    };
    let mut device = device(info, vec![vec![System::IsdbS], vec![System::IsdbT]]);
    assert_eq!(device.tuners[1].id, "px4:1#1");
    device.claim(0).unwrap();
    let mut tuner = device.take(0);
    assert!(device.claim(0).unwrap_err().is_busy());
    assert!(matches!(device.claim(2), Err(Error::NotFound(id)) if id == "px4:1#2"));
    assert!(tuner.stream_format().is_err());
    let good = params(System::IsdbS, Some(1));
    tuner.begin(&good).unwrap();
    tuner.finish(&good);
    assert_eq!(tuner.stream_format().unwrap(), StreamFormat::Ts);
    assert!(matches!(
        tuner.begin(&params(System::IsdbT, None)),
        Err(Error::Unsupported(System::IsdbT))
    ));
    device.release(0);
    assert!(device.claim(0).is_ok());
}

#[test]
fn locks_are_polled_for() {
    let mut polling = Polling::new();
    assert_eq!(polling.polled(Lock::Waiting), Next::Wait);
    assert_eq!(polling.waited(), Next::Poll);
    assert_eq!(polling.polled(Lock::Locked), Next::Select);
    assert_eq!(Polling::new().polled(Lock::Failed), Next::NoLock);
    let mut polling = Polling::new();
    let mut polls = 0;
    while polling.waited() == Next::Poll {
        polling.polled(Lock::Waiting);
        polls += 1;
    }
    assert_eq!(polls, LOCK_POLLS);
    assert_eq!(polling.waited(), Next::NoLock);
    assert_eq!(settle_ms(System::IsdbT, 100), Some(250));
    assert_eq!(settle_ms(System::IsdbT, 400), None);
    assert_eq!(settle_ms(System::IsdbS, 0), None);
}

#[test]
fn stream_that_does_not_start_is_given_up() {
    let mut hub = Hub::new(true);
    assert!(hub.attach(2));
    give_up(&mut hub, 2, true);
    assert!(hub.attach(3));
    assert!(!hub.attach(1));
    give_up(&mut hub, 1, false);
    assert_eq!(hub.taken, [false, false, false, true, false]);
}

#[test]
fn pxmlt_tuner_is_told_its_mode() {
    let mut tuner = PxMltTuner {
        index: 0,
        mode: None,
    };
    let (mode, khz) = tuner.begin(&params(System::IsdbS, Some(1))).unwrap();
    assert!(matches!(mode, Mode::S));
    assert_eq!(khz, 1_318_000);
    assert!(matches!(
        tuner.begin(&params(System::IsdbS3, Some(1))),
        Err(Error::Unsupported(System::IsdbS3))
    ));
    assert!(tuner.begin(&params(System::IsdbS, None)).is_err());
}
