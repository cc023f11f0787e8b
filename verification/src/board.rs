//! What the device models share: opening their bridges, supplying the LNB, and
//! the course of opening, tuning and streaming from their tuners.

use vstd::prelude::*;

use crate::error::{error, of_kind, Error, ErrorKind};
use crate::it930x;
use crate::it930x::{Bridge, Input, It930x};
use crate::stream;
use crate::stream::Hub;
use crate::text;
use crate::text::id_of_tuner;
use crate::traits::Ran;
use crate::types::{DeviceInfo, StreamFormat, System, TuneParams, TunerInfo};
use crate::usb::UsbTransport;

verus! {

/// How long to wait for the TS to lock, in polls 10 ms apart.
pub const LOCK_POLLS: u32 = 300;

/// The time between two polls.
pub const POLL_MS: u64 = 10;

/// The demodulators report a lock before the demodulation settles, which
/// breaks the first packets of an ISDB-T stream; it is waited this long from
/// the tuning before giving the stream out.
pub const ISDB_T_SETTLE_MS: u64 = 350;

#[derive(Clone, Copy, Debug, PartialEq, Eq, Structural)]
pub enum Lock {
    Locked,
    Waiting,
    /// The demodulator gave up on the signal.
    Failed,
}

/// What opening a bridge does and gives.
pub open spec fn bridge_opened<T: UsbTransport>(
    b: Bridge<T::State>,
    inputs: Seq<Input>,
    firmware: Seq<u8>,
) -> Ran<Bridge<T::State>, ()> {
    let (b1, r1) = it930x::raised::<T>(b, 5);
    match r1 {
        Err(e) => (b1, Err(e)),
        Ok(_) => {
            let (b2, r2) = it930x::reg_read::<T>(b1, 0x4979);
            match r2 {
                Err(e) => (b2, Err(e)),
                Ok(v) => if v == 0 {
                    (b2, Err(error("EEPROM error")))
                } else {
                    let (b3, r3) = it930x::loaded::<T>(b2, firmware);
                    match r3 {
                        Err(e) => (b3, Err(e)),
                        Ok(_) => it930x::warmed::<T>(b3, inputs),
                    }
                },
            }
        },
    }
}

/// Opens a bridge and sets it up for `inputs`.
pub fn open_bridge<T: UsbTransport>(
    usb: T,
    usb_version: u16,
    inputs: &[Input],
    firmware: &[u8],
) -> (r: Result<It930x<T>, Error>)
    requires
        forall|i: int| 0 <= i < inputs@.len() ==> (#[trigger] inputs@[i]).slave < 5,
    ensures
        ({
            let fresh = Bridge {
                usb: usb.state(),
                seq: 0,
                max_bulk_size: if usb_version == 0x0110 {
                    64
                } else {
                    512
                },
                gpio_out: 0,
                gpio_on: 0,
            };
            let (b, opened) = bridge_opened::<T>(fresh, inputs@, firmware@);
            match opened {
                Ok(_) => r matches Ok(bridge) && bridge@ == b,
                Err(e) => r == Err::<It930x<T>, Error>(e),
            }
        }),
{
    let mut bridge: It930x<T> = It930x::new(usb, usb_version);
    match bridge.raise() {
        Ok(_) => {},
        Err(e) => return Err(e),
    }
    match bridge.read_reg(0x4979) {
        Ok(v) => if v == 0 {
            return Err(error("EEPROM error"));
        },
        Err(e) => return Err(e),
    }
    match bridge.load_firmware(firmware) {
        Ok(_) => {},
        Err(e) => return Err(e),
    }
    match bridge.init_warm(inputs) {
        Ok(_) => Ok(bridge),
        Err(e) => Err(e),
    }
}

/// The GPIO the LNB supply is on.
pub const LNB_GPIO: u8 = 11;

/// The LNB supply on GPIO 11, on while any tuner wants it.
pub struct Lnb {
    /// Whether each tuner wants it.
    pub wants: Vec<bool>,
}

/// Whether a tuner other than `index` wants the supply.
pub open spec fn others_want(wants: Seq<bool>, index: int) -> bool {
    exists|i: int| 0 <= i < wants.len() && i != index && #[trigger] wants[i]
}

/// Whether any tuner wants the supply.
pub open spec fn any_wants(wants: Seq<bool>) -> bool {
    exists|i: int| 0 <= i < wants.len() && #[trigger] wants[i]
}

/// What switching the supply for a tuner does and gives: the GPIO is written only
/// if no other tuner wants it.
pub open spec fn lnb_set<T: UsbTransport>(
    b: Bridge<T::State>,
    wants: Seq<bool>,
    index: int,
    on: bool,
) -> (Bridge<T::State>, Seq<bool>, Result<(), Error>) {
    if wants[index] == on {
        (b, wants, Ok(()))
    } else if others_want(wants, index) {
        (b, wants.update(index, on), Ok(()))
    } else {
        let (b1, r1) = it930x::gpio_written::<T>(b, LNB_GPIO, on);
        (
            b1,
            if r1 is Ok {
                wants.update(index, on)
            } else {
                wants
            },
            r1,
        )
    }
}

impl Lnb {
    pub fn new(tuners: usize) -> (r: Self)
        ensures
            r.wants@ == Seq::new(tuners as nat, |i: int| false),
    {
        Lnb { wants: vec![false; tuners] }
    }

    pub fn set<T: UsbTransport>(&mut self, bridge: &mut It930x<T>, index: usize, on: bool) -> (r:
        Result<(), Error>)
        requires
            index < old(self).wants@.len(),
        ensures
            (final(bridge)@, final(self).wants@, r) == lnb_set::<T>(
                old(bridge)@,
                old(self).wants@,
                index as int,
                on,
            ),
    {
        if self.wants[index] == on {
            return Ok(());
        }
        let n: usize = self.wants.len();
        let mut others: bool = false;
        let mut i: usize = 0;
        while i < n
            invariant
                i <= n,
                n == self.wants@.len(),
                others == exists|k: int|
                    0 <= k < i && k != index && #[trigger] self.wants@[k],
            decreases n - i,
        {
            if i != index && self.wants[i] {
                others = true;
            }
            i = i + 1;
        }
        assert(others == others_want(self.wants@, index as int));
        if !others {
            match bridge.write_gpio(LNB_GPIO, on) {
                Ok(_) => {},
                Err(e) => return Err(e),
            }
        }
        self.wants.set(index, on);
        Ok(())
    }
}

/// The supply follows what the tuners want: if it was on exactly when one wanted
/// it, it is so after a switch that succeeded, where the level of the supply is
/// the one last written.
pub proof fn supply_follows_wants<T: UsbTransport>(
    b: Bridge<T::State>,
    wants: Seq<bool>,
    index: int,
    on: bool,
    level: bool,
)
    requires
        0 <= index < wants.len(),
        level == any_wants(wants),
        lnb_set::<T>(b, wants, index, on).2 is Ok,
    ensures
        ({
            let after = lnb_set::<T>(b, wants, index, on).1;
            let written = wants[index] != on && !others_want(wants, index);
            (if written {
                on
            } else {
                level
            }) == any_wants(after)
        }),
{
    let after = lnb_set::<T>(b, wants, index, on).1;
    if wants[index] != on {
        assert(after == wants.update(index, on));
        assert(after[index] == on);
        if others_want(wants, index) {
            let i = choose|i: int| 0 <= i < wants.len() && i != index && #[trigger] wants[i];
            assert(after[i]);
            assert(wants[i]);
        } else if !on {
            assert forall|i: int| 0 <= i < after.len() implies !#[trigger] after[i] by {
                if i != index {
                    assert(after[i] == wants[i]);
                }
            }
        }
    }
}

/// A device with several tuners over one board, each open at most once.
pub struct BoardDevice {
    pub info: DeviceInfo,
    pub tuners: Vec<TunerInfo>,
    pub opened: Vec<bool>,
}

/// A tuner of a board.
pub struct BoardTuner {
    pub index: usize,
    pub systems: Vec<System>,
    /// The system last tuned to.
    pub system: Option<System>,
}

/// A device whose tuners receive `systems`.
pub fn device(info: DeviceInfo, systems: Vec<Vec<System>>) -> (r: BoardDevice)
    ensures
        r.wf(),
        r.info == info,
        r.tuners@.len() == systems@.len(),
        forall|i: int|
            0 <= i < systems@.len() ==> (#[trigger] r.tuners@[i]).id@ == text::tuner_id(
                info.id@,
                i as nat,
            ) && r.tuners@[i].systems@ == systems@[i]@,
        forall|i: int| 0 <= i < systems@.len() ==> !#[trigger] r.opened@[i],
{
    let mut tuners: Vec<TunerInfo> = Vec::new();
    let mut i: usize = 0;
    let n: usize = systems.len();
    while i < n
        invariant
            i <= n,
            n == systems@.len(),
            tuners@.len() == i,
            forall|k: int|
                0 <= k < i ==> (#[trigger] tuners@[k]).id@ == text::tuner_id(info.id@, k as nat)
                    && tuners@[k].systems@ == systems@[k]@,
        decreases n - i,
    {
        let systems: Vec<System> = copy_systems(&systems[i]);
        tuners.push(TunerInfo { id: id_of_tuner(info.id.as_str(), i), systems });
        i = i + 1;
    }
    BoardDevice { info, tuners, opened: vec![false; n] }
}

fn copy_systems(systems: &Vec<System>) -> (r: Vec<System>)
    ensures
        r@ == systems@,
{
    let mut copy: Vec<System> = Vec::new();
    let mut i: usize = 0;
    while i < systems.len()
        invariant
            i <= systems@.len(),
            copy@ =~= systems@.take(i as int),
        decreases systems@.len() - i,
    {
        copy.push(systems[i]);
        i = i + 1;
    }
    assert(systems@.take(systems@.len() as int) =~= systems@);
    copy
}

impl BoardDevice {
    pub open spec fn wf(self) -> bool {
        self.opened@.len() == self.tuners@.len()
    }

    /// Whether a tuner can be opened: it exists and is not in use.
    pub fn claim(&self, index: usize) -> (r: Result<(), Error>)
        requires
            self.wf(),
        ensures
            index >= self.tuners@.len() ==> (r matches Err(Error::NotFound(id)) && id@
                == text::tuner_id(self.info.id@, index as nat)),
            index < self.tuners@.len() && self.opened@[index as int] ==> r == Err::<(), Error>(
                of_kind(ErrorKind::ResourceBusy),
            ),
            index < self.tuners@.len() && !self.opened@[index as int] ==> r == Ok::<(), Error>(()),
    {
        if index >= self.tuners.len() {
            return Err(Error::NotFound(id_of_tuner(self.info.id.as_str(), index)));
        }
        if self.opened[index] {
            return Err(of_kind(ErrorKind::ResourceBusy));
        }
        Ok(())
    }

    /// Takes a tuner once its board has opened it.
    pub fn take(&mut self, index: usize) -> (r: BoardTuner)
        requires
            old(self).wf(),
            index < old(self).tuners@.len(),
            !old(self).opened@[index as int],
        ensures
            final(self).wf(),
            final(self).info == old(self).info,
            final(self).tuners == old(self).tuners,
            final(self).opened@ == old(self).opened@.update(index as int, true),
            r.index == index,
            r.systems@ == old(self).tuners@[index as int].systems@,
            r.system is None,
    {
        self.opened.set(index, true);
        BoardTuner { index, systems: copy_systems(&self.tuners[index].systems), system: None }
    }

    /// Gives a tuner back once its board has closed it.
    pub fn release(&mut self, index: usize)
        requires
            old(self).wf(),
            index < old(self).tuners@.len(),
        ensures
            final(self).wf(),
            final(self).info == old(self).info,
            final(self).tuners == old(self).tuners,
            final(self).opened@ == old(self).opened@.update(index as int, false),
    {
        self.opened.set(index, false);
    }
}

/// Whether a tuner can be tuned to a signal, and why not.
pub open spec fn tuning_refused(systems: Seq<System>, params: TuneParams) -> Option<Error> {
    if params.system.satellite() && params.stream_id is None {
        Some(Error::InvalidParams("a satellite stream needs a stream id"))
    } else if !params.system.satellite() && params.stream_id is Some {
        Some(Error::InvalidParams("ISDB-T takes no stream id"))
    } else if !systems.contains(params.system) {
        Some(Error::Unsupported(params.system))
    } else {
        None
    }
}

/// What to do after a poll for the lock.
#[derive(Clone, Copy, Debug, PartialEq, Eq, Structural)]
pub enum Next {
    /// Poll once more.
    Poll,
    /// Wait before anything else.
    Wait,
    /// The signal is locked: pick the stream out of it.
    Select,
    /// There is no signal to lock on.
    NoLock,
}

/// The polls for the lock of a signal.
#[derive(Clone, Copy, Debug, PartialEq, Eq, Structural)]
pub struct Polling {
    /// The polls made so far.
    pub polls: u32,
}

/// What comes of polls with these outcomes, after `polls` of them: the lock, if
/// it comes before the demodulator gives up and within the polls allowed.
pub open spec fn locks(outcomes: Seq<Lock>, polls: int) -> bool
    decreases LOCK_POLLS - polls,
{
    if polls < 0 || polls >= LOCK_POLLS {
        false
    } else {
        match outcomes[polls] {
            Lock::Locked => true,
            Lock::Failed => false,
            Lock::Waiting => locks(outcomes, polls + 1),
        }
    }
}

impl Polling {
    pub fn new() -> (r: Self)
        ensures
            r.polls == 0,
    {
        Polling { polls: 0 }
    }

    /// What to do after a poll.
    pub fn polled(&mut self, lock: Lock) -> (r: Next)
        requires
            old(self).polls < LOCK_POLLS,
        ensures
            final(self).polls == old(self).polls + 1,
            r == match lock {
                Lock::Locked => Next::Select,
                Lock::Waiting => Next::Wait,
                Lock::Failed => Next::NoLock,
            },
    {
        self.polls = self.polls + 1;
        match lock {
            Lock::Locked => Next::Select,
            Lock::Waiting => Next::Wait,
            Lock::Failed => Next::NoLock,
        }
    }

    /// What to do after the wait that follows a poll.
    pub fn waited(&self) -> (r: Next)
        ensures
            r == if self.polls < LOCK_POLLS {
                Next::Poll
            } else {
                Next::NoLock
            },
    {
        if self.polls < LOCK_POLLS {
            Next::Poll
        } else {
            Next::NoLock
        }
    }
}

/// How long to wait once the stream is picked, `elapsed_ms` after the tuning
/// began.
pub open spec fn settle_wait(system: System, elapsed_ms: u64) -> Option<u64> {
    if system == System::IsdbT && elapsed_ms <= ISDB_T_SETTLE_MS {
        Some((ISDB_T_SETTLE_MS - elapsed_ms) as u64)
    } else {
        None
    }
}

/// How long to wait once the stream is picked, `elapsed_ms` after the tuning
/// began.
pub fn settle_ms(system: System, elapsed_ms: u64) -> (r: Option<u64>)
    ensures
        r == settle_wait(system, elapsed_ms),
{
    if system == System::IsdbT {
        ISDB_T_SETTLE_MS.checked_sub(elapsed_ms)
    } else {
        None
    }
}

/// The stream of an ISDB-T signal is never given out sooner than the settling
/// time after the tuning began.
pub proof fn isdb_t_settles(elapsed_ms: u64)
    ensures
        elapsed_ms + (match settle_wait(System::IsdbT, elapsed_ms) {
            Some(ms) => ms,
            None => 0,
        }) >= ISDB_T_SETTLE_MS,
{
}

impl BoardTuner {
    /// Checks what to tune to; from here on the tuner counts as not tuned.
    pub fn begin(&mut self, params: &TuneParams) -> (r: Result<(), Error>)
        ensures
            final(self).index == old(self).index,
            final(self).systems == old(self).systems,
            match tuning_refused(old(self).systems@, *params) {
                Some(e) => r == Err::<(), Error>(e) && final(self).system == old(self).system,
                None => r == Ok::<(), Error>(()) && final(self).system is None,
            },
    {
        match params.validate() {
            Ok(_) => {},
            Err(e) => return Err(e),
        }
        let mut found: bool = false;
        let mut i: usize = 0;
        while i < self.systems.len()
            invariant
                i <= self.systems@.len(),
                found == self.systems@.take(i as int).contains(params.system),
            decreases self.systems@.len() - i,
        {
            let ghost before = self.systems@.take(i as int);
            let ghost after = self.systems@.take(i + 1);
            assert(after =~= before.push(self.systems@[i as int]));
            assert(after[i as int] == self.systems@[i as int]);
            assert(forall|k: int| 0 <= k < i ==> after[k] == before[k]);
            if self.systems[i] == params.system {
                found = true;
            }
            proof {
                if before.contains(params.system) {
                    let k = choose|k: int| 0 <= k < before.len() && before[k] == params.system;
                    assert(after[k] == params.system);
                }
                if after.contains(params.system) && self.systems@[i as int] != params.system {
                    let k = choose|k: int| 0 <= k < after.len() && after[k] == params.system;
                    assert(before[k] == params.system);
                }
            }
            i = i + 1;
        }
        assert(self.systems@.take(self.systems@.len() as int) =~= self.systems@);
        if !found {
            return Err(Error::Unsupported(params.system));
        }
        self.system = None;
        Ok(())
    }

    /// The tuning is over: the signal is locked and its stream picked.
    pub fn finish(&mut self, params: &TuneParams)
        ensures
            final(self).index == old(self).index,
            final(self).systems == old(self).systems,
            final(self).system == Some(params.system),
    {
        self.system = Some(params.system);
    }

    /// The format of the stream, which there is only once the tuner was tuned.
    pub fn stream_format(&self) -> (r: Result<StreamFormat, Error>)
        ensures
            self.system is None ==> r == Err::<StreamFormat, Error>(
                Error::InvalidParams("the tuner has not been tuned"),
            ),
            self.system is Some ==> r == Ok::<StreamFormat, Error>(StreamFormat::Ts),
    {
        if self.system.is_none() {
            return Err(Error::InvalidParams("the tuner has not been tuned"));
        }
        Ok(StreamFormat::Ts)
    }
}

/// Gives up on a stream that could not be started, after [`Hub::attach`] said
/// `start`.
pub fn give_up(hub: &mut Hub, slot: usize, start: bool)
    requires
        old(hub).wf(),
        slot < 5,
    ensures
        final(hub).wf(),
        final(hub).tagged == old(hub).tagged,
        final(hub).taken@ == old(hub).taken@.update(slot as int, false),
        final(hub).running == (old(hub).running && !start),
{
    if start {
        hub.abort(slot);
    } else {
        hub.detach(slot);
    }
}

/// The polls end with the lock exactly when one of the first [`LOCK_POLLS`]
/// outcomes is a lock and the demodulator did not give up before it.
pub proof fn polls_end_with_the_first_answer(outcomes: Seq<Lock>, polls: int)
    requires
        0 <= polls <= LOCK_POLLS <= outcomes.len(),
    ensures
        locks(outcomes, polls) <==> exists|i: int|
            polls <= i < LOCK_POLLS && #[trigger] outcomes[i] == Lock::Locked && forall|j: int|
                polls <= j < i ==> #[trigger] outcomes[j] == Lock::Waiting,
    decreases LOCK_POLLS - polls,
{
    if polls < LOCK_POLLS {
        polls_end_with_the_first_answer(outcomes, polls + 1);
        if outcomes[polls] == Lock::Waiting {
            if locks(outcomes, polls + 1) {
                let i = choose|i: int|
                    polls + 1 <= i < LOCK_POLLS && #[trigger] outcomes[i] == Lock::Locked
                        && forall|j: int|
                        polls + 1 <= j < i ==> #[trigger] outcomes[j] == Lock::Waiting;
                assert(outcomes[i] == Lock::Locked);
                assert(forall|j: int|
                    polls <= j < i ==> #[trigger] outcomes[j] == Lock::Waiting);
            }
        } else if outcomes[polls] == Lock::Failed {
            assert(!exists|i: int|
                polls <= i < LOCK_POLLS && #[trigger] outcomes[i] == Lock::Locked && forall|j: int|
                    polls <= j < i ==> #[trigger] outcomes[j] == Lock::Waiting);
        }
    }
}

/// What switching the power of the chips behind a bridge does and gives. On, the
/// reset is lifted first; off, both are written whatever comes of it, and the
/// first failure counts.
pub open spec fn powered<T: UsbTransport>(
    b: Bridge<T::State>,
    reset: u8,
    settle_ms: u64,
    on: bool,
) -> Ran<Bridge<T::State>, ()> {
    if on {
        let (b1, r1) = it930x::gpio_written::<T>(b, reset, false);
        match r1 {
            Err(e) => (b1, Err(e)),
            Ok(_) => {
                let (b2, r2) = it930x::gpio_written::<T>(
                    paused::<T>(b1, settle_ms),
                    GPIO_BACKEND_POWER,
                    true,
                );
                match r2 {
                    Err(e) => (b2, Err(e)),
                    Ok(_) => (paused::<T>(b2, 20), Ok(())),
                }
            },
        }
    } else {
        let (b1, r1) = it930x::gpio_written::<T>(b, GPIO_BACKEND_POWER, false);
        let (b2, r2) = it930x::gpio_written::<T>(b1, reset, true);
        (
            b2,
            if r1 is Err {
                r1
            } else {
                r2
            },
        )
    }
}

/// The GPIO of the power of the chips behind a bridge.
pub const GPIO_BACKEND_POWER: u8 = 2;

/// A bridge once time has passed.
pub open spec fn paused<T: UsbTransport>(b: Bridge<T::State>, ms: u64) -> Bridge<T::State> {
    Bridge { usb: T::on_delay(b.usb, ms), ..b }
}

/// Switches the power of the chips behind a bridge.
pub fn power_backend<T: UsbTransport>(
    bridge: &mut It930x<T>,
    reset: u8,
    settle_ms: u64,
    on: bool,
) -> (r: Result<(), Error>)
    requires
        1 <= reset <= 16,
    ensures
        (final(bridge)@, r) == powered::<T>(old(bridge)@, reset, settle_ms, on),
{
    if on {
        match bridge.write_gpio(reset, false) {
            Ok(_) => {},
            Err(e) => return Err(e),
        }
        bridge.usb.delay_ms(settle_ms);
        match bridge.write_gpio(GPIO_BACKEND_POWER, true) {
            Ok(_) => {},
            Err(e) => return Err(e),
        }
        bridge.usb.delay_ms(20);
        Ok(())
    } else {
        let power: Result<(), Error> = bridge.write_gpio(GPIO_BACKEND_POWER, false);
        let reset: Result<(), Error> = bridge.write_gpio(reset, true);
        match power {
            Ok(_) => reset,
            Err(e) => Err(e),
        }
    }
}

/// A signal settles for the rest of 350 ms from when the tuning began if it is of ISDB-T,
/// and not at all if it is not.
pub proof fn settling_takes_the_rest(system: System, elapsed_ms: u64)
    ensures
        match settle_wait(system, elapsed_ms) {
            Some(ms) => system == System::IsdbT && elapsed_ms + ms == 350,
            None => system != System::IsdbT || elapsed_ms > 350,
        },
{
}

} // verus!
