//! A device that is not there, for testing what sits above the drivers where
//! there is no tuner: one device of two tuners, receiving every system, that
//! locks on whatever it is tuned to and gives out null packets.

use vstd::prelude::*;

use crate::error::{of_kind, Error, ErrorKind};
use crate::text;
use crate::text::id_of_tuner;
use crate::types::{Cnr, DeviceInfo, Signal, StreamFormat, System, TuneParams, TunerInfo};

verus! {

/// The tuners of the device.
pub const TUNERS: usize = 2;

/// The carrier-to-noise ratio every tuner reports once tuned, in thousandths of a
/// dB.
pub const CNR_MILLI_DB: i64 = 30_000;

/// The packets in each chunk of a stream, one every [`INTERVAL_MS`]: 9.6 Mbit/s.
pub const PACKETS: usize = 64;

/// The time between two chunks.
pub const INTERVAL_MS: u64 = 10;

/// The size of a packet.
pub const PACKET: usize = 188;

pub struct MockDriver;

/// The driver.
pub fn driver() -> (r: MockDriver)
    ensures
        r == MockDriver,
{
    MockDriver
}

/// The device.
pub fn info() -> (r: DeviceInfo)
    ensures
        r.id@ == "mock:0"@,
        r.name@ == "Tunelith mock"@,
{
    DeviceInfo { id: "mock:0".to_owned(), name: "Tunelith mock".to_owned() }
}

impl MockDriver {
    /// Finds the one device.
    pub fn probe(&self) -> (r: Vec<DeviceInfo>)
        ensures
            r@.len() == 1,
            r@[0].id@ == "mock:0"@,
            r@[0].name@ == "Tunelith mock"@,
    {
        let mut found: Vec<DeviceInfo> = Vec::new();
        found.push(info());
        found
    }

    /// Opens the device, if it is the one.
    pub fn open(&self, device: &DeviceInfo) -> (r: Result<MockDevice, Error>)
        ensures
            if device.id@ == "mock:0"@ {
                &&& r matches Ok(opened)
                &&& opened.wf()
                &&& opened.info.id@ == "mock:0"@
                &&& opened.info.name@ == "Tunelith mock"@
                &&& forall|i: int| 0 <= i < TUNERS ==> !#[trigger] opened.opened@[i]
            } else {
                r matches Err(Error::NotFound(id)) && id@ == device.id@
            },
    {
        let info: DeviceInfo = info();
        if device.id != info.id {
            return Err(Error::NotFound(device.id.clone()));
        }
        let mut tuners: Vec<TunerInfo> = Vec::new();
        let mut i: usize = 0;
        while i < TUNERS
            invariant
                i <= TUNERS,
                tuners@.len() == i,
                info.id@ == "mock:0"@,
                forall|k: int| 0 <= k < i ==> is_tuner(#[trigger] tuners@[k], k as nat),
            decreases TUNERS - i,
        {
            let mut systems: Vec<System> = Vec::new();
            systems.push(System::IsdbT);
            systems.push(System::IsdbS);
            systems.push(System::IsdbS3);
            assert(systems@ =~= seq![System::IsdbT, System::IsdbS, System::IsdbS3]);
            tuners.push(TunerInfo { id: id_of_tuner(info.id.as_str(), i), systems });
            i = i + 1;
        }
        Ok(MockDevice { info, tuners, opened: vec![false; TUNERS] })
    }
}

/// Whether a tuner is tuner `index` of the device.
pub open spec fn is_tuner(tuner: TunerInfo, index: nat) -> bool {
    &&& tuner.id@ == text::tuner_id("mock:0"@, index)
    &&& tuner.systems@ == seq![System::IsdbT, System::IsdbS, System::IsdbS3]
}

/// The device, opened.
pub struct MockDevice {
    pub info: DeviceInfo,
    pub tuners: Vec<TunerInfo>,
    /// Which tuners are open.
    pub opened: Vec<bool>,
}

impl MockDevice {
    pub open spec fn wf(self) -> bool {
        &&& self.opened@.len() == TUNERS
        &&& self.tuners@.len() == TUNERS
        &&& forall|i: int| 0 <= i < TUNERS ==> is_tuner(#[trigger] self.tuners@[i], i as nat)
    }

    /// Opens a tuner, which no one else has open.
    pub fn open_tuner(&mut self, index: usize) -> (r: Result<MockTuner, Error>)
        requires
            old(self).wf(),
        ensures
            final(self).wf(),
            final(self).info == old(self).info,
            if index >= TUNERS {
                &&& r matches Err(Error::NotFound(id))
                &&& id@ == text::tuner_id("mock:0"@, index as nat)
                &&& final(self).opened@ == old(self).opened@
            } else if old(self).opened@[index as int] {
                &&& r == Err::<MockTuner, Error>(of_kind(ErrorKind::ResourceBusy))
                &&& final(self).opened@ == old(self).opened@
            } else {
                &&& r == Ok::<MockTuner, Error>(MockTuner { index, params: None })
                &&& final(self).opened@ == old(self).opened@.update(index as int, true)
            },
    {
        if index >= TUNERS {
            return Err(Error::NotFound(id_of_tuner("mock:0", index)));
        }
        if self.opened[index] {
            return Err(of_kind(ErrorKind::ResourceBusy));
        }
        self.opened.set(index, true);
        Ok(MockTuner { index, params: None })
    }

    /// Takes a tuner back.
    pub fn close_tuner(&mut self, tuner: MockTuner)
        requires
            old(self).wf(),
            tuner.index < TUNERS,
        ensures
            final(self).wf(),
            final(self).info == old(self).info,
            final(self).opened@ == old(self).opened@.update(tuner.index as int, false),
    {
        self.opened.set(tuner.index, false);
    }
}

/// A tuner, opened.
pub struct MockTuner {
    pub index: usize,
    /// What it is tuned to.
    pub params: Option<TuneParams>,
}

impl MockTuner {
    /// Tunes to `params`, if they are valid.
    pub fn tune(&mut self, params: TuneParams) -> (r: Result<(), Error>)
        ensures
            final(self).index == old(self).index,
            r is Ok <==> params.valid(),
            r is Ok ==> final(self).params == Some(params),
            r is Err ==> final(self).params == old(self).params,
            params.system.satellite() && params.stream_id is None ==> r == Err::<(), Error>(
                Error::InvalidParams("a satellite stream needs a stream id"),
            ),
            !params.system.satellite() && params.stream_id is Some ==> r == Err::<(), Error>(
                Error::InvalidParams("ISDB-T takes no stream id"),
            ),
    {
        match params.validate() {
            Ok(_) => {},
            Err(e) => return Err(e),
        }
        self.params = Some(params);
        Ok(())
    }

    /// The signal, which is there once the tuner is tuned.
    pub fn signal(&self) -> (r: Signal)
        ensures
            r == (Signal {
                locked: self.params is Some,
                cnr: if self.params is Some {
                    Some(Cnr::MilliDb(CNR_MILLI_DB))
                } else {
                    None
                },
            }),
    {
        let locked: bool = self.params.is_some();
        Signal {
            locked,
            cnr: if locked {
                Some(Cnr::MilliDb(CNR_MILLI_DB))
            } else {
                None
            },
        }
    }

    /// The format of the stream, once the tuner is tuned.
    pub fn stream_format(&self) -> (r: Result<StreamFormat, Error>)
        ensures
            r == match self.params {
                Some(params) => Ok::<StreamFormat, Error>(params.format()),
                None => Err(Error::NoLock),
            },
    {
        match self.params {
            Some(params) => Ok(params.stream_format()),
            None => Err(Error::NoLock),
        }
    }
}

/// The head of a null packet.
pub open spec fn null_head(format: StreamFormat, counter: u8) -> Seq<u8> {
    match format {
        StreamFormat::Ts => seq![0x47u8, 0x1fu8, 0xffu8, 0x10u8 | (counter & 0x0f)],
        StreamFormat::Tlv => seq![0x7fu8, 0xffu8, 0x00u8, 184u8],
    }
}

/// A null packet of 188 bytes.
pub open spec fn null_bytes(format: StreamFormat, counter: u8) -> Seq<u8> {
    null_head(format, counter) + Seq::new(184, |i: int| 0xffu8)
}

/// A null packet of 188 bytes: a TS one, its continuity counter taken from
/// `counter`, or a TLV one.
pub fn null_packet(format: StreamFormat, counter: u8) -> (r: [u8; 188])
    ensures
        r@ == null_bytes(format, counter),
{
    let mut packet: [u8; 188] = [0xff; 188];
    match format {
        StreamFormat::Ts => {
            packet[0] = 0x47;
            packet[1] = 0x1f;
            packet[2] = 0xff;
            packet[3] = 0x10 | (counter & 0x0f);
        },
        StreamFormat::Tlv => {
            packet[0] = 0x7f;
            packet[1] = 0xff;
            packet[2] = 0x00;
            packet[3] = 184;
        },
    }
    assert(packet@ =~= null_bytes(format, counter));
    packet
}

/// The first `n` packets of a chunk.
pub open spec fn null_packets(format: StreamFormat, counter: u8, n: int) -> Seq<u8>
    decreases n,
{
    if n <= 0 {
        Seq::empty()
    } else {
        null_packets(format, counter, n - 1) + null_bytes(
            format,
            counter.wrapping_add((n - 1) as u8),
        )
    }
}

/// A chunk of a stream, and the counter of the one after it.
pub fn chunk(format: StreamFormat, counter: u8) -> (r: (Vec<u8>, u8))
    ensures
        r.0@ == null_packets(format, counter, PACKETS as int),
        r.1 == counter.wrapping_add(64),
{
    let mut data: Vec<u8> = Vec::new();
    let mut i: usize = 0;
    while i < PACKETS
        invariant
            i <= PACKETS,
            data@ == null_packets(format, counter, i as int),
        decreases PACKETS - i,
    {
        let packet: [u8; 188] = null_packet(format, counter.wrapping_add(i as u8));
        data.extend_from_slice(packet.as_slice());
        i = i + 1;
    }
    (data, counter.wrapping_add(64))
}

/// A chunk is whole packets, each starting with its sync byte.
pub proof fn chunks_are_packets(format: StreamFormat, counter: u8, n: int)
    requires
        n >= 0,
    ensures
        null_packets(format, counter, n).len() == n * 188,
        forall|k: int|
            #![trigger null_packets(format, counter, n)[k * 188]]
            0 <= k < n ==> null_packets(format, counter, n)[k * 188] == if format
                == StreamFormat::Ts {
                0x47u8
            } else {
                0x7fu8
            },
    decreases n,
{
    if n > 0 {
        chunks_are_packets(format, counter, n - 1);
        let rest = null_packets(format, counter, n - 1);
        let all = null_packets(format, counter, n);
        let last = null_bytes(format, counter.wrapping_add((n - 1) as u8));
        assert(all == rest + last);
        assert forall|k: int|
            #![trigger all[k * 188]]
            0 <= k < n implies all[k * 188] == if format == StreamFormat::Ts {
            0x47u8
        } else {
            0x7fu8
        } by {
            if k < n - 1 {
                assert(all[k * 188] == rest[k * 188]);
            } else {
                assert(all[k * 188] == last[0]);
            }
        }
    }
}

/// The packets that stand for nothing are what receivers take for that: a TS one is of
/// PID 0x1fff, with a payload and the lower half of the counter for its continuity; a TLV
/// one is of type 0xff with 184 bytes of payload.
pub proof fn null_packets_are_null(counter: u8)
    ensures
        ({
            let ts = null_bytes(StreamFormat::Ts, counter);
            &&& ts.len() == 188
            &&& ts[0] == 0x47
            &&& ts[1] % 32 * 256 + ts[2] == 0x1fff
            &&& ts[1] / 32 == 0
            &&& ts[3] / 16 == 1
            &&& ts[3] % 16 == counter % 16
            &&& forall|i: int| 4 <= i < 188 ==> #[trigger] ts[i] == 0xff
        }),
        null_bytes(StreamFormat::Tlv, counter) == crate::align::tlv(
            0xff,
            Seq::new(184, |i: int| 0xffu8),
        ),
{
    assert((0x10u8 | (counter & 0x0f)) / 16 == 1 && (0x10u8 | (counter & 0x0f)) % 16 == counter
        % 16) by (bit_vector);
    assert(null_bytes(StreamFormat::Tlv, counter) =~= crate::align::tlv(
        0xff,
        Seq::new(184, |i: int| 0xffu8),
    ));
}

/// The packets of a chunk count on: each is the null packet of the counter so many after
/// the first.
pub proof fn packets_count_on(format: StreamFormat, counter: u8, n: int, k: int)
    requires
        0 <= k < n <= 64,
    ensures
        null_packets(format, counter, n).len() == n * 188,
        null_packets(format, counter, n).subrange(k * 188, k * 188 + 188) == null_bytes(
            format,
            ((counter + k) % 256) as u8,
        ),
    decreases n,
{
    let rest = null_packets(format, counter, n - 1);
    let last = null_bytes(format, counter.wrapping_add((n - 1) as u8));
    chunks_are_packets(format, counter, n - 1);
    assert(null_packets(format, counter, n) =~= rest + last);
    if k < n - 1 {
        packets_count_on(format, counter, n - 1, k);
        assert((rest + last).subrange(k * 188, k * 188 + 188) =~= rest.subrange(
            k * 188,
            k * 188 + 188,
        ));
    } else {
        assert((rest + last).subrange(k * 188, k * 188 + 188) =~= last);
    }
}

} // verus!
