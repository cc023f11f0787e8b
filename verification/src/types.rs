//! What to tune to, and what a tuner is and gives out.

use vstd::prelude::*;

use crate::error::Error;

verus! {

/// A broadcasting system.
#[derive(Clone, Copy, Debug, PartialEq, Eq, Hash, Structural)]
pub enum System {
    /// Terrestrial digital broadcasting.
    IsdbT,
    /// BS / CS110 digital broadcasting (2K).
    IsdbS,
    /// Advanced BS / CS110 digital broadcasting (4K/8K).
    IsdbS3,
}

impl System {
    /// Whether the system is received through a satellite dish and an LNB.
    pub open spec fn satellite(self) -> bool {
        self != System::IsdbT
    }

    /// Whether the system is received through a satellite dish and an LNB.
    #[verifier::when_used_as_spec(satellite)]
    pub fn is_satellite(self) -> (r: bool)
        ensures
            r == self.satellite(),
    {
        !matches!(self, Self::IsdbT)
    }

    pub open spec fn name_text(self) -> &'static str {
        match self {
            System::IsdbT => "IsdbT",
            System::IsdbS => "IsdbS",
            System::IsdbS3 => "IsdbS3",
        }
    }

    /// The system as messages name it.
    pub fn name(self) -> (r: &'static str)
        ensures
            r == self.name_text(),
    {
        match self {
            System::IsdbT => "IsdbT",
            System::IsdbS => "IsdbS",
            System::IsdbS3 => "IsdbS3",
        }
    }
}

/// The stream to take out of a satellite transponder: the TSID for ISDB-S, the
/// TLV stream id for ISDB-S3. Which of the two it is follows from the
/// [`System`], never from the value.
#[derive(Clone, Copy, Debug, PartialEq, Eq, Hash, Structural)]
pub struct StreamId(pub u16);

/// The polarization of a satellite signal. The 2K broadcasts are all
/// right-hand circular; some 4K/8K ones are left-hand.
#[derive(Clone, Copy, Debug, PartialEq, Eq, Hash, Structural)]
pub enum Polarization {
    Right,
    Left,
}

impl Default for Polarization {
    fn default() -> (r: Self)
        ensures
            r == Polarization::Right,
    {
        Polarization::Right
    }
}

/// What to tune to. There is no channel number: a channel list is the
/// business of the layer above.
#[derive(Clone, Copy, Debug, PartialEq, Eq, Hash, Structural)]
pub struct TuneParams {
    pub system: System,
    /// The frequency on air in kHz. For a satellite this is the downlink
    /// frequency before the LNB converts it, 11_727_480 for BS-1 for instance.
    pub frequency_khz: u32,
    /// Required for a satellite, and absent for ISDB-T, which carries one
    /// stream per frequency.
    pub stream_id: Option<StreamId>,
    /// The polarization of a satellite signal; `None` is right-hand.
    pub polarization: Option<Polarization>,
}

/// The local oscillator frequencies of the Japanese dual circular LNB.
pub const LO_RIGHT_KHZ: u32 = 10_678_000;

pub const LO_LEFT_KHZ: u32 = 9_505_000;

/// The polarization meant where one may go without saying.
pub open spec fn meant(polarization: Option<Polarization>) -> Polarization {
    match polarization {
        Some(p) => p,
        None => Polarization::Right,
    }
}

impl TuneParams {
    /// A satellite system has a stream id and ISDB-T has none.
    pub open spec fn valid(self) -> bool {
        self.system.satellite() == self.stream_id is Some
    }

    /// Checks that a satellite system has a stream id and ISDB-T has none.
    pub fn validate(&self) -> (r: Result<(), Error>)
        ensures
            r is Ok <==> self.valid(),
            self.system.satellite() && self.stream_id is None ==> r == Err::<(), Error>(
                Error::InvalidParams("a satellite stream needs a stream id"),
            ),
            !self.system.satellite() && self.stream_id is Some ==> r == Err::<(), Error>(
                Error::InvalidParams("ISDB-T takes no stream id"),
            ),
    {
        match (self.system.is_satellite(), self.stream_id) {
            (true, None) => Err(Error::InvalidParams("a satellite stream needs a stream id")),
            (false, Some(_)) => Err(Error::InvalidParams("ISDB-T takes no stream id")),
            _ => Ok(()),
        }
    }

    /// The frequency of the local oscillator of the LNB for the polarization.
    pub open spec fn lo_khz(self) -> u32 {
        match meant(self.polarization) {
            Polarization::Right => LO_RIGHT_KHZ,
            Polarization::Left => LO_LEFT_KHZ,
        }
    }

    /// What [`if_frequency_khz`](Self::if_frequency_khz) gives.
    pub open spec fn if_khz(self) -> Result<u32, Error> {
        if self.frequency_khz >= self.lo_khz() {
            Ok((self.frequency_khz - self.lo_khz()) as u32)
        } else {
            Err(Error::InvalidParams("the frequency is below the LNB's"))
        }
    }

    /// The intermediate frequency the LNB hands the tuner, in kHz.
    pub fn if_frequency_khz(&self) -> (r: Result<u32, Error>)
        ensures
            r == self.if_khz(),
    {
        let lo: u32 = match self.polarization.unwrap_or(Polarization::Right) {
            Polarization::Right => LO_RIGHT_KHZ,
            Polarization::Left => LO_LEFT_KHZ,
        };
        match self.frequency_khz.checked_sub(lo) {
            Some(khz) => Ok(khz),
            None => Err(Error::InvalidParams("the frequency is below the LNB's")),
        }
    }

    /// What [`normalized`](Self::normalized) gives.
    pub open spec fn plain(self) -> TuneParams {
        TuneParams {
            polarization: if self.system.satellite() {
                Some(meant(self.polarization))
            } else {
                None
            },
            ..self
        }
    }

    /// The same, with the polarization that goes without saying said: right
    /// for a satellite, none for ISDB-T. Equal once normalised, two tune to the
    /// same.
    pub fn normalized(self) -> (r: Self)
        ensures
            r == self.plain(),
    {
        TuneParams {
            system: self.system,
            frequency_khz: self.frequency_khz,
            stream_id: self.stream_id,
            polarization: if self.system.is_satellite() {
                Some(self.polarization.unwrap_or(Polarization::Right))
            } else {
                None
            },
        }
    }

    /// The format of what a tuner gives out for this system.
    pub open spec fn format(self) -> StreamFormat {
        format_of(self.system)
    }

    /// The format a tuner gives out for this system.
    pub fn stream_format(&self) -> (r: StreamFormat)
        ensures
            r == self.format(),
    {
        match self.system {
            System::IsdbS3 => StreamFormat::Tlv,
            _ => StreamFormat::Ts,
        }
    }
}

/// The format of what a tuner gives out for a system.
pub open spec fn format_of(system: System) -> StreamFormat {
    if system == System::IsdbS3 {
        StreamFormat::Tlv
    } else {
        StreamFormat::Ts
    }
}

/// The format of the bytes a tuner gives out.
#[derive(Clone, Copy, Debug, PartialEq, Eq, Hash, Structural)]
pub enum StreamFormat {
    /// MPEG-2 TS in 188-byte packets (ISDB-T and ISDB-S).
    Ts,
    /// TLV packets carrying MMT (ISDB-S3).
    Tlv,
}

/// A carrier-to-noise ratio, as the chip or the system reports it.
#[derive(Clone, Copy, Debug, PartialEq, Eq, Structural)]
pub enum Cnr {
    /// In thousandths of a dB.
    MilliDb(i64),
    /// The raw value of an ISDB-T demodulator.
    IsdbT(u32),
    /// The raw value of an ISDB-S demodulator.
    IsdbS(u16),
}

/// The signal a tuner receives.
#[derive(Clone, Copy, Debug, PartialEq, Eq, Structural)]
pub struct Signal {
    /// Whether the tuner is locked on the signal.
    pub locked: bool,
    /// The carrier-to-noise ratio, if the tuner reports one.
    pub cnr: Option<Cnr>,
}

impl Default for Signal {
    fn default() -> (r: Self)
        ensures
            r == (Signal { locked: false, cnr: None }),
    {
        Signal { locked: false, cnr: None }
    }
}

/// A device, holding one or more tuners.
#[derive(Clone, Debug, PartialEq, Eq, Hash)]
pub struct DeviceInfo {
    /// Stable across reboots: a serial number, or the path of the device on
    /// its bus when it has none.
    pub id: String,
    /// The model of the device, for people to read.
    pub name: String,
}

/// A tuner of a device.
#[derive(Clone, Debug, PartialEq, Eq, Hash)]
pub struct TunerInfo {
    /// The id of the device, then `#` and the index of the tuner.
    pub id: String,
    /// The systems the tuner receives.
    pub systems: Vec<System>,
}

/// Normalising what is normalised changes nothing, and it never touches the
/// system, the frequency, the stream id or whether the parameters are valid.
pub proof fn normalized_is_settled(params: TuneParams)
    ensures
        params.plain().plain() == params.plain(),
        params.plain().system == params.system,
        params.plain().frequency_khz == params.frequency_khz,
        params.plain().stream_id == params.stream_id,
        params.plain().valid() == params.valid(),
{
}

/// Equal once normalised, two tune to the same: the same system, frequency and
/// stream, and for a satellite through the same oscillator of the LNB.
pub proof fn normalized_equal_tune_the_same(a: TuneParams, b: TuneParams)
    requires
        a.plain() == b.plain(),
    ensures
        a.system == b.system,
        a.frequency_khz == b.frequency_khz,
        a.stream_id == b.stream_id,
        a.format() == b.format(),
        a.system.satellite() ==> a.if_khz() == b.if_khz(),
{
}

/// The intermediate frequency and the oscillator make up the frequency on air.
pub proof fn if_frequency_adds_up(params: TuneParams)
    ensures
        params.if_khz() matches Ok(khz) ==> khz + params.lo_khz() == params.frequency_khz,
{
}

/// The LNB takes 10.678 GHz off a right-hand signal and 9.505 GHz off a left-hand one;
/// one that says no polarization is right-hand, and nothing below its oscillator can be
/// received.
pub proof fn lnb_takes_its_oscillator_off(params: TuneParams)
    ensures
        ({
            let oscillator: int = if params.polarization == Some(Polarization::Left) {
                9_505_000
            } else {
                10_678_000
            };
            &&& params.if_khz() matches Ok(khz) ==> khz + oscillator == params.frequency_khz
            &&& params.if_khz() is Ok <==> params.frequency_khz >= oscillator
        }),
{
}

/// ISDB-S3 comes in TLV and the others in TS, and only ISDB-T does not come from a
/// satellite.
pub proof fn systems_have_their_formats(system: System)
    ensures
        format_of(system) == StreamFormat::Tlv <==> system == System::IsdbS3,
        system.satellite() <==> system == System::IsdbS || system == System::IsdbS3,
{
}

} // verus!
