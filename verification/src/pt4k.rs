//! PT4K (TBS6812), which receives ISDB-T, ISDB-S and ISDB-S3.
//!
//! On Linux the out-of-tree DVB driver of TBS drives it. The kernel lists
//! ISDB-S alone among its systems; ISDB-S3 goes through ISDB-S, the driver
//! telling the two apart by `DTV_STREAM_ID`: under 8 it is a relative TS
//! number, with 0xB or 0xC in the top 4 of the lower 16 bits a TLV stream id,
//! and otherwise a TSID. [`StreamId`] is never a relative TS number, so it
//! passes as is.

use vstd::prelude::*;

use crate::dvb;
use crate::dvb::{DvbDevice, DvbDriver, Quirks, LOCK_TIMEOUT_MS};
use crate::types::{StreamId, System};

verus! {

pub struct Pt4k;

/// Whether an attribute of a device is the number.
pub open spec fn is_attribute(device: DvbDevice, name: Seq<char>, value: nat) -> bool {
    &&& dvb::attribute(device.attributes@, name) matches Some(held)
    &&& dvb::attribute_value(held) == Some(value)
}

impl Quirks for Pt4k {
    open spec fn telling(&self) -> Seq<&'static str> {
        seq!["vendor", "subsystem_vendor"]
    }

    /// The bridge is TBS's own, shared by its cards; the subsystem vendor tells the
    /// model.
    open spec fn takes(&self, device: DvbDevice) -> bool {
        is_attribute(device, "vendor"@, 0x544d) && is_attribute(
            device,
            "subsystem_vendor"@,
            0x6812,
        )
    }

    open spec fn extras(&self) -> Seq<System> {
        seq![System::IsdbS3]
    }

    open spec fn stream_value(&self, system: System, id: StreamId) -> u32 {
        id.0 as u32
    }

    open spec fn patience(&self) -> u64 {
        LOCK_TIMEOUT_MS
    }

    fn attributes(&self) -> (r: Vec<&'static str>) {
        let mut names: Vec<&'static str> = Vec::new();
        names.push("vendor");
        names.push("subsystem_vendor");
        names
    }

    fn claims(&self, device: &DvbDevice) -> (r: bool) {
        let vendor: Option<u16> = device.attr(&"vendor".to_owned());
        let subsystem: Option<u16> = device.attr(&"subsystem_vendor".to_owned());
        match (vendor, subsystem) {
            (Some(v), Some(s)) => v == 0x544d && s == 0x6812,
            _ => false,
        }
    }

    fn extra_systems(&self) -> (r: Vec<System>) {
        let mut systems: Vec<System> = Vec::new();
        systems.push(System::IsdbS3);
        systems
    }

    fn stream_id(&self, _system: System, id: StreamId) -> (r: u32) {
        id.0 as u32
    }

    fn lock_timeout_ms(&self) -> (r: u64) {
        LOCK_TIMEOUT_MS
    }
}

/// The driver of the model.
pub fn driver() -> (r: DvbDriver<Pt4k>)
    ensures
        r.quirks == Pt4k,
{
    DvbDriver::new(Pt4k)
}

} // verus!
