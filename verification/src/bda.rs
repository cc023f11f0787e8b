//! What the driver over BDA, the Broadcast Driver Architecture of Windows, decides,
//! driven through Kernel Streaming alone: the pins of the tuner and capture filters
//! are created and connected as a DirectShow graph would, with no graph, network
//! provider or reference clock in between. The requests themselves are the
//! program's to make.

use vstd::prelude::*;

use crate::error::{error, of_kind, of_kind_with, Error, ErrorKind};
use crate::ks;
use crate::ks::{Interface, Medium, State};
use crate::lists;

use crate::text;
use crate::text::{goes_before, id_of_tuner, parse_number, split, strip_prefix};
use crate::types;
use crate::types::{
    Cnr, DeviceInfo, Polarization, Signal, StreamFormat, StreamId, System, TuneParams,
    TunerInfo,
};

verus! {

/// The time between two looks at the signal while the tuner locks.
pub const LOCK_POLL_MS: u64 = 100;

/// How long a tuner may take to lock unless its model says otherwise.
pub const LOCK_TIMEOUT_MS: u64 = 5000;

/// 512 packets, the frame the capture filters seen so far ask for.
pub const DEFAULT_FRAME: u32 = 96_256;

/// The reads kept in flight on a capture pin.
pub const READS_IN_FLIGHT: usize = 8;

/// The frames a stream may fall behind by before its data is dropped.
pub const STREAM_BACKLOG: usize = 64;

/// The symbol rates of the satellite systems, in kBd.
pub const ISDB_S_SYMBOL_RATE: u32 = 28_860;

pub const ISDB_S3_SYMBOL_RATE: u32 = 33_756;

/// `BDA_MOD_ISDB_S_TMCC`, `BDA_BCC_RATE_2_3` and
/// `BDA_SPECTRAL_INVERSION_AUTOMATIC`: the modulation, as for the TMCC, of
/// both satellite systems.
pub const MODULATION_ISDB_S_TMCC: u32 = 35;

pub const INNER_FEC_RATE_2_3: u32 = 2;

pub const SPECTRAL_INVERSION_AUTOMATIC: u32 = 1;

/// `BDA_POLARISATION_CIRCULAR_L` and `BDA_POLARISATION_CIRCULAR_R`.
pub const POLARISATION_CIRCULAR_L: u32 = 3;

pub const POLARISATION_CIRCULAR_R: u32 = 4;

/// Above any local oscillator, so that the LNB has the one band.
pub const LNB_SWITCH_KHZ: u32 = 20_000_000;

/// A property set on a pin.
pub struct PinProperty {
    pub request: Vec<u8>,
    pub value: Vec<u8>,
}

/// A property of the property set `set` for a pin, with `instance` following the
/// `KSPROPERTY` of the request.
pub fn pin_property(set: u128, id: u32, instance: &[u8], value: Vec<u8>) -> (r: PinProperty)
    ensures
        r.request@ == ks::request_bytes(set, id, ks::SET, Seq::empty()) + instance@,
        r.value == value,
{
    let none: [u32; 0] = [];
    assert(none@ =~= Seq::empty());
    let mut request: Vec<u8> = ks::request(set, id, ks::SET, none.as_slice());
    request.extend_from_slice(instance);
    PinProperty { request, value }
}

/// What a tuner that knows no way to select a stream answers.
pub open spec fn no_selection() -> Error {
    of_kind_with(ErrorKind::Unsupported, "the tuner has no known way to select a stream")
}

/// What a tuner that knows no way to select a stream answers.
#[verifier::when_used_as_spec(no_selection)]
pub fn cannot_select() -> (r: Error)
    ensures
        r == no_selection(),
{
    of_kind_with(ErrorKind::Unsupported, "the tuner has no known way to select a stream")
}

/// The requests and the values of properties.
pub open spec fn property_views(properties: Seq<PinProperty>) -> Seq<(Seq<u8>, Seq<u8>)> {
    properties.map(|i: int, p: PinProperty| (p.request@, p.value@))
}

/// What sets a device model apart from the others BDA drives.
pub trait Quirks {
    /// The requests and the values that select the stream to take out of the
    /// transponder.
    closed spec fn selection(&self, system: System, id: StreamId) -> Result<
        Seq<(Seq<u8>, Seq<u8>)>,
        Error,
    > {
        arbitrary()
    }

    /// Whether the device is of this model.
    closed spec fn takes(&self, device: BdaDevice) -> bool {
        arbitrary()
    }

    /// The systems the satellite tuners receive beyond ISDB-S.
    closed spec fn extras(&self) -> Seq<System> {
        arbitrary()
    }

    /// The bytes the tuner gives out after a tune that it received before.
    closed spec fn stale(&self) -> usize {
        arbitrary()
    }

    /// The carrier-to-noise ratio of a signal strength.
    closed spec fn ratio(&self, strength: i32) -> Option<Cnr> {
        arbitrary()
    }

    /// How long the tuner may take to lock.
    closed spec fn patience(&self) -> u64 {
        arbitrary()
    }

    /// Whether the device is of this model.
    fn claims(&self, device: &BdaDevice) -> (r: bool)
        ensures
            r == self.takes(*device),
    ;

    /// The systems the satellite tuners receive beyond ISDB-S.
    fn extra_systems(&self) -> (r: Vec<System>)
        ensures
            r@ == self.extras(),
    ;

    /// The properties that select the stream to take out of the transponder, set on
    /// the input pin of the tuner filter before the tune. BDA has none of its own
    /// for it; see [`cannot_select`].
    fn select_stream(&self, system: System, id: StreamId) -> (r: Result<Vec<PinProperty>, Error>)
        ensures
            match self.selection(system, id) {
                Ok(set) => r matches Ok(properties) && property_views(properties@) == set,
                Err(e) => r matches Err(told) && told == e,
            },
    ;

    /// The bytes the tuner gives out after a tune that it received before,
    /// which are left out.
    fn stale_bytes(&self) -> (r: usize)
        ensures
            r == self.stale(),
    ;

    /// The carrier-to-noise ratio of the signal strength the tuner reports, if it
    /// reports that.
    fn cnr(&self, strength: i32) -> (r: Option<Cnr>)
        ensures
            r == self.ratio(strength),
    ;

    /// How long the tuner may take to lock, in milliseconds.
    fn lock_timeout_ms(&self) -> (r: u64)
        ensures
            r == self.patience(),
    ;
}

/// A driver of the devices a model claims.
pub struct BdaDriver<Q> {
    pub quirks: Q,
}

impl<Q: Quirks> BdaDriver<Q> {
    pub fn new(quirks: Q) -> (r: Self)
        ensures
            r.quirks == quirks,
    {
        BdaDriver { quirks }
    }
}

/// A tuner filter, the capture filter it feeds, and what is known of them.
#[derive(Clone, Debug)]
pub struct Filters {
    /// The paths of the two.
    pub tuner: String,
    pub capture: String,
    /// The friendly name of the tuner filter, which orders the tuners.
    pub name: String,
    pub systems: Vec<System>,
    /// The pin factories.
    pub input: u32,
    pub output: u32,
    pub capture_input: u32,
    pub capture_output: u32,
    /// The medium connecting the tuner filter to the capture filter.
    pub medium: Medium,
    pub tuner_node: u32,
    pub demodulator_node: u32,
}

/// A physical device, with its BDA tuners.
pub struct BdaDevice {
    /// The instance id of the device,
    /// `PCI\VEN_544D&DEV_6178&SUBSYS_00016812&REV_00\4&23F93F77&0&00E0` for
    /// instance.
    pub instance_id: String,
    pub name: String,
    pub tuners: Vec<Filters>,
}

/// The value of a field of a hardware id, if it is the field of the name.
pub open spec fn field_value(field: Seq<char>, name: Seq<char>) -> Option<nat> {
    match text::stripped(field, name) {
        None => None,
        Some(rest) => match text::stripped(rest, "_"@) {
            None => None,
            Some(digits) => match text::number(digits, 16, u32::MAX as nat) {
                Ok(n) => Some(n),
                Err(_) => None,
            },
        },
    }
}

/// The value of the first of the fields that has one for the name.
pub open spec fn first_value(fields: Seq<Seq<char>>, name: Seq<char>) -> Option<nat>
    decreases fields.len(),
{
    if fields.len() == 0 {
        None
    } else {
        match field_value(fields[0], name) {
            Some(n) => Some(n),
            None => first_value(fields.skip(1), name),
        }
    }
}

/// A field of the hardware id, which is the second part of an instance id.
pub open spec fn hardware_value(instance_id: Seq<char>, name: Seq<char>) -> Option<nat> {
    let parts = text::pieces(instance_id, '\\');
    if parts.len() < 2 {
        None
    } else {
        first_value(text::pieces(parts[1], '&'), name)
    }
}

/// The id of the device of an instance id.
pub open spec fn device_id(instance_id: Seq<char>) -> Seq<char> {
    "bda:"@ + instance_id
}

fn value_of_field(field: &str, name: &str) -> (r: Option<u32>)
    ensures
        match field_value(field@, name@) {
            Some(n) => r matches Some(v) && v == n,
            None => r is None,
        },
{
    match strip_prefix(field, name) {
        None => None,
        Some(rest) => match strip_prefix(rest, "_") {
            None => None,
            Some(digits) => match parse_number(digits, 16, u32::MAX) {
                Ok(n) => Some(n),
                Err(_) => None,
            },
        },
    }
}

impl BdaDevice {
    /// A hexadecimal field of the hardware id in the instance id, `VEN` or
    /// `SUBSYS` for instance.
    pub fn hardware_field(&self, name: &str) -> (r: Option<u32>)
        ensures
            match hardware_value(self.instance_id@, name@) {
                Some(n) => r matches Some(v) && v == n,
                None => r is None,
            },
    {
        let parts: Vec<&str> = split(self.instance_id.as_str(), '\\');
        assert(text::views(parts@).len() == parts@.len());
        if parts.len() < 2 {
            return None;
        }
        assert(text::views(parts@)[1] == parts@[1]@);
        let fields: Vec<&str> = split(parts[1], '&');
        let ghost all = text::views(fields@);
        let mut i: usize = 0;
        assert(all.skip(0) =~= all);
        while i < fields.len()
            invariant
                i <= fields@.len(),
                all == text::views(fields@),
                first_value(all, name@) == first_value(all.skip(i as int), name@),
                hardware_value(self.instance_id@, name@) == first_value(all, name@),
            decreases fields@.len() - i,
        {
            assert(all.skip(i as int)[0] == fields@[i as int]@);
            match value_of_field(fields[i], name) {
                Some(n) => return Some(n),
                None => {},
            }
            assert(all.skip(i as int).skip(1) =~= all.skip(i + 1));
            i = i + 1;
        }
        None
    }

    pub fn id(&self) -> (r: String)
        ensures
            r@ == device_id(self.instance_id@),
    {
        "bda:".to_owned().concat(self.instance_id.as_str())
    }
}

/// The first pin factory of a data flow, if there is one.
pub open spec fn first_flow(flows: Seq<u32>, flow: u32, i: int) -> Option<u32>
    decreases flows.len() - i,
{
    if i < 0 || i >= flows.len() {
        None
    } else if flows[i] == flow {
        Some(i as u32)
    } else {
        first_flow(flows, flow, i + 1)
    }
}

/// The first input and the first output pin factory of a filter.
pub open spec fn factories(flows: Seq<u32>) -> Result<(u32, u32), Error> {
    match (
        first_flow(flows, ks::KSPIN_DATAFLOW_IN, 0),
        first_flow(flows, ks::KSPIN_DATAFLOW_OUT, 0),
    ) {
        (Some(input), Some(output)) => Ok((input, output)),
        _ => Err(error("a filter without an input and an output pin")),
    }
}

fn find_flow(flows: &Vec<u32>, flow: u32) -> (r: Option<u32>)
    requires
        flows@.len() <= u32::MAX,
    ensures
        r == first_flow(flows@, flow, 0),
{
    let mut i: usize = 0;
    while i < flows.len()
        invariant
            i <= flows@.len() <= u32::MAX,
            first_flow(flows@, flow, 0) == first_flow(flows@, flow, i as int),
        decreases flows@.len() - i,
    {
        if flows[i] == flow {
            return Some(i as u32);
        }
        i = i + 1;
    }
    None
}

/// The first input and the first output pin factory of a filter, from the data flow
/// of each factory.
pub fn pin_factories(flows: &Vec<u32>) -> (r: Result<(u32, u32), Error>)
    requires
        flows@.len() <= u32::MAX,
    ensures
        r == factories(flows@),
{
    match (find_flow(flows, ks::KSPIN_DATAFLOW_IN), find_flow(flows, ks::KSPIN_DATAFLOW_OUT)) {
        (Some(input), Some(output)) => Ok((input, output)),
        _ => Err(error("a filter without an input and an output pin")),
    }
}

/// What a tuner filter answers of itself.
pub struct TunerFacts {
    /// The data flow of each pin factory.
    pub flows: Vec<u32>,
    /// The mediums of the output pin factory.
    pub mediums: Vec<Medium>,
    /// The type and the function of each node.
    pub nodes: Vec<(u32, u128)>,
}

/// What a capture filter answers of itself.
pub struct CaptureFacts {
    /// The path of the filter.
    pub path: String,
    /// The instance id of its device.
    pub instance_id: String,
    /// Its input and output pin factories.
    pub input: u32,
    pub output: u32,
    /// The mediums of the input one.
    pub mediums: Vec<Medium>,
}

/// The place of the first capture filter of the device that takes what is given
/// through the medium, or the length for none.
pub open spec fn fed(captures: Seq<CaptureFacts>, instance_id: Seq<char>, medium: Medium) -> int
    decreases captures.len(),
{
    if captures.len() == 0 {
        0
    } else if captures[0].instance_id@ == instance_id && captures[0].mediums@.contains(medium) {
        0
    } else {
        1 + fed(captures.skip(1), instance_id, medium)
    }
}

/// Whether a function is that of a demodulator of ISDB-T.
pub open spec fn terrestrial(function: u128) -> bool {
    function == ks::KSNODE_BDA_COFDM_DEMODULATOR || function == ks::KSNODE_BDA_ISDB_T_DEMODULATOR
}

/// Whether a function is that of a demodulator of ISDB-S.
pub open spec fn satellite(function: u128) -> bool {
    ||| function == ks::KSNODE_BDA_QPSK_DEMODULATOR
    ||| function == ks::KSNODE_BDA_8PSK_DEMODULATOR
    ||| function == ks::KSNODE_BDA_ISDB_S_DEMODULATOR
}

/// The last node that is the tuner.
pub open spec fn tuner_node(nodes: Seq<(u32, u128)>) -> Option<u32>
    decreases nodes.len(),
{
    if nodes.len() == 0 {
        None
    } else if nodes.last().1 == ks::KSNODE_BDA_RF_TUNER {
        Some(nodes.last().0)
    } else {
        tuner_node(nodes.drop_last())
    }
}

/// The last node that is a demodulator, and whether it is one for a satellite.
pub open spec fn demodulator_node(nodes: Seq<(u32, u128)>) -> Option<(u32, bool)>
    decreases nodes.len(),
{
    if nodes.len() == 0 {
        None
    } else if terrestrial(nodes.last().1) {
        Some((nodes.last().0, false))
    } else if satellite(nodes.last().1) {
        Some((nodes.last().0, true))
    } else {
        demodulator_node(nodes.drop_last())
    }
}

fn nodes_of(nodes: &Vec<(u32, u128)>) -> (r: (Option<u32>, Option<(u32, bool)>))
    ensures
        r.0 == tuner_node(nodes@),
        r.1 == demodulator_node(nodes@),
{
    let mut tuner: Option<u32> = None;
    let mut demodulator: Option<(u32, bool)> = None;
    let mut i: usize = 0;
    while i < nodes.len()
        invariant
            i <= nodes@.len(),
            tuner == tuner_node(nodes@.take(i as int)),
            demodulator == demodulator_node(nodes@.take(i as int)),
        decreases nodes@.len() - i,
    {
        proof {
            assert(nodes@.take(i + 1).drop_last() =~= nodes@.take(i as int));
            assert(nodes@.take(i + 1).last() == nodes@[i as int]);
        }
        let (node, function): (u32, u128) = nodes[i];
        if function == ks::KSNODE_BDA_RF_TUNER {
            tuner = Some(node);
        } else if function == ks::KSNODE_BDA_COFDM_DEMODULATOR || function
            == ks::KSNODE_BDA_ISDB_T_DEMODULATOR {
            demodulator = Some((node, false));
        } else if function == ks::KSNODE_BDA_QPSK_DEMODULATOR || function
            == ks::KSNODE_BDA_8PSK_DEMODULATOR || function == ks::KSNODE_BDA_ISDB_S_DEMODULATOR {
            demodulator = Some((node, true));
        }
        i = i + 1;
    }
    assert(nodes@.take(i as int) =~= nodes@);
    (tuner, demodulator)
}

fn find_capture(captures: &Vec<CaptureFacts>, instance_id: &String, medium: Medium) -> (r: usize)
    ensures
        r == fed(captures@, instance_id@, medium),
        r <= captures@.len(),
{
    let mut i: usize = 0;
    assert(captures@.skip(0) =~= captures@);
    while i < captures.len()
        invariant
            i <= captures@.len(),
            fed(captures@, instance_id@, medium) == i + fed(
                captures@.skip(i as int),
                instance_id@,
                medium,
            ),
        decreases captures@.len() - i,
    {
        assert(captures@.skip(i as int)[0] == captures@[i as int]);
        if captures[i].instance_id == *instance_id && has_medium(&captures[i].mediums, medium) {
            return i;
        }
        assert(captures@.skip(i as int).skip(1) =~= captures@.skip(i + 1));
        i = i + 1;
    }
    i
}

fn has_medium(mediums: &Vec<Medium>, medium: Medium) -> (r: bool)
    ensures
        r == mediums@.contains(medium),
{
    let mut i: usize = 0;
    while i < mediums.len()
        invariant
            i <= mediums@.len(),
            forall|k: int| 0 <= k < i ==> mediums@[k] != medium,
        decreases mediums@.len() - i,
    {
        if mediums[i] == medium {
            assert(mediums@[i as int] == medium);
            return true;
        }
        i = i + 1;
    }
    false
}

/// What keeps a tuner filter from being used, if anything does.
pub open spec fn hindrance(
    instance_id: Seq<char>,
    facts: TunerFacts,
    captures: Seq<CaptureFacts>,
) -> Option<Error> {
    match factories(facts.flows@) {
        Err(e) => Some(e),
        Ok(_) => if facts.mediums@.len() == 0 {
            Some(error("an output pin without a medium"))
        } else if fed(captures, instance_id, facts.mediums@[0]) >= captures.len() {
            Some(error("no capture filter for the tuner"))
        } else if tuner_node(facts.nodes@) is None || demodulator_node(facts.nodes@) is None {
            Some(error("not an ISDB tuner"))
        } else {
            None
        },
    }
}

/// Whether filters are the tuner filter and the capture filter it feeds.
pub open spec fn described(
    filters: Filters,
    tuner: Interface,
    facts: TunerFacts,
    captures: Seq<CaptureFacts>,
    extras: Seq<System>,
) -> bool {
    let (input, output) = factories(facts.flows@)->Ok_0;
    let medium = facts.mediums@[0];
    let capture = captures[fed(captures, tuner.instance_id@, medium)];
    let (demodulator, sky) = demodulator_node(facts.nodes@)->0;
    &&& filters.tuner@ == tuner.path@
    &&& filters.capture@ == capture.path@
    &&& filters.name@ == tuner.name@
    &&& filters.input == input
    &&& filters.output == output
    &&& filters.capture_input == capture.input
    &&& filters.capture_output == capture.output
    &&& filters.medium == medium
    &&& filters.tuner_node == tuner_node(facts.nodes@)->0
    &&& filters.demodulator_node == demodulator
    &&& filters.systems@ == if sky {
        seq![System::IsdbS] + extras
    } else {
        seq![System::IsdbT]
    }
}

/// Describes a tuner filter and the capture filter of the same device that takes
/// what its output pin gives, by its medium. `captures` are the capture filters
/// that answered, in order.
pub fn describe<Q: Quirks>(
    tuner: &Interface,
    facts: &TunerFacts,
    captures: &Vec<CaptureFacts>,
    quirks: &Q,
) -> (r: Result<Filters, Error>)
    requires
        facts.flows@.len() <= u32::MAX,
    ensures
        match hindrance(tuner.instance_id@, *facts, captures@) {
            Some(e) => r == Err::<Filters, Error>(e),
            None => r matches Ok(filters) && described(
                filters,
                *tuner,
                *facts,
                captures@,
                quirks.extras(),
            ),
        },
{
    let (input, output): (u32, u32) = match pin_factories(&facts.flows) {
        Ok(pins) => pins,
        Err(e) => return Err(e),
    };
    if facts.mediums.len() == 0 {
        return Err(error("an output pin without a medium"));
    }
    let medium: Medium = facts.mediums[0];
    let at: usize = find_capture(captures, &tuner.instance_id, medium);
    if at >= captures.len() {
        return Err(error("no capture filter for the tuner"));
    }
    match nodes_of(&facts.nodes) {
        (Some(tuner_node), Some((demodulator_node, sky))) => {
            let mut systems: Vec<System> = Vec::new();
            if sky {
                systems.push(System::IsdbS);
                let mut more: Vec<System> = quirks.extra_systems();
                systems.append(&mut more);
                assert(systems@ =~= seq![System::IsdbS] + quirks.extras());
            } else {
                systems.push(System::IsdbT);
                assert(systems@ =~= seq![System::IsdbT]);
            }
            Ok(
                Filters {
                    tuner: tuner.path.clone(),
                    capture: captures[at].path.clone(),
                    name: tuner.name.clone(),
                    systems,
                    input,
                    output,
                    capture_input: captures[at].input,
                    capture_output: captures[at].output,
                    medium,
                    tuner_node,
                    demodulator_node,
                },
            )
        },
        _ => Err(error("not an ISDB tuner")),
    }
}

/// A tuner found: the filters of it, and the device it is of.
pub struct FoundTuner {
    pub instance_id: String,
    pub device_name: String,
    pub filters: Filters,
}

/// What a device found is.
#[verifier::ext_equal]
pub struct DeviceView {
    pub instance_id: Seq<char>,
    pub name: Seq<char>,
    pub tuners: Seq<Filters>,
}

impl View for BdaDevice {
    type V = DeviceView;

    open spec fn view(&self) -> DeviceView {
        DeviceView {
            instance_id: self.instance_id@,
            name: self.name@,
            tuners: self.tuners@,
        }
    }
}

/// What devices are.
pub open spec fn device_views(devices: Seq<BdaDevice>) -> Seq<DeviceView> {
    devices.map(|i: int, d: BdaDevice| d@)
}

/// The place of the device of an instance id, or the length for none.
pub open spec fn place(devices: Seq<DeviceView>, instance_id: Seq<char>) -> int
    decreases devices.len(),
{
    if devices.len() == 0 {
        0
    } else if devices[0].instance_id == instance_id {
        0
    } else {
        1 + place(devices.skip(1), instance_id)
    }
}

/// The devices with one more tuner, which goes to the device of its instance id.
pub open spec fn with_tuner(devices: Seq<DeviceView>, t: FoundTuner) -> Seq<DeviceView> {
    let i = place(devices, t.instance_id@);
    if i < devices.len() {
        devices.update(
            i,
            DeviceView { tuners: devices[i].tuners.push(t.filters), ..devices[i] },
        )
    } else {
        devices.push(
            DeviceView {
                instance_id: t.instance_id@,
                name: t.device_name@,
                tuners: seq![t.filters],
            },
        )
    }
}

/// The devices of tuners, in the order their first ones come.
pub open spec fn grouped(s: Seq<FoundTuner>) -> Seq<DeviceView>
    decreases s.len(),
{
    if s.len() == 0 {
        Seq::empty()
    } else {
        with_tuner(grouped(s.drop_last()), s.last())
    }
}

fn find(devices: &Vec<BdaDevice>, instance_id: &String) -> (r: usize)
    ensures
        r == place(device_views(devices@), instance_id@),
        r <= devices@.len(),
{
    let ghost all = device_views(devices@);
    let mut i: usize = 0;
    assert(all.skip(0) =~= all);
    while i < devices.len()
        invariant
            i <= devices@.len(),
            all == device_views(devices@),
            place(all, instance_id@) == i + place(all.skip(i as int), instance_id@),
        decreases devices@.len() - i,
    {
        assert(all.skip(i as int)[0] == devices@[i as int]@);
        if devices[i].instance_id == *instance_id {
            return i;
        }
        assert(all.skip(i as int).skip(1) =~= all.skip(i + 1));
        i = i + 1;
    }
    i
}

/// The devices of the tuners found, by their instance id.
pub fn group(tuners: Vec<FoundTuner>) -> (r: Vec<BdaDevice>)
    ensures
        device_views(r@) == grouped(tuners@),
{
    let ghost all = tuners@;
    let mut rest: Vec<FoundTuner> = tuners;
    let n: usize = rest.len();
    let mut devices: Vec<BdaDevice> = Vec::new();
    let mut i: usize = 0;
    assert(device_views(devices@) =~= grouped(all.take(0)));
    assert(all.skip(0) =~= all);
    while i < n
        invariant
            i <= n,
            n == all.len(),
            rest@ == all.skip(i as int),
            device_views(devices@) == grouped(all.take(i as int)),
        decreases n - i,
    {
        let ghost before = device_views(devices@);
        proof {
            assert(all.take(i + 1).drop_last() =~= all.take(i as int));
            assert(all.take(i + 1).last() == all[i as int]);
        }
        let t: FoundTuner = rest.remove(0);
        assert(t == all[i as int]);
        assert(rest@ =~= all.skip(i + 1));
        let at: usize = find(&devices, &t.instance_id);
        if at < devices.len() {
            assert(before[at as int] == devices@[at as int]@);
            devices[at].tuners.push(t.filters);
        } else {
            let mut list: Vec<Filters> = Vec::new();
            list.push(t.filters);
            devices.push(
                BdaDevice { instance_id: t.instance_id, name: t.device_name, tuners: list },
            );
            assert(devices@.last().tuners@ =~= seq![all[i as int].filters]);
        }
        assert(device_views(devices@) =~= with_tuner(before, all[i as int]));
        i = i + 1;
    }
    assert(all.take(n as int) =~= all);
    devices
}

/// Whether a device is claimed.
pub open spec fn claimed_by<Q: Quirks>(quirks: Q) -> spec_fn(BdaDevice) -> bool {
    |d: BdaDevice| quirks.takes(d)
}

/// The devices the quirks claim.
pub fn claimed<Q: Quirks>(devices: Vec<BdaDevice>, quirks: &Q) -> (r: Vec<BdaDevice>)
    ensures
        r@ == devices@.filter(claimed_by(*quirks)),
{
    let ghost all = devices@;
    let mut rest: Vec<BdaDevice> = devices;
    let mut kept: Vec<BdaDevice> = Vec::new();
    let n: usize = rest.len();
    let mut i: usize = 0;
    proof {
        reveal(Seq::filter);
        assert(all.take(0).filter(claimed_by(*quirks)) =~= Seq::empty());
        assert(all.skip(0) =~= all);
    }
    while i < n
        invariant
            i <= n,
            n == all.len(),
            rest@ == all.skip(i as int),
            kept@ == all.take(i as int).filter(claimed_by(*quirks)),
        decreases n - i,
    {
        proof {
            lists::filter_one_more(all, claimed_by(*quirks), i as int);
        }
        let device: BdaDevice = rest.remove(0);
        assert(device == all[i as int]);
        assert(rest@ =~= all.skip(i + 1));
        if quirks.claims(&device) {
            kept.push(device);
        }
        i = i + 1;
    }
    assert(all.take(n as int) =~= all);
    kept
}

/// The order of tuners: by their names.
pub open spec fn by_name() -> spec_fn(Filters, Filters) -> bool {
    |a: Filters, b: Filters| text::before(a.name@, b.name@)
}

/// Tuners in the order of their names, with one more.
pub open spec fn inserted(s: Seq<Filters>, x: Filters) -> Seq<Filters> {
    lists::inserted(s, x, by_name())
}

/// Tuners in the order of their names.
pub open spec fn sorted(s: Seq<Filters>) -> Seq<Filters> {
    lists::sorted(s, by_name())
}

/// The tuners of a device are put in the order of their names, none is lost or added,
/// and those of a name stay in the order they were found in.
pub proof fn tuners_are_sorted(s: Seq<Filters>, name: Seq<char>)
    ensures
        forall|i: int, j: int|
            0 <= i < j < sorted(s).len() ==> !text::before(
                (#[trigger] sorted(s)[j]).name@,
                (#[trigger] sorted(s)[i]).name@,
            ),
        sorted(s).to_multiset() == s.to_multiset(),
        sorted(s).filter(|f: Filters| f.name@ == name) == s.filter(
            |f: Filters| f.name@ == name,
        ),
{
    broadcast use vstd::seq_lib::group_to_multiset_ensures;

    let earlier = by_name();
    assert forall|a: Filters, b: Filters| #[trigger] earlier(a, b) implies !earlier(b, a) by {
        text::one_goes_first(a.name@, b.name@, false);
    }
    assert forall|a: Filters, b: Filters, c: Filters|
        #![trigger earlier(b, a), earlier(c, b)]
        !earlier(b, a) && !earlier(c, b) implies !earlier(c, a) by {
        text::one_goes_first(a.name@, b.name@, false);
        text::one_goes_first(b.name@, c.name@, false);
        text::one_goes_first(a.name@, c.name@, false);
        if text::before(a.name@, b.name@) && text::before(b.name@, c.name@) {
            text::first_goes_on(a.name@, b.name@, c.name@, false);
        }
    }
    let of_name = |f: Filters| f.name@ == name;
    if exists|f: Filters| #[trigger] of_name(f) {
        let z = choose|f: Filters| #[trigger] of_name(f);
        lists::sorting_orders(s, earlier, z);
        assert forall|f: Filters| #[trigger] lists::level(earlier, z)(f) == of_name(f) by {
            text::one_goes_first(z.name@, f.name@, false);
        }
        assert(lists::level(earlier, z) =~= of_name);
    } else {
        lists::sorting_orders(s, earlier, arbitrary());
        lists::none_kept(s, of_name);
        lists::none_kept(sorted(s), of_name);
    }
    let out = sorted(s);
    assert forall|i: int, j: int| 0 <= i < j < out.len() implies !text::before(
        (#[trigger] out[j]).name@,
        (#[trigger] out[i]).name@,
    ) by {
        assert(!earlier(out[j], out[i]));
    }
}

fn insert(list: &mut Vec<Filters>, x: Filters)
    ensures
        final(list)@ == inserted(old(list)@, x),
{
    let ghost s = list@;
    let mut k: usize = list.len();
    assert(s.take(k as int) =~= s);
    assert(inserted(s.take(k as int), x) + s.skip(k as int) =~= inserted(s, x));
    while k > 0 && goes_before(x.name.as_str(), list[k - 1].name.as_str())
        invariant
            k <= list@.len(),
            s == list@,
            inserted(s.take(k as int), x) + s.skip(k as int) == inserted(s, x),
        ensures
            k == 0 || !text::before(x.name@, list@[k - 1].name@),
        decreases k,
    {
        proof {
            assert(s.take(k as int).last() == s[k - 1]);
            assert(s.take(k as int).drop_last() =~= s.take(k - 1));
            assert(inserted(s.take(k - 1), x) + s.skip(k - 1) =~= inserted(s.take(k as int), x)
                + s.skip(k as int));
        }
        k = k - 1;
    }
    proof {
        if k > 0 {
            assert(s.take(k as int).last() == s[k - 1]);
        }
        assert(inserted(s.take(k as int), x) == s.take(k as int).push(x));
        assert(inserted(s, x) =~= s.insert(k as int, x));
    }
    list.insert(k, x);
}

/// Puts the tuners of a device in the order of their names.
pub fn sort_tuners(tuners: Vec<Filters>) -> (r: Vec<Filters>)
    ensures
        r@ == sorted(tuners@),
{
    let ghost all = tuners@;
    let mut rest: Vec<Filters> = tuners;
    let n: usize = rest.len();
    let mut list: Vec<Filters> = Vec::new();
    let mut i: usize = 0;
    assert(list@ =~= sorted(all.take(0)));
    assert(all.skip(0) =~= all);
    while i < n
        invariant
            i <= n,
            n == all.len(),
            rest@ == all.skip(i as int),
            list@ == sorted(all.take(i as int)),
        decreases n - i,
    {
        proof {
            assert(all.take(i + 1).drop_last() =~= all.take(i as int));
            assert(all.take(i + 1).last() == all[i as int]);
        }
        let x: Filters = rest.remove(0);
        assert(x == all[i as int]);
        assert(rest@ =~= all.skip(i + 1));
        insert(&mut list, x);
        i = i + 1;
    }
    assert(all.take(n as int) =~= all);
    list
}

/// Describes a device.
pub fn describe_device(device: &BdaDevice) -> (r: (DeviceInfo, Vec<TunerInfo>))
    ensures
        r.0.id@ == device_id(device.instance_id@),
        r.0.name@ == device.name@,
        r.1@.len() == device.tuners@.len(),
        forall|i: int|
            0 <= i < device.tuners@.len() ==> (#[trigger] r.1@[i]).id@ == text::tuner_id(
                device_id(device.instance_id@),
                i as nat,
            ) && r.1@[i].systems@ == device.tuners@[i].systems@,
{
    let id: String = device.id();
    let mut tuners: Vec<TunerInfo> = Vec::new();
    let mut i: usize = 0;
    while i < device.tuners.len()
        invariant
            i <= device.tuners@.len(),
            id@ == device_id(device.instance_id@),
            tuners@.len() == i,
            forall|k: int|
                0 <= k < i ==> (#[trigger] tuners@[k]).id@ == text::tuner_id(id@, k as nat)
                    && tuners@[k].systems@ == device.tuners@[k].systems@,
        decreases device.tuners@.len() - i,
    {
        let systems: Vec<System> = copy_systems(&device.tuners[i].systems);
        tuners.push(TunerInfo { id: id_of_tuner(id.as_str(), i), systems });
        i = i + 1;
    }
    (DeviceInfo { id, name: device.name.clone() }, tuners)
}

fn copy_systems(systems: &Vec<System>) -> (r: Vec<System>)
    ensures
        r@ == systems@,
{
    let mut copy: Vec<System> = Vec::new();
    let mut i: usize = 0;
    while i < systems.len()
        invariant
            i <= systems@.len(),
            copy@ =~= systems@.take(i as int),
        decreases systems@.len() - i,
    {
        copy.push(systems[i]);
        i = i + 1;
    }
    assert(systems@.take(i as int) =~= systems@);
    copy
}

/// A filter of a graph.
#[derive(Clone, Copy, Debug, PartialEq, Eq, Structural)]
pub enum Filter {
    Tuner,
    Capture,
}

/// A pin of a graph.
#[derive(Clone, Copy, Debug, PartialEq, Eq, Structural)]
pub enum GraphPin {
    /// The input of the tuner filter.
    Antenna,
    TunerOutput,
    CaptureInput,
    CaptureOutput,
}

/// A step of building a graph; the first that fails ends it.
#[derive(Clone, Copy, Debug, PartialEq, Eq, Structural)]
pub enum BuildStep {
    /// Open the filter.
    Open(Filter),
    /// Join up the nodes between the pin factories of the tuner filter.
    Topology(u32, u32),
    /// Create the pin of a filter from a pin factory, through a medium, in the first
    /// data range of the factory, connected to another pin or to none.
    Create(GraphPin, Filter, u32, Medium, Option<GraphPin>),
    /// Put a pin in a state.
    Enter(GraphPin, State),
    /// Make the first pin hand its frames to the second through an allocator of
    /// their own.
    Pipe(GraphPin, GraphPin),
}

/// All four pins put in a state.
pub open spec fn all_set(state: State) -> Seq<BuildStep> {
    seq![
        BuildStep::Enter(GraphPin::CaptureInput, state),
        BuildStep::Enter(GraphPin::CaptureOutput, state),
        BuildStep::Enter(GraphPin::Antenna, state),
        BuildStep::Enter(GraphPin::TunerOutput, state),
    ]
}

/// The steps of building a graph.
pub open spec fn build_steps(filters: Filters) -> Seq<BuildStep> {
    seq![
        BuildStep::Open(Filter::Tuner),
        BuildStep::Open(Filter::Capture),
        BuildStep::Topology(filters.input, filters.output),
        BuildStep::Create(
            GraphPin::Antenna,
            Filter::Tuner,
            filters.input,
            Medium::plain(),
            None,
        ),
        BuildStep::Create(
            GraphPin::CaptureInput,
            Filter::Capture,
            filters.capture_input,
            filters.medium,
            None,
        ),
        BuildStep::Create(
            GraphPin::TunerOutput,
            Filter::Tuner,
            filters.output,
            filters.medium,
            Some(GraphPin::CaptureInput),
        ),
        BuildStep::Create(
            GraphPin::CaptureOutput,
            Filter::Capture,
            filters.capture_output,
            Medium::plain(),
            None,
        ),
        BuildStep::Enter(GraphPin::CaptureInput, State::Acquire),
        BuildStep::Pipe(GraphPin::TunerOutput, GraphPin::CaptureInput),
    ] + all_set(State::Acquire) + all_set(State::Pause) + all_set(State::Run)
}

fn push_all(steps: &mut Vec<BuildStep>, state: State)
    ensures
        final(steps)@ == old(steps)@ + all_set(state),
{
    steps.push(BuildStep::Enter(GraphPin::CaptureInput, state));
    steps.push(BuildStep::Enter(GraphPin::CaptureOutput, state));
    steps.push(BuildStep::Enter(GraphPin::Antenna, state));
    steps.push(BuildStep::Enter(GraphPin::TunerOutput, state));
    assert(steps@ =~= old(steps)@ + all_set(state));
}

/// The steps of building a graph: the pins of a tuner filter and its capture filter,
/// connected and running.
pub fn build(filters: &Filters) -> (r: Vec<BuildStep>)
    ensures
        r@ == build_steps(*filters),
{
    let mut steps: Vec<BuildStep> = Vec::new();
    steps.push(BuildStep::Open(Filter::Tuner));
    steps.push(BuildStep::Open(Filter::Capture));
    steps.push(BuildStep::Topology(filters.input, filters.output));
    steps.push(
        BuildStep::Create(
            GraphPin::Antenna,
            Filter::Tuner,
            filters.input,
            Medium::standard(),
            None,
        ),
    );
    steps.push(
        BuildStep::Create(
            GraphPin::CaptureInput,
            Filter::Capture,
            filters.capture_input,
            filters.medium,
            None,
        ),
    );
    steps.push(
        BuildStep::Create(
            GraphPin::TunerOutput,
            Filter::Tuner,
            filters.output,
            filters.medium,
            Some(GraphPin::CaptureInput),
        ),
    );
    steps.push(
        BuildStep::Create(
            GraphPin::CaptureOutput,
            Filter::Capture,
            filters.capture_output,
            Medium::standard(),
            None,
        ),
    );
    steps.push(BuildStep::Enter(GraphPin::CaptureInput, State::Acquire));
    steps.push(BuildStep::Pipe(GraphPin::TunerOutput, GraphPin::CaptureInput));
    push_all(&mut steps, State::Acquire);
    push_all(&mut steps, State::Pause);
    push_all(&mut steps, State::Run);
    assert(steps@ =~= build_steps(*filters));
    steps
}

/// Whether a step needs a pin to be there.
pub open spec fn needs(step: BuildStep, pin: GraphPin) -> bool {
    match step {
        BuildStep::Create(_, _, _, _, to) => to == Some(pin),
        BuildStep::Enter(p, _) => p == pin,
        BuildStep::Pipe(source, sink) => source == pin || sink == pin,
        _ => false,
    }
}

/// A pin is created before anything is done with it.
pub proof fn pins_come_first(filters: Filters, i: int, pin: GraphPin)
    requires
        0 <= i < build_steps(filters).len(),
        needs(build_steps(filters)[i], pin),
    ensures
        exists|j: int|
            0 <= j < i && ((#[trigger] build_steps(filters)[j]) matches BuildStep::Create(
                p,
                _,
                _,
                _,
                _,
            ) && p == pin),
{
    let s = build_steps(filters);
    assert(s[3] matches BuildStep::Create(GraphPin::Antenna, _, _, _, _));
    assert(s[4] matches BuildStep::Create(GraphPin::CaptureInput, _, _, _, _));
    assert(s[5] matches BuildStep::Create(GraphPin::TunerOutput, _, _, _, _));
    assert(s[6] matches BuildStep::Create(GraphPin::CaptureOutput, _, _, _, _));
}

/// The pins of a graph in the order they are stopped in.
pub fn stop_order() -> (r: [GraphPin; 4])
    ensures
        r@ == seq![
            GraphPin::TunerOutput,
            GraphPin::Antenna,
            GraphPin::CaptureOutput,
            GraphPin::CaptureInput,
        ],
{
    [
        GraphPin::TunerOutput,
        GraphPin::Antenna,
        GraphPin::CaptureOutput,
        GraphPin::CaptureInput,
    ]
}

/// The pins of a graph in the order they are closed in, the filters being closed
/// after them.
pub fn close_order() -> (r: [GraphPin; 4])
    ensures
        r@ == seq![
            GraphPin::Antenna,
            GraphPin::TunerOutput,
            GraphPin::CaptureInput,
            GraphPin::CaptureOutput,
        ],
{
    [
        GraphPin::Antenna,
        GraphPin::TunerOutput,
        GraphPin::CaptureInput,
        GraphPin::CaptureOutput,
    ]
}

/// The size of the frames read from the capture pin.
pub fn frame_size(told: Option<u32>) -> (r: u32)
    ensures
        r == match told {
            Some(n) => n,
            None => DEFAULT_FRAME,
        },
{
    match told {
        Some(n) => n,
        None => DEFAULT_FRAME,
    }
}

/// A step of tuning; the first that fails ends it.
#[derive(Clone, Copy, Debug, PartialEq, Eq, Structural)]
pub enum TuneStep {
    /// Select the stream, as the model does it, on the input pin.
    Select(StreamId),
    /// Start, check or commit changes.
    Change(u32),
    /// Set a property of a node through a pin: the pin, the property set, the
    /// property, the node and the value.
    Put(GraphPin, u128, u32, u32, u32),
    /// Fail, the frequency being below the LNB's.
    Fail,
}

/// A property of the tuner node set.
pub open spec fn tuner_set(filters: Filters, set: u128, id: u32, value: u32) -> TuneStep {
    TuneStep::Put(GraphPin::Antenna, set, id, filters.tuner_node, value)
}

/// A property of the demodulator node set.
pub open spec fn demodulator_set(filters: Filters, id: u32, value: u32) -> TuneStep {
    TuneStep::Put(
        GraphPin::TunerOutput,
        ks::KSPROPSETID_BDA_DIGITAL_DEMODULATOR,
        id,
        filters.demodulator_node,
        value,
    )
}

/// The steps of tuning that select the stream.
pub open spec fn select_steps(params: TuneParams) -> Seq<TuneStep> {
    match params.stream_id {
        Some(id) => seq![TuneStep::Select(id)],
        None => Seq::empty(),
    }
}

/// The steps of tuning a satellite tuner once the changes started.
pub open spec fn satellite_steps(params: TuneParams, filters: Filters) -> Seq<TuneStep> {
    let freq = ks::KSPROPSETID_BDA_FREQUENCY_FILTER;
    let lnb = ks::KSPROPSETID_BDA_LNB_INFO;
    let polarity = tuner_set(
        filters,
        freq,
        ks::KSPROPERTY_BDA_RF_TUNER_POLARITY,
        match types::meant(params.polarization) {
            Polarization::Right => POLARISATION_CIRCULAR_R,
            Polarization::Left => POLARISATION_CIRCULAR_L,
        },
    );
    match params.if_khz() {
        Err(_) => seq![polarity].push(TuneStep::Fail),
        Ok(khz) => {
            let lo = (params.frequency_khz - khz) as u32;
            seq![polarity].push(
                tuner_set(filters, lnb, ks::KSPROPERTY_BDA_LNB_LOF_LOW_BAND, lo),
            ).push(tuner_set(filters, lnb, ks::KSPROPERTY_BDA_LNB_LOF_HIGH_BAND, lo)).push(
                tuner_set(filters, lnb, ks::KSPROPERTY_BDA_LNB_SWITCH_FREQUENCY, LNB_SWITCH_KHZ),
            ).push(
                demodulator_set(
                    filters,
                    ks::KSPROPERTY_BDA_MODULATION_TYPE,
                    MODULATION_ISDB_S_TMCC,
                ),
            ).push(
                demodulator_set(filters, ks::KSPROPERTY_BDA_INNER_FEC_RATE, INNER_FEC_RATE_2_3),
            ).push(
                demodulator_set(
                    filters,
                    ks::KSPROPERTY_BDA_SYMBOL_RATE,
                    if params.system == System::IsdbS3 {
                        ISDB_S3_SYMBOL_RATE
                    } else {
                        ISDB_S_SYMBOL_RATE
                    },
                ),
            ).push(
                demodulator_set(
                    filters,
                    ks::KSPROPERTY_BDA_SPECTRAL_INVERSION,
                    SPECTRAL_INVERSION_AUTOMATIC,
                ),
            )
        },
    }
}

/// The steps of tuning. What is set between the start and the commit goes down
/// together at the commit; set after it, it waits for the next one.
pub open spec fn tune_steps(params: TuneParams, filters: Filters) -> Seq<TuneStep> {
    let freq = ks::KSPROPSETID_BDA_FREQUENCY_FILTER;
    select_steps(params) + seq![
        TuneStep::Change(ks::KSMETHOD_BDA_START_CHANGES),
        tuner_set(filters, freq, ks::KSPROPERTY_BDA_RF_TUNER_FREQUENCY_MULTIPLIER, 1000),
        tuner_set(filters, freq, ks::KSPROPERTY_BDA_RF_TUNER_FREQUENCY, params.frequency_khz),
    ] + if params.system.satellite() {
        satellite_steps(params, filters)
    } else {
        seq![tuner_set(filters, freq, ks::KSPROPERTY_BDA_RF_TUNER_BANDWIDTH, 6)]
    } + seq![
        TuneStep::Change(ks::KSMETHOD_BDA_CHECK_CHANGES),
        TuneStep::Change(ks::KSMETHOD_BDA_COMMIT_CHANGES),
    ]
}

fn set_tuner(filters: &Filters, set: u128, id: u32, value: u32) -> (r: TuneStep)
    ensures
        r == tuner_set(*filters, set, id, value),
{
    TuneStep::Put(GraphPin::Antenna, set, id, filters.tuner_node, value)
}

fn set_demodulator(filters: &Filters, id: u32, value: u32) -> (r: TuneStep)
    ensures
        r == demodulator_set(*filters, id, value),
{
    TuneStep::Put(
        GraphPin::TunerOutput,
        ks::KSPROPSETID_BDA_DIGITAL_DEMODULATOR,
        id,
        filters.demodulator_node,
        value,
    )
}

fn satellite_plan(params: &TuneParams, filters: &Filters) -> (r: Vec<TuneStep>)
    ensures
        r@ == satellite_steps(*params, *filters),
{
    let lnb: u128 = ks::KSPROPSETID_BDA_LNB_INFO;
    let polarity: u32 = match params.polarization.unwrap_or(Polarization::Right) {
        Polarization::Right => POLARISATION_CIRCULAR_R,
        Polarization::Left => POLARISATION_CIRCULAR_L,
    };
    let mut steps: Vec<TuneStep> = Vec::new();
    steps.push(
        set_tuner(
            filters,
            ks::KSPROPSETID_BDA_FREQUENCY_FILTER,
            ks::KSPROPERTY_BDA_RF_TUNER_POLARITY,
            polarity,
        ),
    );
    let khz: u32 = match params.if_frequency_khz() {
        Ok(khz) => khz,
        Err(_) => {
            steps.push(TuneStep::Fail);
            return steps;
        },
    };
    let lo: u32 = params.frequency_khz - khz;
    steps.push(set_tuner(filters, lnb, ks::KSPROPERTY_BDA_LNB_LOF_LOW_BAND, lo));
    steps.push(set_tuner(filters, lnb, ks::KSPROPERTY_BDA_LNB_LOF_HIGH_BAND, lo));
    steps.push(set_tuner(filters, lnb, ks::KSPROPERTY_BDA_LNB_SWITCH_FREQUENCY, LNB_SWITCH_KHZ));
    steps.push(
        set_demodulator(filters, ks::KSPROPERTY_BDA_MODULATION_TYPE, MODULATION_ISDB_S_TMCC),
    );
    steps.push(set_demodulator(filters, ks::KSPROPERTY_BDA_INNER_FEC_RATE, INNER_FEC_RATE_2_3));
    let rate: u32 = match params.system {
        System::IsdbS3 => ISDB_S3_SYMBOL_RATE,
        _ => ISDB_S_SYMBOL_RATE,
    };
    steps.push(set_demodulator(filters, ks::KSPROPERTY_BDA_SYMBOL_RATE, rate));
    steps.push(
        set_demodulator(
            filters,
            ks::KSPROPERTY_BDA_SPECTRAL_INVERSION,
            SPECTRAL_INVERSION_AUTOMATIC,
        ),
    );
    steps
}

/// The steps of sending the tuning of `params` down to the tuner.
pub fn tune(params: &TuneParams, filters: &Filters) -> (r: Vec<TuneStep>)
    ensures
        r@ == tune_steps(*params, *filters),
{
    let freq: u128 = ks::KSPROPSETID_BDA_FREQUENCY_FILTER;
    let mut steps: Vec<TuneStep> = Vec::new();
    match params.stream_id {
        Some(id) => steps.push(TuneStep::Select(id)),
        None => {},
    }
    assert(steps@ =~= select_steps(*params));
    steps.push(TuneStep::Change(ks::KSMETHOD_BDA_START_CHANGES));
    // In kHz.
    steps.push(
        set_tuner(filters, freq, ks::KSPROPERTY_BDA_RF_TUNER_FREQUENCY_MULTIPLIER, 1000),
    );
    steps.push(
        set_tuner(filters, freq, ks::KSPROPERTY_BDA_RF_TUNER_FREQUENCY, params.frequency_khz),
    );
    if params.system.is_satellite() {
        let mut more: Vec<TuneStep> = satellite_plan(params, filters);
        steps.append(&mut more);
    } else {
        // In MHz.
        steps.push(set_tuner(filters, freq, ks::KSPROPERTY_BDA_RF_TUNER_BANDWIDTH, 6));
    }
    steps.push(TuneStep::Change(ks::KSMETHOD_BDA_CHECK_CHANGES));
    steps.push(TuneStep::Change(ks::KSMETHOD_BDA_COMMIT_CHANGES));
    assert(steps@ =~= tune_steps(*params, *filters));
    steps
}

impl TuneStep {
    /// The request of a step that sets a property.
    pub fn request(&self) -> (r: Option<Vec<u8>>)
        ensures
            match *self {
                TuneStep::Put(_, set, id, node, _) => r matches Some(b) && b@ == ks::request_bytes(
                    set,
                    id,
                    ks::SET | ks::TOPOLOGY,
                    seq![node],
                ),
                TuneStep::Change(method) => r matches Some(b) && b@ == ks::request_bytes(
                    ks::KSMETHODSETID_BDA_CHANGE_SYNC,
                    method,
                    0,
                    Seq::empty(),
                ),
                _ => r is None,
            },
    {
        match *self {
            TuneStep::Put(_, set, id, node, _) => Some(ks::node_request(set, id, ks::SET, node)),
            TuneStep::Change(method) => Some(ks::change_request(method)),
            _ => None,
        }
    }
}

/// The request for a statistic of the signal, through the input pin.
pub fn signal_request(filters: &Filters, id: u32) -> (r: Vec<u8>)
    ensures
        r@ == ks::request_bytes(
            ks::KSPROPSETID_BDA_SIGNAL_STATS,
            id,
            ks::GET | ks::TOPOLOGY,
            seq![filters.tuner_node],
        ),
{
    ks::node_request(ks::KSPROPSETID_BDA_SIGNAL_STATS, id, ks::GET, filters.tuner_node)
}

/// The signal the tuner tells of.
pub fn signal<Q: Quirks>(locked: u32, strength: u32, quirks: &Q) -> (r: Signal)
    ensures
        r == (Signal { locked: locked != 0, cnr: quirks.ratio(strength as i32) }),
{
    Signal { locked: locked != 0, cnr: quirks.cnr(strength as i32) }
}

/// What a look at the signal of a tuner that is to lock comes to.
#[derive(Clone, Copy, Debug, PartialEq, Eq, Structural)]
pub enum Polled {
    Locked,
    /// The time is up.
    GivenUp,
    /// To look again in [`LOCK_POLL_MS`].
    Again,
}

/// What a look at the signal comes to, `late` telling whether the time is up.
pub fn poll(locked: u32, late: bool) -> (r: Polled)
    ensures
        r == if locked != 0 {
            Polled::Locked
        } else if late {
            Polled::GivenUp
        } else {
            Polled::Again
        },
{
    if locked != 0 {
        Polled::Locked
    } else if late {
        Polled::GivenUp
    } else {
        Polled::Again
    }
}

/// Where the frames of a running graph go.
pub struct Sink {
    /// Whether a stream takes the frames; they go nowhere until one does.
    pub streaming: bool,
    /// The bytes still to be left out as received before the last tune.
    pub stale: usize,
}

impl Sink {
    pub fn new() -> (r: Self)
        ensures
            !r.streaming,
            r.stale == 0,
    {
        Sink { streaming: false, stale: 0 }
    }

    /// Takes note of a tune, after which the tuner gives out some bytes it received
    /// before.
    pub fn tuning<Q: Quirks>(&mut self, quirks: &Q)
        ensures
            final(self).streaming == old(self).streaming,
            final(self).stale == quirks.stale(),
    {
        self.stale = quirks.stale_bytes();
    }

    /// Takes a frame of `len` bytes; whether it goes to the stream.
    pub fn frame(&mut self, len: usize) -> (r: bool)
        ensures
            final(self).streaming == old(self).streaming,
            r == (old(self).stale == 0 && old(self).streaming),
            final(self).stale == if old(self).stale > len {
                old(self).stale - len
            } else {
                0
            },
    {
        if self.stale > 0 {
            self.stale = self.stale.saturating_sub(len);
            return false;
        }
        self.streaming
    }
}

/// An open device, each tuner of which is open at most once; the filters do not keep
/// them from being opened again.
pub struct BdaHandle {
    pub info: DeviceInfo,
    pub opened: Vec<bool>,
}

impl BdaHandle {
    pub fn new(info: DeviceInfo, tuners: usize) -> (r: Self)
        ensures
            r.info == info,
            r.opened@ == Seq::new(tuners as nat, |i: int| false),
    {
        BdaHandle { info, opened: vec![false; tuners] }
    }

    /// Opens a tuner.
    pub fn open_tuner(&mut self, index: usize) -> (r: Result<(), Error>)
        ensures
            final(self).info == old(self).info,
            if index >= old(self).opened@.len() {
                &&& r matches Err(Error::NotFound(id))
                &&& id@ == text::tuner_id(old(self).info.id@, index as nat)
                &&& final(self).opened@ == old(self).opened@
            } else if old(self).opened@[index as int] {
                &&& r == Err::<(), Error>(of_kind(ErrorKind::ResourceBusy))
                &&& final(self).opened@ == old(self).opened@
            } else {
                &&& r is Ok
                &&& final(self).opened@ == old(self).opened@.update(index as int, true)
            },
    {
        if index >= self.opened.len() {
            return Err(Error::NotFound(id_of_tuner(self.info.id.as_str(), index)));
        }
        if self.opened[index] {
            return Err(of_kind(ErrorKind::ResourceBusy));
        }
        self.opened.set(index, true);
        Ok(())
    }

    /// Takes a tuner back.
    pub fn close_tuner(&mut self, index: usize)
        requires
            index < old(self).opened@.len(),
        ensures
            final(self).info == old(self).info,
            final(self).opened@ == old(self).opened@.update(index as int, false),
    {
        self.opened.set(index, false);
    }
}

/// An open tuner.
pub struct BdaTuner {
    pub systems: Vec<System>,
    /// The system last tuned to.
    pub system: Option<System>,
}

impl BdaTuner {
    /// Checks that the tuner can be tuned to `params`; from here on it counts as not
    /// tuned.
    pub fn begin(&mut self, params: &TuneParams) -> (r: Result<(), Error>)
        ensures
            final(self).systems == old(self).systems,
            r is Ok <==> params.valid() && old(self).systems@.contains(params.system),
            params.valid() && !old(self).systems@.contains(params.system) ==> r == Err::<
                (),
                Error,
            >(Error::Unsupported(params.system)),
            params.system.satellite() && params.stream_id is None ==> r == Err::<(), Error>(
                Error::InvalidParams("a satellite stream needs a stream id"),
            ),
            !params.system.satellite() && params.stream_id is Some ==> r == Err::<(), Error>(
                Error::InvalidParams("ISDB-T takes no stream id"),
            ),
            final(self).system == if r is Ok {
                None
            } else {
                old(self).system
            },
    {
        match params.validate() {
            Ok(_) => {},
            Err(e) => return Err(e),
        }
        let n: usize = self.systems.len();
        let mut i: usize = 0;
        let mut there: bool = false;
        while i < n
            invariant
                i <= n,
                n == self.systems@.len(),
                there == exists|k: int| 0 <= k < i && self.systems@[k] == params.system,
            decreases n - i,
        {
            if self.systems[i] == params.system {
                there = true;
            }
            i = i + 1;
        }
        if !there {
            assert(!self.systems@.contains(params.system));
            return Err(Error::Unsupported(params.system));
        }
        assert(self.systems@.contains(params.system));
        self.system = None;
        Ok(())
    }

    /// Takes note that the tuner locked on what `params` tunes to.
    pub fn tuned(&mut self, params: &TuneParams)
        ensures
            final(self).systems == old(self).systems,
            final(self).system == Some(params.system),
    {
        self.system = Some(params.system);
    }

    /// The format of the stream of the tuner, once it was tuned.
    pub fn stream_format(&self) -> (r: Result<StreamFormat, Error>)
        ensures
            r == match self.system {
                Some(system) => Ok::<StreamFormat, Error>(types::format_of(system)),
                None => Err(Error::InvalidParams("the tuner has not been tuned")),
            },
    {
        match self.system {
            Some(System::IsdbS3) => Ok(StreamFormat::Tlv),
            Some(_) => Ok(StreamFormat::Ts),
            None => Err(Error::InvalidParams("the tuner has not been tuned")),
        }
    }

    /// Switches the LNB supply, for which BDA has no property: off is all it can be.
    pub fn set_lnb(&self, on: bool) -> (r: Result<(), Error>)
        ensures
            r is Ok <==> !on,
            on ==> r == Err::<(), Error>(
                of_kind_with(
                    ErrorKind::Unsupported,
                    "powering the LNB is not supported through BDA yet",
                ),
            ),
    {
        if on {
            return Err(
                of_kind_with(
                    ErrorKind::Unsupported,
                    "powering the LNB is not supported through BDA yet",
                ),
            );
        }
        Ok(())
    }
}

/// A tuner is told the frequency on air, in the unit of 1000 Hz that it is told too,
/// between the start and the commit of the changes; one of ISDB-T is told 6 MHz of
/// bandwidth.
pub proof fn tuners_are_told_the_frequency(params: TuneParams, filters: Filters)
    ensures
        ({
            let steps = tune_steps(params, filters);
            let set = ks::KSPROPSETID_BDA_FREQUENCY_FILTER;
            let node = filters.tuner_node;
            &&& steps.contains(TuneStep::Put(GraphPin::Antenna, set, 0, node, params.frequency_khz))
            &&& steps.contains(TuneStep::Put(GraphPin::Antenna, set, 5, node, 1000))
            &&& params.system == System::IsdbT ==> steps.contains(
                TuneStep::Put(GraphPin::Antenna, set, 4, node, 6),
            )
            &&& steps[steps.len() - 2] == TuneStep::Change(1)
            &&& steps.last() == TuneStep::Change(2)
            &&& match params.stream_id {
                Some(id) => steps[0] == TuneStep::Select(id) && steps[1] == TuneStep::Change(0),
                None => steps[0] == TuneStep::Change(0),
            }
        }),
{
    let steps = tune_steps(params, filters);
    let at: int = if params.stream_id is Some {
        1
    } else {
        0
    };
    assert(steps[at + 1] == TuneStep::Put(
        GraphPin::Antenna,
        ks::KSPROPSETID_BDA_FREQUENCY_FILTER,
        5,
        filters.tuner_node,
        1000,
    ));
    assert(steps[at + 2] == TuneStep::Put(
        GraphPin::Antenna,
        ks::KSPROPSETID_BDA_FREQUENCY_FILTER,
        0,
        filters.tuner_node,
        params.frequency_khz,
    ));
    if params.system == System::IsdbT {
        assert(steps[at + 3] == TuneStep::Put(
            GraphPin::Antenna,
            ks::KSPROPSETID_BDA_FREQUENCY_FILTER,
            4,
            filters.tuner_node,
            6,
        ));
    }
}

/// A tuner of a satellite is told the oscillator of the LNB, 10.678 GHz for a right-hand
/// signal and 9.505 GHz for a left-hand one, for both bands, which of the two the signal
/// is, and the rate of its symbols.
pub proof fn satellite_tuners_are_told_the_lnb(params: TuneParams, filters: Filters)
    requires
        params.system.satellite(),
    ensures
        ({
            let steps = tune_steps(params, filters);
            let (oscillator, polarity): (u32, u32) = if params.polarization == Some(
                Polarization::Left,
            ) {
                (9_505_000, 3)
            } else {
                (10_678_000, 4)
            };
            let lnb = ks::KSPROPSETID_BDA_LNB_INFO;
            let demodulator = ks::KSPROPSETID_BDA_DIGITAL_DEMODULATOR;
            let node = filters.tuner_node;
            &&& steps.contains(
                TuneStep::Put(
                    GraphPin::Antenna,
                    ks::KSPROPSETID_BDA_FREQUENCY_FILTER,
                    1,
                    node,
                    polarity,
                ),
            )
            &&& params.frequency_khz < oscillator ==> steps.contains(TuneStep::Fail)
            &&& params.frequency_khz >= oscillator ==> {
                &&& steps.contains(TuneStep::Put(GraphPin::Antenna, lnb, 0, node, oscillator))
                &&& steps.contains(TuneStep::Put(GraphPin::Antenna, lnb, 1, node, oscillator))
                &&& steps.contains(
                    TuneStep::Put(
                        GraphPin::TunerOutput,
                        demodulator,
                        5,
                        filters.demodulator_node,
                        if params.system == System::IsdbS3 {
                            33_756u32
                        } else {
                            28_860u32
                        },
                    ),
                )
            }
        }),
{
    let steps = tune_steps(params, filters);
    let inner = satellite_steps(params, filters);
    let at: int = if params.stream_id is Some {
        4
    } else {
        3
    };
    assert(forall|k: int| 0 <= k < inner.len() ==> #[trigger] inner[k] == steps[at + k]);
    assert(steps[at] == inner[0]);
    assert(steps[at + 1] == inner[1]);
    if params.if_khz() is Ok {
        assert(steps[at + 2] == inner[2]);
        assert(steps[at + 6] == inner[6]);
    }
}

/// The pin factory that is taken for a data flow is the first of it.
pub proof fn first_of_a_flow_is_taken(flows: Seq<u32>, flow: u32, i: int)
    requires
        0 <= i <= flows.len() <= u32::MAX,
    ensures
        match first_flow(flows, flow, i) {
            Some(k) => {
                &&& i <= k < flows.len()
                &&& flows[k as int] == flow
                &&& forall|m: int| i <= m < k ==> #[trigger] flows[m] != flow
            },
            None => forall|m: int| i <= m < flows.len() ==> #[trigger] flows[m] != flow,
        },
    decreases flows.len() - i,
{
    if i < flows.len() && flows[i] != flow {
        first_of_a_flow_is_taken(flows, flow, i + 1);
    }
}

/// The capture filter that is taken is the first of the device that takes the medium.
pub proof fn first_capture_is_taken(
    captures: Seq<CaptureFacts>,
    instance_id: Seq<char>,
    medium: Medium,
)
    ensures
        ({
            let k = fed(captures, instance_id, medium);
            &&& 0 <= k <= captures.len()
            &&& k < captures.len() ==> captures[k].instance_id@ == instance_id
                && captures[k].mediums@.contains(medium)
            &&& forall|m: int|
                0 <= m < k ==> (#[trigger] captures[m]).instance_id@ != instance_id
                    || !captures[m].mediums@.contains(medium)
        }),
    decreases captures.len(),
{
    if captures.len() > 0 && !(captures[0].instance_id@ == instance_id
        && captures[0].mediums@.contains(medium)) {
        let rest = captures.skip(1);
        first_capture_is_taken(rest, instance_id, medium);
        let k = fed(captures, instance_id, medium);
        assert forall|m: int| 0 <= m < k implies (#[trigger] captures[m]).instance_id@
            != instance_id || !captures[m].mediums@.contains(medium) by {
            if m > 0 {
                assert(rest[m - 1] == captures[m]);
            }
        }
    }
}

/// A field of a hardware id tells the number behind its name and an underscore.
pub proof fn fields_tell_behind_their_names(name: Seq<char>, digits: Seq<char>, n: nat)
    requires
        text::number(digits, 16, u32::MAX as nat) == Ok::<nat, text::NumberError>(n),
    ensures
        field_value(name + ("_"@ + digits), name) == Some(n),
{
    let rest = "_"@ + digits;
    let field = name + rest;
    text::stripping_takes_the_part(field, name);
    text::stripping_takes_the_part(rest, "_"@);
    let found = text::stripped(field, name)->0;
    assert(found =~= rest) by {
        assert(found =~= (name + found).skip(name.len() as int));
        assert(rest =~= (name + rest).skip(name.len() as int));
    }
    let number = text::stripped(rest, "_"@)->0;
    assert(number =~= digits) by {
        assert(number =~= ("_"@ + number).skip("_"@.len() as int));
        assert(digits =~= ("_"@ + digits).skip("_"@.len() as int));
    }
}

/// The hardware id is the part of an instance id between the first two backslashes, and its
/// fields are told apart by ampersands, of which the first that tells the number counts.
pub proof fn hardware_ids_are_the_second_part(
    bus: Seq<char>,
    field: Seq<char>,
    others: Seq<char>,
    instance: Seq<char>,
    name: Seq<char>,
)
    requires
        !bus.contains('\\'),
        !field.contains('\\') && !field.contains('&'),
        !others.contains('\\'),
        field_value(field, name) is Some,
    ensures
        hardware_value(
            bus.push('\\') + ((field.push('&') + others).push('\\') + instance),
            name,
        ) == field_value(field, name),
        hardware_value(bus.push('\\') + (field.push('\\') + instance), name) == field_value(
            field,
            name,
        ),
{
    let hardware = field.push('&') + others;
    assert(!hardware.contains('\\')) by {
        if hardware.contains('\\') {
            let k = choose|k: int| 0 <= k < hardware.len() && hardware[k] == '\\';
            if k < field.len() {
                assert(field[k] == '\\');
            } else if k > field.len() {
                assert(others[k - field.len() - 1] == '\\');
            }
        }
    }
    text::pieces_split_at_separators(bus, '\\', hardware.push('\\') + instance);
    text::pieces_split_at_separators(hardware, '\\', instance);
    text::pieces_split_at_separators(bus, '\\', field.push('\\') + instance);
    text::pieces_split_at_separators(field, '\\', instance);
    text::pieces_split_at_separators(field, '&', others);
    text::pieces_make_the_text(instance, '\\');
    let parts = text::pieces(bus.push('\\') + (hardware.push('\\') + instance), '\\');
    assert(parts[1] == hardware);
    let short = text::pieces(bus.push('\\') + (field.push('\\') + instance), '\\');
    assert(short[1] == field);
    let fields = text::pieces(hardware, '&');
    assert(fields[0] == field);
}

} // verus!
