//! What the driver over the Linux DVB API decides: which adapters make up a
//! device, what its tuners receive, and what they are told to tune to. The
//! requests to the kernel are the program's to make.

use vstd::prelude::*;

use crate::error::Error;
use crate::lists;
use crate::text;
use crate::text::{
    id_of_tuner, parse_number, path_goes_before, push_decimal, strip_prefix, strip_prefixes,
    strip_suffix, trim,
};
use crate::types::{Cnr, DeviceInfo, Signal, StreamFormat, StreamId, System, TuneParams, TunerInfo};

verus! {

pub const DTV_TUNE: u32 = 1;

pub const DTV_CLEAR: u32 = 2;

pub const DTV_FREQUENCY: u32 = 3;

pub const DTV_BANDWIDTH_HZ: u32 = 5;

pub const DTV_DELIVERY_SYSTEM: u32 = 17;

pub const DTV_GUARD_INTERVAL: u32 = 38;

pub const DTV_TRANSMISSION_MODE: u32 = 39;

pub const DTV_ISDBT_LAYER_ENABLED: u32 = 41;

pub const DTV_STREAM_ID: u32 = 42;

pub const DTV_ENUM_DELSYS: u32 = 44;

pub const DTV_STAT_CNR: u32 = 63;

pub const SYS_ISDBT: u32 = 8;

pub const SYS_ISDBS: u32 = 9;

pub const TRANSMISSION_MODE_AUTO: u32 = 2;

pub const GUARD_INTERVAL_AUTO: u32 = 4;

/// Feeds the LNB; the ISDB-S frontends give it the 15 V it takes in Japan.
pub const SEC_VOLTAGE_18: u32 = 1;

pub const SEC_VOLTAGE_OFF: u32 = 2;

pub const FE_HAS_LOCK: u32 = 0x10;

pub const FE_SCALE_DECIBEL: u8 = 1;

/// The time between two looks at the status while the tuner locks.
pub const LOCK_POLL_MS: u64 = 100;

/// The size of the buffer of the DVR device.
pub const DVR_BUFFER_SIZE: usize = 33_554_432;

/// The bytes read from the DVR device at a time.
pub const READ_SIZE: usize = 192_512;

/// The order the machine has the bytes of a number in.
#[derive(Clone, Copy, Debug, PartialEq, Eq, Structural)]
pub enum ByteOrder {
    Little,
    Big,
}

/// The number the bytes make, the least significant first.
pub open spec fn number_of(bytes: Seq<u8>) -> int
    decreases bytes.len(),
{
    if bytes.len() == 0 {
        0
    } else {
        bytes[0] + 0x100 * number_of(bytes.skip(1))
    }
}

/// The number the bytes make in an order.
pub open spec fn ordered(order: ByteOrder, bytes: Seq<u8>) -> int {
    match order {
        ByteOrder::Little => number_of(bytes),
        ByteOrder::Big => number_of(bytes.reverse()),
    }
}

/// The property of a frontend the kernel is asked for or told, its union as bytes.
#[derive(Clone, Copy)]
pub struct DtvProperty {
    pub cmd: u32,
    pub u: [u8; 56],
    pub result: i32,
}

fn number_at(order: ByteOrder, u: &[u8; 56], at: usize, len: usize) -> (r: u64)
    requires
        at + len <= 56,
        len <= 8,
    ensures
        r == ordered(order, u@.subrange(at as int, at + len)),
{
    let ghost bytes = u@.subrange(at as int, at + len);
    let ghost seen = match order {
        ByteOrder::Little => bytes,
        ByteOrder::Big => bytes.reverse(),
    };
    let mut value: u64 = 0;
    let mut i: usize = len;
    assert(seen.skip(len as int) =~= Seq::empty());
    while i > 0
        invariant
            i <= len,
            len <= 8,
            at + len <= 56,
            bytes == u@.subrange(at as int, at + len),
            seen == (match order {
                ByteOrder::Little => bytes,
                ByteOrder::Big => bytes.reverse(),
            }),
            value == number_of(seen.skip(i as int)),
            value < power(len - i),
        decreases i,
    {
        i = i - 1;
        let byte: u8 = match order {
            ByteOrder::Little => u[at + i],
            ByteOrder::Big => u[at + (len - 1 - i)],
        };
        proof {
            assert(byte == seen[i as int]);
            assert(seen.skip(i as int).skip(1) =~= seen.skip(i + 1));
            assert(seen.skip(i as int)[0] == byte);
            power_bound(len - i - 1);
            reveal_with_fuel(power, 2);
        }
        value = value * 0x100 + byte as u64;
    }
    assert(seen.skip(0) =~= seen);
    value
}

/// 256 to the `n`.
pub open spec fn power(n: int) -> int
    decreases n,
{
    if n <= 0 {
        1
    } else {
        0x100 * power(n - 1)
    }
}

proof fn power_bound(n: int)
    requires
        n <= 7,
    ensures
        power(n) <= 0x100_0000_0000_0000,
{
    reveal_with_fuel(power, 9);
}

/// The bytes of a number of 32 bits in an order.
pub open spec fn bytes_of(order: ByteOrder, n: u32) -> Seq<u8> {
    let little = seq![
        (n % 0x100) as u8,
        (n / 0x100 % 0x100) as u8,
        (n / 0x1_0000 % 0x100) as u8,
        (n / 0x100_0000) as u8,
    ];
    match order {
        ByteOrder::Little => little,
        ByteOrder::Big => little.reverse(),
    }
}

/// Whether a property is `cmd` with `data`, and nothing else set.
pub open spec fn is_property(p: DtvProperty, order: ByteOrder, cmd: u32, data: u32) -> bool {
    &&& p.cmd == cmd
    &&& p.result == 0
    &&& p.u@ == bytes_of(order, data) + Seq::new(52, |i: int| 0u8)
}

impl DtvProperty {
    /// The property `cmd` with `data`.
    pub fn new(order: ByteOrder, cmd: u32, data: u32) -> (r: Self)
        ensures
            is_property(r, order, cmd, data),
    {
        let mut u: [u8; 56] = [0; 56];
        let b0: u8 = (data % 0x100) as u8;
        let b1: u8 = (data / 0x100 % 0x100) as u8;
        let b2: u8 = (data / 0x1_0000 % 0x100) as u8;
        let b3: u8 = (data / 0x100_0000) as u8;
        match order {
            ByteOrder::Little => {
                u[0] = b0;
                u[1] = b1;
                u[2] = b2;
                u[3] = b3;
            },
            ByteOrder::Big => {
                u[0] = b3;
                u[1] = b2;
                u[2] = b1;
                u[3] = b0;
            },
        }
        assert(u@ =~= bytes_of(order, data) + Seq::new(52, |i: int| 0u8));
        DtvProperty { cmd, u, result: 0 }
    }

    /// What [`buffer`](Self::buffer) gives.
    pub open spec fn held(self, order: ByteOrder) -> Seq<u8> {
        let len = ordered(order, self.u@.subrange(32, 36));
        self.u@.take(
            if len < 32 {
                len
            } else {
                32
            },
        )
    }

    /// The bytes the kernel filled in, 32 at most.
    pub fn buffer(&self, order: ByteOrder) -> (r: Vec<u8>)
        ensures
            r@ == self.held(order),
    {
        let len: u64 = number_at(order, &self.u, 32, 4);
        let n: usize = if len < 32 {
            len as usize
        } else {
            32
        };
        let mut out: Vec<u8> = Vec::new();
        let mut i: usize = 0;
        while i < n
            invariant
                i <= n,
                n <= 32,
                out@ =~= self.u@.take(i as int),
            decreases n - i,
        {
            out.push(self.u[i]);
            i = i + 1;
        }
        out
    }

    /// The scale and value of the first statistic, if there is one.
    pub open spec fn statistic(self, order: ByteOrder) -> Option<(u8, i64)> {
        if self.u@[0] > 0 {
            Some((self.u@[1], ordered(order, self.u@.subrange(2, 10)) as u64 as i64))
        } else {
            None
        }
    }

    /// The scale and value of the first statistic, if there is one.
    pub fn stat(&self, order: ByteOrder) -> (r: Option<(u8, i64)>)
        ensures
            r == self.statistic(order),
    {
        if self.u[0] > 0 {
            let value: u64 = number_at(order, &self.u, 2, 8);
            Some((self.u[1], value as i64))
        } else {
            None
        }
    }
}

/// The bytes of a number make it again.
pub proof fn bytes_make_the_number(order: ByteOrder, n: u32)
    ensures
        ordered(order, bytes_of(order, n)) == n,
{
    let b = bytes_of(ByteOrder::Little, n);
    reveal_with_fuel(number_of, 5);
    assert(b.skip(1).skip(1).skip(1).skip(1) =~= Seq::empty());
    assert(b.skip(1)[0] == b[1]);
    assert(b.skip(1).skip(1)[0] == b[2]);
    assert(b.skip(1).skip(1).skip(1)[0] == b[3]);
    assert(b.reverse().reverse() =~= b);
    assert((n % 0x100) as u8 == n % 0x100 && (n / 0x100 % 0x100) as u8 == n / 0x100 % 0x100 && (n
        / 0x1_0000 % 0x100) as u8 == n / 0x1_0000 % 0x100 && (n / 0x100_0000) as u8 == n
        / 0x100_0000);
}

/// An attribute of a device in sysfs, as text.
pub struct Attribute {
    pub name: String,
    pub value: String,
}

/// A physical device, with its DVB adapters.
pub struct DvbDevice {
    /// Where the device is in sysfs, `/sys/devices/pci0000:00/0000:00:1c.0/0000:01:00.0`
    /// for instance.
    pub sysfs: String,
    pub adapters: Vec<u32>,
    /// The attributes read of it.
    pub attributes: Vec<Attribute>,
}

/// The text of an attribute, the first of the name.
pub open spec fn attribute(attributes: Seq<Attribute>, name: Seq<char>) -> Option<Seq<char>>
    decreases attributes.len(),
{
    if attributes.len() == 0 {
        None
    } else if attributes[0].name@ == name {
        Some(attributes[0].value@)
    } else {
        attribute(attributes.skip(1), name)
    }
}

/// The number the text of an attribute stands for, in hexadecimal.
pub open spec fn attribute_value(value: Seq<char>) -> Option<nat> {
    match text::number(text::stripped_all(text::trimmed(value), seq!['0', 'x']), 16, 0xffff) {
        Ok(n) => Some(n),
        Err(_) => None,
    }
}

/// The number the text of an attribute stands for, in hexadecimal.
pub fn parse_attribute(value: &str) -> (r: Option<u16>)
    ensures
        match attribute_value(value@) {
            Some(n) => r matches Some(v) && v == n,
            None => r is None,
        },
{
    proof {
        reveal_strlit("0x");
        assert("0x"@ =~= seq!['0', 'x']);
        text::number_within_max(
            text::stripped_all(text::trimmed(value@), seq!['0', 'x']),
            16,
            0xffff,
        );
    }
    match parse_number(strip_prefixes(trim(value), "0x"), 16, 0xffff) {
        Ok(n) => Some(n as u16),
        Err(_) => None,
    }
}

/// The id of the device at a place in sysfs.
pub open spec fn device_id(sysfs: Seq<char>) -> Seq<char> {
    "dvb:"@ + sysfs
}

impl DvbDevice {
    /// A hexadecimal attribute of the device in sysfs, `vendor` or
    /// `subsystem_vendor` for instance.
    pub fn attr(&self, name: &String) -> (r: Option<u16>)
        ensures
            match attribute(self.attributes@, name@) {
                Some(value) => match attribute_value(value) {
                    Some(n) => r matches Some(v) && v == n,
                    None => r is None,
                },
                None => r is None,
            },
    {
        let mut i: usize = 0;
        assert(self.attributes@.skip(0) =~= self.attributes@);
        while i < self.attributes.len()
            invariant
                i <= self.attributes@.len(),
                attribute(self.attributes@, name@) == attribute(
                    self.attributes@.skip(i as int),
                    name@,
                ),
            decreases self.attributes@.len() - i,
        {
            assert(self.attributes@.skip(i as int)[0] == self.attributes@[i as int]);
            if self.attributes[i].name == *name {
                return parse_attribute(self.attributes[i].value.as_str());
            }
            assert(self.attributes@.skip(i as int).skip(1) =~= self.attributes@.skip(i + 1));
            i = i + 1;
        }
        None
    }

    pub fn id(&self) -> (r: String)
        ensures
            r@ == device_id(self.sysfs@),
    {
        "dvb:".to_owned().concat(self.sysfs.as_str())
    }
}

/// What sets a device model apart from the others the kernel drives.
pub trait Quirks {
    /// The attributes of a device that tell whether it is of this model.
    closed spec fn telling(&self) -> Seq<&'static str> {
        arbitrary()
    }

    /// Whether the device is of this model.
    closed spec fn takes(&self, device: DvbDevice) -> bool {
        arbitrary()
    }

    /// The systems the tuners receive beyond those the kernel lists.
    closed spec fn extras(&self) -> Seq<System> {
        arbitrary()
    }

    /// The value of `DTV_STREAM_ID` for the stream.
    closed spec fn stream_value(&self, system: System, id: StreamId) -> u32 {
        arbitrary()
    }

    /// How long the tuner may take to lock.
    closed spec fn patience(&self) -> u64 {
        arbitrary()
    }

    /// The attributes of a device that tell whether it is of this model, which a
    /// device is to hold as far as it has them.
    fn attributes(&self) -> (r: Vec<&'static str>)
        ensures
            r@ == self.telling(),
    ;

    /// Whether the device is of this model.
    fn claims(&self, device: &DvbDevice) -> (r: bool)
        ensures
            r == self.takes(*device),
    ;

    /// The systems the tuners receive beyond those the kernel lists.
    fn extra_systems(&self) -> (r: Vec<System>)
        ensures
            r@ == self.extras(),
    ;

    /// The value of `DTV_STREAM_ID` for the stream.
    fn stream_id(&self, system: System, id: StreamId) -> (r: u32)
        ensures
            r == self.stream_value(system, id),
    ;

    /// How long the tuner may take to lock, in milliseconds.
    fn lock_timeout_ms(&self) -> (r: u64)
        ensures
            r == self.patience(),
    ;
}

/// How long a tuner may take to lock unless its model says otherwise.
pub const LOCK_TIMEOUT_MS: u64 = 5000;

/// Takes every device.
pub struct Generic;

impl Quirks for Generic {
    open spec fn telling(&self) -> Seq<&'static str> {
        Seq::empty()
    }

    open spec fn takes(&self, device: DvbDevice) -> bool {
        true
    }

    open spec fn extras(&self) -> Seq<System> {
        Seq::empty()
    }

    open spec fn stream_value(&self, system: System, id: StreamId) -> u32 {
        id.0 as u32
    }

    open spec fn patience(&self) -> u64 {
        LOCK_TIMEOUT_MS
    }

    fn attributes(&self) -> (r: Vec<&'static str>) {
        Vec::new()
    }

    fn claims(&self, _device: &DvbDevice) -> (r: bool) {
        true
    }

    fn extra_systems(&self) -> (r: Vec<System>) {
        Vec::new()
    }

    fn stream_id(&self, _system: System, id: StreamId) -> (r: u32) {
        id.0 as u32
    }

    fn lock_timeout_ms(&self) -> (r: u64) {
        LOCK_TIMEOUT_MS
    }
}

/// A driver of the devices a model claims.
pub struct DvbDriver<Q> {
    pub quirks: Q,
}

impl<Q: Quirks> DvbDriver<Q> {
    pub fn new(quirks: Q) -> (r: Self)
        ensures
            r.quirks == quirks,
    {
        DvbDriver { quirks }
    }
}

impl DvbDriver<Generic> {
    /// The driver of every device.
    pub fn generic() -> (r: Self)
        ensures
            forall|device: DvbDevice| #[trigger] r.quirks.takes(device),
    {
        DvbDriver::new(Generic)
    }
}

/// The adapter whose first frontend an entry of `/sys/class/dvb` is, if it is one.
pub open spec fn entry_adapter(name: Seq<char>) -> Option<nat> {
    match text::stripped(name, "dvb"@) {
        None => None,
        Some(rest) => match text::stripped_end(rest, ".frontend0"@) {
            None => None,
            Some(digits) => match text::number(digits, 10, u32::MAX as nat) {
                Ok(n) => Some(n),
                Err(_) => None,
            },
        },
    }
}

/// The adapter whose first frontend an entry of `/sys/class/dvb` is, if it is one.
pub fn adapter_of(name: &str) -> (r: Option<u32>)
    ensures
        match entry_adapter(name@) {
            Some(n) => r matches Some(v) && v == n,
            None => r is None,
        },
{
    match strip_prefix(name, "dvb") {
        None => None,
        Some(rest) => match strip_suffix(rest, ".frontend0") {
            None => None,
            Some(digits) => match parse_number(digits, 10, u32::MAX) {
                Ok(n) => Some(n),
                Err(_) => None,
            },
        },
    }
}

/// The path of a node of an adapter.
pub open spec fn node_path(adapter: u32, node: Seq<char>) -> Seq<char> {
    "/dev/dvb/adapter"@ + text::decimal(adapter as nat) + node
}

fn path_of(adapter: u32, node: &str) -> (r: String)
    ensures
        r@ == node_path(adapter, node@),
{
    let mut path: String = "/dev/dvb/adapter".to_owned();
    push_decimal(&mut path, adapter as u64);
    path.append(node);
    path
}

/// The path of the frontend of an adapter.
pub fn frontend_path(adapter: u32) -> (r: String)
    ensures
        r@ == node_path(adapter, "/frontend0"@),
{
    path_of(adapter, "/frontend0")
}

/// The path of the demultiplexer of an adapter.
pub fn demux_path(adapter: u32) -> (r: String)
    ensures
        r@ == node_path(adapter, "/demux0"@),
{
    path_of(adapter, "/demux0")
}

/// The path of the DVR device of an adapter.
pub fn dvr_path(adapter: u32) -> (r: String)
    ensures
        r@ == node_path(adapter, "/dvr0"@),
{
    path_of(adapter, "/dvr0")
}

/// An adapter found, and where its device is in sysfs, as a canonical path.
pub struct Adapter {
    pub number: u32,
    pub sysfs: String,
}

/// What an [`Adapter`] is.
pub struct AdapterView {
    pub number: u32,
    pub sysfs: Seq<char>,
}

impl View for Adapter {
    type V = AdapterView;

    open spec fn view(&self) -> AdapterView {
        AdapterView { number: self.number, sysfs: self.sysfs@ }
    }
}

/// What adapters are.
pub open spec fn adapter_views(adapters: Seq<Adapter>) -> Seq<AdapterView> {
    adapters.map(|i: int, a: Adapter| a@)
}

/// The order of adapters: by their numbers, then by where their devices are.
pub open spec fn by_number() -> spec_fn(AdapterView, AdapterView) -> bool {
    |a: AdapterView, b: AdapterView|
        a.number < b.number || (a.number == b.number && text::path_before(a.sysfs, b.sysfs))
}

/// Adapters in the order of their numbers, with one more.
pub open spec fn inserted(s: Seq<AdapterView>, x: AdapterView) -> Seq<AdapterView> {
    lists::inserted(s, x, by_number())
}

/// Adapters in the order of their numbers.
pub open spec fn sorted(s: Seq<AdapterView>) -> Seq<AdapterView> {
    lists::sorted(s, by_number())
}

/// What a device found is.
#[verifier::ext_equal]
pub struct DeviceView {
    pub sysfs: Seq<char>,
    pub adapters: Seq<u32>,
}

impl View for DvbDevice {
    type V = DeviceView;

    open spec fn view(&self) -> DeviceView {
        DeviceView { sysfs: self.sysfs@, adapters: self.adapters@ }
    }
}

/// What devices are.
pub open spec fn device_views(devices: Seq<DvbDevice>) -> Seq<DeviceView> {
    devices.map(|i: int, d: DvbDevice| d@)
}

/// The place of the device of a path, or the length for none.
pub open spec fn place(devices: Seq<DeviceView>, sysfs: Seq<char>) -> int
    decreases devices.len(),
{
    if devices.len() == 0 {
        0
    } else if devices[0].sysfs == sysfs {
        0
    } else {
        1 + place(devices.skip(1), sysfs)
    }
}

/// The devices with one more adapter, which goes to the device of its path.
pub open spec fn with_adapter(devices: Seq<DeviceView>, a: AdapterView) -> Seq<DeviceView> {
    let i = place(devices, a.sysfs);
    if i < devices.len() {
        devices.update(
            i,
            DeviceView { sysfs: devices[i].sysfs, adapters: devices[i].adapters.push(a.number) },
        )
    } else {
        devices.push(DeviceView { sysfs: a.sysfs, adapters: seq![a.number] })
    }
}

/// The devices of adapters, in the order their first ones come.
pub open spec fn grouped(s: Seq<AdapterView>) -> Seq<DeviceView>
    decreases s.len(),
{
    if s.len() == 0 {
        Seq::empty()
    } else {
        with_adapter(grouped(s.drop_last()), s.last())
    }
}

fn comes_before(a: &Adapter, b: &Adapter) -> (r: bool)
    ensures
        r == by_number()(a@, b@),
{
    a.number < b.number || (a.number == b.number && path_goes_before(
        a.sysfs.as_str(),
        b.sysfs.as_str(),
    ))
}

fn insert(list: &mut Vec<Adapter>, x: Adapter)
    ensures
        adapter_views(final(list)@) == inserted(adapter_views(old(list)@), x@),
{
    let ghost s = adapter_views(list@);
    let mut k: usize = list.len();
    assert(s.take(k as int) =~= s);
    assert(inserted(s.take(k as int), x@) + s.skip(k as int) =~= inserted(s, x@));
    while k > 0 && comes_before(&x, &list[k - 1])
        invariant
            k <= list@.len(),
            s == adapter_views(list@),
            inserted(s.take(k as int), x@) + s.skip(k as int) == inserted(s, x@),
        ensures
            k == 0 || !by_number()(x@, list@[k - 1]@),
        decreases k,
    {
        proof {
            assert(s.take(k as int).last() == list@[k - 1]@);
            assert(s.take(k as int).drop_last() =~= s.take(k - 1));
            assert(inserted(s.take(k - 1), x@) + s.skip(k - 1) =~= inserted(s.take(k as int), x@)
                + s.skip(k as int));
        }
        k = k - 1;
    }
    proof {
        if k > 0 {
            assert(s.take(k as int).last() == list@[k - 1]@);
        }
        assert(inserted(s.take(k as int), x@) == s.take(k as int).push(x@));
        assert(inserted(s, x@) =~= s.insert(k as int, x@));
    }
    let ghost before = list@;
    list.insert(k, x);
    assert(adapter_views(list@) =~= s.insert(k as int, x@));
}

fn find(devices: &Vec<DvbDevice>, sysfs: &String) -> (r: usize)
    ensures
        r == place(device_views(devices@), sysfs@),
        r <= devices@.len(),
{
    let ghost all = device_views(devices@);
    let mut i: usize = 0;
    assert(all.skip(0) =~= all);
    while i < devices.len()
        invariant
            i <= devices@.len(),
            all == device_views(devices@),
            place(all, sysfs@) == i + place(all.skip(i as int), sysfs@),
        decreases devices@.len() - i,
    {
        assert(all.skip(i as int)[0] == devices@[i as int]@);
        if devices[i].sysfs == *sysfs {
            return i;
        }
        assert(all.skip(i as int).skip(1) =~= all.skip(i + 1));
        i = i + 1;
    }
    i
}

/// The devices of the adapters found, by the device in sysfs, in the order of the
/// numbers of the adapters.
pub fn group(adapters: Vec<Adapter>) -> (r: Vec<DvbDevice>)
    ensures
        device_views(r@) == grouped(sorted(adapter_views(adapters@))),
        forall|i: int| 0 <= i < r@.len() ==> (#[trigger] r@[i]).attributes@.len() == 0,
{
    let ghost all = adapter_views(adapters@);
    let mut list: Vec<Adapter> = Vec::new();
    let mut i: usize = 0;
    assert(adapter_views(list@) =~= sorted(all.take(0)));
    while i < adapters.len()
        invariant
            i <= adapters@.len(),
            all == adapter_views(adapters@),
            adapter_views(list@) == sorted(all.take(i as int)),
        decreases adapters@.len() - i,
    {
        proof {
            assert(all.take(i + 1).drop_last() =~= all.take(i as int));
            assert(all.take(i + 1).last() == adapters@[i as int]@);
        }
        let x: Adapter = Adapter {
            number: adapters[i].number,
            sysfs: adapters[i].sysfs.clone(),
        };
        insert(&mut list, x);
        i = i + 1;
    }
    assert(all.take(i as int) =~= all);

    let ghost order = adapter_views(list@);
    let mut devices: Vec<DvbDevice> = Vec::new();
    let mut k: usize = 0;
    assert(device_views(devices@) =~= grouped(order.take(0)));
    while k < list.len()
        invariant
            k <= list@.len(),
            order == adapter_views(list@),
            device_views(devices@) == grouped(order.take(k as int)),
            forall|i: int|
                0 <= i < devices@.len() ==> (#[trigger] devices@[i]).attributes@.len() == 0,
        decreases list@.len() - k,
    {
        let ghost before = device_views(devices@);
        proof {
            assert(order.take(k + 1).drop_last() =~= order.take(k as int));
            assert(order.take(k + 1).last() == list@[k as int]@);
        }
        let at: usize = find(&devices, &list[k].sysfs);
        if at < devices.len() {
            assert(before[at as int] == devices@[at as int]@);
            devices[at].adapters.push(list[k].number);
        } else {
            let mut numbers: Vec<u32> = Vec::new();
            numbers.push(list[k].number);
            devices.push(
                DvbDevice {
                    sysfs: list[k].sysfs.clone(),
                    adapters: numbers,
                    attributes: Vec::new(),
                },
            );
            assert(devices@.last().adapters@ =~= seq![list@[k as int].number]);
        }
        assert(device_views(devices@) =~= with_adapter(before, list@[k as int]@));
        k = k + 1;
    }
    assert(order.take(k as int) =~= order);
    devices
}

/// Whether a device is claimed.
pub open spec fn claimed_by<Q: Quirks>(quirks: Q) -> spec_fn(DvbDevice) -> bool {
    |d: DvbDevice| quirks.takes(d)
}

/// The devices the quirks claim.
pub fn claimed<Q: Quirks>(devices: Vec<DvbDevice>, quirks: &Q) -> (r: Vec<DvbDevice>)
    ensures
        r@ == devices@.filter(claimed_by(*quirks)),
{
    let ghost all = devices@;
    let mut rest: Vec<DvbDevice> = devices;
    let mut kept: Vec<DvbDevice> = Vec::new();
    let n: usize = rest.len();
    let mut i: usize = 0;
    proof {
        reveal(Seq::filter);
        assert(all.take(0).filter(claimed_by(*quirks)) =~= Seq::empty());
        assert(all.skip(0) =~= all);
    }
    while i < n
        invariant
            i <= n,
            n == all.len(),
            rest@ == all.skip(i as int),
            kept@ == all.take(i as int).filter(claimed_by(*quirks)),
        decreases n - i,
    {
        proof {
            crate::lists::filter_one_more(all, claimed_by(*quirks), i as int);
        }
        let device: DvbDevice = rest.remove(0);
        assert(device == all[i as int]);
        assert(rest@ =~= all.skip(i + 1));
        if quirks.claims(&device) {
            kept.push(device);
        }
        i = i + 1;
    }
    assert(all.take(n as int) =~= all);
    kept
}

/// What the kernel says of the frontend of an adapter.
pub struct Frontend {
    pub name: String,
    /// The delivery systems it lists.
    pub delivery: Vec<u8>,
}

/// The ISDB systems among the delivery systems of a frontend.
pub open spec fn systems_of(delivery: Seq<u8>) -> Seq<System>
    decreases delivery.len(),
{
    if delivery.len() == 0 {
        Seq::empty()
    } else {
        let rest = systems_of(delivery.drop_last());
        if delivery.last() == SYS_ISDBT {
            rest.push(System::IsdbT)
        } else if delivery.last() == SYS_ISDBS {
            rest.push(System::IsdbS)
        } else {
            rest
        }
    }
}

/// The name of a device: that of its first frontend that has one.
pub open spec fn name_of(frontends: Seq<Frontend>) -> Seq<char>
    decreases frontends.len(),
{
    if frontends.len() == 0 {
        Seq::empty()
    } else if frontends[0].name@.len() > 0 {
        frontends[0].name@
    } else {
        name_of(frontends.skip(1))
    }
}

fn receives(delivery: &Vec<u8>) -> (r: Vec<System>)
    ensures
        r@ == systems_of(delivery@),
{
    let mut systems: Vec<System> = Vec::new();
    let mut i: usize = 0;
    while i < delivery.len()
        invariant
            i <= delivery@.len(),
            systems@ == systems_of(delivery@.take(i as int)),
        decreases delivery@.len() - i,
    {
        proof {
            assert(delivery@.take(i + 1).drop_last() =~= delivery@.take(i as int));
            assert(delivery@.take(i + 1).last() == delivery@[i as int]);
        }
        let system: u32 = delivery[i] as u32;
        if system == SYS_ISDBT {
            systems.push(System::IsdbT);
        } else if system == SYS_ISDBS {
            systems.push(System::IsdbS);
        }
        i = i + 1;
    }
    assert(delivery@.take(i as int) =~= delivery@);
    systems
}

/// Describes a device by what the kernel says of its frontends, in the order of its
/// adapters.
pub fn describe<Q: Quirks>(device: &DvbDevice, frontends: &Vec<Frontend>, quirks: &Q) -> (r: (
    DeviceInfo,
    Vec<TunerInfo>,
))
    ensures
        r.0.id@ == device_id(device.sysfs@),
        r.0.name@ == name_of(frontends@),
        r.1@.len() == frontends@.len(),
        forall|i: int|
            0 <= i < frontends@.len() ==> (#[trigger] r.1@[i]).id@ == text::tuner_id(
                device_id(device.sysfs@),
                i as nat,
            ) && r.1@[i].systems@ == systems_of(frontends@[i].delivery@) + quirks.extras(),
{
    let id: String = device.id();
    let mut name: String = String::new();
    let mut tuners: Vec<TunerInfo> = Vec::new();
    let mut i: usize = 0;
    assert(frontends@.skip(0) =~= frontends@);
    while i < frontends.len()
        invariant
            i <= frontends@.len(),
            id@ == device_id(device.sysfs@),
            tuners@.len() == i,
            name_of(frontends@) == if name@.len() > 0 {
                name@
            } else {
                name_of(frontends@.skip(i as int))
            },
            forall|k: int|
                0 <= k < i ==> (#[trigger] tuners@[k]).id@ == text::tuner_id(id@, k as nat)
                    && tuners@[k].systems@ == systems_of(frontends@[k].delivery@)
                    + quirks.extras(),
        decreases frontends@.len() - i,
    {
        proof {
            assert(frontends@.skip(i as int)[0] == frontends@[i as int]);
            assert(frontends@.skip(i as int).skip(1) =~= frontends@.skip(i + 1));
        }
        if name.as_str().is_empty() {
            name = frontends[i].name.clone();
        }
        let mut systems: Vec<System> = receives(&frontends[i].delivery);
        let mut more: Vec<System> = quirks.extra_systems();
        systems.append(&mut more);
        tuners.push(TunerInfo { id: id_of_tuner(id.as_str(), i), systems });
        i = i + 1;
    }
    assert(name@ =~= name_of(frontends@));
    (DeviceInfo { id, name }, tuners)
}

/// The properties a frontend is told to tune, each a command and its value. The
/// kernel has no delivery system of its own for ISDB-S3: a 4K tuner takes it as
/// ISDB-S, telling the two apart by the stream id.
pub open spec fn settings<Q: Quirks>(params: TuneParams, quirks: Q) -> Result<
    Seq<(u32, u32)>,
    Error,
> {
    match params.stream_id {
        None => Ok(
            seq![
                (DTV_CLEAR, 0u32),
                (DTV_DELIVERY_SYSTEM, SYS_ISDBT),
                (DTV_FREQUENCY, (params.frequency_khz * 1000) as u32),
                (DTV_BANDWIDTH_HZ, 6_000_000u32),
                (DTV_TRANSMISSION_MODE, TRANSMISSION_MODE_AUTO),
                (DTV_GUARD_INTERVAL, GUARD_INTERVAL_AUTO),
                (DTV_ISDBT_LAYER_ENABLED, 7u32),
                (DTV_TUNE, 0u32),
            ],
        ),
        Some(id) => match params.if_khz() {
            Err(e) => Err(e),
            Ok(khz) => Ok(
                seq![
                    (DTV_CLEAR, 0u32),
                    (DTV_DELIVERY_SYSTEM, SYS_ISDBS),
                    (DTV_FREQUENCY, khz),
                    (DTV_STREAM_ID, quirks.stream_value(params.system, id)),
                    (DTV_TUNE, 0u32),
                ],
            ),
        },
    }
}

/// Whether properties are those of the settings.
pub open spec fn are_settings(
    properties: Seq<DtvProperty>,
    order: ByteOrder,
    list: Seq<(u32, u32)>,
) -> bool {
    &&& properties.len() == list.len()
    &&& forall|i: int|
        0 <= i < list.len() ==> is_property(
            #[trigger] properties[i],
            order,
            list[i].0,
            list[i].1,
        )
}

/// The properties a frontend is told to tune to `params`.
pub fn properties<Q: Quirks>(params: &TuneParams, quirks: &Q, order: ByteOrder) -> (r: Result<
    Vec<DtvProperty>,
    Error,
>)
    requires
        params.stream_id is None ==> params.frequency_khz * 1000 <= u32::MAX,
    ensures
        match settings(*params, *quirks) {
            Ok(list) => r matches Ok(properties) && are_settings(properties@, order, list),
            Err(e) => r == Err::<Vec<DtvProperty>, Error>(e),
        },
{
    let mut list: Vec<DtvProperty> = Vec::new();
    list.push(DtvProperty::new(order, DTV_CLEAR, 0));
    match params.stream_id {
        None => {
            list.push(DtvProperty::new(order, DTV_DELIVERY_SYSTEM, SYS_ISDBT));
            list.push(DtvProperty::new(order, DTV_FREQUENCY, params.frequency_khz * 1000));
            list.push(DtvProperty::new(order, DTV_BANDWIDTH_HZ, 6_000_000));
            list.push(DtvProperty::new(order, DTV_TRANSMISSION_MODE, TRANSMISSION_MODE_AUTO));
            list.push(DtvProperty::new(order, DTV_GUARD_INTERVAL, GUARD_INTERVAL_AUTO));
            list.push(DtvProperty::new(order, DTV_ISDBT_LAYER_ENABLED, 7));
        },
        Some(id) => {
            let khz: u32 = match params.if_frequency_khz() {
                Ok(khz) => khz,
                Err(e) => return Err(e),
            };
            list.push(DtvProperty::new(order, DTV_DELIVERY_SYSTEM, SYS_ISDBS));
            list.push(DtvProperty::new(order, DTV_FREQUENCY, khz));
            list.push(
                DtvProperty::new(order, DTV_STREAM_ID, quirks.stream_id(params.system, id)),
            );
        },
    }
    list.push(DtvProperty::new(order, DTV_TUNE, 0));
    Ok(list)
}

/// Whether a status says that the tuner is locked.
pub fn locked(status: u32) -> (r: bool)
    ensures
        r == (status & FE_HAS_LOCK != 0),
{
    status & FE_HAS_LOCK != 0
}

/// What a look at the status of a tuner that is to lock comes to.
#[derive(Clone, Copy, Debug, PartialEq, Eq, Structural)]
pub enum Polled {
    Locked,
    /// The time is up.
    GivenUp,
    /// To look again in [`LOCK_POLL_MS`].
    Again,
}

/// What a look at the status comes to, `late` telling whether the time is up.
pub fn poll(status: u32, late: bool) -> (r: Polled)
    ensures
        r == if status & FE_HAS_LOCK != 0 {
            Polled::Locked
        } else if late {
            Polled::GivenUp
        } else {
            Polled::Again
        },
{
    if locked(status) {
        Polled::Locked
    } else if late {
        Polled::GivenUp
    } else {
        Polled::Again
    }
}

/// The signal a status and the statistic of the carrier-to-noise ratio tell of.
pub fn signal(status: u32, cnr: &DtvProperty, order: ByteOrder) -> (r: Signal)
    ensures
        r.locked == (status & FE_HAS_LOCK != 0),
        r.cnr == match cnr.statistic(order) {
            Some((scale, value)) => if scale == FE_SCALE_DECIBEL {
                Some(Cnr::MilliDb(value))
            } else {
                None
            },
            None => None,
        },
{
    let cnr: Option<Cnr> = match cnr.stat(order) {
        Some((scale, value)) => if scale == FE_SCALE_DECIBEL {
            Some(Cnr::MilliDb(value))
        } else {
            None
        },
        None => None,
    };
    Signal { locked: locked(status), cnr }
}

/// The voltage that switches the LNB.
pub fn voltage(on: bool) -> (r: u32)
    ensures
        r == if on {
            SEC_VOLTAGE_18
        } else {
            SEC_VOLTAGE_OFF
        },
{
    if on {
        SEC_VOLTAGE_18
    } else {
        SEC_VOLTAGE_OFF
    }
}

/// The adapter of a tuner of a device.
pub fn tuner_adapter(device: &DvbDevice, index: usize) -> (r: Result<u32, Error>)
    ensures
        if index < device.adapters@.len() {
            r == Ok::<u32, Error>(device.adapters@[index as int])
        } else {
            r matches Err(Error::NotFound(id)) && id@ == text::tuner_id(
                device_id(device.sysfs@),
                index as nat,
            )
        },
{
    if index < device.adapters.len() {
        Ok(device.adapters[index])
    } else {
        let id: String = device.id();
        Err(Error::NotFound(id_of_tuner(id.as_str(), index)))
    }
}

/// An open tuner.
pub struct DvbTuner {
    pub systems: Vec<System>,
    /// The format of the system last tuned to.
    pub format: Option<StreamFormat>,
}

impl DvbTuner {
    /// Checks that the tuner can be tuned to `params`.
    pub fn check(&self, params: &TuneParams) -> (r: Result<(), Error>)
        ensures
            r is Ok <==> params.valid() && self.systems@.contains(params.system),
            params.valid() && !self.systems@.contains(params.system) ==> r == Err::<(), Error>(
                Error::Unsupported(params.system),
            ),
            params.system.satellite() && params.stream_id is None ==> r == Err::<(), Error>(
                Error::InvalidParams("a satellite stream needs a stream id"),
            ),
            !params.system.satellite() && params.stream_id is Some ==> r == Err::<(), Error>(
                Error::InvalidParams("ISDB-T takes no stream id"),
            ),
    {
        match params.validate() {
            Ok(_) => {},
            Err(e) => return Err(e),
        }
        let mut i: usize = 0;
        while i < self.systems.len()
            invariant
                i <= self.systems@.len(),
                params.valid(),
                forall|k: int| 0 <= k < i ==> self.systems@[k] != params.system,
            decreases self.systems@.len() - i,
        {
            if self.systems[i] == params.system {
                assert(self.systems@[i as int] == params.system);
                return Ok(());
            }
            i = i + 1;
        }
        Err(Error::Unsupported(params.system))
    }

    /// Takes note that the tuner locked on what `params` tunes to.
    pub fn tuned(&mut self, params: &TuneParams)
        ensures
            final(self).systems == old(self).systems,
            final(self).format == Some(params.format()),
    {
        self.format = Some(params.stream_format());
    }

    /// The format of the stream of the tuner, once it was tuned.
    pub fn stream_format(&self) -> (r: Result<StreamFormat, Error>)
        ensures
            r == match self.format {
                Some(format) => Ok::<StreamFormat, Error>(format),
                None => Err(Error::InvalidParams("the tuner has not been tuned")),
            },
    {
        match self.format {
            Some(format) => Ok(format),
            None => Err(Error::InvalidParams("the tuner has not been tuned")),
        }
    }
}

/// The order of adapters is one to sort by, and tells any two apart.
proof fn number_orders()
    ensures
        lists::is_order(by_number()),
        forall|a: AdapterView, b: AdapterView|
            !#[trigger] by_number()(a, b) && !by_number()(b, a) ==> a == b,
{
    let earlier = by_number();
    assert forall|a: AdapterView, b: AdapterView| #[trigger] earlier(a, b) implies !earlier(
        b,
        a,
    ) by {
        text::one_goes_first(a.sysfs, b.sysfs, true);
    }
    assert forall|a: AdapterView, b: AdapterView, c: AdapterView|
        #![trigger earlier(b, a), earlier(c, b)]
        !earlier(b, a) && !earlier(c, b) implies !earlier(c, a) by {
        text::one_goes_first(a.sysfs, b.sysfs, true);
        text::one_goes_first(b.sysfs, c.sysfs, true);
        text::one_goes_first(a.sysfs, c.sysfs, true);
        if text::path_before(a.sysfs, b.sysfs) && text::path_before(b.sysfs, c.sysfs) {
            text::first_goes_on(a.sysfs, b.sysfs, c.sysfs, true);
        }
    }
    assert forall|a: AdapterView, b: AdapterView|
        !#[trigger] by_number()(a, b) && !by_number()(b, a) implies a == b by {
        text::one_goes_first(a.sysfs, b.sysfs, true);
    }
}

/// Sorting puts the adapters in the order of their numbers, those of a number in that
/// of their places, and neither loses nor adds one.
pub proof fn sorting_orders(s: Seq<AdapterView>)
    ensures
        lists::in_order(sorted(s), by_number()),
        forall|i: int, j: int|
            0 <= i <= j < sorted(s).len() ==> (#[trigger] sorted(s)[i]).number <= (
            #[trigger] sorted(s)[j]).number,
        sorted(s).to_multiset() == s.to_multiset(),
{
    number_orders();
    let out = sorted(s);
    lists::sorting_orders(s, by_number(), arbitrary());
    assert forall|i: int, j: int| 0 <= i <= j < out.len() implies (#[trigger] out[i]).number <= (
    #[trigger] out[j]).number by {
        if i < j {
            assert(!by_number()(out[j], out[i]));
        }
    }
}

proof fn place_is_one(devices: Seq<DeviceView>, sysfs: Seq<char>)
    ensures
        0 <= place(devices, sysfs) <= devices.len(),
        place(devices, sysfs) < devices.len() ==> devices[place(devices, sysfs)].sysfs == sysfs,
        forall|i: int|
            0 <= i < place(devices, sysfs) ==> (#[trigger] devices[i]).sysfs != sysfs,
    decreases devices.len(),
{
    if devices.len() > 0 && devices[0].sysfs != sysfs {
        place_is_one(devices.skip(1), sysfs);
        assert forall|i: int| 0 <= i < place(devices, sysfs) implies (#[trigger] devices[i]).sysfs
            != sysfs by {
            if i > 0 {
                assert(devices[i] == devices.skip(1)[i - 1]);
            }
        }
    }
}

/// A place in sysfs is one device, and an adapter found belongs to the device of its
/// place.
pub proof fn grouping_sorts_out(s: Seq<AdapterView>, k: int)
    requires
        0 <= k < s.len(),
    ensures
        forall|i: int, j: int|
            0 <= i < j < grouped(s).len() ==> (#[trigger] grouped(s)[i]).sysfs != (
            #[trigger] grouped(s)[j]).sysfs,
        exists|i: int|
            0 <= i < grouped(s).len() && (#[trigger] grouped(s)[i]).sysfs == s[k].sysfs
                && grouped(s)[i].adapters.contains(s[k].number),
    decreases s.len(),
{
    let rest = s.drop_last();
    let before = grouped(rest);
    let after = grouped(s);
    let a = s.last();
    place_is_one(before, a.sysfs);
    let p = place(before, a.sysfs);
    if rest.len() > 0 {
        grouping_sorts_out(
            rest,
            if k < rest.len() {
                k
            } else {
                0
            },
        );
    }
    assert forall|i: int, j: int| 0 <= i < j < after.len() implies (#[trigger] after[i]).sysfs != (
    #[trigger] after[j]).sysfs by {
        if j < before.len() {
            assert(before[i].sysfs != before[j].sysfs);
        } else {
            assert(before[i].sysfs != a.sysfs);
        }
    }
    if k < rest.len() {
        let i = choose|i: int|
            0 <= i < before.len() && (#[trigger] before[i]).sysfs == s[k].sysfs
                && before[i].adapters.contains(rest[k].number);
        assert(after[i].sysfs == s[k].sysfs);
        if i == p {
            let m = choose|m: int|
                0 <= m < before[i].adapters.len() && before[i].adapters[m] == rest[k].number;
            assert(after[i].adapters[m] == s[k].number);
        }
        assert(after[i].adapters.contains(s[k].number));
    } else {
        if p < before.len() {
            assert(after[p].adapters.last() == a.number);
            assert(after[p].adapters.contains(a.number));
        } else {
            assert(after[p].adapters[0] == a.number);
            assert(after[p].adapters.contains(a.number));
        }
    }
}

/// The length of the name of a frontend in the bytes the kernel gives, which end
/// with a zero if they are fewer.
pub fn name_length(bytes: &[u8]) -> (r: usize)
    ensures
        r <= bytes@.len(),
        forall|i: int| 0 <= i < r ==> bytes@[i] != 0,
        r < bytes@.len() ==> bytes@[r as int] == 0,
{
    let n: usize = bytes.len();
    let mut i: usize = 0;
    while i < n
        invariant
            i <= n,
            n == bytes@.len(),
            forall|k: int| 0 <= k < i ==> bytes@[k] != 0,
        decreases n - i,
    {
        if bytes[i] == 0 {
            return i;
        }
        i = i + 1;
    }
    n
}

/// What a frontend is told for a command: the value of the first property with it.
pub open spec fn told(list: Seq<(u32, u32)>, cmd: u32) -> Option<u32>
    decreases list.len(),
{
    if list.len() == 0 {
        None
    } else if list[0].0 == cmd {
        Some(list[0].1)
    } else {
        told(list.skip(1), cmd)
    }
}

proof fn told_at(list: Seq<(u32, u32)>, i: int)
    requires
        0 <= i < list.len(),
        forall|k: int| 0 <= k < i ==> (#[trigger] list[k]).0 != list[i].0,
    ensures
        told(list, list[i].0) == Some(list[i].1),
    decreases list.len(),
{
    if i > 0 {
        let rest = list.skip(1);
        assert forall|k: int| 0 <= k < i - 1 implies (#[trigger] rest[k]).0 != rest[i - 1].0 by {
            assert(rest[k] == list[k + 1]);
        }
        assert(list[0].0 != list[i].0);
        told_at(rest, i - 1);
    }
}

/// A frontend of ISDB-T is told the frequency on air in Hz and 6 MHz of bandwidth. It is
/// cleared before anything else and tuned after everything else.
pub proof fn terrestrial_frontends_are_told<Q: Quirks>(params: TuneParams, quirks: Q)
    requires
        params.stream_id is None,
        params.frequency_khz * 1000 <= u32::MAX,
    ensures
        settings(params, quirks) matches Ok(list) && {
            &&& told(list, 17) == Some(8u32)
            &&& told(list, 3) matches Some(hz) && hz == params.frequency_khz * 1000
            &&& told(list, 5) == Some(6_000_000u32)
            &&& told(list, 42) is None
            &&& list[0].0 == 2
            &&& list.last().0 == 1
        },
{
    let list = settings(params, quirks)->Ok_0;
    told_at(list, 1);
    told_at(list, 2);
    told_at(list, 3);
    reveal_with_fuel(told, 10);
}

/// A frontend of a satellite is told the frequency behind the LNB in kHz, which is the one
/// on air less that of the oscillator, and which stream to take. It is cleared before
/// anything else and tuned after everything else.
pub proof fn satellite_frontends_are_told<Q: Quirks>(params: TuneParams, quirks: Q)
    requires
        params.stream_id is Some,
    ensures
        ({
            let oscillator: int = if params.polarization == Some(crate::types::Polarization::Left) {
                9_505_000
            } else {
                10_678_000
            };
            match settings(params, quirks) {
                Ok(list) => {
                    &&& told(list, 17) == Some(9u32)
                    &&& told(list, 3) matches Some(khz) && khz + oscillator == params.frequency_khz
                    &&& told(list, 42) == Some(
                        quirks.stream_value(params.system, params.stream_id->0),
                    )
                    &&& list[0].0 == 2
                    &&& list.last().0 == 1
                },
                Err(_) => params.frequency_khz < oscillator,
            }
        }),
{
    if settings(params, quirks) is Ok {
        let list = settings(params, quirks)->Ok_0;
        told_at(list, 1);
        told_at(list, 2);
        told_at(list, 3);
    }
}

/// The bytes of a number stand in the order of the machine: the least significant first or
/// last.
pub proof fn bytes_stand_in_order(n: u32, b: Seq<u8>)
    requires
        b.len() == 4,
    ensures
        ({
            let l = bytes_of(ByteOrder::Little, n);
            l.len() == 4 && l[0] + l[1] * 0x100 + l[2] * 0x1_0000 + l[3] * 0x100_0000 == n
        }),
        ({
            let g = bytes_of(ByteOrder::Big, n);
            g.len() == 4 && g[3] + g[2] * 0x100 + g[1] * 0x1_0000 + g[0] * 0x100_0000 == n
        }),
        ordered(ByteOrder::Little, b) == b[0] + b[1] * 0x100 + b[2] * 0x1_0000 + b[3]
            * 0x100_0000,
        ordered(ByteOrder::Big, b) == b[3] + b[2] * 0x100 + b[1] * 0x1_0000 + b[0] * 0x100_0000,
{
    four_bytes_make(b);
    four_bytes_make(b.reverse());
    bytes_make_the_number(ByteOrder::Little, n);
    bytes_make_the_number(ByteOrder::Big, n);
    four_bytes_make(bytes_of(ByteOrder::Little, n));
    four_bytes_make(bytes_of(ByteOrder::Big, n).reverse());
}

proof fn four_bytes_make(b: Seq<u8>)
    requires
        b.len() == 4,
    ensures
        number_of(b) == b[0] + b[1] * 0x100 + b[2] * 0x1_0000 + b[3] * 0x100_0000,
{
    reveal_with_fuel(number_of, 5);
    assert(b.skip(1).skip(1).skip(1).skip(1) =~= Seq::empty());
    assert(b.skip(1)[0] == b[1]);
    assert(b.skip(1).skip(1)[0] == b[2]);
    assert(b.skip(1).skip(1).skip(1)[0] == b[3]);
}

/// An adapter is known by the name of its first frontend: its number between `dvb` and
/// `.frontend0`.
pub proof fn adapters_are_known_by_name(n: nat)
    requires
        n <= u32::MAX,
    ensures
        entry_adapter("dvb"@ + text::decimal(n) + ".frontend0"@) == Some(n),
{
    let digits = text::decimal(n);
    let rest = digits + ".frontend0"@;
    let name = "dvb"@ + digits + ".frontend0"@;
    assert(name =~= "dvb"@ + rest);
    text::stripping_takes_the_part(name, "dvb"@);
    text::stripping_takes_the_part(rest, ".frontend0"@);
    let found = text::stripped(name, "dvb"@)->0;
    assert(found =~= rest) by {
        assert("dvb"@ + found == "dvb"@ + rest);
        assert(found =~= ("dvb"@ + found).skip("dvb"@.len() as int));
        assert(rest =~= ("dvb"@ + rest).skip("dvb"@.len() as int));
    }
    let number = text::stripped_end(rest, ".frontend0"@)->0;
    assert(number =~= digits) by {
        assert(number + ".frontend0"@ == digits + ".frontend0"@);
        assert(number =~= (number + ".frontend0"@).take(number.len() as int));
        assert(digits =~= (digits + ".frontend0"@).take(digits.len() as int));
    }
    text::decimals_read_back(n, u32::MAX as nat);
}

/// What an entry names is an adapter only if it is of that form.
pub proof fn other_entries_are_no_adapters(name: Seq<char>)
    ensures
        entry_adapter(name) is Some ==> exists|digits: Seq<char>|
            name == "dvb"@ + #[trigger] (digits + ".frontend0"@) && text::number(
                digits,
                10,
                u32::MAX as nat,
            ) == Ok::<nat, text::NumberError>(entry_adapter(name)->0),
{
    text::stripping_takes_the_part(name, "dvb"@);
    if entry_adapter(name) is Some {
        let rest = text::stripped(name, "dvb"@)->0;
        text::stripping_takes_the_part(rest, ".frontend0"@);
        let digits = text::stripped_end(rest, ".frontend0"@)->0;
        assert(name == "dvb"@ + (digits + ".frontend0"@));
    }
}

/// A frontend receives ISDB-T for each delivery system 8 it lists and ISDB-S for each 9,
/// in that order, and nothing for the others.
pub proof fn delivery_systems_are_received(delivery: Seq<u8>, one: u8)
    ensures
        systems_of(Seq::empty()).len() == 0,
        systems_of(delivery.push(one)) == if one == 8 {
            systems_of(delivery).push(System::IsdbT)
        } else if one == 9 {
            systems_of(delivery).push(System::IsdbS)
        } else {
            systems_of(delivery)
        },
{
    assert(delivery.push(one).drop_last() =~= delivery);
}

/// An attribute tells its number in hexadecimal, behind `0x`, whatever white space is
/// around it.
pub proof fn attributes_are_hexadecimal(
    before: Seq<char>,
    digits: Seq<char>,
    behind: Seq<char>,
    n: nat,
)
    requires
        text::number(digits, 16, 0xffff) == Ok::<nat, text::NumberError>(n),
        digits[0] != '+',
        forall|i: int| 0 <= i < before.len() ==> text::is_space(#[trigger] before[i]),
        forall|i: int| 0 <= i < behind.len() ==> text::is_space(#[trigger] behind[i]),
    ensures
        attribute_value(before + (seq!['0', 'x'] + digits) + behind) == Some(n),
{
    let inner = seq!['0', 'x'] + digits;
    text::digits_of_numbers(digits, 16, 0xffff);
    assert(inner[0] == '0');
    assert(inner.last() == digits.last());
    text::trimming_leaves(before, inner, behind);
    assert(seq!['0', 'x'].is_prefix_of(inner)) by {
        assert(seq!['0', 'x'] =~= inner.subrange(0, 2));
    }
    assert(inner.skip(2) =~= digits);
    assert(!seq!['0', 'x'].is_prefix_of(digits)) by {
        if digits.len() >= 2 {
            assert(digits[1] != 'x');
            assert(digits.subrange(0, 2)[1] == digits[1]);
        }
    }
    reveal_with_fuel(text::stripped_all, 3);
}

} // verus!
