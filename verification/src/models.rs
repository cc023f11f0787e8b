//! The models of the PLEX PX4/PX-MLT series and their kin, driven in user space
//! over USB, and the devices their bridges make up.

use vstd::prelude::*;

use crate::error::{Detail, Error, ErrorKind, IoError};
use crate::lists;
use crate::single;
use crate::text;
use crate::text::{goes_before, push_decimal};
use crate::types::{DeviceInfo, System};

verus! {

/// The vendor of the bridges.
pub const VENDOR_ID: u16 = 0x0511;

/// The file the firmware of the bridges is in.
pub const FIRMWARE: &'static str = "it930x-firmware.bin";

/// The demodulators of a PX-MLT: the address, I2C bus and TS port of each.
#[derive(Clone, Copy, Debug, PartialEq, Eq, Structural)]
pub enum Layout {
    Mlt5U,
    Mlt5Pe,
    Mlt8Pe3,
    Mlt8Pe5,
    Isdb6014,
}

pub const MLT5U: [(u8, u8, u8); 5] = [
    (0x65, 3, 4),
    (0x6c, 1, 3),
    (0x64, 1, 1),
    (0x6c, 3, 2),
    (0x64, 3, 0),
];

pub const MLT5PE: [(u8, u8, u8); 5] = [
    (0x65, 3, 0),
    (0x6c, 1, 1),
    (0x64, 1, 2),
    (0x6c, 3, 3),
    (0x64, 3, 4),
];

pub const MLT8PE3: [(u8, u8, u8); 3] = [(0x65, 3, 0), (0x6c, 3, 3), (0x64, 3, 4)];

pub const MLT8PE5: [(u8, u8, u8); 5] = [
    (0x65, 1, 0),
    (0x64, 1, 1),
    (0x6c, 1, 2),
    (0x6c, 3, 3),
    (0x64, 3, 4),
];

pub const ISDB6014: [(u8, u8, u8); 4] = [(0x65, 3, 0), (0x6c, 1, 1), (0x64, 1, 2), (0x64, 3, 4)];

impl Layout {
    /// What [`chips`](Self::chips) gives.
    pub open spec fn table(self) -> Seq<(u8, u8, u8)> {
        match self {
            Layout::Mlt5U => MLT5U@,
            Layout::Mlt5Pe => MLT5PE@,
            Layout::Mlt8Pe3 => MLT8PE3@,
            Layout::Mlt8Pe5 => MLT8PE5@,
            Layout::Isdb6014 => ISDB6014@,
        }
    }

    /// The demodulators, as opening the device takes them.
    pub fn chips(self) -> (r: Vec<(u8, u8, u8)>)
        ensures
            r@ == self.table(),
            1 <= r@.len() <= 5,
            forall|i: int| 0 <= i < r@.len() ==> (#[trigger] r@[i]).0 <= 0xfd,
    {
        let table: &[(u8, u8, u8)] = match self {
            Layout::Mlt5U => MLT5U.as_slice(),
            Layout::Mlt5Pe => MLT5PE.as_slice(),
            Layout::Mlt8Pe3 => MLT8PE3.as_slice(),
            Layout::Mlt8Pe5 => MLT8PE5.as_slice(),
            Layout::Isdb6014 => ISDB6014.as_slice(),
        };
        let mut copy: Vec<(u8, u8, u8)> = Vec::new();
        let mut i: usize = 0;
        while i < table.len()
            invariant
                i <= table@.len(),
                table@ == self.table(),
                copy@ =~= table@.take(i as int),
            decreases table@.len() - i,
        {
            copy.push(table[i]);
            i = i + 1;
        }
        assert(table@.take(i as int) =~= table@);
        copy
    }
}

/// What a model is made of.
#[derive(Clone, Copy, Debug, PartialEq, Eq, Structural)]
pub enum Kind {
    PxMlt(Layout),
    /// A PX4/PX5 board; `quad` for the Q models, two boards on one card.
    Px4(bool),
    Single(single::Model),
}

/// A model.
#[derive(Clone, Copy, Debug)]
pub struct Model {
    pub product_id: u16,
    pub name: &'static str,
    pub kind: Kind,
}

/// The model of a product of the vendor, if it is known.
pub open spec fn model_of(product_id: u16) -> Option<Model> {
    let found = if product_id == 0x083f {
        Some(("PLEX PX-W3U4", Kind::Px4(false)))
    } else if product_id == 0x023f {
        Some(("PLEX PX-W3PE4", Kind::Px4(false)))
    } else if product_id == 0x073f {
        Some(("PLEX PX-W3PE5", Kind::Px4(false)))
    } else if product_id == 0x084a {
        Some(("PLEX PX-Q3U4", Kind::Px4(true)))
    } else if product_id == 0x024a {
        Some(("PLEX PX-Q3PE4", Kind::Px4(true)))
    } else if product_id == 0x074a {
        Some(("PLEX PX-Q3PE5", Kind::Px4(true)))
    } else if product_id == 0x084e {
        Some(("PLEX PX-MLT5U", Kind::PxMlt(Layout::Mlt5U)))
    } else if product_id == 0x024e {
        Some(("PLEX PX-MLT5PE", Kind::PxMlt(Layout::Mlt5Pe)))
    } else if product_id == 0x924e {
        Some(("e-better DTV02A-5TS-P", Kind::PxMlt(Layout::Mlt5Pe)))
    } else if product_id == 0x0252 {
        Some(("PLEX PX-MLT8PE (3 tuners)", Kind::PxMlt(Layout::Mlt8Pe3)))
    } else if product_id == 0x0253 {
        Some(("PLEX PX-MLT8PE (5 tuners)", Kind::PxMlt(Layout::Mlt8Pe5)))
    } else if product_id == 0x0254 {
        Some(("Digibest ISDB6014 V2.0 (4TS)", Kind::PxMlt(Layout::Isdb6014)))
    } else if product_id == 0x0854 {
        Some(("PLEX PX-M1UR", Kind::Single(single::Model::M1ur)))
    } else if product_id == 0x0855 {
        Some(("PLEX PX-S1UR", Kind::Single(single::Model::S1ur)))
    } else if product_id == 0x004b {
        Some(("Digibest ISDB2056", Kind::Single(single::Model::Isdb2056)))
    } else if product_id == 0x084b {
        Some(("Digibest ISDB2056N", Kind::Single(single::Model::Isdb2056n)))
    } else if product_id == 0x0052 {
        Some(("Digibest ISDBT2071", Kind::Single(single::Model::Isdbt2071)))
    } else {
        None
    };
    match found {
        Some((name, kind)) => Some(Model { product_id, name, kind }),
        None => None,
    }
}

/// The model of a product of the vendor, if it is known.
pub fn model(product_id: u16) -> (r: Option<Model>)
    ensures
        r == model_of(product_id),
{
    let found: Option<(&'static str, Kind)> = match product_id {
        0x083f => Some(("PLEX PX-W3U4", Kind::Px4(false))),
        0x023f => Some(("PLEX PX-W3PE4", Kind::Px4(false))),
        0x073f => Some(("PLEX PX-W3PE5", Kind::Px4(false))),
        0x084a => Some(("PLEX PX-Q3U4", Kind::Px4(true))),
        0x024a => Some(("PLEX PX-Q3PE4", Kind::Px4(true))),
        0x074a => Some(("PLEX PX-Q3PE5", Kind::Px4(true))),
        0x084e => Some(("PLEX PX-MLT5U", Kind::PxMlt(Layout::Mlt5U))),
        0x024e => Some(("PLEX PX-MLT5PE", Kind::PxMlt(Layout::Mlt5Pe))),
        // A PX-MLT5PE but for the product id.
        0x924e => Some(("e-better DTV02A-5TS-P", Kind::PxMlt(Layout::Mlt5Pe))),
        0x0252 => Some(("PLEX PX-MLT8PE (3 tuners)", Kind::PxMlt(Layout::Mlt8Pe3))),
        0x0253 => Some(("PLEX PX-MLT8PE (5 tuners)", Kind::PxMlt(Layout::Mlt8Pe5))),
        0x0254 => Some(("Digibest ISDB6014 V2.0 (4TS)", Kind::PxMlt(Layout::Isdb6014))),
        0x0854 => Some(("PLEX PX-M1UR", Kind::Single(single::Model::M1ur))),
        0x0855 => Some(("PLEX PX-S1UR", Kind::Single(single::Model::S1ur))),
        0x004b => Some(("Digibest ISDB2056", Kind::Single(single::Model::Isdb2056))),
        0x084b => Some(("Digibest ISDB2056N", Kind::Single(single::Model::Isdb2056n))),
        0x0052 => Some(("Digibest ISDBT2071", Kind::Single(single::Model::Isdbt2071))),
        _ => None,
    };
    match found {
        Some((name, kind)) => Some(Model { product_id, name, kind }),
        None => None,
    }
}

impl Kind {
    /// What the tuners of a device of `boards` bridges receive.
    pub open spec fn tuners(self, boards: nat) -> Seq<Seq<System>> {
        match self {
            Kind::PxMlt(layout) => Seq::new(
                layout.table().len(),
                |i: int| seq![System::IsdbT, System::IsdbS],
            ),
            Kind::Px4(_) => Seq::new(
                boards * 4,
                |i: int|
                    if i % 4 < 2 {
                        seq![System::IsdbS]
                    } else {
                        seq![System::IsdbT]
                    },
            ),
            Kind::Single(model) => seq![
                if model.satellite() {
                    seq![System::IsdbT, System::IsdbS]
                } else {
                    seq![System::IsdbT]
                },
            ],
        }
    }

    /// What the tuners of a device of `boards` bridges receive.
    pub fn systems(self, boards: usize) -> (r: Vec<Vec<System>>)
        requires
            boards * 4 <= usize::MAX,
        ensures
            r@.map(|i: int, s: Vec<System>| s@) == self.tuners(boards as nat),
    {
        let mut list: Vec<Vec<System>> = Vec::new();
        let n: usize = match self {
            Kind::PxMlt(layout) => layout.chips().len(),
            Kind::Px4(_) => boards * 4,
            Kind::Single(_) => 1,
        };
        let mut i: usize = 0;
        while i < n
            invariant
                i <= n,
                n == self.tuners(boards as nat).len(),
                list@.len() == i,
                forall|k: int|
                    0 <= k < i ==> (#[trigger] list@[k])@ == self.tuners(boards as nat)[k],
            decreases n - i,
        {
            let (t, s): (bool, bool) = match self {
                Kind::PxMlt(_) => (true, true),
                Kind::Px4(_) => (i % 4 >= 2, i % 4 < 2),
                Kind::Single(model) => (
                    true,
                    model == single::Model::M1ur || model == single::Model::Isdb2056 || model
                        == single::Model::Isdb2056n,
                ),
            };
            let mut systems: Vec<System> = Vec::new();
            if t {
                systems.push(System::IsdbT);
            }
            if s {
                systems.push(System::IsdbS);
            }
            assert(systems@ =~= self.tuners(boards as nat)[i as int]);
            list.push(systems);
            i = i + 1;
        }
        assert(list@.map(|i: int, s: Vec<System>| s@) =~= self.tuners(boards as nat));
        list
    }
}

/// The driver of the models known here.
pub struct Px4Driver;

pub fn driver() -> (r: Px4Driver)
    ensures
        r == Px4Driver,
{
    Px4Driver
}

/// A USB device.
#[derive(Clone, Debug)]
pub struct UsbInfo {
    pub vendor_id: u16,
    pub product_id: u16,
    pub serial: Option<String>,
    /// The bus and the chain of hub ports from it, `9-1.2` for instance.
    pub port_path: String,
    /// `bcdUSB`, 0x0200 for USB 2.0.
    pub usb_version: u16,
    /// Its place in the list of all USB devices.
    pub place: usize,
}

/// What a [`UsbInfo`] is.
pub struct UsbView {
    pub vendor_id: u16,
    pub product_id: u16,
    pub serial: Option<Seq<char>>,
    pub port_path: Seq<char>,
    pub usb_version: u16,
    pub place: usize,
}

impl View for UsbInfo {
    type V = UsbView;

    open spec fn view(&self) -> UsbView {
        UsbView {
            vendor_id: self.vendor_id,
            product_id: self.product_id,
            serial: match self.serial {
                Some(s) => Some(s@),
                None => None,
            },
            port_path: self.port_path@,
            usb_version: self.usb_version,
            place: self.place,
        }
    }
}

/// What USB devices are.
pub open spec fn usb_views(usbs: Seq<UsbInfo>) -> Seq<UsbView> {
    usbs.map(|i: int, u: UsbInfo| u@)
}

impl UsbView {
    /// The model, if it is one known here.
    pub open spec fn model(self) -> Option<Model> {
        if self.vendor_id == VENDOR_ID {
            model_of(self.product_id)
        } else {
            None
        }
    }

    /// The serial number, or else where the device is plugged in.
    pub open spec fn name(self) -> Seq<char> {
        match self.serial {
            Some(serial) => serial,
            None => self.port_path,
        }
    }

    /// Whether the device is a board of a Q model, whose serial number is that of
    /// the card and a digit.
    pub open spec fn is_half(self) -> bool {
        &&& self.model() matches Some(model)
        &&& model.kind == Kind::Px4(true)
        &&& vstd::utf8::encode_utf8(self.name()).len() == 15
    }

    /// Whether the serial number of a board ends in a digit to leave out.
    pub open spec fn splits(self) -> bool {
        self.is_half() ==> self.name().len() > 0 && (self.name().last() as nat) < 0x80
    }

    /// The id of the device this is of.
    pub open spec fn id(self) -> Seq<char> {
        "px4:"@ + if self.is_half() {
            self.name().drop_last()
        } else {
            self.name()
        }
    }
}

/// Whether a serial number goes before another; none goes before all.
pub open spec fn serial_before(a: Option<Seq<char>>, b: Option<Seq<char>>) -> bool {
    match (a, b) {
        (None, Some(_)) => true,
        (Some(a), Some(b)) => text::before(a, b),
        (_, None) => false,
    }
}

/// The order of bridges: by their serial numbers.
pub open spec fn by_serial() -> spec_fn(UsbView, UsbView) -> bool {
    |a: UsbView, b: UsbView| serial_before(a.serial, b.serial)
}

/// Bridges in the order of their serial numbers, with one more.
pub open spec fn inserted(usbs: Seq<UsbView>, usb: UsbView) -> Seq<UsbView> {
    lists::inserted(usbs, usb, by_serial())
}

/// A device as the driver sees it: the USB devices of its bridges.
pub struct Found {
    pub usbs: Vec<UsbInfo>,
    pub model: Model,
    pub info: DeviceInfo,
}

/// What a [`Found`] is.
#[verifier::ext_equal]
pub struct FoundView {
    pub usbs: Seq<UsbView>,
    pub model: Model,
    pub id: Seq<char>,
    pub name: Seq<char>,
}

impl View for Found {
    type V = FoundView;

    open spec fn view(&self) -> FoundView {
        FoundView {
            usbs: usb_views(self.usbs@),
            model: self.model,
            id: self.info.id@,
            name: self.info.name@,
        }
    }
}

/// What devices found are.
pub open spec fn found_views(found: Seq<Found>) -> Seq<FoundView> {
    found.map(|i: int, f: Found| f@)
}

/// The place of the device of an id, or the length for none.
pub open spec fn place(found: Seq<FoundView>, id: Seq<char>) -> int
    decreases found.len(),
{
    if found.len() == 0 {
        0
    } else if found[0].id == id {
        0
    } else {
        1 + place(found.skip(1), id)
    }
}

/// The devices with one more USB device, which is of the device of its id.
pub open spec fn with_usb(found: Seq<FoundView>, usb: UsbView) -> Seq<FoundView> {
    match usb.model() {
        None => found,
        Some(model) => {
            let i = place(found, usb.id());
            if i < found.len() {
                found.update(i, FoundView { usbs: inserted(found[i].usbs, usb), ..found[i] })
            } else {
                found.push(
                    FoundView { usbs: seq![usb], model, id: usb.id(), name: model.name@ },
                )
            }
        },
    }
}

/// The devices USB devices make up.
pub open spec fn scanned(usbs: Seq<UsbView>) -> Seq<FoundView>
    decreases usbs.len(),
{
    if usbs.len() == 0 {
        Seq::empty()
    } else {
        with_usb(scanned(usbs.drop_last()), usbs.last())
    }
}

fn serial_goes_before(a: &Option<String>, b: &Option<String>) -> (r: bool)
    ensures
        r == serial_before(
            match *a {
                Some(s) => Some(s@),
                None => None,
            },
            match *b {
                Some(s) => Some(s@),
                None => None,
            },
        ),
{
    match (a, b) {
        (None, Some(_)) => true,
        (Some(a), Some(b)) => goes_before(a.as_str(), b.as_str()),
        (_, None) => false,
    }
}

fn insert(usbs: &mut Vec<UsbInfo>, usb: UsbInfo)
    ensures
        usb_views(final(usbs)@) == inserted(usb_views(old(usbs)@), usb@),
{
    let ghost s = usb_views(usbs@);
    let mut k: usize = usbs.len();
    assert(s.take(k as int) =~= s);
    assert(inserted(s.take(k as int), usb@) + s.skip(k as int) =~= inserted(s, usb@));
    while k > 0 && serial_goes_before(&usb.serial, &usbs[k - 1].serial)
        invariant
            k <= usbs@.len(),
            s == usb_views(usbs@),
            inserted(s.take(k as int), usb@) + s.skip(k as int) == inserted(s, usb@),
        ensures
            k == 0 || !serial_before(usb@.serial, usbs@[k - 1]@.serial),
        decreases k,
    {
        proof {
            assert(s.take(k as int).last() == usbs@[k - 1]@);
            assert(s.take(k as int).drop_last() =~= s.take(k - 1));
            assert(inserted(s.take(k - 1), usb@) + s.skip(k - 1) =~= inserted(
                s.take(k as int),
                usb@,
            ) + s.skip(k as int));
        }
        k = k - 1;
    }
    proof {
        if k > 0 {
            assert(s.take(k as int).last() == usbs@[k - 1]@);
        }
        assert(inserted(s.take(k as int), usb@) == s.take(k as int).push(usb@));
        assert(inserted(s, usb@) =~= s.insert(k as int, usb@));
    }
    let ghost x = usb@;
    usbs.insert(k, usb);
    assert(usb_views(usbs@) =~= s.insert(k as int, x));
}

impl UsbInfo {
    /// Whether the serial number of a board ends in a digit to leave out, which is
    /// to hold of the devices scanned.
    pub fn serial_splits(&self) -> (r: bool)
        ensures
            r == self@.splits(),
    {
        if !self.half() {
            return true;
        }
        let name: &str = self.label();
        let n: usize = name.unicode_len();
        n > 0 && (name.get_char(n - 1) as u32) < 0x80
    }

    fn label(&self) -> (r: &str)
        ensures
            r@ == self@.name(),
    {
        match &self.serial {
            Some(serial) => serial.as_str(),
            None => self.port_path.as_str(),
        }
    }

    fn known(&self) -> (r: Option<Model>)
        ensures
            r == self@.model(),
    {
        if self.vendor_id == VENDOR_ID {
            model(self.product_id)
        } else {
            None
        }
    }

    fn half(&self) -> (r: bool)
        ensures
            r == self@.is_half(),
    {
        match self.known() {
            Some(model) => model.kind == Kind::Px4(true) && bytes_of(self.label()) == 15,
            None => false,
        }
    }

    fn device_id(&self) -> (r: String)
        requires
            self@.splits(),
        ensures
            r@ == self@.id(),
    {
        let name: &str = self.label();
        if self.half() {
            let n: usize = name.unicode_len();
            let card: &str = name.substring_char(0, n - 1);
            assert(card@ =~= name@.drop_last());
            "px4:".to_owned().concat(card)
        } else {
            "px4:".to_owned().concat(name)
        }
    }
}

fn bytes_of(s: &str) -> (r: usize)
    ensures
        r == vstd::utf8::encode_utf8(s@).len(),
{
    let bytes: &[u8] = s.as_bytes();
    bytes.len()
}

fn find(found: &Vec<Found>, id: &String) -> (r: usize)
    ensures
        r == place(found_views(found@), id@),
        r <= found@.len(),
{
    let ghost all = found_views(found@);
    let mut i: usize = 0;
    assert(all.skip(0) =~= all);
    while i < found.len()
        invariant
            i <= found@.len(),
            all == found_views(found@),
            place(all, id@) == i + place(all.skip(i as int), id@),
        decreases found@.len() - i,
    {
        assert(all.skip(i as int)[0] == found@[i as int]@);
        if found[i].info.id == *id {
            return i;
        }
        assert(all.skip(i as int).skip(1) =~= all.skip(i + 1));
        i = i + 1;
    }
    i
}

/// The devices of the models known here among all USB devices. The two boards of a
/// Q model share a serial number but for its last digit, 1 or 2, and make one
/// device.
pub fn scan(usbs: Vec<UsbInfo>) -> (r: Vec<Found>)
    requires
        forall|i: int| 0 <= i < usbs@.len() ==> (#[trigger] usbs@[i])@.splits(),
    ensures
        found_views(r@) == scanned(usb_views(usbs@)),
{
    let ghost all = usb_views(usbs@);
    let mut rest: Vec<UsbInfo> = usbs;
    let n: usize = rest.len();
    let mut found: Vec<Found> = Vec::new();
    let mut i: usize = 0;
    assert(found_views(found@) =~= scanned(all.take(0)));
    while i < n
        invariant
            i <= n,
            n == all.len(),
            rest@.len() == n - i,
            forall|k: int| 0 <= k < rest@.len() ==> (#[trigger] rest@[k])@ == all[i + k],
            forall|k: int| 0 <= k < rest@.len() ==> (#[trigger] rest@[k])@.splits(),
            found_views(found@) == scanned(all.take(i as int)),
        decreases n - i,
    {
        let ghost views = found_views(found@);
        let ghost queue = rest@;
        proof {
            assert(all.take(i + 1).drop_last() =~= all.take(i as int));
            assert(rest@[0]@ == all[i as int]);
            assert(all.take(i + 1).last() == all[i as int]);
        }
        let usb: UsbInfo = rest.remove(0);
        let ghost x = usb@;
        match usb.known() {
            None => {},
            Some(model) => {
                let id: String = usb.device_id();
                let at: usize = find(&found, &id);
                if at < found.len() {
                    assert(views[at as int] == found@[at as int]@);
                    insert(&mut found[at].usbs, usb);
                } else {
                    let mut list: Vec<UsbInfo> = Vec::new();
                    list.push(usb);
                    assert(usb_views(list@) =~= seq![x]);
                    let name: String = model.name.to_owned();
                    found.push(Found { usbs: list, model, info: DeviceInfo { id, name } });
                }
            },
        }
        proof {
            assert(found_views(found@) =~= with_usb(views, x));
            assert forall|k: int| 0 <= k < rest@.len() implies (#[trigger] rest@[k])@ == all[i + 1
                + k] && rest@[k]@.splits() by {
                assert(rest@[k] == queue[k + 1]);
            }
        }
        i = i + 1;
    }
    assert(all.take(n as int) =~= all);
    found
}

proof fn place_is_one(found: Seq<FoundView>, id: Seq<char>)
    ensures
        0 <= place(found, id) <= found.len(),
        place(found, id) < found.len() ==> found[place(found, id)].id == id,
        forall|i: int| 0 <= i < place(found, id) ==> (#[trigger] found[i]).id != id,
    decreases found.len(),
{
    if found.len() > 0 && found[0].id != id {
        place_is_one(found.skip(1), id);
        assert forall|i: int| 0 <= i < place(found, id) implies (#[trigger] found[i]).id != id by {
            if i > 0 {
                assert(found[i] == found.skip(1)[i - 1]);
            }
        }
    }
}

/// No two devices found have the same id, and all the bridges of a device have its
/// id.
pub proof fn scanning_sorts_out(usbs: Seq<UsbView>)
    ensures
        forall|i: int, j: int|
            0 <= i < j < scanned(usbs).len() ==> (#[trigger] scanned(usbs)[i]).id != (
            #[trigger] scanned(usbs)[j]).id,
        forall|i: int, k: int|
            0 <= i < scanned(usbs).len() && 0 <= k < scanned(usbs)[i].usbs.len()
                ==> #[trigger] scanned(usbs)[i].usbs[k].id() == scanned(usbs)[i].id,
    decreases usbs.len(),
{
    if usbs.len() > 0 {
        let usb = usbs.last();
        let less = scanned(usbs.drop_last());
        let all = scanned(usbs);
        scanning_sorts_out(usbs.drop_last());
        if usb.model() is Some {
            place_is_one(less, usb.id());
            let p = place(less, usb.id());
            assert forall|i: int, j: int| 0 <= i < j < all.len() implies (#[trigger] all[i]).id != (
            #[trigger] all[j]).id by {
                if j < less.len() {
                    assert(less[i].id != less[j].id);
                } else {
                    assert(less[i].id != usb.id());
                }
            }
            assert forall|i: int, k: int|
                0 <= i < all.len() && 0 <= k < all[i].usbs.len() implies #[trigger] all[i].usbs[k].id()
                == all[i].id by {
                if i == p {
                    if p < less.len() {
                        assert forall|m: int| 0 <= m < less[p].usbs.len() implies (
                        #[trigger] less[p].usbs[m]).id() == usb.id() by {
                            assert(less[p].usbs[m].id() == less[p].id);
                        }
                        inserted_ids(less[p].usbs, usb, usb.id());
                    }
                } else {
                    assert(all[i] == less[i]);
                    assert(less[i].usbs[k].id() == less[i].id);
                }
            }
        }
    }
}

proof fn inserted_ids(usbs: Seq<UsbView>, usb: UsbView, id: Seq<char>)
    requires
        usb.id() == id,
        forall|k: int| 0 <= k < usbs.len() ==> (#[trigger] usbs[k]).id() == id,
    ensures
        forall|k: int|
            0 <= k < inserted(usbs, usb).len() ==> (#[trigger] inserted(usbs, usb)[k]).id() == id,
    decreases usbs.len(),
{
    if !(usbs.len() == 0 || !serial_before(usb.serial, usbs.last().serial)) {
        let rest = usbs.drop_last();
        assert forall|k: int| 0 <= k < rest.len() implies (#[trigger] rest[k]).id() == id by {
            assert(rest[k] == usbs[k]);
        }
        inserted_ids(rest, usb, id);
        assert forall|k: int| 0 <= k < inserted(usbs, usb).len() implies (
        #[trigger] inserted(usbs, usb)[k]).id() == id by {
            if k < inserted(rest, usb).len() {
                assert(inserted(usbs, usb)[k] == inserted(rest, usb)[k]);
            } else {
                assert(inserted(usbs, usb)[k] == usbs.last());
                assert(usbs[usbs.len() - 1].id() == id);
            }
        }
    }
}

proof fn serials_order()
    ensures
        lists::is_order(by_serial()),
{
    let earlier = by_serial();
    assert forall|a: UsbView, b: UsbView| #[trigger] earlier(a, b) implies !earlier(b, a) by {
        if a.serial is Some && b.serial is Some {
            text::one_goes_first(a.serial->0, b.serial->0, false);
        }
    }
    assert forall|a: UsbView, b: UsbView, c: UsbView|
        #![trigger earlier(b, a), earlier(c, b)]
        !earlier(b, a) && !earlier(c, b) implies !earlier(c, a) by {
        if a.serial is Some && b.serial is Some && c.serial is Some {
            let (x, y, z) = (a.serial->0, b.serial->0, c.serial->0);
            text::one_goes_first(x, y, false);
            text::one_goes_first(y, z, false);
            text::one_goes_first(x, z, false);
            if text::before(x, y) && text::before(y, z) {
                text::first_goes_on(x, y, z, false);
            }
        }
    }
}

/// The bridges of a device found are in the order of their serial numbers.
pub proof fn bridges_come_in_order(usbs: Seq<UsbView>, i: int)
    requires
        0 <= i < scanned(usbs).len(),
    ensures
        lists::in_order(scanned(usbs)[i].usbs, by_serial()),
    decreases usbs.len(),
{
    if usbs.len() > 0 {
        let usb = usbs.last();
        let less = scanned(usbs.drop_last());
        if i < less.len() {
            bridges_come_in_order(usbs.drop_last(), i);
            serials_order();
            lists::inserting_orders(less[i].usbs, usb, by_serial(), usb);
        }
        if usb.model() is Some {
            place_is_one(less, usb.id());
        }
    }
}

/// The two boards of a Q model make one device, the one whose serial number goes
/// before the other's first.
pub proof fn boards_make_one_device(a: UsbView, b: UsbView)
    requires
        a.is_half(),
        b.is_half(),
        a.splits(),
        b.splits(),
        a.name().drop_last() == b.name().drop_last(),
    ensures
        scanned(seq![a, b]).len() == 1,
        scanned(seq![a, b])[0].id == "px4:"@ + a.name().drop_last(),
        scanned(seq![a, b])[0].usbs == if serial_before(b.serial, a.serial) {
            seq![b, a]
        } else {
            seq![a, b]
        },
{
    let both = seq![a, b];
    assert(both.drop_last() =~= seq![a]);
    assert(seq![a].drop_last() =~= Seq::empty());
    reveal_with_fuel(scanned, 3);
    reveal_with_fuel(place, 2);
    reveal_with_fuel(lists::inserted, 2);
    assert(a.id() == b.id());
    let one = scanned(seq![a]);
    assert(one.len() == 1);
    assert(one[0].usbs == seq![a]);
    assert(place(one, b.id()) == 0);
    let two = scanned(both);
    assert(two[0].usbs == inserted(seq![a], b));
    assert(inserted(Seq::<UsbView>::empty(), b) =~= seq![b]);
    if serial_before(b.serial, a.serial) {
        assert(inserted(seq![a], b) =~= seq![b, a]);
    } else {
        assert(inserted(seq![a], b) =~= seq![a, b]);
    }
}

/// Texts one after the other, with `between` between them.
pub open spec fn joined(texts: Seq<Seq<char>>, between: Seq<char>) -> Seq<char>
    decreases texts.len(),
{
    if texts.len() == 0 {
        Seq::empty()
    } else if texts.len() == 1 {
        texts[0]
    } else {
        joined(texts.drop_last(), between) + between + texts.last()
    }
}

/// The error for a firmware that is in none of the directories.
pub fn firmware_missing(dirs: &Vec<String>) -> (r: Error)
    ensures
        ({
            &&& r matches Error::Io(io)
            &&& io.kind == ErrorKind::NotFound
            &&& io.detail matches Detail::Owned(words)
            &&& words@ == FIRMWARE@ + " not found in "@ + joined(
                dirs@.map(|i: int, d: String| d@),
                ", "@,
            )
        }),
{
    let ghost all = dirs@.map(|i: int, d: String| d@);
    let mut list: String = String::new();
    let mut i: usize = 0;
    assert(list@ =~= joined(all.take(0), ", "@));
    while i < dirs.len()
        invariant
            i <= dirs@.len(),
            all == dirs@.map(|i: int, d: String| d@),
            list@ == joined(all.take(i as int), ", "@),
        decreases dirs@.len() - i,
    {
        proof {
            assert(all.take(i + 1).drop_last() =~= all.take(i as int));
            assert(all.take(i + 1).last() == dirs@[i as int]@);
        }
        if i > 0 {
            list.append(", ");
        }
        list.append(dirs[i].as_str());
        assert(list@ =~= joined(all.take(i + 1), ", "@));
        i = i + 1;
    }
    assert(all.take(i as int) =~= all);
    let words: String = FIRMWARE.to_owned().concat(" not found in ").concat(list.as_str());
    Error::Io(IoError { kind: ErrorKind::NotFound, detail: Detail::Owned(words) })
}

/// The ports from a bus to a device, in decimal.
pub open spec fn ports(chain: Seq<u8>) -> Seq<Seq<char>> {
    chain.map(|i: int, p: u8| text::decimal(p as nat))
}

/// Where a device is plugged in: the bus, and the chain of hub ports from it.
pub fn port_path(bus: &str, chain: &[u8]) -> (r: String)
    ensures
        r@ == bus@ + "-"@ + joined(ports(chain@), "."@),
{
    let ghost all = ports(chain@);
    let mut list: String = String::new();
    let mut i: usize = 0;
    assert(list@ =~= joined(all.take(0), "."@));
    while i < chain.len()
        invariant
            i <= chain@.len(),
            all == ports(chain@),
            list@ == joined(all.take(i as int), "."@),
        decreases chain@.len() - i,
    {
        proof {
            assert(all.take(i + 1).drop_last() =~= all.take(i as int));
            assert(all.take(i + 1).last() == text::decimal(chain@[i as int] as nat));
        }
        if i > 0 {
            list.append(".");
        }
        push_decimal(&mut list, chain[i] as u64);
        assert(list@ =~= joined(all.take(i + 1), "."@));
        i = i + 1;
    }
    assert(all.take(i as int) =~= all);
    bus.to_owned().concat("-").concat(list.as_str())
}

} // verus!
