//! The devices of all the drivers, each given to one of them.

use vstd::prelude::*;

use crate::types::DeviceInfo;

verus! {

/// A device found among those the drivers report.
#[derive(Clone, Debug)]
pub struct Found {
    /// The driver it is given to, by its place in the order of priority.
    pub driver: usize,
    pub info: DeviceInfo,
}

/// What a [`Found`] says.
pub struct FoundView {
    pub driver: int,
    pub id: Seq<char>,
    pub name: Seq<char>,
}

impl View for Found {
    type V = FoundView;

    open spec fn view(&self) -> FoundView {
        FoundView { driver: self.driver as int, id: self.info.id@, name: self.info.name@ }
    }
}

/// What devices found say.
pub open spec fn views(found: Seq<Found>) -> Seq<FoundView> {
    found.map(|i: int, f: Found| f@)
}

/// Whether a device has the id.
pub open spec fn has_id(found: Seq<FoundView>, id: Seq<char>) -> bool {
    exists|i: int| 0 <= i < found.len() && (#[trigger] found[i]).id == id
}

/// The devices with the one added that driver `driver` reports, unless its id is
/// among them.
pub open spec fn with_one(found: Seq<FoundView>, driver: int, info: DeviceInfo) -> Seq<FoundView> {
    if has_id(found, info.id@) {
        found
    } else {
        found.push(FoundView { driver, id: info.id@, name: info.name@ })
    }
}

/// The devices with those added that driver `driver` reports, but for those whose
/// id is among them already.
pub open spec fn with_report(found: Seq<FoundView>, driver: int, infos: Seq<DeviceInfo>) -> Seq<
    FoundView,
>
    decreases infos.len(),
{
    if infos.len() == 0 {
        found
    } else {
        with_report(with_one(found, driver, infos[0]), driver, infos.skip(1))
    }
}

/// The devices of the reports of the drivers, in order of priority, from driver
/// `first` on.
pub open spec fn merged(found: Seq<FoundView>, first: int, reports: Seq<Seq<DeviceInfo>>) -> Seq<
    FoundView,
>
    decreases reports.len(),
{
    if reports.len() == 0 {
        found
    } else {
        merged(with_report(found, first, reports[0]), first + 1, reports.skip(1))
    }
}

fn known(found: &Vec<Found>, id: &String) -> (r: bool)
    ensures
        r == has_id(views(found@), id@),
{
    let mut i: usize = 0;
    while i < found.len()
        invariant
            i <= found@.len(),
            forall|k: int| 0 <= k < i ==> (#[trigger] views(found@)[k]).id != id@,
        decreases found@.len() - i,
    {
        assert(views(found@)[i as int] == found@[i as int]@);
        if found[i].info.id == *id {
            return true;
        }
        i = i + 1;
    }
    false
}

/// Adds what a driver reports to the devices found so far.
pub fn report(found: &mut Vec<Found>, driver: usize, infos: Vec<DeviceInfo>)
    ensures
        views(final(found)@) == with_report(views(old(found)@), driver as int, infos@),
{
    let ghost whole = with_report(views(found@), driver as int, infos@);
    let mut i: usize = 0;
    assert(infos@.skip(0) =~= infos@);
    while i < infos.len()
        invariant
            i <= infos@.len(),
            with_report(views(found@), driver as int, infos@.skip(i as int)) == whole,
        decreases infos@.len() - i,
    {
        let ghost before = views(found@);
        let info: DeviceInfo = DeviceInfo { id: infos[i].id.clone(), name: infos[i].name.clone() };
        if !known(found, &info.id) {
            found.push(Found { driver, info });
        }
        proof {
            assert(views(found@) =~= with_one(before, driver as int, infos@[i as int]));
            assert(infos@.skip(i as int)[0] == infos@[i as int]);
            assert(infos@.skip(i as int).skip(1) =~= infos@.skip(i + 1));
        }
        i = i + 1;
    }
}

/// Lists every device of the drivers, each given to the first that reports it.
pub fn merge(reports: Vec<Vec<DeviceInfo>>) -> (r: Vec<Found>)
    ensures
        views(r@) == merged(Seq::empty(), 0, reports@.map(|i: int, infos: Vec<DeviceInfo>| infos@)),
{
    let ghost all = reports@.map(|i: int, infos: Vec<DeviceInfo>| infos@);
    let mut reports: Vec<Vec<DeviceInfo>> = reports;
    let mut found: Vec<Found> = Vec::new();
    let mut driver: usize = 0;
    let n: usize = reports.len();
    assert(all.skip(0) =~= all);
    assert(views(found@) =~= Seq::empty());
    while driver < n
        invariant
            driver <= n,
            n == all.len(),
            reports@.len() == n - driver,
            forall|k: int| 0 <= k < reports@.len() ==> (#[trigger] reports@[k])@ == all[driver + k],
            merged(views(found@), driver as int, all.skip(driver as int)) == merged(
                Seq::empty(),
                0,
                all,
            ),
        decreases n - driver,
    {
        assert(reports@[0]@ == all[driver as int]);
        let ghost before = reports@;
        let infos: Vec<DeviceInfo> = reports.remove(0);
        report(&mut found, driver, infos);
        proof {
            assert(all.skip(driver as int)[0] == all[driver as int]);
            assert(all.skip(driver as int).skip(1) =~= all.skip(driver + 1));
            assert forall|k: int| 0 <= k < reports@.len() implies (#[trigger] reports@[k])@
                == all[driver + 1 + k] by {
                assert(reports@[k] == before[k + 1]);
            }
        }
        driver = driver + 1;
    }
    assert(all.skip(n as int) =~= Seq::empty());
    found
}

/// Whether no two devices have the same id.
pub open spec fn distinct(found: Seq<FoundView>) -> bool {
    forall|i: int, j: int|
        0 <= i < j < found.len() ==> (#[trigger] found[i]).id != (#[trigger] found[j]).id
}

/// What is found stays found, with the driver it was given to.
pub proof fn found_stays(found: Seq<FoundView>, driver: int, infos: Seq<DeviceInfo>)
    ensures
        found.is_prefix_of(with_report(found, driver, infos)),
        distinct(found) ==> distinct(with_report(found, driver, infos)),
    decreases infos.len(),
{
    if infos.len() > 0 {
        let next = with_one(found, driver, infos[0]);
        found_stays(next, driver, infos.skip(1));
        assert(found =~= next.subrange(0, found.len() as int));
        let all = with_report(next, driver, infos.skip(1));
        assert(found =~= all.subrange(0, found.len() as int));
    }
}

/// Every device a driver reports is found.
pub proof fn reported_is_found(found: Seq<FoundView>, driver: int, infos: Seq<DeviceInfo>, k: int)
    requires
        0 <= k < infos.len(),
    ensures
        has_id(with_report(found, driver, infos), infos[k].id@),
    decreases infos.len(),
{
    let next = with_one(found, driver, infos[0]);
    if k == 0 {
        let all = with_report(next, driver, infos.skip(1));
        found_stays(next, driver, infos.skip(1));
        if has_id(found, infos[0].id@) {
            let i = choose|i: int| 0 <= i < found.len() && (#[trigger] found[i]).id == infos[0].id@;
            assert(all[i] == found[i]);
        } else {
            assert(next[found.len() as int].id == infos[0].id@);
            assert(all[found.len() as int].id == infos[0].id@);
        }
    } else {
        assert(infos.skip(1)[k - 1] == infos[k]);
        reported_is_found(next, driver, infos.skip(1), k - 1);
    }
}

/// The devices of all the drivers have ids of their own, and each device goes to
/// the first driver that reports it: what one driver was given, the reports of
/// those after it leave alone.
pub proof fn first_driver_wins(found: Seq<FoundView>, first: int, reports: Seq<Seq<DeviceInfo>>)
    requires
        distinct(found),
    ensures
        distinct(merged(found, first, reports)),
        found.is_prefix_of(merged(found, first, reports)),
    decreases reports.len(),
{
    if reports.len() > 0 {
        let next = with_report(found, first, reports[0]);
        found_stays(found, first, reports[0]);
        first_driver_wins(next, first + 1, reports.skip(1));
        let all = merged(next, first + 1, reports.skip(1));
        assert(found =~= all.subrange(0, found.len() as int)) by {
            assert(found =~= next.subrange(0, found.len() as int));
            assert(next =~= all.subrange(0, next.len() as int));
        }
    } else {
        assert(found =~= found.subrange(0, found.len() as int));
    }
}

/// Every device of a driver is found once all have reported.
pub proof fn every_device_is_found(
    found: Seq<FoundView>,
    first: int,
    reports: Seq<Seq<DeviceInfo>>,
    driver: int,
    k: int,
)
    requires
        distinct(found),
        0 <= driver < reports.len(),
        0 <= k < reports[driver].len(),
    ensures
        has_id(merged(found, first, reports), reports[driver][k].id@),
    decreases reports.len(),
{
    let next = with_report(found, first, reports[0]);
    found_stays(found, first, reports[0]);
    let rest = reports.skip(1);
    if driver == 0 {
        reported_is_found(found, first, reports[0], k);
        first_driver_wins(next, first + 1, rest);
        let id = reports[0][k].id@;
        let i = choose|i: int| 0 <= i < next.len() && (#[trigger] next[i]).id == id;
        assert(merged(next, first + 1, rest)[i] == next[i]);
    } else {
        assert(rest[driver - 1] == reports[driver]);
        every_device_is_found(next, first + 1, rest, driver - 1, k);
    }
}

} // verus!
