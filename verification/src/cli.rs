//! What the command line asks for.

use vstd::prelude::*;

use crate::types::{Polarization, StreamId, System, TuneParams, TunerInfo};

verus! {

/// What to tune to, and for how long.
pub struct TuneArgs {
    pub system: System,
    /// The frequency on air in kHz; for a satellite, before the LNB converts it.
    pub freq: u32,
    /// The TSID for ISDB-S, the TLV stream id for ISDB-S3.
    pub stream_id: Option<u16>,
    pub polarization: Option<Polarization>,
    /// Stops after this many seconds.
    pub duration: Option<u64>,
}

impl TuneArgs {
    /// What to tune to.
    pub fn params(&self) -> (r: TuneParams)
        ensures
            r == (TuneParams {
                system: self.system,
                frequency_khz: self.freq,
                stream_id: match self.stream_id {
                    Some(id) => Some(StreamId(id)),
                    None => None,
                },
                polarization: self.polarization,
            }),
    {
        TuneParams {
            system: self.system,
            frequency_khz: self.freq,
            stream_id: match self.stream_id {
                Some(id) => Some(StreamId(id)),
                None => None,
            },
            polarization: self.polarization,
        }
    }

    /// When to stop, `now` being the time in seconds.
    pub fn deadline(&self, now: u64) -> (r: Option<u64>)
        requires
            self.duration matches Some(secs) ==> now + secs <= u64::MAX,
        ensures
            match self.duration {
                Some(secs) => r matches Some(at) && at == now + secs,
                None => r is None,
            },
    {
        match self.duration {
            Some(secs) => Some(now + secs),
            None => None,
        }
    }
}

/// What to do about a tuner when devices are opened directly.
#[derive(Clone, Copy, Debug, PartialEq, Eq, Structural)]
pub enum Choice {
    /// Open it; it is the one.
    Open,
    /// Open it; if that fails, another may do.
    Try,
    Pass,
}

/// What to do about a tuner: the one asked for is opened, or else the first free one
/// receiving the system.
pub fn choose_tuner(
    asked: &Option<String>,
    system: System,
    id: &String,
    systems: &Vec<System>,
) -> (r: Choice)
    ensures
        r == match *asked {
            Some(wanted) => if wanted@ == id@ {
                Choice::Open
            } else {
                Choice::Pass
            },
            None => if systems@.contains(system) {
                Choice::Try
            } else {
                Choice::Pass
            },
        },
{
    match asked {
        Some(wanted) => {
            if *wanted == *id {
                return Choice::Open;
            }
            return Choice::Pass;
        },
        None => {},
    }
    let mut i: usize = 0;
    while i < systems.len()
        invariant
            i <= systems@.len(),
            *asked is None,
            forall|k: int| 0 <= k < i ==> systems@[k] != system,
        decreases systems@.len() - i,
    {
        if systems[i] == system {
            assert(systems@[i as int] == system);
            return Choice::Try;
        }
        i = i + 1;
    }
    Choice::Pass
}

/// A tuner of a device, as its [`TunerInfo`] tells of it.
#[verifier::ext_equal]
pub struct Receiver {
    pub id: Seq<char>,
    pub systems: Seq<System>,
}

/// What tuners are.
pub open spec fn receivers(tuners: Seq<TunerInfo>) -> Seq<Receiver> {
    tuners.map(|i: int, t: TunerInfo| Receiver { id: t.id@, systems: t.systems@ })
}

/// What to do about a tuner.
pub open spec fn choice(asked: Option<Seq<char>>, system: System, tuner: Receiver) -> Choice {
    match asked {
        Some(wanted) => if wanted == tuner.id {
            Choice::Open
        } else {
            Choice::Pass
        },
        None => if tuner.systems.contains(system) {
            Choice::Try
        } else {
            Choice::Pass
        },
    }
}

/// The search for the tuner to open when devices are opened directly, one device after
/// the other.
pub struct Search {
    /// The id of the tuner asked for; any will do if there is none.
    pub asked: Option<String>,
    pub system: System,
    /// How many devices there are.
    pub devices: usize,
    /// The device at hand.
    pub device: usize,
    /// The tuners of the device at hand, once it is open.
    pub tuners: Vec<TunerInfo>,
    /// The tuner last to be opened.
    pub tuner: usize,
}

/// What a [`Search`] is at.
#[verifier::ext_equal]
pub struct SearchView {
    pub asked: Option<Seq<char>>,
    pub system: System,
    pub devices: int,
    pub device: int,
    pub tuners: Seq<Receiver>,
    pub tuner: int,
}

impl View for Search {
    type V = SearchView;

    open spec fn view(&self) -> SearchView {
        SearchView {
            asked: match self.asked {
                Some(id) => Some(id@),
                None => None,
            },
            system: self.system,
            devices: self.devices as int,
            device: self.device as int,
            tuners: receivers(self.tuners@),
            tuner: self.tuner as int,
        }
    }
}

/// What a search is to do next.
#[derive(Clone, Copy, Debug, PartialEq, Eq, Structural)]
pub enum Attempt {
    /// Open the device.
    Device(usize),
    /// Open the tuner of the device at hand.
    Tuner(usize),
    /// Tell the error just met.
    Tell,
    /// Tell that there is none to open.
    NoneLeft,
}

/// The next device is up.
pub open spec fn onward(s: SearchView) -> (SearchView, Attempt) {
    if s.device + 1 < s.devices {
        (
            SearchView { device: s.device + 1, tuners: Seq::empty(), tuner: 0, ..s },
            Attempt::Device((s.device + 1) as usize),
        )
    } else {
        (s, Attempt::NoneLeft)
    }
}

/// The first tuner of the device at hand to be opened, from `from` on.
pub open spec fn first_choice(s: SearchView, from: int) -> Option<int>
    decreases s.tuners.len() - from,
{
    if from < 0 || from >= s.tuners.len() {
        None
    } else if choice(s.asked, s.system, s.tuners[from]) != Choice::Pass {
        Some(from)
    } else {
        first_choice(s, from + 1)
    }
}

/// The tuners of the device at hand are gone through from `from` on, then the next
/// device is up.
pub open spec fn looked(s: SearchView, from: int) -> (SearchView, Attempt) {
    match first_choice(s, from) {
        Some(i) => (SearchView { tuner: i, ..s }, Attempt::Tuner(i as usize)),
        None => onward(s),
    }
}

/// A device could not be opened: it is passed over, unless a certain tuner was asked
/// for.
pub open spec fn device_lost(s: SearchView) -> (SearchView, Attempt) {
    if s.asked is Some {
        (s, Attempt::Tell)
    } else {
        onward(s)
    }
}

/// A device was opened.
pub open spec fn device_found(s: SearchView, tuners: Seq<Receiver>) -> (SearchView, Attempt) {
    looked(SearchView { tuners, tuner: 0, ..s }, 0)
}

/// A tuner could not be opened: it is passed over, unless it was asked for.
pub open spec fn tuner_lost(s: SearchView) -> (SearchView, Attempt) {
    if s.asked is Some {
        (s, Attempt::Tell)
    } else {
        looked(s, s.tuner + 1)
    }
}

/// A search that has not begun.
pub open spec fn search_begun(asked: Option<Seq<char>>, system: System, devices: int) -> (
    SearchView,
    Attempt,
) {
    (
        SearchView { asked, system, devices, device: 0, tuners: Seq::empty(), tuner: 0 },
        if devices > 0 {
            Attempt::Device(0)
        } else {
            Attempt::NoneLeft
        },
    )
}

impl Search {
    /// A search through so many devices, and what it is to do first.
    pub fn begin(asked: Option<String>, system: System, devices: usize) -> (r: (Search, Attempt))
        ensures
            (r.0@, r.1) == search_begun(
                match asked {
                    Some(id) => Some(id@),
                    None => None,
                },
                system,
                devices as int,
            ),
    {
        let search: Search = Search {
            asked,
            system,
            devices,
            device: 0,
            tuners: Vec::new(),
            tuner: 0,
        };
        assert(receivers(search.tuners@) =~= Seq::empty());
        (search, if devices > 0 { Attempt::Device(0) } else { Attempt::NoneLeft })
    }

    fn go_on(&mut self) -> (r: Attempt)
        ensures
            (final(self)@, r) == onward(old(self)@),
    {
        if self.devices > 0 && self.device < self.devices - 1 {
            self.device = self.device + 1;
            self.tuners = Vec::new();
            self.tuner = 0;
            assert(receivers(self.tuners@) =~= Seq::empty());
            Attempt::Device(self.device)
        } else {
            Attempt::NoneLeft
        }
    }

    fn look(&mut self, from: usize) -> (r: Attempt)
        ensures
            (final(self)@, r) == looked(old(self)@, from as int),
    {
        let ghost s = self@;
        let n: usize = self.tuners.len();
        let mut i: usize = from;
        while i < n
            invariant
                self@ == s,
                n == self.tuners@.len(),
                s == old(self)@,
                first_choice(s, i as int) == first_choice(s, from as int),
            decreases n - i,
        {
            assert(s.tuners[i as int] == Receiver {
                id: self.tuners@[i as int].id@,
                systems: self.tuners@[i as int].systems@,
            });
            let found: Choice = choose_tuner(
                &self.asked,
                self.system,
                &self.tuners[i].id,
                &self.tuners[i].systems,
            );
            if found != Choice::Pass {
                self.tuner = i;
                return Attempt::Tuner(i);
            }
            i = i + 1;
        }
        self.go_on()
    }

    /// Takes note that the device at hand could not be opened.
    pub fn device_failed(&mut self) -> (r: Attempt)
        ensures
            (final(self)@, r) == device_lost(old(self)@),
    {
        if self.asked.is_some() {
            return Attempt::Tell;
        }
        self.go_on()
    }

    /// Takes note that the device at hand was opened.
    pub fn device_opened(&mut self, tuners: Vec<TunerInfo>) -> (r: Attempt)
        ensures
            (final(self)@, r) == device_found(old(self)@, receivers(tuners@)),
    {
        self.tuners = tuners;
        self.tuner = 0;
        self.look(0)
    }

    /// Takes note that the tuner last to be opened could not be.
    pub fn tuner_failed(&mut self) -> (r: Attempt)
        requires
            old(self)@.tuner < old(self)@.tuners.len(),
        ensures
            (final(self)@, r) == tuner_lost(old(self)@),
    {
        if self.asked.is_some() {
            return Attempt::Tell;
        }
        let n: usize = self.tuners.len();
        assert(self.tuner < n);
        self.look(self.tuner + 1)
    }
}

/// What opening a device would come to: `None` if it cannot be opened, else its tuners
/// and whether each can be.
pub type Answer = Option<Seq<(Receiver, bool)>>;

/// How a search ends.
pub enum End {
    /// With a tuner of a device.
    Opened(int, int),
    /// With an error.
    Told,
    NoneLeft,
}

/// How a search ends that is to do `next`, by what opening each device would come to.
pub open spec fn end_of(s: SearchView, next: Attempt, answers: Seq<Answer>) -> End
    decreases
            s.devices - s.device,
            (if next is Device {
                2int
            } else if next is Tuner {
                1
            } else {
                0
            }),
            s.tuners.len() - s.tuner,
{
    proof {
        choice_is_first(s, s.tuner + 1);
    }
    match next {
        Attempt::Tell => End::Told,
        Attempt::NoneLeft => End::NoneLeft,
        Attempt::Device(d) => if s.device >= s.devices || d != s.device || s.device < 0 {
            End::NoneLeft
        } else {
            match answers[s.device] {
                None => {
                    let (s1, n1) = device_lost(s);
                    end_of(s1, n1, answers)
                },
                Some(found) => {
                    let (s1, n1) = device_found(s, found.map(|i: int, t: (Receiver, bool)| t.0));
                    end_of(s1, n1, answers)
                },
            }
        },
        Attempt::Tuner(i) => if s.device >= s.devices || i != s.tuner || s.tuner
            >= s.tuners.len() || s.device < 0 {
            End::NoneLeft
        } else if answers[s.device]->0[s.tuner].1 {
            End::Opened(s.device, s.tuner)
        } else {
            let (s1, n1) = tuner_lost(s);
            end_of(s1, n1, answers)
        },
    }
}

/// The first tuner to be opened is one, and those before it are not.
pub proof fn choice_is_first(s: SearchView, from: int)
    ensures
        match first_choice(s, from) {
            Some(i) => {
                &&& from <= i < s.tuners.len()
                &&& choice(s.asked, s.system, s.tuners[i]) != Choice::Pass
                &&& forall|k: int|
                    from <= k < i ==> choice(s.asked, s.system, #[trigger] s.tuners[k])
                        == Choice::Pass
            },
            None => forall|k: int|
                0 <= from <= k < s.tuners.len() ==> choice(
                    s.asked,
                    s.system,
                    #[trigger] s.tuners[k],
                ) == Choice::Pass,
        },
    decreases s.tuners.len() - from,
{
    if 0 <= from < s.tuners.len() && choice(s.asked, s.system, s.tuners[from]) == Choice::Pass {
        choice_is_first(s, from + 1);
    }
}

/// Whether a tuner of a device would be opened: the device can be, the tuner receives
/// the system and can be too.
pub open spec fn would_serve(answers: Seq<Answer>, system: System, d: int, i: int) -> bool {
    &&& 0 <= d < answers.len()
    &&& answers[d] matches Some(found)
    &&& 0 <= i < found.len()
    &&& found[i].0.systems.contains(system)
    &&& found[i].1
}

/// Whether none before a tuner of a device would be opened.
pub open spec fn none_before(answers: Seq<Answer>, system: System, d: int, i: int) -> bool {
    forall|e: int, k: int|
        (e < d || (e == d && k < i)) ==> !#[trigger] would_serve(answers, system, e, k)
}

proof fn search_ends_with_the_first(s: SearchView, next: Attempt, answers: Seq<Answer>)
    requires
        s.asked is None,
        s.devices == answers.len(),
        answers.len() <= usize::MAX,
        0 <= s.device,
        next is Tell == false,
        next matches Attempt::Device(d) ==> d == s.device < s.devices && none_before(
            answers,
            s.system,
            s.device,
            0,
        ),
        next matches Attempt::Tuner(i) ==> {
            &&& i == s.tuner < s.tuners.len() <= usize::MAX
            &&& s.device < s.devices
            &&& answers[s.device] matches Some(found)
            &&& s.tuners == found.map(|i: int, t: (Receiver, bool)| t.0)
            &&& s.tuners[s.tuner].systems.contains(s.system)
            &&& none_before(answers, s.system, s.device, s.tuner)
        },
        next is NoneLeft ==> none_before(answers, s.system, s.devices, 0),
        forall|d: int|
            0 <= d < answers.len() ==> (#[trigger] answers[d] matches Some(found) ==> found.len()
                <= usize::MAX),
    ensures
        match end_of(s, next, answers) {
            End::Opened(d, i) => would_serve(answers, s.system, d, i) && none_before(
                answers,
                s.system,
                d,
                i,
            ),
            End::Told => false,
            End::NoneLeft => none_before(answers, s.system, s.devices, 0),
        },
    decreases
            s.devices - s.device,
            (if next is Device {
                2int
            } else if next is Tuner {
                1
            } else {
                0
            }),
            s.tuners.len() - s.tuner,
{
    match next {
        Attempt::Device(d) => match answers[s.device] {
            None => {
                let (s1, n1) = device_lost(s);
                search_ends_with_the_first(s1, n1, answers);
            },
            Some(found) => {
                let tuners = found.map(|i: int, t: (Receiver, bool)| t.0);
                let at = SearchView { tuners, tuner: 0, ..s };
                choice_is_first(at, 0);
                passed_over(at, 0, answers);
                let (s1, n1) = device_found(s, tuners);
                search_ends_with_the_first(s1, n1, answers);
            },
        },
        Attempt::Tuner(i) => if !(answers[s.device]->0[s.tuner].1) {
            choice_is_first(s, s.tuner + 1);
            passed_over(s, s.tuner + 1, answers);
            let (s1, n1) = tuner_lost(s);
            search_ends_with_the_first(s1, n1, answers);
        },
        _ => {},
    }
}

/// What is passed over among the tuners of the device at hand would not be opened.
proof fn passed_over(s: SearchView, from: int, answers: Seq<Answer>)
    requires
        s.asked is None,
        s.devices == answers.len(),
        0 <= s.device < s.devices,
        0 <= from,
        answers[s.device] matches Some(found) && s.tuners == found.map(
            |i: int, t: (Receiver, bool)| t.0,
        ),
        none_before(answers, s.system, s.device, from),
    ensures
        match first_choice(s, from) {
            Some(i) => none_before(answers, s.system, s.device, i),
            None => none_before(answers, s.system, s.device + 1, 0),
        },
{
    choice_is_first(s, from);
    let found = answers[s.device]->0;
    let end = match first_choice(s, from) {
        Some(i) => i,
        None => s.tuners.len() as int,
    };
    assert forall|k: int| from <= k < end implies !#[trigger] would_serve(
        answers,
        s.system,
        s.device,
        k,
    ) by {
        assert(s.tuners[k] == found[k].0);
        assert(choice(s.asked, s.system, s.tuners[k]) == Choice::Pass);
    }
    assert forall|e: int, k: int|
        (e < s.device || (e == s.device && k < end)) implies !#[trigger] would_serve(
        answers,
        s.system,
        e,
        k,
    ) by {}
    if first_choice(s, from) is None {
        assert forall|e: int, k: int|
            (e < s.device + 1 || (e == s.device + 1 && k < 0)) implies !#[trigger] would_serve(
            answers,
            s.system,
            e,
            k,
        ) by {}
    }
}

/// Where no certain tuner is asked for, the first that receives the system and can be
/// opened is, whatever devices and tuners before it cannot be, and no error ends the
/// search; it ends with none only if there is none.
pub proof fn first_to_open_is_opened(system: System, answers: Seq<Answer>)
    requires
        answers.len() <= usize::MAX,
        forall|d: int|
            0 <= d < answers.len() ==> (#[trigger] answers[d] matches Some(found) ==> found.len()
                <= usize::MAX),
    ensures
        ({
            let (s, next) = search_begun(None, system, answers.len() as int);
            match end_of(s, next, answers) {
                End::Opened(d, i) => would_serve(answers, system, d, i) && none_before(
                    answers,
                    system,
                    d,
                    i,
                ),
                End::Told => false,
                End::NoneLeft => forall|d: int, i: int| !would_serve(answers, system, d, i),
            }
        }),
{
    let (s, next) = search_begun(None, system, answers.len() as int);
    search_ends_with_the_first(s, next, answers);
    if none_before(answers, system, answers.len() as int, 0) {
        assert forall|d: int, i: int| !would_serve(answers, system, d, i) by {
            if would_serve(answers, system, d, i) {
                assert(d < answers.len());
            }
        }
    }
}

/// What is said when no tuner was opened.
pub fn none_opened(asked: &Option<String>, system: System) -> (r: String)
    ensures
        r@ == match *asked {
            Some(id) => "no such tuner: "@ + id@,
            None => "no free tuner receives "@ + system.name_text()@,
        },
{
    match asked {
        Some(id) => "no such tuner: ".to_owned().concat(id.as_str()),
        None => "no free tuner receives ".to_owned().concat(system.name()),
    }
}

} // verus!
