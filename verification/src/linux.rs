//! The Linux lookup of the SSID, over nl80211.
//!
//! A lookup decides, step by step, which nl80211 request to make and what
//! the answer is; the caller performs each request (opening a generic
//! netlink socket, dumping the interfaces, dumping the scan results of one
//! interface) and reports back what came of it.
//!
//! - [`get_ssid`] looks at the wireless interfaces in the order the kernel
//!   lists them and answers with the SSID of the first one that is
//!   associated.
//! - [`get_ssid_for_interface`] looks only at the interface with the given
//!   name, and answers `None` when no listed interface has it.
use vstd::prelude::*;
use vstd::endian::{endianness, Endian};

use crate::attrs::Attr;
use crate::nl80211::{
    find_ifindex, find_interface, interface_list, interfaces_from_dump, scan_ssid,
    ssid_from_scan_dump,
};

verus! {

/// A step that the caller of a lookup has to perform.
#[derive(Debug, PartialEq, Eq)]
pub enum Action {
    /// Open a generic netlink socket and resolve the `nl80211` family.
    OpenSocket,
    /// Send `NL80211_CMD_GET_INTERFACE` with the dump flag and collect the
    /// replies.
    DumpInterfaces,
    /// Send `NL80211_CMD_GET_SCAN` with the dump flag for the interface with
    /// this index and collect the replies.
    DumpScan(u32),
    /// The lookup is over; this is its answer.
    Finish(Option<String>),
}

/// What came of the step a lookup asked for.
///
/// A dump is given as the attribute lists of its generic netlink messages in
/// the order they arrived; a dump whose request could not be built or sent
/// is an empty dump, and one cut short by a receive error holds the
/// messages received before the error.
#[derive(Debug)]
pub enum Event {
    /// The socket is open and the `nl80211` family resolved.
    SocketOpened,
    /// The socket could not be opened or the family not resolved.
    SocketUnavailable,
    /// The replies to `NL80211_CMD_GET_INTERFACE`.
    InterfaceDump(Vec<Vec<Attr>>),
    /// The replies to `NL80211_CMD_GET_SCAN`.
    ScanDump(Vec<Vec<Attr>>),
}

/// The model of an [`Action`].
pub enum ActionView {
    OpenSocket,
    DumpInterfaces,
    DumpScan(u32),
    Finish(Option<Seq<char>>),
}

/// The model of an [`Event`].
pub enum EventView {
    SocketOpened,
    SocketUnavailable,
    InterfaceDump(Seq<Seq<(u16, Seq<u8>)>>),
    ScanDump(Seq<Seq<(u16, Seq<u8>)>>),
}

/// How far a lookup has got.
pub enum StageView {
    /// Waiting for the socket.
    Opening,
    /// Waiting for the interface dump.
    Listing,
    /// Waiting for the scan dump of `candidates[next]`.
    Scanning { candidates: Seq<u32>, next: int },
    /// Over, with this answer.
    Done(Option<Seq<char>>),
    /// Over, with the answer `None`: the named interface is not among those
    /// that the kernel listed.
    NotListed,
}

/// The model of a [`Lookup`]: the interface it is for (`None` for the
/// active one) and its stage.
pub struct LookupView {
    pub interface: Option<Seq<char>>,
    pub stage: StageView,
}

impl View for Action {
    type V = ActionView;

    open spec fn view(&self) -> ActionView {
        match self {
            Action::OpenSocket => ActionView::OpenSocket,
            Action::DumpInterfaces => ActionView::DumpInterfaces,
            Action::DumpScan(index) => ActionView::DumpScan(*index),
            Action::Finish(answer) => ActionView::Finish(answer.deep_view()),
        }
    }
}

impl View for Event {
    type V = EventView;

    open spec fn view(&self) -> EventView {
        match self {
            Event::SocketOpened => EventView::SocketOpened,
            Event::SocketUnavailable => EventView::SocketUnavailable,
            Event::InterfaceDump(msgs) => EventView::InterfaceDump(msgs.deep_view()),
            Event::ScanDump(msgs) => EventView::ScanDump(msgs.deep_view()),
        }
    }
}

/// The lookup at its start.
pub open spec fn start(interface: Option<Seq<char>>) -> LookupView {
    LookupView { interface, stage: StageView::Opening }
}

/// The indices of the interfaces whose scan results a lookup asks for, given
/// the interfaces that the kernel listed: all of them, in order, for the
/// active interface; for a named interface, the first listed one with that
/// name, if any.
pub open spec fn candidates(interface: Option<Seq<char>>, list: Seq<(u32, Seq<char>)>) -> Seq<u32> {
    match interface {
        None => list.map_values(|entry: (u32, Seq<char>)| entry.0),
        Some(name) => match find_ifindex(list, name) {
            Some(index) => seq![index],
            None => Seq::empty(),
        },
    }
}

/// What a lookup asks for in a given state.
pub open spec fn action_of(lookup: LookupView) -> ActionView {
    match lookup.stage {
        StageView::Opening => ActionView::OpenSocket,
        StageView::Listing => ActionView::DumpInterfaces,
        StageView::Scanning { candidates, next } => ActionView::DumpScan(candidates[next]),
        StageView::Done(answer) => ActionView::Finish(answer),
        StageView::NotListed => ActionView::Finish(None),
    }
}

/// The state of a lookup after an event, with the integers of netlink
/// payloads read in the byte order `order`. An event that the lookup is not
/// waiting for leaves it as it is.
pub open spec fn step(lookup: LookupView, event: EventView, order: Endian) -> LookupView {
    let stage = match (lookup.stage, event) {
        (StageView::Opening, EventView::SocketOpened) => StageView::Listing,
        (StageView::Opening, EventView::SocketUnavailable) => StageView::Done(None),
        (StageView::Listing, EventView::InterfaceDump(msgs)) => {
            let found = candidates(lookup.interface, interface_list(msgs, order));
            if found.len() == 0 {
                if lookup.interface is Some {
                    StageView::NotListed
                } else {
                    StageView::Done(None)
                }
            } else {
                StageView::Scanning { candidates: found, next: 0 }
            }
        },
        (StageView::Scanning { candidates, next }, EventView::ScanDump(msgs)) => {
            match scan_ssid(msgs, order) {
                Some(ssid) => StageView::Done(Some(ssid)),
                None => if next + 1 < candidates.len() {
                    StageView::Scanning { candidates, next: next + 1 }
                } else {
                    StageView::Done(None)
                },
            }
        },
        (stage, _) => stage,
    };
    LookupView { interface: lookup.interface, stage }
}

enum Stage {
    Opening,
    Listing,
    Scanning(Vec<u32>, usize),
    Done(Option<String>),
    NotListed,
}

/// A lookup of the SSID, for the active interface or for a named one.
pub struct Lookup {
    interface: Option<String>,
    stage: Stage,
}

impl View for Lookup {
    type V = LookupView;

    closed spec fn view(&self) -> LookupView {
        LookupView {
            interface: self.interface.deep_view(),
            stage: match self.stage {
                Stage::Opening => StageView::Opening,
                Stage::Listing => StageView::Listing,
                Stage::Scanning(candidates, next) => StageView::Scanning {
                    candidates: candidates@,
                    next: next as int,
                },
                Stage::Done(answer) => StageView::Done(answer.deep_view()),
                Stage::NotListed => StageView::NotListed,
            },
        }
    }
}

fn candidates_for(interface: &Option<String>, list: &Vec<(u32, String)>) -> (found: Vec<u32>)
    ensures
        found@ == candidates(interface.deep_view(), list.deep_view()),
{
    match interface {
        Some(name) => match find_interface(list, name) {
            Some(index) => vec![index],
            None => Vec::new(),
        },
        None => {
            let ghost model = list.deep_view();
            let mut found: Vec<u32> = Vec::new();
            let mut i: usize = 0;
            while i < list.len()
                invariant
                    i <= list.len(),
                    model == list.deep_view(),
                    found@ == model.take(i as int).map_values(|entry: (u32, Seq<char>)| entry.0),
                decreases list.len() - i,
            {
                found.push(list[i].0);
                assert(found@ =~= model.take(i + 1).map_values(|entry: (u32, Seq<char>)| entry.0));
                i = i + 1;
            }
            assert(model.take(list.len() as int) =~= model);
            found
        },
    }
}

impl Lookup {
    #[verifier::type_invariant]
    spec fn inv(self) -> bool {
        match self.stage {
            Stage::Scanning(candidates, next) => next < candidates.len(),
            Stage::Done(Some(ssid)) => ssid@.len() > 0,
            _ => true,
        }
    }

    /// The step that the lookup asks its caller to perform now.
    pub fn action(&self) -> (action: Action)
        ensures
            action@ == action_of(self@),
            action matches Action::Finish(Some(ssid)) ==> ssid@.len() > 0,
    {
        proof {
            use_type_invariant(self);
        }
        match &self.stage {
            Stage::Opening => Action::OpenSocket,
            Stage::Listing => Action::DumpInterfaces,
            Stage::Scanning(candidates, next) => Action::DumpScan(candidates[*next]),
            Stage::Done(answer) => match answer {
                Some(ssid) => Action::Finish(Some(ssid.clone())),
                None => Action::Finish(None),
            },
            Stage::NotListed => Action::Finish(None),
        }
    }

    /// Takes in what came of the step the lookup asked for, with the
    /// integers of netlink payloads read in the host's byte order.
    pub fn advance(&mut self, event: Event)
        ensures
            final(self)@ == step(old(self)@, event@, endianness()),
    {
        proof {
            use_type_invariant(&*self);
        }
        let mut stage = Stage::Opening;
        std::mem::swap(&mut stage, &mut self.stage);
        let next = match (stage, event) {
            (Stage::Opening, Event::SocketOpened) => Stage::Listing,
            (Stage::Opening, Event::SocketUnavailable) => Stage::Done(None),
            (Stage::Listing, Event::InterfaceDump(msgs)) => {
                let list = interfaces_from_dump(&msgs);
                let found = candidates_for(&self.interface, &list);
                if found.len() == 0 {
                    if self.interface.is_some() {
                        Stage::NotListed
                    } else {
                        Stage::Done(None)
                    }
                } else {
                    Stage::Scanning(found, 0)
                }
            },
            (Stage::Scanning(candidates, next), Event::ScanDump(msgs)) => {
                match ssid_from_scan_dump(&msgs) {
                    Some(ssid) => Stage::Done(Some(ssid)),
                    None => if next + 1 < candidates.len() {
                        Stage::Scanning(candidates, next + 1)
                    } else {
                        Stage::Done(None)
                    },
                }
            },
            (stage, _) => stage,
        };
        self.stage = next;
    }

    /// The name of the interface that the lookup was for, when it is over
    /// because the kernel listed no interface with that name; `None`
    /// otherwise. This tells a name that matches no interface from an
    /// interface that is not associated.
    pub fn unmatched_interface(&self) -> (name: Option<String>)
        ensures
            name.deep_view() == (if self@.stage is NotListed {
                self@.interface
            } else {
                None
            }),
    {
        match (&self.stage, &self.interface) {
            (Stage::NotListed, Some(name)) => Some(name.clone()),
            _ => None,
        }
    }

}

/// Starts a lookup of the SSID of the active WiFi network, auto-detecting
/// the wireless interface: the first interface the kernel lists that is
/// associated gives the answer.
pub fn get_ssid() -> (lookup: Lookup)
    ensures
        lookup@ == start(None),
{
    Lookup { interface: None, stage: Stage::Opening }
}

/// Starts a lookup of the SSID of the network that the interface named
/// `interface_name` is associated with.
pub fn get_ssid_for_interface(interface_name: &str) -> (lookup: Lookup)
    ensures
        lookup@ == start(Some(interface_name@)),
{
    Lookup { interface: Some(interface_name.to_owned()), stage: Stage::Opening }
}

// ---------------------------------------------------------------------------
// Laws

/// The state of a lookup after a sequence of events.
pub open spec fn run(lookup: LookupView, events: Seq<EventView>, order: Endian) -> LookupView
    decreases events.len(),
{
    if events.len() == 0 {
        lookup
    } else {
        run(step(lookup, events[0], order), events.drop_first(), order)
    }
}

/// Scan dumps as events.
pub open spec fn scan_events(scans: Seq<Seq<Seq<(u16, Seq<u8>)>>>) -> Seq<EventView> {
    scans.map_values(|msgs: Seq<Seq<(u16, Seq<u8>)>>| EventView::ScanDump(msgs))
}

/// The SSID that the first scan dump reporting one reports.
pub open spec fn first_scan_ssid(scans: Seq<Seq<Seq<(u16, Seq<u8>)>>>, order: Endian) -> Option<Seq<char>>
    decreases scans.len(),
{
    if scans.len() == 0 {
        None
    } else if scan_ssid(scans[0], order) is Some {
        scan_ssid(scans[0], order)
    } else {
        first_scan_ssid(scans.drop_first(), order)
    }
}

/// The lookup once the socket is open and the interface dump `msgs` is in.
pub open spec fn listed(interface: Option<Seq<char>>, msgs: Seq<Seq<(u16, Seq<u8>)>>, order: Endian) -> LookupView {
    run(start(interface), seq![EventView::SocketOpened, EventView::InterfaceDump(msgs)], order)
}

/// A lookup that is over stays over: no event changes it.
pub proof fn lemma_done_is_final(lookup: LookupView, event: EventView, order: Endian)
    requires
        lookup.stage is Done || lookup.stage is NotListed,
    ensures
        step(lookup, event, order) == lookup,
{
}

/// When the socket cannot be opened, a lookup answers `None`.
pub proof fn lemma_no_socket_no_ssid(interface: Option<Seq<char>>, order: Endian)
    ensures
        step(start(interface), EventView::SocketUnavailable, order).stage == StageView::Done(None),
        action_of(step(start(interface), EventView::SocketUnavailable, order)) == ActionView::Finish(None),
{
}

proof fn lemma_run_done(lookup: LookupView, events: Seq<EventView>, order: Endian)
    requires
        lookup.stage is Done,
    ensures
        run(lookup, events, order) == lookup,
    decreases events.len(),
{
    if events.len() > 0 {
        lemma_run_done(step(lookup, events[0], order), events.drop_first(), order);
    }
}

proof fn lemma_run_scanning(
    interface: Option<Seq<char>>,
    candidates: Seq<u32>,
    next: int,
    scans: Seq<Seq<Seq<(u16, Seq<u8>)>>>,
    order: Endian,
)
    requires
        0 <= next < candidates.len(),
        scans.len() <= candidates.len() - next,
    ensures
        ({
            let lookup = LookupView { interface, stage: StageView::Scanning { candidates, next } };
            let after = run(lookup, scan_events(scans), order);
            &&& first_scan_ssid(scans, order) is Some ==> after.stage == StageView::Done(first_scan_ssid(scans, order))
            &&& scans.len() == candidates.len() - next ==> after.stage == StageView::Done(first_scan_ssid(scans, order))
            &&& (first_scan_ssid(scans, order) is None && scans.len() < candidates.len() - next)
                ==> after.stage == (StageView::Scanning { candidates, next: next + scans.len() })
        }),
    decreases scans.len(),
{
    let lookup = LookupView { interface, stage: StageView::Scanning { candidates, next } };
    if scans.len() > 0 {
        let events = scan_events(scans);
        assert(events[0] == EventView::ScanDump(scans[0]));
        assert(events.drop_first() =~= scan_events(scans.drop_first()));
        let after_one = step(lookup, events[0], order);
        if scan_ssid(scans[0], order) is Some {
            lemma_run_done(after_one, events.drop_first(), order);
        } else if next + 1 < candidates.len() {
            lemma_run_scanning(interface, candidates, next + 1, scans.drop_first(), order);
        } else {
            assert(scans.drop_first().len() == 0);
            lemma_run_done(after_one, events.drop_first(), order);
        }
    }
}

/// The lookup of the active interface asks for the scan results of the
/// listed interfaces one after another, in the order the kernel listed
/// them, for as long as none has reported an SSID.
pub proof fn lemma_active_lookup_scans_in_order(
    msgs: Seq<Seq<(u16, Seq<u8>)>>,
    scans: Seq<Seq<Seq<(u16, Seq<u8>)>>>,
    order: Endian,
)
    requires
        scans.len() < interface_list(msgs, order).len(),
        first_scan_ssid(scans, order) is None,
    ensures
        action_of(run(listed(None, msgs, order), scan_events(scans), order))
            == ActionView::DumpScan(interface_list(msgs, order)[scans.len() as int].0),
{
    let list = interface_list(msgs, order);
    let found = candidates(None, list);
    assert(found.len() == list.len());
    reveal_with_fuel(run, 3);
    lemma_run_scanning(None, found, 0, scans, order);
}

/// The lookup of the active interface answers with the SSID of the first
/// listed interface whose scan reports one, and `None` when none does (in
/// particular when the kernel lists no interface).
pub proof fn lemma_active_lookup_answer(
    msgs: Seq<Seq<(u16, Seq<u8>)>>,
    scans: Seq<Seq<Seq<(u16, Seq<u8>)>>>,
    order: Endian,
)
    requires
        scans.len() == interface_list(msgs, order).len(),
    ensures
        run(listed(None, msgs, order), scan_events(scans), order).stage
            == StageView::Done(first_scan_ssid(scans, order)),
{
    let list = interface_list(msgs, order);
    let found = candidates(None, list);
    assert(found.len() == list.len());
    reveal_with_fuel(run, 3);
    if list.len() == 0 {
        assert(scan_events(scans).len() == 0);
    } else {
        lemma_run_scanning(None, found, 0, scans, order);
    }
}

/// The lookup of a named interface answers `None` when no listed interface
/// has that name, and is then marked as not having found it; otherwise it asks for the scan results of the first listed
/// interface with that name, and answers with the SSID that they report.
pub proof fn lemma_named_lookup(
    name: Seq<char>,
    msgs: Seq<Seq<(u16, Seq<u8>)>>,
    scan: Seq<Seq<(u16, Seq<u8>)>>,
    order: Endian,
)
    ensures
        ({
            let ready = listed(Some(name), msgs, order);
            match find_ifindex(interface_list(msgs, order), name) {
                None => {
                    &&& ready.stage == StageView::NotListed
                    &&& action_of(ready) == ActionView::Finish(None)
                },
                Some(index) => {
                    &&& action_of(ready) == ActionView::DumpScan(index)
                    &&& step(ready, EventView::ScanDump(scan), order).stage == StageView::Done(scan_ssid(scan, order))
                },
            }
        }),
{
    reveal_with_fuel(run, 3);
}

proof fn lemma_find_ifindex_position(list: Seq<(u32, Seq<char>)>, name: Seq<char>) -> (k: int)
    requires
        find_ifindex(list, name) is Some,
    ensures
        0 <= k < list.len(),
        Some(list[k].0) == find_ifindex(list, name),
    decreases list.len(),
{
    if list[0].1 == name {
        0
    } else {
        let k = lemma_find_ifindex_position(list.drop_first(), name);
        k + 1
    }
}

proof fn lemma_first_scan_ssid_found(scans: Seq<Seq<Seq<(u16, Seq<u8>)>>>, k: int, order: Endian)
    requires
        0 <= k < scans.len(),
        scan_ssid(scans[k], order) is Some,
    ensures
        first_scan_ssid(scans, order) is Some,
    decreases k,
{
    if k > 0 && scan_ssid(scans[0], order) is None {
        lemma_first_scan_ssid_found(scans.drop_first(), k - 1, order);
    }
}

/// Whenever the lookup of a named interface answers with an SSID, the lookup
/// of the active interface answers with an SSID too, given the same
/// interface dump and the same scan dump (`scan_of`) for each interface
/// index: auto-detection finds an associated interface whenever a named one
/// is associated (it may report that of an interface listed earlier).
pub proof fn lemma_named_answer_implies_active_answer(
    name: Seq<char>,
    msgs: Seq<Seq<(u16, Seq<u8>)>>,
    scan_of: spec_fn(u32) -> Seq<Seq<(u16, Seq<u8>)>>,
    order: Endian,
)
    requires
        ({
            let named = listed(Some(name), msgs, order);
            &&& action_of(named) matches ActionView::DumpScan(index)
            &&& step(named, EventView::ScanDump(scan_of(index)), order).stage matches StageView::Done(Some(_))
        }),
    ensures
        ({
            let list = interface_list(msgs, order);
            let scans = list.map_values(|entry: (u32, Seq<char>)| scan_of(entry.0));
            run(listed(None, msgs, order), scan_events(scans), order).stage matches StageView::Done(Some(_))
        }),
{
    let list = interface_list(msgs, order);
    let scans = list.map_values(|entry: (u32, Seq<char>)| scan_of(entry.0));
    lemma_named_lookup(name, msgs, Seq::empty(), order);
    let index = find_ifindex(list, name).unwrap();
    lemma_named_lookup(name, msgs, scan_of(index), order);
    let k = lemma_find_ifindex_position(list, name);
    assert(scans[k] == scan_of(index));
    lemma_first_scan_ssid_found(scans, k, order);
    lemma_active_lookup_answer(msgs, scans, order);
}

} // verus!
