//! The Windows side of the lookup: choosing a WLAN adapter by its
//! description, and the SSID of a WLAN connection.
//!
//! The WLAN API describes each adapter by a NUL-terminated UTF-16 array
//! (`strInterfaceDescription`) and reports the SSID of a connection as a
//! fixed array of bytes with a separate length (`DOT11_SSID`).
use vstd::prelude::*;

use crate::text::{nonempty_text, ssid_from_bytes};
use vstd::utf8::{decode_utf8, valid_utf8};

verus! {

/// The text that `String::from_utf16_lossy` makes of `units`: the units
/// decoded as UTF-16, where a high surrogate followed by a low surrogate is
/// one character, any other unit outside the surrogate range is the
/// character of that value, and each unpaired surrogate becomes U+FFFD.
pub open spec fn utf16_lossy(units: Seq<u16>) -> Seq<char>
    decreases units.len(),
{
    if units.len() == 0 {
        Seq::empty()
    } else if 0xD800 <= units[0] < 0xDC00 && units.len() >= 2 && 0xDC00 <= units[1] < 0xE000 {
        seq![(0x10000 + (units[0] - 0xD800) * 0x400 + (units[1] - 0xDC00)) as char]
            + utf16_lossy(units.skip(2))
    } else if 0xD800 <= units[0] < 0xE000 {
        seq!['\u{FFFD}'] + utf16_lossy(units.drop_first())
    } else {
        seq![units[0] as char] + utf16_lossy(units.drop_first())
    }
}

/// Calls `String::from_utf16_lossy`.
///
/// Trusted: the result is `utf16_lossy(units)`, the decoding that std
/// documents for it (that of `char::decode_utf16`, with each unpaired
/// surrogate replaced by U+FFFD).
#[verifier::external_body]
fn string_from_utf16_lossy(units: &[u16]) -> (text: String)
    ensures
        text@ == utf16_lossy(units@),
{
    String::from_utf16_lossy(units)
}

/// The position of the first NUL unit in `units`, or its length when it has
/// none.
pub open spec fn nul_index16(units: Seq<u16>) -> int
    decreases units.len(),
{
    if units.len() == 0 {
        0
    } else if units[0] == 0 {
        0
    } else {
        1 + nul_index16(units.drop_first())
    }
}

proof fn lemma_nul_index16(units: Seq<u16>, j: int)
    requires
        0 <= j <= units.len(),
        forall|k: int| 0 <= k < j ==> units[k] != 0,
        j == units.len() || units[j] == 0,
    ensures
        nul_index16(units) == j,
    decreases j,
{
    if j > 0 {
        lemma_nul_index16(units.drop_first(), j - 1);
    }
}

/// The description of an adapter, given its `strInterfaceDescription`
/// array: the units before the first NUL (all of them when there is none),
/// decoded as UTF-16 with invalid sequences replaced by U+FFFD.
pub fn description_from_wide(wide: &[u16]) -> (name: String)
    ensures
        name@ == utf16_lossy(wide@.take(nul_index16(wide@))),
{
    let mut end: usize = 0;
    while end < wide.len() && wide[end] != 0
        invariant
            end <= wide.len(),
            forall|k: int| 0 <= k < end ==> wide@[k] != 0,
        decreases wide.len() - end,
    {
        end = end + 1;
    }
    proof {
        lemma_nul_index16(wide@, end as int);
    }
    assert(wide@.subrange(0, end as int) =~= wide@.take(end as int));
    string_from_utf16_lossy(&wide[0..end])
}

/// The position of the first description equal to `name`.
pub open spec fn first_match(descriptions: Seq<Seq<char>>, name: Seq<char>) -> Option<int>
    decreases descriptions.len(),
{
    if descriptions.len() == 0 {
        None
    } else if descriptions[0] == name {
        Some(0)
    } else {
        match first_match(descriptions.drop_first(), name) {
            Some(i) => Some(i + 1),
            None => None,
        }
    }
}

/// The position of the first adapter whose description is exactly `name`,
/// or `None` when no adapter has that description.
pub fn find_description(descriptions: &Vec<String>, name: &str) -> (index: Option<usize>)
    ensures
        match index {
            Some(i) => first_match(descriptions.deep_view(), name@) == Some(i as int),
            None => first_match(descriptions.deep_view(), name@) is None,
        },
{
    let target = name.to_owned();
    let ghost model = descriptions.deep_view();
    let mut i: usize = 0;
    while i < descriptions.len()
        invariant
            i <= descriptions.len(),
            model == descriptions.deep_view(),
            target@ == name@,
            forall|k: int| 0 <= k < i ==> model[k] != name@,
        decreases descriptions.len() - i,
    {
        if descriptions[i] == target {
            proof {
                lemma_first_match_at(model, name@, i as int);
            }
            return Some(i);
        }
        i = i + 1;
    }
    proof {
        lemma_first_match_none(model, name@);
    }
    None
}

proof fn lemma_first_match_at(descriptions: Seq<Seq<char>>, name: Seq<char>, i: int)
    requires
        0 <= i < descriptions.len(),
        descriptions[i] == name,
        forall|k: int| 0 <= k < i ==> descriptions[k] != name,
    ensures
        first_match(descriptions, name) == Some(i),
    decreases i,
{
    if i > 0 {
        lemma_first_match_at(descriptions.drop_first(), name, i - 1);
    }
}

proof fn lemma_first_match_none(descriptions: Seq<Seq<char>>, name: Seq<char>)
    requires
        forall|k: int| 0 <= k < descriptions.len() ==> descriptions[k] != name,
    ensures
        first_match(descriptions, name) is None,
    decreases descriptions.len(),
{
    if descriptions.len() > 0 {
        lemma_first_match_none(descriptions.drop_first(), name);
    }
}

/// The adapter found for a name is the first one whose description is
/// exactly that name; none is found when no description equals it.
pub proof fn lemma_first_match_exact(descriptions: Seq<Seq<char>>, name: Seq<char>)
    ensures
        match first_match(descriptions, name) {
            Some(i) => 0 <= i < descriptions.len() && descriptions[i] == name
                && (forall|k: int| 0 <= k < i ==> descriptions[k] != name),
            None => forall|k: int| 0 <= k < descriptions.len() ==> descriptions[k] != name,
        },
    decreases descriptions.len(),
{
    if descriptions.len() > 0 {
        let rest = descriptions.drop_first();
        lemma_first_match_exact(rest, name);
        if descriptions[0] != name {
            match first_match(rest, name) {
                Some(i) => {
                    assert(descriptions[i + 1] == rest[i]);
                    assert forall|k: int| 0 <= k < i + 1 implies descriptions[k] != name by {
                        if k > 0 {
                            assert(descriptions[k] == rest[k - 1]);
                        }
                    }
                },
                None => {
                    assert forall|k: int| 0 <= k < descriptions.len() implies descriptions[k] != name by {
                        if k > 0 {
                            assert(descriptions[k] == rest[k - 1]);
                        }
                    }
                },
            }
        }
    }
}

/// The SSID of a WLAN connection, given the `ucSSID` array and the
/// `uSSIDLength` of its `DOT11_SSID`: the first `length` bytes as text,
/// with invalid UTF-8 replaced by U+FFFD; `None` when the length is 0, and
/// `None` when the length runs past the array, which the WLAN API does not
/// report for a well-formed connection.
pub fn ssid_from_dot11(ssid: &[u8], length: u32) -> (text: Option<String>)
    ensures
        text.deep_view() == (if length <= ssid@.len() {
            nonempty_text(ssid@.take(length as int))
        } else {
            None
        }),
        text matches Some(t) ==> t@.len() > 0,
        length <= ssid@.len() && length > 0 && valid_utf8(ssid@.take(length as int))
            ==> text.deep_view() == Some(decode_utf8(ssid@.take(length as int))),
{
    if length as usize > ssid.len() {
        return None;
    }
    let len = length as usize;
    assert(ssid@.subrange(0, len as int) =~= ssid@.take(length as int));
    ssid_from_bytes(&ssid[0..len])
}

// ---------------------------------------------------------------------------
// Choosing the adapter

/// A step of the Windows lookup.
#[derive(Debug, PartialEq, Eq)]
pub enum AdapterAction {
    /// Query the current connection of the adapter at this position of the
    /// enumerated list, and report the SSID it gives.
    Query(usize),
    /// The lookup is over; this is its answer.
    Finish(Option<String>),
}

/// The model of an [`AdapterAction`].
pub enum AdapterActionView {
    Query(usize),
    Finish(Option<Seq<char>>),
}

impl View for AdapterAction {
    type V = AdapterActionView;

    open spec fn view(&self) -> AdapterActionView {
        match self {
            AdapterAction::Query(i) => AdapterActionView::Query(*i),
            AdapterAction::Finish(answer) => AdapterActionView::Finish(answer.deep_view()),
        }
    }
}

/// The model of an [`AdapterSearch`]: the positions of the adapters to
/// query in order, the next one to query, the answer once there is one,
/// and whether the search ended because no adapter had the requested
/// description.
pub struct AdapterSearchView {
    pub candidates: Seq<usize>,
    pub next: int,
    pub answer: Option<Option<Seq<char>>>,
    pub unmatched: bool,
}

/// The search over all `count` enumerated adapters, in order.
pub open spec fn all_adapters(count: nat) -> AdapterSearchView {
    AdapterSearchView {
        candidates: Seq::new(count, |i: int| i as usize),
        next: 0,
        answer: if count == 0 { Some(None) } else { None },
        unmatched: false,
    }
}

/// The search for the first adapter whose description is `name`.
pub open spec fn named_adapter(descriptions: Seq<Seq<char>>, name: Seq<char>) -> AdapterSearchView {
    match first_match(descriptions, name) {
        Some(i) => AdapterSearchView { candidates: seq![i as usize], next: 0, answer: None, unmatched: false },
        None => AdapterSearchView { candidates: Seq::empty(), next: 0, answer: Some(None), unmatched: true },
    }
}

/// What a search asks for.
pub open spec fn adapter_action(search: AdapterSearchView) -> AdapterActionView {
    match search.answer {
        Some(answer) => AdapterActionView::Finish(answer),
        None => AdapterActionView::Query(search.candidates[search.next]),
    }
}

/// The search after the queried adapter reported `ssid`: the first reported
/// SSID is the answer; when the last candidate reports none, the answer is
/// `None`. A search that is over stays as it is.
pub open spec fn adapter_step(search: AdapterSearchView, ssid: Option<Seq<char>>) -> AdapterSearchView {
    if search.answer is Some {
        search
    } else {
        match ssid {
            Some(text) => AdapterSearchView { answer: Some(Some(text)), ..search },
            None => if search.next + 1 < search.candidates.len() {
                AdapterSearchView { next: search.next + 1, ..search }
            } else {
                AdapterSearchView { answer: Some(None), ..search }
            },
        }
    }
}

/// A search over the enumerated WLAN adapters for the SSID of the current
/// connection.
pub struct AdapterSearch {
    candidates: Vec<usize>,
    next: usize,
    answer: Option<Option<String>>,
    unmatched: bool,
}

impl View for AdapterSearch {
    type V = AdapterSearchView;

    closed spec fn view(&self) -> AdapterSearchView {
        AdapterSearchView {
            candidates: self.candidates@,
            next: self.next as int,
            answer: self.answer.deep_view(),
            unmatched: self.unmatched,
        }
    }
}

impl AdapterSearch {
    #[verifier::type_invariant]
    spec fn inv(self) -> bool {
        self.answer is None ==> self.next < self.candidates.len()
    }

    /// The step that the search asks its caller to perform now.
    pub fn action(&self) -> (action: AdapterAction)
        ensures
            action@ == adapter_action(self@),
    {
        proof {
            use_type_invariant(self);
        }
        match &self.answer {
            Some(Some(ssid)) => AdapterAction::Finish(Some(ssid.clone())),
            Some(None) => AdapterAction::Finish(None),
            None => AdapterAction::Query(self.candidates[self.next]),
        }
    }

    /// Takes in the SSID that the queried adapter reported.
    pub fn report(&mut self, ssid: Option<String>)
        ensures
            final(self)@ == adapter_step(old(self)@, ssid.deep_view()),
    {
        proof {
            use_type_invariant(&*self);
        }
        if self.answer.is_some() {
            return;
        }
        match ssid {
            Some(text) => {
                self.answer = Some(Some(text));
            },
            None => {
                if self.next + 1 < self.candidates.len() {
                    self.next = self.next + 1;
                } else {
                    self.answer = Some(None);
                }
            },
        }
    }

    /// Whether the search ended because no adapter had the requested
    /// description.
    pub fn unmatched(&self) -> (unmatched: bool)
        ensures
            unmatched == self@.unmatched,
    {
        self.unmatched
    }
}

/// Starts the search over all `count` enumerated adapters: the first one
/// whose current connection reports an SSID gives the answer.
pub fn search_all_adapters(count: usize) -> (search: AdapterSearch)
    ensures
        search@ == all_adapters(count as nat),
{
    let mut candidates: Vec<usize> = Vec::new();
    let mut i: usize = 0;
    while i < count
        invariant
            i <= count,
            candidates@ == Seq::new(i as nat, |k: int| k as usize),
        decreases count - i,
    {
        candidates.push(i);
        assert(candidates@ =~= Seq::new((i + 1) as nat, |k: int| k as usize));
        i = i + 1;
    }
    let answer = if count == 0 { Some(None) } else { None };
    AdapterSearch { candidates, next: 0, answer, unmatched: false }
}

/// Starts the search for the adapter whose description is `name`, given the
/// descriptions of the enumerated adapters: the first adapter with that
/// description is queried; when none has it the answer is `None` and the
/// search is marked unmatched.
pub fn search_named_adapter(descriptions: &Vec<String>, name: &str) -> (search: AdapterSearch)
    ensures
        search@ == named_adapter(descriptions.deep_view(), name@),
{
    match find_description(descriptions, name) {
        Some(i) => {
            let mut candidates: Vec<usize> = Vec::new();
            candidates.push(i);
            assert(candidates@ =~= seq![(i as int) as usize]);
            AdapterSearch { candidates, next: 0, answer: None, unmatched: false }
        },
        None => AdapterSearch { candidates: Vec::new(), next: 0, answer: Some(None), unmatched: true },
    }
}

/// The search after a sequence of reports.
pub open spec fn run_reports(search: AdapterSearchView, reports: Seq<Option<Seq<char>>>) -> AdapterSearchView
    decreases reports.len(),
{
    if reports.len() == 0 {
        search
    } else {
        run_reports(adapter_step(search, reports[0]), reports.drop_first())
    }
}

/// The first SSID in a sequence of reports.
pub open spec fn first_report(reports: Seq<Option<Seq<char>>>) -> Option<Seq<char>>
    decreases reports.len(),
{
    if reports.len() == 0 {
        None
    } else if reports[0] is Some {
        reports[0]
    } else {
        first_report(reports.drop_first())
    }
}

proof fn lemma_run_reports_over(search: AdapterSearchView, reports: Seq<Option<Seq<char>>>)
    requires
        search.answer is Some,
    ensures
        run_reports(search, reports) == search,
    decreases reports.len(),
{
    if reports.len() > 0 {
        lemma_run_reports_over(adapter_step(search, reports[0]), reports.drop_first());
    }
}

proof fn lemma_run_reports_from(count: nat, next: int, reports: Seq<Option<Seq<char>>>)
    requires
        0 <= next < count,
        reports.len() == count - next,
    ensures
        run_reports(
            AdapterSearchView { next, ..all_adapters(count) },
            reports,
        ).answer == Some(first_report(reports)),
    decreases reports.len(),
{
    let search = AdapterSearchView { next, ..all_adapters(count) };
    let after = adapter_step(search, reports[0]);
    if reports[0] is Some {
        lemma_run_reports_over(after, reports.drop_first());
    } else if next + 1 < count {
        assert(after == AdapterSearchView { next: next + 1, ..all_adapters(count) });
        lemma_run_reports_from(count, next + 1, reports.drop_first());
    } else {
        assert(reports.drop_first().len() == 0);
        assert(first_report(reports.drop_first()) == None::<Seq<char>>);
        assert(run_reports(after, reports.drop_first()) == after);
    }
}

/// The search over all adapters answers with the first SSID that the
/// adapters report, in enumeration order, and `None` when none reports one
/// (in particular when there is no adapter).
pub proof fn lemma_all_adapters_answer(count: nat, reports: Seq<Option<Seq<char>>>)
    requires
        reports.len() == count,
    ensures
        run_reports(all_adapters(count), reports).answer == Some(first_report(reports)),
{
    if count == 0 {
        assert(reports.len() == 0);
    } else {
        assert(all_adapters(count) == AdapterSearchView { next: 0, ..all_adapters(count) });
        lemma_run_reports_from(count, 0, reports);
    }
}

/// The search for a named adapter queries the first adapter with that
/// description and answers with what it reports; when no adapter has the
/// description it answers `None` and is marked unmatched.
pub proof fn lemma_named_adapter(descriptions: Seq<Seq<char>>, name: Seq<char>, report: Option<Seq<char>>)
    ensures
        ({
            let search = named_adapter(descriptions, name);
            match first_match(descriptions, name) {
                Some(i) => {
                    &&& adapter_action(search) == AdapterActionView::Query(i as usize)
                    &&& adapter_step(search, report).answer == Some(report)
                },
                None => {
                    &&& adapter_action(search) == AdapterActionView::Finish(None)
                    &&& search.unmatched
                },
            }
        }),
{
}

proof fn lemma_first_match_bounds(descriptions: Seq<Seq<char>>, name: Seq<char>)
    requires
        first_match(descriptions, name) is Some,
    ensures
        0 <= first_match(descriptions, name).unwrap() < descriptions.len(),
    decreases descriptions.len(),
{
    if descriptions[0] != name {
        lemma_first_match_bounds(descriptions.drop_first(), name);
    }
}

proof fn lemma_first_report_found(reports: Seq<Option<Seq<char>>>, k: int)
    requires
        0 <= k < reports.len(),
        reports[k] is Some,
    ensures
        first_report(reports) is Some,
    decreases k,
{
    if k > 0 && reports[0] is None {
        lemma_first_report_found(reports.drop_first(), k - 1);
    }
}

/// Whenever the search for a named adapter answers with an SSID, the search
/// over all adapters answers with an SSID too, given the same descriptions
/// (one per enumerated adapter) and the same report (`report_of`) for each
/// adapter position.
pub proof fn lemma_named_answer_implies_any_answer(
    descriptions: Seq<Seq<char>>,
    name: Seq<char>,
    report_of: spec_fn(usize) -> Option<Seq<char>>,
)
    requires
        ({
            let named = named_adapter(descriptions, name);
            &&& adapter_action(named) matches AdapterActionView::Query(i)
            &&& adapter_step(named, report_of(i)).answer matches Some(Some(_))
        }),
    ensures
        ({
            let reports = Seq::new(descriptions.len(), |k: int| report_of(k as usize));
            run_reports(all_adapters(descriptions.len()), reports).answer matches Some(Some(_))
        }),
{
    let reports = Seq::new(descriptions.len(), |k: int| report_of(k as usize));
    let i = first_match(descriptions, name).unwrap();
    lemma_first_match_bounds(descriptions, name);
    assert(reports[i] == report_of(i as usize));
    lemma_first_report_found(reports, i);
    lemma_all_adapters_answer(descriptions.len(), reports);
}

} // verus!
