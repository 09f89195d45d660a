//! Scan-report reader: extracts an ordered IP-to-MAC mapping from the markup
//! text of a network scan report.
//!
//! The reader walks the document's start elements and keeps one piece of
//! state, the pending IPv4 address. An `address` element whose `addrtype` is
//! `ipv4` overwrites the pending address; one whose `addrtype` is `mac`
//! consumes it, completing one IP/MAC pair. A MAC with no pending IP, and an
//! IP never followed by a MAC, are silently dropped.

use vstd::prelude::*;

use crate::entries::{entries_of_pairs, Entry};
use crate::omap::OrderedIndex;

verus! {

/// One attribute of a start element: its local name and its value.
pub struct AttrPair {
    pub name: String,
    pub value: String,
}

/// The abstract value of an attribute.
pub struct AttrView {
    pub name: Seq<char>,
    pub value: Seq<char>,
}

impl View for AttrPair {
    type V = AttrView;

    open spec fn view(&self) -> AttrView {
        AttrView { name: self.name@, value: self.value@ }
    }
}

/// One event of the scan report's markup: a start element with its local name
/// and attributes, or any other kind of event, which the reader ignores.
pub enum ScanEvent {
    Start { name: String, attrs: Vec<AttrPair> },
    Other,
}

/// The abstract value of a markup event.
pub enum EventView {
    Start { name: Seq<char>, attrs: Seq<AttrView> },
    Other,
}

impl View for ScanEvent {
    type V = EventView;

    open spec fn view(&self) -> EventView {
        match self {
            ScanEvent::Start { name, attrs } => EventView::Start {
                name: name@,
                attrs: attrs@.map_values(|a: AttrPair| a@),
            },
            ScanEvent::Other => EventView::Other,
        }
    }
}

/// The error of a malformed scan report.
#[derive(Debug)]
pub struct ScanError {
    pub detail: String,
}

/// What parsing a scan report yields: `Some` sequence of events when the
/// markup is well formed, `None` when it is malformed. The outcome depends on
/// the input text alone.
pub uninterp spec fn xml_events_of(s: Seq<char>) -> Option<Seq<EventView>>;

/// Relies on `xml::reader::EventReader`: pulls the document's events in order.
/// A start element keeps its local name and its attributes' local names and
/// values; every other event is kept as `Other`; a malformed document is an
/// error.
#[verifier::external_body]
fn parse_events(input: &str) -> (r: Result<Vec<ScanEvent>, ScanError>)
    ensures
        match r {
            Ok(evs) => xml_events_of(input@) == Some(evs@.map_values(|e: ScanEvent| e@)),
            Err(_) => xml_events_of(input@) is None,
        },
{
    let mut out = Vec::new();
    for ev in xml::reader::EventReader::from_str(input) {
        match ev {
            Ok(xml::reader::XmlEvent::StartElement { name, attributes, .. }) => {
                let attrs = attributes.into_iter().map(
                    |a| AttrPair { name: a.name.local_name, value: a.value },
                ).collect();
                out.push(ScanEvent::Start { name: name.local_name, attrs });
            },
            Ok(_) => out.push(ScanEvent::Other),
            Err(e) => return Err(ScanError { detail: e.to_string() }),
        }
    }
    Ok(out)
}

/// The value of the last attribute named `key`, if any; a repeated attribute
/// name takes the last occurrence, as the reader overwrites while scanning.
pub open spec fn attr_value(attrs: Seq<AttrView>, key: Seq<char>) -> Option<Seq<char>>
    decreases attrs.len(),
{
    if attrs.len() == 0 {
        None
    } else if attrs.last().name == key {
        Some(attrs.last().value)
    } else {
        attr_value(attrs.drop_last(), key)
    }
}

/// How one event moves the reader: an IPv4 address, a MAC address, or nothing.
pub enum AddrClass {
    Ipv4(Seq<char>),
    MacAddr(Seq<char>),
    Neither,
}

/// Classifies an event: an `address` start element with both an `addr` and an
/// `addrtype` attribute is an IPv4 or MAC address by its `addrtype`; every
/// other event moves nothing.
pub open spec fn classify(ev: EventView) -> AddrClass {
    match ev {
        EventView::Start { name, attrs } => {
            if name == "address"@ {
                match (attr_value(attrs, "addr"@), attr_value(attrs, "addrtype"@)) {
                    (Some(a), Some(t)) => {
                        if t == "ipv4"@ {
                            AddrClass::Ipv4(a)
                        } else if t == "mac"@ {
                            AddrClass::MacAddr(a)
                        } else {
                            AddrClass::Neither
                        }
                    },
                    _ => AddrClass::Neither,
                }
            } else {
                AddrClass::Neither
            }
        },
        EventView::Other => AddrClass::Neither,
    }
}

/// The reader's state: the pending IPv4 address, and the completed IP/MAC
/// pairs in completion order.
pub struct ScanState {
    pub pending: Option<Seq<char>>,
    pub done: Seq<Entry>,
}

/// The reader's starting state: nothing pending, nothing completed.
pub open spec fn scan_init() -> ScanState {
    ScanState { pending: None, done: Seq::empty() }
}

/// One step of the reader on one event.
pub open spec fn scan_step(st: ScanState, ev: EventView) -> ScanState {
    match classify(ev) {
        AddrClass::Ipv4(a) => ScanState { pending: Some(a), done: st.done },
        AddrClass::MacAddr(a) => match st.pending {
            Some(ip) => ScanState { pending: None, done: st.done.push((ip, a)) },
            None => ScanState { pending: None, done: st.done },
        },
        AddrClass::Neither => st,
    }
}

/// The reader's state after all the events, from `st`.
pub open spec fn scan_run(st: ScanState, evs: Seq<EventView>) -> ScanState
    decreases evs.len(),
{
    if evs.len() == 0 {
        st
    } else {
        scan_step(scan_run(st, evs.drop_last()), evs.last())
    }
}

/// The IP/MAC pairs a sequence of events completes, in completion order.
pub open spec fn scan_pairs(evs: Seq<EventView>) -> Seq<Entry> {
    scan_run(scan_init(), evs).done
}

/// The ordered IP-to-MAC entries of a scan report: the completed pairs folded
/// into an ordered map, a repeated IP keeping its first position with its
/// last MAC.
pub open spec fn scan_entries(evs: Seq<EventView>) -> Seq<Entry> {
    entries_of_pairs(scan_pairs(evs))
}

/// Running over concatenated events is running over the one, then the other.
pub proof fn lemma_run_concat(st: ScanState, a: Seq<EventView>, b: Seq<EventView>)
    ensures
        scan_run(st, a + b) == scan_run(scan_run(st, a), b),
    decreases b.len(),
{
    if b.len() == 0 {
        assert(a + b =~= a);
    } else {
        lemma_run_concat(st, a, b.drop_last());
        assert((a + b).drop_last() =~= a + b.drop_last());
        assert((a + b).last() == b.last());
    }
}

/// Events that carry no address move the reader not at all.
pub proof fn lemma_neither_run(st: ScanState, b: Seq<EventView>)
    requires
        forall|k: int| 0 <= k < b.len() ==> classify(b[k]) is Neither,
    ensures
        scan_run(st, b) == st,
    decreases b.len(),
{
    if b.len() > 0 {
        lemma_neither_run(st, b.drop_last());
    }
}

/// Running over a single event is one step.
pub proof fn lemma_run_one(st: ScanState, ev: EventView)
    ensures
        scan_run(st, seq![ev]) == scan_step(st, ev),
{
    assert(seq![ev].drop_last().len() == 0);
    assert(scan_run(st, seq![ev].drop_last()) == st);
    assert(seq![ev].last() == ev);
}

/// A MAC address element with no preceding pending IPv4 address is ignored:
/// dropping it from the events leaves the completed pairs unchanged.
pub proof fn lemma_orphan_mac_ignored(evs: Seq<EventView>, i: int)
    requires
        0 <= i < evs.len(),
        classify(evs[i]) is MacAddr,
        scan_run(scan_init(), evs.take(i)).pending is None,
    ensures
        scan_pairs(evs) == scan_pairs(evs.take(i) + evs.skip(i + 1)),
{
    let st = scan_run(scan_init(), evs.take(i));
    assert(evs =~= (evs.take(i) + seq![evs[i]]) + evs.skip(i + 1));
    lemma_run_concat(scan_init(), evs.take(i) + seq![evs[i]], evs.skip(i + 1));
    lemma_run_concat(scan_init(), evs.take(i), seq![evs[i]]);
    lemma_run_one(st, evs[i]);
    assert(scan_step(st, evs[i]) == st);
    lemma_run_concat(scan_init(), evs.take(i), evs.skip(i + 1));
}

/// An IPv4 address element never followed by a MAC address element before the
/// next IPv4 element — or before the end of the report — contributes no row:
/// dropping it from the events leaves the completed pairs unchanged.
pub proof fn lemma_orphan_ip_no_row(evs: Seq<EventView>, i: int, j: int)
    requires
        0 <= i < j <= evs.len(),
        classify(evs[i]) is Ipv4,
        forall|k: int| i < k < j ==> classify(evs[k]) is Neither,
        j == evs.len() || classify(evs[j]) is Ipv4,
    ensures
        scan_pairs(evs) == scan_pairs(evs.take(i) + evs.skip(i + 1)),
{
    let st = scan_run(scan_init(), evs.take(i));
    let mid = evs.subrange(i + 1, j);
    let rest = evs.skip(j);
    // With the orphaned element: prefix, the element, the quiet stretch, the rest.
    assert(evs =~= ((evs.take(i) + seq![evs[i]]) + mid) + rest);
    lemma_run_concat(scan_init(), (evs.take(i) + seq![evs[i]]) + mid, rest);
    lemma_run_concat(scan_init(), evs.take(i) + seq![evs[i]], mid);
    lemma_run_concat(scan_init(), evs.take(i), seq![evs[i]]);
    lemma_run_one(st, evs[i]);
    let st_with = scan_step(st, evs[i]);
    assert forall|k: int| 0 <= k < mid.len() implies classify(mid[k]) is Neither by {
        assert(mid[k] == evs[i + 1 + k]);
    }
    lemma_neither_run(st_with, mid);
    lemma_neither_run(st, mid);
    // Without it: prefix, the quiet stretch, the rest.
    let dropped = evs.take(i) + evs.skip(i + 1);
    assert(dropped =~= (evs.take(i) + mid) + rest);
    lemma_run_concat(scan_init(), evs.take(i) + mid, rest);
    lemma_run_concat(scan_init(), evs.take(i), mid);
    if j == evs.len() {
        assert(rest.len() == 0);
        assert(scan_run(st_with, rest) == st_with);
        assert(scan_run(st, rest) == st);
        assert(st_with.done == st.done);
    } else {
        assert(rest.len() > 0);
        assert(rest =~= seq![evs[j]] + rest.skip(1));
        lemma_run_concat(st_with, seq![evs[j]], rest.skip(1));
        lemma_run_concat(st, seq![evs[j]], rest.skip(1));
        lemma_run_one(st_with, evs[j]);
        lemma_run_one(st, evs[j]);
        assert(scan_step(st_with, evs[j]) == scan_step(st, evs[j]));
    }
}

/// The number of scan entries — one report row each — equals the number of
/// distinct IPv4 addresses among the completed IP/MAC pairs.
pub proof fn lemma_row_count(evs: Seq<EventView>)
    ensures
        scan_entries(evs).len() == crate::entries::entry_keys(scan_pairs(evs)).to_set().len(),
{
    crate::entries::lemma_entries_of_pairs_props(scan_pairs(evs));
    crate::entries::lemma_no_dup_len_is_key_count(scan_entries(evs));
}

/// Report rows keep the scan's order: the scan entries' IPs are the completed
/// pairs' IPs in first-completion order, not sorted.
pub proof fn lemma_rows_in_completion_order(evs: Seq<EventView>)
    ensures
        crate::entries::entry_keys(scan_entries(evs)) == crate::entries::first_seen(
            crate::entries::entry_keys(scan_pairs(evs)),
        ),
{
    crate::entries::lemma_entries_keys_first_seen(scan_pairs(evs));
}

/// The executable counterpart of `AddrClass`.
pub enum AddrKind {
    Ipv4(String),
    MacAddr(String),
    Neither,
}

impl View for AddrKind {
    type V = AddrClass;

    open spec fn view(&self) -> AddrClass {
        match self {
            AddrKind::Ipv4(a) => AddrClass::Ipv4(a@),
            AddrKind::MacAddr(a) => AddrClass::MacAddr(a@),
            AddrKind::Neither => AddrClass::Neither,
        }
    }
}

/// Finds the value of the last attribute named `key`.
fn find_attr(attrs: &Vec<AttrPair>, key: &str) -> (r: Option<String>)
    ensures
        match r {
            Some(v) => attr_value(attrs@.map_values(|a: AttrPair| a@), key@) == Some(v@),
            None => attr_value(attrs@.map_values(|a: AttrPair| a@), key@) is None,
        },
{
    let key_s = String::from_str(key);
    let ghost avs = attrs@.map_values(|a: AttrPair| a@);
    let mut found: Option<String> = None;
    let n: usize = attrs.len();
    let mut i: usize = 0;
    while i < n
        invariant
            n == attrs.len(),
            i <= n,
            avs == attrs@.map_values(|a: AttrPair| a@),
            avs.len() == n,
            key_s@ == key@,
            match found {
                Some(v) => attr_value(avs.take(i as int), key@) == Some(v@),
                None => attr_value(avs.take(i as int), key@) is None,
            },
        decreases n - i,
    {
        proof {
            assert(avs.take(i as int + 1).drop_last() =~= avs.take(i as int));
            assert(avs.take(i as int + 1).last() == avs[i as int]);
            assert(avs[i as int] == attrs@[i as int]@);
        }
        if attrs[i].name.eq(&key_s) {
            found = Some(attrs[i].value.clone());
        }
        i = i + 1;
    }
    proof {
        assert(avs.take(n as int) =~= avs);
    }
    found
}

/// Classifies one event, following `classify`.
pub fn classify_event(ev: &ScanEvent) -> (c: AddrKind)
    ensures
        c@ == classify(ev@),
{
    match ev {
        ScanEvent::Other => AddrKind::Neither,
        ScanEvent::Start { name, attrs } => {
            let address_s = String::from_str("address");
            if !name.eq(&address_s) {
                return AddrKind::Neither;
            }
            let addr = find_attr(attrs, "addr");
            let addrtype = find_attr(attrs, "addrtype");
            match (addr, addrtype) {
                (Some(a), Some(t)) => {
                    let ipv4_s = String::from_str("ipv4");
                    let mac_s = String::from_str("mac");
                    if t.eq(&ipv4_s) {
                        AddrKind::Ipv4(a)
                    } else if t.eq(&mac_s) {
                        AddrKind::MacAddr(a)
                    } else {
                        AddrKind::Neither
                    }
                },
                _ => AddrKind::Neither,
            }
        },
    }
}

/// Reads a whole scan report: parses the markup and folds its events into the
/// ordered IP-to-MAC map. An empty input yields an empty map; malformed
/// markup is an error and yields nothing.
pub fn scan_report(input: &str) -> (r: Result<OrderedIndex, ScanError>)
    ensures
        match r {
            Ok(m) => {
                ||| (input@.len() == 0 && m@ == Seq::<Entry>::empty())
                ||| {
                    &&& input@.len() > 0
                    &&& xml_events_of(input@) matches Some(evs)
                    &&& m@ == scan_entries(evs)
                }
            },
            Err(_) => input@.len() > 0 && xml_events_of(input@) is None,
        },
{
    let mut out = OrderedIndex::new();
    if input.unicode_len() == 0 {
        return Ok(out);
    }
    let events = match parse_events(input) {
        Ok(v) => v,
        Err(e) => {
            return Err(e);
        },
    };
    let ghost evs = events@.map_values(|e: ScanEvent| e@);
    let mut pending: Option<String> = None;
    let n: usize = events.len();
    let mut i: usize = 0;
    while i < n
        invariant
            n == events.len(),
            i <= n,
            evs == events@.map_values(|e: ScanEvent| e@),
            evs.len() == n,
            xml_events_of(input@) == Some(evs),
            match pending {
                Some(p) => scan_run(scan_init(), evs.take(i as int)).pending == Some(p@),
                None => scan_run(scan_init(), evs.take(i as int)).pending is None,
            },
            out@ == entries_of_pairs(scan_run(scan_init(), evs.take(i as int)).done),
        decreases n - i,
    {
        proof {
            assert(evs.take(i as int + 1).drop_last() =~= evs.take(i as int));
            assert(evs.take(i as int + 1).last() == evs[i as int]);
            assert(evs[i as int] == events@[i as int]@);
        }
        match classify_event(&events[i]) {
            AddrKind::Ipv4(a) => {
                pending = Some(a);
            },
            AddrKind::MacAddr(a) => {
                let p = pending;
                pending = None;
                match p {
                    Some(ip) => {
                        proof {
                            let st = scan_run(scan_init(), evs.take(i as int));
                            assert(st.done.push((ip@, a@)).drop_last() =~= st.done);
                            assert(st.done.push((ip@, a@)).last() == (ip@, a@));
                        }
                        out.upsert(ip, a);
                    },
                    None => {},
                }
            },
            AddrKind::Neither => {},
        }
        i = i + 1;
    }
    proof {
        assert(evs.take(n as int) =~= evs);
    }
    Ok(out)
}

} // verus!
