//! The nl80211 side of the Linux lookup: the interfaces a
//! `NL80211_CMD_GET_INTERFACE` dump lists, and the SSID of the associated
//! BSS in a `NL80211_CMD_GET_SCAN` dump.
//!
//! A dump is handed in as the attribute lists of its generic netlink
//! messages, in the order they arrived.
use vstd::prelude::*;
use vstd::endian::{endianness, Endian};

use crate::attrs::{
    attr_list, attr_list_complete, nested_attributes_complete, parse_nested_attributes,
    payload_u32, read_u32, Attr,
};
use crate::ies::{ies_ssid, ssid_from_ies};
use crate::text::{nonempty_text, string_from_utf8_lossy};
use vstd::utf8::{decode_utf8, valid_utf8};

verus! {

/// `NL80211_CMD_GET_INTERFACE` from linux/nl80211.h.
pub const NL80211_CMD_GET_INTERFACE: u8 = 5;

/// `NL80211_CMD_GET_SCAN` from linux/nl80211.h.
pub const NL80211_CMD_GET_SCAN: u8 = 32;

/// `NL80211_ATTR_IFINDEX` from linux/nl80211.h.
pub const NL80211_ATTR_IFINDEX: u16 = 3;

/// `NL80211_ATTR_IFNAME` from linux/nl80211.h.
pub const NL80211_ATTR_IFNAME: u16 = 4;

/// `NL80211_ATTR_BSS` from linux/nl80211.h.
pub const NL80211_ATTR_BSS: u16 = 47;

/// `NL80211_BSS_INFORMATION_ELEMENTS` from linux/nl80211.h.
pub const NL80211_BSS_INFORMATION_ELEMENTS: u16 = 6;

/// `NL80211_BSS_STATUS` from linux/nl80211.h.
pub const NL80211_BSS_STATUS: u16 = 9;

/// `NL80211_BSS_STATUS_ASSOCIATED` from linux/nl80211.h.
pub const NL80211_BSS_STATUS_ASSOCIATED: u32 = 1;

// ---------------------------------------------------------------------------
// Interface dumps

/// The position of the first NUL byte in `p`, or its length when it has none.
pub open spec fn nul_index(p: Seq<u8>) -> int
    decreases p.len(),
{
    if p.len() == 0 {
        0
    } else if p[0] == 0 {
        0
    } else {
        1 + nul_index(p.drop_first())
    }
}

/// The name an `NL80211_ATTR_IFNAME` payload carries: the bytes before the
/// first NUL, as text, or `None` when there are none.
pub open spec fn ifname_text(payload: Seq<u8>) -> Option<Seq<char>> {
    nonempty_text(payload.take(nul_index(payload)))
}

/// The interface index of a message: that of its last `NL80211_ATTR_IFINDEX`
/// attribute with a payload of at least four bytes.
pub open spec fn last_ifindex(attrs: Seq<(u16, Seq<u8>)>, order: Endian) -> Option<u32>
    decreases attrs.len(),
{
    if attrs.len() == 0 {
        None
    } else if attrs.last().0 == NL80211_ATTR_IFINDEX && attrs.last().1.len() >= 4 {
        payload_u32(attrs.last().1, order)
    } else {
        last_ifindex(attrs.drop_last(), order)
    }
}

/// The interface name of a message: that of its last `NL80211_ATTR_IFNAME`
/// attribute whose name is not empty.
pub open spec fn last_ifname(attrs: Seq<(u16, Seq<u8>)>) -> Option<Seq<char>>
    decreases attrs.len(),
{
    if attrs.len() == 0 {
        None
    } else if attrs.last().0 == NL80211_ATTR_IFNAME && ifname_text(attrs.last().1) is Some {
        ifname_text(attrs.last().1)
    } else {
        last_ifname(attrs.drop_last())
    }
}

/// The `(ifindex, ifname)` entry that a message describes, when it names both.
pub open spec fn interface_entry(attrs: Seq<(u16, Seq<u8>)>, order: Endian) -> Option<(u32, Seq<char>)> {
    match (last_ifindex(attrs, order), last_ifname(attrs)) {
        (Some(index), Some(name)) => Some((index, name)),
        _ => None,
    }
}

/// The interfaces that a `NL80211_CMD_GET_INTERFACE` dump lists, in the order
/// of its messages; a message without both an index and a name is skipped.
pub open spec fn interface_list(msgs: Seq<Seq<(u16, Seq<u8>)>>, order: Endian) -> Seq<(u32, Seq<char>)>
    decreases msgs.len(),
{
    if msgs.len() == 0 {
        Seq::empty()
    } else {
        let rest = interface_list(msgs.drop_last(), order);
        match interface_entry(msgs.last(), order) {
            Some(entry) => rest.push(entry),
            None => rest,
        }
    }
}

proof fn lemma_nul_index(p: Seq<u8>, j: int)
    requires
        0 <= j <= p.len(),
        forall|k: int| 0 <= k < j ==> p[k] != 0,
        j == p.len() || p[j] == 0,
    ensures
        nul_index(p) == j,
    decreases j,
{
    if j > 0 {
        lemma_nul_index(p.drop_first(), j - 1);
    }
}

/// The interface name an `NL80211_ATTR_IFNAME` payload carries: the bytes
/// before the first NUL as text, with invalid UTF-8 replaced by U+FFFD;
/// `None` when that name is empty.
pub fn ifname_from_payload(payload: &[u8]) -> (name: Option<String>)
    ensures
        name.deep_view() == ifname_text(payload@),
        name matches Some(text) ==> text@.len() > 0,
        name matches Some(text) ==> forall|j: int| 0 <= j < text@.len() ==> text@[j] != '\0',
        forall|k: int| 0 <= k < nul_index(payload@) ==> payload@[k] != 0,
        valid_utf8(payload@.take(nul_index(payload@))) && nul_index(payload@) > 0
            ==> name.deep_view() == Some(decode_utf8(payload@.take(nul_index(payload@)))),
{
    let mut end: usize = 0;
    while end < payload.len() && payload[end] != 0
        invariant
            end <= payload.len(),
            forall|k: int| 0 <= k < end ==> payload@[k] != 0,
        decreases payload.len() - end,
    {
        end = end + 1;
    }
    proof {
        lemma_nul_index(payload@, end as int);
    }
    let name = string_from_utf8_lossy(&payload[0..end]);
    assert(payload@.subrange(0, end as int) =~= payload@.take(end as int));
    if !name.as_str().is_empty() {
        Some(name)
    } else {
        None
    }
}

/// The `(ifindex, ifname)` entry that the attributes of one
/// `NL80211_CMD_GET_INTERFACE` message describe: the last interface index
/// with a payload of at least four bytes (read in host byte order) and the
/// last non-empty interface name; `None` unless both are present.
pub fn interface_from_attrs(attrs: &Vec<Attr>) -> (entry: Option<(u32, String)>)
    ensures
        entry.deep_view() == interface_entry(attrs.deep_view(), endianness()),
        entry matches Some(e) ==> e.1@.len() > 0,
        entry matches Some(e) ==> forall|j: int| 0 <= j < e.1@.len() ==> e.1@[j] != '\0',
{
    let ghost model = attrs.deep_view();
    let mut ifindex: Option<u32> = None;
    let mut ifname: Option<String> = None;
    let mut i: usize = 0;
    while i < attrs.len()
        invariant
            i <= attrs.len(),
            model == attrs.deep_view(),
            ifindex == last_ifindex(model.take(i as int), endianness()),
            ifname.deep_view() == last_ifname(model.take(i as int)),
            ifname matches Some(text) ==> text@.len() > 0,
            ifname matches Some(text) ==> forall|j: int| 0 <= j < text@.len() ==> text@[j] != '\0',
        decreases attrs.len() - i,
    {
        let attr = &attrs[i];
        assert(model.take(i + 1).drop_last() =~= model.take(i as int));
        assert(model.take(i + 1).last() == model[i as int]);
        if attr.kind == NL80211_ATTR_IFINDEX {
            let index = read_u32(attr.payload.as_slice());
            if index.is_some() {
                ifindex = index;
            }
        } else if attr.kind == NL80211_ATTR_IFNAME {
            let name = ifname_from_payload(attr.payload.as_slice());
            if name.is_some() {
                ifname = name;
            }
        }
        i = i + 1;
    }
    assert(model.take(attrs.len() as int) =~= model);
    match (ifindex, ifname) {
        (Some(index), Some(name)) => Some((index, name)),
        _ => None,
    }
}

/// The interfaces that a `NL80211_CMD_GET_INTERFACE` dump lists, one
/// `(ifindex, ifname)` entry per message that names both, in message order.
pub fn interfaces_from_dump(msgs: &Vec<Vec<Attr>>) -> (list: Vec<(u32, String)>)
    ensures
        list.deep_view() == interface_list(msgs.deep_view(), endianness()),
        forall|k: int| 0 <= k < list.len() ==> list@[k].1@.len() > 0,
        forall|k: int, j: int| 0 <= k < list.len() && 0 <= j < list@[k].1@.len() ==> list@[k].1@[j] != '\0',
{
    let ghost model = msgs.deep_view();
    let mut list: Vec<(u32, String)> = Vec::new();
    let mut i: usize = 0;
    while i < msgs.len()
        invariant
            i <= msgs.len(),
            model == msgs.deep_view(),
            list.deep_view() == interface_list(model.take(i as int), endianness()),
            forall|k: int| 0 <= k < list.len() ==> list@[k].1@.len() > 0,
            forall|k: int, j: int| 0 <= k < list.len() && 0 <= j < list@[k].1@.len() ==> list@[k].1@[j] != '\0',
        decreases msgs.len() - i,
    {
        assert(model.take(i + 1).drop_last() =~= model.take(i as int));
        assert(model.take(i + 1).last() == model[i as int]);
        match interface_from_attrs(&msgs[i]) {
            Some(entry) => {
                let ghost before = list.deep_view();
                list.push(entry);
                assert(list.deep_view() =~= before.push(entry.deep_view()));
            },
            None => {},
        }
        i = i + 1;
    }
    assert(model.take(msgs.len() as int) =~= model);
    list
}

/// The index of the first listed interface whose name is `name`.
pub open spec fn find_ifindex(list: Seq<(u32, Seq<char>)>, name: Seq<char>) -> Option<u32>
    decreases list.len(),
{
    if list.len() == 0 {
        None
    } else if list[0].1 == name {
        Some(list[0].0)
    } else {
        find_ifindex(list.drop_first(), name)
    }
}

/// The index of the first interface in `list` named `name`, or `None` when
/// no interface has that name.
pub fn find_interface(list: &Vec<(u32, String)>, name: &String) -> (index: Option<u32>)
    ensures
        index == find_ifindex(list.deep_view(), name@),
{
    let ghost model = list.deep_view();
    let mut i: usize = 0;
    assert(model.skip(0) =~= model);
    while i < list.len()
        invariant
            i <= list.len(),
            model == list.deep_view(),
            find_ifindex(model, name@) == find_ifindex(model.skip(i as int), name@),
        decreases list.len() - i,
    {
        assert(model.skip(i as int)[0] == model[i as int]);
        if list[i].1 == *name {
            return Some(list[i].0);
        }
        assert(model.skip(i as int).drop_first() =~= model.skip(i + 1));
        i = i + 1;
    }
    None
}

// ---------------------------------------------------------------------------
// Scan dumps

/// The association status a BSS reports: that of its last
/// `NL80211_BSS_STATUS` attribute with a payload of at least four bytes.
pub open spec fn bss_status(attrs: Seq<(u16, Seq<u8>)>, order: Endian) -> Option<u32>
    decreases attrs.len(),
{
    if attrs.len() == 0 {
        None
    } else if attrs.last().0 == NL80211_BSS_STATUS && attrs.last().1.len() >= 4 {
        payload_u32(attrs.last().1, order)
    } else {
        bss_status(attrs.drop_last(), order)
    }
}

/// The SSID named by the last `NL80211_BSS_INFORMATION_ELEMENTS` attribute
/// of a BSS (`None` when that one names none, or when there is none).
pub open spec fn bss_ies_ssid(attrs: Seq<(u16, Seq<u8>)>) -> Option<Seq<char>>
    decreases attrs.len(),
{
    if attrs.len() == 0 {
        None
    } else if attrs.last().0 == NL80211_BSS_INFORMATION_ELEMENTS {
        ies_ssid(attrs.last().1)
    } else {
        bss_ies_ssid(attrs.drop_last())
    }
}

/// The SSID of a BSS, given its nested attributes: the SSID in its
/// information elements when its status is `NL80211_BSS_STATUS_ASSOCIATED`,
/// `None` otherwise.
pub open spec fn bss_ssid(attrs: Seq<(u16, Seq<u8>)>, order: Endian) -> Option<Seq<char>> {
    if bss_status(attrs, order) == Some(NL80211_BSS_STATUS_ASSOCIATED) {
        bss_ies_ssid(attrs)
    } else {
        None
    }
}

/// The SSID of a BSS, given the payload of its `NL80211_ATTR_BSS` attribute
/// and the byte order of its headers; `None` when the payload is not a
/// complete list of nested attributes.
pub open spec fn bss_payload_ssid(payload: Seq<u8>, order: Endian) -> Option<Seq<char>> {
    if attr_list_complete(payload, order) {
        bss_ssid(attr_list(payload, order), order)
    } else {
        None
    }
}

/// Extracts the SSID from the nested attributes of a scan result's BSS.
///
/// The SSID is that of the last `NL80211_BSS_INFORMATION_ELEMENTS` attribute
/// and is returned only when the last `NL80211_BSS_STATUS` of at least four
/// bytes (read in host byte order) is `NL80211_BSS_STATUS_ASSOCIATED`: a BSS
/// that is not the currently associated one gives `None`.
pub fn ssid_from_bss_attrs(attrs: &Vec<Attr>) -> (ssid: Option<String>)
    ensures
        ssid.deep_view() == bss_ssid(attrs.deep_view(), endianness()),
        ssid matches Some(text) ==> text@.len() > 0,
{
    let ghost model = attrs.deep_view();
    let mut status: Option<u32> = None;
    let mut ssid: Option<String> = None;
    let mut i: usize = 0;
    while i < attrs.len()
        invariant
            i <= attrs.len(),
            model == attrs.deep_view(),
            status == bss_status(model.take(i as int), endianness()),
            ssid.deep_view() == bss_ies_ssid(model.take(i as int)),
            ssid matches Some(text) ==> text@.len() > 0,
        decreases attrs.len() - i,
    {
        let attr = &attrs[i];
        assert(model.take(i + 1).drop_last() =~= model.take(i as int));
        assert(model.take(i + 1).last() == model[i as int]);
        if attr.kind == NL80211_BSS_STATUS {
            let value = read_u32(attr.payload.as_slice());
            if value.is_some() {
                status = value;
            }
        } else if attr.kind == NL80211_BSS_INFORMATION_ELEMENTS {
            ssid = ssid_from_ies(attr.payload.as_slice());
        }
        i = i + 1;
    }
    assert(model.take(attrs.len() as int) =~= model);
    if status == Some(NL80211_BSS_STATUS_ASSOCIATED) {
        ssid
    } else {
        None
    }
}

/// Extracts the SSID from the payload of a scan result's `NL80211_ATTR_BSS`
/// attribute: parses the nested attributes, then applies
/// [`ssid_from_bss_attrs`]; `None` when the payload is not a complete list of
/// attributes.
pub fn ssid_from_bss(payload: &[u8]) -> (ssid: Option<String>)
    ensures
        ssid.deep_view() == bss_payload_ssid(payload@, endianness()),
        ssid matches Some(text) ==> text@.len() > 0,
{
    if !nested_attributes_complete(payload) {
        return None;
    }
    match parse_nested_attributes(payload) {
        Some(attrs) => ssid_from_bss_attrs(&attrs),
        None => None,
    }
}

/// The SSID a single attribute of a scan message yields: that of the BSS
/// when it is an `NL80211_ATTR_BSS` attribute.
pub open spec fn attr_scan_ssid(attr: (u16, Seq<u8>), order: Endian) -> Option<Seq<char>> {
    if attr.0 == NL80211_ATTR_BSS {
        bss_payload_ssid(attr.1, order)
    } else {
        None
    }
}

/// The first SSID that the attributes of a scan message yield.
pub open spec fn attrs_scan_ssid(attrs: Seq<(u16, Seq<u8>)>, order: Endian) -> Option<Seq<char>>
    decreases attrs.len(),
{
    if attrs.len() == 0 {
        None
    } else if attr_scan_ssid(attrs[0], order) is Some {
        attr_scan_ssid(attrs[0], order)
    } else {
        attrs_scan_ssid(attrs.drop_first(), order)
    }
}

/// The SSID that a `NL80211_CMD_GET_SCAN` dump reports: that of the first
/// associated BSS, over the messages and their attributes in order.
pub open spec fn scan_ssid(msgs: Seq<Seq<(u16, Seq<u8>)>>, order: Endian) -> Option<Seq<char>>
    decreases msgs.len(),
{
    if msgs.len() == 0 {
        None
    } else if attrs_scan_ssid(msgs[0], order) is Some {
        attrs_scan_ssid(msgs[0], order)
    } else {
        scan_ssid(msgs.drop_first(), order)
    }
}

fn ssid_from_scan_attrs(attrs: &Vec<Attr>) -> (ssid: Option<String>)
    ensures
        ssid.deep_view() == attrs_scan_ssid(attrs.deep_view(), endianness()),
        ssid matches Some(text) ==> text@.len() > 0,
{
    let ghost model = attrs.deep_view();
    let mut i: usize = 0;
    assert(model.skip(0) =~= model);
    while i < attrs.len()
        invariant
            i <= attrs.len(),
            model == attrs.deep_view(),
            attrs_scan_ssid(model, endianness()) == attrs_scan_ssid(model.skip(i as int), endianness()),
        decreases attrs.len() - i,
    {
        assert(model.skip(i as int)[0] == model[i as int]);
        assert(model.skip(i as int).drop_first() =~= model.skip(i + 1));
        if attrs[i].kind == NL80211_ATTR_BSS {
            let ssid = ssid_from_bss(attrs[i].payload.as_slice());
            if ssid.is_some() {
                return ssid;
            }
        }
        i = i + 1;
    }
    None
}

/// The SSID of the currently associated BSS in a `NL80211_CMD_GET_SCAN`
/// dump: the first `NL80211_ATTR_BSS` attribute, over the messages in
/// order, whose BSS is associated and names an SSID; `None` when there is
/// none.
pub fn ssid_from_scan_dump(msgs: &Vec<Vec<Attr>>) -> (ssid: Option<String>)
    ensures
        ssid.deep_view() == scan_ssid(msgs.deep_view(), endianness()),
        ssid matches Some(text) ==> text@.len() > 0,
{
    let ghost model = msgs.deep_view();
    let mut i: usize = 0;
    assert(model.skip(0) =~= model);
    while i < msgs.len()
        invariant
            i <= msgs.len(),
            model == msgs.deep_view(),
            scan_ssid(model, endianness()) == scan_ssid(model.skip(i as int), endianness()),
        decreases msgs.len() - i,
    {
        assert(model.skip(i as int)[0] == model[i as int]);
        assert(model.skip(i as int).drop_first() =~= model.skip(i + 1));
        let ssid = ssid_from_scan_attrs(&msgs[i]);
        if ssid.is_some() {
            return ssid;
        }
        i = i + 1;
    }
    None
}

// ---------------------------------------------------------------------------
// Laws

/// Whether no attribute in `attrs` has type `kind`.
pub open spec fn lacks_kind(attrs: Seq<(u16, Seq<u8>)>, kind: u16) -> bool {
    forall|i: int| 0 <= i < attrs.len() ==> attrs[i].0 != kind
}

proof fn lemma_status_suffix(x: Seq<(u16, Seq<u8>)>, o: Seq<(u16, Seq<u8>)>, order: Endian)
    requires
        lacks_kind(o, NL80211_BSS_STATUS),
    ensures
        bss_status(x + o, order) == bss_status(x, order),
    decreases o.len(),
{
    if o.len() > 0 {
        assert((x + o).last() == o.last());
        assert((x + o).drop_last() =~= x + o.drop_last());
        lemma_status_suffix(x, o.drop_last(), order);
    } else {
        assert(x + o =~= x);
    }
}

proof fn lemma_status_insert(x: Seq<(u16, Seq<u8>)>, o: Seq<(u16, Seq<u8>)>, y: Seq<(u16, Seq<u8>)>, order: Endian)
    requires
        lacks_kind(o, NL80211_BSS_STATUS),
    ensures
        bss_status(x + o + y, order) == bss_status(x + y, order),
    decreases y.len(),
{
    if y.len() > 0 {
        assert((x + o + y).last() == y.last() && (x + y).last() == y.last());
        assert((x + o + y).drop_last() =~= x + o + y.drop_last());
        assert((x + y).drop_last() =~= x + y.drop_last());
        lemma_status_insert(x, o, y.drop_last(), order);
    } else {
        assert(x + o + y =~= x + o);
        assert(x + y =~= x);
        lemma_status_suffix(x, o, order);
    }
}

proof fn lemma_ies_suffix(x: Seq<(u16, Seq<u8>)>, o: Seq<(u16, Seq<u8>)>)
    requires
        lacks_kind(o, NL80211_BSS_INFORMATION_ELEMENTS),
    ensures
        bss_ies_ssid(x + o) == bss_ies_ssid(x),
    decreases o.len(),
{
    if o.len() > 0 {
        assert((x + o).last() == o.last());
        assert((x + o).drop_last() =~= x + o.drop_last());
        lemma_ies_suffix(x, o.drop_last());
    } else {
        assert(x + o =~= x);
    }
}

proof fn lemma_ies_insert(x: Seq<(u16, Seq<u8>)>, o: Seq<(u16, Seq<u8>)>, y: Seq<(u16, Seq<u8>)>)
    requires
        lacks_kind(o, NL80211_BSS_INFORMATION_ELEMENTS),
    ensures
        bss_ies_ssid(x + o + y) == bss_ies_ssid(x + y),
    decreases y.len(),
{
    if y.len() > 0 {
        assert((x + o + y).last() == y.last() && (x + y).last() == y.last());
        assert((x + o + y).drop_last() =~= x + o + y.drop_last());
        assert((x + y).drop_last() =~= x + y.drop_last());
        lemma_ies_insert(x, o, y.drop_last());
    } else {
        assert(x + o + y =~= x + o);
        assert(x + y =~= x);
        lemma_ies_suffix(x, o);
    }
}

/// Attributes of a BSS of types other than `NL80211_BSS_STATUS` and
/// `NL80211_BSS_INFORMATION_ELEMENTS`, wherever they stand, do not change
/// its SSID.
pub proof fn lemma_bss_other_attrs_ignored(
    x: Seq<(u16, Seq<u8>)>,
    o: Seq<(u16, Seq<u8>)>,
    y: Seq<(u16, Seq<u8>)>,
    order: Endian,
)
    requires
        lacks_kind(o, NL80211_BSS_STATUS),
        lacks_kind(o, NL80211_BSS_INFORMATION_ELEMENTS),
    ensures
        bss_ssid(x + o + y, order) == bss_ssid(x + y, order),
{
    lemma_status_insert(x, o, y, order);
    lemma_ies_insert(x, o, y);
}

/// The SSID of a BSS does not depend on whether its status attributes come
/// before or after its information elements: swapping a part without status
/// attributes and a part without information elements leaves it unchanged.
pub proof fn lemma_bss_order_irrelevant(a: Seq<(u16, Seq<u8>)>, b: Seq<(u16, Seq<u8>)>, order: Endian)
    requires
        lacks_kind(a, NL80211_BSS_STATUS),
        lacks_kind(b, NL80211_BSS_INFORMATION_ELEMENTS),
    ensures
        bss_ssid(a + b, order) == bss_ssid(b + a, order),
{
    let e = Seq::<(u16, Seq<u8>)>::empty();
    lemma_status_insert(e, a, b, order);
    assert(e + a + b =~= a + b);
    assert(e + b =~= b);
    lemma_status_suffix(b, a, order);
    lemma_ies_suffix(a, b);
    lemma_ies_insert(e, b, a);
    assert(e + b + a =~= b + a);
    assert(e + a =~= a);
}

/// A BSS whose status attribute reads `NL80211_BSS_STATUS_ASSOCIATED` has
/// the SSID that its information elements name, whichever of the two
/// attributes comes first; with any other status it has none.
pub proof fn lemma_bss_associated(status: Seq<u8>, ies: Seq<u8>, order: Endian)
    requires
        status.len() >= 4,
    ensures
        bss_ssid(seq![(NL80211_BSS_STATUS, status), (NL80211_BSS_INFORMATION_ELEMENTS, ies)], order)
            == (if payload_u32(status, order) == Some(NL80211_BSS_STATUS_ASSOCIATED) { ies_ssid(ies) } else { None }),
        bss_ssid(seq![(NL80211_BSS_INFORMATION_ELEMENTS, ies), (NL80211_BSS_STATUS, status)], order)
            == (if payload_u32(status, order) == Some(NL80211_BSS_STATUS_ASSOCIATED) { ies_ssid(ies) } else { None }),
{
    let a = seq![(NL80211_BSS_STATUS, status), (NL80211_BSS_INFORMATION_ELEMENTS, ies)];
    let b = seq![(NL80211_BSS_INFORMATION_ELEMENTS, ies), (NL80211_BSS_STATUS, status)];
    assert(a.drop_last().drop_last() =~= Seq::<(u16, Seq<u8>)>::empty());
    assert(b.drop_last().drop_last() =~= Seq::<(u16, Seq<u8>)>::empty());
    reveal_with_fuel(bss_status, 3);
    reveal_with_fuel(bss_ies_ssid, 3);
}

/// Attributes of a scan message that are not `NL80211_ATTR_BSS`, placed in
/// front of the others, do not change the SSID it reports.
pub proof fn lemma_scan_other_attrs_ignored(o: Seq<(u16, Seq<u8>)>, attrs: Seq<(u16, Seq<u8>)>, order: Endian)
    requires
        lacks_kind(o, NL80211_ATTR_BSS),
    ensures
        attrs_scan_ssid(o + attrs, order) == attrs_scan_ssid(attrs, order),
    decreases o.len(),
{
    if o.len() > 0 {
        assert((o + attrs)[0] == o[0]);
        assert((o + attrs).drop_first() =~= o.drop_first() + attrs);
        lemma_scan_other_attrs_ignored(o.drop_first(), attrs, order);
    } else {
        assert(o + attrs =~= attrs);
    }
}

/// A scan message reports the SSID of its first attribute, at whatever
/// position, that is an associated BSS naming an SSID.
pub proof fn lemma_scan_attrs_first_associated(attrs: Seq<(u16, Seq<u8>)>, k: int, order: Endian)
    requires
        0 <= k < attrs.len(),
        attrs[k].0 == NL80211_ATTR_BSS,
        bss_payload_ssid(attrs[k].1, order) is Some,
        forall|j: int| 0 <= j < k ==> attr_scan_ssid(attrs[j], order) is None,
    ensures
        attrs_scan_ssid(attrs, order) == bss_payload_ssid(attrs[k].1, order),
    decreases k,
{
    if k > 0 {
        lemma_scan_attrs_first_associated(attrs.drop_first(), k - 1, order);
    }
}

/// A scan dump reports the SSID of its first message, at whatever position,
/// that reports one.
pub proof fn lemma_scan_dump_first_associated(msgs: Seq<Seq<(u16, Seq<u8>)>>, m: int, order: Endian)
    requires
        0 <= m < msgs.len(),
        attrs_scan_ssid(msgs[m], order) is Some,
        forall|j: int| 0 <= j < m ==> attrs_scan_ssid(msgs[j], order) is None,
    ensures
        scan_ssid(msgs, order) == attrs_scan_ssid(msgs[m], order),
    decreases m,
{
    if m > 0 {
        lemma_scan_dump_first_associated(msgs.drop_first(), m - 1, order);
    }
}

proof fn lemma_ifindex_suffix(x: Seq<(u16, Seq<u8>)>, o: Seq<(u16, Seq<u8>)>, order: Endian)
    requires
        lacks_kind(o, NL80211_ATTR_IFINDEX),
    ensures
        last_ifindex(x + o, order) == last_ifindex(x, order),
    decreases o.len(),
{
    if o.len() > 0 {
        assert((x + o).last() == o.last());
        assert((x + o).drop_last() =~= x + o.drop_last());
        lemma_ifindex_suffix(x, o.drop_last(), order);
    } else {
        assert(x + o =~= x);
    }
}

proof fn lemma_ifindex_insert(x: Seq<(u16, Seq<u8>)>, o: Seq<(u16, Seq<u8>)>, y: Seq<(u16, Seq<u8>)>, order: Endian)
    requires
        lacks_kind(o, NL80211_ATTR_IFINDEX),
    ensures
        last_ifindex(x + o + y, order) == last_ifindex(x + y, order),
    decreases y.len(),
{
    if y.len() > 0 {
        assert((x + o + y).last() == y.last() && (x + y).last() == y.last());
        assert((x + o + y).drop_last() =~= x + o + y.drop_last());
        assert((x + y).drop_last() =~= x + y.drop_last());
        lemma_ifindex_insert(x, o, y.drop_last(), order);
    } else {
        assert(x + o + y =~= x + o);
        assert(x + y =~= x);
        lemma_ifindex_suffix(x, o, order);
    }
}

proof fn lemma_ifname_suffix(x: Seq<(u16, Seq<u8>)>, o: Seq<(u16, Seq<u8>)>)
    requires
        lacks_kind(o, NL80211_ATTR_IFNAME),
    ensures
        last_ifname(x + o) == last_ifname(x),
    decreases o.len(),
{
    if o.len() > 0 {
        assert((x + o).last() == o.last());
        assert((x + o).drop_last() =~= x + o.drop_last());
        lemma_ifname_suffix(x, o.drop_last());
    } else {
        assert(x + o =~= x);
    }
}

proof fn lemma_ifname_insert(x: Seq<(u16, Seq<u8>)>, o: Seq<(u16, Seq<u8>)>, y: Seq<(u16, Seq<u8>)>)
    requires
        lacks_kind(o, NL80211_ATTR_IFNAME),
    ensures
        last_ifname(x + o + y) == last_ifname(x + y),
    decreases y.len(),
{
    if y.len() > 0 {
        assert((x + o + y).last() == y.last() && (x + y).last() == y.last());
        assert((x + o + y).drop_last() =~= x + o + y.drop_last());
        assert((x + y).drop_last() =~= x + y.drop_last());
        lemma_ifname_insert(x, o, y.drop_last());
    } else {
        assert(x + o + y =~= x + o);
        assert(x + y =~= x);
        lemma_ifname_suffix(x, o);
    }
}

/// Attributes of an interface message of types other than
/// `NL80211_ATTR_IFINDEX` and `NL80211_ATTR_IFNAME`, wherever they stand
/// (first included), do not change the interface it describes.
pub proof fn lemma_interface_other_attrs_ignored(
    x: Seq<(u16, Seq<u8>)>,
    o: Seq<(u16, Seq<u8>)>,
    y: Seq<(u16, Seq<u8>)>,
    order: Endian,
)
    requires
        lacks_kind(o, NL80211_ATTR_IFINDEX),
        lacks_kind(o, NL80211_ATTR_IFNAME),
    ensures
        interface_entry(x + o + y, order) == interface_entry(x + y, order),
{
    lemma_ifindex_insert(x, o, y, order);
    lemma_ifname_insert(x, o, y);
}

/// A message with an interface index of at least four bytes and a
/// non-empty interface name describes that interface, in either order of
/// the two attributes.
pub proof fn lemma_interface_pair(index: Seq<u8>, name: Seq<u8>, order: Endian)
    requires
        index.len() >= 4,
        ifname_text(name) is Some,
    ensures
        interface_entry(seq![(NL80211_ATTR_IFINDEX, index), (NL80211_ATTR_IFNAME, name)], order)
            == Some((payload_u32(index, order).unwrap(), ifname_text(name).unwrap())),
        interface_entry(seq![(NL80211_ATTR_IFNAME, name), (NL80211_ATTR_IFINDEX, index)], order)
            == Some((payload_u32(index, order).unwrap(), ifname_text(name).unwrap())),
{
    let a = seq![(NL80211_ATTR_IFINDEX, index), (NL80211_ATTR_IFNAME, name)];
    let b = seq![(NL80211_ATTR_IFNAME, name), (NL80211_ATTR_IFINDEX, index)];
    assert(a.drop_last().drop_last() =~= Seq::<(u16, Seq<u8>)>::empty());
    assert(b.drop_last().drop_last() =~= Seq::<(u16, Seq<u8>)>::empty());
    reveal_with_fuel(last_ifindex, 3);
    reveal_with_fuel(last_ifname, 3);
}

/// The index found for a name is that of the first listed interface whose
/// name is exactly that name; none is found when no listed name equals it.
pub proof fn lemma_find_ifindex_exact(list: Seq<(u32, Seq<char>)>, name: Seq<char>)
    ensures
        match find_ifindex(list, name) {
            Some(index) => exists|k: int|
                0 <= k < list.len() && #[trigger] list[k] == (index, name)
                    && (forall|j: int| 0 <= j < k ==> list[j].1 != name),
            None => forall|k: int| 0 <= k < list.len() ==> list[k].1 != name,
        },
    decreases list.len(),
{
    if list.len() > 0 {
        lemma_find_ifindex_exact(list.drop_first(), name);
        if list[0].1 == name {
            assert(list[0] == (list[0].0, name));
        } else {
            match find_ifindex(list, name) {
                Some(index) => {
                    let k = choose|k: int|
                        0 <= k < list.drop_first().len() && #[trigger] list.drop_first()[k] == (index, name)
                            && (forall|j: int| 0 <= j < k ==> list.drop_first()[j].1 != name);
                    assert(list[k + 1] == (index, name));
                    assert forall|j: int| 0 <= j < k + 1 implies list[j].1 != name by {
                        if j > 0 {
                            assert(list[j] == list.drop_first()[j - 1]);
                        }
                    }
                },
                None => {
                    assert forall|k: int| 0 <= k < list.len() implies list[k].1 != name by {
                        if k > 0 {
                            assert(list[k] == list.drop_first()[k - 1]);
                        }
                    }
                },
            }
        }
    }
}

} // verus!
