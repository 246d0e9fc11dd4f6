//! The SSID carried in a list of 802.11 information elements.
//!
//! Information elements are encoded as `(type: u8, length: u8, data)`
//! triples, one after another; the SSID element has type 0.
use vstd::prelude::*;

use crate::text::{lossy_utf8, ssid_from_bytes, nonempty_text};
use vstd::utf8::{decode_utf8, valid_utf8};

verus! {

/// Element type of the SSID information element.
pub const IE_TYPE_SSID: u8 = 0;

/// The bytes of the first non-empty SSID element in `ies`.
///
/// The scan stops with `None` at the end of the list or at an element whose
/// declared length runs past the end; an SSID element of length 0 (a hidden
/// network) is passed over.
pub open spec fn ssid_element(ies: Seq<u8>) -> Option<Seq<u8>>
    decreases ies.len(),
{
    if ies.len() < 2 {
        None
    } else if ies[1] as int > ies.len() - 2 {
        None
    } else if ies[0] == IE_TYPE_SSID && ies[1] > 0 {
        Some(ies.subrange(2, 2 + ies[1] as int))
    } else {
        ssid_element(ies.skip(2 + ies[1] as int))
    }
}

/// The SSID that a list of information elements names, as text.
pub open spec fn ies_ssid(ies: Seq<u8>) -> Option<Seq<char>> {
    match ssid_element(ies) {
        Some(bytes) => nonempty_text(bytes),
        None => None,
    }
}

/// Parses the SSID from a slice of 802.11 information elements.
///
/// Returns `None` if no SSID element is found, if only empty SSID elements
/// (hidden networks) are found, or if an element runs past the end of the
/// slice before an SSID is found.
pub fn ssid_from_ies(bytes: &[u8]) -> (ssid: Option<String>)
    ensures
        ssid.deep_view() == ies_ssid(bytes@),
        ssid matches Some(text) ==> text@.len() > 0,
        ssid_element(bytes@) matches Some(element) ==> (valid_utf8(element)
            ==> ssid.deep_view() == Some(decode_utf8(element))),
{
    let mut i: usize = 0;
    assert(bytes@.skip(0) =~= bytes@);
    while bytes.len() - i >= 2
        invariant
            i <= bytes.len(),
            ssid_element(bytes@) == ssid_element(bytes@.skip(i as int)),
        decreases bytes.len() - i,
    {
        let ghost rest = bytes@.skip(i as int);
        let ie_type = bytes[i];
        let ie_len = bytes[i + 1] as usize;
        assert(rest[0] == ie_type && rest[1] == ie_len);
        i += 2;
        if ie_len > bytes.len() - i {
            return None;
        }
        if ie_type == IE_TYPE_SSID && ie_len > 0 {
            assert(rest.subrange(2, 2 + ie_len as int) =~= bytes@.subrange(i as int, (i + ie_len) as int));
            return ssid_from_bytes(&bytes[i..i + ie_len]);
        }
        i += ie_len;
        assert(rest.skip(2 + ie_len as int) =~= bytes@.skip(i as int));
    }
    None
}

/// An SSID element of length 1 to 255 at the front of the list is the one
/// reported, whatever follows it.
pub proof fn lemma_leading_ssid_element(name: Seq<u8>, rest: Seq<u8>)
    requires
        0 < name.len() <= 255,
    ensures
        ssid_element(seq![IE_TYPE_SSID, name.len() as u8] + name + rest) == Some(name),
{
    let ies = seq![IE_TYPE_SSID, name.len() as u8] + name + rest;
    assert(ies[1] == name.len() as u8);
    assert(ies.subrange(2, 2 + name.len() as int) =~= name);
}

/// An element at the front of the list that is not an SSID, or is an empty
/// SSID (a hidden network), is passed over: the answer is that of the rest.
pub proof fn lemma_other_element_skipped(kind: u8, data: Seq<u8>, rest: Seq<u8>)
    requires
        data.len() <= 255,
        kind != IE_TYPE_SSID || data.len() == 0,
    ensures
        ssid_element(seq![kind, data.len() as u8] + data + rest) == ssid_element(rest),
{
    let ies = seq![kind, data.len() as u8] + data + rest;
    assert(ies[0] == kind && ies[1] == data.len() as u8);
    assert(ies.skip(2 + data.len() as int) =~= rest);
}

/// Elements that follow the reported SSID do not change the answer: the
/// parser stops at the SSID element.
pub proof fn lemma_ssid_element_extension(ies: Seq<u8>, more: Seq<u8>)
    requires
        ssid_element(ies) is Some,
    ensures
        ssid_element(ies + more) == ssid_element(ies),
    decreases ies.len(),
{
    let longer = ies + more;
    assert(longer[0] == ies[0] && longer[1] == ies[1]);
    let len = ies[1] as int;
    if ies[0] == IE_TYPE_SSID && ies[1] > 0 {
        assert(longer.subrange(2, 2 + len) =~= ies.subrange(2, 2 + len));
    } else {
        assert(longer.skip(2 + len) =~= ies.skip(2 + len) + more);
        lemma_ssid_element_extension(ies.skip(2 + len), more);
    }
}

} // verus!
