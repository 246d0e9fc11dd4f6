//! Netlink attributes as plain values, and the byte-level reads that the
//! nl80211 logic makes of them.
//!
//! Netlink carries integers in the byte order of the host; the host's order
//! is `vstd::endian::endianness()`.
use vstd::prelude::*;
use vstd::endian::{endianness, Endian};

use neli::FromBytesWithInput;

verus! {

/// A netlink attribute: its type, with the nested and byte-order flag bits
/// removed, and its payload.
#[derive(Debug, Clone, PartialEq, Eq)]
pub struct Attr {
    pub kind: u16,
    pub payload: Vec<u8>,
}

impl View for Attr {
    type V = (u16, Seq<u8>);

    open spec fn view(&self) -> (u16, Seq<u8>) {
        (self.kind, self.payload@)
    }
}

impl DeepView for Attr {
    type V = (u16, Seq<u8>);

    open spec fn deep_view(&self) -> (u16, Seq<u8>) {
        (self.kind, self.payload@)
    }
}

/// The `u16` that two bytes encode in the given byte order.
pub open spec fn u16_from_bytes(b0: u8, b1: u8, order: Endian) -> u16 {
    match order {
        Endian::Little => (b0 as int + 256 * b1 as int) as u16,
        Endian::Big => (b1 as int + 256 * b0 as int) as u16,
    }
}

/// The `u32` that four bytes encode in the given byte order.
pub open spec fn u32_from_bytes(b0: u8, b1: u8, b2: u8, b3: u8, order: Endian) -> u32 {
    match order {
        Endian::Little => (b0 as int + 256 * b1 as int + 65536 * b2 as int + 16777216 * b3 as int) as u32,
        Endian::Big => (b3 as int + 256 * b2 as int + 65536 * b1 as int + 16777216 * b0 as int) as u32,
    }
}

/// Calls `u16::from_ne_bytes`.
///
/// Trusted: the result is the two bytes read in the host's byte order.
#[verifier::external_body]
fn u16_from_ne_bytes(b0: u8, b1: u8) -> (v: u16)
    ensures
        v == u16_from_bytes(b0, b1, endianness()),
{
    u16::from_ne_bytes([b0, b1])
}

/// Calls `u32::from_ne_bytes`.
///
/// Trusted: the result is the four bytes read in the host's byte order.
#[verifier::external_body]
fn u32_from_ne_bytes(b0: u8, b1: u8, b2: u8, b3: u8) -> (v: u32)
    ensures
        v == u32_from_bytes(b0, b1, b2, b3, endianness()),
{
    u32::from_ne_bytes([b0, b1, b2, b3])
}

/// The integer that an attribute payload carries: its first four bytes in
/// the given byte order, when it has at least four.
pub open spec fn payload_u32(payload: Seq<u8>, order: Endian) -> Option<u32> {
    if payload.len() >= 4 {
        Some(u32_from_bytes(payload[0], payload[1], payload[2], payload[3], order))
    } else {
        None
    }
}

/// Reads the integer an attribute payload carries, in the host's byte order;
/// `None` when the payload is shorter than four bytes.
pub fn read_u32(payload: &[u8]) -> (v: Option<u32>)
    ensures
        v == payload_u32(payload@, endianness()),
{
    if payload.len() >= 4 {
        Some(u32_from_ne_bytes(payload[0], payload[1], payload[2], payload[3]))
    } else {
        None
    }
}

/// `n` rounded up to the netlink alignment of four bytes.
pub open spec fn align4(n: int) -> int {
    (n + 3) / 4 * 4
}

/// Whether `s` is a complete list of netlink attributes, with the integers
/// of the headers read in the given byte order: every attribute has a
/// header of four bytes that declares a length of at least four, and its
/// payload and its padding to a multiple of four bytes lie within `s`; the
/// last attribute ends exactly at the end of `s`.
pub open spec fn attr_list_complete(s: Seq<u8>, order: Endian) -> bool
    decreases s.len(),
{
    if s.len() == 0 {
        true
    } else if s.len() < 4 {
        false
    } else {
        let len = u16_from_bytes(s[0], s[1], order) as int;
        if len < 4 {
            false
        } else if align4(len) > s.len() {
            false
        } else if align4(len) == s.len() {
            true
        } else {
            attr_list_complete(s.skip(align4(len)), order)
        }
    }
}

/// Whether `payload` is a complete list of netlink attributes (see
/// [`attr_list_complete`]), with the integers of the headers read in the
/// host's byte order.
pub fn nested_attributes_complete(payload: &[u8]) -> (complete: bool)
    ensures
        complete == attr_list_complete(payload@, endianness()),
{
    let mut pos: usize = 0;
    assert(payload@.skip(0) =~= payload@);
    loop
        invariant
            pos <= payload.len(),
            attr_list_complete(payload@, endianness()) == attr_list_complete(
                payload@.skip(pos as int),
                endianness(),
            ),
        decreases payload.len() - pos,
    {
        let ghost rest = payload@.skip(pos as int);
        if pos == payload.len() {
            return true;
        }
        if payload.len() - pos < 4 {
            return false;
        }
        let len = u16_from_ne_bytes(payload[pos], payload[pos + 1]) as usize;
        assert(rest[0] == payload[pos as int] && rest[1] == payload[pos + 1]);
        if len < 4 {
            return false;
        }
        let step = (len + 3) / 4 * 4;
        assert(step == align4(len as int));
        if step > payload.len() - pos {
            return false;
        }
        if step == payload.len() - pos {
            return true;
        }
        assert(rest.skip(step as int) =~= payload@.skip(pos + step));
        pos = pos + step;
    }
}

/// The attributes listed in `s`, with the integers of the headers read in
/// the given byte order: for each attribute, its type with the nested and
/// byte-order flag bits (the top two) removed, and its payload, the bytes
/// after its four-byte header up to its declared length. The next attribute
/// starts at the declared length rounded up to four bytes.
///
/// Meant for complete attribute lists (see [`attr_list_complete`]); the
/// walk stops at anything else.
pub open spec fn attr_list(s: Seq<u8>, order: Endian) -> Seq<(u16, Seq<u8>)>
    decreases s.len(),
{
    if s.len() < 4 {
        Seq::empty()
    } else {
        let len = u16_from_bytes(s[0], s[1], order) as int;
        let kind = (u16_from_bytes(s[2], s[3], order) % 0x4000) as u16;
        if len < 4 || align4(len) > s.len() {
            Seq::empty()
        } else if align4(len) == s.len() {
            seq![(kind, s.subrange(4, len))]
        } else {
            seq![(kind, s.subrange(4, len))] + attr_list(s.skip(align4(len)), order)
        }
    }
}

/// Parses `payload` as a list of nested netlink attributes, through
/// `neli::types::GenlBuffer::<u16, Buffer>::from_bytes_with_input` (the call
/// that `Nlattr::get_attr_handle` makes), and copies out each attribute's
/// type and payload.
///
/// Trusted: on a complete attribute list the parse succeeds and gives the
/// attributes that `attr_list` walks, in the host's byte order (neli reads
/// each header's length and type in native order, masks the two flag bits
/// off the type, takes `length - 4` payload bytes and skips the padding).
/// `requires` admits only complete attribute lists: the parser
/// subtracts the header size from each declared attribute length, which
/// fails for a length below four, and its trace-level log messages slice
/// the input by the declared lengths without a bounds check, which stays in
/// bounds only when every attribute and its padding lie within the payload.
#[verifier::external_body]
pub(crate) fn parse_nested_attributes(payload: &[u8]) -> (attrs: Option<Vec<Attr>>)
    requires
        attr_list_complete(payload@, endianness()),
    ensures
        attrs.deep_view() == Some(attr_list(payload@, endianness())),
{
    let buffer = neli::types::GenlBuffer::<u16, neli::types::Buffer>::from_bytes_with_input(
        &mut std::io::Cursor::new(payload),
        payload.len(),
    ).ok()?;
    Some(buffer.iter().map(|a| Attr { kind: a.nla_type.nla_type, payload: a.nla_payload.as_ref().to_vec() }).collect())
}

/// An empty payload is a complete attribute list with no attributes.
pub proof fn lemma_empty_attr_list(order: Endian)
    ensures
        attr_list_complete(Seq::empty(), order),
        attr_list(Seq::empty(), order) == Seq::<(u16, Seq<u8>)>::empty(),
{
}

/// One attribute as netlink lays it out (a four-byte header declaring a
/// length of at least four, its payload, and padding up to a multiple of
/// four bytes, whatever the declared length) followed by a complete
/// attribute list is a complete attribute list, and lists that attribute
/// (its type without the flag bits, and its payload) before the others.
pub proof fn lemma_prepend_attr(a: Seq<u8>, rest: Seq<u8>, order: Endian)
    requires
        a.len() >= 4,
        u16_from_bytes(a[0], a[1], order) >= 4,
        a.len() == align4(u16_from_bytes(a[0], a[1], order) as int),
        attr_list_complete(rest, order),
    ensures
        attr_list_complete(a + rest, order),
        attr_list(a + rest, order) == seq![(
            (u16_from_bytes(a[2], a[3], order) % 0x4000) as u16,
            a.subrange(4, u16_from_bytes(a[0], a[1], order) as int),
        )] + attr_list(rest, order),
{
    let s = a + rest;
    let len = u16_from_bytes(a[0], a[1], order) as int;
    assert(s[0] == a[0] && s[1] == a[1] && s[2] == a[2] && s[3] == a[3]);
    assert(s.subrange(4, len) =~= a.subrange(4, len));
    assert(s.skip(align4(len)) =~= rest);
    if rest.len() == 0 {
        assert(attr_list(rest, order) =~= Seq::<(u16, Seq<u8>)>::empty());
        assert(s =~= a);
    }
}

} // verus!
