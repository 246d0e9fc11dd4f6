//! Turning the raw bytes of an SSID into text.
use vstd::prelude::*;
use vstd::utf8::{decode_utf8, valid_utf8};

verus! {

/// The text that `String::from_utf8_lossy` makes of `bytes`: the bytes
/// decoded as UTF-8, with each invalid sequence replaced by U+FFFD.
pub uninterp spec fn lossy_utf8(bytes: Seq<u8>) -> Seq<char>;

/// Calls `String::from_utf8_lossy` on `bytes` and takes the owned string.
///
/// Trusted: the result is `lossy_utf8(bytes)`; on valid UTF-8 it is the
/// decoded text unchanged (the documented behaviour of the std function);
/// and it is empty exactly when `bytes` is empty, since every invalid
/// sequence is replaced by a character rather than dropped; and it holds
/// the character U+0000 only where the input holds a 0 byte, since UTF-8
/// encodes U+0000 only as that byte and invalid sequences become U+FFFD.
#[verifier::external_body]
pub(crate) fn string_from_utf8_lossy(bytes: &[u8]) -> (text: String)
    ensures
        text@ == lossy_utf8(bytes@),
        valid_utf8(bytes@) ==> text@ == decode_utf8(bytes@),
        text@.len() == 0 <==> bytes@.len() == 0,
        (forall|i: int| 0 <= i < bytes@.len() ==> bytes@[i] != 0) ==> (forall|j: int|
            0 <= j < text@.len() ==> text@[j] != '\0'),
{
    String::from_utf8_lossy(bytes).into_owned()
}

/// Raw bytes as text, or `None` when there are no bytes: what an empty SSID
/// (a hidden or absent network) or an empty interface name is reported as.
pub open spec fn nonempty_text(bytes: Seq<u8>) -> Option<Seq<char>> {
    if bytes.len() == 0 {
        None
    } else {
        Some(lossy_utf8(bytes))
    }
}

/// Converts raw SSID bytes to text, with invalid UTF-8 replaced by U+FFFD;
/// an empty SSID gives `None`.
pub fn ssid_from_bytes(bytes: &[u8]) -> (ssid: Option<String>)
    ensures
        ssid.deep_view() == nonempty_text(bytes@),
        ssid matches Some(text) ==> text@.len() > 0,
        valid_utf8(bytes@) && bytes@.len() > 0 ==> ssid.deep_view() == Some(decode_utf8(bytes@)),
{
    let text = string_from_utf8_lossy(bytes);
    if text.as_str().is_empty() {
        None
    } else {
        Some(text)
    }
}

/// An SSID already given as text: `None` when it is empty.
pub fn ssid_from_name(name: String) -> (ssid: Option<String>)
    ensures
        ssid.deep_view() == (if name@.len() == 0 {
            None::<Seq<char>>
        } else {
            Some(name@)
        }),
{
    if name.as_str().is_empty() {
        None
    } else {
        Some(name)
    }
}

} // verus!
