//! Text as it crosses the boundary of the library: names compared, wide
//! strings narrowed, bytes decoded.

use vstd::prelude::*;
use vstd::utf8::{decode_utf8, encode_utf8, encode_utf8_decode_utf8, valid_utf8};
use crate::error::MemoryError;
use crate::prefix::{len_before, lemma_len_before_is};

verus! {

/// `String::push` of the standard library appends one character to the text.
pub assume_specification[ String::push ](text: &mut String, ch: char)
    ensures
        final(text)@ == old(text)@.push(ch),
;

/// Wraps `String::from_utf8` of the standard library: it hands back the text
/// that the bytes encode if they are valid UTF-8, and nothing if they are not.
#[verifier::external_body]
fn string_from_utf8(bytes: Vec<u8>) -> (text: Option<String>)
    ensures
        match text {
            Some(text) => valid_utf8(bytes@) && text@ == decode_utf8(bytes@),
            None => !valid_utf8(bytes@),
        },
{
    String::from_utf8(bytes).ok()
}

/// Whether two texts hold the same characters.
pub fn same_text(left: &str, right: &str) -> (same: bool)
    ensures
        same == (left@ == right@),
{
    let a = left.as_bytes();
    let b = right.as_bytes();
    proof {
        encode_utf8_decode_utf8(left@);
        encode_utf8_decode_utf8(right@);
    }
    if a.len() != b.len() {
        return false;
    }
    let mut i: usize = 0;
    while i < a.len()
        invariant
            a@ == encode_utf8(left@),
            b@ == encode_utf8(right@),
            a@.len() == b@.len(),
            i <= a@.len(),
            forall|k: int| 0 <= k < i ==> a@[k] == b@[k],
        decreases a@.len() - i,
    {
        if a[i] != b[i] {
            return false;
        }
        i += 1;
    }
    assert(a@ =~= b@);
    true
}

/// Decodes bytes read from the target as UTF-8 text.
///
/// Bytes that are not valid UTF-8 are refused with [`MemoryError::Decode`].
pub fn decode_string(bytes: Vec<u8>) -> (decoded: Result<String, MemoryError>)
    ensures
        match decoded {
            Ok(text) => valid_utf8(bytes@) && text@ == decode_utf8(bytes@),
            Err(error) => error == MemoryError::Decode && !valid_utf8(bytes@),
        },
{
    match string_from_utf8(bytes) {
        Some(text) => Ok(text),
        None => Err(MemoryError::Decode),
    }
}

/// The character that a unit of a wide string is narrowed to: the one whose
/// code is the low byte of the unit.
pub open spec fn narrow_unit(unit: u16) -> char {
    ((unit % 256) as u8) as char
}

/// The text of a wide string: its units before the first zero unit, each
/// narrowed to its low byte.
pub open spec fn narrow(wide: Seq<u16>) -> Seq<char> {
    Seq::new(len_before(wide, 0u16), |i: int| narrow_unit(wide[i]))
}

/// Narrows a zero-terminated wide string to text, one character for each
/// unit before the first zero unit.
pub fn wchar_to_string(wchar: &[u16]) -> (text: String)
    ensures
        text@ == narrow(wchar@),
{
    let mut text: String = String::new();
    let mut i: usize = 0;
    while i < wchar.len() && wchar[i] != 0
        invariant
            i <= wchar@.len(),
            forall|k: int| 0 <= k < i ==> wchar@[k] != 0,
            text@.len() == i,
            forall|k: int| 0 <= k < i ==> text@[k] == narrow_unit(wchar@[k]),
        decreases wchar@.len() - i,
    {
        let low: u8 = (wchar[i] % 256) as u8;
        text.push(low as char);
        i += 1;
    }
    proof {
        lemma_len_before_is(wchar@, 0u16, i as int);
    }
    text
}

} // verus!
