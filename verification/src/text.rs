//! Turning ASCII byte sequences into displayable strings.

use vstd::prelude::*;

verus! {

/// Every byte is in the ASCII range.
pub open spec fn all_ascii(s: Seq<u8>) -> bool {
    forall|i: int| 0 <= i < s.len() ==> s[i] < 128
}

/// Relies on String::from_utf8: it succeeds exactly on valid UTF-8
/// input, and ASCII bytes are valid UTF-8, decoding one byte to the
/// character with the same code point.
#[verifier::external_body]
pub(crate) fn bytes_to_string(v: Vec<u8>) -> (r: Option<String>)
    ensures
        all_ascii(v@) ==> (r matches Some(s) && s@.len() == v@.len() && forall|i: int|
            0 <= i < v@.len() ==> s@[i] == v@[i] as char),
{
    match String::from_utf8(v) {
        Ok(s) => Some(s),
        Err(_) => None,
    }
}

} // verus!
