//! Small helpers for building strings character by character and for
//! turning decoded bytes back into text.
use vstd::prelude::*;
use vstd::utf8::{decode_utf8, valid_utf8};

verus! {

/// Relies on `String::push`: appends the given character to the string.
#[verifier::external_body]
pub fn push_char(s: &mut String, c: char)
    ensures
        final(s)@ == old(s)@.push(c),
{
    s.push(c);
}

/// What `String::from_utf8_lossy` returns for a byte sequence: a function of
/// the bytes alone (invalid sequences become replacement characters).
pub uninterp spec fn lossy_decode(bytes: Seq<u8>) -> Seq<char>;

/// Relies on `String::from_utf8_lossy`: the result depends on the bytes
/// alone, and bytes that are valid UTF-8 decode to exactly their characters.
#[verifier::external_body]
pub fn bytes_to_string_lossy(v: &Vec<u8>) -> (r: String)
    ensures
        r@ == lossy_decode(v@),
        valid_utf8(v@) ==> r@ == decode_utf8(v@),
{
    String::from_utf8_lossy(v.as_slice()).to_string()
}

} // verus!
