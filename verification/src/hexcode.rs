//! Hexadecimal encoding of text and decoding of hexadecimal strings.
use vstd::prelude::*;
use crate::text::{bytes_to_string_lossy, lossy_decode, push_char};
use vstd::utf8::{decode_utf8, encode_utf8, encode_utf8_decode_utf8, encode_utf8_valid_utf8,
    valid_utf8};

verus! {

/// Why a hexadecimal string could not be decoded.
#[derive(Clone, Copy, Debug, PartialEq, Eq, Structural)]
pub enum HexError {
    /// The string has an odd number of characters.
    OddLength,
    /// The string holds a character that is no hexadecimal digit.
    InvalidDigit,
}

/// The lowercase hexadecimal digit for a value below 16.
pub open spec fn hex_digit_char(v: u8) -> char
    recommends
        v < 16,
{
    if v < 10 {
        ((v + 48) as u8) as char
    } else {
        ((v + 87) as u8) as char
    }
}

/// The value of a hexadecimal digit; digits may be lower or upper case.
pub open spec fn hex_val(c: char) -> Option<u8> {
    let u = c as u32;
    if 48 <= u <= 57 {
        Some((u - 48) as u8)
    } else if 97 <= u <= 102 {
        Some((u - 87) as u8)
    } else if 65 <= u <= 70 {
        Some((u - 55) as u8)
    } else {
        None
    }
}

/// The lowercase hexadecimal rendering of a byte sequence: two digits per byte.
pub open spec fn spec_hex_encode(bytes: Seq<u8>) -> Seq<char> {
    Seq::new(
        2 * bytes.len(),
        |i: int|
            if i % 2 == 0 {
                hex_digit_char(bytes[i / 2] / 16)
            } else {
                hex_digit_char(bytes[i / 2] % 16)
            },
    )
}

/// A string decodes as hexadecimal when its length is even and every
/// character is a hexadecimal digit.
pub open spec fn valid_hex(s: Seq<char>) -> bool {
    &&& s.len() % 2 == 0
    &&& forall|i: int| 0 <= i < s.len() ==> hex_val(#[trigger] s[i]) is Some
}

/// The byte encoded by the digit pair at position `i` of a hexadecimal string.
pub open spec fn hex_byte_at(s: Seq<char>, i: int) -> u8
    recommends
        valid_hex(s),
        0 <= i < s.len() / 2,
{
    (hex_val(s[2 * i]).unwrap() * 16 + hex_val(s[2 * i + 1]).unwrap()) as u8
}

/// The bytes encoded by a hexadecimal string.
pub open spec fn spec_hex_bytes(s: Seq<char>) -> Seq<u8> {
    Seq::new(s.len() / 2, |i: int| hex_byte_at(s, i))
}

/// Every hexadecimal digit value decodes back to itself.
proof fn lemma_hex_digit_inverse(v: u8)
    requires
        v < 16,
    ensures
        hex_val(hex_digit_char(v)) == Some(v),
{
}

/// The lowercase hexadecimal digit for a value below 16.
fn hex_digit(v: u8) -> (c: char)
    requires
        v < 16,
    ensures
        c == hex_digit_char(v),
{
    if v < 10 {
        (v + 48) as char
    } else {
        (v + 87) as char
    }
}

/// Encodes the UTF-8 bytes of the input as a lowercase hexadecimal string.
pub fn string_to_hex(input: &str) -> (r: String)
    ensures
        r@ == spec_hex_encode(encode_utf8(input@)),
{
    hex_encode_bytes(input.as_bytes())
}

/// Encodes a byte slice as a lowercase hexadecimal string.
pub(crate) fn hex_encode_bytes(bytes: &[u8]) -> (r: String)
    ensures
        r@ == spec_hex_encode(bytes@),
{
    let n: usize = bytes.len();
    let mut out = String::new();
    let mut i: usize = 0;
    while i < n
        invariant
            n == bytes@.len(),
            0 <= i <= n,
            out@ =~= spec_hex_encode(bytes@).subrange(0, 2 * i as int),
        decreases n - i,
    {
        let b = bytes[i];
        push_char(&mut out, hex_digit(b / 16));
        push_char(&mut out, hex_digit(b % 16));
        i = i + 1;
        assert(out@ =~= spec_hex_encode(bytes@).subrange(0, 2 * i as int));
    }
    proof {
        assert(out@ =~= spec_hex_encode(bytes@));
    }
    out
}

/// Decodes a hexadecimal string and renders the bytes as text, replacing
/// invalid UTF-8 sequences; rejects odd lengths and non-digit characters.
pub fn hex_to_string(hex: &str) -> (r: Result<String, HexError>)
    ensures
        (hex@.len() % 2 != 0) <==> r == Err::<String, HexError>(HexError::OddLength),
        (hex@.len() % 2 == 0 && !valid_hex(hex@)) <==> r == Err::<String, HexError>(
            HexError::InvalidDigit,
        ),
        valid_hex(hex@) ==> r is Ok && r->Ok_0@ == lossy_decode(spec_hex_bytes(hex@)),
        valid_hex(hex@) && valid_utf8(spec_hex_bytes(hex@)) ==> r is Ok && r->Ok_0@ == decode_utf8(
            spec_hex_bytes(hex@),
        ),
{
    let n: usize = hex.unicode_len();
    if n % 2 != 0 {
        return Err(HexError::OddLength);
    }
    let mut bytes: Vec<u8> = Vec::new();
    let mut i: usize = 0;
    while i < n
        invariant
            n == hex@.len(),
            n % 2 == 0,
            0 <= i <= n,
            i % 2 == 0,
            forall|j: int| 0 <= j < i ==> hex_val(#[trigger] hex@[j]) is Some,
            bytes@ =~= spec_hex_bytes(hex@).subrange(0, i as int / 2),
        decreases n - i,
    {
        let c0 = hex.get_char(i);
        let c1 = hex.get_char(i + 1);
        let h = match hex_val_exec(c0) {
            Some(v) => v,
            None => {
                return Err(HexError::InvalidDigit);
            },
        };
        let l = match hex_val_exec(c1) {
            Some(v) => v,
            None => {
                return Err(HexError::InvalidDigit);
            },
        };
        bytes.push(h * 16 + l);
        i = i + 2;
        assert(bytes@ =~= spec_hex_bytes(hex@).subrange(0, i as int / 2));
    }
    proof {
        assert(bytes@ =~= spec_hex_bytes(hex@));
    }
    Ok(bytes_to_string_lossy(&bytes))
}

/// The value of a hexadecimal digit; digits may be lower or upper case.
fn hex_val_exec(c: char) -> (r: Option<u8>)
    ensures
        r == hex_val(c),
{
    let u = c as u32;
    if 48 <= u && u <= 57 {
        Some((u - 48) as u8)
    } else if 97 <= u && u <= 102 {
        Some((u - 87) as u8)
    } else if 65 <= u && u <= 70 {
        Some((u - 55) as u8)
    } else {
        None
    }
}

/// Law: the hexadecimal encoding of any byte sequence decodes back to
/// exactly those bytes.
pub proof fn lemma_hex_round_trip_bytes(b: Seq<u8>)
    ensures
        valid_hex(spec_hex_encode(b)),
        spec_hex_bytes(spec_hex_encode(b)) == b,
{
    let e = spec_hex_encode(b);
    assert forall|i: int| 0 <= i < e.len() implies hex_val(#[trigger] e[i]) is Some by {
        if i % 2 == 0 {
            lemma_hex_digit_inverse(b[i / 2] / 16);
        } else {
            lemma_hex_digit_inverse(b[i / 2] % 16);
        }
    }
    assert forall|i: int| 0 <= i < b.len() implies spec_hex_bytes(e)[i] == b[i] by {
        lemma_hex_digit_inverse(b[i] / 16);
        lemma_hex_digit_inverse(b[i] % 16);
        assert(e[2 * i] == hex_digit_char(b[i] / 16));
        assert(e[2 * i + 1] == hex_digit_char(b[i] % 16));
    }
    assert(spec_hex_bytes(e) =~= b);
}

/// Law: encoding any string as hexadecimal and decoding the result returns
/// the same string.
pub proof fn lemma_hex_round_trip(s: Seq<char>)
    ensures
        valid_hex(spec_hex_encode(encode_utf8(s))),
        valid_utf8(spec_hex_bytes(spec_hex_encode(encode_utf8(s)))),
        decode_utf8(spec_hex_bytes(spec_hex_encode(encode_utf8(s)))) == s,
{
    lemma_hex_round_trip_bytes(encode_utf8(s));
    encode_utf8_valid_utf8(s);
    encode_utf8_decode_utf8(s);
}

} // verus!
