//! Base64 encoding and decoding, in the standard and in the URL-safe alphabet.
//!
//! The encoder always pads its output with `=` to a multiple of four
//! characters; the decoder accepts exactly such canonical strings.
use vstd::prelude::*;
use crate::text::push_char;
use vstd::utf8::{decode_utf8, encode_utf8, encode_utf8_decode_utf8, encode_utf8_valid_utf8,
    valid_utf8};

verus! {

/// Why a Base64 string could not be decoded.
#[derive(Clone, Copy, Debug, PartialEq, Eq, Structural)]
pub enum Base64Error {
    /// The string's length is no multiple of four.
    InvalidLength,
    /// A character is outside the alphabet, padding stands in the wrong
    /// place, or the final group leaves spare bits set.
    InvalidSymbol,
}

/// The alphabet character for a six-bit value.
pub open spec fn b64_char(v: u8, url: bool) -> char
    recommends
        v < 64,
{
    if v < 26 {
        ((v + 65) as u8) as char
    } else if v < 52 {
        ((v + 71) as u8) as char
    } else if v < 62 {
        ((v - 4) as u8) as char
    } else if v == 62 {
        if url {
            '-'
        } else {
            '+'
        }
    } else {
        if url {
            '_'
        } else {
            '/'
        }
    }
}

/// The six-bit value of an alphabet character.
pub open spec fn b64_val(c: char, url: bool) -> Option<u8> {
    let u = c as u32;
    if 65 <= u <= 90 {
        Some((u - 65) as u8)
    } else if 97 <= u <= 122 {
        Some((u - 71) as u8)
    } else if 48 <= u <= 57 {
        Some((u + 4) as u8)
    } else if !url && u == 43 {
        Some(62)
    } else if !url && u == 47 {
        Some(63)
    } else if url && u == 45 {
        Some(62)
    } else if url && u == 95 {
        Some(63)
    } else {
        None
    }
}

/// The length of the padded encoding of `n` bytes.
pub open spec fn b64_encoded_len(n: int) -> int {
    if n % 3 == 0 {
        4 * (n / 3)
    } else {
        4 * (n / 3) + 4
    }
}

/// The character at position `j` of the padded encoding of `b`.
pub open spec fn spec_b64_encode_char(b: Seq<u8>, url: bool, j: int) -> char
    recommends
        0 <= j < b64_encoded_len(b.len() as int),
{
    let k = j / 4;
    let n = b.len() as int;
    let a0 = b[3 * k];
    let a1: u8 = if 3 * k + 1 < n {
        b[3 * k + 1]
    } else {
        0
    };
    let a2: u8 = if 3 * k + 2 < n {
        b[3 * k + 2]
    } else {
        0
    };
    if j % 4 == 0 {
        b64_char(a0 / 4, url)
    } else if j % 4 == 1 {
        b64_char(((a0 % 4) * 16 + a1 / 16) as u8, url)
    } else if j % 4 == 2 {
        if 3 * k + 1 < n {
            b64_char(((a1 % 16) * 4 + a2 / 64) as u8, url)
        } else {
            '='
        }
    } else {
        if 3 * k + 2 < n {
            b64_char((a2 % 64) as u8, url)
        } else {
            '='
        }
    }
}

/// The padded Base64 encoding of a byte sequence.
pub open spec fn spec_b64_encode(b: Seq<u8>, url: bool) -> Seq<char> {
    Seq::new(b64_encoded_len(b.len() as int) as nat, |j: int| spec_b64_encode_char(b, url, j))
}

/// A string decodes as canonical Base64 when its length is a multiple of
/// four, every character before the final two is in the alphabet, padding
/// stands only at the end, and the bits a final group leaves unused are zero.
pub open spec fn valid_b64(s: Seq<char>, url: bool) -> bool {
    let n = s.len() as int;
    &&& n % 4 == 0
    &&& forall|j: int| 0 <= j < n - 2 ==> b64_val(#[trigger] s[j], url) is Some
    &&& (n > 0 ==> {
        let c2 = s[n - 2];
        let c3 = s[n - 1];
        if c3 == '=' {
            if c2 == '=' {
                b64_val(s[n - 3], url).unwrap() % 16 == 0
            } else {
                b64_val(c2, url) is Some && b64_val(c2, url).unwrap() % 4 == 0
            }
        } else {
            b64_val(c2, url) is Some && b64_val(c3, url) is Some
        }
    })
}

/// How many bytes a canonical Base64 string encodes.
pub open spec fn b64_data_len(s: Seq<char>) -> int {
    let n = s.len() as int;
    if n == 0 {
        0
    } else if s[n - 1] == '=' {
        if s[n - 2] == '=' {
            (n / 4) * 3 - 2
        } else {
            (n / 4) * 3 - 1
        }
    } else {
        (n / 4) * 3
    }
}

/// The byte at position `i` of the decoding of a canonical Base64 string.
pub open spec fn b64_byte_at(s: Seq<char>, url: bool, i: int) -> u8
    recommends
        valid_b64(s, url),
        0 <= i < b64_data_len(s),
{
    let k = i / 3;
    let v0 = b64_val(s[4 * k], url).unwrap();
    let v1 = b64_val(s[4 * k + 1], url).unwrap();
    let v2 = b64_val(s[4 * k + 2], url).unwrap();
    let v3 = b64_val(s[4 * k + 3], url).unwrap();
    if i % 3 == 0 {
        (v0 * 4 + v1 / 16) as u8
    } else if i % 3 == 1 {
        ((v1 % 16) * 16 + v2 / 4) as u8
    } else {
        ((v2 % 4) * 64 + v3) as u8
    }
}

/// The bytes a canonical Base64 string encodes.
pub open spec fn spec_b64_decode_bytes(s: Seq<char>, url: bool) -> Seq<u8> {
    Seq::new(b64_data_len(s) as nat, |i: int| b64_byte_at(s, url, i))
}

/// Every six-bit value decodes back to itself in either alphabet.
proof fn lemma_b64_char_inverse(v: u8, url: bool)
    requires
        v < 64,
    ensures
        b64_val(b64_char(v, url), url) == Some(v),
{
}

/// The alphabet character for a six-bit value.
fn b64_char_exec(v: u8, url: bool) -> (c: char)
    requires
        v < 64,
    ensures
        c == b64_char(v, url),
{
    if v < 26 {
        (v + 65) as char
    } else if v < 52 {
        (v + 71) as char
    } else if v < 62 {
        (v - 4) as char
    } else if v == 62 {
        if url {
            '-'
        } else {
            '+'
        }
    } else {
        if url {
            '_'
        } else {
            '/'
        }
    }
}

/// The six-bit value of an alphabet character.
fn b64_val_exec(c: char, url: bool) -> (r: Option<u8>)
    ensures
        r == b64_val(c, url),
{
    let u = c as u32;
    if 65 <= u && u <= 90 {
        Some((u - 65) as u8)
    } else if 97 <= u && u <= 122 {
        Some((u - 71) as u8)
    } else if 48 <= u && u <= 57 {
        Some((u + 4) as u8)
    } else if !url && u == 43 {
        Some(62)
    } else if !url && u == 47 {
        Some(63)
    } else if url && u == 45 {
        Some(62)
    } else if url && u == 95 {
        Some(63)
    } else {
        None
    }
}

/// Encodes bytes as padded Base64 in the chosen alphabet.
fn b64_encode_bytes(bytes: &[u8], url: bool) -> (r: String)
    ensures
        r@ == spec_b64_encode(bytes@, url),
{
    let ghost enc = spec_b64_encode(bytes@, url);
    let n: usize = bytes.len();
    let mut out = String::new();
    let mut i: usize = 0;
    while n - i >= 3
        invariant
            n == bytes@.len(),
            0 <= i <= n,
            i % 3 == 0,
            out@ =~= enc.subrange(0, 4 * (i as int / 3)),
            enc == spec_b64_encode(bytes@, url),
        decreases n - i,
    {
        let a0 = bytes[i];
        let a1 = bytes[i + 1];
        let a2 = bytes[i + 2];
        push_char(&mut out, b64_char_exec(a0 / 4, url));
        push_char(&mut out, b64_char_exec((a0 % 4) * 16 + a1 / 16, url));
        push_char(&mut out, b64_char_exec((a1 % 16) * 4 + a2 / 64, url));
        push_char(&mut out, b64_char_exec(a2 % 64, url));
        i = i + 3;
        assert(out@ =~= enc.subrange(0, 4 * (i as int / 3)));
    }
    if n - i == 1 {
        let a0 = bytes[i];
        push_char(&mut out, b64_char_exec(a0 / 4, url));
        push_char(&mut out, b64_char_exec((a0 % 4) * 16, url));
        push_char(&mut out, '=');
        push_char(&mut out, '=');
    } else if n - i == 2 {
        let a0 = bytes[i];
        let a1 = bytes[i + 1];
        push_char(&mut out, b64_char_exec(a0 / 4, url));
        push_char(&mut out, b64_char_exec((a0 % 4) * 16 + a1 / 16, url));
        push_char(&mut out, b64_char_exec((a1 % 16) * 4, url));
        push_char(&mut out, '=');
    }
    proof {
        assert(out@ =~= enc);
    }
    out
}

/// Decodes a canonical Base64 string in the chosen alphabet.
fn b64_decode_str(s: &str, url: bool) -> (r: Result<Vec<u8>, Base64Error>)
    ensures
        (s@.len() % 4 != 0) <==> r == Err::<Vec<u8>, Base64Error>(Base64Error::InvalidLength),
        (s@.len() % 4 == 0 && !valid_b64(s@, url)) <==> r == Err::<Vec<u8>, Base64Error>(
            Base64Error::InvalidSymbol,
        ),
        valid_b64(s@, url) <==> r is Ok,
        r is Ok ==> r->Ok_0@ == spec_b64_decode_bytes(s@, url),
{
    let n: usize = s.unicode_len();
    if n % 4 != 0 {
        return Err(Base64Error::InvalidLength);
    }
    let mut out: Vec<u8> = Vec::new();
    if n == 0 {
        assert(out@ =~= spec_b64_decode_bytes(s@, url));
        return Ok(out);
    }
    let g: usize = n / 4;
    let mut k: usize = 0;
    while k < g - 1
        invariant
            n == s@.len(),
            n % 4 == 0,
            n > 0,
            g == n / 4,
            0 <= k <= g - 1,
            forall|j: int| 0 <= j < 4 * k ==> b64_val(#[trigger] s@[j], url) is Some,
            out@.len() == 3 * k,
            forall|i: int| 0 <= i < 3 * k ==> out@[i] == b64_byte_at(s@, url, i),
        decreases g - k,
    {
        let c0 = s.get_char(4 * k);
        let c1 = s.get_char(4 * k + 1);
        let c2 = s.get_char(4 * k + 2);
        let c3 = s.get_char(4 * k + 3);
        let v0 = match b64_val_exec(c0, url) {
            Some(v) => v,
            None => {
                return Err(Base64Error::InvalidSymbol);
            },
        };
        let v1 = match b64_val_exec(c1, url) {
            Some(v) => v,
            None => {
                return Err(Base64Error::InvalidSymbol);
            },
        };
        let v2 = match b64_val_exec(c2, url) {
            Some(v) => v,
            None => {
                return Err(Base64Error::InvalidSymbol);
            },
        };
        let v3 = match b64_val_exec(c3, url) {
            Some(v) => v,
            None => {
                return Err(Base64Error::InvalidSymbol);
            },
        };
        out.push(v0 * 4 + v1 / 16);
        out.push((v1 % 16) * 16 + v2 / 4);
        out.push((v2 % 4) * 64 + v3);
        k = k + 1;
    }
    // the final group of four characters, where padding may stand
    let c0 = s.get_char(n - 4);
    let c1 = s.get_char(n - 3);
    let c2 = s.get_char(n - 2);
    let c3 = s.get_char(n - 1);
    let v0 = match b64_val_exec(c0, url) {
        Some(v) => v,
        None => {
            return Err(Base64Error::InvalidSymbol);
        },
    };
    let v1 = match b64_val_exec(c1, url) {
        Some(v) => v,
        None => {
            return Err(Base64Error::InvalidSymbol);
        },
    };
    if c3 == '=' {
        if c2 == '=' {
            if v1 % 16 != 0 {
                return Err(Base64Error::InvalidSymbol);
            }
            out.push(v0 * 4 + v1 / 16);
        } else {
            let v2 = match b64_val_exec(c2, url) {
                Some(v) => v,
                None => {
                    return Err(Base64Error::InvalidSymbol);
                },
            };
            if v2 % 4 != 0 {
                return Err(Base64Error::InvalidSymbol);
            }
            out.push(v0 * 4 + v1 / 16);
            out.push((v1 % 16) * 16 + v2 / 4);
        }
    } else {
        let v2 = match b64_val_exec(c2, url) {
            Some(v) => v,
            None => {
                return Err(Base64Error::InvalidSymbol);
            },
        };
        let v3 = match b64_val_exec(c3, url) {
            Some(v) => v,
            None => {
                return Err(Base64Error::InvalidSymbol);
            },
        };
        out.push(v0 * 4 + v1 / 16);
        out.push((v1 % 16) * 16 + v2 / 4);
        out.push((v2 % 4) * 64 + v3);
    }
    proof {
        assert(out@ =~= spec_b64_decode_bytes(s@, url));
    }
    Ok(out)
}

/// Encodes bytes as Base64 in the URL-safe alphabet, with padding.
pub fn base64_encode(input: &[u8]) -> (r: String)
    ensures
        r@ == spec_b64_encode(input@, true),
{
    b64_encode_bytes(input, true)
}

/// Decodes a Base64 string in the URL-safe alphabet.
pub fn base64_decode(input: &str) -> (r: Result<Vec<u8>, Base64Error>)
    ensures
        valid_b64(input@, true) <==> r is Ok,
        r is Ok ==> r->Ok_0@ == spec_b64_decode_bytes(input@, true),
        (input@.len() % 4 != 0) <==> r == Err::<Vec<u8>, Base64Error>(Base64Error::InvalidLength),
        (input@.len() % 4 == 0 && !valid_b64(input@, true)) <==> r == Err::<Vec<u8>, Base64Error>(
            Base64Error::InvalidSymbol,
        ),
{
    b64_decode_str(input, true)
}

/// Encodes bytes as Base64 in the standard alphabet, with padding.
pub fn base64_encode_std(input: &[u8]) -> (r: String)
    ensures
        r@ == spec_b64_encode(input@, false),
{
    b64_encode_bytes(input, false)
}

/// Decodes a Base64 string in the standard alphabet.
pub fn base64_decode_std(input: &str) -> (r: Result<Vec<u8>, Base64Error>)
    ensures
        valid_b64(input@, false) <==> r is Ok,
        r is Ok ==> r->Ok_0@ == spec_b64_decode_bytes(input@, false),
        (input@.len() % 4 != 0) <==> r == Err::<Vec<u8>, Base64Error>(Base64Error::InvalidLength),
        (input@.len() % 4 == 0 && !valid_b64(input@, false)) <==> r == Err::<Vec<u8>, Base64Error>(
            Base64Error::InvalidSymbol,
        ),
{
    b64_decode_str(input, false)
}

/// The Base64 encoding of any byte sequence is canonical.
#[verifier::rlimit(60)]
proof fn lemma_b64_encode_valid(b: Seq<u8>, url: bool)
    ensures
        valid_b64(spec_b64_encode(b, url), url),
{
    let e = spec_b64_encode(b, url);
    let n = b.len() as int;
    let m = b64_encoded_len(n);
    assert forall|j: int| 0 <= j < m && e[j] != '=' implies b64_val(
        #[trigger] e[j],
        url,
    ) is Some by {
        let k = j / 4;
        assert(0 <= 3 * k < n);
        if j % 4 == 0 {
            lemma_b64_char_inverse(b[3 * k] / 4, url);
        } else if j % 4 == 1 {
            let a0 = b[3 * k];
            let a1: u8 = if 3 * k + 1 < n {
                b[3 * k + 1]
            } else {
                0
            };
            lemma_b64_char_inverse(((a0 % 4) * 16 + a1 / 16) as u8, url);
        } else if j % 4 == 2 {
            if 3 * k + 1 < n {
                let a1 = b[3 * k + 1];
                let a2: u8 = if 3 * k + 2 < n {
                    b[3 * k + 2]
                } else {
                    0
                };
                lemma_b64_char_inverse(((a1 % 16) * 4 + a2 / 64) as u8, url);
            }
        } else {
            if 3 * k + 2 < n {
                lemma_b64_char_inverse((b[3 * k + 2] % 64) as u8, url);
            }
        }
    }
    assert forall|j: int| 0 <= j < m - 2 implies b64_val(#[trigger] e[j], url) is Some by {
        let k = j / 4;
        assert(0 <= 3 * k < n);
        if j % 4 == 2 {
            assert(3 * k + 1 < n);
        }
        if j % 4 == 3 {
            assert(3 * k + 2 < n);
        }
        assert(e[j] != '=');
    }
    if m > 0 {
        if n % 3 == 1 {
            let k = (m - 2) / 4;
            assert(k == n / 3);
            assert(e[m - 2] == '=' && e[m - 1] == '=');
            let a0 = b[3 * k];
            lemma_b64_char_inverse(((a0 % 4) * 16) as u8, url);
            assert(e[m - 3] == b64_char(((a0 % 4) * 16) as u8, url));
            assert(b64_val(e[m - 3], url).unwrap() % 16 == 0);
        } else if n % 3 == 2 {
            let k = (m - 2) / 4;
            assert(k == n / 3);
            let a1 = b[3 * k + 1];
            lemma_b64_char_inverse(((a1 % 16) * 4) as u8, url);
            assert(e[m - 2] == b64_char(((a1 % 16) * 4) as u8, url));
            assert(e[m - 1] == '=');
            assert(b64_val(e[m - 2], url).unwrap() % 4 == 0);
        } else {
            assert(e[m - 2] != '=' && e[m - 1] != '=');
        }
    }
    assert(valid_b64(e, url));
}

/// Decoding the Base64 encoding of any byte sequence recovers each byte.
#[verifier::rlimit(60)]
proof fn lemma_b64_encode_decode_bytes(b: Seq<u8>, url: bool)
    ensures
        spec_b64_decode_bytes(spec_b64_encode(b, url), url) == b,
{
    let e = spec_b64_encode(b, url);
    let n = b.len() as int;
    let m = b64_encoded_len(n);
    assert(b64_data_len(e) == n);
    assert forall|i: int| 0 <= i < n implies spec_b64_decode_bytes(e, url)[i] == b[i] by {
        let k = i / 3;
        let a0 = b[3 * k];
        let a1: u8 = if 3 * k + 1 < n {
            b[3 * k + 1]
        } else {
            0
        };
        let a2: u8 = if 3 * k + 2 < n {
            b[3 * k + 2]
        } else {
            0
        };
        assert(e[4 * k] == b64_char(a0 / 4, url));
        assert(e[4 * k + 1] == b64_char(((a0 % 4) * 16 + a1 / 16) as u8, url));
        lemma_b64_char_inverse(a0 / 4, url);
        lemma_b64_char_inverse(((a0 % 4) * 16 + a1 / 16) as u8, url);
        if i % 3 == 0 {
            assert(b64_byte_at(e, url, i) == b[i]);
        } else if i % 3 == 1 {
            assert(3 * k + 1 < n);
            assert(e[4 * k + 2] == b64_char(((a1 % 16) * 4 + a2 / 64) as u8, url));
            lemma_b64_char_inverse(((a1 % 16) * 4 + a2 / 64) as u8, url);
            assert(b64_byte_at(e, url, i) == b[i]);
        } else {
            assert(3 * k + 2 < n);
            assert(e[4 * k + 2] == b64_char(((a1 % 16) * 4 + a2 / 64) as u8, url));
            assert(e[4 * k + 3] == b64_char((a2 % 64) as u8, url));
            lemma_b64_char_inverse(((a1 % 16) * 4 + a2 / 64) as u8, url);
            lemma_b64_char_inverse((a2 % 64) as u8, url);
            assert(b64_byte_at(e, url, i) == b[i]);
        }
    }
    assert(spec_b64_decode_bytes(e, url) =~= b);
}

/// Law: the Base64 encoding of any byte sequence is canonical and decodes
/// back to exactly those bytes, in either alphabet.
pub proof fn lemma_base64_round_trip_bytes(b: Seq<u8>, url: bool)
    ensures
        valid_b64(spec_b64_encode(b, url), url),
        spec_b64_decode_bytes(spec_b64_encode(b, url), url) == b,
{
    lemma_b64_encode_valid(b, url);
    lemma_b64_encode_decode_bytes(b, url);
}

/// Law: encoding any string as Base64 and decoding the result returns the
/// same string, in either alphabet.
pub proof fn lemma_base64_round_trip(s: Seq<char>, url: bool)
    ensures
        valid_b64(spec_b64_encode(encode_utf8(s), url), url),
        valid_utf8(spec_b64_decode_bytes(spec_b64_encode(encode_utf8(s), url), url)),
        decode_utf8(spec_b64_decode_bytes(spec_b64_encode(encode_utf8(s), url), url)) == s,
{
    lemma_base64_round_trip_bytes(encode_utf8(s), url);
    encode_utf8_valid_utf8(s);
    encode_utf8_decode_utf8(s);
}

} // verus!
