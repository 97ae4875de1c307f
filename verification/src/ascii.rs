//! Renderings between text and the space-separated decimal values of its
//! bytes.
use vstd::prelude::*;
use crate::text::push_char;
use vstd::utf8::encode_utf8;

verus! {

/// The decimal digit character for a value below ten.
pub open spec fn digit_char(d: u8) -> char
    recommends
        d < 10,
{
    ((d + 48) as u8) as char
}

/// The value of a decimal digit character.
pub open spec fn digit_val(c: char) -> Option<u8> {
    let u = c as u32;
    if 48 <= u <= 57 {
        Some((u - 48) as u8)
    } else {
        None
    }
}

/// The decimal rendering of a byte: one to three digits, no leading zeros.
pub open spec fn dec_rep(b: u8) -> Seq<char> {
    if b < 10 {
        seq![digit_char(b)]
    } else if b < 100 {
        seq![digit_char(b / 10), digit_char(b % 10)]
    } else {
        seq![digit_char(b / 100), digit_char((b / 10) % 10), digit_char(b % 10)]
    }
}

/// The decimal renderings of all bytes after the first, each preceded by
/// one space.
pub open spec fn spec_join_tail(bytes: Seq<u8>) -> Seq<char>
    decreases bytes.len(),
{
    if bytes.len() == 0 {
        seq![]
    } else {
        seq![' '] + dec_rep(bytes[0]) + spec_join_tail(bytes.drop_first())
    }
}

/// The decimal renderings of the bytes, separated by single spaces.
pub open spec fn spec_ascii_join(bytes: Seq<u8>) -> Seq<char> {
    if bytes.len() == 0 {
        seq![]
    } else {
        dec_rep(bytes[0]) + spec_join_tail(bytes.drop_first())
    }
}

proof fn lemma_join_tail_snoc(s: Seq<u8>, x: u8)
    ensures
        spec_join_tail(s.push(x)) == spec_join_tail(s) + seq![' '] + dec_rep(x),
    decreases s.len(),
{
    if s.len() == 0 {
        assert(s.push(x)[0] == x);
        assert(s.push(x).drop_first() =~= Seq::<u8>::empty());
        assert(spec_join_tail(s.push(x).drop_first()) =~= Seq::<char>::empty());
        assert(spec_join_tail(s) =~= Seq::<char>::empty());
        assert(spec_join_tail(s.push(x)) =~= spec_join_tail(s) + seq![' '] + dec_rep(x));
    } else {
        assert(s.push(x)[0] == s[0]);
        assert(s.push(x).drop_first() =~= s.drop_first().push(x));
        lemma_join_tail_snoc(s.drop_first(), x);
        assert(spec_join_tail(s.push(x)) =~= spec_join_tail(s) + seq![' '] + dec_rep(x));
    }
}

proof fn lemma_join_snoc(s: Seq<u8>, x: u8)
    ensures
        spec_ascii_join(s.push(x)) == (if s.len() == 0 {
            dec_rep(x)
        } else {
            spec_ascii_join(s) + seq![' '] + dec_rep(x)
        }),
{
    if s.len() == 0 {
        assert(s.push(x)[0] == x);
        assert(s.push(x).drop_first() =~= Seq::<u8>::empty());
        assert(spec_join_tail(s.push(x).drop_first()) =~= Seq::<char>::empty());
        assert(spec_ascii_join(s.push(x)) =~= dec_rep(x));
    } else {
        assert(s.push(x)[0] == s[0]);
        assert(s.push(x).drop_first() =~= s.drop_first().push(x));
        lemma_join_tail_snoc(s.drop_first(), x);
        assert(spec_ascii_join(s.push(x)) =~= spec_ascii_join(s) + seq![' '] + dec_rep(x));
    }
}

/// Appends the decimal rendering of a byte to the string.
fn push_dec(out: &mut String, b: u8)
    ensures
        final(out)@ == old(out)@ + dec_rep(b),
{
    if b < 10 {
        push_char(out, (b + 48) as char);
    } else if b < 100 {
        push_char(out, (b / 10 + 48) as char);
        push_char(out, (b % 10 + 48) as char);
    } else {
        push_char(out, (b / 100 + 48) as char);
        push_char(out, ((b / 10) % 10 + 48) as char);
        push_char(out, (b % 10 + 48) as char);
    }
    proof {
        assert(out@ =~= old(out)@ + dec_rep(b));
    }
}

/// Renders each byte of the UTF-8 encoding of the input as its decimal
/// value, separated by single spaces.
pub fn string_to_ascii(input: &str) -> (r: String)
    ensures
        r@ == spec_ascii_join(encode_utf8(input@)),
{
    let bytes: &[u8] = input.as_bytes();
    let n: usize = bytes.len();
    let mut out = String::new();
    let mut i: usize = 0;
    while i < n
        invariant
            n == bytes@.len(),
            0 <= i <= n,
            out@ == spec_ascii_join(bytes@.subrange(0, i as int)),
        decreases n - i,
    {
        if i > 0 {
            push_char(&mut out, ' ');
        }
        push_dec(&mut out, bytes[i]);
        proof {
            let pre = bytes@.subrange(0, i as int);
            assert(bytes@.subrange(0, i + 1 as int) =~= pre.push(bytes@[i as int]));
            lemma_join_snoc(pre, bytes@[i as int]);
            assert(out@ =~= spec_ascii_join(bytes@.subrange(0, i + 1 as int)));
        }
        i = i + 1;
    }
    proof {
        assert(bytes@.subrange(0, n as int) =~= bytes@);
    }
    out
}

/// The characters that separate decimal values: the Unicode white-space
/// characters.
pub open spec fn is_ws(c: char) -> bool {
    let u = c as u32;
    ||| 9 <= u <= 13
    ||| u == 32
    ||| u == 0x85
    ||| u == 0xA0
    ||| u == 0x1680
    ||| 0x2000 <= u <= 0x200A
    ||| u == 0x2028
    ||| u == 0x2029
    ||| u == 0x202F
    ||| u == 0x205F
    ||| u == 0x3000
}

/// The characters that separate decimal values.
fn is_ws_exec(c: char) -> (r: bool)
    ensures
        r == is_ws(c),
{
    let u = c as u32;
    (9 <= u && u <= 13) || u == 32 || u == 0x85 || u == 0xA0 || u == 0x1680 || (0x2000 <= u && u
        <= 0x200A) || u == 0x2028 || u == 0x2029 || u == 0x202F || u == 0x205F || u == 0x3000
}

/// How many characters the whitespace-free run at the start of the text
/// has.
pub open spec fn token_end(s: Seq<char>) -> int
    decreases s.len(),
{
    if s.len() == 0 {
        0
    } else if is_ws(s[0]) {
        0
    } else {
        1 + token_end(s.drop_first())
    }
}

/// The maximal whitespace-free runs of the text, in order.
pub open spec fn spec_tokens(s: Seq<char>) -> Seq<Seq<char>>
    decreases s.len(),
{
    if s.len() == 0 {
        seq![]
    } else if is_ws(s[0]) {
        spec_tokens(s.drop_first())
    } else {
        let k = token_end(s);
        if 1 <= k <= s.len() {
            seq![s.subrange(0, k)] + spec_tokens(s.subrange(k, s.len() as int))
        } else {
            seq![]
        }
    }
}

/// The first token ends at the first whitespace character.
proof fn lemma_token_end_run(s: Seq<char>, k: int)
    requires
        0 <= k <= s.len(),
        forall|m: int| 0 <= m < k ==> !is_ws(#[trigger] s[m]),
        k == s.len() || is_ws(s[k]),
    ensures
        token_end(s) == k,
    decreases k,
{
    if k == 0 {
    } else {
        assert(!is_ws(s[0]));
        assert forall|m: int| 0 <= m < k - 1 implies !is_ws(#[trigger] s.drop_first()[m]) by {
            assert(s.drop_first()[m] == s[m + 1]);
        }
        lemma_token_end_run(s.drop_first(), k - 1);
    }
}

/// The numeric value of a run of decimal digits.
pub open spec fn dec_value(d: Seq<char>) -> int
    decreases d.len(),
{
    if d.len() == 0 {
        0
    } else {
        dec_value(d.drop_last()) * 10 + digit_val(d.last()).unwrap()
    }
}

proof fn lemma_dec_value_nonneg(d: Seq<char>)
    ensures
        dec_value(d) >= 0,
    decreases d.len(),
{
    if d.len() == 0 {
    } else {
        lemma_dec_value_nonneg(d.drop_last());
    }
}

/// A prefix of a digit run never has a larger value than the whole run.
proof fn lemma_dec_value_mono(d: Seq<char>, j: int)
    requires
        0 <= j <= d.len(),
    ensures
        dec_value(d.subrange(0, j)) <= dec_value(d),
    decreases d.len() - j,
{
    if j == d.len() {
        assert(d.subrange(0, j) =~= d);
    } else {
        assert(d.subrange(0, j + 1).drop_last() =~= d.subrange(0, j));
        lemma_dec_value_nonneg(d.subrange(0, j));
        lemma_dec_value_mono(d, j + 1);
    }
}

/// A token with a leading plus sign stripped.
pub open spec fn sign_stripped(t: Seq<char>) -> Seq<char> {
    if t.len() > 0 && t[0] == '+' {
        t.drop_first()
    } else {
        t
    }
}

/// True when every character of the run is a decimal digit.
pub open spec fn all_digits(d: Seq<char>) -> bool {
    forall|m: int| 0 <= m < d.len() ==> digit_val(#[trigger] d[m]) is Some
}

/// Parses a token as a byte value, as `u8::from_str` does: an optional plus
/// sign, then decimal digits whose value is at most 255.
pub open spec fn parse_u8(t: Seq<char>) -> Option<u8> {
    let d = sign_stripped(t);
    if d.len() > 0 && all_digits(d) && dec_value(d) <= 255 {
        Some(dec_value(d) as u8)
    } else {
        None
    }
}

/// Parses a token as a byte value.
fn parse_token(tok: &Vec<char>) -> (r: Option<u8>)
    ensures
        r == parse_u8(tok@),
{
    let len: usize = tok.len();
    if len == 0 {
        return None;
    }
    let start: usize = if tok[0] == '+' {
        1
    } else {
        0
    };
    let ghost d = sign_stripped(tok@);
    proof {
        assert(d =~= tok@.subrange(start as int, len as int));
    }
    if start == len {
        return None;
    }
    let mut acc: u32 = 0;
    let mut j: usize = start;
    while j < len
        invariant
            start <= j <= len,
            len == tok@.len(),
            start < len,
            start <= 1,
            d == sign_stripped(tok@),
            d =~= tok@.subrange(start as int, len as int),
            forall|m: int| 0 <= m < j - start ==> digit_val(#[trigger] d[m]) is Some,
            acc as int == dec_value(d.subrange(0, j - start)),
            acc <= 255,
        decreases len - j,
    {
        let c = tok[j];
        let u = c as u32;
        if u < 48 || u > 57 {
            proof {
                let m0: int = j - start;
                assert(digit_val(d[m0]) is None);
                assert(!all_digits(d));
            }
            return None;
        }
        proof {
            assert(d.subrange(0, j + 1 - start).drop_last() =~= d.subrange(0, j - start));
            assert(d.subrange(0, j + 1 - start).last() == d[j - start]);
        }
        acc = acc * 10 + (u - 48);
        if acc > 255 {
            proof {
                lemma_dec_value_mono(d, j + 1 - start);
                assert(dec_value(d) > 255);
            }
            return None;
        }
        j = j + 1;
    }
    proof {
        assert(d.subrange(0, len - start) =~= d);
        assert(all_digits(d));
    }
    Some(acc as u8)
}

/// The characters the tokens contribute: each token that parses as a byte
/// value becomes the character with that code, the rest contribute nothing.
pub open spec fn spec_render(tokens: Seq<Seq<char>>) -> Seq<char>
    decreases tokens.len(),
{
    if tokens.len() == 0 {
        seq![]
    } else {
        (match parse_u8(tokens[0]) {
            Some(b) => seq![b as char],
            None => seq![],
        }) + spec_render(tokens.drop_first())
    }
}

/// The text built from a whitespace-separated list of decimal byte values.
pub open spec fn spec_ascii_to_string(s: Seq<char>) -> Seq<char> {
    spec_render(spec_tokens(s))
}

/// Reads whitespace-separated decimal byte values and builds the text whose
/// characters have those codes; values that do not parse as a byte are
/// dropped.
pub fn ascii_to_string(input: &str) -> (r: String)
    ensures
        r@ == spec_ascii_to_string(input@),
{
    let n: usize = input.unicode_len();
    let mut out = String::new();
    let mut i: usize = 0;
    proof {
        assert(input@.subrange(0, n as int) =~= input@);
        assert(out@ + spec_render(spec_tokens(input@)) =~= spec_render(spec_tokens(input@)));
    }
    while i < n
        invariant
            n == input@.len(),
            0 <= i <= n,
            spec_render(spec_tokens(input@)) == out@ + spec_render(
                spec_tokens(input@.subrange(i as int, n as int)),
            ),
        decreases n - i,
    {
        let c = input.get_char(i);
        if is_ws_exec(c) {
            proof {
                assert(input@.subrange(i as int, n as int).drop_first() =~= input@.subrange(
                    i as int + 1,
                    n as int,
                ));
            }
            i = i + 1;
        } else {
            let mut tok: Vec<char> = Vec::new();
            tok.push(c);
            let mut j: usize = i + 1;
            loop
                invariant
                    i < j <= n,
                    n == input@.len(),
                    tok@ =~= input@.subrange(i as int, j as int),
                    forall|m: int| i <= m < j ==> !is_ws(#[trigger] input@[m]),
                ensures
                    i < j <= n,
                    tok@ =~= input@.subrange(i as int, j as int),
                    forall|m: int| i <= m < j ==> !is_ws(#[trigger] input@[m]),
                    j == n || is_ws(input@[j as int]),
                decreases n - j,
            {
                if j == n {
                    break ;
                }
                let c2 = input.get_char(j);
                if is_ws_exec(c2) {
                    break ;
                }
                tok.push(c2);
                j = j + 1;
            }
            proof {
                let rest = input@.subrange(i as int, n as int);
                assert forall|m: int| 0 <= m < j - i implies !is_ws(#[trigger] rest[m]) by {
                    assert(rest[m] == input@[i + m]);
                }
                if j < n {
                    assert(rest[j - i] == input@[j as int]);
                }
                lemma_token_end_run(rest, j - i);
                assert(rest.subrange(0, j - i) =~= input@.subrange(i as int, j as int));
                assert(rest.subrange(j - i, rest.len() as int) =~= input@.subrange(
                    j as int,
                    n as int,
                ));
                assert(spec_tokens(rest) == seq![tok@] + spec_tokens(
                    input@.subrange(j as int, n as int),
                ));
                assert((seq![tok@] + spec_tokens(input@.subrange(j as int, n as int)))[0] == tok@);
                assert((seq![tok@] + spec_tokens(input@.subrange(j as int, n as int))).drop_first()
                    =~= spec_tokens(input@.subrange(j as int, n as int)));
            }
            match parse_token(&tok) {
                Some(b) => push_char(&mut out, b as char),
                None => {},
            }
            i = j;
        }
        assert(spec_render(spec_tokens(input@)) == out@ + spec_render(
            spec_tokens(input@.subrange(i as int, n as int)),
        ));
    }
    proof {
        assert(input@.subrange(n as int, n as int) =~= Seq::<char>::empty());
        assert(out@ + Seq::<char>::empty() =~= out@);
    }
    out
}

} // verus!
