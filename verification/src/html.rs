//! HTML entity encoding and decoding of text.
use vstd::prelude::*;

verus! {

/// The HTML text encoding of one character: `&`, `<` and `>` become named
/// entities, every other character stands unchanged.
pub open spec fn html_encode_char(c: char) -> Seq<char> {
    if c == '&' {
        seq!['&', 'a', 'm', 'p', ';']
    } else if c == '<' {
        seq!['&', 'l', 't', ';']
    } else if c == '>' {
        seq!['&', 'g', 't', ';']
    } else {
        seq![c]
    }
}

/// The HTML text encoding of a string.
pub open spec fn spec_html_encode(s: Seq<char>) -> Seq<char>
    decreases s.len(),
{
    if s.len() == 0 {
        seq![]
    } else {
        html_encode_char(s[0]) + spec_html_encode(s.drop_first())
    }
}

/// Law: the HTML text encoding of any string holds no raw `<` or `>`; the
/// reserved characters stand only inside named entities.
pub proof fn lemma_html_encode_escapes(s: Seq<char>)
    ensures
        forall|i: int|
            0 <= i < spec_html_encode(s).len() ==> spec_html_encode(s)[i] != '<'
                && spec_html_encode(s)[i] != '>',
    decreases s.len(),
{
    if s.len() == 0 {
    } else {
        lemma_html_encode_escapes(s.drop_first());
        let head = html_encode_char(s[0]);
        let tail = spec_html_encode(s.drop_first());
        assert forall|i: int|
            0 <= i < spec_html_encode(s).len() implies spec_html_encode(s)[i] != '<'
            && spec_html_encode(s)[i] != '>' by {
            if i < head.len() {
                assert(spec_html_encode(s)[i] == head[i]);
            } else {
                assert(spec_html_encode(s)[i] == tail[i - head.len()]);
            }
        }
    }
}

/// What `html_escape::decode_html_entities` returns: a function of the text
/// alone.
pub uninterp spec fn html_decoded(s: Seq<char>) -> Seq<char>;

/// Relies on `html_escape::encode_text`: it replaces `&`, `<` and `>` by
/// `&amp;`, `&lt;` and `&gt;` and keeps every other character.
#[verifier::external_body]
pub fn encode_html_string(input: String) -> (r: String)
    ensures
        r@ == spec_html_encode(input@),
{
    html_escape::encode_text(&input).to_string()
}

/// Relies on `html_escape::decode_html_entities`: the result depends on the
/// text alone; it decodes exact named and numeric character references that
/// end in `;`, and in text written by `encode_text` every `&` starts one of
/// the exact references `&amp;`, `&lt;` or `&gt;`, so decoding inverts that
/// encoding.
#[verifier::external_body]
pub fn decode_html_string(input: String) -> (r: String)
    ensures
        r@ == html_decoded(input@),
        forall|s: Seq<char>| input@ == spec_html_encode(s) ==> r@ == s,
{
    html_escape::decode_html_entities(&input).to_string()
}

} // verus!
