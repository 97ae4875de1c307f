use admin_toolbox::ascii::{ascii_to_string, string_to_ascii};
use admin_toolbox::base64::{base64_decode, base64_decode_std, base64_encode, base64_encode_std,
    Base64Error};
use admin_toolbox::digest::compute_md5;
use admin_toolbox::hexcode::{hex_to_string, string_to_hex, HexError};
use admin_toolbox::html::{decode_html_string, encode_html_string};
use admin_toolbox::json::{pretty_json_from_string, JsonError};

#[test]
fn md5_of_empty_string() {
    assert_eq!(compute_md5(String::new()), "d41d8cd98f00b204e9800998ecf8427e");
}

#[test]
fn md5_of_hello() {
    assert_eq!(compute_md5(String::from("hello")), "5d41402abc4b2a76b9719d911017c592");
}

#[test]
fn base64_std_encode_hello_world() {
    assert_eq!(base64_encode_std("Hello, World!".as_bytes()), "SGVsbG8sIFdvcmxkIQ==");
}

#[test]
fn base64_std_alphabet_tail() {
    assert_eq!(base64_encode_std(&[0xfb, 0xff]), "+/8=");
    assert_eq!(base64_decode_std("+/8=").unwrap(), vec![0xfb, 0xff]);
}

#[test]
fn base64_url_alphabet_tail() {
    assert_eq!(base64_encode(&[0xfb, 0xff]), "-_8=");
    assert_eq!(base64_decode("-_8=").unwrap(), vec![0xfb, 0xff]);
}

#[test]
fn base64_std_round_trip() {
    let inputs = ["", "a", "ab", "abc", "Hello, World!", "h\u{e9}llo w\u{f6}rld \u{2713}"];
    for s in inputs {
        let encoded = base64_encode_std(s.as_bytes());
        let decoded = base64_decode_std(&encoded).unwrap();
        assert_eq!(String::from_utf8_lossy(&decoded), s);
    }
}

#[test]
fn base64_url_round_trip() {
    let inputs = ["", "a", "ab", "abc", "Hello, World!", "h\u{e9}llo w\u{f6}rld \u{2713}"];
    for s in inputs {
        let encoded = base64_encode(s.as_bytes());
        let decoded = base64_decode(&encoded).unwrap();
        assert_eq!(String::from_utf8_lossy(&decoded), s);
    }
}

#[test]
fn base64_rejects_invalid_symbol() {
    assert_eq!(base64_decode_std("abc$"), Err(Base64Error::InvalidSymbol));
    assert_eq!(base64_decode("abc$"), Err(Base64Error::InvalidSymbol));
}

#[test]
fn base64_rejects_bad_length() {
    assert_eq!(base64_decode_std("YQ"), Err(Base64Error::InvalidLength));
    assert_eq!(base64_decode_std("YQ==="), Err(Base64Error::InvalidLength));
}

#[test]
fn base64_rejects_padding_in_the_middle() {
    assert_eq!(base64_decode_std("Y==A"), Err(Base64Error::InvalidSymbol));
    assert_eq!(base64_decode_std("===="), Err(Base64Error::InvalidSymbol));
}

#[test]
fn base64_rejects_spare_bits() {
    // 'R' carries a low bit that a one-byte tail must leave clear
    assert_eq!(base64_decode_std("YR=="), Err(Base64Error::InvalidSymbol));
}

#[test]
fn base64_url_rejects_std_alphabet() {
    assert_eq!(base64_decode("+/8="), Err(Base64Error::InvalidSymbol));
    assert_eq!(base64_decode_std("-_8="), Err(Base64Error::InvalidSymbol));
}

#[test]
fn hex_encode_hello() {
    assert_eq!(string_to_hex("hello"), "68656c6c6f");
}

#[test]
fn hex_decode_hello() {
    assert_eq!(hex_to_string("68656c6c6f").unwrap(), "hello");
}

#[test]
fn hex_accepts_uppercase_digits() {
    assert_eq!(hex_to_string("48490A").unwrap(), "HI\n");
}

#[test]
fn hex_round_trip() {
    let inputs = ["", "a", "Hello, World!", "h\u{e9}llo \u{2713}"];
    for s in inputs {
        assert_eq!(hex_to_string(&string_to_hex(s)).unwrap(), s);
    }
}

#[test]
fn hex_rejects_odd_length() {
    assert_eq!(hex_to_string("abc"), Err(HexError::OddLength));
}

#[test]
fn hex_rejects_non_digits() {
    assert_eq!(hex_to_string("zz"), Err(HexError::InvalidDigit));
    assert_eq!(hex_to_string("6g"), Err(HexError::InvalidDigit));
}

#[test]
fn html_encode_reserved_characters() {
    assert_eq!(encode_html_string(String::from("<a & b>")), "&lt;a &amp; b&gt;");
}

#[test]
fn html_encode_leaves_plain_text() {
    assert_eq!(encode_html_string(String::from("plain 'text' \"here\"")), "plain 'text' \"here\"");
}

#[test]
fn html_decode_named_entities() {
    assert_eq!(decode_html_string(String::from("&lt;a &amp; b&gt;")), "<a & b>");
}

#[test]
fn html_decode_numeric_entities() {
    assert_eq!(decode_html_string(String::from("&#72;&#x69;")), "Hi");
}

#[test]
fn html_decode_leaves_malformed_entities() {
    assert_eq!(decode_html_string(String::from("a &zzz; b &amp c")), "a &zzz; b &amp c");
}

#[test]
fn html_round_trip() {
    let inputs = ["", "<a & b>", "x < y && y > z", "&amp; already encoded &"];
    for s in inputs {
        assert_eq!(decode_html_string(encode_html_string(String::from(s))), s);
    }
}

#[test]
fn json_pretty_print_parses_back() {
    let pretty = pretty_json_from_string("{\"a\":1,\"b\":[1,2]}").unwrap();
    assert!(pretty.contains('\n'));
    assert!(pretty.contains("  "));
    let reparsed: serde_json::Value = serde_json::from_str(&pretty).unwrap();
    let original: serde_json::Value = serde_json::from_str("{\"a\":1,\"b\":[1,2]}").unwrap();
    assert_eq!(reparsed, original);
}

#[test]
fn json_rejects_malformed_text() {
    assert!(pretty_json_from_string("{\"a\":").is_err());
    assert!(pretty_json_from_string("not json").is_err());
}

#[test]
fn ascii_renders_hello_world() {
    assert_eq!(
        string_to_ascii("Hello, World!"),
        "72 101 108 108 111 44 32 87 111 114 108 100 33"
    );
}

#[test]
fn ascii_reads_hello_world() {
    assert_eq!(
        ascii_to_string("72 101 108 108 111 44 32 87 111 114 108 100 33"),
        "Hello, World!"
    );
}

#[test]
fn ascii_round_trip() {
    let inputs = ["", "a", "Hello, World!"];
    for s in inputs {
        assert_eq!(ascii_to_string(&string_to_ascii(s)), s);
    }
}

#[test]
fn ascii_renders_multibyte_characters_per_byte() {
    assert_eq!(string_to_ascii("\u{e9}"), "195 169");
    assert_eq!(ascii_to_string("195"), "\u{c3}");
}

#[test]
fn ascii_drops_unparseable_values() {
    assert_eq!(ascii_to_string("300 72 xyz 105 -1"), "Hi");
}

#[test]
fn ascii_accepts_plus_sign_and_leading_zeros() {
    assert_eq!(ascii_to_string("+72 0105"), "Hi");
}

#[test]
fn ascii_handles_extra_whitespace() {
    assert_eq!(ascii_to_string("  72\t105\n"), "Hi");
}

#[test]
fn empty_inputs_give_empty_outputs() {
    assert_eq!(base64_encode_std("".as_bytes()), "");
    assert_eq!(base64_decode_std("").unwrap(), Vec::<u8>::new());
    assert_eq!(base64_encode("".as_bytes()), "");
    assert_eq!(string_to_hex(""), "");
    assert_eq!(hex_to_string("").unwrap(), "");
    assert_eq!(string_to_ascii(""), "");
    assert_eq!(ascii_to_string(""), "");
    assert_eq!(encode_html_string(String::new()), "");
    assert_eq!(decode_html_string(String::new()), "");
}

#[test]
fn hex_decode_renders_invalid_utf8_lossily() {
    assert_eq!(hex_to_string("ff").unwrap(), "\u{fffd}");
}

#[test]
fn json_error_is_the_parse_variant() {
    assert_eq!(pretty_json_from_string("{"), Err(JsonError::Parse));
}
