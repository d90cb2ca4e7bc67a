use hehir::codec::{decode_query, encode_pair, replace_plus, DecodeError};
use hehir::command::Command;
use hehir::text::str_eq;

#[test]
fn plus_decodes_to_space() {
    assert_eq!(decode_query("plus+plus"), Ok("plus plus".to_string()));
}

#[test]
fn decoded_plus_is_searched_as_a_space() {
    let text = decode_query("plus+plus").unwrap();
    let command = Command::parse(&text);
    assert_eq!(command, Command::Google("plus plus".to_string()));
    assert_eq!(
        command.to_location(),
        "https://google.com/search?q=plus+plus"
    );
}

#[test]
fn escaped_plus_stays_a_plus() {
    let text = decode_query("plus%2Bplus").unwrap();
    assert_eq!(text, "plus+plus");
    assert_eq!(
        Command::parse(&text).to_location(),
        "https://google.com/search?q=plus%2Bplus"
    );
}

#[test]
fn escapes_decode_to_bytes() {
    assert_eq!(decode_query("foo%20bar%3f"), Ok("foo bar?".to_string()));
    assert_eq!(decode_query("%41%5a%61%7A"), Ok("AZaz".to_string()));
    assert_eq!(decode_query("%2f%2F"), Ok("//".to_string()));
}

#[test]
fn escapes_decode_to_utf8() {
    assert_eq!(decode_query("caf%C3%A9"), Ok("caf\u{e9}".to_string()));
    assert_eq!(decode_query("%F0%9F%98%80"), Ok("\u{1f600}".to_string()));
    assert_eq!(decode_query("caf\u{e9}"), Ok("caf\u{e9}".to_string()));
}

#[test]
fn incomplete_escapes_stay() {
    assert_eq!(decode_query("%"), Ok("%".to_string()));
    assert_eq!(decode_query("%4"), Ok("%4".to_string()));
    assert_eq!(decode_query("%zz"), Ok("%zz".to_string()));
    assert_eq!(decode_query("%4g"), Ok("%4g".to_string()));
    assert_eq!(decode_query("100%"), Ok("100%".to_string()));
    assert_eq!(decode_query("%%41"), Ok("%A".to_string()));
    assert_eq!(decode_query("%4%41"), Ok("%4A".to_string()));
}

#[test]
fn escaped_percent_is_decoded_once() {
    assert_eq!(decode_query("%2541"), Ok("%41".to_string()));
}

#[test]
fn plus_is_replaced_before_escapes_are_read() {
    assert_eq!(decode_query("%2+"), Ok("%2 ".to_string()));
    assert_eq!(decode_query("%+1"), Ok("% 1".to_string()));
    assert_eq!(decode_query("a+%2B+b"), Ok("a + b".to_string()));
}

#[test]
fn empty_query_decodes_to_empty_text() {
    assert_eq!(decode_query(""), Ok(String::new()));
}

#[test]
fn malformed_utf8_is_rejected() {
    assert_eq!(decode_query("%FF"), Err(DecodeError::InvalidUtf8));
    assert_eq!(decode_query("%C3"), Err(DecodeError::InvalidUtf8));
    assert_eq!(decode_query("%C3%28"), Err(DecodeError::InvalidUtf8));
    assert_eq!(decode_query("a%80b"), Err(DecodeError::InvalidUtf8));
    assert_eq!(decode_query("%ED%A0%80"), Err(DecodeError::InvalidUtf8));
    assert_eq!(decode_query("%C0%80"), Err(DecodeError::InvalidUtf8));
    assert_eq!(decode_query("%F4%90%80%80"), Err(DecodeError::InvalidUtf8));
}

#[test]
fn decoded_text_reaches_the_parser() {
    let text = decode_query("gh+skipkayhil%2Fhehir").unwrap();
    assert_eq!(
        Command::parse(&text).to_location(),
        "https://github.com/skipkayhil/hehir"
    );
}

#[test]
fn replace_plus_touches_nothing_else() {
    assert_eq!(replace_plus(b"a+b++c"), b"a b  c".to_vec());
    assert_eq!(replace_plus(b""), Vec::<u8>::new());
    assert_eq!(replace_plus(b"%2B *"), b"%2B *".to_vec());
    assert_eq!(replace_plus(&[0x2B, 0xFF, 0x2A, 0x2C]), vec![0x20, 0xFF, 0x2A, 0x2C]);
}

#[test]
fn pair_is_name_equals_value() {
    assert_eq!(encode_pair("q", "rust"), "q=rust");
    assert_eq!(encode_pair("q", ""), "q=");
    assert_eq!(encode_pair("", ""), "=");
    assert_eq!(encode_pair("a b", "c&d"), "a+b=c%26d");
}

#[test]
fn pair_escapes_with_upper_case_digits() {
    assert_eq!(encode_pair("q", "/"), "q=%2F");
    assert_eq!(encode_pair("q", "\u{7f}"), "q=%7F");
    assert_eq!(encode_pair("q", "\n"), "q=%0A");
    assert_eq!(encode_pair("q", "\u{0}"), "q=%00");
    assert_eq!(encode_pair("q", "~"), "q=%7E");
    assert_eq!(encode_pair("q", "\u{ff}"), "q=%C3%BF");
}

#[test]
fn pair_keeps_the_unreserved_set() {
    assert_eq!(encode_pair("q", "*-._09AZaz"), "q=*-._09AZaz");
    assert_eq!(encode_pair("q", "!'()"), "q=%21%27%28%29");
}

#[test]
fn encoded_value_decodes_to_itself() {
    for query in [
        "",
        " ",
        "+",
        "%",
        "%20",
        "plus+plus",
        "a b+c%d/e?f=g&h#i",
        "caf\u{e9} \u{1f600}",
        "gh skipkayhil/hehir",
        "\u{0}\u{7f}\u{80}\u{7ff}\u{800}\u{ffff}\u{10000}\u{10ffff}",
    ] {
        let pair = encode_pair("q", query);
        let value = pair.strip_prefix("q=").unwrap();
        assert_eq!(decode_query(value), Ok(query.to_string()));
    }
}

#[test]
fn search_location_decodes_to_the_query() {
    for query in ["", "plus+plus", "two  spaces", "a/b", "caf\u{e9}"] {
        let url = Command::Google(query.to_string()).to_location();
        let value = url.strip_prefix("https://google.com/search?q=").unwrap();
        assert_eq!(decode_query(value), Ok(query.to_string()));
    }
}

#[test]
fn strings_compare_by_text() {
    assert!(str_eq("", ""));
    assert!(str_eq("/search", "/search"));
    assert!(!str_eq("/search", "/searc"));
    assert!(!str_eq("/search", "/Search"));
    assert!(!str_eq("/search", "/search/"));
    assert!(str_eq("caf\u{e9}", "caf\u{e9}"));
    assert!(!str_eq("caf\u{e9}", "cafe\u{301}"));
}
