use havi_core::text::{chars_of, decimal_string, parse_u32, parse_usize, signed_decimal_string, split_char, trim_chars, string_of};
use havi_core::video::scheme_url::{parse_url, percent_decode, percent_decode_bytes};

fn v(s: &str) -> Vec<char> {
    s.chars().collect()
}

#[test]
fn decimal_numerals() {
    assert_eq!(decimal_string(0), "0");
    assert_eq!(decimal_string(1920), "1920");
    assert_eq!(decimal_string(u64::MAX), "18446744073709551615");
    assert_eq!(signed_decimal_string(-42), "-42");
    assert_eq!(signed_decimal_string(i64::MIN), "-9223372036854775808");
}

#[test]
fn parse_like_from_str() {
    assert_eq!(parse_u32(&v("30")), Some(30));
    assert_eq!(parse_u32(&v("+7")), Some(7));
    assert_eq!(parse_u32(&v("007")), Some(7));
    assert_eq!(parse_u32(&v("4294967295")), Some(u32::MAX));
    assert_eq!(parse_u32(&v("4294967296")), None);
    assert_eq!(parse_u32(&v("")), None);
    assert_eq!(parse_u32(&v("+")), None);
    assert_eq!(parse_u32(&v("-1")), None);
    assert_eq!(parse_u32(&v(" 1")), None);
    assert_eq!(parse_u32(&v("1x")), None);
    assert_eq!(parse_usize(&v("8")), Some(8));
    for s in ["0", "12", "+3", "99999999999", "x", "", "-0"] {
        assert_eq!(parse_u32(&v(s)), s.parse::<u32>().ok(), "{s}");
    }
}

#[test]
fn trim_and_split_match_std() {
    for s in ["  a b \t", "\u{3000}x\u{a0}", "", "   ", "a"] {
        assert_eq!(string_of(&trim_chars(&v(s))), s.trim());
    }
    let pieces: Vec<String> = split_char(&v("a,,b,"), ',').iter().map(string_of).collect();
    assert_eq!(pieces, vec!["a", "", "b", ""]);
    assert_eq!(chars_of("héllo"), v("héllo"));
}

#[test]
fn percent_decoding() {
    assert_eq!(percent_decode("a%20b"), "a b");
    assert_eq!(percent_decode("a+b"), "a b");
    assert_eq!(percent_decode("%E2%9C%93"), "\u{2713}");
    assert_eq!(percent_decode("%zz%4"), "%zz%4");
    assert_eq!(percent_decode("100%"), "100%");
    assert_eq!(percent_decode("%41%61"), "Aa");
    assert_eq!(percent_decode("%ff"), "\u{fffd}");
    assert_eq!(percent_decode_bytes(b"%41"), b"A".to_vec());
}

#[test]
fn unescaped_text_passes_through() {
    for s in ["plain", "", "ünïcödé", "a=b&c"] {
        assert_eq!(percent_decode(s), s);
    }
}

#[test]
fn parse_scheme_urls() {
    let q = parse_url("havi-frame://open/?src=file%3A%2F%2F%2Fa.mp4&fps=24&flag&fps=25", "havi-frame").unwrap();
    assert_eq!(q.path, "open");
    assert_eq!(q.get("src"), Some("file:///a.mp4".to_string()));
    assert_eq!(q.get("fps"), Some("25".to_string()));
    assert_eq!(q.get("flag"), None);
    assert_eq!(q.get("missing"), None);
    assert!(parse_url("http://open", "havi-frame").is_none());
    let bare = parse_url("havi-frame://dom-ready", "havi-frame").unwrap();
    assert_eq!(bare.path, "dom-ready");
    assert!(bare.params.is_empty());
    let trailing = parse_url("havi-frame://close///?id=a=b", "havi-frame").unwrap();
    assert_eq!(trailing.path, "close");
    assert_eq!(trailing.get("id"), Some("a=b".to_string()));
}

#[test]
fn escaping_every_byte_round_trips() {
    for s in ["plain", "a b+c", "\u{2713} ok", "%25", ""] {
        let e: String = s.bytes().map(|b| format!("%{b:02X}")).collect();
        assert_eq!(percent_decode(&e), s);
    }
    assert_eq!(percent_decode("%2B"), "+");
    assert_eq!(percent_decode("%2520"), "%20");
    assert_eq!(percent_decode("a%20b+c"), "a b c");
    assert_eq!(percent_decode("%41%42"), "AB");
    assert_eq!(percent_decode("ab%4"), "ab%4");
}

#[test]
fn repeated_keys_keep_the_last_value_once() {
    let q = parse_url("havi-frame://open/?src=file%3A%2F%2F%2Ftmp%2Fa.mp4&fps=24&flag", "havi-frame").unwrap();
    assert_eq!(q.path, "open");
    assert_eq!(q.params.len(), 2);
    assert_eq!(q.get("src"), Some("file:///tmp/a.mp4".to_string()));
    assert_eq!(q.get("fps"), Some("24".to_string()));
    let r = parse_url("havi-frame://frame?id=a&idx=1&id=b&idx=2&id=c", "havi-frame").unwrap();
    assert_eq!(r.params.len(), 2);
    assert_eq!(r.get("id"), Some("c".to_string()));
    assert_eq!(r.get("idx"), Some("2".to_string()));
}
