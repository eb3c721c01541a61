use linkswitch::encoding::wide;
use linkswitch::net::err::{describe, explain, is_adapter_gone, is_family_absent};
use linkswitch::net::guid::{parse_guid, Guid};
use linkswitch::net::wifi::utf16_to_string;
use linkswitch::net::LuidKey;
use linkswitch::text;

#[test]
fn wide_text_reads_back_to_the_nul() {
    for s in ["", "Wi-Fi", "caf\u{e9} \u{1f4f6}"] {
        let w = wide(s);
        assert_eq!(w.last(), Some(&0));
        assert_eq!(utf16_to_string(&w), s);
    }
}

#[test]
fn numbers_are_written_out() {
    let mut s = String::new();
    text::push_dec_int(&mut s, i64::MIN);
    s.push(' ');
    text::push_dec_padded(&mut s, 7, 3);
    s.push(' ');
    text::push_hex(&mut s, 0xAB, 4);
    assert_eq!(s, "-9223372036854775808 007 00ab");
    assert_eq!(text::dec_text(u64::MAX), u64::MAX.to_string());
    assert_eq!(LuidKey(0xDEAD_BEEF).to_text(), "0x00000000deadbeef");
}

#[test]
fn texts_are_searched_split_and_replaced() {
    assert!(text::has("abc", "bc") && !text::has("abc", "ca"));
    assert_eq!(text::split_text("a-b--c", '-'), vec!["a", "b", "", "c"]);
    assert_eq!(text::replace_text("aXbXX", "X", "yy"), "ayybyyyy");
    assert_eq!(text::trim_text(" \u{a0}x\t"), "x");
    assert_eq!(text::lower_text("WiFi"), "wifi");
}

#[test]
fn a_guid_reads_back_from_its_digits() {
    let v: u128 = 0x0123_4567_89ab_cdef_0011_2233_4455_6677;
    assert_eq!(
        parse_guid("{01234567-89AB-cdef-0011-223344556677}"),
        Some(Guid::from_u128(v))
    );
}

#[test]
fn codes_are_explained() {
    assert!(is_family_absent(1168) && !is_family_absent(2));
    assert!(is_adapter_gone(2) && !is_adapter_gone(1168));
    assert!(!explain(5).is_empty());
    assert!(describe(5).contains('5'));
}
