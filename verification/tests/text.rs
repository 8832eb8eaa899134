use multiglass::text::{
    chars_of, decimal_chars, hex_encode, join_strings, parse_decimal, signed_decimal_chars,
    string_of, trim_chars,
};

fn s(v: &Vec<char>) -> String {
    v.iter().collect()
}

#[test]
fn decimal_text_of_numbers() {
    assert_eq!(s(&decimal_chars(0)), "0");
    assert_eq!(s(&decimal_chars(47890)), "47890");
    assert_eq!(s(&decimal_chars(u64::MAX)), u64::MAX.to_string());
    assert_eq!(s(&signed_decimal_chars(-17)), "-17");
    assert_eq!(s(&signed_decimal_chars(i32::MIN)), i32::MIN.to_string());
    assert_eq!(s(&signed_decimal_chars(3)), "3");
}

#[test]
fn decimal_parsing_follows_from_str() {
    let p = |t: &str, max: u64| parse_decimal(&chars_of(t), max);
    assert_eq!(p("123", 1000), Some(123));
    assert_eq!(p("+7", 1000), Some(7));
    assert_eq!(p("007", 1000), Some(7));
    assert_eq!(p("+", 1000), None);
    assert_eq!(p("", 1000), None);
    assert_eq!(p("-1", 1000), None);
    assert_eq!(p("12a", 1000), None);
    assert_eq!(p("1001", 1000), None);
    assert_eq!(p("4294967295", 4294967295), Some(4294967295));
    assert_eq!(p("4294967296", 4294967295), None);
    assert_eq!(p("99999999999999999999", 4294967295), None);
}

#[test]
fn trimming_unicode_white_space() {
    assert_eq!(s(&trim_chars(&chars_of(" \t\u{3000}ab c\n\u{85}"))), "ab c");
    assert_eq!(s(&trim_chars(&chars_of("   "))), "");
    assert_eq!(s(&trim_chars(&chars_of("\u{200B}x"))), "\u{200B}x");
}

#[test]
fn hex_is_lower_case_pairs() {
    assert_eq!(hex_encode(&[0x00, 0x0f, 0xab, 0xff]), "000fabff");
    assert_eq!(hex_encode(&[]), "");
}

#[test]
fn strings_join_with_separator() {
    let parts = vec!["a".to_string(), "b c".to_string(), "".to_string()];
    assert_eq!(join_strings(&parts, " "), "a b c ");
    assert_eq!(join_strings(&Vec::new(), " "), "");
    assert_eq!(string_of(&vec!['h', 'i']), "hi");
}
