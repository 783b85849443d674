use donna_desktop::text::{decimal_text, digit, hex_text, same, split, split_once};

#[test]
fn splits_at_every_separator() {
    assert_eq!(split("a&b&&c", '&'), vec!["a", "b", "", "c"]);
    assert_eq!(split("", '&'), vec![""]);
    assert_eq!(split("&", '&'), vec!["", ""]);
    assert_eq!(split("äö/ü", '/'), vec!["äö", "ü"]);
    for text in ["", "/", "//", "a/b", "/a/", "é/日本/"] {
        let expected: Vec<&str> = text.split('/').collect();
        assert_eq!(split(text, '/'), expected);
    }
}

#[test]
fn splits_once_at_the_first_separator() {
    assert_eq!(split_once("k=v=w", '='), Some(("k".to_string(), "v=w".to_string())));
    assert_eq!(split_once("=v", '='), Some((String::new(), "v".to_string())));
    assert_eq!(split_once("k=", '='), Some(("k".to_string(), String::new())));
    assert_eq!(split_once("none", '='), None);
    assert_eq!(split_once("ключ=знач", '='), Some(("ключ".to_string(), "знач".to_string())));
}

#[test]
fn compares_texts() {
    assert!(same("donna", "donna"));
    assert!(!same("donna", "Donna"));
    assert!(same("", ""));
}

#[test]
fn writes_digits() {
    assert_eq!(digit(0), "0");
    assert_eq!(digit(9), "9");
    assert_eq!(digit(10), "a");
    assert_eq!(digit(15), "f");
    assert_eq!(decimal_text(0), "0");
    assert_eq!(decimal_text(1700000000123), "1700000000123");
    assert_eq!(decimal_text(u128::MAX), u128::MAX.to_string());
    assert_eq!(hex_text(&[0x00, 0x0f, 0xf0, 0xab, 0xff]), "000ff0abff");
    assert_eq!(hex_text(&[]), "");
}
