use http_server::http::text::{same_text, to_decimal};

#[test]
fn same_text_compares_every_character() {
    assert!(same_text("", ""));
    assert!(same_text("HTTP/1.1", "HTTP/1.1"));
    assert!(!same_text("HTTP/1.1", "HTTP/1.0"));
    assert!(!same_text("HTTP/1.1", "HTTP/1.11"));
    assert!(!same_text("a", ""));
    assert!(!same_text("abc", "abd"));
    assert!(!same_text("Abc", "abc"));
    assert!(same_text("\u{e9}\u{65e5}", "\u{e9}\u{65e5}"));
    assert!(!same_text("\u{e9}", "e\u{301}"));
}

#[test]
fn decimal_of_numbers() {
    assert_eq!(to_decimal(0), "0");
    assert_eq!(to_decimal(7), "7");
    assert_eq!(to_decimal(10), "10");
    assert_eq!(to_decimal(200), "200");
    assert_eq!(to_decimal(404), "404");
    assert_eq!(to_decimal(9999), "9999");
    assert_eq!(to_decimal(10000), "10000");
    assert_eq!(to_decimal(65535), "65535");
    for n in [1u16, 19, 100, 101, 1234, 40000] {
        assert_eq!(to_decimal(n), n.to_string());
    }
}
