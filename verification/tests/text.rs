use smolgent::text::{
    contains_text, decimal_text, is_blank, is_control_code, is_white_space, join_texts, lines_of,
    lower_ascii, replace_text, strip_prefix, trim_text,
};
use smolgent::utf8::decode;

#[test]
fn characters_are_classified_as_std_classifies_them() {
    for code in 0..=0x10ffff {
        if let Some(c) = char::from_u32(code) {
            assert_eq!(is_white_space(c), c.is_whitespace(), "{code:#x}");
            assert_eq!(is_control_code(c), c.is_control(), "{code:#x}");
        }
    }
}

#[test]
fn texts_are_worked_on_as_std_works_on_them() {
    let texts = [
        "", " ", "a", " a b ", "a\nb", "a\r\nb\r\n", "\n\n", "a\rb", "\u{3000}x\u{a0}", "aXbXc", "XX",
        "a\r", "ÄB",
    ];
    for text in texts {
        assert_eq!(trim_text(text), text.trim());
        assert_eq!(is_blank(text), text.trim().is_empty());
        assert_eq!(lines_of(text), text.lines().collect::<Vec<_>>());
        assert_eq!(lower_ascii(text), text.to_ascii_lowercase());
        for pattern in ["X", "a", "XX"] {
            assert_eq!(replace_text(text, pattern, "yz"), text.replace(pattern, "yz"));
            assert_eq!(contains_text(text, pattern), text.contains(pattern));
            assert_eq!(
                strip_prefix(text, pattern).as_deref(),
                text.strip_prefix(pattern)
            );
        }
    }
    assert_eq!(
        join_texts(&vec!["a".to_string(), String::new(), "b".to_string()], ", "),
        "a, , b"
    );
    assert_eq!(join_texts(&vec![], ", "), "");
    for n in [0, 7, 10, 1234567890, u64::MAX] {
        assert_eq!(decimal_text(n), n.to_string());
    }
}

#[test]
fn only_valid_bytes_are_decoded() {
    assert_eq!(decode(&"héllo".as_bytes().to_vec()).as_deref(), Some("héllo"));
    assert_eq!(decode(&vec![0xff]), None);
    assert_eq!(decode(&vec![0xc3]), None);
}
