use smtp_types::utils::indicators;
use smtp_types::utils::{escape_byte_string, escape_quoted, unescape_quoted};

#[test]
fn test_escape_quoted() {
    let tests = [
        ("", ""),
        ("\\", "\\\\"),
        ("\"", "\\\""),
        ("alice", "alice"),
        ("\\alice\\", "\\\\alice\\\\"),
        ("alice\"", "alice\\\""),
        (r#"\alice\ ""#, r#"\\alice\\ \""#),
    ];

    for (test, expected) in tests {
        let got = escape_quoted(test);
        assert_eq!(expected, got);
    }
}

#[test]
fn test_unescape_quoted() {
    let tests = [
        ("", ""),
        ("\\\\", "\\"),
        ("\\\"", "\""),
        ("alice", "alice"),
        ("\\\\alice\\\\", "\\alice\\"),
        ("alice\\\"", "alice\""),
        (r#"\\alice\\ \""#, r#"\alice\ ""#),
    ];

    for (test, expected) in tests {
        let got = unescape_quoted(test);
        assert_eq!(expected, got);
    }
}

#[test]
fn test_that_unescape_is_inverse_of_escape() {
    let input = "\\\"\\abc_*:;059^$%!\"";

    assert_eq!(input, unescape_quoted(escape_quoted(input).as_ref()));
}

#[test]
fn test_escape_byte_string() {
    for byte in 0u8..=255 {
        let got = escape_byte_string(&[byte]);

        if byte.is_ascii_alphanumeric() {
            assert_eq!((byte as char).to_string(), got.to_string());
        } else if byte.is_ascii_whitespace() {
            if byte == b'\t' {
                assert_eq!(String::from("\\t"), got);
            } else if byte == b'\n' {
                assert_eq!(String::from("\\n"), got);
            }
        } else if byte.is_ascii_punctuation() {
            if byte == b'\\' {
                assert_eq!(String::from("\\\\"), got);
            } else if byte == b'"' {
                assert_eq!(String::from("\\\""), got);
            } else {
                assert_eq!((byte as char).to_string(), got);
            }
        } else {
            assert_eq!(format!("\\x{byte:02x}"), got);
        }
    }

    let tests = [(b"Hallo \"\\\x00", String::from(r#"Hallo \"\\\x00"#))];

    for (test, expected) in tests {
        let got = escape_byte_string(test);
        assert_eq!(expected, got);
    }
}

#[test]
fn test_is_atext() {
    // Alphanumeric
    assert!(indicators::is_atext(b'a'));
    assert!(indicators::is_atext(b'Z'));
    assert!(indicators::is_atext(b'0'));
    assert!(indicators::is_atext(b'9'));

    // Special chars
    assert!(indicators::is_atext(b'!'));
    assert!(indicators::is_atext(b'#'));
    assert!(indicators::is_atext(b'+'));
    assert!(indicators::is_atext(b'-'));

    // Invalid
    assert!(!indicators::is_atext(b' '));
    assert!(!indicators::is_atext(b'@'));
    assert!(!indicators::is_atext(b'<'));
    assert!(!indicators::is_atext(b'>'));
}

#[test]
fn test_is_text_char() {
    assert!(indicators::is_text_char(b' '));
    assert!(indicators::is_text_char(b'A'));
    assert!(indicators::is_text_char(b'~'));
    assert!(indicators::is_text_char(0x09)); // HT

    // Invalid
    assert!(!indicators::is_text_char(0x00));
    assert!(!indicators::is_text_char(0x0d)); // CR
    assert!(!indicators::is_text_char(0x0a)); // LF
    assert!(!indicators::is_text_char(0x7f)); // DEL
}

#[test]
fn test_indicators_against_std() {
    for b in 0u8..=255 {
        assert_eq!(indicators::is_char(b), (0x01..=0x7f).contains(&b));
        assert_eq!(indicators::is_ctl(b), b.is_ascii_control());
        assert_eq!(indicators::is_let_dig(b), b.is_ascii_alphanumeric());
        assert_eq!(indicators::is_digit(b), b.is_ascii_digit());
        assert_eq!(indicators::is_ldh_str_char(b), b.is_ascii_alphanumeric() || b == b'-');
        assert_eq!(indicators::is_esmtp_keyword_char(b), b.is_ascii_alphanumeric() || b == b'-');
        assert_eq!(indicators::is_esmtp_value_char(b), b.is_ascii_graphic() && b != b'=');
        assert_eq!(indicators::is_dcontent(b), b.is_ascii_graphic() && !b"[\\]".contains(&b));
        assert_eq!(indicators::is_qtext(b), (b == b' ' || b.is_ascii_graphic()) && b != b'"' && b != b'\\');
        assert_eq!(
            indicators::is_atext(b),
            b.is_ascii_alphanumeric() || b"!#$%&'*+-/=?^_`{|}~".contains(&b)
        );
    }
}

#[test]
fn test_escape_round_trips_and_printable() {
    for s in ["", "a\\b", "\\\"", "\"\"\\\\", "x\\\\\"y", "\u{e4}\\\u{1f600}\""] {
        assert_eq!(unescape_quoted(&escape_quoted(s)), s);
    }
    let all: Vec<u8> = (0u8..=255).collect();
    let printable = escape_byte_string(&all);
    assert!(printable.bytes().all(|b| (0x20..=0x7e).contains(&b)));
    assert_eq!(escape_byte_string(b"\r\x7f\x80"), "\\r\\x7f\\x80");
}
