use smtp_types::core_types::{
    AddressLiteral, Atom, Domain, EhloDomain, ForwardPath, LocalPart, Mailbox, Parameter,
    ReversePath, Text, Vec1,
};
use smtp_types::error::ValidationErrorKind;
use smtp_types::{IntoStatic, ToStatic};

#[test]
fn test_domain_validation() {
    assert!(Domain::try_from("example.com").is_ok());
    assert!(Domain::try_from("mail.example.com").is_ok());
    assert!(Domain::try_from("a").is_ok());
    assert!(Domain::try_from("a-b").is_ok());
    assert!(Domain::try_from("a1").is_ok());

    // Invalid: empty
    assert!(Domain::try_from("").is_err());
    // Invalid: starts with hyphen
    assert!(Domain::try_from("-example").is_err());
    // Invalid: ends with hyphen
    assert!(Domain::try_from("example-").is_err());
}

#[test]
fn test_atom_validation() {
    assert!(Atom::try_from("HELLO").is_ok());
    assert!(Atom::try_from("test123").is_ok());
    assert!(Atom::try_from("a").is_ok());

    // Invalid: empty
    assert!(Atom::try_from("").is_err());
    // Invalid: space
    assert!(Atom::try_from("hello world").is_err());
}

#[test]
fn test_text_validation() {
    assert!(Text::try_from("Hello World!").is_ok());
    assert!(Text::try_from("").is_ok()); // Empty is allowed in SMTP
    assert!(Text::try_from("\t tab").is_ok());

    // Invalid: CR
    assert!(Text::try_from("hello\rworld").is_err());
    // Invalid: LF
    assert!(Text::try_from("hello\nworld").is_err());
}

#[test]
fn test_vec1() {
    assert!(Vec1::<u8>::try_from(vec![]).is_err());
    assert!(Vec1::<u8>::try_from(vec![1]).is_ok());
    assert!(Vec1::<u8>::try_from(vec![1, 2]).is_ok());
}

#[test]
fn test_domain_errors() {
    assert_eq!(Domain::validate(b"").unwrap_err().kind(), ValidationErrorKind::Empty);
    assert_eq!(Domain::validate(b"a\xffb").unwrap_err().kind(), ValidationErrorKind::Invalid);
    // Empty sub-domains.
    assert_eq!(Domain::validate(b"a..b").unwrap_err().kind(), ValidationErrorKind::Invalid);
    assert_eq!(Domain::validate(b"example.").unwrap_err().kind(), ValidationErrorKind::Invalid);
    assert_eq!(Domain::validate(b".example").unwrap_err().kind(), ValidationErrorKind::Invalid);
    // Positions are relative to the sub-domain.
    assert_eq!(
        Domain::validate(b"mail.-x").unwrap_err().kind(),
        ValidationErrorKind::InvalidByteAt { byte: b'-', at: 0 }
    );
    assert_eq!(
        Domain::validate(b"mail.ab-").unwrap_err().kind(),
        ValidationErrorKind::InvalidByteAt { byte: b'-', at: 2 }
    );
    assert_eq!(
        Domain::validate(b"mail.a_b.com").unwrap_err().kind(),
        ValidationErrorKind::InvalidByteAt { byte: b'_', at: 1 }
    );
    // Non-ASCII but valid UTF-8.
    assert_eq!(
        Domain::validate("ex\u{e4}mple.com".as_bytes()).unwrap_err().kind(),
        ValidationErrorKind::InvalidByteAt { byte: 0xc3, at: 2 }
    );
    // The first failing sub-domain decides.
    assert_eq!(
        Domain::validate(b"a_b..c").unwrap_err().kind(),
        ValidationErrorKind::InvalidByteAt { byte: b'_', at: 1 }
    );
    assert!(Domain::validate(b"x-1.y2.z").is_ok());
}

#[test]
fn test_domain_accessors() {
    let d = Domain::try_from("mail.example.com").unwrap();
    assert_eq!(d.inner(), "mail.example.com");
    let d2 = Domain::try_from_bytes(b"mail.example.com").unwrap();
    assert_eq!(d, d2);
    assert_eq!(d.clone().into_inner(), String::from("mail.example.com"));
    assert_eq!(d.to_static(), d);
    assert_eq!(d.clone().into_static(), d);
    let u = Domain::unvalidated(String::from("a.b"));
    assert_eq!(u.inner(), "a.b");
    assert!(Domain::try_from_bytes(b"bad_domain").is_err());
}

#[test]
fn test_local_part() {
    assert!(LocalPart::try_from("john.doe").is_ok());
    assert!(LocalPart::try_from("a+tag").is_ok());
    assert_eq!(LocalPart::validate(b"").unwrap_err().kind(), ValidationErrorKind::Empty);
    assert_eq!(LocalPart::validate(b"\xc3\x28").unwrap_err().kind(), ValidationErrorKind::Invalid);
    assert_eq!(
        LocalPart::validate(b"ab\"c").unwrap_err().kind(),
        ValidationErrorKind::InvalidByteAt { byte: b'"', at: 2 }
    );
    assert_eq!(
        LocalPart::validate(b"x\\y").unwrap_err().kind(),
        ValidationErrorKind::InvalidByteAt { byte: b'\\', at: 1 }
    );
    assert_eq!(LocalPart::try_from_bytes(b"user").unwrap().inner(), "user");
}

#[test]
fn test_atom_and_text_errors() {
    assert_eq!(
        Atom::validate(b"hello world").unwrap_err().kind(),
        ValidationErrorKind::InvalidByteAt { byte: b' ', at: 5 }
    );
    assert_eq!(
        Atom::validate(b"\xff").unwrap_err().kind(),
        ValidationErrorKind::InvalidByteAt { byte: 0xff, at: 0 }
    );
    assert_eq!(
        Text::validate(b"hello\rworld").unwrap_err().kind(),
        ValidationErrorKind::InvalidByteAt { byte: b'\r', at: 5 }
    );
    assert!(Text::validate(b"").is_ok());
    assert_eq!(Atom::try_from_bytes(b"KEY").unwrap().inner(), "KEY");
    assert_eq!(Text::try_from_bytes(b"a b\tc").unwrap().inner(), "a b\tc");
    assert!(Text::try_from_bytes(b"\x80").is_err());
}

#[test]
fn test_vec1_accessors() {
    assert_eq!(
        Vec1::<u8>::try_from(vec![]).unwrap_err().kind(),
        ValidationErrorKind::NotEnough { min: 1 }
    );
    let v = Vec1::from(7u8);
    assert_eq!(v.as_ref(), &[7u8]);
    assert_eq!(v.into_inner(), vec![7u8]);
    let v = Vec1::unvalidated(vec![1u8, 2]);
    assert_eq!(v.as_ref().len(), 2);
    assert!(Vec1::<u8>::validate(&[]).is_err());
}

#[test]
fn test_parameter_and_paths() {
    let p = Parameter::new(Atom::try_from("SMTPUTF8").unwrap());
    assert_eq!(p.value, None);
    let p = Parameter::with_value(Atom::try_from("BODY").unwrap(), "8BITMIME");
    assert_eq!(p.value, Some(String::from("8BITMIME")));
    assert_eq!(ReversePath::default(), ReversePath::Null);
    let e: EhloDomain = AddressLiteral::IPv4([192, 168, 1, 1]).into();
    assert_eq!(e, EhloDomain::AddressLiteral(AddressLiteral::IPv4([192, 168, 1, 1])));
}

#[test]
fn test_address_literal_text() {
    assert_eq!(AddressLiteral::IPv4([192, 168, 1, 1]).to_string(), "[192.168.1.1]");
    assert_eq!(AddressLiteral::IPv4([0, 0, 0, 0]).to_string(), "[0.0.0.0]");
    let v6 = |g: [u16; 8]| {
        let mut o = [0u8; 16];
        for (i, x) in g.iter().enumerate() {
            o[2 * i] = (x >> 8) as u8;
            o[2 * i + 1] = (x & 0xff) as u8;
        }
        AddressLiteral::IPv6(o).to_string()
    };
    assert_eq!(v6([0x2001, 0xdb8, 0, 0, 0, 0, 0, 1]), "[IPv6:2001:db8::1]");
    assert_eq!(v6([0, 0, 0, 0, 0, 0, 0, 0]), "[IPv6:::]");
    assert_eq!(v6([0, 0, 0, 0, 0, 0, 0, 1]), "[IPv6:::1]");
    assert_eq!(v6([1, 0, 0, 0, 0, 0, 0, 0]), "[IPv6:1::]");
    assert_eq!(v6([1, 0, 2, 3, 4, 5, 6, 7]), "[IPv6:1:0:2:3:4:5:6:7]");
    assert_eq!(v6([1, 0, 0, 2, 0, 0, 3, 4]), "[IPv6:1::2:0:0:3:4]");
    assert_eq!(v6([1, 0, 0, 2, 0, 0, 0, 3]), "[IPv6:1:0:0:2::3]");
    assert_eq!(v6([0, 0, 1, 0, 0, 0, 0, 0]), "[IPv6:0:0:1::]");
    assert_eq!(v6([0xfe80, 0, 0, 0, 0xabcd, 0xef, 0x12, 0xffff]), "[IPv6:fe80::abcd:ef:12:ffff]");
    assert_eq!(v6([0, 0, 0, 0, 0, 0xffff, 0x0102, 0x0304]), "[IPv6:::ffff:1.2.3.4]");
    let general = AddressLiteral::General {
        tag: Atom::try_from("x-tag").unwrap(),
        content: String::from("content"),
    };
    assert_eq!(general.to_string(), "[x-tag:content]");
}

#[test]
fn test_mailbox_and_paths_text() {
    let mailbox = Mailbox::new(
        LocalPart::try_from("user").unwrap(),
        Domain::try_from("example.com").unwrap().into(),
    );
    assert_eq!(mailbox.to_string(), "user@example.com");
    assert_eq!(ForwardPath(mailbox.clone()).to_string(), "<user@example.com>");
    assert_eq!(ReversePath::Mailbox(mailbox).to_string(), "<user@example.com>");
    assert_eq!(ReversePath::Null.to_string(), "<>");
    let literal = Mailbox::new(
        LocalPart::try_from("root").unwrap(),
        EhloDomain::AddressLiteral(AddressLiteral::IPv4([127, 0, 0, 1])),
    );
    assert_eq!(literal.to_string(), "root@[127.0.0.1]");
    assert_eq!(
        Parameter::with_value(Atom::try_from("SIZE").unwrap(), "1024").to_string(),
        "SIZE=1024"
    );
    assert_eq!(Parameter::new(Atom::try_from("SMTPUTF8").unwrap()).to_string(), "SMTPUTF8");
}

#[test]
fn test_local_part_dot_string() {
    assert!(LocalPart::try_from("john").is_ok());
    assert!(LocalPart::try_from("john.q.doe").is_ok());
    assert_eq!(
        LocalPart::validate(b"john..doe").unwrap_err().kind(),
        ValidationErrorKind::InvalidByteAt { byte: b'.', at: 5 }
    );
    assert_eq!(
        LocalPart::validate(b".john").unwrap_err().kind(),
        ValidationErrorKind::InvalidByteAt { byte: b'.', at: 0 }
    );
    assert_eq!(
        LocalPart::validate(b"john.").unwrap_err().kind(),
        ValidationErrorKind::InvalidByteAt { byte: b'.', at: 4 }
    );
    assert_eq!(
        LocalPart::validate(b"john doe").unwrap_err().kind(),
        ValidationErrorKind::InvalidByteAt { byte: b' ', at: 4 }
    );
    assert_eq!(
        LocalPart::validate(b".").unwrap_err().kind(),
        ValidationErrorKind::InvalidByteAt { byte: b'.', at: 0 }
    );
}

#[test]
fn test_local_part_quoted_string() {
    assert!(LocalPart::try_from("\"john doe\"").is_ok());
    assert!(LocalPart::try_from("\"\"").is_ok());
    assert!(LocalPart::try_from("\"a\\\"b\\\\c\"").is_ok());
    assert!(LocalPart::try_from("\"john..doe.\"").is_ok());
    assert_eq!(
        LocalPart::validate(b"\"").unwrap_err().kind(),
        ValidationErrorKind::Invalid
    );
    assert_eq!(
        LocalPart::validate(b"\"abc").unwrap_err().kind(),
        ValidationErrorKind::Invalid
    );
    assert_eq!(
        LocalPart::validate(b"\"abc\\\"").unwrap_err().kind(),
        ValidationErrorKind::Invalid
    );
    assert_eq!(
        LocalPart::validate(b"\"ab\"c").unwrap_err().kind(),
        ValidationErrorKind::InvalidByteAt { byte: b'c', at: 4 }
    );
    assert_eq!(
        LocalPart::validate(b"\"a\\\x01\"").unwrap_err().kind(),
        ValidationErrorKind::InvalidByteAt { byte: 0x01, at: 3 }
    );
    assert_eq!(
        LocalPart::validate(b"\"a\tb\"").unwrap_err().kind(),
        ValidationErrorKind::InvalidByteAt { byte: b'\t', at: 2 }
    );
}
