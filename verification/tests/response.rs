use smtp_types::auth::AuthMechanism;
use smtp_types::core_types::{Atom, Domain, Text, Vec1};
use smtp_types::error::ValidationErrorKind;
use smtp_types::response::{
    Capability, EhloResponse, EnhancedStatusCode, Greeting, ReplyCode, Response,
};

#[test]
fn test_reply_code() {
    assert_eq!(ReplyCode::OK.code(), 250);
    assert!(ReplyCode::OK.is_positive_completion());
    assert!(ReplyCode::OK.is_success());
    assert!(!ReplyCode::OK.is_error());

    assert_eq!(ReplyCode::START_MAIL_INPUT.code(), 354);
    assert!(ReplyCode::START_MAIL_INPUT.is_positive_intermediate());
    assert!(ReplyCode::START_MAIL_INPUT.is_success());

    assert_eq!(ReplyCode::MAILBOX_UNAVAILABLE_TEMP.code(), 450);
    assert!(ReplyCode::MAILBOX_UNAVAILABLE_TEMP.is_transient_negative());
    assert!(ReplyCode::MAILBOX_UNAVAILABLE_TEMP.is_error());

    assert_eq!(ReplyCode::SYNTAX_ERROR.code(), 500);
    assert!(ReplyCode::SYNTAX_ERROR.is_permanent_negative());
    assert!(ReplyCode::SYNTAX_ERROR.is_error());
}

#[test]
fn test_reply_code_parse() {
    assert_eq!(ReplyCode::from_str("250").unwrap(), ReplyCode::OK);
    assert!(ReplyCode::from_str("999").is_err());
    assert!(ReplyCode::from_str("abc").is_err());
}

#[test]
fn test_reply_code_class() {
    assert_eq!(ReplyCode::OK.class(), 2);
    assert_eq!(ReplyCode::START_MAIL_INPUT.class(), 3);
    assert_eq!(ReplyCode::LOCAL_ERROR.class(), 4);
    assert_eq!(ReplyCode::SYNTAX_ERROR.class(), 5);
}

#[test]
fn test_enhanced_status_code() {
    let code = EnhancedStatusCode::new(2, 1, 0).unwrap();
    assert!(code.is_success());
    assert_eq!(code.to_string(), "2.1.0");

    let code = EnhancedStatusCode::new(5, 7, 1).unwrap();
    assert!(code.is_permanent_failure());
    assert_eq!(code.to_string(), "5.7.1");

    // Invalid class
    assert!(EnhancedStatusCode::new(3, 0, 0).is_none());
}

#[test]
fn test_greeting() {
    let domain = Domain::try_from("mail.example.com").unwrap();
    let greeting = Greeting::new(domain.clone(), None);
    assert_eq!(greeting.to_string(), "220 mail.example.com");

    let text = Text::try_from("ESMTP ready").unwrap();
    let greeting = Greeting::new(domain, Some(text));
    assert_eq!(greeting.to_string(), "220 mail.example.com ESMTP ready");
}

#[test]
fn test_response() {
    let text = Text::try_from("OK").unwrap();
    let response = Response::new(ReplyCode::OK, text);
    assert!(response.is_success());
    assert!(!response.is_error());
    assert_eq!(response.text().inner(), "OK");
}

#[test]
fn test_reply_code_new_bounds() {
    assert!(ReplyCode::new(199).is_none());
    assert_eq!(ReplyCode::new(200).unwrap().code(), 200);
    assert_eq!(ReplyCode::new(599).unwrap().code(), 599);
    assert!(ReplyCode::new(600).is_none());
    assert_eq!(ReplyCode::new(250).unwrap(), ReplyCode::OK);
    assert_eq!(ReplyCode::new(211).unwrap(), ReplyCode::SYSTEM_STATUS);
    assert_eq!(ReplyCode::new(555).unwrap(), ReplyCode::PARAMS_NOT_RECOGNIZED);
    assert!(matches!(ReplyCode::new(299).unwrap(), ReplyCode::Other(_)));
    assert_eq!(ReplyCode::try_from(100).unwrap_err().kind(), ValidationErrorKind::Invalid);
    assert_eq!(u16::from(ReplyCode::AUTH_INVALID), 535);
}

#[test]
fn test_reply_code_numerals() {
    assert_eq!(ReplyCode::from_str("+250").unwrap(), ReplyCode::OK);
    assert_eq!(ReplyCode::from_str("0250").unwrap(), ReplyCode::OK);
    assert!(ReplyCode::from_str("").is_err());
    assert!(ReplyCode::from_str("+").is_err());
    assert!(ReplyCode::from_str("-250").is_err());
    assert!(ReplyCode::from_str(" 250").is_err());
    assert!(ReplyCode::from_str("65786").is_err());
    assert_eq!(ReplyCode::OK.to_string(), "250");
    // Reading back the numeral of each code gives that code.
    for n in 200u16..600 {
        let c = ReplyCode::new(n).unwrap();
        assert_eq!(ReplyCode::from_str(&c.to_string()).unwrap(), c);
        let classes = [
            c.is_positive_completion(),
            c.is_positive_intermediate(),
            c.is_transient_negative(),
            c.is_permanent_negative(),
        ];
        assert_eq!(classes.iter().filter(|x| **x).count(), 1);
        assert_ne!(c.is_success(), c.is_error());
    }
}

#[test]
fn test_enhanced_status_code_bounds() {
    assert!(EnhancedStatusCode::new(4, 999, 999).unwrap().is_temporary_failure());
    assert!(EnhancedStatusCode::new(2, 1000, 0).is_none());
    assert!(EnhancedStatusCode::new(2, 0, 1000).is_none());
    assert_eq!(EnhancedStatusCode::new(5, 123, 45).unwrap().to_string(), "5.123.45");
    let r = Response::with_enhanced_code(
        ReplyCode::SYNTAX_ERROR_PARAMS,
        EnhancedStatusCode::new(5, 5, 4).unwrap(),
        Text::try_from("Invalid").unwrap(),
    );
    assert!(r.is_error());
    assert_eq!(r.enhanced_code, EnhancedStatusCode::new(5, 5, 4));
}

#[test]
fn test_multiline_response() {
    let lines = Vec1::try_from(vec![
        Text::try_from("first").unwrap(),
        Text::try_from("second").unwrap(),
    ])
    .unwrap();
    let r = Response::new_multiline(ReplyCode::HELP_MESSAGE, lines);
    assert_eq!(r.text().inner(), "first");
    assert!(r.is_success());
}

fn ehlo() -> EhloResponse {
    let mut r = EhloResponse::with_greet(
        Domain::try_from("mx.example.com").unwrap(),
        Text::try_from("hello").unwrap(),
    );
    r.add_capability(Capability::Size(None));
    r.add_capability(Capability::Pipelining);
    r.add_capability(Capability::Size(Some(1000)));
    r.add_capability(Capability::Auth(vec![AuthMechanism::Plain, AuthMechanism::Login]));
    r.add_capability(Capability::Auth(vec![]));
    r.add_capability(Capability::Other {
        keyword: Atom::try_from("X-Custom").unwrap(),
        params: Some(String::from("a b")),
    });
    r
}

#[test]
fn test_ehlo_response() {
    let r = ehlo();
    assert!(r.has_capability("size"));
    assert!(r.has_capability("PIPELINING"));
    assert!(r.has_capability("Auth"));
    assert!(r.has_capability("x-custom"));
    assert!(!r.has_capability("STARTTLS"));
    assert!(!r.has_capability("8BITMIME"));
    assert_eq!(r.max_size(), Some(1000));
    assert_eq!(
        r.auth_mechanisms(),
        Some(&[AuthMechanism::Plain, AuthMechanism::Login][..])
    );
    let empty = EhloResponse::new(Domain::try_from("a").unwrap());
    assert_eq!(empty.max_size(), None);
    assert_eq!(empty.auth_mechanisms(), None);
    assert!(!empty.has_capability("SIZE"));
}

#[test]
fn test_capability_to_string() {
    assert_eq!(Capability::Size(Some(35882577)).to_string(), "SIZE 35882577");
    assert_eq!(Capability::Size(None).to_string(), "SIZE");
    assert_eq!(Capability::EightBitMime.to_string(), "8BITMIME");
    assert_eq!(Capability::EnhancedStatusCodes.to_string(), "ENHANCEDSTATUSCODES");
    assert_eq!(
        Capability::Auth(vec![AuthMechanism::Plain, AuthMechanism::XOAuth2]).to_string(),
        "AUTH PLAIN XOAUTH2"
    );
    assert_eq!(Capability::Auth(vec![]).to_string(), "AUTH");
    let other = Capability::Other {
        keyword: Atom::try_from("DSN").unwrap(),
        params: None,
    };
    assert_eq!(other.to_string(), "DSN");
    let other = Capability::Other {
        keyword: Atom::try_from("X-FOO").unwrap(),
        params: Some(String::from("bar baz")),
    };
    assert_eq!(other.to_string(), "X-FOO bar baz");
}

#[test]
fn test_reply_code_order() {
    assert!(ReplyCode::OK < ReplyCode::SYNTAX_ERROR);
    assert!(ReplyCode::START_MAIL_INPUT > ReplyCode::OK);
    assert!(ReplyCode::new(249).unwrap() < ReplyCode::OK);
    assert!(ReplyCode::new(599).unwrap() > ReplyCode::PARAMS_NOT_RECOGNIZED);
    assert!(ReplyCode::OK <= ReplyCode::new(250).unwrap());
    assert_eq!(
        ReplyCode::new(300).unwrap().partial_cmp(&ReplyCode::AUTH_CONTINUE),
        Some(std::cmp::Ordering::Less)
    );
}
