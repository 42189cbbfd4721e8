use smtp_types::auth::{AuthMechanism, AuthenticateData};
use smtp_types::core_types::Atom;
use smtp_types::error::ValidationErrorKind;

#[test]
fn auth_test_conversion() {
    assert!(AuthMechanism::try_from("plain").is_ok());
    assert!(AuthMechanism::try_from("login").is_ok());
    assert!(AuthMechanism::try_from("oauthbearer").is_ok());
    assert!(AuthMechanism::try_from("xoauth2").is_ok());
    assert!(AuthMechanism::try_from("cram-md5").is_ok());
    assert!(AuthMechanism::try_from("xxxplain").is_ok());
    assert!(AuthMechanism::try_from("xxxlogin").is_ok());
}

#[test]
fn test_display() {
    assert_eq!(AuthMechanism::Plain.to_string(), "PLAIN");
    assert_eq!(AuthMechanism::Login.to_string(), "LOGIN");
    assert_eq!(AuthMechanism::CramMd5.to_string(), "CRAM-MD5");
}

#[test]
fn test_known_mechanisms_any_case() {
    assert_eq!(AuthMechanism::try_from("plain").unwrap(), AuthMechanism::Plain);
    assert_eq!(AuthMechanism::try_from("PlAiN").unwrap(), AuthMechanism::Plain);
    assert_eq!(AuthMechanism::try_from("scram-sha-1-plus").unwrap(), AuthMechanism::ScramSha1Plus);
    assert_eq!(AuthMechanism::try_from("SCRAM-SHA3-512").unwrap(), AuthMechanism::ScramSha3_512);
    assert_eq!(AuthMechanism::try_from("Xoauth2").unwrap(), AuthMechanism::XOAuth2);
    assert_eq!(AuthMechanism::from_str("cram-md5").unwrap(), AuthMechanism::CramMd5);
}

#[test]
fn test_unknown_mechanism_keeps_its_name() {
    let m = AuthMechanism::try_from("xxxplain").unwrap();
    assert!(matches!(m, AuthMechanism::Other(_)));
    assert_eq!(m.as_ref(), "xxxplain");
    assert_eq!(m.to_string(), "xxxplain");
    let m = AuthMechanism::from(Atom::try_from("GSSAPI").unwrap());
    assert!(matches!(m, AuthMechanism::Other(_)));
    assert_eq!(m.as_ref(), "GSSAPI");
}

#[test]
fn test_mechanism_name_round_trip() {
    let known = [
        AuthMechanism::Plain,
        AuthMechanism::Login,
        AuthMechanism::OAuthBearer,
        AuthMechanism::XOAuth2,
        AuthMechanism::ScramSha1,
        AuthMechanism::ScramSha1Plus,
        AuthMechanism::ScramSha256,
        AuthMechanism::ScramSha256Plus,
        AuthMechanism::ScramSha3_512,
        AuthMechanism::ScramSha3_512Plus,
        AuthMechanism::CramMd5,
    ];
    for m in known {
        let name = m.as_ref().to_string();
        assert_eq!(AuthMechanism::try_from(name.as_str()).unwrap(), m);
        let lower = name.to_ascii_lowercase();
        assert_eq!(AuthMechanism::try_from(lower.as_str()).unwrap(), m);
    }
}

#[test]
fn test_mechanism_invalid_atom() {
    let e = AuthMechanism::try_from("").unwrap_err();
    assert_eq!(e.kind(), ValidationErrorKind::Empty);
    let e = AuthMechanism::try_from("PL AIN").unwrap_err();
    assert_eq!(e.kind(), ValidationErrorKind::InvalidByteAt { byte: b' ', at: 2 });
}

#[test]
fn test_authenticate_data() {
    let d = AuthenticateData::continue_with(vec![1, 2, 3]);
    match d {
        AuthenticateData::Continue(secret) => assert_eq!(secret.declassify(), &vec![1, 2, 3]),
        AuthenticateData::Cancel => panic!("expected Continue"),
    }
}
