//! Authentication-related types for SMTP AUTH command.

use vstd::prelude::*;
use vstd::string::*;

use crate::ascii::{ascii_upper, eq_ignore_ascii_case, lemma_upper_fixed};
use crate::core_types::Atom;
use crate::error::ValidationError;
use crate::secret::Secret;

verus! {

/// Authentication mechanism for SMTP AUTH.
///
/// # Reference
///
/// RFC 4954: SMTP Service Extension for Authentication
#[derive(Debug, Clone, PartialEq, Eq, Hash)]
#[non_exhaustive]
pub enum AuthMechanism {
    /// The PLAIN SASL mechanism (RFC 4616).
    Plain,
    /// The (non-standardized) LOGIN SASL mechanism.
    Login,
    /// OAuth 2.0 bearer token mechanism (RFC 7628).
    OAuthBearer,
    /// Google's OAuth 2.0 mechanism.
    XOAuth2,
    /// SCRAM-SHA-1 (RFC 5802).
    ScramSha1,
    /// SCRAM-SHA-1-PLUS (RFC 5802).
    ScramSha1Plus,
    /// SCRAM-SHA-256 (RFC 7677).
    ScramSha256,
    /// SCRAM-SHA-256-PLUS (RFC 7677).
    ScramSha256Plus,
    /// SCRAM-SHA3-512
    ScramSha3_512,
    /// SCRAM-SHA3-512-PLUS
    ScramSha3_512Plus,
    /// CRAM-MD5 (legacy mechanism, RFC 2195).
    CramMd5,
    /// Some other (unknown) mechanism.
    Other(AuthMechanismOther),
}

/// An (unknown) authentication mechanism.
///
/// It's guaranteed that this type can't represent any known mechanism from [`AuthMechanism`].
#[derive(Debug, PartialEq, Eq, Hash)]
pub struct AuthMechanismOther(Atom);

impl Clone for AuthMechanismOther {
    fn clone(&self) -> (r: AuthMechanismOther)
        ensures
            r == *self,
    {
        proof {
            use_type_invariant(self);
        }
        AuthMechanismOther(self.0.clone())
    }
}

/// The known mechanism whose name is `upper`, if there is one.
pub open spec fn known_mechanism(upper: Seq<char>) -> Option<AuthMechanism> {
        if upper == "PLAIN"@ {
            Some(AuthMechanism::Plain)
        } else if upper == "LOGIN"@ {
            Some(AuthMechanism::Login)
        } else if upper == "OAUTHBEARER"@ {
            Some(AuthMechanism::OAuthBearer)
        } else if upper == "XOAUTH2"@ {
            Some(AuthMechanism::XOAuth2)
        } else if upper == "SCRAM-SHA-1"@ {
            Some(AuthMechanism::ScramSha1)
        } else if upper == "SCRAM-SHA-1-PLUS"@ {
            Some(AuthMechanism::ScramSha1Plus)
        } else if upper == "SCRAM-SHA-256"@ {
            Some(AuthMechanism::ScramSha256)
        } else if upper == "SCRAM-SHA-256-PLUS"@ {
            Some(AuthMechanism::ScramSha256Plus)
        } else if upper == "SCRAM-SHA3-512"@ {
            Some(AuthMechanism::ScramSha3_512)
        } else if upper == "SCRAM-SHA3-512-PLUS"@ {
            Some(AuthMechanism::ScramSha3_512Plus)
        } else if upper == "CRAM-MD5"@ {
            Some(AuthMechanism::CramMd5)
        } else {
            None
        }
}

impl AuthMechanismOther {
    #[verifier::type_invariant]
    closed spec fn inv(self) -> bool {
        known_mechanism(ascii_upper(self.0@)) is None
    }

    /// The atom that names the mechanism.
    pub closed spec fn atom(self) -> Atom {
        self.0
    }

    /// The unknown mechanism named by `atom`.
    pub closed spec fn wrap(atom: Atom) -> AuthMechanismOther {
        AuthMechanismOther(atom)
    }

    /// Wrapping an atom and reading it back gives that atom.
    pub broadcast proof fn lemma_wrap_atom(atom: Atom)
        ensures
            #[trigger] AuthMechanismOther::wrap(atom).atom() == atom,
    {
    }
}

/// The names of the known mechanisms are in uppercase.
pub proof fn lemma_known_names_upper()
    ensures
        ascii_upper("PLAIN"@) == "PLAIN"@,
        ascii_upper("LOGIN"@) == "LOGIN"@,
        ascii_upper("OAUTHBEARER"@) == "OAUTHBEARER"@,
        ascii_upper("XOAUTH2"@) == "XOAUTH2"@,
        ascii_upper("SCRAM-SHA-1"@) == "SCRAM-SHA-1"@,
        ascii_upper("SCRAM-SHA-1-PLUS"@) == "SCRAM-SHA-1-PLUS"@,
        ascii_upper("SCRAM-SHA-256"@) == "SCRAM-SHA-256"@,
        ascii_upper("SCRAM-SHA-256-PLUS"@) == "SCRAM-SHA-256-PLUS"@,
        ascii_upper("SCRAM-SHA3-512"@) == "SCRAM-SHA3-512"@,
        ascii_upper("SCRAM-SHA3-512-PLUS"@) == "SCRAM-SHA3-512-PLUS"@,
        ascii_upper("CRAM-MD5"@) == "CRAM-MD5"@,
{
        reveal_strlit("PLAIN");
        lemma_upper_fixed("PLAIN"@);
        reveal_strlit("LOGIN");
        lemma_upper_fixed("LOGIN"@);
        reveal_strlit("OAUTHBEARER");
        lemma_upper_fixed("OAUTHBEARER"@);
        reveal_strlit("XOAUTH2");
        lemma_upper_fixed("XOAUTH2"@);
        reveal_strlit("SCRAM-SHA-1");
        lemma_upper_fixed("SCRAM-SHA-1"@);
        reveal_strlit("SCRAM-SHA-1-PLUS");
        lemma_upper_fixed("SCRAM-SHA-1-PLUS"@);
        reveal_strlit("SCRAM-SHA-256");
        lemma_upper_fixed("SCRAM-SHA-256"@);
        reveal_strlit("SCRAM-SHA-256-PLUS");
        lemma_upper_fixed("SCRAM-SHA-256-PLUS"@);
        reveal_strlit("SCRAM-SHA3-512");
        lemma_upper_fixed("SCRAM-SHA3-512"@);
        reveal_strlit("SCRAM-SHA3-512-PLUS");
        lemma_upper_fixed("SCRAM-SHA3-512-PLUS"@);
        reveal_strlit("CRAM-MD5");
        lemma_upper_fixed("CRAM-MD5"@);
}

impl AuthMechanism {
    /// The name of the mechanism.
    pub open spec fn name(self) -> Seq<char> {
        match self {
            AuthMechanism::Plain => "PLAIN"@,
            AuthMechanism::Login => "LOGIN"@,
            AuthMechanism::OAuthBearer => "OAUTHBEARER"@,
            AuthMechanism::XOAuth2 => "XOAUTH2"@,
            AuthMechanism::ScramSha1 => "SCRAM-SHA-1"@,
            AuthMechanism::ScramSha1Plus => "SCRAM-SHA-1-PLUS"@,
            AuthMechanism::ScramSha256 => "SCRAM-SHA-256"@,
            AuthMechanism::ScramSha256Plus => "SCRAM-SHA-256-PLUS"@,
            AuthMechanism::ScramSha3_512 => "SCRAM-SHA3-512"@,
            AuthMechanism::ScramSha3_512Plus => "SCRAM-SHA3-512-PLUS"@,
            AuthMechanism::CramMd5 => "CRAM-MD5"@,
            AuthMechanism::Other(other) => other.atom()@,
        }
    }

    /// The mechanism named by `atom`: a known one when the name matches
    /// regardless of ASCII case, and an unknown one otherwise.
    pub open spec fn spec_from_atom(atom: Atom) -> AuthMechanism {
        match known_mechanism(ascii_upper(atom@)) {
            Some(m) => m,
            None => AuthMechanism::Other(AuthMechanismOther::wrap(atom)),
        }
    }

    /// Converts an atom to a mechanism, matching the known names regardless
    /// of ASCII case.
    pub fn from_atom(atom: Atom) -> (r: AuthMechanism)
        ensures
            r == AuthMechanism::spec_from_atom(atom),
    {
        proof {
            lemma_known_names_upper();
        }
        let s = atom.inner();
        if eq_ignore_ascii_case(s, "PLAIN") {
            AuthMechanism::Plain
        } else if eq_ignore_ascii_case(s, "LOGIN") {
            AuthMechanism::Login
        } else if eq_ignore_ascii_case(s, "OAUTHBEARER") {
            AuthMechanism::OAuthBearer
        } else if eq_ignore_ascii_case(s, "XOAUTH2") {
            AuthMechanism::XOAuth2
        } else if eq_ignore_ascii_case(s, "SCRAM-SHA-1") {
            AuthMechanism::ScramSha1
        } else if eq_ignore_ascii_case(s, "SCRAM-SHA-1-PLUS") {
            AuthMechanism::ScramSha1Plus
        } else if eq_ignore_ascii_case(s, "SCRAM-SHA-256") {
            AuthMechanism::ScramSha256
        } else if eq_ignore_ascii_case(s, "SCRAM-SHA-256-PLUS") {
            AuthMechanism::ScramSha256Plus
        } else if eq_ignore_ascii_case(s, "SCRAM-SHA3-512") {
            AuthMechanism::ScramSha3_512
        } else if eq_ignore_ascii_case(s, "SCRAM-SHA3-512-PLUS") {
            AuthMechanism::ScramSha3_512Plus
        } else if eq_ignore_ascii_case(s, "CRAM-MD5") {
            AuthMechanism::CramMd5
        } else {
            AuthMechanism::Other(AuthMechanismOther(atom))
        }
    }

    /// Returns the name of the mechanism.
    pub fn as_ref(&self) -> (r: &str)
        ensures
            r@ == self.name(),
            self is Other ==> known_mechanism(ascii_upper(r@)) is None,
    {
        match self {
            AuthMechanism::Plain => "PLAIN",
            AuthMechanism::Login => "LOGIN",
            AuthMechanism::OAuthBearer => "OAUTHBEARER",
            AuthMechanism::XOAuth2 => "XOAUTH2",
            AuthMechanism::ScramSha1 => "SCRAM-SHA-1",
            AuthMechanism::ScramSha1Plus => "SCRAM-SHA-1-PLUS",
            AuthMechanism::ScramSha256 => "SCRAM-SHA-256",
            AuthMechanism::ScramSha256Plus => "SCRAM-SHA-256-PLUS",
            AuthMechanism::ScramSha3_512 => "SCRAM-SHA3-512",
            AuthMechanism::ScramSha3_512Plus => "SCRAM-SHA3-512-PLUS",
            AuthMechanism::CramMd5 => "CRAM-MD5",
            AuthMechanism::Other(other) => {
                proof {
                    use_type_invariant(other);
                }
                other.0.inner()
            },
        }
    }

    /// The name of the mechanism, as an owned string.
    pub fn to_string(&self) -> (r: String)
        ensures
            r@ == self.name(),
    {
        self.as_ref().to_owned()
    }

    /// Validates `value` as an atom and converts it to a mechanism.
    pub fn try_from(value: &str) -> (r: Result<AuthMechanism, ValidationError>)
        ensures
            match r {
                Ok(m) => Atom::is_valid(value@) && match known_mechanism(ascii_upper(value@)) {
                    Some(k) => m == k,
                    None => m is Other && m.name() == value@,
                },
                Err(e) => Atom::spec_validate(value.spec_bytes()) == Err::<(), _>(e),
            },
    {
        match Atom::try_from(value) {
            Ok(atom) => {
                let m = AuthMechanism::from_atom(atom);
                proof {
                    lemma_known_names_upper();
                    broadcast use AuthMechanismOther::lemma_wrap_atom;

                }
                Ok(m)
            },
            Err(e) => Err(e),
        }
    }

    /// Parses a mechanism from its name.
    pub fn from_str(s: &str) -> (r: Result<AuthMechanism, ValidationError>)
        ensures
            match r {
                Ok(m) => Atom::is_valid(s@) && match known_mechanism(ascii_upper(s@)) {
                    Some(k) => m == k,
                    None => m is Other && m.name() == s@,
                },
                Err(e) => Atom::spec_validate(s.spec_bytes()) == Err::<(), _>(e),
            },
    {
        AuthMechanism::try_from(s)
    }
}

impl From<Atom> for AuthMechanism {
    fn from(atom: Atom) -> (r: AuthMechanism) {
        AuthMechanism::from_atom(atom)
    }
}

impl vstd::std_specs::convert::FromSpecImpl<Atom> for AuthMechanism {
    open spec fn obeys_from_spec() -> bool {
        true
    }

    open spec fn from_spec(v: Atom) -> AuthMechanism {
        AuthMechanism::spec_from_atom(v)
    }
}

/// Converting an atom to a mechanism keeps its name up to ASCII case.
pub proof fn law_from_atom_keeps_name(atom: Atom)
    ensures
        ascii_upper(AuthMechanism::spec_from_atom(atom).name()) == ascii_upper(atom@),
{
    lemma_known_names_upper();
    broadcast use AuthMechanismOther::lemma_wrap_atom;

}

/// A known mechanism is recognized from its own name, whatever the ASCII
/// case of the atom that spells it.
pub proof fn law_known_name_round_trip(m: AuthMechanism, atom: Atom)
    requires
        !(m is Other),
        ascii_upper(atom@) == m.name(),
    ensures
        AuthMechanism::spec_from_atom(atom) == m,
{
    lemma_known_names_upper();
    reveal_strlit("PLAIN");
    reveal_strlit("LOGIN");
    reveal_strlit("OAUTHBEARER");
    reveal_strlit("XOAUTH2");
    reveal_strlit("SCRAM-SHA-1");
    reveal_strlit("SCRAM-SHA-1-PLUS");
    reveal_strlit("SCRAM-SHA-256");
    reveal_strlit("SCRAM-SHA-256-PLUS");
    reveal_strlit("SCRAM-SHA3-512");
    reveal_strlit("SCRAM-SHA3-512-PLUS");
    reveal_strlit("CRAM-MD5");
    // The names that have the same length differ in their first character.
    assert("PLAIN"@[0] != "LOGIN"@[0]);
    assert("OAUTHBEARER"@[0] != "SCRAM-SHA-1"@[0]);
}

/// Data line used during SMTP AUTH exchange.
///
/// Holds the raw binary data, i.e., a `Vec<u8>`, *not* the BASE64 string.
#[derive(Debug, Clone, PartialEq, Eq, Hash)]
pub enum AuthenticateData {
    /// Continue SASL authentication with response data.
    Continue(Secret<Vec<u8>>),
    /// Cancel SASL authentication.
    ///
    /// The client sends a single "*" to cancel the authentication exchange.
    Cancel,
}

impl AuthenticateData {
    /// Create a continuation response with the given data.
    pub fn continue_with(data: Vec<u8>) -> (r: AuthenticateData)
        ensures
            r matches AuthenticateData::Continue(s) && s.value() == data,
    {
        AuthenticateData::Continue(Secret::new(data))
    }
}

} // verus!
