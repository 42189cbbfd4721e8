//! SMTP response types.
//!
//! This module defines the responses that an SMTP server sends to a client
//! as specified in RFC 5321.

use std::cmp::Ordering;
use vstd::prelude::*;
use vstd::std_specs::cmp::PartialOrdSpecImpl;
use vstd::string::*;

use crate::ascii::{
    all_ascii, lemma_ascii_encoding_chars, ascii_chars, ascii_string, ascii_upper, decimal, decimal_string, eq_ignore_ascii_case,
    lemma_ascii_bytes_encode, lemma_decimal, lemma_upper_fixed, parse_u16, parse_u16_exec,
    push_decimal, unsigned_part,
};
use crate::auth::AuthMechanism;
use crate::core_types::{law_atom_is_atext, Atom, Domain, Text, Vec1};
use crate::error::{ValidationError, ValidationErrorKind};
use crate::utils::indicators::spec_is_atext;

verus! {

/// A 3-digit SMTP reply code (200 to 599).
///
/// The codes that RFC 5321 and RFC 4954 name are variants of their own; any
/// other code is held by [`ReplyCode::Other`]. Each code has exactly one
/// representation, so two reply codes are equal exactly when their numbers are.
///
/// # ABNF Definition (RFC 5321)
///
/// ```abnf
/// Reply-code     = %x32-35 %x30-35 %x30-39
/// ```
#[allow(non_camel_case_types)]
#[derive(Clone, Copy, Debug, PartialEq, Eq, Hash, Structural)]
pub enum ReplyCode {
    /// 211 System status
    SYSTEM_STATUS,
    /// 214 Help message
    HELP_MESSAGE,
    /// 220 Service ready
    SERVICE_READY,
    /// 221 Service closing transmission channel
    SERVICE_CLOSING,
    /// 235 Authentication successful (RFC 4954)
    AUTH_SUCCESSFUL,
    /// 250 Requested mail action okay, completed
    OK,
    /// 251 User not local; will forward
    USER_NOT_LOCAL_WILL_FORWARD,
    /// 252 Cannot VRFY user, but will accept message
    CANNOT_VRFY_USER,
    /// 334 Server challenge (AUTH continuation)
    AUTH_CONTINUE,
    /// 354 Start mail input
    START_MAIL_INPUT,
    /// 421 Service not available, closing transmission channel
    SERVICE_NOT_AVAILABLE,
    /// 450 Requested mail action not taken: mailbox unavailable
    MAILBOX_UNAVAILABLE_TEMP,
    /// 451 Requested action aborted: local error in processing
    LOCAL_ERROR,
    /// 452 Requested action not taken: insufficient system storage
    INSUFFICIENT_STORAGE,
    /// 455 Server unable to accommodate parameters
    UNABLE_TO_ACCOMMODATE,
    /// 500 Syntax error, command unrecognized
    SYNTAX_ERROR,
    /// 501 Syntax error in parameters or arguments
    SYNTAX_ERROR_PARAMS,
    /// 502 Command not implemented
    COMMAND_NOT_IMPLEMENTED,
    /// 503 Bad sequence of commands
    BAD_SEQUENCE,
    /// 504 Command parameter not implemented
    PARAM_NOT_IMPLEMENTED,
    /// 530 Authentication required (RFC 4954)
    AUTH_REQUIRED,
    /// 534 Authentication mechanism is too weak (RFC 4954)
    AUTH_TOO_WEAK,
    /// 535 Authentication credentials invalid (RFC 4954)
    AUTH_INVALID,
    /// 550 Requested action not taken: mailbox unavailable
    MAILBOX_UNAVAILABLE,
    /// 551 User not local; please try forwarding
    USER_NOT_LOCAL,
    /// 552 Requested mail action aborted: exceeded storage allocation
    EXCEEDED_STORAGE,
    /// 553 Requested action not taken: mailbox name not allowed
    MAILBOX_NAME_NOT_ALLOWED,
    /// 554 Transaction failed
    TRANSACTION_FAILED,
    /// 555 MAIL FROM/RCPT TO parameters not recognized or not implemented
    PARAMS_NOT_RECOGNIZED,
    /// A code in 200..=599 that has no name above.
    Other(UnnamedReplyCode),
}

/// A reply code in 200..=599 that [`ReplyCode`] has no named variant for.
#[derive(Clone, Copy, Debug, PartialEq, Eq, Hash, Structural)]
pub struct UnnamedReplyCode(u16);

/// The named reply code for `code`, if there is one.
pub open spec fn named_reply_code(code: u16) -> Option<ReplyCode> {
    match code {
        211 => Some(ReplyCode::SYSTEM_STATUS),
        214 => Some(ReplyCode::HELP_MESSAGE),
        220 => Some(ReplyCode::SERVICE_READY),
        221 => Some(ReplyCode::SERVICE_CLOSING),
        235 => Some(ReplyCode::AUTH_SUCCESSFUL),
        250 => Some(ReplyCode::OK),
        251 => Some(ReplyCode::USER_NOT_LOCAL_WILL_FORWARD),
        252 => Some(ReplyCode::CANNOT_VRFY_USER),
        334 => Some(ReplyCode::AUTH_CONTINUE),
        354 => Some(ReplyCode::START_MAIL_INPUT),
        421 => Some(ReplyCode::SERVICE_NOT_AVAILABLE),
        450 => Some(ReplyCode::MAILBOX_UNAVAILABLE_TEMP),
        451 => Some(ReplyCode::LOCAL_ERROR),
        452 => Some(ReplyCode::INSUFFICIENT_STORAGE),
        455 => Some(ReplyCode::UNABLE_TO_ACCOMMODATE),
        500 => Some(ReplyCode::SYNTAX_ERROR),
        501 => Some(ReplyCode::SYNTAX_ERROR_PARAMS),
        502 => Some(ReplyCode::COMMAND_NOT_IMPLEMENTED),
        503 => Some(ReplyCode::BAD_SEQUENCE),
        504 => Some(ReplyCode::PARAM_NOT_IMPLEMENTED),
        530 => Some(ReplyCode::AUTH_REQUIRED),
        534 => Some(ReplyCode::AUTH_TOO_WEAK),
        535 => Some(ReplyCode::AUTH_INVALID),
        550 => Some(ReplyCode::MAILBOX_UNAVAILABLE),
        551 => Some(ReplyCode::USER_NOT_LOCAL),
        552 => Some(ReplyCode::EXCEEDED_STORAGE),
        553 => Some(ReplyCode::MAILBOX_NAME_NOT_ALLOWED),
        554 => Some(ReplyCode::TRANSACTION_FAILED),
        555 => Some(ReplyCode::PARAMS_NOT_RECOGNIZED),
        _ => None,
    }
}

impl UnnamedReplyCode {
    #[verifier::type_invariant]
    closed spec fn inv(self) -> bool {
        200 <= self.0 < 600 && named_reply_code(self.0) is None
    }

    /// The number of the code.
    pub closed spec fn value(self) -> u16 {
        self.0
    }

    /// The unnamed code with number `code`.
    pub closed spec fn wrap(code: u16) -> UnnamedReplyCode {
        UnnamedReplyCode(code)
    }

    /// Wrapping a number and reading it back gives that number.
    pub broadcast proof fn lemma_wrap_value(code: u16)
        ensures
            #[trigger] UnnamedReplyCode::wrap(code).value() == code,
    {
    }
}

impl ReplyCode {
    /// The number of the reply code.
    pub open spec fn value(self) -> u16 {
        match self {
            ReplyCode::SYSTEM_STATUS => 211,
            ReplyCode::HELP_MESSAGE => 214,
            ReplyCode::SERVICE_READY => 220,
            ReplyCode::SERVICE_CLOSING => 221,
            ReplyCode::AUTH_SUCCESSFUL => 235,
            ReplyCode::OK => 250,
            ReplyCode::USER_NOT_LOCAL_WILL_FORWARD => 251,
            ReplyCode::CANNOT_VRFY_USER => 252,
            ReplyCode::AUTH_CONTINUE => 334,
            ReplyCode::START_MAIL_INPUT => 354,
            ReplyCode::SERVICE_NOT_AVAILABLE => 421,
            ReplyCode::MAILBOX_UNAVAILABLE_TEMP => 450,
            ReplyCode::LOCAL_ERROR => 451,
            ReplyCode::INSUFFICIENT_STORAGE => 452,
            ReplyCode::UNABLE_TO_ACCOMMODATE => 455,
            ReplyCode::SYNTAX_ERROR => 500,
            ReplyCode::SYNTAX_ERROR_PARAMS => 501,
            ReplyCode::COMMAND_NOT_IMPLEMENTED => 502,
            ReplyCode::BAD_SEQUENCE => 503,
            ReplyCode::PARAM_NOT_IMPLEMENTED => 504,
            ReplyCode::AUTH_REQUIRED => 530,
            ReplyCode::AUTH_TOO_WEAK => 534,
            ReplyCode::AUTH_INVALID => 535,
            ReplyCode::MAILBOX_UNAVAILABLE => 550,
            ReplyCode::USER_NOT_LOCAL => 551,
            ReplyCode::EXCEEDED_STORAGE => 552,
            ReplyCode::MAILBOX_NAME_NOT_ALLOWED => 553,
            ReplyCode::TRANSACTION_FAILED => 554,
            ReplyCode::PARAMS_NOT_RECOGNIZED => 555,
            ReplyCode::Other(u) => u.value(),
        }
    }

    /// The reply code with number `code`, if `code` is in 200..=599.
    pub open spec fn spec_new(code: u16) -> Option<ReplyCode> {
        if 200 <= code < 600 {
            match named_reply_code(code) {
                Some(named) => Some(named),
                None => Some(ReplyCode::Other(UnnamedReplyCode::wrap(code))),
            }
        } else {
            None
        }
    }

    /// Creates a new reply code from a u16.
    ///
    /// Returns `None` if the value is not a valid 3-digit code (200-599).
    pub fn new(code: u16) -> (r: Option<ReplyCode>)
        ensures
            r == ReplyCode::spec_new(code),
            r is Some <==> 200 <= code < 600,
            r matches Some(c) ==> c.value() == code,
    {
        if code < 200 || code >= 600 {
            return None;
        }
        let named = match code {
            211 => ReplyCode::SYSTEM_STATUS,
            214 => ReplyCode::HELP_MESSAGE,
            220 => ReplyCode::SERVICE_READY,
            221 => ReplyCode::SERVICE_CLOSING,
            235 => ReplyCode::AUTH_SUCCESSFUL,
            250 => ReplyCode::OK,
            251 => ReplyCode::USER_NOT_LOCAL_WILL_FORWARD,
            252 => ReplyCode::CANNOT_VRFY_USER,
            334 => ReplyCode::AUTH_CONTINUE,
            354 => ReplyCode::START_MAIL_INPUT,
            421 => ReplyCode::SERVICE_NOT_AVAILABLE,
            450 => ReplyCode::MAILBOX_UNAVAILABLE_TEMP,
            451 => ReplyCode::LOCAL_ERROR,
            452 => ReplyCode::INSUFFICIENT_STORAGE,
            455 => ReplyCode::UNABLE_TO_ACCOMMODATE,
            500 => ReplyCode::SYNTAX_ERROR,
            501 => ReplyCode::SYNTAX_ERROR_PARAMS,
            502 => ReplyCode::COMMAND_NOT_IMPLEMENTED,
            503 => ReplyCode::BAD_SEQUENCE,
            504 => ReplyCode::PARAM_NOT_IMPLEMENTED,
            530 => ReplyCode::AUTH_REQUIRED,
            534 => ReplyCode::AUTH_TOO_WEAK,
            535 => ReplyCode::AUTH_INVALID,
            550 => ReplyCode::MAILBOX_UNAVAILABLE,
            551 => ReplyCode::USER_NOT_LOCAL,
            552 => ReplyCode::EXCEEDED_STORAGE,
            553 => ReplyCode::MAILBOX_NAME_NOT_ALLOWED,
            554 => ReplyCode::TRANSACTION_FAILED,
            555 => ReplyCode::PARAMS_NOT_RECOGNIZED,
            _ => ReplyCode::Other(UnnamedReplyCode(code)),
        };
        Some(named)
    }

    /// Returns the numeric value of the reply code.
    ///
    /// The reply code is the one that [`ReplyCode::new`] gives for that number.
    pub fn code(&self) -> (c: u16)
        ensures
            c == self.value(),
            200 <= c < 600,
            ReplyCode::spec_new(c) == Some(*self),
    {
        match self {
            ReplyCode::SYSTEM_STATUS => 211,
            ReplyCode::HELP_MESSAGE => 214,
            ReplyCode::SERVICE_READY => 220,
            ReplyCode::SERVICE_CLOSING => 221,
            ReplyCode::AUTH_SUCCESSFUL => 235,
            ReplyCode::OK => 250,
            ReplyCode::USER_NOT_LOCAL_WILL_FORWARD => 251,
            ReplyCode::CANNOT_VRFY_USER => 252,
            ReplyCode::AUTH_CONTINUE => 334,
            ReplyCode::START_MAIL_INPUT => 354,
            ReplyCode::SERVICE_NOT_AVAILABLE => 421,
            ReplyCode::MAILBOX_UNAVAILABLE_TEMP => 450,
            ReplyCode::LOCAL_ERROR => 451,
            ReplyCode::INSUFFICIENT_STORAGE => 452,
            ReplyCode::UNABLE_TO_ACCOMMODATE => 455,
            ReplyCode::SYNTAX_ERROR => 500,
            ReplyCode::SYNTAX_ERROR_PARAMS => 501,
            ReplyCode::COMMAND_NOT_IMPLEMENTED => 502,
            ReplyCode::BAD_SEQUENCE => 503,
            ReplyCode::PARAM_NOT_IMPLEMENTED => 504,
            ReplyCode::AUTH_REQUIRED => 530,
            ReplyCode::AUTH_TOO_WEAK => 534,
            ReplyCode::AUTH_INVALID => 535,
            ReplyCode::MAILBOX_UNAVAILABLE => 550,
            ReplyCode::USER_NOT_LOCAL => 551,
            ReplyCode::EXCEEDED_STORAGE => 552,
            ReplyCode::MAILBOX_NAME_NOT_ALLOWED => 553,
            ReplyCode::TRANSACTION_FAILED => 554,
            ReplyCode::PARAMS_NOT_RECOGNIZED => 555,
            ReplyCode::Other(u) => {
                proof {
                    use_type_invariant(u);
                }
                u.0
            },
        }
    }

    /// Returns the first digit (class) of the reply code.
    pub fn class(&self) -> (r: u8)
        ensures
            r == self.value() / 100,
            2 <= r <= 5,
    {
        (self.code() / 100) as u8
    }

    /// Returns true if this is a positive completion reply (2xx).
    pub fn is_positive_completion(&self) -> (r: bool)
        ensures
            r == (self.value() / 100 == 2),
    {
        self.class() == 2
    }

    /// Returns true if this is a positive intermediate reply (3xx).
    pub fn is_positive_intermediate(&self) -> (r: bool)
        ensures
            r == (self.value() / 100 == 3),
    {
        self.class() == 3
    }

    /// Returns true if this is a transient negative reply (4xx).
    pub fn is_transient_negative(&self) -> (r: bool)
        ensures
            r == (self.value() / 100 == 4),
    {
        self.class() == 4
    }

    /// Returns true if this is a permanent negative reply (5xx).
    pub fn is_permanent_negative(&self) -> (r: bool)
        ensures
            r == (self.value() / 100 == 5),
    {
        self.class() == 5
    }

    /// Returns true if this is a success reply (2xx or 3xx).
    pub fn is_success(&self) -> (r: bool)
        ensures
            r == (self.value() < 400),
    {
        let c = self.class();
        c == 2 || c == 3
    }

    /// Returns true if this is an error reply (4xx or 5xx).
    pub fn is_error(&self) -> (r: bool)
        ensures
            r == (self.value() >= 400),
    {
        let c = self.class();
        c == 4 || c == 5
    }

    /// The outcome of [`ReplyCode::try_from`] on `value`.
    pub open spec fn spec_try_from(value: u16) -> Result<ReplyCode, ValidationError> {
        match ReplyCode::spec_new(value) {
            Some(c) => Ok(c),
            None => Err(ValidationError::of(ValidationErrorKind::Invalid)),
        }
    }

    /// Converts a number to a reply code.
    pub fn try_from(value: u16) -> (r: Result<ReplyCode, ValidationError>)
        ensures
            r == ReplyCode::spec_try_from(value),
    {
        match ReplyCode::new(value) {
            Some(c) => Ok(c),
            None => Err(ValidationError::new(ValidationErrorKind::Invalid)),
        }
    }

    /// The outcome of [`ReplyCode::from_str`] on a string made of `bytes`.
    pub open spec fn spec_from_str(bytes: Seq<u8>) -> Result<ReplyCode, ValidationError> {
        match parse_u16(bytes) {
            Some(code) => ReplyCode::spec_try_from(code),
            None => Err(ValidationError::of(ValidationErrorKind::Invalid)),
        }
    }

    /// Parses a reply code from its decimal numeral, the way `u16::from_str`
    /// reads numbers.
    pub fn from_str(s: &str) -> (r: Result<ReplyCode, ValidationError>)
        ensures
            r == ReplyCode::spec_from_str(s.spec_bytes()),
    {
        match parse_u16_exec(s.as_bytes()) {
            Some(code) => ReplyCode::try_from(code),
            None => Err(ValidationError::new(ValidationErrorKind::Invalid)),
        }
    }

    /// The decimal numeral of the reply code.
    pub fn to_string(&self) -> (r: String)
        ensures
            r@ == ascii_chars(decimal(self.value() as nat)),
    {
        decimal_string(self.code() as u64)
    }
}

/// Reply codes are ordered by their numbers.
impl PartialOrd for ReplyCode {
    fn partial_cmp(&self, other: &ReplyCode) -> (r: Option<Ordering>) {
        let a = self.code();
        let b = other.code();
        if a < b {
            Some(Ordering::Less)
        } else if a == b {
            Some(Ordering::Equal)
        } else {
            Some(Ordering::Greater)
        }
    }
}

impl PartialOrdSpecImpl for ReplyCode {
    open spec fn obeys_partial_cmp_spec() -> bool {
        true
    }

    open spec fn partial_cmp_spec(&self, other: &ReplyCode) -> Option<Ordering> {
        if self.value() < other.value() {
            Some(Ordering::Less)
        } else if self.value() == other.value() {
            Some(Ordering::Equal)
        } else {
            Some(Ordering::Greater)
        }
    }
}

impl From<ReplyCode> for u16 {
    fn from(code: ReplyCode) -> (r: u16) {
        code.code()
    }
}

impl vstd::std_specs::convert::FromSpecImpl<ReplyCode> for u16 {
    open spec fn obeys_from_spec() -> bool {
        true
    }

    open spec fn from_spec(v: ReplyCode) -> u16 {
        v.value()
    }
}

/// Each named reply code is the code of the number that its name documents:
/// [`ReplyCode::new`] gives the named code for exactly that number, and the
/// named code reads back as it.
pub proof fn law_reply_code_names(n: u16)
    ensures
        (ReplyCode::spec_new(n) == Some(ReplyCode::SYSTEM_STATUS)) <==> n == 211,
        (ReplyCode::spec_new(n) == Some(ReplyCode::HELP_MESSAGE)) <==> n == 214,
        (ReplyCode::spec_new(n) == Some(ReplyCode::SERVICE_READY)) <==> n == 220,
        (ReplyCode::spec_new(n) == Some(ReplyCode::SERVICE_CLOSING)) <==> n == 221,
        (ReplyCode::spec_new(n) == Some(ReplyCode::AUTH_SUCCESSFUL)) <==> n == 235,
        (ReplyCode::spec_new(n) == Some(ReplyCode::OK)) <==> n == 250,
        (ReplyCode::spec_new(n) == Some(ReplyCode::USER_NOT_LOCAL_WILL_FORWARD)) <==> n == 251,
        (ReplyCode::spec_new(n) == Some(ReplyCode::CANNOT_VRFY_USER)) <==> n == 252,
        (ReplyCode::spec_new(n) == Some(ReplyCode::AUTH_CONTINUE)) <==> n == 334,
        (ReplyCode::spec_new(n) == Some(ReplyCode::START_MAIL_INPUT)) <==> n == 354,
        (ReplyCode::spec_new(n) == Some(ReplyCode::SERVICE_NOT_AVAILABLE)) <==> n == 421,
        (ReplyCode::spec_new(n) == Some(ReplyCode::MAILBOX_UNAVAILABLE_TEMP)) <==> n == 450,
        (ReplyCode::spec_new(n) == Some(ReplyCode::LOCAL_ERROR)) <==> n == 451,
        (ReplyCode::spec_new(n) == Some(ReplyCode::INSUFFICIENT_STORAGE)) <==> n == 452,
        (ReplyCode::spec_new(n) == Some(ReplyCode::UNABLE_TO_ACCOMMODATE)) <==> n == 455,
        (ReplyCode::spec_new(n) == Some(ReplyCode::SYNTAX_ERROR)) <==> n == 500,
        (ReplyCode::spec_new(n) == Some(ReplyCode::SYNTAX_ERROR_PARAMS)) <==> n == 501,
        (ReplyCode::spec_new(n) == Some(ReplyCode::COMMAND_NOT_IMPLEMENTED)) <==> n == 502,
        (ReplyCode::spec_new(n) == Some(ReplyCode::BAD_SEQUENCE)) <==> n == 503,
        (ReplyCode::spec_new(n) == Some(ReplyCode::PARAM_NOT_IMPLEMENTED)) <==> n == 504,
        (ReplyCode::spec_new(n) == Some(ReplyCode::AUTH_REQUIRED)) <==> n == 530,
        (ReplyCode::spec_new(n) == Some(ReplyCode::AUTH_TOO_WEAK)) <==> n == 534,
        (ReplyCode::spec_new(n) == Some(ReplyCode::AUTH_INVALID)) <==> n == 535,
        (ReplyCode::spec_new(n) == Some(ReplyCode::MAILBOX_UNAVAILABLE)) <==> n == 550,
        (ReplyCode::spec_new(n) == Some(ReplyCode::USER_NOT_LOCAL)) <==> n == 551,
        (ReplyCode::spec_new(n) == Some(ReplyCode::EXCEEDED_STORAGE)) <==> n == 552,
        (ReplyCode::spec_new(n) == Some(ReplyCode::MAILBOX_NAME_NOT_ALLOWED)) <==> n == 553,
        (ReplyCode::spec_new(n) == Some(ReplyCode::TRANSACTION_FAILED)) <==> n == 554,
        (ReplyCode::spec_new(n) == Some(ReplyCode::PARAMS_NOT_RECOGNIZED)) <==> n == 555,
        ReplyCode::SYSTEM_STATUS.value() == 211,
        ReplyCode::HELP_MESSAGE.value() == 214,
        ReplyCode::SERVICE_READY.value() == 220,
        ReplyCode::SERVICE_CLOSING.value() == 221,
        ReplyCode::AUTH_SUCCESSFUL.value() == 235,
        ReplyCode::OK.value() == 250,
        ReplyCode::USER_NOT_LOCAL_WILL_FORWARD.value() == 251,
        ReplyCode::CANNOT_VRFY_USER.value() == 252,
        ReplyCode::AUTH_CONTINUE.value() == 334,
        ReplyCode::START_MAIL_INPUT.value() == 354,
        ReplyCode::SERVICE_NOT_AVAILABLE.value() == 421,
        ReplyCode::MAILBOX_UNAVAILABLE_TEMP.value() == 450,
        ReplyCode::LOCAL_ERROR.value() == 451,
        ReplyCode::INSUFFICIENT_STORAGE.value() == 452,
        ReplyCode::UNABLE_TO_ACCOMMODATE.value() == 455,
        ReplyCode::SYNTAX_ERROR.value() == 500,
        ReplyCode::SYNTAX_ERROR_PARAMS.value() == 501,
        ReplyCode::COMMAND_NOT_IMPLEMENTED.value() == 502,
        ReplyCode::BAD_SEQUENCE.value() == 503,
        ReplyCode::PARAM_NOT_IMPLEMENTED.value() == 504,
        ReplyCode::AUTH_REQUIRED.value() == 530,
        ReplyCode::AUTH_TOO_WEAK.value() == 534,
        ReplyCode::AUTH_INVALID.value() == 535,
        ReplyCode::MAILBOX_UNAVAILABLE.value() == 550,
        ReplyCode::USER_NOT_LOCAL.value() == 551,
        ReplyCode::EXCEEDED_STORAGE.value() == 552,
        ReplyCode::MAILBOX_NAME_NOT_ALLOWED.value() == 553,
        ReplyCode::TRANSACTION_FAILED.value() == 554,
        ReplyCode::PARAMS_NOT_RECOGNIZED.value() == 555,
{
}

/// Reading back the numeral of a reply code gives that reply code.
pub proof fn law_reply_code_numeral_round_trip(code: ReplyCode)
    requires
        ReplyCode::spec_new(code.value()) == Some(code),
    ensures
        ReplyCode::spec_from_str(encode_utf8_of_ascii(decimal(code.value() as nat))) == Ok::<
            ReplyCode,
            ValidationError,
        >(code),
{
    let d = decimal(code.value() as nat);
    lemma_decimal(code.value() as nat);
    lemma_ascii_bytes_encode(d);
    assert(unsigned_part(d) == d);
}

/// Two reply codes are equal exactly when their numbers are.
pub proof fn law_reply_code_identified_by_number(a: ReplyCode, b: ReplyCode)
    requires
        ReplyCode::spec_new(a.value()) == Some(a),
        ReplyCode::spec_new(b.value()) == Some(b),
    ensures
        (a == b) <==> (a.value() == b.value()),
{
}

/// The bytes of the string whose characters are the ASCII bytes `s`.
pub open spec fn encode_utf8_of_ascii(s: Seq<u8>) -> Seq<u8> {
    vstd::utf8::encode_utf8(ascii_chars(s))
}

/// Every reply code is in exactly one of the four classes, and is either a
/// success or an error.
pub proof fn law_reply_code_classes(code: ReplyCode)
    requires
        ReplyCode::spec_new(code.value()) == Some(code),
    ensures
        code.value() / 100 == 2 || code.value() / 100 == 3 || code.value() / 100 == 4
            || code.value() / 100 == 5,
        (code.value() < 400) != (code.value() >= 400),
{
}

/// Enhanced status code (RFC 3463).
///
/// Format: class.subject.detail (e.g., 2.1.0, 5.7.1)
#[derive(Debug, Clone, Copy, PartialEq, Eq, Hash, Structural)]
pub struct EnhancedStatusCode {
    /// Class: 2 (success), 4 (temporary failure), or 5 (permanent failure)
    pub class: u8,
    /// Subject: 0-999
    pub subject: u16,
    /// Detail: 0-999
    pub detail: u16,
}

impl EnhancedStatusCode {
    /// The parts make a valid enhanced status code.
    pub open spec fn is_valid(class: u8, subject: u16, detail: u16) -> bool {
        (class == 2 || class == 4 || class == 5) && subject < 1000 && detail < 1000
    }

    /// Creates a new enhanced status code.
    ///
    /// Returns `None` if class is not 2, 4, or 5, or subject or detail is
    /// not below 1000.
    pub fn new(class: u8, subject: u16, detail: u16) -> (r: Option<EnhancedStatusCode>)
        ensures
            match r {
                Some(c) => EnhancedStatusCode::is_valid(class, subject, detail) && c
                    == EnhancedStatusCode { class, subject, detail },
                None => !EnhancedStatusCode::is_valid(class, subject, detail),
            },
    {
        if (class == 2 || class == 4 || class == 5) && subject < 1000 && detail < 1000 {
            Some(EnhancedStatusCode { class, subject, detail })
        } else {
            None
        }
    }

    /// Returns true if this indicates success.
    pub fn is_success(&self) -> (r: bool)
        ensures
            r == (self.class == 2),
    {
        self.class == 2
    }

    /// Returns true if this indicates a temporary failure.
    pub fn is_temporary_failure(&self) -> (r: bool)
        ensures
            r == (self.class == 4),
    {
        self.class == 4
    }

    /// Returns true if this indicates a permanent failure.
    pub fn is_permanent_failure(&self) -> (r: bool)
        ensures
            r == (self.class == 5),
    {
        self.class == 5
    }

    /// The bytes of `class.subject.detail`.
    pub open spec fn text_bytes(self) -> Seq<u8> {
        decimal(self.class as nat) + seq![0x2eu8] + decimal(self.subject as nat) + seq![0x2eu8]
            + decimal(self.detail as nat)
    }

    /// Formats the code as `class.subject.detail`.
    pub fn to_string(&self) -> (r: String)
        ensures
            r@ == ascii_chars(self.text_bytes()),
    {
        let mut out: Vec<u8> = Vec::new();
        push_decimal(&mut out, self.class as u64);
        out.push(0x2e);
        push_decimal(&mut out, self.subject as u64);
        out.push(0x2e);
        push_decimal(&mut out, self.detail as u64);
        proof {
            assert(out@ =~= self.text_bytes());
            lemma_decimal(self.class as nat);
            lemma_decimal(self.subject as nat);
            lemma_decimal(self.detail as nat);
            assert forall|i: int| 0 <= i < out@.len() implies #[trigger] out@[i] < 0x80 by {
                let a = decimal(self.class as nat).len() as int;
                let b = a + 1 + decimal(self.subject as nat).len();
                if i < a {
                    assert(out@[i] == decimal(self.class as nat)[i]);
                } else if i == a || i == b {
                } else if i < b {
                    assert(out@[i] == decimal(self.subject as nat)[i - a - 1]);
                } else {
                    assert(out@[i] == decimal(self.detail as nat)[i - b - 1]);
                }
            }
        }
        ascii_string(out.as_slice())
    }
}

/// A valid enhanced status code is in exactly one of the three classes.
pub proof fn law_enhanced_status_code_classes(class: u8, subject: u16, detail: u16)
    requires
        EnhancedStatusCode::is_valid(class, subject, detail),
    ensures
        (class == 2) as int + (class == 4) as int + (class == 5) as int == 1,
{
}

/// Server greeting sent upon connection.
///
/// # ABNF
///
/// ```abnf
/// greeting = "220" SP Domain [ SP textstring ] CRLF
/// ```
#[derive(Debug, Clone, PartialEq, Eq, Hash)]
pub struct Greeting {
    /// The server's domain name
    pub domain: Domain,
    /// Optional greeting text
    pub text: Option<Text>,
}

impl Greeting {
    /// Creates a new greeting.
    pub fn new(domain: Domain, text: Option<Text>) -> (r: Greeting)
        ensures
            r.domain == domain,
            r.text == text,
    {
        Greeting { domain, text }
    }

    /// The characters of `220 <domain>[ <text>]`.
    pub open spec fn text_chars(self) -> Seq<char> {
        "220 "@ + self.domain@ + match self.text {
            Some(t) => " "@ + t@,
            None => Seq::empty(),
        }
    }

    /// Formats the greeting line (without the final CRLF).
    pub fn to_string(&self) -> (r: String)
        ensures
            r@ == self.text_chars(),
    {
        let mut out = "220 ".to_owned();
        out.append(self.domain.inner());
        match &self.text {
            Some(t) => {
                out.append(" ");
                out.append(t.inner());
                assert(out@ =~= self.text_chars());
            },
            None => {
                assert(out@ =~= self.text_chars());
            },
        }
        out
    }
}

/// A complete SMTP response (possibly multi-line).
///
/// # ABNF
///
/// ```abnf
/// Reply-line     = *( Reply-code "-" [ textstring ] CRLF )
///                  Reply-code [ SP textstring ] CRLF
/// ```
#[derive(Debug, Clone, PartialEq, Eq, Hash)]
pub struct Response {
    /// The 3-digit reply code
    pub code: ReplyCode,
    /// Enhanced status code (if ENHANCEDSTATUSCODES extension is supported)
    pub enhanced_code: Option<EnhancedStatusCode>,
    /// One or more response lines
    pub lines: Vec1<Text>,
}

impl Response {
    /// Creates a new single-line response.
    pub fn new(code: ReplyCode, text: Text) -> (r: Response)
        ensures
            r.code == code,
            r.enhanced_code is None,
            r.lines@ == seq![text],
    {
        Response { code, enhanced_code: None, lines: Vec1::from(text) }
    }

    /// Creates a new multi-line response.
    pub fn new_multiline(code: ReplyCode, lines: Vec1<Text>) -> (r: Response)
        ensures
            r.code == code,
            r.enhanced_code is None,
            r.lines == lines,
    {
        Response { code, enhanced_code: None, lines }
    }

    /// Creates a new response with an enhanced status code.
    pub fn with_enhanced_code(code: ReplyCode, enhanced_code: EnhancedStatusCode, text: Text) -> (r:
        Response)
        ensures
            r.code == code,
            r.enhanced_code == Some(enhanced_code),
            r.lines@ == seq![text],
    {
        Response { code, enhanced_code: Some(enhanced_code), lines: Vec1::from(text) }
    }

    /// Returns true if this is a success response.
    pub fn is_success(&self) -> (r: bool)
        ensures
            r == (self.code.value() < 400),
    {
        self.code.is_success()
    }

    /// Returns true if this is an error response.
    pub fn is_error(&self) -> (r: bool)
        ensures
            r == (self.code.value() >= 400),
    {
        self.code.is_error()
    }

    /// Returns the first (or only) line of text.
    pub fn text(&self) -> (r: &Text)
        ensures
            self.lines@.len() >= 1,
            *r == self.lines@[0],
    {
        let lines = self.lines.as_ref();
        &lines[0]
    }
}

/// An SMTP server capability announced in EHLO response.
#[derive(Debug, Clone, PartialEq, Eq, Hash)]
#[non_exhaustive]
pub enum Capability {
    /// SIZE extension with optional maximum size (RFC 1870).
    Size(Option<u64>),
    /// 8BITMIME extension (RFC 6152).
    EightBitMime,
    /// PIPELINING extension (RFC 2920).
    Pipelining,
    /// STARTTLS extension (RFC 3207).
    StartTls,
    /// SMTPUTF8 extension (RFC 6531).
    SmtpUtf8,
    /// ENHANCEDSTATUSCODES extension (RFC 2034).
    EnhancedStatusCodes,
    /// AUTH extension with supported mechanisms (RFC 4954).
    Auth(Vec<AuthMechanism>),
    /// Other/unknown capability.
    Other {
        /// The capability keyword
        keyword: Atom,
        /// Optional parameters
        params: Option<String>,
    },
}

/// The names of the capabilities are in uppercase.
pub proof fn lemma_capability_names_upper()
    ensures
        ascii_upper("SIZE"@) == "SIZE"@,
        ascii_upper("AUTH"@) == "AUTH"@,
        ascii_upper("8BITMIME"@) == "8BITMIME"@,
        ascii_upper("PIPELINING"@) == "PIPELINING"@,
        ascii_upper("STARTTLS"@) == "STARTTLS"@,
        ascii_upper("SMTPUTF8"@) == "SMTPUTF8"@,
        ascii_upper("ENHANCEDSTATUSCODES"@) == "ENHANCEDSTATUSCODES"@,
{
    reveal_strlit("SIZE");
    lemma_upper_fixed("SIZE"@);
    reveal_strlit("AUTH");
    lemma_upper_fixed("AUTH"@);
    reveal_strlit("8BITMIME");
    lemma_upper_fixed("8BITMIME"@);
    reveal_strlit("PIPELINING");
    lemma_upper_fixed("PIPELINING"@);
    reveal_strlit("STARTTLS");
    lemma_upper_fixed("STARTTLS"@);
    reveal_strlit("SMTPUTF8");
    lemma_upper_fixed("SMTPUTF8"@);
    reveal_strlit("ENHANCEDSTATUSCODES");
    lemma_upper_fixed("ENHANCEDSTATUSCODES"@);
}

/// The text of the mechanisms `mechs`, each preceded by a space.
pub open spec fn mechanisms_text(mechs: Seq<AuthMechanism>) -> Seq<char>
    decreases mechs.len(),
{
    if mechs.len() == 0 {
        Seq::empty()
    } else {
        mechanisms_text(mechs.drop_last()) + " "@ + mechs.last().name()
    }
}

impl Capability {
    /// The capability is announced under the (uppercased) name `upper_name`.
    pub open spec fn matches_name(self, upper_name: Seq<char>) -> bool {
        match self {
            Capability::Size(_) => upper_name == "SIZE"@,
            Capability::EightBitMime => upper_name == "8BITMIME"@,
            Capability::Pipelining => upper_name == "PIPELINING"@,
            Capability::StartTls => upper_name == "STARTTLS"@,
            Capability::SmtpUtf8 => upper_name == "SMTPUTF8"@,
            Capability::EnhancedStatusCodes => upper_name == "ENHANCEDSTATUSCODES"@,
            Capability::Auth(_) => upper_name == "AUTH"@,
            Capability::Other { keyword, .. } => ascii_upper(keyword@) == upper_name,
        }
    }

    /// The characters of the EHLO line that announces the capability.
    pub open spec fn text_chars(self) -> Seq<char> {
        match self {
            Capability::Size(Some(size)) => "SIZE "@ + ascii_chars(decimal(size as nat)),
            Capability::Size(None) => "SIZE"@,
            Capability::EightBitMime => "8BITMIME"@,
            Capability::Pipelining => "PIPELINING"@,
            Capability::StartTls => "STARTTLS"@,
            Capability::SmtpUtf8 => "SMTPUTF8"@,
            Capability::EnhancedStatusCodes => "ENHANCEDSTATUSCODES"@,
            Capability::Auth(mechs) => "AUTH"@ + mechanisms_text(mechs@),
            Capability::Other { keyword, params } => keyword@ + match params {
                Some(p) => " "@ + p@,
                None => Seq::empty(),
            },
        }
    }

    /// Formats the capability as it is announced in an EHLO response.
    pub fn to_string(&self) -> (r: String)
        ensures
            r@ == self.text_chars(),
    {
        match self {
            Capability::Size(Some(size)) => {
                let mut out = "SIZE ".to_owned();
                let n = decimal_string(*size);
                out.append(n.as_str());
                out
            },
            Capability::Size(None) => "SIZE".to_owned(),
            Capability::EightBitMime => "8BITMIME".to_owned(),
            Capability::Pipelining => "PIPELINING".to_owned(),
            Capability::StartTls => "STARTTLS".to_owned(),
            Capability::SmtpUtf8 => "SMTPUTF8".to_owned(),
            Capability::EnhancedStatusCodes => "ENHANCEDSTATUSCODES".to_owned(),
            Capability::Auth(mechanisms) => {
                let mut out = "AUTH".to_owned();
                let mut i: usize = 0;
                while i < mechanisms.len()
                    invariant
                        i <= mechanisms@.len(),
                        out@ == "AUTH"@ + mechanisms_text(mechanisms@.take(i as int)),
                    decreases mechanisms@.len() - i,
                {
                    out.append(" ");
                    out.append(mechanisms[i].as_ref());
                    proof {
                        let t = mechanisms@.take(i + 1);
                        assert(t.drop_last() =~= mechanisms@.take(i as int));
                        assert(out@ =~= "AUTH"@ + mechanisms_text(t));
                    }
                    i = i + 1;
                }
                assert(mechanisms@.take(i as int) =~= mechanisms@);
                out
            },
            Capability::Other { keyword, params } => {
                let mut out = keyword.inner().to_owned();
                match params {
                    Some(p) => {
                        out.append(" ");
                        out.append(p.as_str());
                        assert(out@ =~= self.text_chars());
                    },
                    None => {
                        assert(out@ =~= self.text_chars());
                    },
                }
                out
            },
        }
    }
}

/// The first word of `text`: its characters up to the first space.
pub open spec fn first_word(text: Seq<char>) -> Seq<char>
    decreases text.len(),
{
    if text.len() == 0 || text[0] == ' ' {
        Seq::empty()
    } else {
        seq![text[0]] + first_word(text.drop_first())
    }
}

/// `text` holds no space.
pub open spec fn has_no_space(text: Seq<char>) -> bool {
    forall|i: int| 0 <= i < text.len() ==> #[trigger] text[i] != ' '
}

proof fn lemma_first_word_of(a: Seq<char>, b: Seq<char>)
    requires
        has_no_space(a),
        b.len() == 0 || b[0] == ' ',
    ensures
        first_word(a + b) == a,
    decreases a.len(),
{
    if a.len() > 0 {
        assert(a[0] != ' ');
        assert((a + b).drop_first() =~= a.drop_first() + b);
        assert(has_no_space(a.drop_first())) by {
            assert forall|i: int| 0 <= i < a.drop_first().len() implies #[trigger] a.drop_first()[i]
                != ' ' by {
                assert(a.drop_first()[i] == a[i + 1]);
            }
        }
        lemma_first_word_of(a.drop_first(), b);
        assert(a =~= seq![a[0]] + a.drop_first());
    } else {
        assert(a + b =~= b);
    }
}

proof fn lemma_mechanisms_text_starts_with_space(m: Seq<AuthMechanism>)
    ensures
        mechanisms_text(m).len() == 0 || mechanisms_text(m)[0] == ' ',
    decreases m.len(),
{
    reveal_strlit(" ");
    if m.len() > 0 {
        lemma_mechanisms_text_starts_with_space(m.drop_last());
    }
}

/// A valid atom holds no space.
proof fn lemma_atom_has_no_space(chars: Seq<char>)
    requires
        Atom::is_valid(chars),
    ensures
        has_no_space(chars),
{
    let enc = vstd::utf8::encode_utf8(chars);
    law_atom_is_atext(enc);
    assert(all_ascii(enc)) by {
        assert forall|i: int| 0 <= i < enc.len() implies #[trigger] enc[i] < 0x80 by {
            assert(spec_is_atext(enc[i]));
        }
    }
    lemma_ascii_encoding_chars(chars);
    assert forall|i: int| 0 <= i < chars.len() implies #[trigger] chars[i] != ' ' by {
        assert(chars[i] == ascii_chars(enc)[i]);
        assert(spec_is_atext(enc[i]));
        assert(enc[i] != 0x20);
    }
}

proof fn lemma_literal_no_space(s: Seq<char>)
    requires
        forall|i: int| 0 <= i < s.len() ==> 'A' <= #[trigger] s[i] <= 'Z' || '0' <= s[i] <= '9',
    ensures
        has_no_space(s),
{
}

/// A capability is announced under its keyword, the first word of the EHLO
/// line that its `to_string` gives: it matches a name exactly when that
/// keyword equals the name, ignoring ASCII case.
pub proof fn law_capability_keyword(cap: Capability, name: Seq<char>)
    requires
        cap matches Capability::Other { keyword, .. } ==> Atom::is_valid(keyword@),
    ensures
        cap.matches_name(ascii_upper(name)) <==> ascii_upper(first_word(cap.text_chars()))
            == ascii_upper(name),
{
    lemma_capability_names_upper();
    reveal_strlit("SIZE");
    reveal_strlit("SIZE ");
    reveal_strlit(" ");
    reveal_strlit("AUTH");
    reveal_strlit("8BITMIME");
    reveal_strlit("PIPELINING");
    reveal_strlit("STARTTLS");
    reveal_strlit("SMTPUTF8");
    reveal_strlit("ENHANCEDSTATUSCODES");
    let e = Seq::<char>::empty();
    match cap {
        Capability::Size(Some(size)) => {
            let d = ascii_chars(decimal(size as nat));
            assert("SIZE "@ + d =~= "SIZE"@ + (" "@ + d));
            lemma_literal_no_space("SIZE"@);
            lemma_first_word_of("SIZE"@, " "@ + d);
        },
        Capability::Size(None) => {
            lemma_literal_no_space("SIZE"@);
            lemma_first_word_of("SIZE"@, e);
            assert("SIZE"@ + e =~= "SIZE"@);
        },
        Capability::EightBitMime => {
            lemma_literal_no_space("8BITMIME"@);
            lemma_first_word_of("8BITMIME"@, e);
            assert("8BITMIME"@ + e =~= "8BITMIME"@);
        },
        Capability::Pipelining => {
            lemma_literal_no_space("PIPELINING"@);
            lemma_first_word_of("PIPELINING"@, e);
            assert("PIPELINING"@ + e =~= "PIPELINING"@);
        },
        Capability::StartTls => {
            lemma_literal_no_space("STARTTLS"@);
            lemma_first_word_of("STARTTLS"@, e);
            assert("STARTTLS"@ + e =~= "STARTTLS"@);
        },
        Capability::SmtpUtf8 => {
            lemma_literal_no_space("SMTPUTF8"@);
            lemma_first_word_of("SMTPUTF8"@, e);
            assert("SMTPUTF8"@ + e =~= "SMTPUTF8"@);
        },
        Capability::EnhancedStatusCodes => {
            lemma_literal_no_space("ENHANCEDSTATUSCODES"@);
            lemma_first_word_of("ENHANCEDSTATUSCODES"@, e);
            assert("ENHANCEDSTATUSCODES"@ + e =~= "ENHANCEDSTATUSCODES"@);
        },
        Capability::Auth(m) => {
            lemma_literal_no_space("AUTH"@);
            lemma_mechanisms_text_starts_with_space(m@);
            lemma_first_word_of("AUTH"@, mechanisms_text(m@));
        },
        Capability::Other { keyword, params } => {
            lemma_atom_has_no_space(keyword@);
            match params {
                Some(p) => {
                    lemma_first_word_of(keyword@, " "@ + p@);
                },
                None => {
                    lemma_first_word_of(keyword@, e);
                    assert(keyword@ + e =~= keyword@);
                },
            }
        },
    }
}

/// EHLO response containing server capabilities.
///
/// The first line contains the server's domain, subsequent lines
/// contain one capability per line.
#[derive(Debug, Clone, PartialEq, Eq, Hash)]
pub struct EhloResponse {
    /// The server's domain name
    pub domain: Domain,
    /// Optional greeting text on the first line
    pub greet: Option<Text>,
    /// Server capabilities
    pub capabilities: Vec<Capability>,
}

/// The value of the first SIZE capability with a size in `caps`.
pub open spec fn first_max_size(caps: Seq<Capability>) -> Option<u64>
    decreases caps.len(),
{
    if caps.len() == 0 {
        None
    } else {
        match caps[0] {
            Capability::Size(Some(size)) => Some(size),
            _ => first_max_size(caps.drop_first()),
        }
    }
}

/// The mechanisms of the first AUTH capability in `caps`.
pub open spec fn first_auth(caps: Seq<Capability>) -> Option<Seq<AuthMechanism>>
    decreases caps.len(),
{
    if caps.len() == 0 {
        None
    } else {
        match caps[0] {
            Capability::Auth(mechs) => Some(mechs@),
            _ => first_auth(caps.drop_first()),
        }
    }
}

impl EhloResponse {
    /// Creates a new EHLO response.
    pub fn new(domain: Domain) -> (r: EhloResponse)
        ensures
            r.domain == domain,
            r.greet is None,
            r.capabilities@ == Seq::<Capability>::empty(),
    {
        EhloResponse { domain, greet: None, capabilities: Vec::new() }
    }

    /// Creates a new EHLO response with greeting text.
    pub fn with_greet(domain: Domain, greet: Text) -> (r: EhloResponse)
        ensures
            r.domain == domain,
            r.greet == Some(greet),
            r.capabilities@ == Seq::<Capability>::empty(),
    {
        EhloResponse { domain, greet: Some(greet), capabilities: Vec::new() }
    }

    /// Adds a capability to the response.
    pub fn add_capability(&mut self, capability: Capability)
        ensures
            final(self).domain == old(self).domain,
            final(self).greet == old(self).greet,
            final(self).capabilities@ == old(self).capabilities@.push(capability),
    {
        self.capabilities.push(capability);
    }

    /// Returns true if the server supports the given capability; names are
    /// compared regardless of ASCII case.
    pub fn has_capability(&self, name: &str) -> (r: bool)
        ensures
            r == exists|i: int|
                0 <= i < self.capabilities@.len() && #[trigger] self.capabilities@[i].matches_name(
                    ascii_upper(name@),
                ),
            r == exists|i: int|
                0 <= i < self.capabilities@.len() && ascii_upper(
                    first_word(#[trigger] self.capabilities@[i].text_chars()),
                ) == ascii_upper(name@),
    {
        proof {
            lemma_capability_names_upper();
        }
        let caps = &self.capabilities;
        let mut i: usize = 0;
        while i < caps.len()
            invariant
                i <= caps@.len(),
                caps == &self.capabilities,
                forall|j: int| 0 <= j < i ==> !(#[trigger] caps@[j]).matches_name(ascii_upper(name@)),
                forall|j: int|
                    0 <= j < i ==> ascii_upper(first_word(#[trigger] caps@[j].text_chars()))
                        != ascii_upper(name@),
                ascii_upper("SIZE"@) == "SIZE"@,
                ascii_upper("AUTH"@) == "AUTH"@,
                ascii_upper("8BITMIME"@) == "8BITMIME"@,
                ascii_upper("PIPELINING"@) == "PIPELINING"@,
                ascii_upper("STARTTLS"@) == "STARTTLS"@,
                ascii_upper("SMTPUTF8"@) == "SMTPUTF8"@,
                ascii_upper("ENHANCEDSTATUSCODES"@) == "ENHANCEDSTATUSCODES"@,
            decreases caps@.len() - i,
        {
            let found = match &caps[i] {
                Capability::Size(_) => eq_ignore_ascii_case(name, "SIZE"),
                Capability::EightBitMime => eq_ignore_ascii_case(name, "8BITMIME"),
                Capability::Pipelining => eq_ignore_ascii_case(name, "PIPELINING"),
                Capability::StartTls => eq_ignore_ascii_case(name, "STARTTLS"),
                Capability::SmtpUtf8 => eq_ignore_ascii_case(name, "SMTPUTF8"),
                Capability::EnhancedStatusCodes => eq_ignore_ascii_case(name, "ENHANCEDSTATUSCODES"),
                Capability::Auth(_) => eq_ignore_ascii_case(name, "AUTH"),
                Capability::Other { keyword, .. } => {
                    let kw = keyword.inner();
                    proof {
                        law_capability_keyword(caps@[i as int], name@);
                    }
                    eq_ignore_ascii_case(kw, name)
                },
            };
            proof {
                if !(caps@[i as int] is Other) {
                    law_capability_keyword(caps@[i as int], name@);
                }
            }
            if found {
                assert(caps@[i as int].matches_name(ascii_upper(name@)));
                return true;
            }
            i = i + 1;
        }
        false
    }

    /// Returns the AUTH mechanisms if AUTH capability is present.
    pub fn auth_mechanisms(&self) -> (r: Option<&[AuthMechanism]>)
        ensures
            match r {
                Some(m) => first_auth(self.capabilities@) == Some(m@),
                None => first_auth(self.capabilities@) is None,
            },
    {
        let caps = &self.capabilities;
        let mut i: usize = 0;
        assert(caps@.skip(0) =~= caps@);
        while i < caps.len()
            invariant
                i <= caps@.len(),
                caps == &self.capabilities,
                first_auth(caps@) == first_auth(caps@.skip(i as int)),
            decreases caps@.len() - i,
        {
            assert(caps@.skip(i as int)[0] == caps@[i as int]);
            assert(caps@.skip(i as int).drop_first() =~= caps@.skip(i + 1));
            match &caps[i] {
                Capability::Auth(mechanisms) => {
                    return Some(mechanisms.as_slice());
                },
                _ => {},
            }
            i = i + 1;
        }
        None
    }

    /// Returns the maximum message size if SIZE capability is present.
    pub fn max_size(&self) -> (r: Option<u64>)
        ensures
            r == first_max_size(self.capabilities@),
    {
        let caps = &self.capabilities;
        let mut i: usize = 0;
        assert(caps@.skip(0) =~= caps@);
        while i < caps.len()
            invariant
                i <= caps@.len(),
                caps == &self.capabilities,
                first_max_size(caps@) == first_max_size(caps@.skip(i as int)),
            decreases caps@.len() - i,
        {
            assert(caps@.skip(i as int)[0] == caps@[i as int]);
            assert(caps@.skip(i as int).drop_first() =~= caps@.skip(i + 1));
            match &caps[i] {
                Capability::Size(Some(size)) => {
                    return Some(*size);
                },
                _ => {},
            }
            i = i + 1;
        }
        None
    }
}

} // verus!
