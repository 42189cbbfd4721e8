//! Character class indicators for SMTP (RFC 5321).

use vstd::prelude::*;

verus! {

/// ALPHA / DIGIT (ASCII letters and digits).
pub open spec fn spec_is_alphanumeric(byte: u8) -> bool {
    (0x30 <= byte <= 0x39) || (0x41 <= byte <= 0x5a) || (0x61 <= byte <= 0x7a)
}

/// `CHAR = %x01-7F`
pub open spec fn spec_is_char(byte: u8) -> bool {
    0x01 <= byte <= 0x7f
}

/// `CTL = %x00-1F / %x7F`
pub open spec fn spec_is_ctl(byte: u8) -> bool {
    byte <= 0x1f || byte == 0x7f
}

/// `atext`: ALPHA / DIGIT and the specials ``! # $ % & ' * + - / = ? ^ _ ` { | } ~``.
pub open spec fn spec_is_atext(byte: u8) -> bool {
    ||| spec_is_alphanumeric(byte)
    ||| byte == 0x21  // !
    ||| byte == 0x23  // #
    ||| byte == 0x24  // $
    ||| byte == 0x25  // %
    ||| byte == 0x26  // &
    ||| byte == 0x27  // '
    ||| byte == 0x2a  // *
    ||| byte == 0x2b  // +
    ||| byte == 0x2d  // -
    ||| byte == 0x2f  // /
    ||| byte == 0x3d  // =
    ||| byte == 0x3f  // ?
    ||| byte == 0x5e  // ^
    ||| byte == 0x5f  // _
    ||| byte == 0x60  // `
    ||| byte == 0x7b  // {
    ||| byte == 0x7c  // |
    ||| byte == 0x7d  // }
    ||| byte == 0x7e  // ~
}

/// `qtext = %d32-33 / %d35-91 / %d93-126`
pub open spec fn spec_is_qtext(byte: u8) -> bool {
    (32 <= byte <= 33) || (35 <= byte <= 91) || (93 <= byte <= 126)
}

/// `textstring` characters: `%d09 / %d32-126`
pub open spec fn spec_is_text_char(byte: u8) -> bool {
    byte == 0x09 || (0x20 <= byte <= 0x7e)
}

/// `Ldh-str` characters: ALPHA / DIGIT / "-"
pub open spec fn spec_is_ldh_str_char(byte: u8) -> bool {
    spec_is_alphanumeric(byte) || byte == 0x2d
}

/// `esmtp-value` characters: `%d33-60 / %d62-126`
pub open spec fn spec_is_esmtp_value_char(byte: u8) -> bool {
    (33 <= byte <= 60) || (62 <= byte <= 126)
}

/// DIGIT
pub open spec fn spec_is_digit(byte: u8) -> bool {
    0x30 <= byte <= 0x39
}

/// `dcontent = %d33-90 / %d94-126`
pub open spec fn spec_is_dcontent(byte: u8) -> bool {
    (33 <= byte <= 90) || (94 <= byte <= 126)
}

/// Any 7-bit US-ASCII character, excluding NUL
///
/// CHAR = %x01-7F
#[verifier::when_used_as_spec(spec_is_char)]
pub fn is_char(byte: u8) -> (r: bool)
    ensures
        r == spec_is_char(byte),
{
    0x01 <= byte && byte <= 0x7f
}

/// Controls
///
/// CTL = %x00-1F / %x7F
#[verifier::when_used_as_spec(spec_is_ctl)]
pub fn is_ctl(byte: u8) -> (r: bool)
    ensures
        r == spec_is_ctl(byte),
{
    byte <= 0x1f || byte == 0x7f
}

/// ASCII letter or digit.
fn is_alphanumeric(byte: u8) -> (r: bool)
    ensures
        r == spec_is_alphanumeric(byte),
{
    (0x30 <= byte && byte <= 0x39) || (0x41 <= byte && byte <= 0x5a) || (0x61 <= byte && byte
        <= 0x7a)
}

/// SMTP atext characters (RFC 5321/5322)
///
/// ```abnf
/// atext = ALPHA / DIGIT /
///         "!" / "#" / "$" / "%" / "&" / "'" / "*" /
///         "+" / "-" / "/" / "=" / "?" / "^" / "_" /
///         "`" / "{" / "|" / "}" / "~"
/// ```
#[verifier::when_used_as_spec(spec_is_atext)]
pub fn is_atext(byte: u8) -> (r: bool)
    ensures
        r == spec_is_atext(byte),
{
    is_alphanumeric(byte) || match byte {
        // ! # $ % & ' * + - / = ? ^ _ ` { | } ~
        0x21 | 0x23 | 0x24 | 0x25 | 0x26 | 0x27 | 0x2a | 0x2b | 0x2d | 0x2f | 0x3d | 0x3f | 0x5e
        | 0x5f | 0x60 | 0x7b | 0x7c | 0x7d | 0x7e => true,
        _ => false,
    }
}

/// SMTP qtext characters (RFC 5321)
///
/// ```abnf
/// qtext = %d32-33 / %d35-91 / %d93-126  ; printable except \ and "
/// ```
#[verifier::when_used_as_spec(spec_is_qtext)]
pub fn is_qtext(byte: u8) -> (r: bool)
    ensures
        r == spec_is_qtext(byte),
{
    (32 <= byte && byte <= 33) || (35 <= byte && byte <= 91) || (93 <= byte && byte <= 126)
}

/// Text string characters for SMTP response text
///
/// ```abnf
/// textstring = 1*(%d09 / %d32-126)  ; HT, SP, Printable US-ASCII
/// ```
#[verifier::when_used_as_spec(spec_is_text_char)]
pub fn is_text_char(byte: u8) -> (r: bool)
    ensures
        r == spec_is_text_char(byte),
{
    byte == 0x09 || (0x20 <= byte && byte <= 0x7e)
}

/// Let-dig: alphanumeric character (RFC 5321)
///
/// ```abnf
/// Let-dig = ALPHA / DIGIT
/// ```
#[verifier::when_used_as_spec(spec_is_alphanumeric)]
pub fn is_let_dig(byte: u8) -> (r: bool)
    ensures
        r == spec_is_alphanumeric(byte),
{
    is_alphanumeric(byte)
}

/// Ldh-str character: alphanumeric or hyphen (RFC 5321)
///
/// ```abnf
/// Ldh-str = *( ALPHA / DIGIT / "-" ) Let-dig
/// ```
#[verifier::when_used_as_spec(spec_is_ldh_str_char)]
pub fn is_ldh_str_char(byte: u8) -> (r: bool)
    ensures
        r == spec_is_ldh_str_char(byte),
{
    is_alphanumeric(byte) || byte == 0x2d
}

/// ESMTP keyword character (RFC 5321)
///
/// ```abnf
/// esmtp-keyword = (ALPHA / DIGIT) *(ALPHA / DIGIT / "-")
/// ```
#[verifier::when_used_as_spec(spec_is_ldh_str_char)]
pub fn is_esmtp_keyword_char(byte: u8) -> (r: bool)
    ensures
        r == spec_is_ldh_str_char(byte),
{
    is_alphanumeric(byte) || byte == 0x2d
}

/// ESMTP value character (RFC 5321)
///
/// ```abnf
/// esmtp-value = 1*(%d33-60 / %d62-126)  ; any CHAR excluding "=", SP, and CTL
/// ```
#[verifier::when_used_as_spec(spec_is_esmtp_value_char)]
pub fn is_esmtp_value_char(byte: u8) -> (r: bool)
    ensures
        r == spec_is_esmtp_value_char(byte),
{
    (33 <= byte && byte <= 60) || (62 <= byte && byte <= 126)
}

/// Reply code digit (RFC 5321)
#[verifier::when_used_as_spec(spec_is_digit)]
pub fn is_digit(byte: u8) -> (r: bool)
    ensures
        r == spec_is_digit(byte),
{
    0x30 <= byte && byte <= 0x39
}

/// Dcontent character for address literals (RFC 5321)
///
/// ```abnf
/// dcontent = %d33-90 / %d94-126  ; printable except [ \ ]
/// ```
#[verifier::when_used_as_spec(spec_is_dcontent)]
pub fn is_dcontent(byte: u8) -> (r: bool)
    ensures
        r == spec_is_dcontent(byte),
{
    (33 <= byte && byte <= 90) || (94 <= byte && byte <= 126)
}

/// The character classes, character by character: `Let-dig` is an ASCII
/// letter or digit; `atext` is a `Let-dig` or one of the specials
/// ``! # $ % & ' * + - / = ? ^ _ ` { | } ~``; an `Ldh-str` character is a
/// `Let-dig` or a hyphen; `qtextSMTP` is a printable ASCII character or space
/// other than a double quote or a backslash; a `textstring` character is a
/// tab, a space or a printable ASCII character.
pub proof fn law_character_classes(b: u8)
    ensures
        spec_is_alphanumeric(b) <==> ('0' as u8 <= b <= '9' as u8 || 'A' as u8 <= b <= 'Z' as u8
            || 'a' as u8 <= b <= 'z' as u8),
        spec_is_atext(b) <==> (spec_is_alphanumeric(b) || b == '!' as u8 || b == '#' as u8 || b
            == '$' as u8 || b == '%' as u8 || b == '&' as u8 || b == '\'' as u8 || b == '*' as u8
            || b == '+' as u8 || b == '-' as u8 || b == '/' as u8 || b == '=' as u8 || b
            == '?' as u8 || b == '^' as u8 || b == '_' as u8 || b == '`' as u8 || b == '{' as u8
            || b == '|' as u8 || b == '}' as u8 || b == '~' as u8),
        spec_is_ldh_str_char(b) <==> (spec_is_alphanumeric(b) || b == '-' as u8),
        spec_is_qtext(b) <==> (' ' as u8 <= b <= '~' as u8 && b != '"' as u8 && b != '\\' as u8),
        spec_is_text_char(b) <==> (b == '\t' as u8 || ' ' as u8 <= b <= '~' as u8),
{
}

} // verus!
