//! Core SMTP data types.
//!
//! This module provides the fundamental types used in SMTP protocol messages,
//! including domain names, email addresses, and text types. Each string type
//! holds only values that pass its `validate`.

use vstd::prelude::*;
use vstd::string::*;
use vstd::utf8::*;

use crate::ascii::{
    all_ascii, ascii_chars, ascii_string, decimal, hex_numeral, lemma_ascii_bytes_encode,
    lemma_decimal, lemma_hex_numeral_ascii, push_decimal, push_hex, str_from_utf8,
};
use crate::error::{ValidationError, ValidationErrorKind};
use crate::utils::indicators::{
    is_atext, is_let_dig, is_ldh_str_char, is_qtext, is_text_char, spec_is_alphanumeric,
    spec_is_atext, spec_is_ldh_str_char, spec_is_qtext, spec_is_text_char,
};

verus! {

// ---------------------------------------------------------------------------
// Scanning for the first byte outside of a character class
// ---------------------------------------------------------------------------

/// The character classes that the validation rules scan for.
#[derive(Clone, Copy, Debug, PartialEq, Eq, Structural)]
pub enum ByteClass {
    /// `atext`
    Atext,
    /// `textstring` characters (HT and printable ASCII)
    TextChar,
    /// `Ldh-str` characters: letters, digits and `"-"`
    LdhStrChar,
}

/// Whether `byte` belongs to `class`.
pub open spec fn in_class(class: ByteClass, byte: u8) -> bool {
    match class {
        ByteClass::Atext => spec_is_atext(byte),
        ByteClass::TextChar => spec_is_text_char(byte),
        ByteClass::LdhStrChar => spec_is_ldh_str_char(byte),
    }
}

/// `k` is the index of the first byte of `s` outside of `class`.
pub open spec fn is_first_outside(s: Seq<u8>, class: ByteClass, k: int) -> bool {
    &&& 0 <= k < s.len()
    &&& !in_class(class, s[k])
    &&& forall|j: int| 0 <= j < k ==> in_class(class, #[trigger] s[j])
}

/// The index of the first byte of `s` outside of `class`, if there is one.
pub open spec fn first_outside(s: Seq<u8>, class: ByteClass) -> Option<int> {
    if exists|k: int| is_first_outside(s, class, k) {
        Some(choose|k: int| is_first_outside(s, class, k))
    } else {
        None
    }
}

/// There is at most one first byte outside of a class.
pub proof fn lemma_first_outside_unique(s: Seq<u8>, class: ByteClass, k1: int, k2: int)
    requires
        is_first_outside(s, class, k1),
        is_first_outside(s, class, k2),
    ensures
        k1 == k2,
{
    if k1 < k2 {
        assert(in_class(class, s[k1]));
    } else if k2 < k1 {
        assert(in_class(class, s[k2]));
    }
}

/// A byte outside of the class means that there is a first one.
pub proof fn lemma_first_outside_exists(s: Seq<u8>, class: ByteClass, j: int)
    requires
        0 <= j < s.len(),
        !in_class(class, s[j]),
    ensures
        first_outside(s, class) is Some,
        0 <= first_outside(s, class)->0 <= j,
    decreases j,
{
    if forall|i: int| 0 <= i < j ==> in_class(class, #[trigger] s[i]) {
        assert(is_first_outside(s, class, j));
        let k = choose|k: int| is_first_outside(s, class, k);
        lemma_first_outside_unique(s, class, j, k);
    } else {
        let i = choose|i: int| 0 <= i < j && !in_class(class, #[trigger] s[i]);
        lemma_first_outside_exists(s, class, i);
    }
}

/// No first byte outside of the class means that every byte is in it.
pub proof fn lemma_first_outside_none(s: Seq<u8>, class: ByteClass)
    requires
        first_outside(s, class) is None,
    ensures
        forall|j: int| 0 <= j < s.len() ==> in_class(class, #[trigger] s[j]),
{
    assert forall|j: int| 0 <= j < s.len() implies in_class(class, #[trigger] s[j]) by {
        if !in_class(class, s[j]) {
            lemma_first_outside_exists(s, class, j);
        }
    }
}

fn in_class_exec(class: ByteClass, byte: u8) -> (r: bool)
    ensures
        r == in_class(class, byte),
{
    match class {
        ByteClass::Atext => is_atext(byte),
        ByteClass::TextChar => is_text_char(byte),
        ByteClass::LdhStrChar => is_ldh_str_char(byte),
    }
}

/// Index, relative to `start`, of the first byte of `s[start..end]` outside
/// of `class`.
fn find_first_outside(s: &[u8], start: usize, end: usize, class: ByteClass) -> (r: Option<
    usize,
>)
    requires
        start <= end <= s@.len(),
    ensures
        match r {
            Some(k) => first_outside(s@.subrange(start as int, end as int), class) == Some(
                k as int,
            ),
            None => first_outside(s@.subrange(start as int, end as int), class) is None,
        },
{
    let ghost l = s@.subrange(start as int, end as int);
    let mut i: usize = start;
    while i < end
        invariant
            start <= i <= end <= s@.len(),
            l == s@.subrange(start as int, end as int),
            forall|j: int| 0 <= j < i - start ==> in_class(class, #[trigger] l[j]),
        decreases end - i,
    {
        if !in_class_exec(class, s[i]) {
            proof {
                let k = (i - start) as int;
                assert(l[k] == s@[i as int]);
                assert(is_first_outside(l, class, k));
                let c = choose|c: int| is_first_outside(l, class, c);
                lemma_first_outside_unique(l, class, k, c);
            }
            return Some(i - start);
        }
        assert(l[(i - start) as int] == s@[i as int]);
        i = i + 1;
    }
    proof {
        if exists|k: int| is_first_outside(l, class, k) {
            let k = choose|k: int| is_first_outside(l, class, k);
            assert(in_class(class, l[k]));
        }
    }
    None
}

/// The error for a value whose first disallowed byte is at index `at`.
pub open spec fn invalid_byte_at(s: Seq<u8>, at: int) -> ValidationError {
    ValidationError::of(ValidationErrorKind::InvalidByteAt { byte: s[at], at: at as usize })
}

/// Validation of a value that must consist of bytes of `class` only.
pub open spec fn class_result(s: Seq<u8>, class: ByteClass) -> Result<(), ValidationError> {
    match first_outside(s, class) {
        Some(k) => Err(invalid_byte_at(s, k)),
        None => Ok(()),
    }
}

/// Validation by a class succeeds exactly when every byte is in the class;
/// otherwise it names the first byte that is not.
proof fn lemma_class_result_all(s: Seq<u8>, class: ByteClass)
    ensures
        class_result(s, class) is Ok <==> forall|j: int|
            0 <= j < s.len() ==> in_class(class, #[trigger] s[j]),
        forall|k: int|
            #![trigger is_first_outside(s, class, k)]
            is_first_outside(s, class, k) ==> class_result(s, class) == Err::<(), _>(
                invalid_byte_at(s, k),
            ),
{
    if first_outside(s, class) is None {
        lemma_first_outside_none(s, class);
        assert forall|k: int| !is_first_outside(s, class, k) by {
            if is_first_outside(s, class, k) {
                assert(exists|k: int| is_first_outside(s, class, k));
            }
        }
    } else {
        let k0 = choose|k: int| is_first_outside(s, class, k);
        assert(!in_class(class, s[k0]));
        assert forall|k: int| is_first_outside(s, class, k) implies class_result(s, class)
            == Err::<(), _>(invalid_byte_at(s, k)) by {
            lemma_first_outside_unique(s, class, k, k0);
        }
    }
}

fn check_class(s: &[u8], class: ByteClass) -> (r: Result<(), ValidationError>)
    ensures
        r == class_result(s@, class),
{
    assert(s@.subrange(0, s@.len() as int) == s@);
    match find_first_outside(s, 0, s.len(), class) {
        Some(at) => Err(ValidationError::new(ValidationErrorKind::InvalidByteAt { byte: s[at], at })),
        None => Ok(()),
    }
}

/// A value all of whose bytes lie in a class of ASCII bytes is ASCII.
pub proof fn lemma_class_result_ascii(s: Seq<u8>, class: ByteClass)
    requires
        class_result(s, class) is Ok,
    ensures
        all_ascii(s),
{
    lemma_first_outside_none(s, class);
    assert forall|i: int| 0 <= i < s.len() implies #[trigger] s[i] < 0x80 by {
        assert(in_class(class, s[i]));
    }
}

// ---------------------------------------------------------------------------
// Domain
// ---------------------------------------------------------------------------

/// Index of the first `"."` at or after `i` in `s`, or the length of `s`.
pub open spec fn dot_position(s: Seq<u8>, i: int) -> int
    decreases s.len() - i,
{
    if i < 0 || i >= s.len() {
        s.len() as int
    } else if s[i] == 0x2e {
        i
    } else {
        dot_position(s, i + 1)
    }
}

pub proof fn lemma_dot_position_bounds(s: Seq<u8>, i: int)
    requires
        0 <= i <= s.len(),
    ensures
        i <= dot_position(s, i) <= s.len(),
        dot_position(s, i) < s.len() ==> s[dot_position(s, i)] == 0x2e,
        forall|j: int| i <= j < dot_position(s, i) ==> #[trigger] s[j] != 0x2e,
    decreases s.len() - i,
{
    if i < s.len() && s[i] != 0x2e {
        lemma_dot_position_bounds(s, i + 1);
    }
}

pub proof fn lemma_dot_position_is(s: Seq<u8>, i: int, end: int)
    requires
        0 <= i <= end <= s.len(),
        forall|j: int| i <= j < end ==> #[trigger] s[j] != 0x2e,
        end == s.len() || s[end] == 0x2e,
    ensures
        dot_position(s, i) == end,
    decreases end - i,
{
    if i < end {
        lemma_dot_position_is(s, i + 1, end);
    }
}

/// Validation of one `sub-domain = Let-dig [Ldh-str]`; error positions are
/// relative to the sub-domain.
pub open spec fn check_label(l: Seq<u8>) -> Result<(), ValidationError> {
    if l.len() == 0 {
        Err(ValidationError::of(ValidationErrorKind::Invalid))
    } else if !spec_is_alphanumeric(l[0]) {
        Err(invalid_byte_at(l, 0))
    } else if l.len() > 1 && !spec_is_alphanumeric(l[l.len() - 1]) {
        Err(invalid_byte_at(l, l.len() - 1))
    } else {
        class_result(l, ByteClass::LdhStrChar)
    }
}

/// Validation of the sub-domains of `s` from index `start` on, one after
/// the other: the first sub-domain that fails decides.
pub open spec fn check_labels(s: Seq<u8>, start: int) -> Result<(), ValidationError>
    decreases s.len() - start,
{
    if start < 0 || start > s.len() {
        Ok(())
    } else {
        let end = dot_position(s, start);
        proof {
            lemma_dot_position_bounds(s, start);
        }
        match check_label(s.subrange(start, end)) {
            Err(e) => Err(e),
            Ok(_) => if end < s.len() {
                check_labels(s, end + 1)
            } else {
                Ok(())
            },
        }
    }
}

proof fn lemma_check_labels_ascii(s: Seq<u8>, start: int)
    requires
        0 <= start <= s.len(),
        check_labels(s, start) is Ok,
    ensures
        forall|j: int| start <= j < s.len() ==> #[trigger] s[j] < 0x80,
    decreases s.len() - start,
{
    let end = dot_position(s, start);
    lemma_dot_position_bounds(s, start);
    let l = s.subrange(start, end);
    assert(check_label(l) is Ok);
    lemma_class_result_ascii(l, ByteClass::LdhStrChar);
    if end < s.len() {
        lemma_check_labels_ascii(s, end + 1);
    }
    assert forall|j: int| start <= j < s.len() implies #[trigger] s[j] < 0x80 by {
        if j < end {
            assert(s[j] == l[j - start]);
        }
    }
}

/// Byte `i` of `v`, if it is a dot, stands between two letters or digits.
pub open spec fn dot_between_let_digs(v: Seq<u8>, i: int) -> bool {
    v[i] == 0x2e ==> (0 < i < v.len() - 1 && spec_is_alphanumeric(v[i - 1])
        && spec_is_alphanumeric(v[i + 1]))
}

/// The bytes of `v` from `start` on are dot-separated labels, each non-empty,
/// beginning and ending with a letter or digit, made of letters, digits and
/// hyphens.
spec fn domain_from(v: Seq<u8>, start: int) -> bool {
    &&& 0 <= start < v.len()
    &&& forall|i: int|
        start <= i < v.len() ==> (spec_is_alphanumeric(#[trigger] v[i]) || v[i] == 0x2d || v[i]
            == 0x2e)
    &&& spec_is_alphanumeric(v[start])
    &&& spec_is_alphanumeric(v[v.len() - 1])
    &&& forall|i: int| start <= i < v.len() ==> #[trigger] dot_between_let_digs(v, i)
}

proof fn lemma_check_label_ok(l: Seq<u8>)
    ensures
        check_label(l) is Ok <==> (l.len() > 0 && spec_is_alphanumeric(l[0])
            && spec_is_alphanumeric(l[l.len() - 1]) && forall|j: int|
            0 <= j < l.len() ==> (spec_is_alphanumeric(#[trigger] l[j]) || l[j] == 0x2d)),
{
    lemma_class_result_all(l, ByteClass::LdhStrChar);
}

proof fn lemma_check_labels_from(v: Seq<u8>, start: int)
    requires
        0 <= start <= v.len(),
    ensures
        check_labels(v, start) is Ok <==> domain_from(v, start),
    decreases v.len() - start,
{
    let end = dot_position(v, start);
    lemma_dot_position_bounds(v, start);
    let l = v.subrange(start, end);
    lemma_check_label_ok(l);
    if end < v.len() {
        lemma_check_labels_from(v, end + 1);
    }
    if check_labels(v, start) is Ok {
        assert(check_label(l) is Ok);
        assert(l[0] == v[start]);
        assert(l[l.len() - 1] == v[end - 1]);
        assert forall|i: int| start <= i < v.len() implies (spec_is_alphanumeric(#[trigger] v[i])
            || v[i] == 0x2d || v[i] == 0x2e) by {
            if i < end {
                assert(v[i] == l[i - start]);
            }
        }
        assert forall|i: int| start <= i < v.len() implies #[trigger] dot_between_let_digs(
            v,
            i,
        ) by {
            if i < end {
                assert(v[i] != 0x2e);
            } else if i == end {
                assert(dot_between_let_digs(v, end + 1));
            }
        }
    }
    if domain_from(v, start) {
        assert(v[start] != 0x2e);
        assert(end > start);
        assert(l[0] == v[start]);
        assert(l[l.len() - 1] == v[end - 1]);
        if end < v.len() {
            assert(dot_between_let_digs(v, end));
        }
        assert forall|j: int| 0 <= j < l.len() implies (spec_is_alphanumeric(#[trigger] l[j])
            || l[j] == 0x2d) by {
            assert(l[j] == v[start + j]);
            assert(v[start + j] != 0x2e);
        }
        assert(check_label(l) is Ok);
        if end < v.len() {
            assert forall|i: int| end + 1 <= i < v.len() implies #[trigger] dot_between_let_digs(
                v,
                i,
            ) by {}
            assert(domain_from(v, end + 1));
        }
    }
}

fn is_alnum(byte: u8) -> (r: bool)
    ensures
        r == spec_is_alphanumeric(byte),
{
    is_let_dig(byte)
}

fn check_label_exec(s: &[u8], start: usize, end: usize) -> (r: Result<(), ValidationError>)
    requires
        start <= end <= s@.len(),
    ensures
        r == check_label(s@.subrange(start as int, end as int)),
{
    let ghost l = s@.subrange(start as int, end as int);
    if start == end {
        return Err(ValidationError::new(ValidationErrorKind::Invalid));
    }
    assert(l[0] == s@[start as int]);
    if !is_alnum(s[start]) {
        return Err(
            ValidationError::new(ValidationErrorKind::InvalidByteAt { byte: s[start], at: 0 }),
        );
    }
    let len = end - start;
    assert(l[len - 1] == s@[end - 1]);
    if len > 1 && !is_alnum(s[end - 1]) {
        return Err(
            ValidationError::new(
                ValidationErrorKind::InvalidByteAt { byte: s[end - 1], at: len - 1 },
            ),
        );
    }
    match find_first_outside(s, start, end, ByteClass::LdhStrChar) {
        Some(at) => {
            assert(l[at as int] == s@[start + at]);
            Err(
                ValidationError::new(
                    ValidationErrorKind::InvalidByteAt { byte: s[start + at], at },
                ),
            )
        },
        None => Ok(()),
    }
}

/// A domain name (hostname).
///
/// # ABNF Definition (RFC 5321)
///
/// ```abnf
/// Domain         = sub-domain *("." sub-domain)
/// sub-domain     = Let-dig [Ldh-str]
/// Let-dig        = ALPHA / DIGIT
/// Ldh-str        = *( ALPHA / DIGIT / "-" ) Let-dig
/// ```
#[derive(Debug, PartialEq, Eq, PartialOrd, Ord, Hash)]
pub struct Domain(String);

impl Clone for Domain {
    fn clone(&self) -> (r: Domain)
        ensures
            r == *self,
    {
        proof {
            use_type_invariant(self);
        }
        Domain(self.0.clone())
    }
}

impl View for Domain {
    type V = Seq<char>;

    closed spec fn view(&self) -> Seq<char> {
        self.0@
    }
}

impl Domain {
    /// The outcome of [`Domain::validate`] on `value`.
    pub open spec fn spec_validate(value: Seq<u8>) -> Result<(), ValidationError> {
        if value.len() == 0 {
            Err(ValidationError::of(ValidationErrorKind::Empty))
        } else if !valid_utf8(value) {
            Err(ValidationError::of(ValidationErrorKind::Invalid))
        } else {
            check_labels(value, 0)
        }
    }

    /// The characters `chars` form a valid domain.
    pub open spec fn is_valid(chars: Seq<char>) -> bool {
        Domain::spec_validate(encode_utf8(chars)) is Ok
    }

    #[verifier::type_invariant]
    closed spec fn inv(self) -> bool {
        Domain::is_valid(self.0@)
    }

    /// A valid domain is ASCII.
    pub proof fn lemma_valid_ascii(value: Seq<u8>)
        requires
            Domain::spec_validate(value) is Ok,
        ensures
            all_ascii(value),
    {
        lemma_check_labels_ascii(value, 0);
    }

    /// Validates if value conforms to domain's ABNF definition.
    pub fn validate(value: &[u8]) -> (r: Result<(), ValidationError>)
        ensures
            r == Domain::spec_validate(value@),
            r is Ok <==> {
                &&& value@.len() > 0
                &&& forall|i: int|
                    0 <= i < value@.len() ==> (spec_is_alphanumeric(#[trigger] value@[i])
                        || value@[i] == 0x2d || value@[i] == 0x2e)
                &&& spec_is_alphanumeric(value@[0])
                &&& spec_is_alphanumeric(value@[value@.len() - 1])
                &&& forall|i: int| 0 <= i < value@.len() ==> #[trigger] dot_between_let_digs(value@, i)
            },
    {
        proof {
            law_domain_labels(value@);
        }
        if value.len() == 0 {
            return Err(ValidationError::new(ValidationErrorKind::Empty));
        }
        if str_from_utf8(value).is_none() {
            return Err(ValidationError::new(ValidationErrorKind::Invalid));
        }
        let mut start: usize = 0;
        loop
            invariant
                start <= value@.len(),
                value@.len() > 0,
                valid_utf8(value@),
                check_labels(value@, 0) == check_labels(value@, start as int),
            decreases value@.len() - start,
        {
            let mut end: usize = start;
            while end < value.len() && value[end] != 0x2e
                invariant
                    start <= end <= value@.len(),
                    forall|j: int| start <= j < end ==> #[trigger] value@[j] != 0x2e,
                decreases value@.len() - end,
            {
                end = end + 1;
            }
            proof {
                lemma_dot_position_is(value@, start as int, end as int);
                law_domain_labels(value@);
            }
            let r = check_label_exec(value, start, end);
            if r.is_err() {
                return r;
            }
            if end == value.len() {
                return Ok(());
            }
            start = end + 1;
        }
    }

    /// Returns a reference to the inner value.
    pub fn inner(&self) -> (r: &str)
        ensures
            r@ == self@,
            Domain::is_valid(r@),
    {
        proof {
            use_type_invariant(self);
        }
        self.0.as_str()
    }

    /// Consumes the domain, returning the inner value.
    pub fn into_inner(self) -> (r: String)
        ensures
            r@ == self@,
            Domain::is_valid(r@),
    {
        proof {
            use_type_invariant(&self);
        }
        self.0
    }

    /// Constructs a domain without validation.
    ///
    /// The caller must ensure that `inner` is valid according to [`Self::validate`].
    pub fn unvalidated(inner: String) -> (r: Domain)
        requires
            Domain::is_valid(inner@),
        ensures
            r@ == inner@,
    {
        Domain(inner)
    }

    /// Validates `value` and wraps it in a domain.
    pub fn try_from(value: &str) -> (r: Result<Domain, ValidationError>)
        ensures
            match r {
                Ok(d) => Domain::is_valid(value@) && d@ == value@,
                Err(e) => Domain::spec_validate(value.spec_bytes()) == Err::<(), _>(e),
            },
    {
        match Domain::validate(value.as_bytes()) {
            Ok(()) => Ok(Domain(value.to_owned())),
            Err(e) => Err(e),
        }
    }

    /// Validates `value` and wraps it, as a string, in a domain.
    pub fn try_from_bytes(value: &[u8]) -> (r: Result<Domain, ValidationError>)
        ensures
            match r {
                Ok(d) => Domain::spec_validate(value@) is Ok && encode_utf8(d@) == value@,
                Err(e) => Domain::spec_validate(value@) == Err::<(), _>(e),
            },
    {
        match Domain::validate(value) {
            Ok(()) => match str_from_utf8(value) {
                Some(s) => Ok(Domain(s.to_owned())),
                None => Err(ValidationError::new(ValidationErrorKind::Invalid)),
            },
            Err(e) => Err(e),
        }
    }
}

// ---------------------------------------------------------------------------
// Local part grammar
// ---------------------------------------------------------------------------

/// Bytes `i` and `i + 1` of `s` are both `"."`.
pub open spec fn double_dot_at(s: Seq<u8>, i: int) -> bool {
    s[i] == 0x2e && s[i + 1] == 0x2e
}

/// `Dot-string = Atom *("." Atom)`: `atext` and `"."` only, with a dot
/// neither first, nor last, nor next to another dot, so that every atom
/// between the dots is non-empty.
pub open spec fn is_dot_string(s: Seq<u8>) -> bool {
    &&& s.len() > 0
    &&& forall|i: int| 0 <= i < s.len() ==> spec_is_atext(#[trigger] s[i]) || s[i] == 0x2e
    &&& s[0] != 0x2e
    &&& s[s.len() - 1] != 0x2e
    &&& forall|i: int| 0 <= i < s.len() - 1 ==> !#[trigger] double_dot_at(s, i)
}

/// `quoted-pairSMTP = %d92 %d32-126`: a backslash, then a printable
/// character or a space.
pub open spec fn is_quoted_pair(a: u8, b: u8) -> bool {
    a == 0x5c && 32 <= b <= 126
}

/// `*QcontentSMTP`, where `QcontentSMTP = qtextSMTP / quoted-pairSMTP`.
pub open spec fn is_qcontents(s: Seq<u8>) -> bool
    decreases s.len(),
{
    if s.len() == 0 {
        true
    } else if spec_is_qtext(s[0]) {
        is_qcontents(s.drop_first())
    } else if s.len() >= 2 && is_quoted_pair(s[0], s[1]) {
        is_qcontents(s.subrange(2, s.len() as int))
    } else {
        false
    }
}

/// `Quoted-string = DQUOTE *QcontentSMTP DQUOTE`
pub open spec fn is_quoted_string(s: Seq<u8>) -> bool {
    &&& s.len() >= 2
    &&& s[0] == 0x22
    &&& s[s.len() - 1] == 0x22
    &&& is_qcontents(s.subrange(1, s.len() - 1))
}

/// `Local-part = Dot-string / Quoted-string`
pub open spec fn is_local_part(s: Seq<u8>) -> bool {
    is_dot_string(s) || is_quoted_string(s)
}

/// Byte `i` of `s` cannot stand where it is in a Dot-string.
pub open spec fn dot_string_bad_at(s: Seq<u8>, i: int) -> bool {
    ||| !(spec_is_atext(s[i]) || s[i] == 0x2e)
    ||| (s[i] == 0x2e && (i == 0 || i == s.len() - 1 || s[i - 1] == 0x2e))
}

/// Reading `s` as a Dot-string from index `i` on: the first byte that cannot
/// stand where it is, if any.
pub open spec fn dot_string_scan(s: Seq<u8>, i: int) -> Result<(), ValidationError>
    decreases s.len() - i,
{
    if i < 0 || i >= s.len() {
        Ok(())
    } else if dot_string_bad_at(s, i) {
        Err(invalid_byte_at(s, i))
    } else {
        dot_string_scan(s, i + 1)
    }
}

/// Reading `s` as a Quoted-string from index `i` on, after the opening
/// quote: an unterminated string is `Invalid`; otherwise the first byte that
/// cannot stand where it is, or what follows the closing quote, is reported.
pub open spec fn quoted_scan(s: Seq<u8>, i: int) -> Result<(), ValidationError>
    decreases s.len() - i,
{
    if i < 0 || i >= s.len() {
        Err(ValidationError::of(ValidationErrorKind::Invalid))
    } else if s[i] == 0x22 {
        if i == s.len() - 1 {
            Ok(())
        } else {
            Err(invalid_byte_at(s, i + 1))
        }
    } else if s[i] == 0x5c {
        if i + 1 >= s.len() {
            Err(ValidationError::of(ValidationErrorKind::Invalid))
        } else if 32 <= s[i + 1] <= 126 {
            quoted_scan(s, i + 2)
        } else {
            Err(invalid_byte_at(s, i + 1))
        }
    } else if spec_is_qtext(s[i]) {
        quoted_scan(s, i + 1)
    } else {
        Err(invalid_byte_at(s, i))
    }
}

/// The outcome of reading a local part made of `s`, a non-empty byte string.
pub open spec fn local_part_result(s: Seq<u8>) -> Result<(), ValidationError> {
    if s[0] == 0x22 {
        quoted_scan(s, 1)
    } else {
        dot_string_scan(s, 0)
    }
}

proof fn lemma_dot_string_scan(s: Seq<u8>, i: int)
    requires
        0 <= i <= s.len(),
    ensures
        dot_string_scan(s, i) is Ok <==> forall|j: int|
            i <= j < s.len() ==> !#[trigger] dot_string_bad_at(s, j),
    decreases s.len() - i,
{
    if i < s.len() {
        lemma_dot_string_scan(s, i + 1);
    }
}

proof fn lemma_dot_string_good(s: Seq<u8>)
    requires
        s.len() > 0,
    ensures
        (forall|j: int| 0 <= j < s.len() ==> !#[trigger] dot_string_bad_at(s, j))
            <==> is_dot_string(s),
{
    if forall|j: int| 0 <= j < s.len() ==> !#[trigger] dot_string_bad_at(s, j) {
        assert(!dot_string_bad_at(s, 0));
        assert(!dot_string_bad_at(s, s.len() - 1));
        assert forall|i: int| 0 <= i < s.len() implies spec_is_atext(#[trigger] s[i]) || s[i]
            == 0x2e by {
            assert(!dot_string_bad_at(s, i));
        }
        assert forall|i: int| 0 <= i < s.len() - 1 implies !#[trigger] double_dot_at(s, i) by {
            assert(!dot_string_bad_at(s, i + 1));
        }
    }
    if is_dot_string(s) {
        assert forall|j: int| 0 <= j < s.len() implies !#[trigger] dot_string_bad_at(s, j) by {
            assert(spec_is_atext(s[j]) || s[j] == 0x2e);
            if s[j] == 0x2e && j != 0 && j != s.len() - 1 {
                assert(!double_dot_at(s, j - 1));
            }
        }
    }
}

proof fn lemma_quoted_scan(s: Seq<u8>, i: int)
    requires
        1 <= i <= s.len(),
    ensures
        quoted_scan(s, i) is Ok <==> (s.len() >= i + 1 && s[s.len() - 1] == 0x22 && is_qcontents(
            s.subrange(i, s.len() - 1),
        )),
    decreases s.len() - i,
{
    if i < s.len() {
        let t = s.subrange(i, s.len() - 1);
        if s[i] == 0x22 {
        } else if s[i] == 0x5c {
            if i + 1 < s.len() && 32 <= s[i + 1] <= 126 {
                lemma_quoted_scan(s, i + 2);
                if i + 1 < s.len() - 1 {
                    assert(t[0] == s[i] && t[1] == s[i + 1]);
                    assert(t.subrange(2, t.len() as int) =~= s.subrange(i + 2, s.len() - 1));
                }
            }
        } else if spec_is_qtext(s[i]) {
            lemma_quoted_scan(s, i + 1);
            if i < s.len() - 1 {
                assert(t[0] == s[i]);
                assert(t.drop_first() =~= s.subrange(i + 1, s.len() - 1));
            }
        } else {
            if i < s.len() - 1 {
                assert(t[0] == s[i]);
            }
        }
    }
}

proof fn lemma_qcontents_ascii(s: Seq<u8>)
    requires
        is_qcontents(s),
    ensures
        forall|j: int| 0 <= j < s.len() ==> #[trigger] s[j] <= 126,
    decreases s.len(),
{
    if s.len() > 0 {
        if spec_is_qtext(s[0]) {
            let r = s.drop_first();
            lemma_qcontents_ascii(r);
            assert forall|j: int| 0 <= j < s.len() implies #[trigger] s[j] <= 126 by {
                if j > 0 {
                    assert(s[j] == r[j - 1]);
                }
            }
        } else {
            let r = s.subrange(2, s.len() as int);
            lemma_qcontents_ascii(r);
            assert forall|j: int| 0 <= j < s.len() implies #[trigger] s[j] <= 126 by {
                if j > 1 {
                    assert(s[j] == r[j - 2]);
                }
            }
        }
    }
}

/// A local part is ASCII, hence well-formed UTF-8.
pub proof fn lemma_local_part_ascii(s: Seq<u8>)
    requires
        is_local_part(s),
    ensures
        all_ascii(s),
        valid_utf8(s),
{
    if is_dot_string(s) {
        assert forall|i: int| 0 <= i < s.len() implies #[trigger] s[i] < 0x80 by {
            assert(spec_is_atext(s[i]) || s[i] == 0x2e);
        }
    } else {
        let t = s.subrange(1, s.len() - 1);
        lemma_qcontents_ascii(t);
        assert forall|i: int| 0 <= i < s.len() implies #[trigger] s[i] < 0x80 by {
            if 0 < i < s.len() - 1 {
                assert(s[i] == t[i - 1]);
            }
        }
    }
    lemma_ascii_bytes_encode(s);
}

/// Reading a non-empty `s` as a local part succeeds exactly when `s` is one.
proof fn lemma_local_part_result(s: Seq<u8>)
    requires
        s.len() > 0,
    ensures
        local_part_result(s) is Ok <==> is_local_part(s),
{
    if s[0] == 0x22 {
        lemma_quoted_scan(s, 1);
        assert(!spec_is_atext(s[0]));
        assert(!is_dot_string(s));
    } else {
        lemma_dot_string_scan(s, 0);
        lemma_dot_string_good(s);
    }
}

fn check_dot_string(s: &[u8]) -> (r: Result<(), ValidationError>)
    ensures
        r == dot_string_scan(s@, 0),
{
    let n = s.len();
    let mut i: usize = 0;
    while i < n
        invariant
            i <= n,
            n == s@.len(),
            dot_string_scan(s@, 0) == dot_string_scan(s@, i as int),
        decreases n - i,
    {
        let b = s[i];
        let bad = if !(is_atext(b) || b == 0x2e) {
            true
        } else if b == 0x2e {
            i == 0 || i == n - 1 || s[i - 1] == 0x2e
        } else {
            false
        };
        if bad {
            return Err(ValidationError::new(ValidationErrorKind::InvalidByteAt { byte: b, at: i }));
        }
        i = i + 1;
    }
    Ok(())
}

fn check_quoted_string(s: &[u8]) -> (r: Result<(), ValidationError>)
    requires
        s@.len() >= 1,
    ensures
        r == quoted_scan(s@, 1),
{
    let n = s.len();
    let mut i: usize = 1;
    loop
        invariant
            1 <= i <= n,
            n == s@.len(),
            quoted_scan(s@, 1) == quoted_scan(s@, i as int),
        decreases n - i,
    {
        if i >= n {
            return Err(ValidationError::new(ValidationErrorKind::Invalid));
        }
        let b = s[i];
        if b == 0x22 {
            if i == n - 1 {
                return Ok(());
            }
            return Err(
                ValidationError::new(ValidationErrorKind::InvalidByteAt { byte: s[i + 1], at: i + 1 }),
            );
        } else if b == 0x5c {
            if i + 1 >= n {
                return Err(ValidationError::new(ValidationErrorKind::Invalid));
            }
            let c = s[i + 1];
            if 32 <= c && c <= 126 {
                i = i + 2;
            } else {
                return Err(
                    ValidationError::new(ValidationErrorKind::InvalidByteAt { byte: c, at: i + 1 }),
                );
            }
        } else if is_qtext(b) {
            i = i + 1;
        } else {
            return Err(ValidationError::new(ValidationErrorKind::InvalidByteAt { byte: b, at: i }));
        }
    }
}

/// `Domain = sub-domain *("." sub-domain)` with `sub-domain = Let-dig
/// [Ldh-str]`: a domain is valid exactly when it is non-empty, made of ASCII
/// letters, digits, hyphens and dots, begins and ends with a letter or digit,
/// and has a letter or digit on both sides of every dot. So every label is
/// non-empty, begins and ends with a letter or digit (a label may begin with
/// a digit), and holds only letters, digits and hyphens.
pub proof fn law_domain_labels(v: Seq<u8>)
    ensures
        v.len() == 0 ==> Domain::spec_validate(v) == Err::<(), _>(
            ValidationError::of(ValidationErrorKind::Empty),
        ),
        v.len() > 0 && !valid_utf8(v) ==> Domain::spec_validate(v) == Err::<(), _>(
            ValidationError::of(ValidationErrorKind::Invalid),
        ),
        Domain::spec_validate(v) is Ok <==> {
            &&& v.len() > 0
            &&& forall|i: int|
                0 <= i < v.len() ==> (spec_is_alphanumeric(#[trigger] v[i]) || v[i] == 0x2d || v[i]
                    == 0x2e)
            &&& spec_is_alphanumeric(v[0])
            &&& spec_is_alphanumeric(v[v.len() - 1])
            &&& forall|i: int| 0 <= i < v.len() ==> #[trigger] dot_between_let_digs(v, i)
        },
{
    lemma_check_labels_from(v, 0);
    if domain_from(v, 0) {
        assert forall|i: int| 0 <= i < v.len() implies #[trigger] v[i] < 0x80 by {
            assert(spec_is_alphanumeric(v[i]) || v[i] == 0x2d || v[i] == 0x2e);
        }
        lemma_ascii_bytes_encode(v);
    }
}

/// The local part of an email address (before the @).
///
/// # ABNF Definition (RFC 5321)
///
/// ```abnf
/// Local-part     = Dot-string / Quoted-string
/// Dot-string     = Atom *("." Atom)
/// Quoted-string  = DQUOTE *QcontentSMTP DQUOTE
/// QcontentSMTP   = qtextSMTP / quoted-pairSMTP
/// quoted-pairSMTP = %d92 %d32-126
/// qtextSMTP      = %d32-33 / %d35-91 / %d93-126
/// ```
#[derive(Debug, PartialEq, Eq, PartialOrd, Ord, Hash)]
pub struct LocalPart(String);

impl Clone for LocalPart {
    fn clone(&self) -> (r: LocalPart)
        ensures
            r == *self,
    {
        proof {
            use_type_invariant(self);
        }
        LocalPart(self.0.clone())
    }
}

impl View for LocalPart {
    type V = Seq<char>;

    closed spec fn view(&self) -> Seq<char> {
        self.0@
    }
}

impl LocalPart {
    /// The outcome of [`LocalPart::validate`] on `value`.
    pub open spec fn spec_validate(value: Seq<u8>) -> Result<(), ValidationError> {
        if value.len() == 0 {
            Err(ValidationError::of(ValidationErrorKind::Empty))
        } else if !valid_utf8(value) {
            Err(ValidationError::of(ValidationErrorKind::Invalid))
        } else {
            local_part_result(value)
        }
    }

    /// The characters `chars` form a valid value of this type.
    pub open spec fn is_valid(chars: Seq<char>) -> bool {
        LocalPart::spec_validate(encode_utf8(chars)) is Ok
    }

    #[verifier::type_invariant]
    closed spec fn inv(self) -> bool {
        LocalPart::is_valid(self.0@)
    }

    /// A valid value is ASCII, hence well-formed UTF-8.
    pub proof fn lemma_valid_ascii(value: Seq<u8>)
        requires
            LocalPart::spec_validate(value) is Ok,
        ensures
            all_ascii(value),
            valid_utf8(value),
    {
        LocalPart::lemma_grammar(value);
        lemma_local_part_ascii(value);
    }

    /// Validation succeeds exactly on the values that the grammar
    /// `Local-part = Dot-string / Quoted-string` derives.
    pub proof fn lemma_grammar(value: Seq<u8>)
        ensures
            LocalPart::spec_validate(value) is Ok <==> is_local_part(value),
    {
        if value.len() > 0 {
            lemma_local_part_result(value);
            if is_local_part(value) {
                lemma_local_part_ascii(value);
            }
        }
    }

    /// Validates if value conforms to the ABNF definition.
    pub fn validate(value: &[u8]) -> (r: Result<(), ValidationError>)
        ensures
            r == LocalPart::spec_validate(value@),
            r is Ok <==> is_local_part(value@),
    {
        proof {
            LocalPart::lemma_grammar(value@);
        }
        if value.len() == 0 {
            return Err(ValidationError::new(ValidationErrorKind::Empty));
        }
        if str_from_utf8(value).is_none() {
            return Err(ValidationError::new(ValidationErrorKind::Invalid));
        }
        if value[0] == 0x22 {
            check_quoted_string(value)
        } else {
            check_dot_string(value)
        }
    }

    /// Returns a reference to the inner value.
    pub fn inner(&self) -> (r: &str)
        ensures
            r@ == self@,
            LocalPart::is_valid(r@),
    {
        proof {
            use_type_invariant(self);
        }
        self.0.as_str()
    }

    /// Consumes the value, returning the inner string.
    pub fn into_inner(self) -> (r: String)
        ensures
            r@ == self@,
            LocalPart::is_valid(r@),
    {
        proof {
            use_type_invariant(&self);
        }
        self.0
    }

    /// Constructs a value without validation.
    ///
    /// The caller must ensure that `inner` is valid according to [`Self::validate`].
    pub fn unvalidated(inner: String) -> (r: LocalPart)
        requires
            LocalPart::is_valid(inner@),
        ensures
            r@ == inner@,
    {
        LocalPart(inner)
    }

    /// Validates `value` and wraps it.
    pub fn try_from(value: &str) -> (r: Result<LocalPart, ValidationError>)
        ensures
            match r {
                Ok(v) => LocalPart::is_valid(value@) && v@ == value@,
                Err(e) => LocalPart::spec_validate(value.spec_bytes()) == Err::<(), _>(e),
            },
    {
        match LocalPart::validate(value.as_bytes()) {
            Ok(()) => Ok(LocalPart(value.to_owned())),
            Err(e) => Err(e),
        }
    }

    /// Validates `value` and wraps it, as a string.
    pub fn try_from_bytes(value: &[u8]) -> (r: Result<LocalPart, ValidationError>)
        ensures
            match r {
                Ok(v) => LocalPart::spec_validate(value@) is Ok && encode_utf8(v@) == value@,
                Err(e) => LocalPart::spec_validate(value@) == Err::<(), _>(e),
            },
    {
        match LocalPart::validate(value) {
            Ok(()) => {
                proof {
                    LocalPart::lemma_valid_ascii(value@);
                }
                match str_from_utf8(value) {
                    Some(s) => Ok(LocalPart(s.to_owned())),
                    None => {
                        proof {
                            assert(false);
                        }
                        Err(ValidationError::new(ValidationErrorKind::Invalid))
                    },
                }
            },
            Err(e) => Err(e),
        }
    }
}

/// An SMTP atom.
///
/// # ABNF Definition (RFC 5321)
///
/// ```abnf
/// Atom           = 1*atext
/// atext          = ALPHA / DIGIT /
///                  "!" / "#" / "$" / "%" / "&" / "'" / "*" /
///                  "+" / "-" / "/" / "=" / "?" / "^" / "_" /
///                  "`" / "{" / "|" / "}" / "~"
/// ```
#[derive(Debug, PartialEq, Eq, PartialOrd, Ord, Hash)]
pub struct Atom(String);

impl Clone for Atom {
    fn clone(&self) -> (r: Atom)
        ensures
            r == *self,
    {
        proof {
            use_type_invariant(self);
        }
        Atom(self.0.clone())
    }
}

impl View for Atom {
    type V = Seq<char>;

    closed spec fn view(&self) -> Seq<char> {
        self.0@
    }
}

impl Atom {
    /// The outcome of [`Atom::validate`] on `value`.
    pub open spec fn spec_validate(value: Seq<u8>) -> Result<(), ValidationError> {
        if value.len() == 0 {
            Err(ValidationError::of(ValidationErrorKind::Empty))
        } else {
            class_result(value, ByteClass::Atext)
        }
    }

    /// The characters `chars` form a valid value of this type.
    pub open spec fn is_valid(chars: Seq<char>) -> bool {
        Atom::spec_validate(encode_utf8(chars)) is Ok
    }

    #[verifier::type_invariant]
    closed spec fn inv(self) -> bool {
        Atom::is_valid(self.0@)
    }

    /// A valid value is ASCII, hence well-formed UTF-8.
    pub proof fn lemma_valid_ascii(value: Seq<u8>)
        requires
            Atom::spec_validate(value) is Ok,
        ensures
            all_ascii(value),
            valid_utf8(value),
    {
        lemma_class_result_ascii(value, ByteClass::Atext);
        lemma_ascii_bytes_encode(value);
    }

    /// Validates if value conforms to the ABNF definition.
    pub fn validate(value: &[u8]) -> (r: Result<(), ValidationError>)
        ensures
            r == Atom::spec_validate(value@),
            r is Ok <==> (value@.len() > 0 && forall|i: int|
                0 <= i < value@.len() ==> spec_is_atext(#[trigger] value@[i])),
    {
        proof {
            law_atom_is_atext(value@);
        }
        if value.len() == 0 {
            return Err(ValidationError::new(ValidationErrorKind::Empty));
        }
        check_class(value, ByteClass::Atext)
    }

    /// Returns a reference to the inner value.
    pub fn inner(&self) -> (r: &str)
        ensures
            r@ == self@,
            Atom::is_valid(r@),
    {
        proof {
            use_type_invariant(self);
        }
        self.0.as_str()
    }

    /// Consumes the value, returning the inner string.
    pub fn into_inner(self) -> (r: String)
        ensures
            r@ == self@,
            Atom::is_valid(r@),
    {
        proof {
            use_type_invariant(&self);
        }
        self.0
    }

    /// Constructs a value without validation.
    ///
    /// The caller must ensure that `inner` is valid according to [`Self::validate`].
    pub fn unvalidated(inner: String) -> (r: Atom)
        requires
            Atom::is_valid(inner@),
        ensures
            r@ == inner@,
    {
        Atom(inner)
    }

    /// Validates `value` and wraps it.
    pub fn try_from(value: &str) -> (r: Result<Atom, ValidationError>)
        ensures
            match r {
                Ok(v) => Atom::is_valid(value@) && v@ == value@,
                Err(e) => Atom::spec_validate(value.spec_bytes()) == Err::<(), _>(e),
            },
    {
        match Atom::validate(value.as_bytes()) {
            Ok(()) => Ok(Atom(value.to_owned())),
            Err(e) => Err(e),
        }
    }

    /// Validates `value` and wraps it, as a string.
    pub fn try_from_bytes(value: &[u8]) -> (r: Result<Atom, ValidationError>)
        ensures
            match r {
                Ok(v) => Atom::spec_validate(value@) is Ok && encode_utf8(v@) == value@,
                Err(e) => Atom::spec_validate(value@) == Err::<(), _>(e),
            },
    {
        match Atom::validate(value) {
            Ok(()) => {
                proof {
                    Atom::lemma_valid_ascii(value@);
                }
                match str_from_utf8(value) {
                    Some(s) => Ok(Atom(s.to_owned())),
                    None => {
                        proof {
                            assert(false);
                        }
                        Err(ValidationError::new(ValidationErrorKind::Invalid))
                    },
                }
            },
            Err(e) => Err(e),
        }
    }
}

/// `Atom = 1*atext`: an atom is valid exactly when it is non-empty and every
/// byte of it is `atext`; an invalid non-empty one is reported at its first
/// byte that is not `atext`.
pub proof fn law_atom_is_atext(v: Seq<u8>)
    ensures
        Atom::spec_validate(v) is Ok <==> (v.len() > 0 && forall|i: int|
            0 <= i < v.len() ==> spec_is_atext(#[trigger] v[i])),
        v.len() == 0 ==> Atom::spec_validate(v) == Err::<(), _>(
            ValidationError::of(ValidationErrorKind::Empty),
        ),
        forall|k: int|
            0 <= k < v.len() && !spec_is_atext(#[trigger] v[k]) && (forall|j: int|
                0 <= j < k ==> spec_is_atext(v[j])) ==> Atom::spec_validate(v) == Err::<(), _>(
                ValidationError::of(ValidationErrorKind::InvalidByteAt { byte: v[k], at: k as usize }),
            ),
{
    lemma_class_result_all(v, ByteClass::Atext);
    assert forall|k: int|
        0 <= k < v.len() && !spec_is_atext(#[trigger] v[k]) && (forall|j: int|
            0 <= j < k ==> spec_is_atext(v[j])) implies Atom::spec_validate(v) == Err::<(), _>(
        ValidationError::of(ValidationErrorKind::InvalidByteAt { byte: v[k], at: k as usize }),
    ) by {
        assert(is_first_outside(v, ByteClass::Atext, k));
    }
}

/// A human-readable text string used in SMTP responses (possibly empty).
///
/// # ABNF Definition (RFC 5321)
///
/// ```abnf
/// textstring     = 1*(%d09 / %d32-126)  ; HT, SP, Printable US-ASCII
/// ```
#[derive(Debug, PartialEq, Eq, Hash)]
pub struct Text(String);

impl Clone for Text {
    fn clone(&self) -> (r: Text)
        ensures
            r == *self,
    {
        proof {
            use_type_invariant(self);
        }
        Text(self.0.clone())
    }
}

impl View for Text {
    type V = Seq<char>;

    closed spec fn view(&self) -> Seq<char> {
        self.0@
    }
}

impl Text {
    /// The outcome of [`Text::validate`] on `value`.
    pub open spec fn spec_validate(value: Seq<u8>) -> Result<(), ValidationError> {
        class_result(value, ByteClass::TextChar)
    }

    /// The characters `chars` form a valid value of this type.
    pub open spec fn is_valid(chars: Seq<char>) -> bool {
        Text::spec_validate(encode_utf8(chars)) is Ok
    }

    #[verifier::type_invariant]
    closed spec fn inv(self) -> bool {
        Text::is_valid(self.0@)
    }

    /// A valid value is ASCII, hence well-formed UTF-8.
    pub proof fn lemma_valid_ascii(value: Seq<u8>)
        requires
            Text::spec_validate(value) is Ok,
        ensures
            all_ascii(value),
            valid_utf8(value),
    {
        lemma_class_result_ascii(value, ByteClass::TextChar);
        lemma_ascii_bytes_encode(value);
    }

    /// Validates if value conforms to the ABNF definition.
    pub fn validate(value: &[u8]) -> (r: Result<(), ValidationError>)
        ensures
            r == Text::spec_validate(value@),
    {
        check_class(value, ByteClass::TextChar)
    }

    /// Returns a reference to the inner value.
    pub fn inner(&self) -> (r: &str)
        ensures
            r@ == self@,
            Text::is_valid(r@),
    {
        proof {
            use_type_invariant(self);
        }
        self.0.as_str()
    }

    /// Consumes the value, returning the inner string.
    pub fn into_inner(self) -> (r: String)
        ensures
            r@ == self@,
            Text::is_valid(r@),
    {
        proof {
            use_type_invariant(&self);
        }
        self.0
    }

    /// Constructs a value without validation.
    ///
    /// The caller must ensure that `inner` is valid according to [`Self::validate`].
    pub fn unvalidated(inner: String) -> (r: Text)
        requires
            Text::is_valid(inner@),
        ensures
            r@ == inner@,
    {
        Text(inner)
    }

    /// Validates `value` and wraps it.
    pub fn try_from(value: &str) -> (r: Result<Text, ValidationError>)
        ensures
            match r {
                Ok(v) => Text::is_valid(value@) && v@ == value@,
                Err(e) => Text::spec_validate(value.spec_bytes()) == Err::<(), _>(e),
            },
    {
        match Text::validate(value.as_bytes()) {
            Ok(()) => Ok(Text(value.to_owned())),
            Err(e) => Err(e),
        }
    }

    /// Validates `value` and wraps it, as a string.
    pub fn try_from_bytes(value: &[u8]) -> (r: Result<Text, ValidationError>)
        ensures
            match r {
                Ok(v) => Text::spec_validate(value@) is Ok && encode_utf8(v@) == value@,
                Err(e) => Text::spec_validate(value@) == Err::<(), _>(e),
            },
    {
        match Text::validate(value) {
            Ok(()) => {
                proof {
                    Text::lemma_valid_ascii(value@);
                }
                match str_from_utf8(value) {
                    Some(s) => Ok(Text(s.to_owned())),
                    None => {
                        proof {
                            assert(false);
                        }
                        Err(ValidationError::new(ValidationErrorKind::Invalid))
                    },
                }
            },
            Err(e) => Err(e),
        }
    }
}

// ---------------------------------------------------------------------------
// Addresses and paths
// ---------------------------------------------------------------------------

/// An address literal, either IPv4, IPv6, or a general address.
///
/// The IP addresses are held as their octets, in network order.
///
/// # ABNF Definition (RFC 5321)
///
/// ```abnf
/// address-literal  = "[" ( IPv4-address-literal /
///                          IPv6-address-literal /
///                          General-address-literal ) "]"
/// IPv4-address-literal  = Snum 3("." Snum)
/// IPv6-address-literal  = "IPv6:" IPv6-addr
/// General-address-literal  = Standardized-tag ":" 1*dcontent
/// ```
#[derive(Debug, Clone, PartialEq, Eq, Hash)]
pub enum AddressLiteral {
    /// IPv4 address, e.g., `[192.168.1.1]`
    IPv4([u8; 4]),
    /// IPv6 address, e.g., `[IPv6:2001:db8::1]`
    IPv6([u8; 16]),
    /// General address literal, e.g., `[tag:content]`
    General { tag: Atom, content: String },
}

/// The domain identifier used in EHLO/HELO commands.
///
/// Can be either a domain name or an address literal.
#[derive(Debug, Clone, PartialEq, Eq, Hash)]
pub enum EhloDomain {
    /// A domain name
    Domain(Domain),
    /// An address literal (IPv4, IPv6, or general)
    AddressLiteral(AddressLiteral),
}

impl From<Domain> for EhloDomain {
    fn from(domain: Domain) -> (r: EhloDomain) {
        EhloDomain::Domain(domain)
    }
}

impl vstd::std_specs::convert::FromSpecImpl<Domain> for EhloDomain {
    open spec fn obeys_from_spec() -> bool {
        true
    }

    open spec fn from_spec(v: Domain) -> EhloDomain {
        EhloDomain::Domain(v)
    }
}

impl From<AddressLiteral> for EhloDomain {
    fn from(addr: AddressLiteral) -> (r: EhloDomain) {
        EhloDomain::AddressLiteral(addr)
    }
}

impl vstd::std_specs::convert::FromSpecImpl<AddressLiteral> for EhloDomain {
    open spec fn obeys_from_spec() -> bool {
        true
    }

    open spec fn from_spec(v: AddressLiteral) -> EhloDomain {
        EhloDomain::AddressLiteral(v)
    }
}

/// A full email address: local-part@domain.
///
/// # ABNF Definition (RFC 5321)
///
/// ```abnf
/// Mailbox        = Local-part "@" ( Domain / address-literal )
/// ```
#[derive(Debug, Clone, PartialEq, Eq, Hash)]
pub struct Mailbox {
    /// The local part (before @)
    pub local_part: LocalPart,
    /// The domain (after @)
    pub domain: EhloDomain,
}

impl Mailbox {
    /// Creates a new mailbox.
    pub fn new(local_part: LocalPart, domain: EhloDomain) -> (r: Mailbox)
        ensures
            r.local_part == local_part,
            r.domain == domain,
    {
        Mailbox { local_part, domain }
    }
}

/// The reverse path for MAIL FROM (can be null <>).
///
/// # ABNF Definition (RFC 5321)
///
/// ```abnf
/// Reverse-path   = Path / "<>"
/// Path           = "<" [ A-d-l ":" ] Mailbox ">"
/// ```
#[derive(Debug, Clone, PartialEq, Eq, Hash)]
pub enum ReversePath {
    /// Null reverse path (<>)
    Null,
    /// A mailbox address
    Mailbox(Mailbox),
}

impl Default for ReversePath {
    fn default() -> (r: ReversePath)
        ensures
            r == ReversePath::Null,
    {
        ReversePath::Null
    }
}

/// The forward path for RCPT TO.
///
/// # ABNF Definition (RFC 5321)
///
/// ```abnf
/// Forward-path   = Path
/// ```
#[derive(Debug, Clone, PartialEq, Eq, Hash)]
pub struct ForwardPath(pub Mailbox);

impl From<Mailbox> for ForwardPath {
    fn from(mailbox: Mailbox) -> (r: ForwardPath) {
        ForwardPath(mailbox)
    }
}

impl vstd::std_specs::convert::FromSpecImpl<Mailbox> for ForwardPath {
    open spec fn obeys_from_spec() -> bool {
        true
    }

    open spec fn from_spec(v: Mailbox) -> ForwardPath {
        ForwardPath(v)
    }
}

// ---------------------------------------------------------------------------
// Parameters and non-empty vectors
// ---------------------------------------------------------------------------

/// An ESMTP parameter (keyword[=value]).
///
/// # ABNF Definition (RFC 5321)
///
/// ```abnf
/// esmtp-param    = esmtp-keyword ["=" esmtp-value]
/// esmtp-keyword  = (ALPHA / DIGIT) *(ALPHA / DIGIT / "-")
/// esmtp-value    = 1*(%d33-60 / %d62-126)  ; any CHAR excluding "=", SP, and CTL
/// ```
#[derive(Debug, Clone, PartialEq, Eq, Hash)]
pub struct Parameter {
    /// The parameter keyword
    pub keyword: Atom,
    /// The optional parameter value
    pub value: Option<String>,
}

impl Parameter {
    /// Creates a new parameter with just a keyword.
    pub fn new(keyword: Atom) -> (r: Parameter)
        ensures
            r.keyword == keyword,
            r.value is None,
    {
        Parameter { keyword, value: None }
    }

    /// Creates a new parameter with a keyword and value.
    pub fn with_value(keyword: Atom, value: &str) -> (r: Parameter)
        ensures
            r.keyword == keyword,
            r.value matches Some(v) && v@ == value@,
    {
        Parameter { keyword, value: Some(value.to_owned()) }
    }

    /// The characters of `keyword[=value]`.
    pub open spec fn text_chars(self) -> Seq<char> {
        self.keyword@ + match self.value {
            Some(v) => "="@ + v@,
            None => Seq::empty(),
        }
    }

    /// Formats the parameter as `keyword[=value]`.
    pub fn to_string(&self) -> (r: String)
        ensures
            r@ == self.text_chars(),
    {
        let mut out = self.keyword.inner().to_owned();
        match &self.value {
            Some(v) => {
                out.append("=");
                out.append(v.as_str());
                assert(out@ =~= self.text_chars());
            },
            None => {
                assert(out@ =~= self.text_chars());
            },
        }
        out
    }
}

/// A [`Vec`] containing >= 1 elements, i.e., a non-empty vector.
#[derive(Debug, PartialEq, Eq, Hash)]
pub struct Vec1<T>(Vec<T>);

impl<T> View for Vec1<T> {
    type V = Seq<T>;

    closed spec fn view(&self) -> Seq<T> {
        self.0@
    }
}

impl<T: Clone> Clone for Vec1<T> {
    fn clone(&self) -> (r: Vec1<T>)
        ensures
            r@.len() == self@.len(),
            forall|i: int| 0 <= i < self@.len() ==> cloned::<T>(#[trigger] self@[i], r@[i]),
    {
        proof {
            use_type_invariant(self);
        }
        Vec1(self.0.clone())
    }
}

impl<T> Vec1<T> {
    #[verifier::type_invariant]
    closed spec fn inv(self) -> bool {
        self.0@.len() >= 1
    }

    /// The outcome of [`Vec1::validate`] on a slice of length `len`.
    pub open spec fn spec_validate(len: nat) -> Result<(), ValidationError> {
        if len == 0 {
            Err(ValidationError::of(ValidationErrorKind::NotEnough { min: 1 }))
        } else {
            Ok(())
        }
    }

    /// Checks that `value` has at least one element.
    pub fn validate(value: &[T]) -> (r: Result<(), ValidationError>)
        ensures
            r == Vec1::<T>::spec_validate(value@.len()),
    {
        if value.len() == 0 {
            return Err(ValidationError::new(ValidationErrorKind::NotEnough { min: 1 }));
        }
        Ok(())
    }

    /// Constructs a non-empty vector without validation.
    pub fn unvalidated(inner: Vec<T>) -> (r: Vec1<T>)
        requires
            inner@.len() >= 1,
        ensures
            r@ == inner@,
    {
        Vec1(inner)
    }

    /// Consumes the vector, returning the inner value.
    pub fn into_inner(self) -> (r: Vec<T>)
        ensures
            r@ == self@,
            r@.len() >= 1,
    {
        proof {
            use_type_invariant(&self);
        }
        self.0
    }

    /// The one-element vector holding `value`.
    pub fn from(value: T) -> (r: Vec1<T>)
        ensures
            r@ == seq![value],
    {
        let mut v = Vec::new();
        v.push(value);
        Vec1(v)
    }

    /// Checks that `inner` is non-empty and wraps it.
    pub fn try_from(inner: Vec<T>) -> (r: Result<Vec1<T>, ValidationError>)
        ensures
            match r {
                Ok(v) => inner@.len() >= 1 && v@ == inner@,
                Err(e) => Vec1::<T>::spec_validate(inner@.len()) == Err::<(), _>(e),
            },
    {
        match Vec1::validate(inner.as_slice()) {
            Ok(()) => Ok(Vec1(inner)),
            Err(e) => Err(e),
        }
    }

    /// The elements, as a slice.
    pub fn as_ref(&self) -> (r: &[T])
        ensures
            r@ == self@,
            r@.len() >= 1,
    {
        proof {
            use_type_invariant(self);
        }
        self.0.as_slice()
    }
}

// ---------------------------------------------------------------------------
// Textual forms of addresses
// ---------------------------------------------------------------------------

/// The eight 16-bit groups of the IPv6 address with octets `o`.
pub open spec fn ipv6_groups(o: Seq<u8>) -> Seq<u16> {
    Seq::new(8, |i: int| (o[2 * i] as int * 256 + o[2 * i + 1] as int) as u16)
}

/// The groups `g` as lowercase hexadecimal numerals separated by `":"`.
pub open spec fn hex_groups(g: Seq<u16>) -> Seq<u8>
    decreases g.len(),
{
    if g.len() == 0 {
        Seq::empty()
    } else if g.len() == 1 {
        hex_numeral(g[0] as nat)
    } else {
        hex_groups(g.drop_last()) + seq![0x3au8] + hex_numeral(g.last() as nat)
    }
}

/// `g[start..start + len]` is all zero.
pub open spec fn is_zero_run(g: Seq<u16>, start: int, len: int) -> bool {
    &&& 0 <= start
    &&& 0 <= len
    &&& start + len <= g.len()
    &&& forall|i: int| start <= i < start + len ==> #[trigger] g[i] == 0
}

/// `g[start..start + len]` is the first of the longest runs of zero
/// groups, and it has at least two groups.
pub open spec fn is_first_longest_zero_run(g: Seq<u16>, start: int, len: int) -> bool {
    &&& is_zero_run(g, start, len)
    &&& len >= 2
    &&& forall|st: int, l: int| #[trigger]
        is_zero_run(g, st, l) ==> l <= len && (l == len ==> start <= st)
}

/// The groups `g` with their first longest run of (at least two) zero
/// groups written as `"::"`, as RFC 5952 has it.
pub open spec fn compressed_groups(g: Seq<u16>) -> Seq<u8> {
    if exists|st: int, l: int| is_first_longest_zero_run(g, st, l) {
        let (st, l) = choose|st: int, l: int| is_first_longest_zero_run(g, st, l);
        hex_groups(g.subrange(0, st)) + seq![0x3au8, 0x3au8] + hex_groups(
            g.subrange(st + l, g.len() as int),
        )
    } else {
        hex_groups(g)
    }
}

/// The octets `o` are those of an IPv4-mapped IPv6 address (`::ffff:a.b.c.d`).
pub open spec fn is_ipv4_mapped(o: Seq<u8>) -> bool {
    &&& forall|i: int| 0 <= i < 10 ==> #[trigger] o[i] == 0
    &&& o[10] == 0xff
    &&& o[11] == 0xff
}

/// `a.b.c.d` for the octets `o`.
pub open spec fn dotted_quad(o: Seq<u8>) -> Seq<u8> {
    decimal(o[0] as nat) + seq![0x2eu8] + decimal(o[1] as nat) + seq![0x2eu8] + decimal(
        o[2] as nat,
    ) + seq![0x2eu8] + decimal(o[3] as nat)
}

/// The text of the IPv6 address with octets `o`: `::ffff:a.b.c.d` for an
/// IPv4-mapped address, the compressed groups otherwise.
pub open spec fn ipv6_text(o: Seq<u8>) -> Seq<u8> {
    if is_ipv4_mapped(o) {
        seq![0x3au8, 0x3au8, 0x66u8, 0x66u8, 0x66u8, 0x66u8, 0x3au8] + dotted_quad(
            o.subrange(12, 16),
        )
    } else {
        compressed_groups(ipv6_groups(o))
    }
}

proof fn lemma_first_longest_unique(g: Seq<u16>, s1: int, l1: int, s2: int, l2: int)
    requires
        is_first_longest_zero_run(g, s1, l1),
        is_first_longest_zero_run(g, s2, l2),
    ensures
        s1 == s2 && l1 == l2,
{
    assert(is_zero_run(g, s2, l2));
    assert(is_zero_run(g, s1, l1));
}

/// The first longest run of zeros in `g`, as (start, length); a length below
/// two means that there is no run to compress.
fn longest_zero_run(g: &[u16]) -> (r: (usize, usize))
    ensures
        r.1 >= 2 ==> is_first_longest_zero_run(g@, r.0 as int, r.1 as int),
        r.1 < 2 ==> !exists|st: int, l: int| is_first_longest_zero_run(g@, st, l),
{
    let mut best_start: usize = 0;
    let mut best_len: usize = 0;
    let mut cur_start: usize = 0;
    let mut cur_len: usize = 0;
    let mut i: usize = 0;
    while i < g.len()
        invariant
            i <= g@.len(),
            is_zero_run(g@, cur_start as int, cur_len as int),
            cur_start + cur_len == i,
            cur_start == 0 || g@[cur_start - 1] != 0,
            is_zero_run(g@, best_start as int, best_len as int),
            best_start + best_len <= i,
            forall|st: int, l: int| #[trigger]
                is_zero_run(g@, st, l) && st + l <= i ==> l <= best_len && (l == best_len && l
                    > 0 ==> best_start <= st),
        decreases g@.len() - i,
    {
        let ghost old_best_start = best_start;
        let ghost old_best_len = best_len;
        let ghost old_cur_start = cur_start;
        if g[i] == 0 {
            cur_len = cur_len + 1;
            if cur_len > best_len {
                best_start = cur_start;
                best_len = cur_len;
            }
            assert forall|st: int, l: int| #[trigger]
                is_zero_run(g@, st, l) && st + l <= i + 1 implies l <= best_len && (l == best_len
                && l > 0 ==> best_start <= st) by {
                if st + l <= i {
                } else if l > 0 {
                    if st < cur_start {
                        assert(g@[cur_start - 1] == 0);
                    }
                }
            }
        } else {
            assert forall|st: int, l: int| #[trigger]
                is_zero_run(g@, st, l) && st + l <= i + 1 implies l <= best_len && (l == best_len
                && l > 0 ==> best_start <= st) by {
                if st + l == i + 1 && l > 0 {
                    assert(g@[i as int] == 0);
                }
            }
            cur_start = i + 1;
            cur_len = 0;
        }
        i = i + 1;
    }
    proof {
        if best_len < 2 {
            if exists|st: int, l: int| is_first_longest_zero_run(g@, st, l) {
                let (st, l) = choose|st: int, l: int| is_first_longest_zero_run(g@, st, l);
                assert(is_zero_run(g@, st, l));
            }
        } else {
            assert forall|st: int, l: int| #[trigger] is_zero_run(g@, st, l) implies l <= best_len
                && (l == best_len ==> best_start <= st) by {
                assert(is_zero_run(g@, st, l) && st + l <= i);
            }
        }
    }
    (best_start, best_len)
}

/// Appends `g[from..to]` as hexadecimal numerals separated by `":"`.
fn push_hex_groups(out: &mut Vec<u8>, g: &[u16], from: usize, to: usize)
    requires
        from <= to <= g@.len(),
    ensures
        final(out)@ == old(out)@ + hex_groups(g@.subrange(from as int, to as int)),
{
    let mut k: usize = from;
    assert(hex_groups(g@.subrange(from as int, from as int)) =~= Seq::<u8>::empty());
    assert(out@ =~= old(out)@ + hex_groups(g@.subrange(from as int, from as int)));
    while k < to
        invariant
            from <= k <= to <= g@.len(),
            out@ == old(out)@ + hex_groups(g@.subrange(from as int, k as int)),
        decreases to - k,
    {
        let ghost before = out@;
        let ghost sub = g@.subrange(from as int, k + 1);
        assert(sub.drop_last() =~= g@.subrange(from as int, k as int));
        assert(sub.last() == g@[k as int]);
        if k > from {
            out.push(0x3a);
            push_hex(out, g[k]);
            assert(out@ =~= before + seq![0x3au8] + hex_numeral(g@[k as int] as nat));
        } else {
            push_hex(out, g[k]);
            assert(sub =~= seq![g@[k as int]]);
        }
        assert(out@ =~= old(out)@ + hex_groups(sub));
        k = k + 1;
    }
}

/// Appends `a.b.c.d`.
fn push_dotted_quad(out: &mut Vec<u8>, o: &[u8], at: usize)
    requires
        at + 4 <= o@.len(),
    ensures
        final(out)@ == old(out)@ + dotted_quad(o@.subrange(at as int, at + 4)),
{
    let ghost q = o@.subrange(at as int, at + 4);
    push_decimal(out, o[at] as u64);
    out.push(0x2e);
    push_decimal(out, o[at + 1] as u64);
    out.push(0x2e);
    push_decimal(out, o[at + 2] as u64);
    out.push(0x2e);
    push_decimal(out, o[at + 3] as u64);
    assert(q[0] == o@[at as int] && q[1] == o@[at + 1] && q[2] == o@[at + 2] && q[3] == o@[at
        + 3]);
    assert(out@ =~= old(out)@ + dotted_quad(q));
}

proof fn lemma_hex_groups_ascii(g: Seq<u16>)
    ensures
        all_ascii(hex_groups(g)),
    decreases g.len(),
{
    if g.len() == 1 {
        lemma_hex_numeral_ascii(g[0] as nat);
    } else if g.len() > 1 {
        lemma_hex_groups_ascii(g.drop_last());
        lemma_hex_numeral_ascii(g.last() as nat);
        let a = hex_groups(g.drop_last());
        let b = hex_numeral(g.last() as nat);
        assert forall|i: int| 0 <= i < hex_groups(g).len() implies #[trigger] hex_groups(g)[i]
            < 0x80 by {
            if i < a.len() {
                assert(hex_groups(g)[i] == a[i]);
            } else if i > a.len() {
                assert(hex_groups(g)[i] == b[i - a.len() - 1]);
            }
        }
    }
}

proof fn lemma_dotted_quad_ascii(o: Seq<u8>)
    requires
        o.len() == 4,
    ensures
        all_ascii(dotted_quad(o)),
{
    lemma_decimal(o[0] as nat);
    lemma_decimal(o[1] as nat);
    lemma_decimal(o[2] as nat);
    lemma_decimal(o[3] as nat);
    let d = dotted_quad(o);
    let a = decimal(o[0] as nat);
    let b = decimal(o[1] as nat);
    let c = decimal(o[2] as nat);
    let e = decimal(o[3] as nat);
    assert forall|i: int| 0 <= i < d.len() implies #[trigger] d[i] < 0x80 by {
        let p1 = a.len() as int;
        let p2 = p1 + 1 + b.len();
        let p3 = p2 + 1 + c.len();
        if i < p1 {
            assert(d[i] == a[i]);
        } else if i == p1 || i == p2 || i == p3 {
        } else if i < p2 {
            assert(d[i] == b[i - p1 - 1]);
        } else if i < p3 {
            assert(d[i] == c[i - p2 - 1]);
        } else {
            assert(d[i] == e[i - p3 - 1]);
        }
    }
}

/// The text of an IPv6 address is ASCII.
pub proof fn lemma_ipv6_text_ascii(o: Seq<u8>)
    requires
        o.len() == 16,
    ensures
        all_ascii(ipv6_text(o)),
{
    if is_ipv4_mapped(o) {
        let q = o.subrange(12, 16);
        lemma_dotted_quad_ascii(q);
        let pre = seq![0x3au8, 0x3au8, 0x66u8, 0x66u8, 0x66u8, 0x66u8, 0x3au8];
        assert forall|i: int| 0 <= i < ipv6_text(o).len() implies #[trigger] ipv6_text(o)[i]
            < 0x80 by {
            if i >= 7 {
                assert(ipv6_text(o)[i] == dotted_quad(q)[i - 7]);
            }
        }
    } else {
        let g = ipv6_groups(o);
        if exists|st: int, l: int| is_first_longest_zero_run(g, st, l) {
            let (st, l) = choose|st: int, l: int| is_first_longest_zero_run(g, st, l);
            let a = hex_groups(g.subrange(0, st));
            let b = hex_groups(g.subrange(st + l, g.len() as int));
            lemma_hex_groups_ascii(g.subrange(0, st));
            lemma_hex_groups_ascii(g.subrange(st + l, g.len() as int));
            let t = compressed_groups(g);
            assert(t == a + seq![0x3au8, 0x3au8] + b);
            assert forall|i: int| 0 <= i < t.len() implies #[trigger] t[i] < 0x80 by {
                if i < a.len() {
                    assert(t[i] == a[i]);
                } else if i >= a.len() + 2 {
                    assert(t[i] == b[i - a.len() - 2]);
                }
            }
        } else {
            lemma_hex_groups_ascii(g);
        }
    }
}

/// The text of the IPv6 address with octets `o`.
fn ipv6_text_exec(o: &[u8]) -> (r: Vec<u8>)
    requires
        o@.len() == 16,
    ensures
        r@ == ipv6_text(o@),
{
    let mut out: Vec<u8> = Vec::new();
    let mut mapped = o[10] == 0xff && o[11] == 0xff;
    let mut i: usize = 0;
    while i < 10
        invariant
            i <= 10,
            o@.len() == 16,
            mapped == (o@[10] == 0xff && o@[11] == 0xff && forall|j: int| 0 <= j < i ==> #[trigger]
                o@[j] == 0),
        decreases 10 - i,
    {
        if o[i] != 0 {
            mapped = false;
        }
        i = i + 1;
    }
    if mapped {
        out.push(0x3a);
        out.push(0x3a);
        out.push(0x66);
        out.push(0x66);
        out.push(0x66);
        out.push(0x66);
        out.push(0x3a);
        push_dotted_quad(&mut out, o, 12);
        assert(out@ =~= ipv6_text(o@));
        return out;
    }
    let mut groups: Vec<u16> = Vec::new();
    let mut k: usize = 0;
    while k < 8
        invariant
            k <= 8,
            o@.len() == 16,
            groups@.len() == k,
            forall|j: int| 0 <= j < k ==> #[trigger] groups@[j] == ipv6_groups(o@)[j],
        decreases 8 - k,
    {
        let hi = o[2 * k] as u16;
        let lo = o[2 * k + 1] as u16;
        groups.push(hi * 256 + lo);
        k = k + 1;
    }
    let ghost g = ipv6_groups(o@);
    assert(groups@ =~= g);
    let (start, len) = longest_zero_run(groups.as_slice());
    if len >= 2 {
        push_hex_groups(&mut out, groups.as_slice(), 0, start);
        out.push(0x3a);
        out.push(0x3a);
        push_hex_groups(&mut out, groups.as_slice(), start + len, 8);
        proof {
            let (st, l) = choose|st: int, l: int| is_first_longest_zero_run(g, st, l);
            lemma_first_longest_unique(g, st, l, start as int, len as int);
        }
        assert(out@ =~= ipv6_text(o@));
    } else {
        push_hex_groups(&mut out, groups.as_slice(), 0, 8);
        assert(g.subrange(0, 8) =~= g);
        assert(out@ =~= ipv6_text(o@));
    }
    out
}

impl AddressLiteral {
    /// The characters of `[a.b.c.d]`, `[IPv6:...]` or `[tag:content]`.
    pub open spec fn text_chars(self) -> Seq<char> {
        match self {
            AddressLiteral::IPv4(o) => "["@ + ascii_chars(dotted_quad(o@)) + "]"@,
            AddressLiteral::IPv6(o) => "[IPv6:"@ + ascii_chars(ipv6_text(o@)) + "]"@,
            AddressLiteral::General { tag, content } => "["@ + tag@ + ":"@ + content@ + "]"@,
        }
    }

    /// Formats the address literal.
    pub fn to_string(&self) -> (r: String)
        ensures
            r@ == self.text_chars(),
    {
        match self {
            AddressLiteral::IPv4(o) => {
                let mut bytes: Vec<u8> = Vec::new();
                push_dotted_quad(&mut bytes, o.as_slice(), 0);
                proof {
                    assert(o@.subrange(0, 4) =~= o@);
                    lemma_dotted_quad_ascii(o@);
                }
                let text = ascii_string(bytes.as_slice());
                let mut out = "[".to_owned();
                out.append(text.as_str());
                out.append("]");
                out
            },
            AddressLiteral::IPv6(o) => {
                let bytes = ipv6_text_exec(o.as_slice());
                proof {
                    lemma_ipv6_text_ascii(o@);
                }
                let text = ascii_string(bytes.as_slice());
                let mut out = "[IPv6:".to_owned();
                out.append(text.as_str());
                out.append("]");
                out
            },
            AddressLiteral::General { tag, content } => {
                let mut out = "[".to_owned();
                out.append(tag.inner());
                out.append(":");
                out.append(content.as_str());
                out.append("]");
                out
            },
        }
    }
}

impl EhloDomain {
    /// The characters of the domain or of the address literal.
    pub open spec fn text_chars(self) -> Seq<char> {
        match self {
            EhloDomain::Domain(d) => d@,
            EhloDomain::AddressLiteral(a) => a.text_chars(),
        }
    }

    /// Formats the domain or the address literal.
    pub fn to_string(&self) -> (r: String)
        ensures
            r@ == self.text_chars(),
    {
        match self {
            EhloDomain::Domain(d) => d.inner().to_owned(),
            EhloDomain::AddressLiteral(a) => a.to_string(),
        }
    }
}

impl Mailbox {
    /// The characters of `local-part@domain`.
    pub open spec fn text_chars(self) -> Seq<char> {
        self.local_part@ + "@"@ + self.domain.text_chars()
    }

    /// Formats the mailbox as `local-part@domain`.
    pub fn to_string(&self) -> (r: String)
        ensures
            r@ == self.text_chars(),
    {
        let mut out = self.local_part.inner().to_owned();
        out.append("@");
        let d = self.domain.to_string();
        out.append(d.as_str());
        out
    }
}

impl ReversePath {
    /// The characters of `<>` or `<mailbox>`.
    pub open spec fn text_chars(self) -> Seq<char> {
        match self {
            ReversePath::Null => "<>"@,
            ReversePath::Mailbox(m) => "<"@ + m.text_chars() + ">"@,
        }
    }

    /// Formats the path as `<>` or `<mailbox>`.
    pub fn to_string(&self) -> (r: String)
        ensures
            r@ == self.text_chars(),
    {
        match self {
            ReversePath::Null => "<>".to_owned(),
            ReversePath::Mailbox(m) => {
                let mut out = "<".to_owned();
                let t = m.to_string();
                out.append(t.as_str());
                out.append(">");
                out
            },
        }
    }
}

impl ForwardPath {
    /// The characters of `<mailbox>`.
    pub open spec fn text_chars(self) -> Seq<char> {
        "<"@ + self.0.text_chars() + ">"@
    }

    /// Formats the path as `<mailbox>`.
    pub fn to_string(&self) -> (r: String)
        ensures
            r@ == self.text_chars(),
    {
        let mut out = "<".to_owned();
        let t = self.0.to_string();
        out.append(t.as_str());
        out.append(">");
        out
    }
}

} // verus!
