//! Byte- and character-level facts shared by the string types: ASCII
//! sequences, UTF-8 decoding, ASCII case folding and decimal numerals.

use vstd::prelude::*;
use vstd::string::*;
use vstd::utf8::*;

verus! {

/// Every byte of `s` is a 7-bit ASCII byte.
pub open spec fn all_ascii(s: Seq<u8>) -> bool {
    forall|i: int| 0 <= i < s.len() ==> #[trigger] s[i] < 0x80
}

/// The characters that the ASCII bytes `s` stand for.
pub open spec fn ascii_chars(s: Seq<u8>) -> Seq<char> {
    Seq::new(s.len(), |i: int| s[i] as char)
}

/// The UTF-8 encoding of a sequence of ASCII bytes read as characters is
/// that same sequence of bytes.
pub proof fn lemma_ascii_bytes_encode(bytes: Seq<u8>)
    requires
        all_ascii(bytes),
    ensures
        encode_utf8(ascii_chars(bytes)) == bytes,
        valid_utf8(bytes),
    decreases bytes.len(),
{
    if bytes.len() > 0 {
        let b0 = bytes[0];
        let rest = bytes.drop_first();
        lemma_ascii_bytes_encode(rest);
        let cs = ascii_chars(bytes);
        assert(cs.drop_first() =~= ascii_chars(rest));
        let c0 = cs[0] as u32;
        assert(c0 == b0 as u32);
        assert((c0 & 0x7F) as u8 == b0) by (bit_vector)
            requires
                c0 == b0 as u32,
                b0 < 0x80,
        ;
        assert(encode_scalar(c0) =~= seq![b0]);
        assert(encode_utf8(cs) =~= seq![b0] + rest);
        assert(seq![b0] + rest =~= bytes);
    } else {
        assert(encode_utf8(ascii_chars(bytes)) =~= bytes);
    }
    encode_utf8_valid_utf8(ascii_chars(bytes));
}

proof fn lemma_leading_bytes_not_ascii(c: u32)
    ensures
        0xC0 | ((c >> 6) & 0x1F) as u8 >= 0x80,
        0xE0 | ((c >> 12) & 0x0F) as u8 >= 0x80,
        0xF0 | ((c >> 18) & 0x7) as u8 >= 0x80,
{
    assert(0xC0 | ((c >> 6) & 0x1F) as u8 >= 0x80) by (bit_vector);
    assert(0xE0 | ((c >> 12) & 0x0F) as u8 >= 0x80) by (bit_vector);
    assert(0xF0 | ((c >> 18) & 0x7) as u8 >= 0x80) by (bit_vector);
}

/// A character sequence whose UTF-8 encoding is all ASCII is made of the
/// characters that those bytes stand for.
pub proof fn lemma_ascii_encoding_chars(chars: Seq<char>)
    requires
        all_ascii(encode_utf8(chars)),
    ensures
        chars == ascii_chars(encode_utf8(chars)),
    decreases chars.len(),
{
    if chars.len() > 0 {
        let c0 = chars[0] as u32;
        let rest = chars.drop_first();
        let enc = encode_utf8(chars);
        assert(enc == encode_scalar(c0) + encode_utf8(rest));
        lemma_leading_bytes_not_ascii(c0);
        assert(enc[0] == encode_scalar(c0)[0]);
        assert(has_width_1_encoding(c0));
        assert(c0 as u8 == (c0 & 0x7F) as u8) by (bit_vector)
            requires
                c0 <= 0x7f,
        ;
        assert forall|i: int| 0 <= i < encode_utf8(rest).len() implies #[trigger] encode_utf8(
            rest,
        )[i] < 0x80 by {
            assert(encode_utf8(rest)[i] == enc[i + 1]);
        }
        lemma_ascii_encoding_chars(rest);
        char_u32_cast(chars[0], c0);
        assert(enc[0] == c0 as u8);
        assert((enc[0] as char) == chars[0]);
        assert forall|i: int| 0 <= i < chars.len() implies chars[i] == ascii_chars(enc)[i] by {
            if i > 0 {
                assert(chars[i] == rest[i - 1]);
                assert(rest[i - 1] == ascii_chars(encode_utf8(rest))[i - 1]);
                assert(enc[i] == encode_utf8(rest)[i - 1]);
            }
        }
        assert(chars =~= ascii_chars(enc));
    } else {
        assert(chars =~= ascii_chars(encode_utf8(chars)));
    }
}

/// Decodes `bytes` as UTF-8 (`std::str::from_utf8`).
///
/// The contract claims that the call succeeds exactly on the byte sequences
/// that are well-formed UTF-8 (no overlong encodings, no surrogates), and
/// that the string it returns is made of those very bytes.
#[verifier::external_body]
pub(crate) fn str_from_utf8(bytes: &[u8]) -> (r: Option<&str>)
    ensures
        r is Some <==> valid_utf8(bytes@),
        r matches Some(s) ==> s.spec_bytes() == bytes@,
{
    std::str::from_utf8(bytes).ok()
}

/// The string whose characters are the given ASCII bytes.
pub(crate) fn ascii_string(bytes: &[u8]) -> (s: String)
    requires
        all_ascii(bytes@),
    ensures
        s@ == ascii_chars(bytes@),
{
    proof {
        lemma_ascii_bytes_encode(bytes@);
    }
    match str_from_utf8(bytes) {
        Some(t) => {
            proof {
                lemma_ascii_encoding_chars(t@);
            }
            t.to_owned()
        },
        None => {
            proof {
                assert(false);
            }
            String::new()
        },
    }
}

// ---------------------------------------------------------------------------
// Strings as character sequences
// ---------------------------------------------------------------------------

/// The characters of `s`.
pub fn chars_of(s: &str) -> (r: Vec<char>)
    ensures
        r@ == s@,
{
    broadcast use vstd::string::axiom_spec_iter;

    let mut v: Vec<char> = Vec::new();
    for c in it: s.chars()
        invariant
            it.seq() == s@,
            v@ == it.seq().take(it.index() as int),
    {
        v.push(c);
        assert(v@ =~= it.seq().take(it.index() + 1));
    }
    assert(v@ =~= s@);
    v
}

/// Appends the UTF-8 encoding of `c` to `out`.
fn push_utf8(out: &mut Vec<u8>, c: char)
    ensures
        final(out)@ == old(out)@ + encode_scalar(c as u32),
{
    let v = c as u32;
    proof {
        char_is_scalar(c);
    }
    if v <= 0x7f {
        out.push((v & 0x7f) as u8);
    } else if v <= 0x7ff {
        out.push(0xc0 | ((v >> 6) & 0x1f) as u8);
        out.push(0x80 | (v & 0x3f) as u8);
    } else if v <= 0xffff {
        out.push(0xe0 | ((v >> 12) & 0x0f) as u8);
        out.push(0x80 | ((v >> 6) & 0x3f) as u8);
        out.push(0x80 | (v & 0x3f) as u8);
    } else {
        out.push(0xf0 | ((v >> 18) & 0x7) as u8);
        out.push(0x80 | ((v >> 12) & 0x3f) as u8);
        out.push(0x80 | ((v >> 6) & 0x3f) as u8);
        out.push(0x80 | (v & 0x3f) as u8);
    }
    assert(final(out)@ =~= old(out)@ + encode_scalar(v));
}

/// The string made of the characters `cs`.
pub fn string_from_chars(cs: &[char]) -> (r: String)
    ensures
        r@ == cs@,
{
    let mut bytes: Vec<u8> = Vec::new();
    let mut i: usize = 0;
    while i < cs.len()
        invariant
            i <= cs@.len(),
            bytes@ == encode_utf8(cs@.take(i as int)),
        decreases cs@.len() - i,
    {
        push_utf8(&mut bytes, cs[i]);
        proof {
            lemma_encode_utf8_push(cs@.take(i as int), cs@[i as int]);
            assert(cs@.take(i + 1) =~= cs@.take(i as int).push(cs@[i as int]));
        }
        i = i + 1;
    }
    assert(cs@.take(i as int) =~= cs@);
    proof {
        encode_utf8_valid_utf8(cs@);
    }
    match str_from_utf8(bytes.as_slice()) {
        Some(s) => {
            proof {
                encode_utf8_decode_utf8(cs@);
                encode_utf8_decode_utf8(s@);
            }
            s.to_owned()
        },
        None => {
            proof {
                assert(false);
            }
            String::new()
        },
    }
}

/// Encoding one more character appends its encoding.
pub proof fn lemma_encode_utf8_push(cs: Seq<char>, c: char)
    ensures
        encode_utf8(cs.push(c)) == encode_utf8(cs) + encode_scalar(c as u32),
    decreases cs.len(),
{
    if cs.len() == 0 {
        assert(cs.push(c).drop_first() =~= Seq::<char>::empty());
        assert(encode_utf8(cs.push(c).drop_first()) =~= Seq::<u8>::empty());
        assert(encode_utf8(cs) =~= Seq::<u8>::empty());
        assert(encode_utf8(cs.push(c)) =~= encode_utf8(cs) + encode_scalar(c as u32));
    } else {
        lemma_encode_utf8_push(cs.drop_first(), c);
        assert(cs.push(c).drop_first() =~= cs.drop_first().push(c));
        assert(encode_utf8(cs.push(c)) =~= encode_utf8(cs) + encode_scalar(c as u32));
    }
}

// ---------------------------------------------------------------------------
// ASCII case folding
// ---------------------------------------------------------------------------

/// `c` with ASCII lowercase letters mapped to uppercase (other characters
/// unchanged), as `char::to_ascii_uppercase` does.
pub open spec fn ascii_upper_char(c: char) -> char {
    if 'a' <= c <= 'z' {
        ((c as u32) - 32) as char
    } else {
        c
    }
}

/// `s` with ASCII lowercase letters mapped to uppercase, as
/// `str::to_ascii_uppercase` does.
pub open spec fn ascii_upper(s: Seq<char>) -> Seq<char> {
    Seq::new(s.len(), |i: int| ascii_upper_char(s[i]))
}

fn upper_code(c: char) -> (r: u32)
    ensures
        r == ascii_upper_char(c) as u32,
{
    let v = c as u32;
    if 97 <= v && v <= 122 {
        v - 32
    } else {
        v
    }
}

/// Whether `a` and `b` are equal once ASCII letters are uppercased.
pub fn eq_ignore_ascii_case(a: &str, b: &str) -> (r: bool)
    ensures
        r == (ascii_upper(a@) == ascii_upper(b@)),
{
    let ca = chars_of(a);
    let cb = chars_of(b);
    if ca.len() != cb.len() {
        proof {
            assert(ascii_upper(a@).len() != ascii_upper(b@).len());
        }
        return false;
    }
    let mut i: usize = 0;
    while i < ca.len()
        invariant
            ca@ == a@,
            cb@ == b@,
            ca@.len() == cb@.len(),
            i <= ca@.len(),
            forall|j: int| 0 <= j < i ==> ascii_upper(a@)[j] == ascii_upper(b@)[j],
        decreases ca@.len() - i,
    {
        let x = ca[i];
        let y = cb[i];
        if upper_code(x) != upper_code(y) {
            proof {
                assert(ascii_upper(a@)[i as int] != ascii_upper(b@)[i as int]);
            }
            return false;
        }
        proof {
            let ux = ascii_upper_char(x);
            let uy = ascii_upper_char(y);
            char_u32_cast(ux, ux as u32);
            char_u32_cast(uy, uy as u32);
            assert(ux == uy);
        }
        i = i + 1;
    }
    assert(ascii_upper(a@) =~= ascii_upper(b@));
    true
}

/// `s` has no ASCII lowercase letter.
pub open spec fn has_no_lower(s: Seq<char>) -> bool {
    forall|i: int| 0 <= i < s.len() ==> !('a' <= #[trigger] s[i] <= 'z')
}

/// Uppercasing leaves a sequence without lowercase letters unchanged.
pub proof fn lemma_upper_fixed(s: Seq<char>)
    requires
        has_no_lower(s),
    ensures
        ascii_upper(s) == s,
{
    assert(ascii_upper(s) =~= s);
}

// ---------------------------------------------------------------------------
// Decimal numerals
// ---------------------------------------------------------------------------

/// The shortest decimal numeral of `n`, as ASCII digits.
pub open spec fn decimal(n: nat) -> Seq<u8>
    decreases n,
{
    if n < 10 {
        seq![(0x30 + n) as u8]
    } else {
        decimal(n / 10).push((0x30 + n % 10) as u8)
    }
}

/// Every byte of `s` is an ASCII digit.
pub open spec fn all_digits(s: Seq<u8>) -> bool {
    forall|i: int| 0 <= i < s.len() ==> 0x30 <= #[trigger] s[i] <= 0x39
}

/// The value of the decimal digits `s`.
pub open spec fn digits_value(s: Seq<u8>) -> nat
    decreases s.len(),
{
    if s.len() == 0 {
        0
    } else {
        digits_value(s.drop_last()) * 10 + (s.last() - 0x30) as nat
    }
}

/// `s` without a leading `"+"`, if it has one.
pub open spec fn unsigned_part(s: Seq<u8>) -> Seq<u8> {
    if s.len() > 0 && s[0] == 0x2b {
        s.drop_first()
    } else {
        s
    }
}

/// The outcome of parsing `s` as a `u16` the way `u16::from_str` does: an
/// optional `"+"` followed by at least one decimal digit and nothing else,
/// with a value that fits in 16 bits.
pub open spec fn parse_u16(s: Seq<u8>) -> Option<u16> {
    let d = unsigned_part(s);
    if d.len() > 0 && all_digits(d) && digits_value(d) <= 0xffff {
        Some(digits_value(d) as u16)
    } else {
        None
    }
}

/// The numeral of a number is made of digits, starts with a digit and has
/// that number as its value.
pub proof fn lemma_decimal(n: nat)
    ensures
        decimal(n).len() >= 1,
        all_digits(decimal(n)),
        all_ascii(decimal(n)),
        digits_value(decimal(n)) == n,
    decreases n,
{
    if n >= 10 {
        lemma_decimal(n / 10);
        let d = decimal(n);
        assert(d.drop_last() =~= decimal(n / 10));
        assert(d.last() == (0x30 + n % 10) as u8);
        assert(digits_value(d) == digits_value(d.drop_last()) * 10 + (d.last() - 0x30) as nat);
        assert((n / 10) * 10 + n % 10 == n);
    } else {
        let d = decimal(n);
        assert(d.drop_last() =~= Seq::<u8>::empty());
        assert(digits_value(d.drop_last()) == 0);
        assert(digits_value(d) == digits_value(d.drop_last()) * 10 + (d.last() - 0x30) as nat);
    }
}

/// Parsing a prefix of digits never gives more than parsing all of them.
pub proof fn lemma_digits_value_prefix(d: Seq<u8>, i: int)
    requires
        0 <= i <= d.len(),
        all_digits(d),
    ensures
        digits_value(d.take(i)) <= digits_value(d),
    decreases d.len(),
{
    if i < d.len() {
        let p = d.drop_last();
        assert(d.take(i) =~= p.take(i));
        lemma_digits_value_prefix(p, i);
    } else {
        assert(d.take(i) =~= d);
    }
}

/// Appends the decimal numeral of `n` to `out`.
pub fn push_decimal(out: &mut Vec<u8>, n: u64)
    ensures
        final(out)@ == old(out)@ + decimal(n as nat),
    decreases n,
{
    if n < 10 {
        out.push((0x30 + n) as u8);
        assert(old(out)@ + decimal(n as nat) =~= old(out)@.push((0x30 + n) as u8));
    } else {
        push_decimal(out, n / 10);
        out.push((0x30 + n % 10) as u8);
        assert(old(out)@ + decimal(n as nat) =~= old(out)@ + decimal((n / 10) as nat) + seq![
            (0x30 + n % 10) as u8,
        ]);
    }
}

/// Parses `s` as a `u16` the way `u16::from_str` does.
pub fn parse_u16_exec(s: &[u8]) -> (r: Option<u16>)
    ensures
        r == parse_u16(s@),
{
    let ghost d = unsigned_part(s@);
    let start: usize = if s.len() > 0 && s[0] == 0x2b {
        1
    } else {
        0
    };
    assert(d =~= s@.subrange(start as int, s@.len() as int));
    if start == s.len() {
        return None;
    }
    let mut acc: u32 = 0;
    let mut i: usize = start;
    while i < s.len()
        invariant
            start <= i <= s@.len(),
            d == s@.subrange(start as int, s@.len() as int),
            d == unsigned_part(s@),
            d.len() > 0,
            all_digits(d.take(i - start)),
            acc as nat == digits_value(d.take(i - start)),
            acc <= 0xffff,
        decreases s@.len() - i,
    {
        let b = s[i];
        let ghost k = i - start;
        assert(d[k] == b);
        if b < 0x30 || b > 0x39 {
            assert(!(0x30 <= d[k] <= 0x39));
            return None;
        }
        let ghost t = d.take(k + 1);
        assert(t.drop_last() =~= d.take(k));
        assert(t.last() == b);
        let next: u32 = acc * 10 + (b - 0x30) as u32;
        assert(digits_value(t) == digits_value(t.drop_last()) * 10 + (t.last() - 0x30) as nat);
        assert(next as nat == digits_value(t));
        assert(all_digits(t)) by {
            assert forall|j: int| 0 <= j < t.len() implies 0x30 <= #[trigger] t[j] <= 0x39 by {
                if j < k {
                    assert(t[j] == d.take(k)[j]);
                }
            }
        }
        if next > 0xffff {
            proof {
                if all_digits(d) {
                    lemma_digits_value_prefix(d, k + 1);
                }
            }
            return None;
        }
        acc = next;
        i = i + 1;
    }
    assert(d.take(i - start) =~= d);
    Some(acc as u16)
}

/// The string of the decimal numeral of `n`.
pub fn decimal_string(n: u64) -> (s: String)
    ensures
        s@ == ascii_chars(decimal(n as nat)),
{
    let mut out: Vec<u8> = Vec::new();
    push_decimal(&mut out, n);
    proof {
        assert(out@ =~= decimal(n as nat));
        lemma_decimal(n as nat);
    }
    ascii_string(out.as_slice())
}

// ---------------------------------------------------------------------------
// Hexadecimal numerals
// ---------------------------------------------------------------------------

/// The lowercase hexadecimal digit of `d` (below 16).
pub open spec fn hex_char(d: nat) -> u8 {
    if d < 10 {
        (0x30 + d) as u8
    } else {
        (0x61 + d - 10) as u8
    }
}

/// The shortest lowercase hexadecimal numeral of `n`.
pub open spec fn hex_numeral(n: nat) -> Seq<u8>
    decreases n,
{
    if n < 16 {
        seq![hex_char(n)]
    } else {
        hex_numeral(n / 16).push(hex_char(n % 16))
    }
}

/// A hexadecimal numeral is ASCII.
pub proof fn lemma_hex_numeral_ascii(n: nat)
    ensures
        all_ascii(hex_numeral(n)),
        hex_numeral(n).len() >= 1,
    decreases n,
{
    if n >= 16 {
        lemma_hex_numeral_ascii(n / 16);
    }
}

/// Appends the lowercase hexadecimal numeral of `n` to `out`.
pub fn push_hex(out: &mut Vec<u8>, n: u16)
    ensures
        final(out)@ == old(out)@ + hex_numeral(n as nat),
    decreases n,
{
    if n < 16 {
        let d: u8 = if n < 10 {
            0x30 + n as u8
        } else {
            0x61 + (n as u8 - 10)
        };
        out.push(d);
        assert(old(out)@ + hex_numeral(n as nat) =~= old(out)@.push(d));
    } else {
        push_hex(out, n / 16);
        let m = n % 16;
        let d: u8 = if m < 10 {
            0x30 + m as u8
        } else {
            0x61 + (m as u8 - 10)
        };
        out.push(d);
        assert(old(out)@ + hex_numeral(n as nat) =~= old(out)@ + hex_numeral((n / 16) as nat)
            + seq![d]);
    }
}

} // verus!
