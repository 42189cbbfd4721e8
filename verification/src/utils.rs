//! Functions that may come in handy.

pub mod indicators;

use vstd::prelude::*;

use crate::ascii::{ascii_chars, ascii_string, chars_of, string_from_chars};

verus! {

// ---------------------------------------------------------------------------
// Printable form of byte strings
// ---------------------------------------------------------------------------

/// The lowercase hexadecimal digit of `n` (below 16).
pub open spec fn hex_digit(n: u8) -> u8 {
    if n < 10 {
        (0x30 + n) as u8
    } else {
        (0x61 + n - 10) as u8
    }
}

/// The printable form of one byte: `\t`, `\n`, `\r`, `\"` and `\\` for
/// those five bytes, the byte itself for the other printable ASCII bytes,
/// and `\xNN` (two lowercase hex digits) for all other bytes.
pub open spec fn escape_byte(b: u8) -> Seq<u8> {
    if b == 0x09 {
        seq![0x5cu8, 0x74u8]
    } else if b == 0x0a {
        seq![0x5cu8, 0x6eu8]
    } else if b == 0x0d {
        seq![0x5cu8, 0x72u8]
    } else if b == 0x22 {
        seq![0x5cu8, 0x22u8]
    } else if b == 0x5c {
        seq![0x5cu8, 0x5cu8]
    } else if 0x20 <= b <= 0x7e {
        seq![b]
    } else {
        seq![0x5cu8, 0x78u8, hex_digit(b / 16), hex_digit(b % 16)]
    }
}

/// The printable form of the bytes `s`: the forms of its bytes, one after
/// the other.
pub open spec fn escape_bytes(s: Seq<u8>) -> Seq<u8>
    decreases s.len(),
{
    if s.len() == 0 {
        Seq::empty()
    } else {
        escape_bytes(s.drop_last()) + escape_byte(s.last())
    }
}

/// Every byte of `s` is printable ASCII (`%x20-7E`).
pub open spec fn all_printable(s: Seq<u8>) -> bool {
    forall|i: int| 0 <= i < s.len() ==> 0x20 <= #[trigger] s[i] <= 0x7e
}

proof fn lemma_escape_byte_printable(b: u8)
    ensures
        all_printable(escape_byte(b)),
{
    assert(b / 16 < 16 && b % 16 < 16);
}

fn hex_digit_exec(n: u8) -> (r: u8)
    requires
        n < 16,
    ensures
        r == hex_digit(n),
{
    if n < 10 {
        0x30 + n
    } else {
        0x61 + n - 10
    }
}

/// Converts bytes into a ready-to-be-printed form.
pub fn escape_byte_string(bytes: &[u8]) -> (r: String)
    ensures
        r@ == ascii_chars(escape_bytes(bytes@)),
        all_printable(escape_bytes(bytes@)),
{
    let mut out: Vec<u8> = Vec::new();
    let mut i: usize = 0;
    while i < bytes.len()
        invariant
            i <= bytes@.len(),
            out@ == escape_bytes(bytes@.take(i as int)),
            all_printable(out@),
        decreases bytes@.len() - i,
    {
        let b = bytes[i];
        let ghost before = out@;
        if b == 0x09 {
            out.push(0x5c);
            out.push(0x74);
        } else if b == 0x0a {
            out.push(0x5c);
            out.push(0x6e);
        } else if b == 0x0d {
            out.push(0x5c);
            out.push(0x72);
        } else if b == 0x22 {
            out.push(0x5c);
            out.push(0x22);
        } else if b == 0x5c {
            out.push(0x5c);
            out.push(0x5c);
        } else if 0x20 <= b && b <= 0x7e {
            out.push(b);
        } else {
            out.push(0x5c);
            out.push(0x78);
            out.push(hex_digit_exec(b / 16));
            out.push(hex_digit_exec(b % 16));
        }
        proof {
            assert(out@ =~= before + escape_byte(b));
            let t = bytes@.take(i + 1);
            assert(t.drop_last() =~= bytes@.take(i as int));
            assert(t.last() == b);
            lemma_escape_byte_printable(b);
            assert forall|j: int| 0 <= j < out@.len() implies 0x20 <= #[trigger] out@[j] <= 0x7e by {
                if j >= before.len() {
                    assert(out@[j] == escape_byte(b)[j - before.len()]);
                }
            }
        }
        i = i + 1;
    }
    assert(bytes@.take(i as int) =~= bytes@);
    ascii_string(out.as_slice())
}

// ---------------------------------------------------------------------------
// Quoting
// ---------------------------------------------------------------------------

/// `s` with every `c` replaced by `rep`, as `str::replace` with a character
/// pattern does.
pub open spec fn replace_char(s: Seq<char>, c: char, rep: Seq<char>) -> Seq<char>
    decreases s.len(),
{
    if s.len() == 0 {
        Seq::empty()
    } else {
        (if s[0] == c {
            rep
        } else {
            seq![s[0]]
        }) + replace_char(s.drop_first(), c, rep)
    }
}

/// `s` with every occurrence of the two characters `a` `b` replaced by `r`,
/// as `str::replace` does: occurrences are found from the left and do not
/// overlap.
pub open spec fn replace_pair(s: Seq<char>, a: char, b: char, r: char) -> Seq<char>
    decreases s.len(),
{
    if s.len() < 2 {
        s
    } else if s[0] == a && s[1] == b {
        seq![r] + replace_pair(s.skip(2), a, b, r)
    } else {
        seq![s[0]] + replace_pair(s.drop_first(), a, b, r)
    }
}

/// The result of [`escape_quoted`]: backslashes doubled, then double quotes
/// preceded by a backslash.
pub open spec fn spec_escape_quoted(s: Seq<char>) -> Seq<char> {
    replace_char(replace_char(s, '\\', seq!['\\', '\\']), '"', seq!['\\', '"'])
}

/// The result of [`unescape_quoted`]: pairs of backslashes collapsed, then
/// escaped double quotes unescaped.
pub open spec fn spec_unescape_quoted(s: Seq<char>) -> Seq<char> {
    replace_pair(replace_pair(s, '\\', '\\', '\\'), '\\', '"', '"')
}

fn replace_char_exec(s: &Vec<char>, c: char, x: char, y: char) -> (r: Vec<char>)
    ensures
        r@ == replace_char(s@, c, seq![x, y]),
{
    let mut out: Vec<char> = Vec::new();
    let mut i: usize = 0;
    assert(s@.skip(0) =~= s@);
    while i < s.len()
        invariant
            i <= s@.len(),
            out@ + replace_char(s@.skip(i as int), c, seq![x, y]) == replace_char(
                s@,
                c,
                seq![x, y],
            ),
        decreases s@.len() - i,
    {
        let ghost before = out@;
        let ghost rest = s@.skip(i as int);
        assert(rest[0] == s@[i as int]);
        assert(rest.drop_first() =~= s@.skip(i + 1));
        if s[i] == c {
            out.push(x);
            out.push(y);
            assert(out@ =~= before + seq![x, y]);
        } else {
            out.push(s[i]);
            assert(out@ =~= before + seq![s@[i as int]]);
        }
        assert(out@ + replace_char(s@.skip(i + 1), c, seq![x, y]) =~= before + replace_char(
            rest,
            c,
            seq![x, y],
        ));
        i = i + 1;
    }
    assert(out@ + replace_char(s@.skip(i as int), c, seq![x, y]) =~= out@);
    out
}

fn replace_pair_exec(s: &Vec<char>, a: char, b: char, r: char) -> (res: Vec<char>)
    ensures
        res@ == replace_pair(s@, a, b, r),
{
    let mut out: Vec<char> = Vec::new();
    let mut i: usize = 0;
    assert(s@.skip(0) =~= s@);
    while i < s.len()
        invariant
            i <= s@.len(),
            out@ + replace_pair(s@.skip(i as int), a, b, r) == replace_pair(s@, a, b, r),
        decreases s@.len() - i,
    {
        let ghost before = out@;
        let ghost rest = s@.skip(i as int);
        assert(rest[0] == s@[i as int]);
        if i + 1 < s.len() && s[i] == a && s[i + 1] == b {
            assert(rest[1] == s@[i + 1]);
            assert(rest.skip(2) =~= s@.skip(i + 2));
            out.push(r);
            assert(out@ + replace_pair(s@.skip(i + 2), a, b, r) =~= before + replace_pair(
                rest,
                a,
                b,
                r,
            ));
            i = i + 2;
        } else {
            if i + 1 < s.len() {
                assert(rest[1] == s@[i + 1]);
            }
            assert(rest.drop_first() =~= s@.skip(i + 1));
            out.push(s[i]);
            proof {
                if rest.len() < 2 {
                    assert(s@.skip(i + 1) =~= Seq::<char>::empty());
                    assert(rest =~= seq![s@[i as int]]);
                }
            }
            assert(out@ + replace_pair(s@.skip(i + 1), a, b, r) =~= before + replace_pair(
                rest,
                a,
                b,
                r,
            ));
            i = i + 1;
        }
    }
    assert(out@ + replace_pair(s@.skip(i as int), a, b, r) =~= out@);
    out
}

/// Escapes backslashes and double quotes with a backslash.
pub fn escape_quoted(unescaped: &str) -> (r: String)
    ensures
        r@ == spec_escape_quoted(unescaped@),
{
    let cs = chars_of(unescaped);
    let once = replace_char_exec(&cs, '\\', '\\', '\\');
    let twice = replace_char_exec(&once, '"', '\\', '"');
    string_from_chars(twice.as_slice())
}

/// Undoes the escaping of backslashes and double quotes.
pub fn unescape_quoted(escaped: &str) -> (r: String)
    ensures
        r@ == spec_unescape_quoted(escaped@),
{
    let cs = chars_of(escaped);
    let once = replace_pair_exec(&cs, '\\', '\\', '\\');
    let twice = replace_pair_exec(&once, '\\', '"', '"');
    string_from_chars(twice.as_slice())
}

// ---------------------------------------------------------------------------
// Unescaping undoes escaping
// ---------------------------------------------------------------------------

/// `s` with each double quote preceded by a backslash.
spec fn quote_escaped(s: Seq<char>) -> Seq<char>
    decreases s.len(),
{
    if s.len() == 0 {
        Seq::empty()
    } else {
        (if s[0] == '"' {
            seq!['\\', '"']
        } else {
            seq![s[0]]
        }) + quote_escaped(s.drop_first())
    }
}

proof fn lemma_quote_escaped_first(s: Seq<char>)
    requires
        s.len() > 0,
    ensures
        quote_escaped(s).len() > 0,
        quote_escaped(s)[0] != '"',
{
}

/// `s` with backslashes and double quotes each preceded by a backslash.
spec fn escape_each(s: Seq<char>) -> Seq<char>
    decreases s.len(),
{
    if s.len() == 0 {
        Seq::empty()
    } else {
        (if s[0] == '\\' {
            seq!['\\', '\\']
        } else if s[0] == '"' {
            seq!['\\', '"']
        } else {
            seq![s[0]]
        }) + escape_each(s.drop_first())
    }
}

proof fn lemma_replace_char_concat(a: Seq<char>, b: Seq<char>, c: char, rep: Seq<char>)
    ensures
        replace_char(a + b, c, rep) == replace_char(a, c, rep) + replace_char(b, c, rep),
    decreases a.len(),
{
    if a.len() == 0 {
        assert(a + b =~= b);
        assert(replace_char(a, c, rep) =~= Seq::<char>::empty());
        assert(replace_char(a, c, rep) + replace_char(b, c, rep) =~= replace_char(b, c, rep));
    } else {
        lemma_replace_char_concat(a.drop_first(), b, c, rep);
        assert((a + b).drop_first() =~= a.drop_first() + b);
        assert((a + b)[0] == a[0]);
        let head = if a[0] == c {
            rep
        } else {
            seq![a[0]]
        };
        assert(replace_char(a + b, c, rep) =~= head + (replace_char(a.drop_first(), c, rep)
            + replace_char(b, c, rep)));
    }
}

proof fn lemma_replace_char_pair(x: char, y: char, c: char, rep: Seq<char>)
    requires
        x != c,
        y != c,
    ensures
        replace_char(seq![x, y], c, rep) == seq![x, y],
{
    let s = seq![x, y];
    assert(s.drop_first() =~= seq![y]);
    lemma_replace_char_single(y, c, rep);
    assert(replace_char(s, c, rep) =~= seq![x, y]);
}

proof fn lemma_replace_char_single(x: char, c: char, rep: Seq<char>)
    ensures
        replace_char(seq![x], c, rep) == if x == c {
            rep
        } else {
            seq![x]
        },
{
    let s = seq![x];
    assert(s.drop_first() =~= Seq::<char>::empty());
    assert(replace_char(s.drop_first(), c, rep) =~= Seq::<char>::empty());
    assert(replace_char(s, c, rep) =~= (if x == c {
        rep
    } else {
        seq![x]
    }));
}

/// Escaping with the two replacements escapes each character on its own.
proof fn lemma_escape_quoted_each(s: Seq<char>)
    ensures
        spec_escape_quoted(s) == escape_each(s),
    decreases s.len(),
{
    let bs = seq!['\\', '\\'];
    let qs = seq!['\\', '"'];
    if s.len() > 0 {
        let rest = s.drop_first();
        lemma_escape_quoted_each(rest);
        let head = if s[0] == '\\' {
            bs
        } else {
            seq![s[0]]
        };
        assert(replace_char(s, '\\', bs) == head + replace_char(rest, '\\', bs));
        lemma_replace_char_concat(head, replace_char(rest, '\\', bs), '"', qs);
        if s[0] == '\\' {
            lemma_replace_char_pair('\\', '\\', '"', qs);
        } else {
            lemma_replace_char_single(s[0], '"', qs);
        }
    } else {
        assert(spec_escape_quoted(s) =~= escape_each(s));
    }
}

/// Collapsing doubled backslashes in an escaped string leaves only the
/// escaped double quotes.
proof fn lemma_collapse_backslashes(s: Seq<char>)
    ensures
        replace_pair(escape_each(s), '\\', '\\', '\\') == quote_escaped(s),
    decreases s.len(),
{
    if s.len() > 0 {
        let rest = s.drop_first();
        let e = escape_each(s);
        let er = escape_each(rest);
        lemma_collapse_backslashes(rest);
        if s[0] == '\\' {
            assert(e == seq!['\\', '\\'] + er);
            assert(e.skip(2) =~= er);
            assert(replace_pair(e, '\\', '\\', '\\') =~= seq!['\\'] + quote_escaped(rest));
        } else if s[0] == '"' {
            assert(e == seq!['\\', '"'] + er);
            let t = e.drop_first();
            assert(t =~= seq!['"'] + er);
            assert(e[1] == '"');
            assert(replace_pair(e, '\\', '\\', '\\') == seq!['\\'] + replace_pair(
                t,
                '\\',
                '\\',
                '\\',
            ));
            if er.len() == 0 {
                assert(replace_pair(t, '\\', '\\', '\\') == t);
                assert(quote_escaped(rest) =~= Seq::<char>::empty());
                assert(t =~= seq!['"']);
            } else {
                assert(t.drop_first() =~= er);
                assert(t[0] == '"');
                assert(replace_pair(t, '\\', '\\', '\\') == seq!['"'] + replace_pair(
                    er,
                    '\\',
                    '\\',
                    '\\',
                ));
            }
            assert(replace_pair(e, '\\', '\\', '\\') =~= seq!['\\', '"'] + quote_escaped(rest));
        } else {
            assert(e == seq![s[0]] + er);
            if er.len() == 0 {
                assert(quote_escaped(rest) =~= Seq::<char>::empty());
                assert(replace_pair(e, '\\', '\\', '\\') =~= seq![s[0]]);
            } else {
                assert(e.drop_first() =~= er);
            }
            assert(replace_pair(e, '\\', '\\', '\\') =~= seq![s[0]] + quote_escaped(rest));
        }
    } else {
        assert(escape_each(s) =~= Seq::<char>::empty());
    }
}

/// Unescaping the double quotes of `quote_escaped(s)` gives `s` back.
proof fn lemma_unescape_quotes(s: Seq<char>)
    ensures
        replace_pair(quote_escaped(s), '\\', '"', '"') == s,
    decreases s.len(),
{
    if s.len() > 0 {
        let rest = s.drop_first();
        let q = quote_escaped(s);
        let qr = quote_escaped(rest);
        lemma_unescape_quotes(rest);
        if s[0] == '"' {
            assert(q == seq!['\\', '"'] + qr);
            assert(q.skip(2) =~= qr);
            assert(replace_pair(q, '\\', '"', '"') =~= s);
        } else {
            assert(q == seq![s[0]] + qr);
            if rest.len() == 0 {
                assert(qr =~= Seq::<char>::empty());
                assert(replace_pair(q, '\\', '"', '"') =~= s);
            } else {
                lemma_quote_escaped_first(rest);
                assert(q[1] == qr[0]);
                assert(q.drop_first() =~= qr);
                assert(replace_pair(q, '\\', '"', '"') =~= s);
            }
        }
    } else {
        assert(quote_escaped(s) =~= Seq::<char>::empty());
    }
}

/// Unescaping undoes escaping: `unescape_quoted(escape_quoted(s)) == s` for
/// every string `s`.
pub proof fn law_unescape_escape(s: Seq<char>)
    ensures
        spec_unescape_quoted(spec_escape_quoted(s)) == s,
{
    lemma_escape_quoted_each(s);
    lemma_collapse_backslashes(s);
    lemma_unescape_quotes(s);
}

} // verus!
