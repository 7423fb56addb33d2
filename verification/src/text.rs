//! Verified text-building primitives for the exposition format: decimal
//! rendering of integers, escaping of help text and label values, and the
//! lexicographic order on names used by the registry.
use vstd::prelude::*;

verus! {

use vstd::string::StrSliceExecFns;

/// Relies on std's String::push: appends exactly the one character.
pub assume_specification[ String::push ](s: &mut String, c: char)
    ensures
        final(s)@ == old(s)@.push(c),
;

/// The decimal digit character for a value in 0..=9.
pub open spec fn digit_char(d: int) -> char {
    (48 + d) as char
}

/// The decimal representation of a non-negative integer, most significant
/// digit first, with no leading zeros (a single '0' for zero).
pub open spec fn dec_str(n: int) -> Seq<char>
    recommends
        n >= 0,
    decreases n,
{
    if n <= 9 {
        seq![digit_char(n)]
    } else {
        dec_str(n / 10).push(digit_char(n % 10))
    }
}

/// The decimal representation of a signed integer: a leading '-' for
/// negative values, then the digits of the magnitude.
pub open spec fn int_str(n: int) -> Seq<char> {
    if n < 0 {
        seq!['-'] + dec_str(-n)
    } else {
        dec_str(n)
    }
}

fn push_digit(buf: &mut String, d: u64)
    requires
        d <= 9,
    ensures
        final(buf)@ == old(buf)@.push(digit_char(d as int)),
{
    let c = (48 + d as u8) as char;
    proof {
        assert(c == digit_char(d as int));
    }
    buf.push(c);
}

/// Appends the decimal digits of `x` to `buf`.
pub fn push_u64(buf: &mut String, x: u64)
    ensures
        final(buf)@ == old(buf)@ + dec_str(x as int),
    decreases x,
{
    if x <= 9 {
        push_digit(buf, x);
        proof {
            assert(final(buf)@ =~= old(buf)@ + dec_str(x as int));
        }
    } else {
        let ghost pre = buf@;
        push_u64(buf, x / 10);
        push_digit(buf, x % 10);
        proof {
            assert(final(buf)@ =~= pre + dec_str(x as int));
        }
    }
}

/// Appends the decimal form of `x`, with a '-' sign when negative.
pub fn push_i64(buf: &mut String, x: i64)
    ensures
        final(buf)@ == old(buf)@ + int_str(x as int),
{
    if x >= 0 {
        push_u64(buf, x as u64);
    } else {
        let ghost pre = buf@;
        buf.push('-');
        let m: u64 = if x == i64::MIN {
            9223372036854775808u64
        } else {
            (-x) as u64
        };
        proof {
            assert(m as int == -(x as int));
        }
        push_u64(buf, m);
        proof {
            assert(final(buf)@ =~= pre + int_str(x as int));
        }
    }
}

/// Applies `f` to each element in order and concatenates the pieces.
pub open spec fn concat_map(f: spec_fn(char) -> Seq<char>, s: Seq<char>) -> Seq<char>
    decreases s.len(),
{
    if s.len() == 0 {
        Seq::empty()
    } else {
        f(s[0]) + concat_map(f, s.skip(1))
    }
}

pub proof fn lemma_concat_map_snoc(f: spec_fn(char) -> Seq<char>, s: Seq<char>, c: char)
    ensures
        concat_map(f, s.push(c)) == concat_map(f, s) + f(c),
    decreases s.len(),
{
    if s.len() == 0 {
        assert(s.push(c).skip(1) =~= Seq::<char>::empty());
        assert(concat_map(f, s.push(c)) == f(c) + concat_map(f, Seq::<char>::empty()));
        assert(concat_map(f, s.push(c)) =~= concat_map(f, s) + f(c));
    } else {
        assert(s.push(c).skip(1) =~= s.skip(1).push(c));
        lemma_concat_map_snoc(f, s.skip(1), c);
        assert(s.push(c)[0] == s[0]);
        assert(concat_map(f, s.push(c)) == f(s[0]) + (concat_map(f, s.skip(1)) + f(c)));
        assert(concat_map(f, s) + f(c) == (f(s[0]) + concat_map(f, s.skip(1))) + f(c));
        assert(f(s[0]) + (concat_map(f, s.skip(1)) + f(c)) =~= (f(s[0]) + concat_map(f, s.skip(1)))
            + f(c));
    }
}

/// How one character of a quoted label value is escaped: backslash, double
/// quote and newline get a backslash escape; everything else is itself.
pub open spec fn escape_value_char(c: char) -> Seq<char> {
    if c == '\\' {
        seq!['\\', '\\']
    } else if c == '"' {
        seq!['\\', '"']
    } else if c == '\n' {
        seq!['\\', 'n']
    } else {
        seq![c]
    }
}

/// A label value as it appears between double quotes.
pub open spec fn escape_value(s: Seq<char>) -> Seq<char> {
    concat_map(|c: char| escape_value_char(c), s)
}

/// How one character of help text is escaped: backslash and newline only.
pub open spec fn escape_help_char(c: char) -> Seq<char> {
    if c == '\\' {
        seq!['\\', '\\']
    } else if c == '\n' {
        seq!['\\', 'n']
    } else {
        seq![c]
    }
}

/// Help text with backslashes and newlines escaped.
pub open spec fn escape_help(s: Seq<char>) -> Seq<char> {
    concat_map(|c: char| escape_help_char(c), s)
}

/// Appends the label value `s` escaped (without the surrounding quotes).
pub fn push_escaped_value(buf: &mut String, s: &str)
    ensures
        final(buf)@ == old(buf)@ + escape_value(s@),
{
    let ghost pre = buf@;
    let n = s.unicode_len();
    let mut i: usize = 0;
    proof {
        assert(s@.take(0) =~= Seq::<char>::empty());
        assert(buf@ =~= pre + escape_value(s@.take(0)));
    }
    while i < n
        invariant
            i <= n,
            n == s@.len(),
            buf@ == pre + escape_value(s@.take(i as int)),
        decreases n - i,
    {
        let c = s.get_char(i);
        if c == '\\' {
            buf.push('\\');
            buf.push('\\');
        } else if c == '"' {
            buf.push('\\');
            buf.push('"');
        } else if c == '\n' {
            buf.push('\\');
            buf.push('n');
        } else {
            buf.push(c);
        }
        proof {
            lemma_concat_map_snoc(|ch: char| escape_value_char(ch), s@.take(i as int), c);
            assert(s@.take(i as int).push(c) =~= s@.take(i + 1));
            assert(buf@ =~= pre + escape_value(s@.take(i + 1)));
        }
        i = i + 1;
    }
    proof {
        assert(s@.take(n as int) =~= s@);
    }
}

/// Returns the help text with backslashes and newlines escaped.
pub fn escaped_help(s: &str) -> (r: String)
    ensures
        r@ == escape_help(s@),
{
    let mut buf = String::new();
    let n = s.unicode_len();
    let mut i: usize = 0;
    proof {
        assert(s@.take(0) =~= Seq::<char>::empty());
        assert(buf@ =~= escape_help(s@.take(0)));
    }
    while i < n
        invariant
            i <= n,
            n == s@.len(),
            buf@ == escape_help(s@.take(i as int)),
        decreases n - i,
    {
        let c = s.get_char(i);
        if c == '\\' {
            buf.push('\\');
            buf.push('\\');
        } else if c == '\n' {
            buf.push('\\');
            buf.push('n');
        } else {
            buf.push(c);
        }
        proof {
            lemma_concat_map_snoc(|ch: char| escape_help_char(ch), s@.take(i as int), c);
            assert(s@.take(i as int).push(c) =~= s@.take(i + 1));
            assert(buf@ =~= escape_help(s@.take(i + 1)));
        }
        i = i + 1;
    }
    proof {
        assert(s@.take(n as int) =~= s@);
    }
    buf
}

/// Lexicographic order on character sequences by code point, with a prefix
/// ordered before every extension of it.
pub open spec fn lex_le(a: Seq<char>, b: Seq<char>) -> bool
    decreases a.len(),
{
    if a.len() == 0 {
        true
    } else if b.len() == 0 {
        false
    } else if a[0] == b[0] {
        lex_le(a.skip(1), b.skip(1))
    } else {
        (a[0] as int) < (b[0] as int)
    }
}

pub proof fn lemma_lex_le_total(a: Seq<char>, b: Seq<char>)
    ensures
        lex_le(a, b) || lex_le(b, a),
    decreases a.len(),
{
    if a.len() == 0 || b.len() == 0 {
    } else if a[0] == b[0] {
        lemma_lex_le_total(a.skip(1), b.skip(1));
    } else {
        assert(a[0] as int != b[0] as int);
    }
}

pub proof fn lemma_lex_le_trans(a: Seq<char>, b: Seq<char>, c: Seq<char>)
    requires
        lex_le(a, b),
        lex_le(b, c),
    ensures
        lex_le(a, c),
    decreases a.len(),
{
    if a.len() == 0 {
    } else {
        assert(b.len() > 0);
        assert(c.len() > 0);
        if a[0] == b[0] && b[0] == c[0] {
            lemma_lex_le_trans(a.skip(1), b.skip(1), c.skip(1));
        }
    }
}

/// Compares two names in the lexicographic order `lex_le`.
pub fn str_lex_le(a: &str, b: &str) -> (r: bool)
    ensures
        r == lex_le(a@, b@),
{
    let alen = a.unicode_len();
    let blen = b.unicode_len();
    let mut i: usize = 0;
    proof {
        assert(a@.skip(0) =~= a@);
        assert(b@.skip(0) =~= b@);
    }
    while i < alen && i < blen
        invariant
            i <= alen,
            i <= blen,
            alen == a@.len(),
            blen == b@.len(),
            lex_le(a@, b@) == lex_le(a@.skip(i as int), b@.skip(i as int)),
        decreases alen - i,
    {
        let ca = a.get_char(i);
        let cb = b.get_char(i);
        if ca == cb {
            proof {
                assert(a@.skip(i as int).skip(1) =~= a@.skip(i + 1));
                assert(b@.skip(i as int).skip(1) =~= b@.skip(i + 1));
            }
            i = i + 1;
        } else {
            let r = (ca as u32) < (cb as u32);
            proof {
                assert(a@.skip(i as int)[0] == ca);
                assert(b@.skip(i as int)[0] == cb);
                assert(ca as u32 == ca as int as u32);
                assert(cb as u32 == cb as int as u32);
                assert(r == ((ca as int) < (cb as int)));
            }
            return r;
        }
    }
    proof {
        if i >= alen {
            assert(a@.skip(i as int).len() == 0);
        } else {
            assert(b@.skip(i as int).len() == 0);
            assert(a@.skip(i as int).len() > 0);
        }
    }
    i >= alen
}

} // verus!
