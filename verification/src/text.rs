//! Character-level text helpers shared by the parser, the renderers
//! and the prompt builders.
//!
//! All reasoning happens on `Seq<char>` views; the only bridge back
//! from characters to `String` is `String::push`, specified below.

use vstd::prelude::*;
use vstd::string::StringExecFns;

verus! {

/// A `String` holding a literal's characters.
pub fn string_from_lit(lit: &str) -> (r: String)
    ensures
        r@ == lit@,
{
    String::from_str(lit)
}

/// Whether a string equals a literal, by character content.
pub fn string_is(a: &String, lit: &str) -> (r: bool)
    ensures
        r == (a@ == lit@),
{
    let b = String::from_str(lit);
    *a == b
}

/// Relies on `alloc::string::String::push`: appends exactly the given
/// character to the end of the string.
pub assume_specification[ String::push ](s: &mut String, c: char)
    ensures
        final(s)@ == old(s)@.push(c),
;

/// The whitespace recognized when trimming a prompt: ASCII blanks.
pub open spec fn is_space_char(c: char) -> bool {
    c == ' ' || c == '\t' || c == '\n' || c == '\r'
}

pub fn is_space(c: char) -> (r: bool)
    ensures
        r == is_space_char(c),
{
    c == ' ' || c == '\t' || c == '\n' || c == '\r'
}

/// Index of the first non-blank character at or after `i`
/// (`s.len()` if there is none).
pub open spec fn trim_start_idx(s: Seq<char>, i: int) -> int
    decreases s.len() - i,
{
    if i < 0 || i >= s.len() {
        s.len() as int
    } else if is_space_char(s[i]) {
        trim_start_idx(s, i + 1)
    } else {
        i
    }
}

/// One past the last non-blank character at or before `i - 1`
/// (`0` if there is none).
pub open spec fn trim_end_idx(s: Seq<char>, i: int) -> int
    decreases i,
{
    if i <= 0 || i > s.len() {
        0
    } else if is_space_char(s[i - 1]) {
        trim_end_idx(s, i - 1)
    } else {
        i
    }
}

/// `s` with leading and trailing blanks removed.
pub open spec fn spec_trimmed(s: Seq<char>) -> Seq<char> {
    let lo = trim_start_idx(s, 0);
    let hi = trim_end_idx(s, s.len() as int);
    if lo <= hi {
        s.subrange(lo, hi)
    } else {
        Seq::empty()
    }
}

/// The characters of `s`, as an indexable vector.
pub fn to_chars(s: &str) -> (r: Vec<char>)
    ensures
        r@ == s@,
{
    let n = s.unicode_len();
    let mut r: Vec<char> = Vec::new();
    let mut i: usize = 0;
    while i < n
        invariant
            n == s@.len(),
            i <= n,
            r@ == s@.subrange(0, i as int),
        decreases n - i,
    {
        r.push(s.get_char(i));
        i = i + 1;
        proof {
            assert(r@ =~= s@.subrange(0, i as int));
        }
    }
    proof {
        assert(r@ =~= s@);
    }
    r
}

/// The characters of `v`, as a `String`.
pub fn from_chars(v: &Vec<char>) -> (r: String)
    ensures
        r@ == v@,
{
    let mut r = String::new();
    let mut i: usize = 0;
    while i < v.len()
        invariant
            i <= v@.len(),
            r@ == v@.subrange(0, i as int),
        decreases v@.len() - i,
    {
        r.push(v[i]);
        i = i + 1;
        proof {
            assert(r@ =~= v@.subrange(0, i as int));
        }
    }
    proof {
        assert(r@ =~= v@);
    }
    r
}

/// `v` with leading and trailing blanks removed.
pub fn trim_chars(v: &Vec<char>) -> (r: Vec<char>)
    ensures
        r@ == spec_trimmed(v@),
{
    let n = v.len();
    let mut lo: usize = 0;
    while lo < n && is_space(v[lo])
        invariant
            n == v@.len(),
            lo <= n,
            trim_start_idx(v@, 0) == trim_start_idx(v@, lo as int),
            forall|j: int| 0 <= j < lo ==> is_space_char(v@[j]),
        decreases n - lo,
    {
        lo = lo + 1;
    }
    assert(trim_start_idx(v@, lo as int) == lo as int);
    let mut hi: usize = n;
    while hi > lo && is_space(v[hi - 1])
        invariant
            n == v@.len(),
            lo <= hi <= n,
            trim_end_idx(v@, n as int) == trim_end_idx(v@, hi as int),
        decreases hi,
    {
        hi = hi - 1;
    }
    let mut r: Vec<char> = Vec::new();
    let mut i: usize = lo;
    while i < hi
        invariant
            lo <= i <= hi <= n,
            n == v@.len(),
            r@ == v@.subrange(lo as int, i as int),
        decreases hi - i,
    {
        r.push(v[i]);
        i = i + 1;
        proof {
            assert(r@ =~= v@.subrange(lo as int, i as int));
        }
    }
    proof {
        if hi > lo {
            assert(trim_end_idx(v@, hi as int) == hi as int);
            assert(r@ =~= spec_trimmed(v@));
        } else {
            lemma_trim_end_all_spaces(v@, lo as int);
            assert(r@ =~= spec_trimmed(v@));
        }
    }
    r
}

/// Scanning from the right over a prefix made of blanks alone runs all
/// the way down to the start.
proof fn lemma_trim_end_all_spaces(s: Seq<char>, i: int)
    requires
        0 <= i <= s.len(),
        forall|j: int| 0 <= j < i ==> is_space_char(s[j]),
    ensures
        trim_end_idx(s, i) == 0,
    decreases i,
{
    if i > 0 {
        lemma_trim_end_all_spaces(s, i - 1);
    }
}

/// Appends the characters of `s` to `out`.
pub fn push_str_chars(out: &mut Vec<char>, s: &str)
    ensures
        final(out)@ == old(out)@ + s@,
{
    let n = s.unicode_len();
    let mut i: usize = 0;
    while i < n
        invariant
            n == s@.len(),
            i <= n,
            out@ == old(out)@ + s@.subrange(0, i as int),
        decreases n - i,
    {
        out.push(s.get_char(i));
        i = i + 1;
        proof {
            assert(out@ =~= old(out)@ + s@.subrange(0, i as int));
        }
    }
    proof {
        assert(out@ =~= old(out)@ + s@);
    }
}

/// The character for a single decimal digit.
pub open spec fn spec_digit_char(d: int) -> char {
    (48 + d) as char
}

/// Decimal rendering of `n`, most significant digit first, no sign and
/// no leading zeros (a single `'0'` for zero).
pub open spec fn spec_dec(n: int) -> Seq<char>
    decreases n,
{
    if n < 10 {
        seq![spec_digit_char(if n < 0 { 0 } else { n })]
    } else {
        spec_dec(n / 10).push(spec_digit_char(n % 10))
    }
}

/// Appends the decimal rendering of `n` to `out`.
pub fn push_dec(n: u128, out: &mut Vec<char>)
    ensures
        final(out)@ == old(out)@ + spec_dec(n as int),
    decreases n,
{
    if n < 10 {
        let d: u8 = 48 + (n as u8);
        out.push(d as char);
    } else {
        push_dec(n / 10, out);
        let d: u8 = 48 + ((n % 10) as u8);
        out.push(d as char);
        proof {
            assert(out@ =~= old(out)@ + spec_dec(n as int));
        }
    }
}

/// Exactly-two-digit decimal rendering of `n < 100`.
pub open spec fn spec_dec2(n: int) -> Seq<char> {
    seq![spec_digit_char(n / 10), spec_digit_char(n % 10)]
}

/// Appends the two-digit rendering of `n` to `out`.
pub fn push_dec2(n: u128, out: &mut Vec<char>)
    requires
        n < 100,
    ensures
        final(out)@ == old(out)@ + spec_dec2(n as int),
{
    let hi: u8 = 48 + ((n / 10) as u8);
    let lo: u8 = 48 + ((n % 10) as u8);
    out.push(hi as char);
    out.push(lo as char);
    proof {
        assert(out@ =~= old(out)@ + spec_dec2(n as int));
    }
}

} // verus!
