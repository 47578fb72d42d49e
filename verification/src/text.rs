//! Character-level helpers: whitespace, trimming, decimal rendering and
//! simple searches over `Seq<char>`, each with an exact contract.

use vstd::prelude::*;
use vstd::string::StrSliceExecFns;

verus! {

broadcast use vstd::string::group_string_axioms;

/// The Unicode `White_Space` property, which `char::is_whitespace` tests.
pub open spec fn is_white_space(c: char) -> bool {
    ||| ('\u{9}' <= c && c <= '\u{d}')
    ||| c == ' '
    ||| c == '\u{85}'
    ||| c == '\u{a0}'
    ||| c == '\u{1680}'
    ||| ('\u{2000}' <= c && c <= '\u{200a}')
    ||| c == '\u{2028}'
    ||| c == '\u{2029}'
    ||| c == '\u{202f}'
    ||| c == '\u{205f}'
    ||| c == '\u{3000}'
}

/// Tests the Unicode `White_Space` property.
pub fn is_whitespace(c: char) -> (r: bool)
    ensures
        r == is_white_space(c),
{
    ('\u{9}' <= c && c <= '\u{d}') || c == ' ' || c == '\u{85}' || c == '\u{a0}' || c
        == '\u{1680}' || ('\u{2000}' <= c && c <= '\u{200a}') || c == '\u{2028}' || c
        == '\u{2029}' || c == '\u{202f}' || c == '\u{205f}' || c == '\u{3000}'
}

/// The two kinds of characters that the library trims from the ends of text.
#[derive(Clone, Copy, PartialEq, Eq, Debug)]
pub enum TrimClass {
    WhiteSpace,
    Underscore,
}

pub open spec fn in_class(c: char, k: TrimClass) -> bool {
    match k {
        TrimClass::WhiteSpace => is_white_space(c),
        TrimClass::Underscore => c == '_',
    }
}

fn is_in_class(c: char, k: TrimClass) -> (r: bool)
    ensures
        r == in_class(c, k),
{
    match k {
        TrimClass::WhiteSpace => is_whitespace(c),
        TrimClass::Underscore => c == '_',
    }
}

/// `s` without its leading characters of class `k`.
pub open spec fn strip_start(s: Seq<char>, k: TrimClass) -> Seq<char>
    decreases s.len(),
{
    if s.len() > 0 && in_class(s[0], k) {
        strip_start(s.drop_first(), k)
    } else {
        s
    }
}

/// `s` without its trailing characters of class `k`.
pub open spec fn strip_end(s: Seq<char>, k: TrimClass) -> Seq<char>
    decreases s.len(),
{
    if s.len() > 0 && in_class(s.last(), k) {
        strip_end(s.drop_last(), k)
    } else {
        s
    }
}

/// `s` without leading and trailing characters of class `k`
/// (`str::trim` for white space, `str::trim_matches('_')` for underscores).
pub open spec fn trim_class(s: Seq<char>, k: TrimClass) -> Seq<char> {
    strip_end(strip_start(s, k), k)
}

/// `str::trim`: removes leading and trailing Unicode white space.
pub open spec fn trim_spec(s: Seq<char>) -> Seq<char> {
    trim_class(s, TrimClass::WhiteSpace)
}

pub proof fn lemma_strip_start_step(s: Seq<char>, i: int, k: TrimClass)
    requires
        0 <= i < s.len(),
        in_class(s[i], k),
    ensures
        strip_start(s.skip(i), k) == strip_start(s.skip(i + 1), k),
{
    assert(s.skip(i).drop_first() =~= s.skip(i + 1));
}

/// `strip_start` drops a prefix of characters of the class, and what it
/// leaves starts with a character outside it.
pub proof fn lemma_strip_start_shape(s: Seq<char>, k: TrimClass) -> (a: int)
    ensures
        0 <= a <= s.len(),
        strip_start(s, k) == s.skip(a),
        a < s.len() ==> !in_class(s[a], k),
    decreases s.len(),
{
    if s.len() > 0 && in_class(s[0], k) {
        let b = lemma_strip_start_shape(s.drop_first(), k);
        assert(s.drop_first().skip(b) =~= s.skip(b + 1));
        if b + 1 < s.len() {
            assert(s.drop_first()[b] == s[b + 1]);
        }
        b + 1
    } else {
        assert(s.skip(0) =~= s);
        0
    }
}

/// `strip_end` drops a suffix of characters of the class, and what it
/// leaves ends with a character outside it.
pub proof fn lemma_strip_end_shape(s: Seq<char>, k: TrimClass) -> (b: int)
    ensures
        0 <= b <= s.len(),
        strip_end(s, k) == s.take(b),
        b > 0 ==> !in_class(s[b - 1], k),
    decreases s.len(),
{
    if s.len() > 0 && in_class(s.last(), k) {
        let c = lemma_strip_end_shape(s.drop_last(), k);
        assert(s.drop_last().take(c) =~= s.take(c));
        c
    } else {
        assert(s.take(s.len() as int) =~= s);
        s.len() as int
    }
}

/// Trimming keeps a contiguous part of the text whose first and last
/// characters lie outside the class.
pub proof fn lemma_trim_class_shape(s: Seq<char>, k: TrimClass) -> (r: (int, int))
    ensures
        0 <= r.0 <= r.1 <= s.len(),
        trim_class(s, k) == s.subrange(r.0, r.1),
        r.0 < r.1 ==> !in_class(s[r.0], k) && !in_class(s[r.1 - 1], k),
{
    let a = lemma_strip_start_shape(s, k);
    let t = s.skip(a);
    let b = lemma_strip_end_shape(t, k);
    assert(t.take(b) =~= s.subrange(a, a + b));
    if b > 0 {
        assert(t[0] == s[a]);
        assert(t[b - 1] == s[a + b - 1]);
    }
    (a, a + b)
}

proof fn lemma_strip_end_step(s: Seq<char>, j: int, k: TrimClass)
    requires
        0 < j <= s.len(),
        in_class(s[j - 1], k),
    ensures
        strip_end(s.take(j), k) == strip_end(s.take(j - 1), k),
{
    assert(s.take(j).drop_last() =~= s.take(j - 1));
}

/// Finds the bounds `(i, j)` of `v` without its leading and trailing
/// characters of class `k`.
pub fn trim_bounds(v: &Vec<char>, k: TrimClass) -> (r: (usize, usize))
    ensures
        r.0 <= r.1 <= v@.len(),
        v@.subrange(r.0 as int, r.1 as int) == trim_class(v@, k),
{
    let n = v.len();
    let mut i: usize = 0;
    assert(v@.skip(0) =~= v@);
    while i < n && is_in_class(v[i], k)
        invariant
            i <= n == v@.len(),
            strip_start(v@, k) == strip_start(v@.skip(i as int), k),
        decreases n - i,
    {
        proof {
            lemma_strip_start_step(v@, i as int, k);
        }
        i = i + 1;
    }
    let ghost rest = v@.skip(i as int);
    assert(strip_start(rest, k) == rest);
    let mut j: usize = n;
    assert(rest.take((j - i) as int) =~= rest);
    while j > i && is_in_class(v[j - 1], k)
        invariant
            i <= j <= n == v@.len(),
            rest == v@.skip(i as int),
            strip_end(rest, k) == strip_end(rest.take(j - i), k),
        decreases j - i,
    {
        proof {
            lemma_strip_end_step(rest, (j - i) as int, k);
        }
        j = j - 1;
    }
    assert(strip_end(rest.take(j - i), k) == rest.take(j - i));
    assert(v@.subrange(i as int, j as int) =~= rest.take(j - i));
    (i, j)
}

/// `str::trim`: the slice of `s` without leading and trailing white space.
pub fn trim(s: &str) -> (r: &str)
    ensures
        r@ == trim_spec(s@),
{
    let v = chars_of(s);
    let (i, j) = trim_bounds(&v, TrimClass::WhiteSpace);
    s.substring_char(i, j)
}

/// Copies the characters of a string slice into a vector.
pub fn chars_of(s: &str) -> (v: Vec<char>)
    ensures
        v@ == s@,
{
    let mut v: Vec<char> = Vec::new();
    for c in it: s.chars()
        invariant
            it.seq() == s@,
            v@ == it.seq().take(it.index()),
    {
        v.push(c);
    }
    v
}

/// std's `FromIterator<&char>` for `String` (`String::from_iter`): the
/// contract claims that the string holds exactly the given characters, in
/// order, as std documents for collecting characters into a `String`.
#[verifier::external_body]
pub fn string_from_chars(chars: &Vec<char>) -> (s: String)
    ensures
        s@ == chars@,
{
    String::from_iter(chars.iter())
}

/// Appends the characters of `s` to `out`.
pub fn push_str(out: &mut Vec<char>, s: &str)
    ensures
        final(out)@ == old(out)@ + s@,
{
    let v = chars_of(s);
    let mut i: usize = 0;
    while i < v.len()
        invariant
            i <= v@.len(),
            v@ == s@,
            out@ == old(out)@ + v@.take(i as int),
        decreases v.len() - i,
    {
        out.push(v[i]);
        i = i + 1;
        assert(v@.take(i as int) =~= v@.take(i - 1).push(v@[i - 1]));
    }
    assert(v@.take(i as int) =~= v@);
}

/// Appends the characters of `src` to `out`.
pub fn push_chars(out: &mut Vec<char>, src: &Vec<char>)
    ensures
        final(out)@ == old(out)@ + src@,
{
    let mut i: usize = 0;
    while i < src.len()
        invariant
            i <= src@.len(),
            out@ == old(out)@ + src@.take(i as int),
        decreases src.len() - i,
    {
        out.push(src[i]);
        i = i + 1;
        assert(src@.take(i as int) =~= src@.take(i - 1).push(src@[i - 1]));
    }
    assert(src@.take(i as int) =~= src@);
}

/// The characters of `v` from position `from` up to (not including) `to`.
pub fn slice_chars(v: &Vec<char>, from: usize, to: usize) -> (r: Vec<char>)
    requires
        from <= to <= v@.len(),
    ensures
        r@ == v@.subrange(from as int, to as int),
{
    let mut r: Vec<char> = Vec::new();
    let mut i: usize = from;
    while i < to
        invariant
            from <= i <= to <= v@.len(),
            r@ == v@.subrange(from as int, i as int),
        decreases to - i,
    {
        r.push(v[i]);
        i = i + 1;
        assert(r@ =~= v@.subrange(from as int, i as int));
    }
    r
}

/// Whether two string slices hold the same characters.
pub fn str_is(s: &str, lit: &str) -> (r: bool)
    ensures
        r == (s@ == lit@),
{
    let v = chars_of(s);
    chars_eq(&v, lit)
}

/// Whether the characters of `v` are exactly those of `s`.
pub fn chars_eq(v: &Vec<char>, s: &str) -> (r: bool)
    ensures
        r == (v@ == s@),
{
    let w = chars_of(s);
    if v.len() != w.len() {
        return false;
    }
    let mut i: usize = 0;
    while i < v.len()
        invariant
            i <= v@.len() == w@.len(),
            w@ == s@,
            forall|k: int| 0 <= k < i ==> v@[k] == w@[k],
        decreases v.len() - i,
    {
        if v[i] != w[i] {
            return false;
        }
        i = i + 1;
    }
    assert(v@ =~= w@);
    true
}

/// Whether `prefix` is a prefix of `v`, starting at position `at`.
pub fn has_prefix_at(v: &Vec<char>, at: usize, prefix: &Vec<char>) -> (r: bool)
    requires
        at <= v@.len(),
    ensures
        r == (at + prefix@.len() <= v@.len() && v@.subrange(
            at as int,
            at + prefix@.len(),
        ) == prefix@),
{
    if prefix.len() > v.len() - at {
        return false;
    }
    let mut i: usize = 0;
    while i < prefix.len()
        invariant
            i <= prefix@.len(),
            at + prefix@.len() <= v@.len(),
            v@.len() == v.len(),
            forall|k: int| 0 <= k < i ==> v@[at + k] == prefix@[k],
        decreases prefix.len() - i,
    {
        assert(at + i < v@.len());
        if v[at + i] != prefix[i] {
            assert(v@.subrange(at as int, at + prefix@.len())[i as int] != prefix@[i as int]);
            return false;
        }
        i = i + 1;
    }
    assert(v@.subrange(at as int, at + prefix@.len()) =~= prefix@);
    true
}

/// Whether `needle` occurs in `hay` as a contiguous run of characters.
pub open spec fn contains_seq(hay: Seq<char>, needle: Seq<char>) -> bool {
    exists|i: int|
        0 <= i && i + needle.len() <= hay.len() && #[trigger] hay.subrange(i, i + needle.len())
            == needle
}

/// `str::contains` with a string pattern.
pub fn contains_chars(hay: &Vec<char>, needle: &Vec<char>) -> (r: bool)
    ensures
        r == contains_seq(hay@, needle@),
{
    let mut i: usize = 0;
    loop
        invariant
            i <= hay@.len(),
            forall|k: int|
                0 <= k < i && k + needle@.len() <= hay@.len() ==> #[trigger] hay@.subrange(
                    k,
                    k + needle@.len(),
                ) != needle@,
        decreases hay@.len() - i,
    {
        if has_prefix_at(hay, i, needle) {
            return true;
        }
        if i == hay.len() {
            assert forall|k: int|
                0 <= k && k + needle@.len() <= hay@.len() implies #[trigger] hay@.subrange(
                k,
                k + needle@.len(),
            ) != needle@ by {
                if k == i {
                } else {
                    assert(k < i);
                }
            }
            return false;
        }
        i = i + 1;
    }
}

/// The character of a decimal digit.
pub open spec fn digit_char(d: nat) -> char {
    if d == 0 {
        '0'
    } else if d == 1 {
        '1'
    } else if d == 2 {
        '2'
    } else if d == 3 {
        '3'
    } else if d == 4 {
        '4'
    } else if d == 5 {
        '5'
    } else if d == 6 {
        '6'
    } else if d == 7 {
        '7'
    } else if d == 8 {
        '8'
    } else {
        '9'
    }
}

/// The decimal digits of `n`, as `{}` renders an unsigned integer.
pub open spec fn decimal(n: nat) -> Seq<char>
    decreases n,
{
    if n < 10 {
        seq![digit_char(n)]
    } else {
        decimal(n / 10).push(digit_char(n % 10))
    }
}

/// The decimal digits of `n` padded with zeros to at least two characters,
/// as `{:02}` renders an unsigned integer.
pub open spec fn decimal2(n: nat) -> Seq<char> {
    if n < 10 {
        seq!['0', digit_char(n)]
    } else {
        decimal(n)
    }
}

fn digit(d: u64) -> (c: char)
    requires
        d < 10,
    ensures
        c == digit_char(d as nat),
{
    if d == 0 {
        '0'
    } else if d == 1 {
        '1'
    } else if d == 2 {
        '2'
    } else if d == 3 {
        '3'
    } else if d == 4 {
        '4'
    } else if d == 5 {
        '5'
    } else if d == 6 {
        '6'
    } else if d == 7 {
        '7'
    } else if d == 8 {
        '8'
    } else {
        '9'
    }
}

/// Appends the decimal digits of `n` to `out`.
pub fn push_decimal(out: &mut Vec<char>, n: u64)
    ensures
        final(out)@ == old(out)@ + decimal(n as nat),
    decreases n,
{
    if n >= 10 {
        push_decimal(out, n / 10);
    }
    out.push(digit(n % 10));
    proof {
        if n < 10 {
            assert(decimal(n as nat) =~= seq![digit_char(n as nat)]);
        }
    }
}

/// Appends the decimal digits of `n`, zero-padded to two characters, to `out`.
pub fn push_decimal2(out: &mut Vec<char>, n: u64)
    ensures
        final(out)@ == old(out)@ + decimal2(n as nat),
{
    if n < 10 {
        out.push('0');
    }
    push_decimal(out, n);
    proof {
        if n < 10 {
            assert(decimal(n as nat) =~= seq![digit_char(n as nat)]);
        }
    }
}

} // verus!
