//! Reading the versions that the helper binaries report about themselves.

use vstd::prelude::*;
use vstd::string::StrSliceExecFns;
use crate::text::{
    chars_of, has_prefix_at, is_white_space, is_whitespace, lemma_strip_start_step, slice_chars,
    string_from_chars, strip_start, trim_bounds, trim_class, trim_spec, TrimClass,
};

verus! {

broadcast use vstd::string::group_string_axioms;

/// The characters of `t` up to its first white space.
pub open spec fn leading_word(t: Seq<char>) -> Seq<char>
    decreases t.len(),
{
    if t.len() > 0 && !is_white_space(t[0]) {
        seq![t[0]] + leading_word(t.drop_first())
    } else {
        Seq::empty()
    }
}

/// The first white-space separated word of `s`, as `split_whitespace().next()` finds it.
pub open spec fn first_word(s: Seq<char>) -> Option<Seq<char>> {
    let t = strip_start(s, TrimClass::WhiteSpace);
    if t.len() == 0 {
        None
    } else {
        Some(leading_word(t))
    }
}

/// The version in an `ffmpeg -version` banner: the first word after
/// `ffmpeg version `, when the line starts so.
pub open spec fn ffmpeg_version_spec(line: Seq<char>) -> Option<Seq<char>> {
    if "ffmpeg version "@.is_prefix_of(line) {
        first_word(line.skip(15))
    } else {
        None
    }
}

proof fn lemma_leading_word_step(s: Seq<char>, j: int)
    requires
        0 <= j < s.len(),
        !is_white_space(s[j]),
    ensures
        leading_word(s.skip(j)) == seq![s[j]] + leading_word(s.skip(j + 1)),
{
    assert(s.skip(j).drop_first() =~= s.skip(j + 1));
}

/// Reads the version out of the first line of `ffmpeg -version`.
pub fn parse_ffmpeg_version(line: &str) -> (r: Option<&str>)
    ensures
        match (r, ffmpeg_version_spec(line@)) {
            (Some(a), Some(b)) => a@ == b,
            (None, None) => true,
            _ => false,
        },
{
    let v = chars_of(line);
    let prefix = chars_of("ffmpeg version ");
    proof {
        reveal_strlit("ffmpeg version ");
    }
    if !has_prefix_at(&v, 0, &prefix) {
        proof {
            if "ffmpeg version "@.is_prefix_of(v@) {
                assert(v@.subrange(0, 15) =~= prefix@);
            }
        }
        return None;
    }
    assert("ffmpeg version "@.is_prefix_of(v@)) by {
        assert(v@.subrange(0, 15) =~= v@.take(15));
    }
    let n = v.len();
    let ghost rest = v@.skip(15);
    let mut i: usize = 15;
    assert(rest.skip(0) =~= rest);
    while i < n && is_whitespace(v[i])
        invariant
            15 <= i <= n == v@.len(),
            rest == v@.skip(15),
            strip_start(rest, TrimClass::WhiteSpace) == strip_start(
                rest.skip(i - 15),
                TrimClass::WhiteSpace,
            ),
        decreases n - i,
    {
        proof {
            lemma_strip_start_step(rest, i - 15, TrimClass::WhiteSpace);
        }
        i = i + 1;
    }
    assert(rest.skip(i - 15) =~= v@.skip(i as int));
    if i == n {
        return None;
    }
    let mut j: usize = i;
    assert(v@.subrange(i as int, i as int) =~= Seq::<char>::empty());
    while j < n && !is_whitespace(v[j])
        invariant
            i <= j <= n == v@.len(),
            leading_word(v@.skip(i as int)) == v@.subrange(i as int, j as int) + leading_word(
                v@.skip(j as int),
            ),
        decreases n - j,
    {
        proof {
            lemma_leading_word_step(v@, j as int);
            assert(v@.subrange(i as int, j + 1) =~= v@.subrange(i as int, j as int) + seq![
                v@[j as int],
            ]);
        }
        j = j + 1;
    }
    assert(leading_word(v@.skip(j as int)) =~= Seq::<char>::empty());
    assert(v@.subrange(i as int, j as int) + Seq::<char>::empty() =~= v@.subrange(
        i as int,
        j as int,
    ));
    Some(line.substring_char(i, j))
}

/// The length of the first line of `t` (up to its first `\n`).
pub open spec fn line_len(t: Seq<char>) -> nat
    decreases t.len(),
{
    if t.len() == 0 || t[0] == '\n' {
        0
    } else {
        1 + line_len(t.drop_first())
    }
}

/// The first line of `t` that holds more than white space, trimmed.
pub open spec fn first_nonblank_line(t: Seq<char>) -> Option<Seq<char>>
    decreases t.len(),
{
    let k = line_len(t) as int;
    let line = trim_spec(t.take(k));
    if line.len() > 0 {
        Some(line)
    } else if k >= t.len() {
        None
    } else {
        first_nonblank_line(t.skip(k + 1))
    }
}

/// The first meaningful line a helper binary printed: from its standard
/// output, or from its standard error when the output is blank.
pub open spec fn first_output_line_spec(stdout: Seq<char>, stderr: Seq<char>) -> Option<Seq<char>> {
    if trim_spec(stdout).len() == 0 {
        first_nonblank_line(stderr)
    } else {
        first_nonblank_line(stdout)
    }
}

proof fn lemma_line_len_bound(t: Seq<char>)
    ensures
        line_len(t) <= t.len(),
        line_len(t) < t.len() ==> t[line_len(t) as int] == '\n',
        forall|k: int| 0 <= k < line_len(t) ==> t[k] != '\n',
    decreases t.len(),
{
    if t.len() > 0 && t[0] != '\n' {
        lemma_line_len_bound(t.drop_first());
        assert forall|k: int| 0 <= k < line_len(t) implies t[k] != '\n' by {
            if k > 0 {
                assert(t[k] == t.drop_first()[k - 1]);
            }
        }
    }
}

proof fn lemma_line_len_at(t: Seq<char>, k: int)
    requires
        0 <= k <= t.len(),
        forall|m: int| 0 <= m < k ==> t[m] != '\n',
        k == t.len() || t[k] == '\n',
    ensures
        line_len(t) == k,
    decreases k,
{
    if k > 0 {
        assert forall|m: int| 0 <= m < k - 1 implies t.drop_first()[m] != '\n' by {
            assert(t.drop_first()[m] == t[m + 1]);
        }
        if k < t.len() {
            assert(t.drop_first()[k - 1] == t[k]);
        }
        lemma_line_len_at(t.drop_first(), k - 1);
    }
}

/// Finds the first non-blank line of `v` (see `first_nonblank_line`).
pub fn first_nonblank_line_of(v: &Vec<char>) -> (r: Option<String>)
    ensures
        match (r, first_nonblank_line(v@)) {
            (Some(a), Some(b)) => a@ == b,
            (None, None) => true,
            _ => false,
        },
{
    let n = v.len();
    let mut pos: usize = 0;
    assert(v@.skip(0) =~= v@);
    loop
        invariant
            pos <= n == v@.len(),
            first_nonblank_line(v@) == first_nonblank_line(v@.skip(pos as int)),
        decreases n - pos,
    {
        let ghost t = v@.skip(pos as int);
        let mut end: usize = pos;
        while end < n && v[end] != '\n'
            invariant
                pos <= end <= n == v@.len(),
                t == v@.skip(pos as int),
                forall|m: int| pos <= m < end ==> v@[m] != '\n',
            decreases n - end,
        {
            end = end + 1;
        }
        proof {
            assert forall|m: int| 0 <= m < end - pos implies t[m] != '\n' by {
                assert(t[m] == v@[pos + m]);
            }
            if end < n {
                assert(t[end - pos] == v@[end as int]);
            }
            lemma_line_len_at(t, end - pos);
        }
        let segment = slice_chars(v, pos, end);
        assert(segment@ =~= t.take(end - pos));
        let (a, b) = trim_bounds(&segment, TrimClass::WhiteSpace);
        if a < b {
            return Some(string_from_chars(&slice_chars(&segment, a, b)));
        }
        if end >= n {
            return None;
        }
        assert(t.skip(end - pos + 1) =~= v@.skip(end + 1));
        pos = end + 1;
    }
}

/// The first meaningful line a helper binary printed (see `first_output_line_spec`).
pub fn first_output_line(stdout: &str, stderr: &str) -> (r: Option<String>)
    ensures
        match (r, first_output_line_spec(stdout@, stderr@)) {
            (Some(a), Some(b)) => a@ == b,
            (None, None) => true,
            _ => false,
        },
{
    let out = chars_of(stdout);
    let (a, b) = trim_bounds(&out, TrimClass::WhiteSpace);
    if a == b {
        let err = chars_of(stderr);
        first_nonblank_line_of(&err)
    } else {
        first_nonblank_line_of(&out)
    }
}

} // verus!
