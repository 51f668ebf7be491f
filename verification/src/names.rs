//! Archive entry names.
//!
//! An entry name is written with forward slashes and holds no `/./`. A name
//! built by joining path pieces may carry backslashes and `/./` segments;
//! normalizing turns every backslash into a forward slash and then takes
//! every `/./` out, so that `a/././b` becomes `a/b`.

use vstd::prelude::*;
use crate::text::{chars_between, chars_of, string_of};

verus! {

/// `c`, or a forward slash in place of a backslash.
pub open spec fn slash_of(c: char) -> char {
    if c == '\\' {
        '/'
    } else {
        c
    }
}

/// `s` with every backslash turned into a forward slash.
pub open spec fn with_forward_slashes(s: Seq<char>) -> Seq<char> {
    s.map_values(|c: char| slash_of(c))
}

/// Whether `/./` stands in `s` at index `i`.
pub open spec fn dot_segment_at(s: Seq<char>, i: int) -> bool {
    0 <= i && i + 3 <= s.len() && s[i] == '/' && s[i + 1] == '.' && s[i + 2] == '/'
}

/// `s` with every `/./` replaced by `/`. Where `/./` stands, its first two
/// characters are dropped and the scan goes on from its second slash, so
/// that segments which share a slash all go: `/././` becomes `/`.
pub open spec fn without_dot_segments(s: Seq<char>) -> Seq<char>
    decreases s.len(),
{
    if s.len() == 0 {
        s
    } else if dot_segment_at(s, 0) {
        without_dot_segments(s.skip(2))
    } else {
        seq![s[0]] + without_dot_segments(s.skip(1))
    }
}

/// The entry name that stands for `raw`.
pub open spec fn normalized(raw: Seq<char>) -> Seq<char> {
    without_dot_segments(with_forward_slashes(raw))
}

/// Whether `s` holds no backslash and no `/./`.
pub open spec fn is_plain(s: Seq<char>) -> bool {
    &&& forall|i: int| 0 <= i < s.len() ==> s[i] != '\\'
    &&& forall|i: int| !dot_segment_at(s, i)
}

/// Normalizes `chars`, which are the characters of a raw name.
pub fn normalize_chars(chars: &Vec<char>) -> (out: Vec<char>)
    ensures
        out@ == normalized(chars@),
{
    let ghost s = with_forward_slashes(chars@);
    let n = chars.len();
    let mut out: Vec<char> = Vec::new();
    let mut i: usize = 0;
    assert(s.skip(0) == s);
    while i < n
        invariant
            n == chars.len(),
            s == with_forward_slashes(chars@),
            i <= n,
            out@ + without_dot_segments(s.skip(i as int)) == without_dot_segments(s),
        decreases n - i,
    {
        let ghost rest = s.skip(i as int);
        let c = if chars[i] == '\\' { '/' } else { chars[i] };
        let is_segment = c == '/' && n - i >= 3 && chars[i + 1] == '.' && (chars[i + 2] == '/'
            || chars[i + 2] == '\\');
        assert(is_segment == dot_segment_at(rest, 0));
        if is_segment {
            assert(rest.skip(2) == s.skip(i + 2));
            i += 2;
        } else {
            assert(rest.skip(1) == s.skip(i + 1));
            assert(out@.push(c) + without_dot_segments(rest.skip(1)) == out@ + (seq![rest[0]]
                + without_dot_segments(rest.skip(1))));
            out.push(c);
            i += 1;
        }
    }
    assert(s.skip(n as int).len() == 0);
    assert(out@ + Seq::<char>::empty() == out@);
    out
}

/// Turns a raw name into an archive entry name: every backslash becomes a
/// forward slash, then every `/./` becomes `/`.
pub fn normalize_entry_name(name: &str) -> (entry_name: String)
    ensures
        entry_name@ == normalized(name@),
{
    let chars = chars_of(name);
    let out = normalize_chars(&chars);
    let n = out.len();
    assert(out@.subrange(0, n as int) == out@);
    string_of(&out, 0, n)
}

/// The entry name that stands for the raw name `chars[from..to]`.
pub fn entry_name_between(chars: &Vec<char>, from: usize, to: usize) -> (entry_name: String)
    requires
        from <= to <= chars.len(),
    ensures
        entry_name@ == normalized(chars@.subrange(from as int, to as int)),
{
    let raw = chars_between(chars, from, to);
    let out = normalize_chars(&raw);
    let n = out.len();
    assert(out@.subrange(0, n as int) == out@);
    string_of(&out, 0, n)
}

/// Taking the dot segments out of a sequence that has none changes nothing.
proof fn lemma_no_segment_unchanged(s: Seq<char>)
    requires
        forall|i: int| !dot_segment_at(s, i),
    ensures
        without_dot_segments(s) == s,
    decreases s.len(),
{
    if s.len() > 0 {
        assert(!dot_segment_at(s, 0));
        let rest = s.skip(1);
        assert forall|i: int| !dot_segment_at(rest, i) by {
            assert(!dot_segment_at(s, i + 1));
        }
        lemma_no_segment_unchanged(rest);
        assert(seq![s[0]] + rest == s);
    }
}

/// A name without backslashes and without `/./` is its own normal form.
pub proof fn lemma_normalize_plain(name: Seq<char>)
    requires
        is_plain(name),
    ensures
        normalized(name) == name,
{
    assert(with_forward_slashes(name) == name);
    lemma_no_segment_unchanged(name);
}

/// What is left of a sequence begins as the sequence does, and is empty
/// only where the sequence is.
proof fn lemma_first_stays(s: Seq<char>)
    ensures
        (without_dot_segments(s).len() == 0) == (s.len() == 0),
        s.len() > 0 ==> without_dot_segments(s)[0] == s[0],
    decreases s.len(),
{
    if s.len() > 0 && dot_segment_at(s, 0) {
        lemma_first_stays(s.skip(2));
    }
}

/// No `/./` is left, and no backslash comes in.
proof fn lemma_segments_gone(s: Seq<char>)
    ensures
        forall|i: int| !dot_segment_at(without_dot_segments(s), i),
        (forall|i: int| 0 <= i < s.len() ==> s[i] != '\\') ==> forall|i: int|
            0 <= i < without_dot_segments(s).len() ==> without_dot_segments(s)[i] != '\\',
    decreases s.len(),
{
    let out = without_dot_segments(s);
    if s.len() == 0 {
        assert forall|i: int| !dot_segment_at(out, i) by {}
    } else if dot_segment_at(s, 0) {
        let rest = s.skip(2);
        lemma_segments_gone(rest);
        assert(out == without_dot_segments(rest));
        if forall|i: int| 0 <= i < s.len() ==> s[i] != '\\' {
            assert forall|i: int| 0 <= i < rest.len() implies rest[i] != '\\' by {
                assert(rest[i] == s[i + 2]);
            }
        }
    } else {
        let rest = s.skip(1);
        let tail = without_dot_segments(rest);
        lemma_segments_gone(rest);
        lemma_first_stays(rest);
        assert forall|i: int| !dot_segment_at(out, i) by {
            if dot_segment_at(out, i) {
                if i > 0 {
                    assert(out[i] == tail[i - 1] && out[i + 1] == tail[i] && out[i + 2] == tail[i
                        + 1]);
                    assert(dot_segment_at(tail, i - 1));
                } else {
                    // `out` begins with `/./`, so `rest` begins with `.`, and what is
                    // left of `rest` after that `.` begins with `/`.
                    assert(out[1] == tail[0] && out[2] == tail[1]);
                    assert(rest[0] == '.');
                    assert(!dot_segment_at(rest, 0));
                    let after = rest.skip(1);
                    assert(tail == seq![rest[0]] + without_dot_segments(after));
                    assert(tail[1] == without_dot_segments(after)[0]);
                    lemma_first_stays(after);
                    assert(after[0] == s[2]);
                    assert(dot_segment_at(s, 0));
                }
            }
        }
        if forall|i: int| 0 <= i < s.len() ==> s[i] != '\\' {
            assert forall|i: int| 0 <= i < rest.len() implies rest[i] != '\\' by {
                assert(rest[i] == s[i + 1]);
            }
            assert forall|i: int| 0 <= i < out.len() implies out[i] != '\\' by {
                if i > 0 {
                    assert(out[i] == tail[i - 1]);
                }
            }
        }
    }
}

/// A normalized name is plain: it holds no backslash and no `/./`.
pub proof fn lemma_normalized_is_plain(raw: Seq<char>)
    ensures
        is_plain(normalized(raw)),
{
    lemma_segments_gone(with_forward_slashes(raw));
}

/// Normalizing is idempotent: a normalized name is its own normal form.
pub proof fn lemma_normalize_idempotent(raw: Seq<char>)
    ensures
        normalized(normalized(raw)) == normalized(raw),
{
    lemma_normalized_is_plain(raw);
    lemma_normalize_plain(normalized(raw));
}

/// A normalized name is empty only where the raw name is, and begins with a
/// slash only where the raw name begins with a slash or a backslash.
pub proof fn lemma_normalized_start(raw: Seq<char>)
    ensures
        (normalized(raw).len() == 0) == (raw.len() == 0),
        raw.len() > 0 ==> normalized(raw)[0] == slash_of(raw[0]),
{
    lemma_first_stays(with_forward_slashes(raw));
}

} // verus!
