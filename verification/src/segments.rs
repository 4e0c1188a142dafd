//! Slash-separated path segments, modelled at the character level.
//!
//! Paths are plain strings here; a segment is a maximal run of
//! characters without `/`. The corpus-directory test and the
//! `analysed` to `korp_mono` derivation are both stated over the
//! segment decomposition these functions define.

use vstd::prelude::*;

verus! {

/// The position of the first `/` at or after `i`, or the length of `s`
/// if there is none.
pub open spec fn first_break(s: Seq<char>, i: int) -> int
    decreases s.len() - i,
    when i <= s.len()
{
    if i >= s.len() {
        s.len() as int
    } else if s[i] == '/' {
        i
    } else {
        first_break(s, i + 1)
    }
}

pub proof fn lemma_first_break_bounds(s: Seq<char>, i: int)
    requires
        0 <= i <= s.len(),
    ensures
        i <= first_break(s, i) <= s.len(),
    decreases s.len() - i,
{
    if i < s.len() && s[i] != '/' {
        lemma_first_break_bounds(s, i + 1);
    }
}

pub proof fn lemma_first_break_is_next(s: Seq<char>, i: int)
    requires
        0 <= i <= s.len(),
    ensures
        first_break(s, i) == s.len() || s[first_break(s, i)] == '/',
        forall|k: int| i <= k < first_break(s, i) ==> s[k] != '/',
    decreases s.len() - i,
{
    if i < s.len() && s[i] != '/' {
        lemma_first_break_is_next(s, i + 1);
    }
}

/// The first break after `i` is exactly the position `j` of the first
/// separator, characterized without recursion.
pub proof fn lemma_first_break_at(s: Seq<char>, i: int, j: int)
    requires
        0 <= i <= j <= s.len(),
        forall|k: int| i <= k < j ==> s[k] != '/',
        j == s.len() || s[j] == '/',
    ensures
        first_break(s, i) == j,
    decreases j - i,
{
    if i < j {
        lemma_first_break_at(s, i + 1, j);
    }
}

/// The segments of `s[i..]`, split on `/`. A trailing separator yields
/// a final empty segment, as does an empty string.
pub open spec fn split_from(s: Seq<char>, i: int) -> Seq<Seq<char>>
    decreases s.len() - i,
    when 0 <= i <= s.len()
    via split_from_decreases
{
    let j = first_break(s, i);
    if j >= s.len() {
        seq![s.subrange(i, s.len() as int)]
    } else {
        seq![s.subrange(i, j)] + split_from(s, j + 1)
    }
}

#[via_fn]
proof fn split_from_decreases(s: Seq<char>, i: int) {
    if 0 <= i <= s.len() {
        lemma_first_break_bounds(s, i);
    }
}

/// The segments of `s`, split on `/`.
pub open spec fn split_slash(s: Seq<char>) -> Seq<Seq<char>> {
    split_from(s, 0)
}

/// Splitting a suffix of `s` is splitting the suffix on its own.
pub proof fn lemma_split_from_shift(s: Seq<char>, i: int)
    requires
        0 <= i <= s.len(),
    ensures
        split_from(s, i) == split_slash(s.subrange(i, s.len() as int)),
    decreases s.len() - i,
{
    let r = s.subrange(i, s.len() as int);
    let j = first_break(s, i);
    lemma_first_break_bounds(s, i);
    lemma_first_break_is_next(s, i);
    assert(forall|k: int| 0 <= k < r.len() ==> r[k] == s[i + k]);
    lemma_first_break_at(r, 0, j - i);
    if j >= s.len() {
        assert(r.subrange(0, r.len() as int) =~= r);
        assert(s.subrange(i, s.len() as int) =~= r);
    } else {
        lemma_split_from_shift(s, j + 1);
        assert(r.subrange(0, j - i) =~= s.subrange(i, j));
        assert(s.subrange(j + 1, s.len() as int) =~= r.subrange(j - i + 1, r.len() as int));
        lemma_split_from_shift(r, j - i + 1);
        assert(seq![s.subrange(i, j)] + split_from(s, j + 1) =~= seq![r.subrange(0, j - i)]
            + split_from(r, j - i + 1));
    }
}

/// A string without separators is a single segment.
pub proof fn lemma_split_single(t: Seq<char>)
    requires
        forall|k: int| 0 <= k < t.len() ==> t[k] != '/',
    ensures
        split_slash(t) == seq![t],
{
    lemma_first_break_at(t, 0, t.len() as int);
    assert(t.subrange(0, t.len() as int) =~= t);
}

/// Splitting `t + "/" + r`, for a separator-free `t`, yields `t`
/// followed by the segments of `r`.
pub proof fn lemma_split_prepend(t: Seq<char>, r: Seq<char>)
    requires
        forall|k: int| 0 <= k < t.len() ==> t[k] != '/',
    ensures
        split_slash(t + "/"@ + r) == seq![t] + split_slash(r),
{
    let u = t + "/"@ + r;
    reveal_strlit("/");
    assert(u[t.len() as int] == '/');
    assert(forall|k: int| 0 <= k < t.len() ==> u[k] == t[k]);
    lemma_first_break_at(u, 0, t.len() as int);
    assert(u.subrange(0, t.len() as int) =~= t);
    lemma_split_from_shift(u, t.len() as int + 1);
    assert(u.subrange(t.len() as int + 1, u.len() as int) =~= r);
}

proof fn lemma_split_determines_from(s1: Seq<char>, i1: int, s2: Seq<char>, i2: int)
    requires
        0 <= i1 <= s1.len(),
        0 <= i2 <= s2.len(),
        split_from(s1, i1) == split_from(s2, i2),
    ensures
        s1.subrange(i1, s1.len() as int) == s2.subrange(i2, s2.len() as int),
    decreases s1.len() - i1,
{
    let j1 = first_break(s1, i1);
    let j2 = first_break(s2, i2);
    lemma_first_break_bounds(s1, i1);
    lemma_first_break_bounds(s2, i2);
    lemma_first_break_is_next(s1, i1);
    lemma_first_break_is_next(s2, i2);
    reveal_strlit("/");
    let sp1 = split_from(s1, i1);
    let sp2 = split_from(s2, i2);
    if j1 >= s1.len() {
        assert(sp1.len() == 1);
        if j2 < s2.len() {
            assert(split_from(s2, j2 + 1).len() >= 1);
            assert(sp2.len() >= 2);
        }
        assert(s1.subrange(i1, s1.len() as int) == sp1[0]);
        assert(s2.subrange(i2, s2.len() as int) == sp2[0]);
    } else {
        assert(split_from(s1, j1 + 1).len() >= 1);
        assert(sp1.len() >= 2);
        if j2 >= s2.len() {
            assert(sp2.len() == 1);
        }
        assert(s1.subrange(i1, j1) == sp1[0]);
        assert(s2.subrange(i2, j2) == sp2[0]);
        assert(j1 - i1 == j2 - i2) by {
            assert(sp1[0].len() == j1 - i1);
            assert(sp2[0].len() == j2 - i2);
        };
        assert(split_from(s1, j1 + 1) =~= sp1.subrange(1, sp1.len() as int));
        assert(split_from(s2, j2 + 1) =~= sp2.subrange(1, sp2.len() as int));
        lemma_split_determines_from(s1, j1 + 1, s2, j2 + 1);
        assert(s1.subrange(i1, s1.len() as int) =~= s1.subrange(i1, j1) + "/"@ + s1.subrange(
            j1 + 1,
            s1.len() as int,
        ));
        assert(s2.subrange(i2, s2.len() as int) =~= s2.subrange(i2, j2) + "/"@ + s2.subrange(
            j2 + 1,
            s2.len() as int,
        ));
    }
}

/// Equal segment decompositions come only from equal strings: the
/// decomposition determines the path text.
pub proof fn lemma_split_determines(s1: Seq<char>, s2: Seq<char>)
    requires
        split_slash(s1) == split_slash(s2),
    ensures
        s1 == s2,
{
    lemma_split_determines_from(s1, 0, s2, 0);
    assert(s1.subrange(0, s1.len() as int) =~= s1);
    assert(s2.subrange(0, s2.len() as int) =~= s2);
}

/// The position of the last occurrence of `c` in `s`, or `-1` if there
/// is none.
pub open spec fn last_char_pos(s: Seq<char>, c: char) -> int
    decreases s.len(),
{
    if s.len() == 0 {
        -1
    } else if s[s.len() - 1] == c {
        s.len() - 1
    } else {
        last_char_pos(s.drop_last(), c)
    }
}

/// Characterize `last_char_pos` when an occurrence exists.
pub proof fn lemma_last_char_pos_at(s: Seq<char>, c: char, p: int)
    requires
        0 <= p < s.len(),
        s[p] == c,
        forall|k: int| p < k < s.len() ==> s[k] != c,
    ensures
        last_char_pos(s, c) == p,
    decreases s.len(),
{
    if p < s.len() - 1 {
        assert(forall|k: int| 0 <= k < s.drop_last().len() ==> s.drop_last()[k] == s[k]);
        lemma_last_char_pos_at(s.drop_last(), c, p);
    }
}

/// Characterize `last_char_pos` when no occurrence exists.
pub proof fn lemma_last_char_pos_none(s: Seq<char>, c: char)
    requires
        forall|k: int| 0 <= k < s.len() ==> s[k] != c,
    ensures
        last_char_pos(s, c) == -1,
    decreases s.len(),
{
    if s.len() > 0 {
        assert(forall|k: int| 0 <= k < s.drop_last().len() ==> s.drop_last()[k] == s[k]);
        lemma_last_char_pos_none(s.drop_last(), c);
    }
}

/// The bounds of `last_char_pos`.
pub proof fn lemma_last_char_pos_bounds(s: Seq<char>, c: char)
    ensures
        -1 <= last_char_pos(s, c) < s.len(),
        last_char_pos(s, c) >= 0 ==> s[last_char_pos(s, c)] == c,
    decreases s.len(),
{
    if s.len() > 0 && s[s.len() - 1] != c {
        lemma_last_char_pos_bounds(s.drop_last(), c);
        assert(forall|k: int| 0 <= k < s.drop_last().len() ==> s.drop_last()[k] == s[k]);
    }
}

/// Find the first `/` at or after `from`, or the end of the string.
pub fn next_break(s: &str, from: usize) -> (j: usize)
    requires
        from <= s@.len(),
    ensures
        j == first_break(s@, from as int),
        from <= j <= s@.len(),
{
    let n = s.unicode_len();
    let mut j = from;
    while j < n && s.get_char(j) != '/'
        invariant
            from <= j <= n,
            n == s@.len(),
            forall|k: int| from <= k < j ==> s@[k] != '/',
        decreases n - j,
    {
        j += 1;
    }
    proof {
        lemma_first_break_at(s@, from as int, j as int);
    }
    j
}

/// Find the last occurrence of `c` in `s`.
pub fn rfind_char(s: &str, c: char) -> (r: Option<usize>)
    ensures
        match r {
            Some(p) => last_char_pos(s@, c) == p as int && p < s@.len(),
            None => last_char_pos(s@, c) == -1,
        },
{
    let n = s.unicode_len();
    let mut j = n;
    while j > 0
        invariant
            j <= n,
            n == s@.len(),
            forall|k: int| j <= k < n ==> s@[k] != c,
        decreases j,
    {
        j -= 1;
        if s.get_char(j) == c {
            proof {
                lemma_last_char_pos_at(s@, c, j as int);
            }
            return Some(j);
        }
    }
    proof {
        lemma_last_char_pos_none(s@, c);
    }
    None
}

} // verus!
