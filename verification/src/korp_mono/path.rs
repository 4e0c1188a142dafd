//! The path to a korp_mono output file, derived from an analysed file
//! path by renaming its designated segment — the first one named
//! `analysed` — to `korp_mono` and keeping every other segment.

use vstd::prelude::*;

use crate::analysed::path::AnalysedFilePath;
use crate::segments::{
    first_break, last_char_pos, lemma_first_break_bounds, lemma_first_break_is_next,
    lemma_split_determines, lemma_split_from_shift, lemma_split_prepend, lemma_split_single,
    next_break, rfind_char, split_from, split_slash,
};
use crate::strings::str_eq;

verus! {

/// The index of the first segment named `analysed` — the designated
/// segment of the derivation — or `-1` if there is none.
pub open spec fn first_analysed(segs: Seq<Seq<char>>) -> int
    decreases segs.len(),
{
    if segs.len() == 0 {
        -1
    } else if segs[0] == "analysed"@ {
        0
    } else {
        let r = first_analysed(segs.subrange(1, segs.len() as int));
        if r < 0 {
            -1
        } else {
            r + 1
        }
    }
}

/// The segment list with the designated segment renamed to
/// `korp_mono`; unchanged when no segment is named `analysed`.
pub open spec fn substituted(segs: Seq<Seq<char>>) -> Seq<Seq<char>> {
    if first_analysed(segs) < 0 {
        segs
    } else {
        segs.update(first_analysed(segs), "korp_mono"@)
    }
}

/// The designated index is in bounds, holds `analysed`, and is the
/// first such segment.
pub proof fn lemma_first_analysed_found(segs: Seq<Seq<char>>)
    requires
        first_analysed(segs) >= 0,
    ensures
        0 <= first_analysed(segs) < segs.len(),
        segs[first_analysed(segs)] == "analysed"@,
        forall|k: int| 0 <= k < first_analysed(segs) ==> segs[k] != "analysed"@,
    decreases segs.len(),
{
    if segs.len() > 0 && segs[0] != "analysed"@ {
        let rest = segs.subrange(1, segs.len() as int);
        if first_analysed(rest) >= 0 {
            lemma_first_analysed_found(rest);
            assert(forall|k: int| 1 <= k < segs.len() ==> segs[k] == rest[k - 1]);
        }
    }
}

/// When there is no designated index, no segment is named `analysed`.
pub proof fn lemma_first_analysed_none(segs: Seq<Seq<char>>)
    requires
        first_analysed(segs) < 0,
    ensures
        forall|k: int| 0 <= k < segs.len() ==> segs[k] != "analysed"@,
    decreases segs.len(),
{
    if segs.len() > 0 {
        let rest = segs.subrange(1, segs.len() as int);
        lemma_first_analysed_none(rest);
        assert(forall|k: int| 1 <= k < segs.len() ==> segs[k] == rest[k - 1]);
    }
}

/// The derived path text of `s[i..]`: its segments joined with `/`
/// again, the first `analysed` segment renamed — unless `replaced`
/// says the designated segment was already passed.
pub open spec fn derive_from(s: Seq<char>, i: int, replaced: bool) -> Seq<char>
    decreases s.len() - i,
    when 0 <= i <= s.len()
    via derive_from_decreases
{
    let j = first_break(s, i);
    if j >= s.len() {
        let seg = s.subrange(i, s.len() as int);
        if !replaced && seg == "analysed"@ {
            "korp_mono"@
        } else {
            seg
        }
    } else {
        let seg = s.subrange(i, j);
        let head = if !replaced && seg == "analysed"@ {
            "korp_mono"@
        } else {
            seg
        };
        head + "/"@ + derive_from(s, j + 1, replaced || seg == "analysed"@)
    }
}

#[via_fn]
proof fn derive_from_decreases(s: Seq<char>, i: int, replaced: bool) {
    if 0 <= i <= s.len() {
        lemma_first_break_bounds(s, i);
    }
}

/// The korp_mono path text derived from an analysed path text.
pub open spec fn korp_mono_of(s: Seq<char>) -> Seq<char> {
    derive_from(s, 0, false)
}

/// The start of the parent prefix: everything before the last `/`, or
/// nothing when the path has no separator.
pub open spec fn spec_parent(s: Seq<char>) -> Seq<char> {
    if last_char_pos(s, '/') < 0 {
        s.subrange(0, 0)
    } else {
        s.subrange(0, last_char_pos(s, '/'))
    }
}

/// The path with its extension replaced by `log`: the part after the
/// last `.` of the final segment is replaced, or `.log` is appended
/// when the final segment has no extension.
pub open spec fn spec_log_path(s: Seq<char>) -> Seq<char> {
    let d = last_char_pos(s, '.');
    if d > last_char_pos(s, '/') + 1 {
        s.subrange(0, d) + ".log"@
    } else {
        s + ".log"@
    }
}

/// The path to a korp_mono output file.
#[derive(Debug)]
pub struct KorpMonoPath {
    pub inner: String,
}

impl PartialEq for KorpMonoPath {
    fn eq(&self, other: &Self) -> (r: bool) {
        str_eq(self.inner.as_str(), other.inner.as_str())
    }
}

impl vstd::std_specs::cmp::PartialEqSpecImpl for KorpMonoPath {
    open spec fn obeys_eq_spec() -> bool {
        true
    }

    open spec fn eq_spec(&self, other: &Self) -> bool {
        self.inner@ == other.inner@
    }
}

impl KorpMonoPath {
    /// Everything before the last `/`: the directory that must exist
    /// before the output file can be written.
    pub fn parent(&self) -> (r: &str)
        ensures
            r@ == spec_parent(self.inner@),
    {
        match rfind_char(self.inner.as_str(), '/') {
            Some(p) => self.inner.as_str().substring_char(0, p),
            None => self.inner.as_str().substring_char(0, 0),
        }
    }

    /// The sibling path of the per-file diagnostic log: the extension
    /// replaced by `log`.
    pub fn log_path(&self) -> (r: String)
        ensures
            r@ == spec_log_path(self.inner@),
    {
        let s = self.inner.as_str();
        let dot = rfind_char(s, '.');
        let slash = rfind_char(s, '/');
        let cut: Option<usize> = match (dot, slash) {
            (Some(d), Some(p)) => if d > p && d - 1 > p {
                Some(d)
            } else {
                None
            },
            (Some(d), None) => if d > 0 {
                Some(d)
            } else {
                None
            },
            _ => None,
        };
        match cut {
            Some(d) => {
                let mut r = s.substring_char(0, d).to_owned();
                r.append(".log");
                r
            },
            None => {
                let mut r = s.to_owned();
                r.append(".log");
                r
            },
        }
    }

    /// Derive the output path from an analysed path: the first
    /// `analysed` segment becomes `korp_mono`, every other segment is
    /// preserved.
    pub fn from(analysed_file_path: &AnalysedFilePath) -> (r: Self)
        ensures
            r.inner@ == korp_mono_of(analysed_file_path.inner@),
    {
        let s = analysed_file_path.inner.as_str();
        let n = s.unicode_len();
        let mut out = String::new();
        let mut seg_start: usize = 0;
        let mut replaced = false;
        proof {
            assert(Seq::<char>::empty() + derive_from(s@, 0, false) =~= derive_from(
                s@,
                0,
                false,
            ));
        }
        loop
            invariant
                seg_start <= n,
                n == s@.len(),
                s@ == analysed_file_path.inner@,
                korp_mono_of(s@) == out@ + derive_from(s@, seg_start as int, replaced),
            decreases n - seg_start,
        {
            let j = next_break(s, seg_start);
            let seg = s.substring_char(seg_start, j);
            let seg_is_analysed = str_eq(seg, "analysed");
            let ghost out0 = out@;
            let ghost head = (if !replaced && seg@ == "analysed"@ {
                "korp_mono"@
            } else {
                seg@
            });
            if !replaced && seg_is_analysed {
                out.append("korp_mono");
            } else {
                out.append(seg);
            }
            if j == n {
                proof {
                    assert(derive_from(s@, seg_start as int, replaced) == head);
                }
                return Self { inner: out };
            }
            out.append("/");
            proof {
                let rest = derive_from(s@, j as int + 1, replaced || seg@ == "analysed"@);
                assert(derive_from(s@, seg_start as int, replaced) == head + "/"@ + rest);
                assert(out0 + (head + "/"@ + rest) =~= (out0 + head + "/"@) + rest);
            }
            replaced = replaced || seg_is_analysed;
            seg_start = j + 1;
        }
    }
}

/// Deriving the output path is deterministic: the same analysed path
/// text always yields the same output path text.
pub proof fn lemma_derivation_deterministic(p1: Seq<char>, p2: Seq<char>)
    requires
        p1 == p2,
    ensures
        korp_mono_of(p1) == korp_mono_of(p2),
{
}

proof fn lemma_korp_mono_seg_no_slash()
    ensures
        forall|k: int| 0 <= k < "korp_mono"@.len() ==> "korp_mono"@[k] != '/',
{
    reveal_strlit("korp_mono");
}

/// Once the designated segment is behind, the derivation copies the
/// rest of the path unchanged.
proof fn lemma_derive_replaced_identity(s: Seq<char>, i: int)
    requires
        0 <= i <= s.len(),
    ensures
        derive_from(s, i, true) == s.subrange(i, s.len() as int),
    decreases s.len() - i,
{
    let j = first_break(s, i);
    lemma_first_break_bounds(s, i);
    lemma_first_break_is_next(s, i);
    if j < s.len() {
        lemma_derive_replaced_identity(s, j + 1);
        reveal_strlit("/");
        assert(s.subrange(i, j) + "/"@ + s.subrange(j + 1, s.len() as int) =~= s.subrange(
            i,
            s.len() as int,
        ));
    }
}

proof fn lemma_derive_segmentwise(s: Seq<char>, i: int)
    requires
        0 <= i <= s.len(),
    ensures
        split_slash(derive_from(s, i, false)) == substituted(split_from(s, i)),
    decreases s.len() - i,
{
    let j = first_break(s, i);
    lemma_first_break_bounds(s, i);
    lemma_first_break_is_next(s, i);
    lemma_korp_mono_seg_no_slash();
    let segs = split_from(s, i);
    if j >= s.len() {
        let seg = s.subrange(i, s.len() as int);
        assert(segs == seq![seg]);
        assert(seq![seg].subrange(1, 1) =~= Seq::<Seq<char>>::empty());
        if seg == "analysed"@ {
            lemma_split_single("korp_mono"@);
            assert(first_analysed(segs) == 0);
            assert(substituted(segs) =~= seq!["korp_mono"@]);
        } else {
            assert(forall|k: int| 0 <= k < seg.len() ==> seg[k] != '/');
            lemma_split_single(seg);
            assert(segs.subrange(1, segs.len() as int) =~= Seq::<Seq<char>>::empty());
            assert(first_analysed(Seq::<Seq<char>>::empty()) == -1);
            assert(first_analysed(segs) < 0);
        }
    } else {
        let seg = s.subrange(i, j);
        let rest = split_from(s, j + 1);
        assert(segs == seq![seg] + rest);
        assert(segs.subrange(1, segs.len() as int) =~= rest);
        assert(forall|k: int| 0 <= k < seg.len() ==> seg[k] != '/');
        if seg == "analysed"@ {
            lemma_derive_replaced_identity(s, j + 1);
            lemma_split_from_shift(s, j + 1);
            lemma_split_prepend("korp_mono"@, s.subrange(j + 1, s.len() as int));
            assert(split_slash(derive_from(s, i, false)) == seq!["korp_mono"@] + rest);
            assert(first_analysed(segs) == 0);
            assert(substituted(segs) =~= seq!["korp_mono"@] + rest);
        } else {
            lemma_derive_segmentwise(s, j + 1);
            lemma_split_prepend(seg, derive_from(s, j + 1, false));
            assert(split_slash(derive_from(s, i, false)) == seq![seg] + substituted(rest));
            let fr = first_analysed(rest);
            if fr < 0 {
                assert(first_analysed(segs) < 0);
                assert(substituted(segs) == seq![seg] + substituted(rest));
            } else {
                lemma_first_analysed_found(rest);
                assert(first_analysed(segs) == fr + 1);
                assert(substituted(segs) =~= seq![seg] + substituted(rest)) by {
                    assert(substituted(segs) == segs.update(fr + 1, "korp_mono"@));
                    assert(substituted(rest) == rest.update(fr, "korp_mono"@));
                };
            }
        }
    }
}

/// The structural guarantee of the derivation: the derived path's
/// segments are the input path's with exactly the designated segment —
/// the first one named `analysed` — renamed to `korp_mono`; every
/// other segment, before and after it, is preserved, and a path
/// without an `analysed` segment is unchanged.
pub proof fn lemma_output_path_segments(s: Seq<char>)
    ensures
        split_slash(korp_mono_of(s)) == substituted(split_slash(s)),
        split_slash(korp_mono_of(s)).len() == split_slash(s).len(),
        forall|k: int|
            0 <= k < split_slash(s).len() && k != first_analysed(split_slash(s)) ==> split_slash(
                korp_mono_of(s),
            )[k] == split_slash(s)[k],
        first_analysed(split_slash(s)) >= 0 ==> split_slash(korp_mono_of(s))[first_analysed(
            split_slash(s),
        )] == "korp_mono"@,
{
    lemma_derive_segmentwise(s, 0);
    if first_analysed(split_slash(s)) >= 0 {
        lemma_first_analysed_found(split_slash(s));
    }
}

/// Derivation is injective for input paths whose designated segment
/// sits at the same index — as it does for every file discovered under
/// one corpus root, where all paths extend the same
/// `corpus-xxx/analysed` prefix: distinct input paths there derive
/// distinct output paths, so output write targets never collide.
pub proof fn lemma_derivation_injective(p1: Seq<char>, p2: Seq<char>)
    requires
        first_analysed(split_slash(p1)) >= 0,
        first_analysed(split_slash(p1)) == first_analysed(split_slash(p2)),
        korp_mono_of(p1) == korp_mono_of(p2),
    ensures
        p1 == p2,
{
    lemma_output_path_segments(p1);
    lemma_output_path_segments(p2);
    let g1 = split_slash(p1);
    let g2 = split_slash(p2);
    let f = first_analysed(g1);
    lemma_first_analysed_found(g1);
    lemma_first_analysed_found(g2);
    assert(g1.update(f, "korp_mono"@) == g2.update(f, "korp_mono"@));
    assert(g1 =~= g2) by {
        assert(forall|k: int|
            0 <= k < g1.len() && k != f ==> g1[k] == g1.update(f, "korp_mono"@)[k]);
        assert(forall|k: int|
            0 <= k < g2.len() && k != f ==> g2[k] == g2.update(f, "korp_mono"@)[k]);
    };
    lemma_split_determines(p1, p2);
}

} // verus!
