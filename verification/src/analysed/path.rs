//! The path to an analysed xml file, and the test that a path lies
//! inside the `analysed` directory of a corpus.

use vstd::prelude::*;

use crate::segments::{first_break, next_break, split_from, split_slash};
use crate::strings::{starts_with, str_eq, str_starts_with};

verus! {

/// The path to an analysed xml file.
#[derive(Debug, Clone)]
pub struct AnalysedFilePath {
    pub inner: String,
}

impl AnalysedFilePath {
    /// Create a new AnalysedFilePath from a path string that is assumed
    /// to point to a file or directory inside a `corpus-xxx/analysed`
    /// directory.
    pub fn new_unchecked(pb: String) -> (r: Self)
        ensures
            r.inner@ == pb@,
    {
        Self { inner: pb }
    }

    /// Validate a path: accepted exactly when it lies inside the
    /// `analysed` directory of a corpus; rejected with a description
    /// otherwise.
    pub fn try_from(value: &String) -> (r: Result<Self, String>)
        ensures
            r is Ok <==> spec_is_analysed_corpus_dir(value@),
            r is Ok ==> r->Ok_0.inner@ == value@,
            r is Err ==> r->Err_0@ == "'.../corpus-xxx/analysed/...' not found in path'"@,
    {
        if is_analysed_corpus_dir(value.as_str()) {
            Ok(Self { inner: value.clone() })
        } else {
            Err("'.../corpus-xxx/analysed/...' not found in path'".to_owned())
        }
    }
}

/// Is `c` a lowercase ascii letter?
pub open spec fn is_lowercase_letter(c: char) -> bool {
    97 <= c as u32 <= 122
}

/// Is the segment a corpus directory name: `corpus-` followed by
/// exactly three lowercase letters?
pub open spec fn is_corpus_seg(t: Seq<char>) -> bool {
    t.len() == 10 && starts_with(t, "corpus-"@) && is_lowercase_letter(t[7])
        && is_lowercase_letter(t[8]) && is_lowercase_letter(t[9])
}

/// Does the path contain a corpus segment followed, anywhere later, by
/// a segment named `analysed`?
pub open spec fn spec_is_analysed_corpus_dir(s: Seq<char>) -> bool {
    exists|i: int, j: int|
        0 <= i < j < split_slash(s).len() && is_corpus_seg(#[trigger] split_slash(s)[i])
            && #[trigger] split_slash(s)[j] == "analysed"@
}

/// Is this path segment a corpus directory name, `corpus-` followed by
/// exactly three lowercase letters?
pub fn is_corpus_dir(component: &str) -> (r: bool)
    ensures
        r == is_corpus_seg(component@),
{
    proof {
        reveal_strlit("corpus-");
    }
    if component.unicode_len() != 10 {
        return false;
    }
    if !str_starts_with(component, "corpus-") {
        return false;
    }
    let mut i: usize = 7;
    while i < 10
        invariant
            7 <= i <= 10,
            component@.len() == 10,
            forall|k: int| 7 <= k < i ==> is_lowercase_letter(component@[k]),
        decreases 10 - i,
    {
        let v = component.get_char(i) as u32;
        if v < 97 || v > 122 {
            return false;
        }
        i += 1;
    }
    true
}

/// Is this path inside the `analysed` directory of a `corpus-xxx`
/// folder? The segments are scanned from the start; the path qualifies
/// when a corpus segment is followed, anywhere later, by a segment
/// named exactly `analysed`.
pub fn is_analysed_corpus_dir(path: &str) -> (r: bool)
    ensures
        r == spec_is_analysed_corpus_dir(path@),
{
    let ghost full = split_slash(path@);
    let n = path.unicode_len();
    let mut seg_start: usize = 0;
    let mut found_corpus = false;
    let ghost mut k: int = 0;
    proof {
        assert(full.subrange(0, full.len() as int) =~= full);
    }
    loop
        invariant
            seg_start <= n,
            n == path@.len(),
            0 <= k < full.len(),
            full == split_slash(path@),
            split_from(path@, seg_start as int) == full.subrange(k, full.len() as int),
            found_corpus == exists|ii: int| 0 <= ii < k && is_corpus_seg(#[trigger] full[ii]),
            forall|jj: int|
                0 <= jj < k && #[trigger] full[jj] == "analysed"@ ==> !(exists|ii: int|
                    0 <= ii < jj && is_corpus_seg(#[trigger] full[ii])),
        decreases n - seg_start,
    {
        let j = next_break(path, seg_start);
        let seg = path.substring_char(seg_start, j);
        proof {
            assert(split_from(path@, seg_start as int)[0] == path@.subrange(
                seg_start as int,
                first_break(path@, seg_start as int),
            ));
            assert(full[k] == seg@);
        }
        if found_corpus && str_eq(seg, "analysed") {
            return true;
        }
        if is_corpus_dir(seg) {
            found_corpus = true;
        }
        if j == n {
            proof {
                assert(full.subrange(k, full.len() as int).len() == 1);
                assert(k == full.len() - 1);
            }
            return false;
        }
        proof {
            let rest = split_from(path@, j as int + 1);
            assert(split_from(path@, seg_start as int) == seq![
                path@.subrange(seg_start as int, j as int),
            ] + rest);
            assert(rest.len() >= 1);
            assert(rest =~= full.subrange(k + 1, full.len() as int)) by {
                assert(full.subrange(k, full.len() as int) == seq![seg@] + rest);
                assert(forall|m: int|
                    0 <= m < rest.len() ==> rest[m] == (seq![seg@] + rest)[m + 1]);
            };
            k = k + 1;
        }
        seg_start = j + 1;
    }
}

} // verus!
