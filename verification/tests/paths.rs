use korp_mono::analysed::path::{is_analysed_corpus_dir, is_corpus_dir, AnalysedFilePath};
use korp_mono::korp_mono::path::KorpMonoPath;

#[test]
fn korp_mono_path_from_analysed_path() {
    let analysed_path = AnalysedFilePath {
        inner: "/some/user/maybe/root/corpus-xxx/analysed/some/more/stuff/somefile.xml".into(),
    };
    let expected_path = KorpMonoPath {
        inner: "/some/user/maybe/root/corpus-xxx/korp_mono/some/more/stuff/somefile.xml".into(),
    };
    assert_eq!(KorpMonoPath::from(&analysed_path), expected_path);
}

#[test]
fn derivation_keeps_other_segments() {
    let p = AnalysedFilePath::new_unchecked("corpus-sme/analysed/a/b.xml".to_string());
    let out = KorpMonoPath::from(&p);
    assert_eq!(out.inner.as_str(), "corpus-sme/korp_mono/a/b.xml");
}

#[test]
fn derivation_without_analysed_segment_is_identity() {
    let p = AnalysedFilePath::new_unchecked("/plain/path/file.xml".to_string());
    let out = KorpMonoPath::from(&p);
    assert_eq!(out.inner.as_str(), "/plain/path/file.xml");
}

#[test]
fn derivation_renames_only_the_designated_segment() {
    // only the first analysed segment is the analysed-data directory;
    // a deeper segment that happens to share the name is preserved
    let p = AnalysedFilePath::new_unchecked(
        "corpus-abc/analysed/x/analysed/f.xml".to_string(),
    );
    let out = KorpMonoPath::from(&p);
    assert_eq!(out.inner.as_str(), "corpus-abc/korp_mono/x/analysed/f.xml");
}

#[test]
fn derivation_does_not_collide_below_the_designated_segment() {
    // two distinct inputs from the same corpus derive distinct outputs
    let p1 = AnalysedFilePath::new_unchecked(
        "corpus-abc/analysed/x/analysed/f.xml".to_string(),
    );
    let p2 = AnalysedFilePath::new_unchecked(
        "corpus-abc/analysed/x/korp_mono/f.xml".to_string(),
    );
    assert_ne!(KorpMonoPath::from(&p1), KorpMonoPath::from(&p2));
}

#[test]
fn derivation_is_deterministic() {
    let p1 = AnalysedFilePath::new_unchecked("/r/corpus-abc/analysed/f.xml".to_string());
    let p2 = AnalysedFilePath::new_unchecked("/r/corpus-abc/analysed/f.xml".to_string());
    assert_eq!(KorpMonoPath::from(&p1), KorpMonoPath::from(&p2));
}

#[test]
fn corpus_dir_recognition() {
    assert!(is_corpus_dir("corpus-sme"));
    assert!(is_corpus_dir("corpus-xyz"));
    assert!(!is_corpus_dir("corpus-SME"));
    assert!(!is_corpus_dir("corpus-sm"));
    assert!(!is_corpus_dir("corpus-smex"));
    assert!(!is_corpus_dir("corpus"));
    assert!(!is_corpus_dir("analysed"));
    assert!(!is_corpus_dir(""));
}

#[test]
fn analysed_corpus_dir_recognition() {
    assert!(is_analysed_corpus_dir(
        "/home/u/corpus-sme/analysed/sub/file.xml"
    ));
    // the analysed segment may come anywhere after the corpus segment
    assert!(is_analysed_corpus_dir("/corpus-sme/other/analysed/f.xml"));
    // no corpus segment before the analysed segment
    assert!(!is_analysed_corpus_dir("/home/u/analysed/corpus-sme/f.xml"));
    // no analysed segment at all
    assert!(!is_analysed_corpus_dir("/home/u/corpus-sme/converted/f.xml"));
    // analysed must be a whole segment
    assert!(!is_analysed_corpus_dir("/corpus-sme/analysed-more/f.xml"));
    assert!(!is_analysed_corpus_dir(""));
}

#[test]
fn try_from_accepts_and_rejects() {
    let good = "/data/corpus-sma/analysed/adm/doc.xml".to_string();
    let r = AnalysedFilePath::try_from(&good);
    assert!(r.is_ok());
    assert_eq!(r.unwrap().inner, good);

    let bad = "/data/corpus-sma/plain/adm/doc.xml".to_string();
    assert!(AnalysedFilePath::try_from(&bad).is_err());
}

#[test]
fn parent_of_output_path() {
    let p = KorpMonoPath {
        inner: "/a/b/corpus-sme/korp_mono/c/d.xml".to_string(),
    };
    assert_eq!(p.parent(), "/a/b/corpus-sme/korp_mono/c");
    let q = KorpMonoPath {
        inner: "file.xml".to_string(),
    };
    assert_eq!(q.parent(), "");
}

#[test]
fn log_path_replaces_extension() {
    let p = KorpMonoPath {
        inner: "/a/corpus-sme/korp_mono/d.xml".to_string(),
    };
    assert_eq!(p.log_path().as_str(), "/a/corpus-sme/korp_mono/d.log");
    let no_ext = KorpMonoPath {
        inner: "/a/b/file".to_string(),
    };
    assert_eq!(no_ext.log_path().as_str(), "/a/b/file.log");
    let hidden = KorpMonoPath {
        inner: "/a/b/.hidden".to_string(),
    };
    assert_eq!(hidden.log_path().as_str(), "/a/b/.hidden.log");
}
