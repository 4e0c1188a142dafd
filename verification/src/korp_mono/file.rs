//! The korp_mono output document: the root `text` element with its
//! attributes, holding one `sentence` element per sentence of the
//! analysis forest, numbered from 1, each carrying the flattened
//! tab-separated records of its tokens.

use vstd::prelude::*;

use crate::analysed::file::{Genre, ParsedAnalysedDocument, ParsedBody, Person};
use crate::analysis;
use crate::digits::{spec_decimal, u64_to_string};
use crate::parse_year::{opt_str_view, parse_year, spec_parse_year};
use crate::process_sentence::{process_sentence, spec_process_sentence};
use crate::strings::str_eq;

verus! {

/// The genre label of the output domain for one genre code: a fixed
/// closed table; unmapped codes yield the empty string.
pub open spec fn spec_genre_label(code: Seq<char>) -> Seq<char> {
    if code == "admin"@ || code == "administration"@ {
        "administration"@
    } else if code == "bible"@ {
        "bible"@
    } else if code == "facta"@ {
        "facts"@
    } else if code == "ficti"@ || code == "literature"@ {
        "fiction"@
    } else if code == "law"@ || code == "laws"@ {
        "law"@
    } else if code == "news"@ {
        "news"@
    } else if code == "science"@ {
        "science"@
    } else if code == "blogs"@ {
        "blog"@
    } else if code == "wikipedia"@ {
        "wikipedia"@
    } else {
        Seq::empty()
    }
}

/// The output-domain tag of a document: the mapped genre code, or the
/// empty string when the genre is absent or unmapped.
pub open spec fn spec_gt_domain(genre: Option<Genre>) -> Seq<char> {
    match genre {
        Some(g) => spec_genre_label(g.code@),
        None => Seq::empty(),
    }
}

/// The view of an optional string, the empty string when absent.
pub open spec fn opt_or_empty(o: Option<String>) -> Seq<char> {
    match o {
        Some(s) => s@,
        None => Seq::empty(),
    }
}

/// The view of an optional owned string.
pub open spec fn opt_string_view(o: Option<String>) -> Option<Seq<char>> {
    match o {
        Some(s) => Some(s@),
        None => None,
    }
}

/// The (first name, last name, nationality) derived from the author
/// list: the first author's fields when the list is non-empty, each
/// absent field and the wholly absent list alike yielding the empty
/// string.
pub open spec fn spec_author_triple(authors: Option<Vec<Person>>) -> (
    Seq<char>,
    Seq<char>,
    Seq<char>,
) {
    match authors {
        None => (Seq::empty(), Seq::empty(), Seq::empty()),
        Some(v) => if v@.len() == 0 {
            (Seq::empty(), Seq::empty(), Seq::empty())
        } else {
            (
                opt_or_empty(v@[0].firstname),
                opt_or_empty(v@[0].lastname),
                opt_or_empty(v@[0].nationality),
            )
        },
    }
}

/// The sentences of a parsed body, an empty forest when the analysis
/// blob could not be parsed.
pub open spec fn body_sentences(b: ParsedBody) -> Seq<analysis::Sentence> {
    match b.sentences {
        None => Seq::empty(),
        Some(v) => v@,
    }
}

/// One `<sentence id="N">` element of the output document, with its
/// flattened body text.
pub struct Sentence {
    pub id: String,
    pub text: String,
}

impl Sentence {
    pub fn new(id: String, text: String) -> (r: Self)
        ensures
            r.id == id,
            r.text == text,
    {
        Self { id, text }
    }
}

/// The root element of the korp_mono file. The lower-case name is kept
/// so the serialized element reads `<text>`.
#[allow(non_camel_case_types)]
pub struct text {
    pub title: Option<String>,
    pub lang: Option<String>,
    pub orig_lang: Option<String>,
    pub first_name: Option<String>,
    pub last_name: Option<String>,
    pub nationality: Option<String>,
    pub gt_domain: Option<String>,
    pub date: Option<String>,
    pub datefrom: Option<String>,
    pub dateto: Option<String>,
    pub timefrom: Option<String>,
    pub timeto: Option<String>,
    pub sentence: Vec<Sentence>,
}

/// Map a genre code through the fixed genre table.
fn genre_label(code: &str) -> (r: String)
    ensures
        r@ == spec_genre_label(code@),
{
    if str_eq(code, "admin") || str_eq(code, "administration") {
        "administration".to_owned()
    } else if str_eq(code, "bible") {
        "bible".to_owned()
    } else if str_eq(code, "facta") {
        "facts".to_owned()
    } else if str_eq(code, "ficti") || str_eq(code, "literature") {
        "fiction".to_owned()
    } else if str_eq(code, "law") || str_eq(code, "laws") {
        "law".to_owned()
    } else if str_eq(code, "news") {
        "news".to_owned()
    } else if str_eq(code, "science") {
        "science".to_owned()
    } else if str_eq(code, "blogs") {
        "blog".to_owned()
    } else if str_eq(code, "wikipedia") {
        "wikipedia".to_owned()
    } else {
        String::new()
    }
}

/// Clone an optional string, the empty string when absent.
fn clone_or_empty(o: &Option<String>) -> (r: String)
    ensures
        r@ == opt_or_empty(*o),
{
    match o {
        Some(s) => s.clone(),
        None => String::new(),
    }
}

/// Number and flatten the sentences of the analysis forest, ids
/// starting at 1 in forest order.
fn build_sentences(sents: &Vec<analysis::Sentence>) -> (r: Vec<Sentence>)
    ensures
        r@.len() == sents@.len(),
        forall|i: int|
            0 <= i < r@.len() ==> (#[trigger] r@[i]).id@ == spec_decimal((i + 1) as nat)
                && r@[i].text@ == spec_process_sentence(sents@[i]),
{
    let mut r: Vec<Sentence> = Vec::new();
    let mut i: usize = 0;
    while i < sents.len()
        invariant
            i <= sents@.len(),
            r@.len() == i,
            forall|j: int|
                0 <= j < i ==> (#[trigger] r@[j]).id@ == spec_decimal((j + 1) as nat)
                    && r@[j].text@ == spec_process_sentence(sents@[j]),
        decreases sents@.len() - i,
    {
        let id = u64_to_string((i + 1) as u64);
        let body = process_sentence(&sents[i]);
        r.push(Sentence::new(id, body));
        i += 1;
    }
    r
}

impl text {
    /// Build the output document from a parsed analysed document:
    /// header fields are copied or derived, the date fields come from
    /// the year normalizer, the times are fixed constants, and the
    /// sentences are numbered from 1 and flattened in forest order.
    pub fn from(doc: ParsedAnalysedDocument) -> (r: text)
        ensures
            r.title == doc.header.title,
            r.lang == doc.lang,
            r.orig_lang == doc.header.translated_from,
            r.first_name is Some && r.first_name->Some_0@ == spec_author_triple(
                doc.header.authors,
            ).0,
            r.last_name is Some && r.last_name->Some_0@ == spec_author_triple(
                doc.header.authors,
            ).1,
            r.nationality is Some && r.nationality->Some_0@ == spec_author_triple(
                doc.header.authors,
            ).2,
            r.gt_domain is Some && r.gt_domain->Some_0@ == spec_gt_domain(doc.header.genre),
            r.date is Some && r.date->Some_0@ == spec_parse_year(
                opt_string_view(doc.header.year),
            ).0,
            r.datefrom is Some && r.datefrom->Some_0@ == spec_parse_year(
                opt_string_view(doc.header.year),
            ).1,
            r.dateto is Some && r.dateto->Some_0@ == spec_parse_year(
                opt_string_view(doc.header.year),
            ).2,
            r.timefrom is Some && r.timefrom->Some_0@ == "000000"@,
            r.timeto is Some && r.timeto->Some_0@ == "235959"@,
            r.sentence@.len() == body_sentences(doc.body).len(),
            forall|i: int|
                0 <= i < r.sentence@.len() ==> (#[trigger] r.sentence@[i]).id@ == spec_decimal(
                    (i + 1) as nat,
                ) && r.sentence@[i].text@ == spec_process_sentence(body_sentences(doc.body)[i]),
    {
        let gt_domain = match &doc.header.genre {
            Some(genre) => genre_label(genre.code.as_str()),
            None => String::new(),
        };
        let year_ref: Option<&str> = match &doc.header.year {
            Some(y) => Some(y.as_str()),
            None => None,
        };
        proof {
            assert(opt_str_view(year_ref) == opt_string_view(doc.header.year));
        }
        let (date, datefrom, dateto) = parse_year(year_ref);
        let (first_name, last_name, nationality) = match &doc.header.authors {
            None => (String::new(), String::new(), String::new()),
            Some(authors) => {
                if authors.len() == 0 {
                    (String::new(), String::new(), String::new())
                } else {
                    let person = &authors[0];
                    (
                        clone_or_empty(&person.firstname),
                        clone_or_empty(&person.lastname),
                        clone_or_empty(&person.nationality),
                    )
                }
            },
        };
        let sentence = match &doc.body.sentences {
            None => Vec::new(),
            Some(sents) => build_sentences(sents),
        };
        text {
            title: doc.header.title,
            lang: doc.lang,
            orig_lang: doc.header.translated_from,
            first_name: Some(first_name),
            last_name: Some(last_name),
            nationality: Some(nationality),
            gt_domain: Some(gt_domain),
            date: Some(date),
            datefrom: Some(datefrom),
            dateto: Some(dateto),
            timefrom: Some("000000".to_owned()),
            timeto: Some("235959".to_owned()),
            sentence,
        }
    }
}

/// An absent author list and a first author with all fields absent
/// yield the same empty-string triple: the output never carries a
/// missing author field.
pub proof fn lemma_author_absent_cases(authors: Option<Vec<Person>>)
    requires
        match authors {
            None => true,
            Some(v) => v@.len() == 0 || (v@[0].firstname is None && v@[0].lastname is None
                && v@[0].nationality is None),
        },
    ensures
        spec_author_triple(authors) == (
            Seq::<char>::empty(),
            Seq::<char>::empty(),
            Seq::<char>::empty(),
        ),
{
}

} // verus!
