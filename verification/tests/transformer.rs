use korp_mono::analysed::file::{
    Availability, Body, ConversationStatus, Genre, Header, ParsedAnalysedDocument, ParsedBody,
    Person, UnparsedAnalysedDocument,
};
use korp_mono::analysis::{Analysis, Sentence, Token, Word};
use korp_mono::korp_mono::file::text;

fn empty_header() -> Header {
    Header {
        title: None,
        genre: None,
        authors: None,
        year: None,
        conversion_status: ConversationStatus { kind: None },
        availability: Availability { license: None },
        orig_file_name: None,
        translated_from: None,
        parallel_text: None,
    }
}

fn doc_with_header(header: Header) -> ParsedAnalysedDocument {
    ParsedAnalysedDocument {
        lang: Some("sme".to_string()),
        header,
        body: ParsedBody {
            dependency: String::new(),
            sentences: Some(vec![]),
        },
    }
}

fn sentence_of(word_form: &str, lemma: &str) -> Sentence {
    Sentence {
        words: vec![Word {
            tokens: vec![Token {
                word_form: word_form.to_string(),
                lemma: Some(lemma.to_string()),
                analyses: vec![Analysis {
                    pos: "N".to_string(),
                    tags: vec!["N".to_string(), "Sg".to_string()],
                    func: None,
                    deprel: Some((1, 0)),
                }],
            }],
        }],
    }
}

#[test]
fn genre_codes_map_per_fixed_table() {
    let table = [
        ("admin", "administration"),
        ("administration", "administration"),
        ("bible", "bible"),
        ("facta", "facts"),
        ("ficti", "fiction"),
        ("literature", "fiction"),
        ("law", "law"),
        ("laws", "law"),
        ("news", "news"),
        ("science", "science"),
        ("blogs", "blog"),
        ("wikipedia", "wikipedia"),
    ];
    for (code, label) in table.iter() {
        let mut header = empty_header();
        header.genre = Some(Genre {
            code: code.to_string(),
        });
        let out = text::from(doc_with_header(header));
        assert_eq!(out.gt_domain.as_deref(), Some(*label));
    }
}

#[test]
fn unknown_or_absent_genre_maps_to_empty() {
    let mut header = empty_header();
    header.genre = Some(Genre {
        code: "poetry".to_string(),
    });
    let out = text::from(doc_with_header(header));
    assert_eq!(out.gt_domain.as_deref(), Some(""));

    let out = text::from(doc_with_header(empty_header()));
    assert_eq!(out.gt_domain.as_deref(), Some(""));
}

#[test]
fn absent_author_list_yields_empty_fields() {
    let out = text::from(doc_with_header(empty_header()));
    assert_eq!(out.first_name.as_deref(), Some(""));
    assert_eq!(out.last_name.as_deref(), Some(""));
    assert_eq!(out.nationality.as_deref(), Some(""));
}

#[test]
fn author_with_absent_fields_yields_empty_fields() {
    let mut header = empty_header();
    header.authors = Some(vec![Person {
        firstname: None,
        lastname: None,
        sex: None,
        born: None,
        nationality: None,
    }]);
    let out = text::from(doc_with_header(header));
    assert_eq!(out.first_name.as_deref(), Some(""));
    assert_eq!(out.last_name.as_deref(), Some(""));
    assert_eq!(out.nationality.as_deref(), Some(""));
}

#[test]
fn first_author_fields_are_copied() {
    let mut header = empty_header();
    header.authors = Some(vec![
        Person {
            firstname: Some("Anders".to_string()),
            lastname: Some("Sønstebø".to_string()),
            sex: Some("m".to_string()),
            born: None,
            nationality: Some("NO".to_string()),
        },
        Person {
            firstname: Some("Second".to_string()),
            lastname: None,
            sex: None,
            born: None,
            nationality: None,
        },
    ]);
    let out = text::from(doc_with_header(header));
    assert_eq!(out.first_name.as_deref(), Some("Anders"));
    assert_eq!(out.last_name.as_deref(), Some("Sønstebø"));
    assert_eq!(out.nationality.as_deref(), Some("NO"));
}

#[test]
fn year_fields_come_from_the_normalizer() {
    let mut header = empty_header();
    header.year = Some("2018".to_string());
    let out = text::from(doc_with_header(header));
    assert_eq!(out.date.as_deref(), Some("2018-01-01"));
    assert_eq!(out.datefrom.as_deref(), Some("20180101"));
    assert_eq!(out.dateto.as_deref(), Some("20180101"));

    let out = text::from(doc_with_header(empty_header()));
    assert_eq!(out.date.as_deref(), Some("0000-00-00"));
    assert_eq!(out.datefrom.as_deref(), Some("00000000"));
    assert_eq!(out.dateto.as_deref(), Some("00000000"));
}

#[test]
fn time_fields_are_constant() {
    let out = text::from(doc_with_header(empty_header()));
    assert_eq!(out.timefrom.as_deref(), Some("000000"));
    assert_eq!(out.timeto.as_deref(), Some("235959"));
}

#[test]
fn header_fields_are_copied_through() {
    let mut header = empty_header();
    header.title = Some("Sámi statistihkka 2018".to_string());
    header.translated_from = Some("nob".to_string());
    let doc = ParsedAnalysedDocument {
        lang: Some("sme".to_string()),
        header,
        body: ParsedBody {
            dependency: String::new(),
            sentences: None,
        },
    };
    let out = text::from(doc);
    assert_eq!(out.title.as_deref(), Some("Sámi statistihkka 2018"));
    assert_eq!(out.lang.as_deref(), Some("sme"));
    assert_eq!(out.orig_lang.as_deref(), Some("nob"));
    // an unparsed body yields no sentences
    assert_eq!(out.sentence.len(), 0);
}

#[test]
fn sentences_are_numbered_from_one_in_order() {
    let doc = ParsedAnalysedDocument {
        lang: None,
        header: empty_header(),
        body: ParsedBody {
            dependency: String::new(),
            sentences: Some(vec![
                sentence_of("okta", "okta"),
                sentence_of("guokte", "guokte"),
                sentence_of("golbma", "golbma"),
            ]),
        },
    };
    let out = text::from(doc);
    assert_eq!(out.sentence.len(), 3);
    assert_eq!(out.sentence[0].id, "1");
    assert_eq!(out.sentence[1].id, "2");
    assert_eq!(out.sentence[2].id, "3");
    assert_eq!(out.sentence[0].text, "okta\tokta\tN\tN.Sg\t1\tX\t0\n");
    assert_eq!(out.sentence[1].text, "guokte\tguokte\tN\tN.Sg\t1\tX\t0\n");
    assert_eq!(out.sentence[2].text, "golbma\tgolbma\tN\tN.Sg\t1\tX\t0\n");
}

#[test]
fn transformation_is_deterministic() {
    let make = || {
        let mut header = empty_header();
        header.year = Some("1998-2010".to_string());
        header.genre = Some(Genre {
            code: "facta".to_string(),
        });
        ParsedAnalysedDocument {
            lang: Some("sme".to_string()),
            header,
            body: ParsedBody {
                dependency: String::new(),
                sentences: Some(vec![sentence_of("w", "w")]),
            },
        }
    };
    let a = text::from(make());
    let b = text::from(make());
    assert_eq!(a.title, b.title);
    assert_eq!(a.gt_domain, b.gt_domain);
    assert_eq!(a.date, b.date);
    assert_eq!(a.datefrom, b.datefrom);
    assert_eq!(a.dateto, b.dateto);
    assert_eq!(a.sentence.len(), b.sentence.len());
    assert_eq!(a.sentence[0].id, b.sentence[0].id);
    assert_eq!(a.sentence[0].text, b.sentence[0].text);
}

#[test]
fn unparsed_document_shape_is_preserved() {
    // the unparsed document and its body are plain data carried to the
    // external analysis parser
    let unparsed = UnparsedAnalysedDocument {
        lang: Some("sms".to_string()),
        header: empty_header(),
        body: Body {
            dependency: "\"<24>\"\n".to_string(),
        },
    };
    assert_eq!(unparsed.body.dependency.as_str(), "\"<24>\"\n");
    assert_eq!(unparsed.lang.as_deref(), Some("sms"));
}
