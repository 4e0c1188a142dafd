//! Flattening of one analysis-forest sentence into the korp_mono line
//! format: one line per token, with tab-separated fields
//! word form, lemma, part-of-speech, morphological tag string,
//! self-index, function label, parent-index.

use vstd::prelude::*;

use crate::analysis::{Analysis, Sentence, Token, Word};
use crate::digits::{digit_char, spec_decimal, u64_to_string};
use crate::strings::{
    count_char, lemma_count_char_add, lemma_count_char_none, starts_with, str_starts_with,
};

verus! {

/// Is `t` a tag wrapped in angle brackets, such as structural or
/// compound markers?
pub open spec fn is_angle_wrapped(t: Seq<char>) -> bool {
    t.len() >= 2 && t[0] == '<' && t[t.len() - 1] == '>'
}

/// Does the tag survive the morphological-tag filter? Excluded are
/// semantic-category tags (the `Sem/` namespace), angle-bracketed
/// structural markers, and orthography-error tags (the `Err/Orth`
/// prefix).
pub open spec fn keep_tag(t: Seq<char>) -> bool {
    !starts_with(t, "Sem/"@) && !is_angle_wrapped(t) && !starts_with(t, "Err/Orth"@)
}

/// The tags of the list that survive the filter, in their original order.
pub open spec fn kept_tags(tags: Seq<Seq<char>>) -> Seq<Seq<char>> {
    tags.filter(|t: Seq<char>| keep_tag(t))
}

/// The elements of `ts` joined with `.` between them.
pub open spec fn join_dot(ts: Seq<Seq<char>>) -> Seq<char>
    decreases ts.len(),
{
    if ts.len() == 0 {
        Seq::empty()
    } else if ts.len() == 1 {
        ts[0]
    } else {
        join_dot(ts.drop_last()) + "."@ + ts.last()
    }
}

/// The views of a list of owned tag strings.
pub open spec fn tag_views(tags: Seq<String>) -> Seq<Seq<char>> {
    tags.map_values(|t: String| t@)
}

/// The dot-joined morphological-tag string of one analysis' tag list.
pub open spec fn spec_msd(tags: Seq<Seq<char>>) -> Seq<char> {
    join_dot(kept_tags(tags))
}

/// The directional-arrow replacement of one character of a function
/// label: `>` becomes a rightwards arrow, `<` a leftwards arrow.
pub open spec fn arrow_char(c: char) -> char {
    if c == '>' {
        '→'
    } else if c == '<' {
        '←'
    } else {
        c
    }
}

/// The function label with every `>` and `<` replaced by an arrow.
pub open spec fn arrow_map(s: Seq<char>) -> Seq<char> {
    s.map_values(|c: char| arrow_char(c))
}

/// The part-of-speech exposed for a token: the last candidate's, or the
/// placeholder when no candidate carries an analysis.
pub open spec fn sel_pos(analyses: Seq<Analysis>) -> Seq<char> {
    if analyses.len() == 0 {
        "___"@
    } else {
        analyses.last().pos@
    }
}

/// The morphological-tag string exposed for a token: the last
/// candidate's filtered, dot-joined tags, or the placeholder.
pub open spec fn sel_msd(analyses: Seq<Analysis>) -> Seq<char> {
    if analyses.len() == 0 {
        "___"@
    } else {
        spec_msd(tag_views(analyses.last().tags@))
    }
}

/// The function label exposed for a token: the arrow-replaced label of
/// the last candidate that carries one, or `X`.
pub open spec fn sel_func(analyses: Seq<Analysis>) -> Seq<char>
    decreases analyses.len(),
{
    if analyses.len() == 0 {
        "X"@
    } else {
        match analyses.last().func {
            Some(f) => arrow_map(f@),
            None => sel_func(analyses.drop_last()),
        }
    }
}

/// The (self-index, parent-index) pair exposed for a token: the last
/// candidate's dependency pair, or `(0, 0)`.
pub open spec fn sel_deprel(analyses: Seq<Analysis>) -> (u64, u64)
    decreases analyses.len(),
{
    if analyses.len() == 0 {
        (0, 0)
    } else {
        match analyses.last().deprel {
            Some(p) => p,
            None => sel_deprel(analyses.drop_last()),
        }
    }
}

/// The output line of one token, newline included — or nothing, for a
/// token whose candidates yield no lemma.
pub open spec fn token_line(t: Token) -> Seq<char> {
    match t.lemma {
        None => Seq::empty(),
        Some(lemma) => t.word_form@ + "\t"@ + lemma@ + "\t"@ + sel_pos(t.analyses@) + "\t"@
            + sel_msd(t.analyses@) + "\t"@ + spec_decimal(sel_deprel(t.analyses@).0 as nat)
            + "\t"@ + sel_func(t.analyses@) + "\t"@ + spec_decimal(
            sel_deprel(t.analyses@).1 as nat,
        ) + "\n"@,
    }
}

/// The lines of the tokens of `tokens[i..]`, concatenated.
pub open spec fn tokens_text_from(tokens: Seq<Token>, i: int) -> Seq<char>
    decreases tokens.len() - i,
{
    if 0 <= i < tokens.len() {
        token_line(tokens[i]) + tokens_text_from(tokens, i + 1)
    } else {
        Seq::empty()
    }
}

/// The lines of all tokens of one word.
pub open spec fn word_text(w: Word) -> Seq<char> {
    tokens_text_from(w.tokens@, 0)
}

/// The texts of the words of `words[i..]`, concatenated.
pub open spec fn words_text_from(words: Seq<Word>, i: int) -> Seq<char>
    decreases words.len() - i,
{
    if 0 <= i < words.len() {
        word_text(words[i]) + words_text_from(words, i + 1)
    } else {
        Seq::empty()
    }
}

/// The full flattened text of one sentence.
pub open spec fn spec_process_sentence(s: Sentence) -> Seq<char> {
    words_text_from(s.words@, 0)
}

/// Does the tag survive the morphological-tag filter?
fn keep_tag_exec(t: &str) -> (r: bool)
    ensures
        r == keep_tag(t@),
{
    if str_starts_with(t, "Sem/") || str_starts_with(t, "Err/Orth") {
        return false;
    }
    let n = t.unicode_len();
    if n >= 2 && t.get_char(0) == '<' && t.get_char(n - 1) == '>' {
        return false;
    }
    true
}

/// Join the filtered tags of one analysis with `.`.
fn join_tags(tags: &Vec<String>) -> (r: String)
    ensures
        r@ == spec_msd(tag_views(tags@)),
{
    let ghost gtags = tag_views(tags@);
    let mut out = String::new();
    let mut any = false;
    let mut i: usize = 0;
    while i < tags.len()
        invariant
            i <= tags.len(),
            gtags == tag_views(tags@),
            gtags.len() == tags@.len(),
            any == (kept_tags(gtags.subrange(0, i as int)).len() > 0),
            out@ == join_dot(kept_tags(gtags.subrange(0, i as int))),
        decreases tags.len() - i,
    {
        let ghost pre = gtags.subrange(0, i as int);
        let t = &tags[i];
        proof {
            reveal(Seq::filter);
            assert(gtags[i as int] == t@);
            assert(gtags.subrange(0, i as int + 1) =~= pre.push(t@));
            assert(pre.push(t@).drop_last() =~= pre);
            assert(pre.push(t@).last() == t@);
        }
        if keep_tag_exec(t.as_str()) {
            proof {
                reveal(Seq::filter);
                assert(kept_tags(pre.push(t@)) == kept_tags(pre).push(t@));
                if kept_tags(pre).len() > 0 {
                    assert(kept_tags(pre).push(t@).drop_last() =~= kept_tags(pre));
                    assert(join_dot(kept_tags(pre).push(t@)) == join_dot(kept_tags(pre)) + "."@
                        + t@);
                } else {
                    assert(kept_tags(pre).push(t@).len() == 1);
                    assert(join_dot(kept_tags(pre).push(t@)) == t@);
                    assert(out@ + t@ =~= t@);
                }
            }
            if any {
                out.append(".");
            }
            out.append(t.as_str());
            any = true;
        } else {
            proof {
                reveal(Seq::filter);
                assert(kept_tags(pre.push(t@)) == kept_tags(pre));
            }
        }
        i += 1;
    }
    proof {
        assert(gtags.subrange(0, tags@.len() as int) =~= gtags);
    }
    out
}

/// Replace every `>` and `<` of a function label by the corresponding
/// directional arrow.
fn arrows(s: &str) -> (r: String)
    ensures
        r@ == arrow_map(s@),
{
    let n = s.unicode_len();
    let mut out = String::new();
    let mut i: usize = 0;
    proof {
        assert(out@ =~= arrow_map(s@.subrange(0, 0)));
    }
    while i < n
        invariant
            i <= n,
            n == s@.len(),
            out@ == arrow_map(s@.subrange(0, i as int)),
        decreases n - i,
    {
        let c = s.get_char(i);
        if c == '>' {
            proof {
                reveal_strlit("→");
            }
            out.append("→");
        } else if c == '<' {
            proof {
                reveal_strlit("←");
            }
            out.append("←");
        } else {
            let piece = s.substring_char(i, i + 1);
            out.append(piece);
        }
        proof {
            assert(arrow_map(s@.subrange(0, i as int + 1)) =~= arrow_map(
                s@.subrange(0, i as int),
            ).push(arrow_char(s@[i as int])));
            assert(s@.subrange(i as int, i as int + 1) =~= seq![s@[i as int]]);
        }
        i += 1;
    }
    proof {
        assert(s@.subrange(0, n as int) =~= s@);
    }
    out
}

/// Flatten one token into its output line; a token without a resolved
/// lemma yields the empty string.
pub fn flatten_token(token: &Token) -> (r: String)
    ensures
        r@ == token_line(*token),
{
    match &token.lemma {
        None => String::new(),
        Some(lemma) => {
            let mut pos: String = "___".to_owned();
            let mut msd: String = "___".to_owned();
            let mut func: String = "X".to_owned();
            let mut self_id: u64 = 0;
            let mut parent_id: u64 = 0;
            let mut i: usize = 0;
            while i < token.analyses.len()
                invariant
                    i <= token.analyses.len(),
                    pos@ == sel_pos(token.analyses@.subrange(0, i as int)),
                    msd@ == sel_msd(token.analyses@.subrange(0, i as int)),
                    func@ == sel_func(token.analyses@.subrange(0, i as int)),
                    (self_id, parent_id) == sel_deprel(token.analyses@.subrange(0, i as int)),
                decreases token.analyses.len() - i,
            {
                let ghost pre = token.analyses@.subrange(0, i as int);
                let a = &token.analyses[i];
                proof {
                    assert(token.analyses@.subrange(0, i as int + 1) =~= pre.push(*a));
                    assert(pre.push(*a).drop_last() =~= pre);
                    assert(pre.push(*a).last() == *a);
                }
                pos = a.pos.clone();
                msd = join_tags(&a.tags);
                match &a.func {
                    Some(f) => {
                        func = arrows(f.as_str());
                    },
                    None => {},
                }
                match a.deprel {
                    Some(p) => {
                        self_id = p.0;
                        parent_id = p.1;
                    },
                    None => {},
                }
                i += 1;
            }
            proof {
                assert(token.analyses@.subrange(0, token.analyses@.len() as int)
                    =~= token.analyses@);
            }
            let mut line = token.word_form.clone();
            line.append("\t");
            line.append(lemma.as_str());
            line.append("\t");
            line.append(pos.as_str());
            line.append("\t");
            line.append(msd.as_str());
            line.append("\t");
            let self_str = u64_to_string(self_id);
            line.append(self_str.as_str());
            line.append("\t");
            line.append(func.as_str());
            line.append("\t");
            let parent_str = u64_to_string(parent_id);
            line.append(parent_str.as_str());
            line.append("\n");
            line
        },
    }
}

/// Flatten all tokens of one word.
fn flatten_word(word: &Word) -> (r: String)
    ensures
        r@ == word_text(*word),
{
    let mut out = String::new();
    let mut i: usize = 0;
    proof {
        assert(Seq::<char>::empty() + tokens_text_from(word.tokens@, 0) =~= tokens_text_from(
            word.tokens@,
            0,
        ));
    }
    while i < word.tokens.len()
        invariant
            i <= word.tokens.len(),
            out@ + tokens_text_from(word.tokens@, i as int) == word_text(*word),
        decreases word.tokens.len() - i,
    {
        let t = flatten_token(&word.tokens[i]);
        proof {
            assert((out@ + t@) + tokens_text_from(word.tokens@, i as int + 1) =~= out@ + (t@
                + tokens_text_from(word.tokens@, i as int + 1)));
        }
        out.append(t.as_str());
        i += 1;
    }
    proof {
        assert(out@ + Seq::<char>::empty() =~= out@);
    }
    out
}

/// Turn one sentence of the analysis forest into its flattened text:
/// one tab-separated line per token that has a resolved lemma, in
/// document order.
pub fn process_sentence(sentence: &Sentence) -> (r: String)
    ensures
        r@ == spec_process_sentence(*sentence),
{
    let mut out = String::new();
    let mut i: usize = 0;
    proof {
        assert(Seq::<char>::empty() + words_text_from(sentence.words@, 0) =~= words_text_from(
            sentence.words@,
            0,
        ));
    }
    while i < sentence.words.len()
        invariant
            i <= sentence.words.len(),
            out@ + words_text_from(sentence.words@, i as int) == spec_process_sentence(*sentence),
        decreases sentence.words.len() - i,
    {
        let w = flatten_word(&sentence.words[i]);
        proof {
            assert((out@ + w@) + words_text_from(sentence.words@, i as int + 1) =~= out@ + (w@
                + words_text_from(sentence.words@, i as int + 1)));
        }
        out.append(w.as_str());
        i += 1;
    }
    proof {
        assert(out@ + Seq::<char>::empty() =~= out@);
    }
    out
}

/// Flattening is a pure function of the sentence value: equal sentences
/// flatten to equal texts, so repeating a flattening changes nothing.
pub proof fn lemma_flatten_deterministic(s1: Sentence, s2: Sentence)
    requires
        s1 == s2,
    ensures
        spec_process_sentence(s1) == spec_process_sentence(s2),
{
}

/// A token whose candidates yield no resolvable lemma produces no
/// record at all.
pub proof fn lemma_lemmaless_token_silent(t: Token)
    requires
        t.lemma is None,
    ensures
        token_line(t) == Seq::<char>::empty(),
{
}

/// Every tag that enters the joined morphological-tag string survives
/// the filter: excluded tag categories never appear among the joined
/// tags.
pub proof fn lemma_kept_tags_all_kept(tags: Seq<Seq<char>>)
    ensures
        forall|j: int| 0 <= j < kept_tags(tags).len() ==> keep_tag(#[trigger] kept_tags(tags)[j]),
    decreases tags.len(),
{
    reveal(Seq::filter);
    if tags.len() == 0 {
    } else {
        lemma_kept_tags_all_kept(tags.drop_last());
    }
}

/// The arrow replacement is total: no `<` or `>` remains anywhere in a
/// substituted function label.
pub proof fn lemma_arrows_total(s: Seq<char>)
    ensures
        forall|i: int|
            0 <= i < arrow_map(s).len() ==> arrow_map(s)[i] != '<' && arrow_map(s)[i] != '>',
{
}

/// `s` carries no newline character.
pub open spec fn no_newline(s: Seq<char>) -> bool {
    forall|k: int| 0 <= k < s.len() ==> s[k] != '\n'
}

/// No string field of the analysis carries an embedded newline.
pub open spec fn analysis_newline_free(a: Analysis) -> bool {
    no_newline(a.pos@) && (forall|k: int| 0 <= k < a.tags@.len() ==> no_newline(a.tags@[k]@))
        && match a.func {
        Some(f) => no_newline(f@),
        None => true,
    }
}

/// No string field of the token or its candidates carries an embedded
/// newline.
pub open spec fn token_newline_free(t: Token) -> bool {
    no_newline(t.word_form@) && (match t.lemma {
        Some(l) => no_newline(l@),
        None => true,
    }) && (forall|k: int| 0 <= k < t.analyses@.len() ==> analysis_newline_free(#[trigger] t.analyses@[k]))
}

/// No token of the word carries an embedded newline.
pub open spec fn word_newline_free(w: Word) -> bool {
    forall|k: int| 0 <= k < w.tokens@.len() ==> token_newline_free(#[trigger] w.tokens@[k])
}

/// No token of the sentence carries an embedded newline.
pub open spec fn sentence_newline_free(s: Sentence) -> bool {
    forall|k: int| 0 <= k < s.words@.len() ==> word_newline_free(#[trigger] s.words@[k])
}

/// How many tokens of `tokens[i..]` have a resolvable lemma.
pub open spec fn resolved_tokens_from(tokens: Seq<Token>, i: int) -> nat
    decreases tokens.len() - i,
{
    if 0 <= i < tokens.len() {
        (if tokens[i].lemma is Some {
            1nat
        } else {
            0nat
        }) + resolved_tokens_from(tokens, i + 1)
    } else {
        0
    }
}

/// How many tokens of the words of `words[i..]` have a resolvable
/// lemma.
pub open spec fn resolved_words_from(words: Seq<Word>, i: int) -> nat
    decreases words.len() - i,
{
    if 0 <= i < words.len() {
        resolved_tokens_from(words[i].tokens@, 0) + resolved_words_from(words, i + 1)
    } else {
        0
    }
}

/// How many tokens of the sentence, over all words in document order,
/// have a resolvable lemma.
pub open spec fn resolved_token_count(s: Sentence) -> nat {
    resolved_words_from(s.words@, 0)
}

proof fn lemma_decimal_no_newline(n: nat)
    ensures
        no_newline(spec_decimal(n)),
    decreases n,
{
    assert(digit_char(n % 10) != '\n');
    if n < 10 {
        assert(digit_char(n) != '\n');
    } else {
        lemma_decimal_no_newline(n / 10);
        assert(forall|k: int|
            0 <= k < spec_decimal(n / 10).len() ==> spec_decimal(n)[k] == spec_decimal(n / 10)[k]);
    }
}

proof fn lemma_kept_tags_no_newline(tags: Seq<Seq<char>>)
    requires
        forall|k: int| 0 <= k < tags.len() ==> no_newline(#[trigger] tags[k]),
    ensures
        forall|j: int| 0 <= j < kept_tags(tags).len() ==> no_newline(#[trigger] kept_tags(tags)[j]),
    decreases tags.len(),
{
    reveal(Seq::filter);
    if tags.len() > 0 {
        assert(forall|k: int|
            0 <= k < tags.drop_last().len() ==> tags.drop_last()[k] == tags[k]);
        lemma_kept_tags_no_newline(tags.drop_last());
        let pre = kept_tags(tags.drop_last());
        if keep_tag(tags.last()) {
            assert(kept_tags(tags) == pre.push(tags.last()));
            assert(no_newline(tags[tags.len() - 1]));
            assert(forall|j: int|
                0 <= j < pre.len() ==> pre.push(tags.last())[j] == pre[j]);
        } else {
            assert(kept_tags(tags) == pre);
        }
    }
}

proof fn lemma_join_dot_no_newline(ts: Seq<Seq<char>>)
    requires
        forall|k: int| 0 <= k < ts.len() ==> no_newline(#[trigger] ts[k]),
    ensures
        no_newline(join_dot(ts)),
    decreases ts.len(),
{
    reveal_strlit(".");
    if ts.len() > 1 {
        assert(forall|k: int| 0 <= k < ts.drop_last().len() ==> ts.drop_last()[k] == ts[k]);
        lemma_join_dot_no_newline(ts.drop_last());
        let pre = join_dot(ts.drop_last()) + "."@;
        assert(no_newline(pre));
        assert(forall|k: int|
            0 <= k < (pre + ts.last()).len() ==> (pre + ts.last())[k] != '\n');
    }
}

proof fn lemma_sel_fields_no_newline(analyses: Seq<Analysis>)
    requires
        forall|k: int| 0 <= k < analyses.len() ==> analysis_newline_free(#[trigger] analyses[k]),
    ensures
        no_newline(sel_pos(analyses)),
        no_newline(sel_msd(analyses)),
        no_newline(sel_func(analyses)),
    decreases analyses.len(),
{
    reveal_strlit("___");
    reveal_strlit("X");
    if analyses.len() > 0 {
        let a = analyses.last();
        assert(analysis_newline_free(a));
        let gtags = tag_views(a.tags@);
        assert(forall|k: int| 0 <= k < gtags.len() ==> no_newline(#[trigger] gtags[k]));
        lemma_kept_tags_no_newline(gtags);
        lemma_join_dot_no_newline(kept_tags(gtags));
        match a.func {
            Some(f) => {
                assert(forall|k: int|
                    0 <= k < arrow_map(f@).len() ==> arrow_map(f@)[k] != '\n');
            },
            None => {
                assert(forall|k: int|
                    0 <= k < analyses.drop_last().len() ==> analyses.drop_last()[k]
                        == analyses[k]);
                lemma_sel_fields_no_newline(analyses.drop_last());
            },
        }
    }
}

proof fn lemma_token_line_count(t: Token)
    requires
        token_newline_free(t),
    ensures
        count_char(token_line(t), '\n') == (if t.lemma is Some {
            1nat
        } else {
            0nat
        }),
{
    reveal_strlit("\t");
    reveal_strlit("\n");
    match t.lemma {
        None => {
            lemma_count_char_none(token_line(t), '\n');
        },
        Some(l) => {
            let a = t.analyses@;
            lemma_sel_fields_no_newline(a);
            lemma_decimal_no_newline(sel_deprel(a).0 as nat);
            lemma_decimal_no_newline(sel_deprel(a).1 as nat);
            let x1 = t.word_form@ + "\t"@;
            let x2 = x1 + l@;
            let x3 = x2 + "\t"@;
            let x4 = x3 + sel_pos(a);
            let x5 = x4 + "\t"@;
            let x6 = x5 + sel_msd(a);
            let x7 = x6 + "\t"@;
            let x8 = x7 + spec_decimal(sel_deprel(a).0 as nat);
            let x9 = x8 + "\t"@;
            let x10 = x9 + sel_func(a);
            let x11 = x10 + "\t"@;
            let x12 = x11 + spec_decimal(sel_deprel(a).1 as nat);
            assert(token_line(t) == x12 + "\n"@);
            assert(no_newline(x1));
            assert(no_newline(x2));
            assert(no_newline(x3));
            assert(no_newline(x4));
            assert(no_newline(x5));
            assert(no_newline(x6));
            assert(no_newline(x7));
            assert(no_newline(x8));
            assert(no_newline(x9));
            assert(no_newline(x10));
            assert(no_newline(x11));
            assert(no_newline(x12));
            lemma_count_char_none(x12, '\n');
            lemma_count_char_add(x12, "\n"@, '\n');
            assert(("\n"@).drop_last() =~= Seq::<char>::empty());
            assert(count_char(Seq::<char>::empty(), '\n') == 0);
            assert(count_char("\n"@, '\n') == 1);
        },
    }
}

proof fn lemma_tokens_text_count(tokens: Seq<Token>, i: int)
    requires
        0 <= i <= tokens.len(),
        forall|k: int| 0 <= k < tokens.len() ==> token_newline_free(#[trigger] tokens[k]),
    ensures
        count_char(tokens_text_from(tokens, i), '\n') == resolved_tokens_from(tokens, i),
    decreases tokens.len() - i,
{
    if i < tokens.len() {
        lemma_token_line_count(tokens[i]);
        lemma_tokens_text_count(tokens, i + 1);
        lemma_count_char_add(token_line(tokens[i]), tokens_text_from(tokens, i + 1), '\n');
    }
}

proof fn lemma_words_text_count(words: Seq<Word>, i: int)
    requires
        0 <= i <= words.len(),
        forall|k: int| 0 <= k < words.len() ==> word_newline_free(#[trigger] words[k]),
    ensures
        count_char(words_text_from(words, i), '\n') == resolved_words_from(words, i),
    decreases words.len() - i,
{
    if i < words.len() {
        lemma_tokens_text_count(words[i].tokens@, 0);
        lemma_words_text_count(words, i + 1);
        lemma_count_char_add(word_text(words[i]), words_text_from(words, i + 1), '\n');
    }
}

/// Each record line ends in the one newline of that token, so the
/// flattened text holds exactly one newline-terminated line per token
/// with a resolvable lemma — provided, as for every real tag set, no
/// field string carries an embedded newline.
pub proof fn lemma_line_count(s: Sentence)
    requires
        sentence_newline_free(s),
    ensures
        count_char(spec_process_sentence(s), '\n') == resolved_token_count(s),
{
    lemma_words_text_count(s.words@, 0);
}

} // verus!
