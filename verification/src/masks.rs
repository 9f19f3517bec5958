//! The masks that stand for one character each and the line break that
//! parts fragments, and the proof that none of them is left in a sentence
//! that the segmenter gives.
use vstd::prelude::*;
use crate::regex::{
    all_spans, first_span, lemma_all_spans_in_order, lemma_each_rewritten_free,
    lemma_texts_of_free,
};
use crate::rule::{
    brings_no, lemma_rule_applied_free, lemma_template_free, rule_applied,
};
use crate::segmenter::{
    APOSTROPHE, ARABIC_COMMA, BETWEEN_DOUBLE_QUOTES, BETWEEN_EM_DASHES, BETWEEN_PARENS,
    between_punctuation_masked, BETWEEN_QUOTE_ARROW, BETWEEN_QUOTE_SLANTED,
    BETWEEN_SINGLE_QUOTE_SLANTED, BETWEEN_SINGLE_QUOTES, BETWEEN_SQUARE_BRACKETS, COLON,
    cut_before_capitals, DASH, document_prepared, DOUBLE_EXCLAMATION, double_punctuation_masked,
    DOUBLE_QUESTION, ellipses_restored, END_GUARD, ends_with_terminator, ESCAPED_DASH,
    ESCAPED_LEFT_BRACKET, ESCAPED_LEFT_PAREN, ESCAPED_LINE_FEED, ESCAPED_RIGHT_BRACKET,
    ESCAPED_RIGHT_PAREN, EXCLAMATION, EXCLAMATION_BEFORE_COMMA_MID_SENTENCE,
    EXCLAMATION_IN_QUOTATION, EXCLAMATION_MID_SENTENCE, EXCLAMATION_QUESTION, EXCLAMATION_WORDS,
    FOUR_CONSECUTIVE_ELLIPSIS, FOUR_SPACE_ELLIPSIS, FOUR_SPACED_PERIODS, fragment_masked,
    fragment_prepared, fragment_segmented, fragment_sentences, fragments_segmented,
    FULL_WIDTH_EXCLAMATION, FULL_WIDTH_PERIOD, FULL_WIDTH_QUESTION, has_terminator,
    IDEOGRAPHIC_PERIOD, inner_marks_masked, LEFT_BRACKET, LEFT_PAREN, LINE_FEED, MASKED_APOSTROPHE,
    MASKED_ARABIC_COMMA, MASKED_COLON, MASKED_DOUBLE_EXCLAMATION, MASKED_DOUBLE_QUESTION,
    MASKED_EXCLAMATION, MASKED_EXCLAMATION_AND_DOLLAR, MASKED_EXCLAMATION_QUESTION,
    MASKED_FOUR_SPACED_PERIODS, MASKED_FULL_WIDTH_EXCLAMATION, MASKED_FULL_WIDTH_PERIOD,
    MASKED_FULL_WIDTH_QUESTION, MASKED_IDEOGRAPHIC_PERIOD, MASKED_INNER_PERIOD, MASKED_LEFT_PAREN,
    MASKED_LINE_FEED, MASKED_PERIOD, MASKED_QUESTION, MASKED_QUESTION_EXCLAMATION,
    MASKED_RIGHT_PAREN, MASKED_THREE_PERIODS, MASKED_THREE_SPACED_PERIODS, MASKED_TWO_PERIODS,
    MASKED_TWO_PERIODS_AND_PERIOD, NOTHING, OTHER_THREE_PERIOD_ELLIPSIS, PERIOD,
    punctuation_masked, QUESTION, QUESTION_EXCLAMATION, QUESTION_MARK_IN_QUOTATION,
    QUOTATION_AT_END_OF_SENTENCE, RIGHT_BRACKET, RIGHT_PAREN, ROMAN_NUMERALS_IN_PARENTHESES,
    ROMAN_NUMERALS_IN_PARENTHESES_TEMPLATE, segmented, SENTENCE_BOUNDARY, sentence_restored,
    sentence_split, sentences_restored, stretches_masked, symbols_restored,
    THREE_CONSECUTIVE_ELLIPSIS, THREE_PERIODS, THREE_SPACE_ELLIPSIS, THREE_SPACED_PERIODS,
    TRAILING_APOSTROPHE, TWO_PERIODS, WHOLLY_LETTERS, WORD_WITH_LEADING_APOSTROPHE,
};
use crate::text::{
    boundary, fragments, lemma_concat_free, lemma_fragments_free, lemma_piece_free,
    lemma_piece_whole, lemma_replaced_free, lemma_stripped_end_free, lemma_stripped_start_free,
    piece, replaced, Strip, stripped_start, tail, utf8, views,
};

verus! {

/// Whether `c` is one of the characters that mask a period, an Arabic comma,
/// a colon, a pair of question and exclamation marks, the end of a fragment
/// or a line feed.
pub open spec fn is_mask(c: char) -> bool {
    c == '∯' || c == '♬' || c == '♭' || c == '☉' || c == '☇' || c == '☈' || c == '☄' || c == 'ȸ'
        || c == 'ȹ'
}

/// Whether `text` holds none of those masks.
pub open spec fn free_of_masks(text: Seq<char>) -> bool {
    forall|c: char| is_mask(c) ==> !(#[trigger] text.contains(c))
}

/// Whether none of `sentences` holds one of those masks.
pub open spec fn all_free_of_masks(sentences: Seq<Seq<char>>) -> bool {
    forall|i: int| 0 <= i < sentences.len() ==> free_of_masks(#[trigger] sentences[i])
}

/// Whether none of `sentences` holds the character `c`.
pub open spec fn all_free_of(sentences: Seq<Seq<char>>, c: char) -> bool {
    forall|i: int| 0 <= i < sentences.len() ==> !(#[trigger] sentences[i]).contains(c)
}

/// The character that parts the fragments of a document.
pub open spec fn line_break() -> char {
    '\r'
}

/// One replacement of the chain that takes the masks off.
proof fn lemma_link(text: Seq<char>, from: Seq<char>, to: Seq<char>, c: char)
    requires
        !to.contains(c),
    ensures
        (!text.contains(c) || from == seq![c]) ==> !replaced(text, from, to).contains(c),
{
    if !text.contains(c) || from == seq![c] {
        lemma_replaced_free(text, from, to, c);
    }
}

/// What the masks are replaced by holds neither a mask nor a line break.
proof fn lemma_plain_texts(c: char)
    requires
        is_mask(c) || c == line_break(),
    ensures
        !PERIOD@.contains(c),
        !ARABIC_COMMA@.contains(c),
        !COLON@.contains(c),
        !IDEOGRAPHIC_PERIOD@.contains(c),
        !FULL_WIDTH_PERIOD@.contains(c),
        !FULL_WIDTH_EXCLAMATION@.contains(c),
        !EXCLAMATION@.contains(c),
        !QUESTION@.contains(c),
        !FULL_WIDTH_QUESTION@.contains(c),
        !QUESTION_EXCLAMATION@.contains(c),
        !DOUBLE_QUESTION@.contains(c),
        !EXCLAMATION_QUESTION@.contains(c),
        !DOUBLE_EXCLAMATION@.contains(c),
        !LEFT_PAREN@.contains(c),
        !RIGHT_PAREN@.contains(c),
        !NOTHING@.contains(c),
        !LINE_FEED@.contains(c),
        !THREE_PERIODS@.contains(c),
        !THREE_SPACED_PERIODS@.contains(c),
        !FOUR_SPACED_PERIODS@.contains(c),
        !TWO_PERIODS@.contains(c),
        !APOSTROPHE@.contains(c),
{
    reveal_strlit(".");
    reveal_strlit("،");
    reveal_strlit(":");
    reveal_strlit("。");
    reveal_strlit("．");
    reveal_strlit("！");
    reveal_strlit("!");
    reveal_strlit("?");
    reveal_strlit("？");
    reveal_strlit("?!");
    reveal_strlit("??");
    reveal_strlit("!?");
    reveal_strlit("!!");
    reveal_strlit("(");
    reveal_strlit(")");
    reveal_strlit("");
    reveal_strlit("\n");
    reveal_strlit("...");
    reveal_strlit(" . . . ");
    reveal_strlit(". . . .");
    reveal_strlit("..");
    reveal_strlit("'");
}

/// Each mask is all that one replacement of the chain replaces.
proof fn lemma_mask_texts(c: char)
    requires
        is_mask(c),
    ensures
        c == '∯' ==> MASKED_PERIOD@ == seq![c],
        c == '♬' ==> MASKED_ARABIC_COMMA@ == seq![c],
        c == '♭' ==> MASKED_COLON@ == seq![c],
        c == '☉' ==> MASKED_QUESTION_EXCLAMATION@ == seq![c],
        c == '☇' ==> MASKED_DOUBLE_QUESTION@ == seq![c],
        c == '☈' ==> MASKED_EXCLAMATION_QUESTION@ == seq![c],
        c == '☄' ==> MASKED_DOUBLE_EXCLAMATION@ == seq![c],
        c == 'ȸ' ==> END_GUARD@ == seq![c],
        c == 'ȹ' ==> MASKED_LINE_FEED@ == seq![c],
{
    reveal_strlit("∯");
    reveal_strlit("♬");
    reveal_strlit("♭");
    reveal_strlit("☉");
    reveal_strlit("☇");
    reveal_strlit("☈");
    reveal_strlit("☄");
    reveal_strlit("ȸ");
    reveal_strlit("ȹ");
    assert(MASKED_PERIOD@ =~= seq!['∯']);
    assert(MASKED_ARABIC_COMMA@ =~= seq!['♬']);
    assert(MASKED_COLON@ =~= seq!['♭']);
    assert(MASKED_QUESTION_EXCLAMATION@ =~= seq!['☉']);
    assert(MASKED_DOUBLE_QUESTION@ =~= seq!['☇']);
    assert(MASKED_EXCLAMATION_QUESTION@ =~= seq!['☈']);
    assert(MASKED_DOUBLE_EXCLAMATION@ =~= seq!['☄']);
    assert(END_GUARD@ =~= seq!['ȸ']);
    assert(MASKED_LINE_FEED@ =~= seq!['ȹ']);
}

/// Taking the masks off a sentence leaves none of them, and brings no line
/// break in.
pub proof fn lemma_symbols_restored_free(sentence: Seq<char>, c: char)
    requires
        is_mask(c) || (c == line_break() && !sentence.contains(c)),
    ensures
        !symbols_restored(sentence).contains(c),
{
    lemma_plain_texts(c);
    if is_mask(c) {
        lemma_mask_texts(c);
    }
    let a = replaced(sentence, MASKED_PERIOD@, PERIOD@);
    lemma_link(sentence, MASKED_PERIOD@, PERIOD@, c);
    let b = replaced(a, MASKED_ARABIC_COMMA@, ARABIC_COMMA@);
    lemma_link(a, MASKED_ARABIC_COMMA@, ARABIC_COMMA@, c);
    let c3 = replaced(b, MASKED_COLON@, COLON@);
    lemma_link(b, MASKED_COLON@, COLON@, c);
    let d = replaced(c3, MASKED_IDEOGRAPHIC_PERIOD@, IDEOGRAPHIC_PERIOD@);
    lemma_link(c3, MASKED_IDEOGRAPHIC_PERIOD@, IDEOGRAPHIC_PERIOD@, c);
    let e = replaced(d, MASKED_FULL_WIDTH_PERIOD@, FULL_WIDTH_PERIOD@);
    lemma_link(d, MASKED_FULL_WIDTH_PERIOD@, FULL_WIDTH_PERIOD@, c);
    let f = replaced(e, MASKED_FULL_WIDTH_EXCLAMATION@, FULL_WIDTH_EXCLAMATION@);
    lemma_link(e, MASKED_FULL_WIDTH_EXCLAMATION@, FULL_WIDTH_EXCLAMATION@, c);
    let g = replaced(f, MASKED_EXCLAMATION@, EXCLAMATION@);
    lemma_link(f, MASKED_EXCLAMATION@, EXCLAMATION@, c);
    let h = replaced(g, MASKED_QUESTION@, QUESTION@);
    lemma_link(g, MASKED_QUESTION@, QUESTION@, c);
    let i = replaced(h, MASKED_FULL_WIDTH_QUESTION@, FULL_WIDTH_QUESTION@);
    lemma_link(h, MASKED_FULL_WIDTH_QUESTION@, FULL_WIDTH_QUESTION@, c);
    let j = replaced(i, MASKED_QUESTION_EXCLAMATION@, QUESTION_EXCLAMATION@);
    lemma_link(i, MASKED_QUESTION_EXCLAMATION@, QUESTION_EXCLAMATION@, c);
    let k = replaced(j, MASKED_DOUBLE_QUESTION@, DOUBLE_QUESTION@);
    lemma_link(j, MASKED_DOUBLE_QUESTION@, DOUBLE_QUESTION@, c);
    let l = replaced(k, MASKED_EXCLAMATION_QUESTION@, EXCLAMATION_QUESTION@);
    lemma_link(k, MASKED_EXCLAMATION_QUESTION@, EXCLAMATION_QUESTION@, c);
    let m = replaced(l, MASKED_DOUBLE_EXCLAMATION@, DOUBLE_EXCLAMATION@);
    lemma_link(l, MASKED_DOUBLE_EXCLAMATION@, DOUBLE_EXCLAMATION@, c);
    let n = replaced(m, MASKED_LEFT_PAREN@, LEFT_PAREN@);
    lemma_link(m, MASKED_LEFT_PAREN@, LEFT_PAREN@, c);
    let o = replaced(n, MASKED_RIGHT_PAREN@, RIGHT_PAREN@);
    lemma_link(n, MASKED_RIGHT_PAREN@, RIGHT_PAREN@, c);
    let p = replaced(o, END_GUARD@, NOTHING@);
    lemma_link(o, END_GUARD@, NOTHING@, c);
    lemma_link(p, MASKED_LINE_FEED@, LINE_FEED@, c);
}

/// Restoring the ellipses of a sentence brings neither a mask nor a line
/// break in.
pub proof fn lemma_ellipses_restored_free(sentence: Seq<char>, c: char)
    requires
        is_mask(c) || c == line_break(),
        !sentence.contains(c),
    ensures
        !ellipses_restored(sentence).contains(c),
{
    lemma_plain_texts(c);
    let a = replaced(sentence, MASKED_THREE_PERIODS@, THREE_PERIODS@);
    lemma_replaced_free(sentence, MASKED_THREE_PERIODS@, THREE_PERIODS@, c);
    let b = replaced(a, MASKED_THREE_SPACED_PERIODS@, THREE_SPACED_PERIODS@);
    lemma_replaced_free(a, MASKED_THREE_SPACED_PERIODS@, THREE_SPACED_PERIODS@, c);
    let c3 = replaced(b, MASKED_FOUR_SPACED_PERIODS@, FOUR_SPACED_PERIODS@);
    lemma_replaced_free(b, MASKED_FOUR_SPACED_PERIODS@, FOUR_SPACED_PERIODS@, c);
    let d = replaced(c3, MASKED_TWO_PERIODS@, TWO_PERIODS@);
    lemma_replaced_free(c3, MASKED_TWO_PERIODS@, TWO_PERIODS@, c);
    lemma_replaced_free(d, MASKED_INNER_PERIOD@, PERIOD@, c);
}

/// Cutting a text brings no character in.
pub proof fn lemma_cut_free(
    text: Seq<char>,
    from: int,
    spans: Seq<(usize, usize)>,
    k: int,
    c: char,
)
    requires
        boundary(text, from),
        !text.contains(c),
        0 <= k,
    ensures
        forall|i: int|
            0 <= i < cut_before_capitals(text, from, spans, k).len() ==> !(
            #[trigger] cut_before_capitals(text, from, spans, k)[i]).contains(c),
    decreases spans.len() - k,
{
    lemma_piece_whole(text);
    let parts = cut_before_capitals(text, from, spans, k);
    if k >= spans.len() {
        if from < utf8(text).len() {
            lemma_piece_free(text, from, utf8(text).len() as int, c);
            assert(parts =~= seq![tail(text, from)]);
            assert(parts[0] == tail(text, from));
            assert(!parts[0].contains(c));
            assert(parts.len() == 1);
        } else {
            assert(parts.len() == 0);
        }
    } else {
        let cut = spans[k].1 - 1;
        if from <= cut && boundary(text, cut) {
            lemma_piece_free(text, from, cut, c);
            lemma_cut_free(text, cut, spans, k + 1, c);
            let rest = cut_before_capitals(text, cut, spans, k + 1);
            assert forall|i: int| 0 <= i < parts.len() implies !(#[trigger] parts[i]).contains(
                c,
            ) by {
                if i > 0 {
                    assert(parts[i] == rest[i - 1]);
                } else {
                    assert(parts[0] == piece(text, from, cut));
                }
            }
        } else {
            lemma_cut_free(text, from, spans, k + 1, c);
            assert(parts == cut_before_capitals(text, from, spans, k + 1));
        }
    }
}

/// The sentences that one masked sentence gives hold no mask, and hold a
/// line break only if the masked sentence held one.
pub proof fn lemma_sentence_restored_free(sentence: Seq<char>, c: char)
    requires
        is_mask(c) || (c == line_break() && !sentence.contains(c)),
    ensures
        all_free_of(sentence_restored(sentence), c),
{
    reveal(sentence_restored);
    reveal(sentence_split);
    let parts = sentence_split(sentence);
    let out = sentence_restored(sentence);
    lemma_plain_texts(c);
    lemma_symbols_restored_free(sentence, c);
    let a = symbols_restored(sentence);
    if utf8(a).len() > 2 && first_span((WHOLLY_LETTERS@, false), a) is Some {
    } else {
        lemma_ellipses_restored_free(a, c);
        let b = ellipses_restored(a);
        if first_span((QUOTATION_AT_END_OF_SENTENCE@, false), b) is Some {
            lemma_piece_whole(b);
            lemma_cut_free(b, 0, all_spans((QUOTATION_AT_END_OF_SENTENCE@, false), b), 0, c);
        } else {
            let bare = replaced(b, LINE_FEED@, NOTHING@);
            lemma_replaced_free(b, LINE_FEED@, NOTHING@, c);
            lemma_stripped_start_free(bare, Strip::WhiteSpace, c);
            lemma_stripped_end_free(stripped_start(bare, Strip::WhiteSpace), Strip::WhiteSpace, c);
        }
    }
    assert forall|i: int| 0 <= i < out.len() implies !(#[trigger] out[i]).contains(c) by {
        assert(!parts[i].contains(c));
        lemma_replaced_free(parts[i], MASKED_APOSTROPHE@, APOSTROPHE@, c);
    }
}

/// The sentences that the first `n` masked sentences give hold no mask, and
/// hold a line break only if a masked sentence held one.
pub proof fn lemma_sentences_restored_free(sentences: Seq<Seq<char>>, n: int, c: char)
    requires
        n <= sentences.len(),
        is_mask(c) || (c == line_break() && all_free_of(sentences, c)),
    ensures
        all_free_of(sentences_restored(sentences, n), c),
    decreases n,
{
    if n > 0 {
        lemma_sentences_restored_free(sentences, n - 1, c);
        lemma_sentence_restored_free(sentences[n - 1], c);
        let before = sentences_restored(sentences, n - 1);
        let more = sentence_restored(sentences[n - 1]);
        assert forall|i: int| 0 <= i < (before + more).len() implies !(#[trigger] (before
            + more)[i]).contains(c) by {
            if i >= before.len() {
                assert((before + more)[i] == more[i - before.len()]);
            }
        }
    }
}

/// The texts that fill the place of what a fragment's rules find bring no
/// line break in.
proof fn lemma_fragment_texts()
    ensures
        brings_no(MASKED_LINE_FEED@, line_break()),
        brings_no(MASKED_THREE_SPACED_PERIODS@, line_break()),
        brings_no(MASKED_FOUR_SPACED_PERIODS@, line_break()),
        brings_no(MASKED_THREE_PERIODS@, line_break()),
        brings_no(MASKED_TWO_PERIODS_AND_PERIOD@, line_break()),
        brings_no(END_GUARD@, line_break()),
        brings_no(MASKED_PERIOD@, line_break()),
        brings_no(MASKED_IDEOGRAPHIC_PERIOD@, line_break()),
        brings_no(MASKED_FULL_WIDTH_PERIOD@, line_break()),
        brings_no(MASKED_FULL_WIDTH_EXCLAMATION@, line_break()),
        brings_no(MASKED_EXCLAMATION@, line_break()),
        brings_no(MASKED_QUESTION@, line_break()),
        brings_no(MASKED_FULL_WIDTH_QUESTION@, line_break()),
        brings_no(MASKED_APOSTROPHE@, line_break()),
        brings_no(LEFT_PAREN@, line_break()),
        brings_no(RIGHT_PAREN@, line_break()),
        brings_no(LEFT_BRACKET@, line_break()),
        brings_no(RIGHT_BRACKET@, line_break()),
        brings_no(DASH@, line_break()),
        brings_no(MASKED_QUESTION_EXCLAMATION@, line_break()),
        brings_no(MASKED_EXCLAMATION_QUESTION@, line_break()),
        brings_no(MASKED_DOUBLE_QUESTION@, line_break()),
        brings_no(MASKED_DOUBLE_EXCLAMATION@, line_break()),
        brings_no(ROMAN_NUMERALS_IN_PARENTHESES_TEMPLATE@, line_break()),
        brings_no(EXCLAMATION@, line_break()),
{
    reveal_strlit("ȹ");
    reveal_strlit("♟♟♟♟♟♟♟");
    reveal_strlit("♝♝♝♝♝♝♝");
    reveal_strlit("ƪƪƪ");
    reveal_strlit("☏☏.");
    reveal_strlit("ȸ");
    reveal_strlit("∯");
    reveal_strlit("&ᓰ&");
    reveal_strlit("&ᓱ&");
    reveal_strlit("&ᓳ&");
    reveal_strlit("&ᓴ&");
    reveal_strlit("&ᓷ&");
    reveal_strlit("&ᓸ&");
    reveal_strlit("&⎋&");
    reveal_strlit("(");
    reveal_strlit(")");
    reveal_strlit("[");
    reveal_strlit("]");
    reveal_strlit("-");
    reveal_strlit("☉");
    reveal_strlit("☈");
    reveal_strlit("☇");
    reveal_strlit("☄");
    reveal_strlit(r"&✂&\1&⌬&");
    reveal_strlit("!");
}

/// A rule of a fragment brings no line break in.
proof fn lemma_rule_free(pattern: Seq<char>, template: Seq<char>, text: Seq<char>)
    requires
        brings_no(template, line_break()),
        !text.contains(line_break()),
    ensures
        !rule_applied((pattern, false), template, text).contains(line_break()),
{
    lemma_template_free(template, line_break());
    lemma_rule_applied_free((pattern, false), template, text, line_break());
}

/// A replacement in a fragment brings no line break in.
proof fn lemma_replaced_no_break(text: Seq<char>, from: Seq<char>, to: Seq<char>)
    requires
        brings_no(to, line_break()),
        !text.contains(line_break()),
    ensures
        !replaced(text, from, to).contains(line_break()),
{
    lemma_replaced_free(text, from, to, line_break());
}

/// Masking its ellipses brings no line break into a fragment.
pub proof fn lemma_fragment_prepared_free(fragment: Seq<char>)
    requires
        !fragment.contains(line_break()),
    ensures
        !fragment_prepared(fragment).contains(line_break()),
{
    lemma_fragment_texts();
    let z = replaced(fragment, ESCAPED_LINE_FEED@, MASKED_LINE_FEED@);
    lemma_replaced_no_break(fragment, ESCAPED_LINE_FEED@, MASKED_LINE_FEED@);
    let a = rule_applied((THREE_SPACE_ELLIPSIS@, false), MASKED_THREE_SPACED_PERIODS@, z);
    lemma_rule_free(THREE_SPACE_ELLIPSIS@, MASKED_THREE_SPACED_PERIODS@, z);
    let b = rule_applied((FOUR_SPACE_ELLIPSIS@, false), MASKED_FOUR_SPACED_PERIODS@, a);
    lemma_rule_free(FOUR_SPACE_ELLIPSIS@, MASKED_FOUR_SPACED_PERIODS@, a);
    let c = rule_applied((FOUR_CONSECUTIVE_ELLIPSIS@, false), MASKED_THREE_PERIODS@, b);
    lemma_rule_free(FOUR_CONSECUTIVE_ELLIPSIS@, MASKED_THREE_PERIODS@, b);
    let d = rule_applied((THREE_CONSECUTIVE_ELLIPSIS@, false), MASKED_TWO_PERIODS_AND_PERIOD@, c);
    lemma_rule_free(THREE_CONSECUTIVE_ELLIPSIS@, MASKED_TWO_PERIODS_AND_PERIOD@, c);
    lemma_rule_free(OTHER_THREE_PERIOD_ELLIPSIS@, MASKED_THREE_PERIODS@, d);
}

/// Masking its punctuation brings no line break into a stretch of text.
pub proof fn lemma_punctuation_masked_free(matched: Seq<char>, single: bool)
    requires
        !matched.contains(line_break()),
    ensures
        !punctuation_masked(matched, single).contains(line_break()),
{
    lemma_fragment_texts();
    let a = replaced(matched, PERIOD@, MASKED_PERIOD@);
    lemma_replaced_no_break(matched, PERIOD@, MASKED_PERIOD@);
    let b = replaced(a, IDEOGRAPHIC_PERIOD@, MASKED_IDEOGRAPHIC_PERIOD@);
    lemma_replaced_no_break(a, IDEOGRAPHIC_PERIOD@, MASKED_IDEOGRAPHIC_PERIOD@);
    let c = replaced(b, FULL_WIDTH_PERIOD@, MASKED_FULL_WIDTH_PERIOD@);
    lemma_replaced_no_break(b, FULL_WIDTH_PERIOD@, MASKED_FULL_WIDTH_PERIOD@);
    let d = replaced(c, FULL_WIDTH_EXCLAMATION@, MASKED_FULL_WIDTH_EXCLAMATION@);
    lemma_replaced_no_break(c, FULL_WIDTH_EXCLAMATION@, MASKED_FULL_WIDTH_EXCLAMATION@);
    let e = replaced(d, EXCLAMATION@, MASKED_EXCLAMATION@);
    lemma_replaced_no_break(d, EXCLAMATION@, MASKED_EXCLAMATION@);
    let f = replaced(e, QUESTION@, MASKED_QUESTION@);
    lemma_replaced_no_break(e, QUESTION@, MASKED_QUESTION@);
    let g = replaced(f, FULL_WIDTH_QUESTION@, MASKED_FULL_WIDTH_QUESTION@);
    lemma_replaced_no_break(f, FULL_WIDTH_QUESTION@, MASKED_FULL_WIDTH_QUESTION@);
    let h = if single {
        replaced(g, APOSTROPHE@, MASKED_APOSTROPHE@)
    } else {
        g
    };
    lemma_replaced_no_break(g, APOSTROPHE@, MASKED_APOSTROPHE@);
    let i = rule_applied((ESCAPED_LEFT_PAREN@, false), LEFT_PAREN@, h);
    lemma_rule_free(ESCAPED_LEFT_PAREN@, LEFT_PAREN@, h);
    let j = rule_applied((ESCAPED_RIGHT_PAREN@, false), RIGHT_PAREN@, i);
    lemma_rule_free(ESCAPED_RIGHT_PAREN@, RIGHT_PAREN@, i);
    let k = rule_applied((ESCAPED_LEFT_BRACKET@, false), LEFT_BRACKET@, j);
    lemma_rule_free(ESCAPED_LEFT_BRACKET@, LEFT_BRACKET@, j);
    let l = rule_applied((ESCAPED_RIGHT_BRACKET@, false), RIGHT_BRACKET@, k);
    lemma_rule_free(ESCAPED_RIGHT_BRACKET@, RIGHT_BRACKET@, k);
    lemma_rule_free(ESCAPED_DASH@, DASH@, l);
}

/// Masking the punctuation of its stretches brings no line break into a
/// text.
pub proof fn lemma_stretches_masked_free(pattern: (Seq<char>, bool), text: Seq<char>, single: bool)
    requires
        !text.contains(line_break()),
    ensures
        !stretches_masked(pattern, text, single).contains(line_break()),
{
    let f = |m: Seq<char>| punctuation_masked(m, single);
    assert forall|m: Seq<char>| !m.contains(line_break()) implies !(#[trigger] f(m)).contains(
        line_break(),
    ) by {
        lemma_punctuation_masked_free(m, single);
    }
    lemma_each_rewritten_free(pattern, text, f, line_break());
}

/// Masking the punctuation between quotation marks, brackets and dashes
/// brings no line break into a text.
pub proof fn lemma_between_punctuation_masked_free(text: Seq<char>)
    requires
        !text.contains(line_break()),
    ensures
        !between_punctuation_masked(text).contains(line_break()),
{
    let a = if first_span((WORD_WITH_LEADING_APOSTROPHE@, false), text) is None || first_span(
        (TRAILING_APOSTROPHE@, false),
        text,
    ) is Some {
        stretches_masked((BETWEEN_SINGLE_QUOTES@, false), text, true)
    } else {
        text
    };
    lemma_stretches_masked_free((BETWEEN_SINGLE_QUOTES@, false), text, true);
    let b = stretches_masked((BETWEEN_SINGLE_QUOTE_SLANTED@, false), a, false);
    lemma_stretches_masked_free((BETWEEN_SINGLE_QUOTE_SLANTED@, false), a, false);
    let c = stretches_masked((BETWEEN_DOUBLE_QUOTES@, false), b, false);
    lemma_stretches_masked_free((BETWEEN_DOUBLE_QUOTES@, false), b, false);
    let d = stretches_masked((BETWEEN_SQUARE_BRACKETS@, false), c, false);
    lemma_stretches_masked_free((BETWEEN_SQUARE_BRACKETS@, false), c, false);
    let e = stretches_masked((BETWEEN_PARENS@, false), d, false);
    lemma_stretches_masked_free((BETWEEN_PARENS@, false), d, false);
    let f = stretches_masked((BETWEEN_QUOTE_ARROW@, false), e, false);
    lemma_stretches_masked_free((BETWEEN_QUOTE_ARROW@, false), e, false);
    let g = stretches_masked((BETWEEN_EM_DASHES@, false), f, false);
    lemma_stretches_masked_free((BETWEEN_EM_DASHES@, false), f, false);
    lemma_stretches_masked_free((BETWEEN_QUOTE_SLANTED@, false), g, false);
}

/// Getting a fragment ready to be cut brings no line break into it.
pub proof fn lemma_fragment_masked_free(fragment: Seq<char>)
    requires
        !fragment.contains(line_break()),
    ensures
        !fragment_masked(fragment).contains(line_break()),
{
    lemma_fragment_texts();
    let a = if ends_with_terminator(fragment) {
        fragment
    } else {
        fragment + END_GUARD@
    };
    lemma_concat_free(fragment, END_GUARD@, line_break());
    let b = stretches_masked((EXCLAMATION_WORDS@, false), a, false);
    lemma_stretches_masked_free((EXCLAMATION_WORDS@, false), a, false);
    let c = between_punctuation_masked(b);
    lemma_between_punctuation_masked_free(b);
    let d = double_punctuation_masked(c);
    let d1 = replaced(c, QUESTION_EXCLAMATION@, MASKED_QUESTION_EXCLAMATION@);
    lemma_replaced_no_break(c, QUESTION_EXCLAMATION@, MASKED_QUESTION_EXCLAMATION@);
    let d2 = replaced(d1, EXCLAMATION_QUESTION@, MASKED_EXCLAMATION_QUESTION@);
    lemma_replaced_no_break(d1, EXCLAMATION_QUESTION@, MASKED_EXCLAMATION_QUESTION@);
    let d3 = replaced(d2, DOUBLE_QUESTION@, MASKED_DOUBLE_QUESTION@);
    lemma_replaced_no_break(d2, DOUBLE_QUESTION@, MASKED_DOUBLE_QUESTION@);
    lemma_replaced_no_break(d3, DOUBLE_EXCLAMATION@, MASKED_DOUBLE_EXCLAMATION@);
    assert(!d.contains(line_break()));
    let e1 = rule_applied((QUESTION_MARK_IN_QUOTATION@, false), MASKED_QUESTION@, d);
    lemma_rule_free(QUESTION_MARK_IN_QUOTATION@, MASKED_QUESTION@, d);
    let e2 = rule_applied((EXCLAMATION_IN_QUOTATION@, false), MASKED_EXCLAMATION@, e1);
    lemma_rule_free(EXCLAMATION_IN_QUOTATION@, MASKED_EXCLAMATION@, e1);
    let e3 = rule_applied((EXCLAMATION_BEFORE_COMMA_MID_SENTENCE@, false), MASKED_EXCLAMATION@, e2);
    lemma_rule_free(EXCLAMATION_BEFORE_COMMA_MID_SENTENCE@, MASKED_EXCLAMATION@, e2);
    let e = rule_applied((EXCLAMATION_MID_SENTENCE@, false), MASKED_EXCLAMATION@, e3);
    lemma_rule_free(EXCLAMATION_MID_SENTENCE@, MASKED_EXCLAMATION@, e3);
    assert(e == inner_marks_masked(d));
    let f = rule_applied(
        (ROMAN_NUMERALS_IN_PARENTHESES@, false),
        ROMAN_NUMERALS_IN_PARENTHESES_TEMPLATE@,
        e,
    );
    lemma_rule_free(ROMAN_NUMERALS_IN_PARENTHESES@, ROMAN_NUMERALS_IN_PARENTHESES_TEMPLATE@, e);
    lemma_replaced_no_break(f, MASKED_EXCLAMATION_AND_DOLLAR@, EXCLAMATION@);
}

/// The masked sentences of a fragment hold no line break, if the fragment
/// holds none.
pub proof fn lemma_fragment_sentences_free(fragment: Seq<char>)
    requires
        !fragment.contains(line_break()),
    ensures
        all_free_of(fragment_sentences(fragment), line_break()),
{
    reveal(fragment_sentences);
    let prepared = fragment_prepared(fragment);
    lemma_fragment_prepared_free(fragment);
    if has_terminator(prepared) {
        let masked = fragment_masked(prepared);
        lemma_fragment_masked_free(prepared);
        lemma_all_spans_in_order((SENTENCE_BOUNDARY@, false), masked);
        lemma_texts_of_free(masked, all_spans((SENTENCE_BOUNDARY@, false), masked), line_break());
    } else {
        assert(fragment_sentences(fragment)[0] == prepared);
    }
}

/// The sentences of the first `n` fragments hold no mask and, if the
/// fragments hold no line break, no line break.
pub proof fn lemma_fragments_segmented_free(parts: Seq<Seq<char>>, n: int, c: char)
    requires
        n <= parts.len(),
        is_mask(c) || (c == line_break() && all_free_of(parts, c)),
    ensures
        all_free_of(fragments_segmented(parts, n), c),
    decreases n,
{
    if n > 0 {
        reveal(fragment_segmented);
        lemma_fragments_segmented_free(parts, n - 1, c);
        let masked = fragment_sentences(parts[n - 1]);
        if c == line_break() {
            lemma_fragment_sentences_free(parts[n - 1]);
        }
        lemma_sentences_restored_free(masked, masked.len() as int, c);
        let before = fragments_segmented(parts, n - 1);
        let more = fragment_segmented(parts[n - 1]);
        assert forall|i: int| 0 <= i < (before + more).len() implies !(#[trigger] (before
            + more)[i]).contains(c) by {
            if i >= before.len() {
                assert((before + more)[i] == more[i - before.len()]);
            }
        }
    }
}

/// No sentence that the segmenter gives holds one of the masks that stand
/// for one character each, whatever the text was.
pub proof fn lemma_segmented_free_of_masks(text: Seq<char>)
    ensures
        all_free_of_masks(segmented(text)),
{
    let out = segmented(text);
    assert forall|i: int| 0 <= i < out.len() implies free_of_masks(#[trigger] out[i]) by {
        assert forall|c: char| is_mask(c) implies !(#[trigger] out[i].contains(c)) by {
            let parts = fragments(document_prepared(text), '\r');
            lemma_fragments_segmented_free(parts, parts.len() as int, c);
        }
    }
}

/// No sentence that the segmenter gives holds a line break, whatever the
/// text was.
pub proof fn lemma_segmented_free_of_line_breaks(text: Seq<char>)
    ensures
        all_free_of(segmented(text), line_break()),
{
    if text.len() > 0 {
        let parts = fragments(document_prepared(text), '\r');
        lemma_fragments_free(document_prepared(text), '\r');
        lemma_fragments_segmented_free(parts, parts.len() as int, line_break());
    }
}

/// What the segmenter gives depends on the text alone: two results for the
/// same text, from one segmenter or from two, are the same sentences.
pub proof fn lemma_same_text_same_sentences(
    first: Seq<String>,
    second: Seq<String>,
    text: Seq<char>,
)
    requires
        views(first) == segmented(text),
        views(second) == segmented(text),
    ensures
        first.len() == second.len(),
        forall|i: int| 0 <= i < first.len() ==> (#[trigger] first[i])@ == second[i]@,
{
    assert(views(first).len() == first.len());
    assert(views(second).len() == second.len());
    assert forall|i: int| 0 <= i < first.len() implies (#[trigger] first[i])@ == second[i]@ by {
        assert(views(first)[i] == views(second)[i]);
    }
}

/// An empty text has no sentence.
pub proof fn lemma_empty_text_no_sentence()
    ensures
        segmented(Seq::empty()).len() == 0,
{
}

} // verus!
