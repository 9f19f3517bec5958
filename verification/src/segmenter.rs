//! The segmenter: the chain of rules from a document to its sentences.
use vstd::prelude::*;
use vstd::string::*;
use crate::abbreviation_replacer::{
    abbreviation_patterns_compile, abbreviations_replaced, AbbreviationReplacer,
};
use crate::error::SegmenterError;
use crate::list_item_replacer::{line_breaks_added, list_patterns_compile, ListItemReplacer};
use crate::masks::{
    all_free_of, all_free_of_masks, lemma_segmented_free_of_line_breaks,
    lemma_segmented_free_of_masks, line_break,
};
use crate::regex::{
    all_spans, each_rewritten, first_span, lemma_each_rewritten_same, lemma_in_order_each,
    matched_texts, regex_compiles, texts_of, Pattern, Rewriter,
};
use crate::rule::{rule_applied, Rule};
use crate::text::{
    at_boundary, boundary, byte_len, fragments, lemma_piece_whole, lemma_views_push, piece, put,
    replace, replaced, slice, span_ok, split_nonempty, tail, to_chars, trim, trimmed, utf8, views,
};
use crate::util::re;

verus! {

// The patterns of the rules that go over the whole document, with the
// templates of their replacements where these are more than a mask.

pub const PERIOD_BEFORE_NUMBER: &'static str = r"\.(?=\d)";

pub const NUMBER_AFTER_PERIOD_BEFORE_LETTER: &'static str = r"(?<=\d)\.(?=\S)";

pub const NEW_LINE_NUMBER_PERIOD_SPACE_LETTER: &'static str = r"(?<=\r\d)\.(?=(\s\S)|\))";

pub const START_LINE_NUMBER_PERIOD: &'static str = r"(?<=^\d)\.(?=(\s\S)|\))";

pub const START_LINE_TWO_DIGIT_NUMBER_PERIOD: &'static str = r"(?<=^\d\d)\.(?=(\s\S)|\))";

pub const CONTINUOUS_PUNCTUATION: &'static str = r"(?<=\S)(!|\?){3,}(?=(\s|\Z|$))";

pub const NUMBERED_REFERENCE: &'static str =
    r"(?<=[^\d\s])(\.|∯)((\[(\d{1,3},?\s?-?\s?)*\b\d{1,3}\])+|((\d{1,3}\s?)?\d{1,3}))(\s)(?=[A-Z])";

pub const NUMBERED_REFERENCE_TEMPLATE: &'static str = r"∯\2\r\7";

pub const WITH_MULTIPLE_PERIODS_AND_EMAIL: &'static str = r"([a-zA-Z0-9_])(\.)([a-zA-Z0-9_])";

pub const WITH_MULTIPLE_PERIODS_AND_EMAIL_TEMPLATE: &'static str = r"\1∮\3";

pub const GEO_LOCATION: &'static str = r"(?<=[A-Za-z]°)\.(?=\s*\d+)";

pub const FILE_FORMAT: &'static str =
    r"(?<=\s)\.(?=(jpe?g|png|gif|tiff?|pdf|ps|docx?|xlsx?|svg|bmp|tga|exif|odt|html?|txt|rtf|bat|sxw|xml|zip|exe|msi|blend|wmv|mp[34]|pptx?|flac|rb|cpp|cs|js)\s)";

pub const PARENS_BETWEEN_DOUBLE_QUOTES: &'static str = r#"["\”]\s\(.*\)\s["\“]"#;

pub const SPACE_BEFORE_PAREN: &'static str = r"\s(?=\()";

pub const SPACE_AFTER_PAREN: &'static str = r"(?<=\))\s";

// The patterns of the rules that go over one fragment.

pub const THREE_SPACE_ELLIPSIS: &'static str = r"(\s\.){3}\s";

pub const FOUR_SPACE_ELLIPSIS: &'static str = r"(?<=[a-z])(\.\s){3}\.($|\\n)";

pub const FOUR_CONSECUTIVE_ELLIPSIS: &'static str = r"(?<=\S)\.{3}(?=\.\s[A-Z])";

pub const THREE_CONSECUTIVE_ELLIPSIS: &'static str = r"\.\.\.(?=\s+[A-Z])";

pub const OTHER_THREE_PERIOD_ELLIPSIS: &'static str = r"\.\.\.";

pub const EXCLAMATION_WORDS: &'static str =
    r"!Xũ|!Kung|ǃʼOǃKung|!Xuun|!Kung\-Ekoka|ǃHu|ǃKhung|ǃKu|ǃung|ǃXo|ǃXû|ǃXung|ǃXũ|!Xun|Yahoo!|Y!J|Yum!";

pub const ESCAPED_LEFT_PAREN: &'static str = r"\\\(";

pub const ESCAPED_RIGHT_PAREN: &'static str = r"\\\)";

pub const ESCAPED_LEFT_BRACKET: &'static str = r"\\\[";

pub const ESCAPED_RIGHT_BRACKET: &'static str = r"\\\]";

pub const ESCAPED_DASH: &'static str = r"\\\-";

pub const WORD_WITH_LEADING_APOSTROPHE: &'static str = r"(?<=\s)'(?:[^']|'[a-zA-Z])*'\S";

pub const TRAILING_APOSTROPHE: &'static str = r"'\s";

pub const BETWEEN_SINGLE_QUOTES: &'static str = r"(?<=\s)'(?:[^']|'[a-zA-Z])*'";

pub const BETWEEN_SINGLE_QUOTE_SLANTED: &'static str = r"(?<=\s)‘(?:[^’]|’[a-zA-Z])*’";

pub const BETWEEN_DOUBLE_QUOTES: &'static str = r#""(?=(?<tmp>[^\"\\]+|\\{2}|\\.)*)\k<tmp>""#;

pub const BETWEEN_SQUARE_BRACKETS: &'static str = r#"\[(?=(?<tmp>[^\]\\]+|\\{2}|\\.)*)\k<tmp>\]"#;

pub const BETWEEN_PARENS: &'static str = r"\((?=(?<tmp>[^\(\)\\]+|\\{2}|\\.)*)\k<tmp>\)";

pub const BETWEEN_QUOTE_ARROW: &'static str = r"\«(?=(?<tmp>[^»\\]+|\\{2}|\\.)*)\k<tmp>\»";

pub const BETWEEN_EM_DASHES: &'static str = r"--(?=(?<tmp>[^--]*))\k<tmp>--";

pub const BETWEEN_QUOTE_SLANTED: &'static str = r"\“(?=(?<tmp>[^”\\]+|\\{2}|\\.)*)\k<tmp>\”";

pub const DOUBLE_PUNCTUATION: &'static str = r"^(?:\?!|!\?|\?\?|!!)";

pub const QUESTION_MARK_IN_QUOTATION: &'static str = r#"\?(?=(\'|\"))"#;

pub const EXCLAMATION_IN_QUOTATION: &'static str = r#"\!(?=(\'|\"))"#;

pub const EXCLAMATION_BEFORE_COMMA_MID_SENTENCE: &'static str = r"\!(?=\,\s[a-z])";

pub const EXCLAMATION_MID_SENTENCE: &'static str = r"\!(?=\s[a-z])";

pub const ROMAN_NUMERALS_IN_PARENTHESES: &'static str =
    r"\(((?=[mdclxvi])m*(c[md]|d?c*)(x[cl]|l?x*)(i[xv]|v?i*))\)(?=\s[A-Z])";

pub const ROMAN_NUMERALS_IN_PARENTHESES_TEMPLATE: &'static str = r"&✂&\1&⌬&";

// The patterns that cut a fragment into sentences and a sentence at the end
// of a quotation.

pub const SENTENCE_BOUNDARY: &'static str =
    r#"（(?:[^）])*）(?=\s?[A-Z])|「(?:[^」])*」(?=\s[A-Z])|\((?:[^\)]){2,}\)(?=\s[A-Z])|\'(?:[^\'])*[^,]\'(?=\s[A-Z])|\"(?:[^\"])*[^,]\"(?=\s[A-Z])|\“(?:[^\”])*[^,]\”(?=\s[A-Z])|[。．.！!?？].*|\S.*?[。．.！!?？ȸȹ☉☈☇☄]"#;

pub const WHOLLY_LETTERS: &'static str = r"\A[a-zA-Z]*\Z";

pub const QUOTATION_AT_END_OF_SENTENCE: &'static str = r#"[!?\.-][\"\'“”]\s{1}[A-Z]"#;

// The texts that the rules put in and take out: each piece of punctuation
// and the mask that stands for it.

pub const NOTHING: &'static str = "";

pub const LINE_FEED: &'static str = "\n";

pub const LINE_BREAK: &'static str = "\r";

pub const ESCAPED_LINE_FEED: &'static str = r"\n";

pub const MASKED_LINE_FEED: &'static str = "ȹ";

pub const END_GUARD: &'static str = "ȸ";

pub const PERIOD: &'static str = ".";

pub const MASKED_PERIOD: &'static str = "∯";

pub const MASKED_INNER_PERIOD: &'static str = "∮";

pub const ARABIC_COMMA: &'static str = "،";

pub const MASKED_ARABIC_COMMA: &'static str = "♬";

pub const COLON: &'static str = ":";

pub const MASKED_COLON: &'static str = "♭";

pub const IDEOGRAPHIC_PERIOD: &'static str = "。";

pub const MASKED_IDEOGRAPHIC_PERIOD: &'static str = "&ᓰ&";

pub const FULL_WIDTH_PERIOD: &'static str = "．";

pub const MASKED_FULL_WIDTH_PERIOD: &'static str = "&ᓱ&";

pub const FULL_WIDTH_EXCLAMATION: &'static str = "！";

pub const MASKED_FULL_WIDTH_EXCLAMATION: &'static str = "&ᓳ&";

pub const EXCLAMATION: &'static str = "!";

pub const MASKED_EXCLAMATION: &'static str = "&ᓴ&";

pub const MASKED_EXCLAMATION_AND_DOLLAR: &'static str = "&ᓴ&$";

pub const QUESTION: &'static str = "?";

pub const MASKED_QUESTION: &'static str = "&ᓷ&";

pub const FULL_WIDTH_QUESTION: &'static str = "？";

pub const MASKED_FULL_WIDTH_QUESTION: &'static str = "&ᓸ&";

pub const APOSTROPHE: &'static str = "'";

pub const MASKED_APOSTROPHE: &'static str = "&⎋&";

pub const LEFT_PAREN: &'static str = "(";

pub const MASKED_LEFT_PAREN: &'static str = "&✂&";

pub const RIGHT_PAREN: &'static str = ")";

pub const MASKED_RIGHT_PAREN: &'static str = "&⌬&";

pub const LEFT_BRACKET: &'static str = "[";

pub const RIGHT_BRACKET: &'static str = "]";

pub const DASH: &'static str = "-";

pub const QUESTION_EXCLAMATION: &'static str = "?!";

pub const MASKED_QUESTION_EXCLAMATION: &'static str = "☉";

pub const EXCLAMATION_QUESTION: &'static str = "!?";

pub const MASKED_EXCLAMATION_QUESTION: &'static str = "☈";

pub const DOUBLE_QUESTION: &'static str = "??";

pub const MASKED_DOUBLE_QUESTION: &'static str = "☇";

pub const DOUBLE_EXCLAMATION: &'static str = "!!";

pub const MASKED_DOUBLE_EXCLAMATION: &'static str = "☄";

pub const THREE_PERIODS: &'static str = "...";

pub const MASKED_THREE_PERIODS: &'static str = "ƪƪƪ";

pub const THREE_SPACED_PERIODS: &'static str = " . . . ";

pub const MASKED_THREE_SPACED_PERIODS: &'static str = "♟♟♟♟♟♟♟";

pub const FOUR_SPACED_PERIODS: &'static str = ". . . .";

pub const MASKED_FOUR_SPACED_PERIODS: &'static str = "♝♝♝♝♝♝♝";

pub const TWO_PERIODS: &'static str = "..";

pub const MASKED_TWO_PERIODS: &'static str = "☏☏";

pub const MASKED_TWO_PERIODS_AND_PERIOD: &'static str = "☏☏.";

/// Whether `c` can end a sentence.
pub open spec fn is_terminator(c: char) -> bool {
    c == '。' || c == '．' || c == '.' || c == '！' || c == '!' || c == '?' || c == '？'
}

/// Whether `text` holds a character that can end a sentence.
pub open spec fn has_terminator(text: Seq<char>) -> bool {
    exists|i: int| 0 <= i < text.len() && is_terminator(#[trigger] text[i])
}

/// Whether `text` ends in a character that can end a sentence.
pub open spec fn ends_with_terminator(text: Seq<char>) -> bool {
    text.len() > 0 && is_terminator(text.last())
}

/// `text` with the periods masked that belong to a number.
pub open spec fn numbers_protected(text: Seq<char>) -> Seq<char> {
    let a = rule_applied((PERIOD_BEFORE_NUMBER@, false), MASKED_PERIOD@, text);
    let b = rule_applied((NUMBER_AFTER_PERIOD_BEFORE_LETTER@, false), MASKED_PERIOD@, a);
    let c = rule_applied((NEW_LINE_NUMBER_PERIOD_SPACE_LETTER@, false), MASKED_PERIOD@, b);
    let d = rule_applied((START_LINE_NUMBER_PERIOD@, false), MASKED_PERIOD@, c);
    rule_applied((START_LINE_TWO_DIGIT_NUMBER_PERIOD@, false), MASKED_PERIOD@, d)
}

/// A run of exclamation and question marks with each mark masked.
pub open spec fn marks_masked(matched: Seq<char>) -> Seq<char> {
    replaced(replaced(matched, EXCLAMATION@, MASKED_EXCLAMATION@), QUESTION@, MASKED_QUESTION@)
}

/// `text` with every run of three or more exclamation and question marks
/// masked.
pub open spec fn continuous_punctuation_masked(text: Seq<char>) -> Seq<char> {
    each_rewritten((CONTINUOUS_PUNCTUATION@, false), text, |m: Seq<char>| marks_masked(m))
}

/// `text` with the period before a numbered reference masked and a line
/// break put behind the reference.
pub open spec fn references_marked(text: Seq<char>) -> Seq<char> {
    rule_applied((NUMBERED_REFERENCE@, false), NUMBERED_REFERENCE_TEMPLATE@, text)
}

/// `text` with the periods masked that stand inside an address, behind a
/// degree sign or before a file extension.
pub open spec fn miscellany_masked(text: Seq<char>) -> Seq<char> {
    let a = rule_applied(
        (WITH_MULTIPLE_PERIODS_AND_EMAIL@, false),
        WITH_MULTIPLE_PERIODS_AND_EMAIL_TEMPLATE@,
        text,
    );
    let b = rule_applied((GEO_LOCATION@, false), MASKED_PERIOD@, a);
    rule_applied((FILE_FORMAT@, false), MASKED_PERIOD@, b)
}

/// Round brackets between two quotations, with the space on either side of
/// them turned into a line break.
pub open spec fn quoted_parens_broken(matched: Seq<char>) -> Seq<char> {
    rule_applied(
        (SPACE_AFTER_PAREN@, false),
        LINE_BREAK@,
        rule_applied((SPACE_BEFORE_PAREN@, false), LINE_BREAK@, matched),
    )
}

/// `text` with a line break on either side of round brackets that stand
/// between two quotations.
pub open spec fn parens_between_quotes_broken(text: Seq<char>) -> Seq<char> {
    each_rewritten(
        (PARENS_BETWEEN_DOUBLE_QUOTES@, false),
        text,
        |m: Seq<char>| quoted_parens_broken(m),
    )
}

/// The document as it is cut into fragments: line feeds made line breaks,
/// lists rewritten, and the periods masked that belong to abbreviations,
/// numbers and the like. Where the lists cannot be read, they are left as
/// they are.
#[verifier::opaque]
pub open spec fn document_prepared(text: Seq<char>) -> Seq<char> {
    let a = replaced(text, LINE_FEED@, LINE_BREAK@);
    let b = match line_breaks_added(a) {
        Some(listed) => listed,
        None => a,
    };
    let c = abbreviations_replaced(b);
    parens_between_quotes_broken(
        miscellany_masked(references_marked(continuous_punctuation_masked(numbers_protected(c)))),
    )
}

/// `text` with its ellipses masked.
pub open spec fn ellipses_masked(text: Seq<char>) -> Seq<char> {
    let a = rule_applied((THREE_SPACE_ELLIPSIS@, false), MASKED_THREE_SPACED_PERIODS@, text);
    let b = rule_applied((FOUR_SPACE_ELLIPSIS@, false), MASKED_FOUR_SPACED_PERIODS@, a);
    let c = rule_applied((FOUR_CONSECUTIVE_ELLIPSIS@, false), MASKED_THREE_PERIODS@, b);
    let d = rule_applied((THREE_CONSECUTIVE_ELLIPSIS@, false), MASKED_TWO_PERIODS_AND_PERIOD@, c);
    rule_applied((OTHER_THREE_PERIOD_ELLIPSIS@, false), MASKED_THREE_PERIODS@, d)
}

/// A stretch of text with every character masked that can end a sentence.
/// Where the stretch stands between single quotes, its apostrophes are
/// masked too. Last, a backslash before a bracket or a dash is dropped.
pub open spec fn punctuation_masked(matched: Seq<char>, single: bool) -> Seq<char> {
    let a = replaced(matched, PERIOD@, MASKED_PERIOD@);
    let b = replaced(a, IDEOGRAPHIC_PERIOD@, MASKED_IDEOGRAPHIC_PERIOD@);
    let c = replaced(b, FULL_WIDTH_PERIOD@, MASKED_FULL_WIDTH_PERIOD@);
    let d = replaced(c, FULL_WIDTH_EXCLAMATION@, MASKED_FULL_WIDTH_EXCLAMATION@);
    let e = replaced(d, EXCLAMATION@, MASKED_EXCLAMATION@);
    let f = replaced(e, QUESTION@, MASKED_QUESTION@);
    let g = replaced(f, FULL_WIDTH_QUESTION@, MASKED_FULL_WIDTH_QUESTION@);
    let h = if single {
        replaced(g, APOSTROPHE@, MASKED_APOSTROPHE@)
    } else {
        g
    };
    let i = rule_applied((ESCAPED_LEFT_PAREN@, false), LEFT_PAREN@, h);
    let j = rule_applied((ESCAPED_RIGHT_PAREN@, false), RIGHT_PAREN@, i);
    let k = rule_applied((ESCAPED_LEFT_BRACKET@, false), LEFT_BRACKET@, j);
    let l = rule_applied((ESCAPED_RIGHT_BRACKET@, false), RIGHT_BRACKET@, k);
    rule_applied((ESCAPED_DASH@, false), DASH@, l)
}

/// `text` with the punctuation masked in every stretch that `pattern`
/// finds.
pub open spec fn stretches_masked(pattern: (Seq<char>, bool), text: Seq<char>, single: bool) -> Seq<
    char,
> {
    each_rewritten(pattern, text, |m: Seq<char>| punctuation_masked(m, single))
}

/// `text` with the punctuation masked between quotation marks, brackets and
/// dashes. Between single quotes it is masked unless a word with a leading
/// apostrophe is found and no apostrophe before white space.
pub open spec fn between_punctuation_masked(text: Seq<char>) -> Seq<char> {
    let a = if first_span((WORD_WITH_LEADING_APOSTROPHE@, false), text) is None || first_span(
        (TRAILING_APOSTROPHE@, false),
        text,
    ) is Some {
        stretches_masked((BETWEEN_SINGLE_QUOTES@, false), text, true)
    } else {
        text
    };
    let b = stretches_masked((BETWEEN_SINGLE_QUOTE_SLANTED@, false), a, false);
    let c = stretches_masked((BETWEEN_DOUBLE_QUOTES@, false), b, false);
    let d = stretches_masked((BETWEEN_SQUARE_BRACKETS@, false), c, false);
    let e = stretches_masked((BETWEEN_PARENS@, false), d, false);
    let f = stretches_masked((BETWEEN_QUOTE_ARROW@, false), e, false);
    let g = stretches_masked((BETWEEN_EM_DASHES@, false), f, false);
    stretches_masked((BETWEEN_QUOTE_SLANTED@, false), g, false)
}

/// `text` with each pair of question and exclamation marks masked by one
/// character, unless the text starts with such a pair.
pub open spec fn double_punctuation_masked(text: Seq<char>) -> Seq<char> {
    if first_span((DOUBLE_PUNCTUATION@, false), text) is None {
        let a = replaced(text, QUESTION_EXCLAMATION@, MASKED_QUESTION_EXCLAMATION@);
        let b = replaced(a, EXCLAMATION_QUESTION@, MASKED_EXCLAMATION_QUESTION@);
        let c = replaced(b, DOUBLE_QUESTION@, MASKED_DOUBLE_QUESTION@);
        replaced(c, DOUBLE_EXCLAMATION@, MASKED_DOUBLE_EXCLAMATION@)
    } else {
        text
    }
}

/// `text` with the question and exclamation marks masked that stand before
/// a quotation mark or in the middle of a sentence.
pub open spec fn inner_marks_masked(text: Seq<char>) -> Seq<char> {
    let a = rule_applied((QUESTION_MARK_IN_QUOTATION@, false), MASKED_QUESTION@, text);
    let b = rule_applied((EXCLAMATION_IN_QUOTATION@, false), MASKED_EXCLAMATION@, a);
    let c = rule_applied((EXCLAMATION_BEFORE_COMMA_MID_SENTENCE@, false), MASKED_EXCLAMATION@, b);
    rule_applied((EXCLAMATION_MID_SENTENCE@, false), MASKED_EXCLAMATION@, c)
}

/// A fragment that holds a terminator, ready to be cut: guarded at its end
/// if it does not end in a terminator, and with every terminator masked that
/// ends no sentence.
pub open spec fn fragment_masked(fragment: Seq<char>) -> Seq<char> {
    let a = if ends_with_terminator(fragment) {
        fragment
    } else {
        fragment + END_GUARD@
    };
    let b = stretches_masked((EXCLAMATION_WORDS@, false), a, false);
    let c = between_punctuation_masked(b);
    let d = double_punctuation_masked(c);
    let e = inner_marks_masked(d);
    let f = rule_applied(
        (ROMAN_NUMERALS_IN_PARENTHESES@, false),
        ROMAN_NUMERALS_IN_PARENTHESES_TEMPLATE@,
        e,
    );
    replaced(f, MASKED_EXCLAMATION_AND_DOLLAR@, EXCLAMATION@)
}

/// A fragment with its escaped line feeds and its ellipses masked.
pub open spec fn fragment_prepared(fragment: Seq<char>) -> Seq<char> {
    ellipses_masked(replaced(fragment, ESCAPED_LINE_FEED@, MASKED_LINE_FEED@))
}

/// The sentences of one fragment, still masked. A fragment without a
/// terminator is one sentence.
#[verifier::opaque]
pub open spec fn fragment_sentences(fragment: Seq<char>) -> Seq<Seq<char>> {
    let prepared = fragment_prepared(fragment);
    if has_terminator(prepared) {
        let masked = fragment_masked(prepared);
        texts_of(masked, all_spans((SENTENCE_BOUNDARY@, false), masked))
    } else {
        seq![prepared]
    }
}

/// A sentence with the masks of its punctuation taken off.
pub open spec fn symbols_restored(sentence: Seq<char>) -> Seq<char> {
    let a = replaced(sentence, MASKED_PERIOD@, PERIOD@);
    let b = replaced(a, MASKED_ARABIC_COMMA@, ARABIC_COMMA@);
    let c = replaced(b, MASKED_COLON@, COLON@);
    let d = replaced(c, MASKED_IDEOGRAPHIC_PERIOD@, IDEOGRAPHIC_PERIOD@);
    let e = replaced(d, MASKED_FULL_WIDTH_PERIOD@, FULL_WIDTH_PERIOD@);
    let f = replaced(e, MASKED_FULL_WIDTH_EXCLAMATION@, FULL_WIDTH_EXCLAMATION@);
    let g = replaced(f, MASKED_EXCLAMATION@, EXCLAMATION@);
    let h = replaced(g, MASKED_QUESTION@, QUESTION@);
    let i = replaced(h, MASKED_FULL_WIDTH_QUESTION@, FULL_WIDTH_QUESTION@);
    let j = replaced(i, MASKED_QUESTION_EXCLAMATION@, QUESTION_EXCLAMATION@);
    let k = replaced(j, MASKED_DOUBLE_QUESTION@, DOUBLE_QUESTION@);
    let l = replaced(k, MASKED_EXCLAMATION_QUESTION@, EXCLAMATION_QUESTION@);
    let m = replaced(l, MASKED_DOUBLE_EXCLAMATION@, DOUBLE_EXCLAMATION@);
    let n = replaced(m, MASKED_LEFT_PAREN@, LEFT_PAREN@);
    let o = replaced(n, MASKED_RIGHT_PAREN@, RIGHT_PAREN@);
    let p = replaced(o, END_GUARD@, NOTHING@);
    replaced(p, MASKED_LINE_FEED@, LINE_FEED@)
}

/// A sentence with the masks of its ellipses and inner periods taken off.
pub open spec fn ellipses_restored(sentence: Seq<char>) -> Seq<char> {
    let a = replaced(sentence, MASKED_THREE_PERIODS@, THREE_PERIODS@);
    let b = replaced(a, MASKED_THREE_SPACED_PERIODS@, THREE_SPACED_PERIODS@);
    let c = replaced(b, MASKED_FOUR_SPACED_PERIODS@, FOUR_SPACED_PERIODS@);
    let d = replaced(c, MASKED_TWO_PERIODS@, TWO_PERIODS@);
    replaced(d, MASKED_INNER_PERIOD@, PERIOD@)
}

/// `text` from byte offset `from` on, cut before the last character of each
/// of `spans` from index `k` on. Each span is a terminator, a closing
/// quotation mark, one white space and the capital letter with which the
/// next sentence starts; the cut leaves the white space with the sentence
/// before it. A span that gives no place to cut is passed over, and nothing
/// is left out but an empty rest.
pub open spec fn cut_before_capitals(
    text: Seq<char>,
    from: int,
    spans: Seq<(usize, usize)>,
    k: int,
) -> Seq<Seq<char>>
    decreases spans.len() - k,
{
    if k < 0 || k >= spans.len() {
        if from >= utf8(text).len() {
            Seq::empty()
        } else {
            seq![tail(text, from)]
        }
    } else {
        let cut = spans[k].1 - 1;
        if from <= cut && boundary(text, cut) {
            seq![piece(text, from, cut)] + cut_before_capitals(text, cut, spans, k + 1)
        } else {
            cut_before_capitals(text, from, spans, k + 1)
        }
    }
}

/// What one masked sentence becomes, before its apostrophes are restored. A
/// sentence of more than two bytes that the engine finds to be letters
/// throughout stays as it is. Any other has its ellipses restored; it is
/// then cut where a quotation ends a sentence inside it, or else freed of
/// line feeds and of white space at its ends.
#[verifier::opaque]
pub open spec fn sentence_split(sentence: Seq<char>) -> Seq<Seq<char>> {
    let a = symbols_restored(sentence);
    if utf8(a).len() > 2 && first_span((WHOLLY_LETTERS@, false), a) is Some {
        seq![a]
    } else {
        let b = ellipses_restored(a);
        if first_span((QUOTATION_AT_END_OF_SENTENCE@, false), b) is Some {
            cut_before_capitals(b, 0, all_spans((QUOTATION_AT_END_OF_SENTENCE@, false), b), 0)
        } else {
            seq![trimmed(replaced(b, LINE_FEED@, NOTHING@))]
        }
    }
}

/// Each of `sentences` with its apostrophes restored.
pub open spec fn apostrophes_restored(sentences: Seq<Seq<char>>) -> Seq<Seq<char>> {
    Seq::new(sentences.len(), |i: int| replaced(sentences[i], MASKED_APOSTROPHE@, APOSTROPHE@))
}

/// The sentences that one masked sentence gives.
#[verifier::opaque]
pub open spec fn sentence_restored(sentence: Seq<char>) -> Seq<Seq<char>> {
    apostrophes_restored(sentence_split(sentence))
}

/// The sentences that the first `n` of `sentences` give, in their order.
pub open spec fn sentences_restored(sentences: Seq<Seq<char>>, n: int) -> Seq<Seq<char>>
    decreases n,
{
    if n <= 0 {
        Seq::empty()
    } else {
        sentences_restored(sentences, n - 1) + sentence_restored(sentences[n - 1])
    }
}

/// The sentences of one fragment.
#[verifier::opaque]
pub open spec fn fragment_segmented(fragment: Seq<char>) -> Seq<Seq<char>> {
    let masked = fragment_sentences(fragment);
    sentences_restored(masked, masked.len() as int)
}

/// The sentences of the first `n` of `parts`, in their order.
pub open spec fn fragments_segmented(parts: Seq<Seq<char>>, n: int) -> Seq<Seq<char>>
    decreases n,
{
    if n <= 0 {
        Seq::empty()
    } else {
        fragments_segmented(parts, n - 1) + fragment_segmented(parts[n - 1])
    }
}

/// The sentences of `text`: none for an empty text; else those of the
/// fragments between the line breaks of the prepared document.
pub open spec fn segmented(text: Seq<char>) -> Seq<Seq<char>> {
    if text.len() == 0 {
        Seq::empty()
    } else {
        let parts = fragments(document_prepared(text), '\r');
        fragments_segmented(parts, parts.len() as int)
    }
}

/// Whether the engine accepts every pattern that the segmenter's own rules
/// are made of.
pub open spec fn segmenter_patterns_compile() -> bool {
    &&& regex_compiles(PERIOD_BEFORE_NUMBER@, false)
    &&& regex_compiles(NUMBER_AFTER_PERIOD_BEFORE_LETTER@, false)
    &&& regex_compiles(NEW_LINE_NUMBER_PERIOD_SPACE_LETTER@, false)
    &&& regex_compiles(START_LINE_NUMBER_PERIOD@, false)
    &&& regex_compiles(START_LINE_TWO_DIGIT_NUMBER_PERIOD@, false)
    &&& regex_compiles(CONTINUOUS_PUNCTUATION@, false)
    &&& regex_compiles(NUMBERED_REFERENCE@, false)
    &&& regex_compiles(WITH_MULTIPLE_PERIODS_AND_EMAIL@, false)
    &&& regex_compiles(GEO_LOCATION@, false)
    &&& regex_compiles(FILE_FORMAT@, false)
    &&& regex_compiles(PARENS_BETWEEN_DOUBLE_QUOTES@, false)
    &&& regex_compiles(SPACE_BEFORE_PAREN@, false)
    &&& regex_compiles(SPACE_AFTER_PAREN@, false)
    &&& regex_compiles(THREE_SPACE_ELLIPSIS@, false)
    &&& regex_compiles(FOUR_SPACE_ELLIPSIS@, false)
    &&& regex_compiles(FOUR_CONSECUTIVE_ELLIPSIS@, false)
    &&& regex_compiles(THREE_CONSECUTIVE_ELLIPSIS@, false)
    &&& regex_compiles(OTHER_THREE_PERIOD_ELLIPSIS@, false)
    &&& regex_compiles(EXCLAMATION_WORDS@, false)
    &&& regex_compiles(ESCAPED_LEFT_PAREN@, false)
    &&& regex_compiles(ESCAPED_RIGHT_PAREN@, false)
    &&& regex_compiles(ESCAPED_LEFT_BRACKET@, false)
    &&& regex_compiles(ESCAPED_RIGHT_BRACKET@, false)
    &&& regex_compiles(ESCAPED_DASH@, false)
    &&& regex_compiles(WORD_WITH_LEADING_APOSTROPHE@, false)
    &&& regex_compiles(TRAILING_APOSTROPHE@, false)
    &&& regex_compiles(BETWEEN_SINGLE_QUOTES@, false)
    &&& regex_compiles(BETWEEN_SINGLE_QUOTE_SLANTED@, false)
    &&& regex_compiles(BETWEEN_DOUBLE_QUOTES@, false)
    &&& regex_compiles(BETWEEN_SQUARE_BRACKETS@, false)
    &&& regex_compiles(BETWEEN_PARENS@, false)
    &&& regex_compiles(BETWEEN_QUOTE_ARROW@, false)
    &&& regex_compiles(BETWEEN_EM_DASHES@, false)
    &&& regex_compiles(BETWEEN_QUOTE_SLANTED@, false)
    &&& regex_compiles(DOUBLE_PUNCTUATION@, false)
    &&& regex_compiles(QUESTION_MARK_IN_QUOTATION@, false)
    &&& regex_compiles(EXCLAMATION_IN_QUOTATION@, false)
    &&& regex_compiles(EXCLAMATION_BEFORE_COMMA_MID_SENTENCE@, false)
    &&& regex_compiles(EXCLAMATION_MID_SENTENCE@, false)
    &&& regex_compiles(ROMAN_NUMERALS_IN_PARENTHESES@, false)
    &&& regex_compiles(SENTENCE_BOUNDARY@, false)
    &&& regex_compiles(WHOLLY_LETTERS@, false)
    &&& regex_compiles(QUOTATION_AT_END_OF_SENTENCE@, false)
}

/// Whether a segmenter can be built: the engine accepts every built-in
/// pattern, and the automaton that finds line endings can be built.
pub open spec fn patterns_compile() -> bool {
    list_patterns_compile() && abbreviation_patterns_compile() && segmenter_patterns_compile()
}

/// Compiles a pattern of the segmenter's rules.
fn pattern(regex: &str) -> (r: Result<Pattern, SegmenterError>)
    ensures
        r is Ok == regex_compiles(regex@, false),
        r is Ok ==> r->Ok_0.pattern() == (regex@, false),
        r is Err ==> r->Err_0 is Regex,
{
    match re(regex) {
        Ok(p) => Ok(p),
        Err(e) => Err(SegmenterError::Regex(e)),
    }
}

/// Makes a rule of the segmenter's rules.
fn rule(regex: &str, replace: &str) -> (r: Result<Rule, SegmenterError>)
    ensures
        r is Ok == regex_compiles(regex@, false),
        r is Ok ==> r->Ok_0.pattern() == (regex@, false) && r->Ok_0.template() == replace@,
        r is Err ==> r->Err_0 is Regex,
{
    match Rule::new(regex, replace) {
        Ok(p) => Ok(p),
        Err(e) => Err(SegmenterError::Regex(e)),
    }
}

/// Whether `c` can end a sentence.
pub fn terminator(c: char) -> (r: bool)
    ensures
        r == is_terminator(c),
{
    c == '。' || c == '．' || c == '.' || c == '！' || c == '!' || c == '?' || c == '？'
}

/// Whether `text` holds a character that can end a sentence, and whether it
/// ends in one.
pub fn terminators(text: &str) -> (r: (bool, bool))
    ensures
        r.0 == has_terminator(text@),
        r.1 == ends_with_terminator(text@),
{
    let chars = to_chars(text);
    let mut found = false;
    let mut i: usize = 0;
    while i < chars.len()
        invariant
            i <= chars.len(),
            chars@ == text@,
            found == (exists|k: int| 0 <= k < i && is_terminator(#[trigger] text@[k])),
        decreases chars.len() - i,
    {
        if terminator(chars[i]) {
            found = true;
        }
        i += 1;
    }
    let n = chars.len();
    let at_end = n > 0 && terminator(chars[n - 1]);
    (found, at_end)
}

/// Adds the strings of `more` to `list`.
fn extend(list: &mut Vec<String>, more: &Vec<String>)
    ensures
        views(final(list)@) == views(old(list)@) + views(more@),
{
    let mut i: usize = 0;
    proof {
        assert(views(more@).take(0) =~= Seq::<Seq<char>>::empty());
        assert(views(list@) + views(more@).take(0) =~= views(list@));
    }
    while i < more.len()
        invariant
            i <= more.len(),
            views(list@) == views(old(list)@) + views(more@).take(i as int),
        decreases more.len() - i,
    {
        put(list, more[i].as_str());
        proof {
            assert(views(more@).take(i + 1) =~= views(more@).take(i as int).push(more@[i as int]@));
            assert(views(list@) =~= views(old(list)@) + views(more@).take(i + 1));
        }
        i += 1;
    }
    proof {
        assert(views(more@).take(i as int) =~= views(more@));
    }
}

/// Masks each mark of a run of exclamation and question marks.
pub struct MaskMarks {}

impl Rewriter for MaskMarks {
    open spec fn rewritten(&self, matched: Seq<char>) -> Seq<char> {
        marks_masked(matched)
    }

    fn rewrite(&self, matched: &str) -> (r: String) {
        let a = replace(matched, EXCLAMATION, MASKED_EXCLAMATION);
        replace(a.as_str(), QUESTION, MASKED_QUESTION)
    }
}

/// Turns the space on either side of round brackets into a line break.
pub struct BreakQuotedParens<'a> {
    pub rules: &'a Segmenter,
}

impl<'a> Rewriter for BreakQuotedParens<'a> {
    open spec fn rewritten(&self, matched: Seq<char>) -> Seq<char> {
        quoted_parens_broken(matched)
    }

    fn rewrite(&self, matched: &str) -> (r: String) {
        proof {
            use_type_invariant(self.rules);
        }
        let a = self.rules.parens_between_double_quotes_0.replace_all(matched);
        self.rules.parens_between_double_quotes_1.replace_all(a.as_str())
    }
}

/// Masks the punctuation of a stretch of text.
pub struct MaskPunctuation<'a> {
    pub rules: &'a Segmenter,
    pub single: bool,
}

impl<'a> Rewriter for MaskPunctuation<'a> {
    open spec fn rewritten(&self, matched: Seq<char>) -> Seq<char> {
        punctuation_masked(matched, self.single)
    }

    fn rewrite(&self, matched: &str) -> (r: String) {
        proof {
            use_type_invariant(self.rules);
        }
        let a = replace(matched, PERIOD, MASKED_PERIOD);
        let a = replace(a.as_str(), IDEOGRAPHIC_PERIOD, MASKED_IDEOGRAPHIC_PERIOD);
        let a = replace(a.as_str(), FULL_WIDTH_PERIOD, MASKED_FULL_WIDTH_PERIOD);
        let a = replace(a.as_str(), FULL_WIDTH_EXCLAMATION, MASKED_FULL_WIDTH_EXCLAMATION);
        let a = replace(a.as_str(), EXCLAMATION, MASKED_EXCLAMATION);
        let a = replace(a.as_str(), QUESTION, MASKED_QUESTION);
        let a = replace(a.as_str(), FULL_WIDTH_QUESTION, MASKED_FULL_WIDTH_QUESTION);
        let a = if self.single {
            replace(a.as_str(), APOSTROPHE, MASKED_APOSTROPHE)
        } else {
            a
        };
        let a = self.rules.sub_left_paren.replace_all(a.as_str());
        let a = self.rules.sub_right_paren.replace_all(a.as_str());
        let a = self.rules.sub_left_bracket.replace_all(a.as_str());
        let a = self.rules.sub_right_bracket.replace_all(a.as_str());
        self.rules.sub_dash.replace_all(a.as_str())
    }
}

/// The rules that cut a document into sentences.
pub struct Segmenter {
    list_item_replacer: ListItemReplacer,
    abbreviation_replacer: AbbreviationReplacer,
    period_before_number: Rule,
    number_after_period_before_letter: Rule,
    new_line_number_period_space_letter: Rule,
    start_line_number_period: Rule,
    start_line_two_digit_number_period: Rule,
    continuous_punctuation_regex: Pattern,
    numbered_reference: Rule,
    with_multiple_periods_and_email: Rule,
    geo_location: Rule,
    file_format: Rule,
    parens_between_double_quotes_regex: Pattern,
    parens_between_double_quotes_0: Rule,
    parens_between_double_quotes_1: Rule,
    three_space_ellipsis: Rule,
    four_space_ellipsis: Rule,
    four_consecutive_ellipsis: Rule,
    three_consecutive_ellipsis: Rule,
    other_three_period_ellipsis: Rule,
    exclamation_regex: Pattern,
    sub_left_paren: Rule,
    sub_right_paren: Rule,
    sub_left_bracket: Rule,
    sub_right_bracket: Rule,
    sub_dash: Rule,
    word_with_leading_apostrophe: Pattern,
    trailing_apostrophe: Pattern,
    between_single_quotes_regex: Pattern,
    between_single_quote_slanted_regex: Pattern,
    between_double_quotes_regex_2: Pattern,
    between_square_brackets_regex_2: Pattern,
    between_parens_regex_2: Pattern,
    between_quote_arrow_regex_2: Pattern,
    between_em_dashes_regex_2: Pattern,
    between_quote_slanted_regex_2: Pattern,
    double_punctuation: Pattern,
    question_mark_in_quotation: Rule,
    exclamation_in_quotation: Rule,
    exclamation_before_comma_mid_sentence: Rule,
    exclamation_mid_sentence: Rule,
    replace_parens: Rule,
    sentence_boundary_regex: Pattern,
    post_process_regex: Pattern,
    quotation_at_end_of_sentence_regex: Pattern,
}

/// Whether `rule` replaces what `regex` matches by `template`.
pub open spec fn is_rule(rule: Rule, regex: Seq<char>, template: Seq<char>) -> bool {
    rule.pattern() == (regex, false) && rule.template() == template
}

impl Segmenter {
    /// Every rule holds the pattern that it is named after.
    #[verifier::type_invariant]
    pub closed spec fn wf(self) -> bool {
        &&& is_rule(self.period_before_number, PERIOD_BEFORE_NUMBER@, MASKED_PERIOD@)
        &&& is_rule(
            self.number_after_period_before_letter,
            NUMBER_AFTER_PERIOD_BEFORE_LETTER@,
            MASKED_PERIOD@,
        )
        &&& is_rule(
            self.new_line_number_period_space_letter,
            NEW_LINE_NUMBER_PERIOD_SPACE_LETTER@,
            MASKED_PERIOD@,
        )
        &&& is_rule(self.start_line_number_period, START_LINE_NUMBER_PERIOD@, MASKED_PERIOD@)
        &&& is_rule(
            self.start_line_two_digit_number_period,
            START_LINE_TWO_DIGIT_NUMBER_PERIOD@,
            MASKED_PERIOD@,
        )
        &&& self.continuous_punctuation_regex.pattern() == (CONTINUOUS_PUNCTUATION@, false)
        &&& is_rule(self.numbered_reference, NUMBERED_REFERENCE@, NUMBERED_REFERENCE_TEMPLATE@)
        &&& is_rule(
            self.with_multiple_periods_and_email,
            WITH_MULTIPLE_PERIODS_AND_EMAIL@,
            WITH_MULTIPLE_PERIODS_AND_EMAIL_TEMPLATE@,
        )
        &&& is_rule(self.geo_location, GEO_LOCATION@, MASKED_PERIOD@)
        &&& is_rule(self.file_format, FILE_FORMAT@, MASKED_PERIOD@)
        &&& self.parens_between_double_quotes_regex.pattern() == (
            PARENS_BETWEEN_DOUBLE_QUOTES@,
            false,
        )
        &&& is_rule(self.parens_between_double_quotes_0, SPACE_BEFORE_PAREN@, LINE_BREAK@)
        &&& is_rule(self.parens_between_double_quotes_1, SPACE_AFTER_PAREN@, LINE_BREAK@)
        &&& is_rule(self.three_space_ellipsis, THREE_SPACE_ELLIPSIS@, MASKED_THREE_SPACED_PERIODS@)
        &&& is_rule(self.four_space_ellipsis, FOUR_SPACE_ELLIPSIS@, MASKED_FOUR_SPACED_PERIODS@)
        &&& is_rule(self.four_consecutive_ellipsis, FOUR_CONSECUTIVE_ELLIPSIS@, MASKED_THREE_PERIODS@)
        &&& is_rule(
            self.three_consecutive_ellipsis,
            THREE_CONSECUTIVE_ELLIPSIS@,
            MASKED_TWO_PERIODS_AND_PERIOD@,
        )
        &&& is_rule(
            self.other_three_period_ellipsis,
            OTHER_THREE_PERIOD_ELLIPSIS@,
            MASKED_THREE_PERIODS@,
        )
        &&& self.exclamation_regex.pattern() == (EXCLAMATION_WORDS@, false)
        &&& is_rule(self.sub_left_paren, ESCAPED_LEFT_PAREN@, LEFT_PAREN@)
        &&& is_rule(self.sub_right_paren, ESCAPED_RIGHT_PAREN@, RIGHT_PAREN@)
        &&& is_rule(self.sub_left_bracket, ESCAPED_LEFT_BRACKET@, LEFT_BRACKET@)
        &&& is_rule(self.sub_right_bracket, ESCAPED_RIGHT_BRACKET@, RIGHT_BRACKET@)
        &&& is_rule(self.sub_dash, ESCAPED_DASH@, DASH@)
        &&& self.word_with_leading_apostrophe.pattern() == (WORD_WITH_LEADING_APOSTROPHE@, false)
        &&& self.trailing_apostrophe.pattern() == (TRAILING_APOSTROPHE@, false)
        &&& self.between_single_quotes_regex.pattern() == (BETWEEN_SINGLE_QUOTES@, false)
        &&& self.between_single_quote_slanted_regex.pattern() == (
            BETWEEN_SINGLE_QUOTE_SLANTED@,
            false,
        )
        &&& self.between_double_quotes_regex_2.pattern() == (BETWEEN_DOUBLE_QUOTES@, false)
        &&& self.between_square_brackets_regex_2.pattern() == (BETWEEN_SQUARE_BRACKETS@, false)
        &&& self.between_parens_regex_2.pattern() == (BETWEEN_PARENS@, false)
        &&& self.between_quote_arrow_regex_2.pattern() == (BETWEEN_QUOTE_ARROW@, false)
        &&& self.between_em_dashes_regex_2.pattern() == (BETWEEN_EM_DASHES@, false)
        &&& self.between_quote_slanted_regex_2.pattern() == (BETWEEN_QUOTE_SLANTED@, false)
        &&& self.double_punctuation.pattern() == (DOUBLE_PUNCTUATION@, false)
        &&& is_rule(self.question_mark_in_quotation, QUESTION_MARK_IN_QUOTATION@, MASKED_QUESTION@)
        &&& is_rule(self.exclamation_in_quotation, EXCLAMATION_IN_QUOTATION@, MASKED_EXCLAMATION@)
        &&& is_rule(
            self.exclamation_before_comma_mid_sentence,
            EXCLAMATION_BEFORE_COMMA_MID_SENTENCE@,
            MASKED_EXCLAMATION@,
        )
        &&& is_rule(self.exclamation_mid_sentence, EXCLAMATION_MID_SENTENCE@, MASKED_EXCLAMATION@)
        &&& is_rule(
            self.replace_parens,
            ROMAN_NUMERALS_IN_PARENTHESES@,
            ROMAN_NUMERALS_IN_PARENTHESES_TEMPLATE@,
        )
        &&& self.sentence_boundary_regex.pattern() == (SENTENCE_BOUNDARY@, false)
        &&& self.post_process_regex.pattern() == (WHOLLY_LETTERS@, false)
        &&& self.quotation_at_end_of_sentence_regex.pattern() == (
            QUOTATION_AT_END_OF_SENTENCE@,
            false,
        )
    }

    /// Builds a segmenter. It fails exactly when the engine refuses one of
    /// the built-in patterns or the automaton that finds line endings
    /// cannot be built.
    pub fn new() -> (r: Result<Segmenter, SegmenterError>)
        ensures
            r is Ok == patterns_compile(),
            r is Err ==> (r->Err_0 is Regex || r->Err_0 is Automaton),
    {
        let list_item_replacer = ListItemReplacer::new()?;
        let abbreviation_replacer = AbbreviationReplacer::new()?;
        let period_before_number = rule(PERIOD_BEFORE_NUMBER, MASKED_PERIOD)?;
        let number_after_period_before_letter = rule(
            NUMBER_AFTER_PERIOD_BEFORE_LETTER,
            MASKED_PERIOD,
        )?;
        let new_line_number_period_space_letter = rule(
            NEW_LINE_NUMBER_PERIOD_SPACE_LETTER,
            MASKED_PERIOD,
        )?;
        let start_line_number_period = rule(START_LINE_NUMBER_PERIOD, MASKED_PERIOD)?;
        let start_line_two_digit_number_period = rule(
            START_LINE_TWO_DIGIT_NUMBER_PERIOD,
            MASKED_PERIOD,
        )?;
        let continuous_punctuation_regex = pattern(CONTINUOUS_PUNCTUATION)?;
        let numbered_reference = rule(NUMBERED_REFERENCE, NUMBERED_REFERENCE_TEMPLATE)?;
        let with_multiple_periods_and_email = rule(
            WITH_MULTIPLE_PERIODS_AND_EMAIL,
            WITH_MULTIPLE_PERIODS_AND_EMAIL_TEMPLATE,
        )?;
        let geo_location = rule(GEO_LOCATION, MASKED_PERIOD)?;
        let file_format = rule(FILE_FORMAT, MASKED_PERIOD)?;
        let parens_between_double_quotes_regex = pattern(PARENS_BETWEEN_DOUBLE_QUOTES)?;
        let parens_between_double_quotes_0 = rule(SPACE_BEFORE_PAREN, LINE_BREAK)?;
        let parens_between_double_quotes_1 = rule(SPACE_AFTER_PAREN, LINE_BREAK)?;
        let three_space_ellipsis = rule(THREE_SPACE_ELLIPSIS, MASKED_THREE_SPACED_PERIODS)?;
        let four_space_ellipsis = rule(FOUR_SPACE_ELLIPSIS, MASKED_FOUR_SPACED_PERIODS)?;
        let four_consecutive_ellipsis = rule(FOUR_CONSECUTIVE_ELLIPSIS, MASKED_THREE_PERIODS)?;
        let three_consecutive_ellipsis = rule(
            THREE_CONSECUTIVE_ELLIPSIS,
            MASKED_TWO_PERIODS_AND_PERIOD,
        )?;
        let other_three_period_ellipsis = rule(OTHER_THREE_PERIOD_ELLIPSIS, MASKED_THREE_PERIODS)?;
        let exclamation_regex = pattern(EXCLAMATION_WORDS)?;
        let sub_left_paren = rule(ESCAPED_LEFT_PAREN, LEFT_PAREN)?;
        let sub_right_paren = rule(ESCAPED_RIGHT_PAREN, RIGHT_PAREN)?;
        let sub_left_bracket = rule(ESCAPED_LEFT_BRACKET, LEFT_BRACKET)?;
        let sub_right_bracket = rule(ESCAPED_RIGHT_BRACKET, RIGHT_BRACKET)?;
        let sub_dash = rule(ESCAPED_DASH, DASH)?;
        let word_with_leading_apostrophe = pattern(WORD_WITH_LEADING_APOSTROPHE)?;
        let trailing_apostrophe = pattern(TRAILING_APOSTROPHE)?;
        let between_single_quotes_regex = pattern(BETWEEN_SINGLE_QUOTES)?;
        let between_single_quote_slanted_regex = pattern(BETWEEN_SINGLE_QUOTE_SLANTED)?;
        let between_double_quotes_regex_2 = pattern(BETWEEN_DOUBLE_QUOTES)?;
        let between_square_brackets_regex_2 = pattern(BETWEEN_SQUARE_BRACKETS)?;
        let between_parens_regex_2 = pattern(BETWEEN_PARENS)?;
        let between_quote_arrow_regex_2 = pattern(BETWEEN_QUOTE_ARROW)?;
        let between_em_dashes_regex_2 = pattern(BETWEEN_EM_DASHES)?;
        let between_quote_slanted_regex_2 = pattern(BETWEEN_QUOTE_SLANTED)?;
        let double_punctuation = pattern(DOUBLE_PUNCTUATION)?;
        let question_mark_in_quotation = rule(QUESTION_MARK_IN_QUOTATION, MASKED_QUESTION)?;
        let exclamation_in_quotation = rule(EXCLAMATION_IN_QUOTATION, MASKED_EXCLAMATION)?;
        let exclamation_before_comma_mid_sentence = rule(
            EXCLAMATION_BEFORE_COMMA_MID_SENTENCE,
            MASKED_EXCLAMATION,
        )?;
        let exclamation_mid_sentence = rule(EXCLAMATION_MID_SENTENCE, MASKED_EXCLAMATION)?;
        let replace_parens = rule(
            ROMAN_NUMERALS_IN_PARENTHESES,
            ROMAN_NUMERALS_IN_PARENTHESES_TEMPLATE,
        )?;
        let sentence_boundary_regex = pattern(SENTENCE_BOUNDARY)?;
        let post_process_regex = pattern(WHOLLY_LETTERS)?;
        let quotation_at_end_of_sentence_regex = pattern(QUOTATION_AT_END_OF_SENTENCE)?;
        Ok(
            Segmenter {
                list_item_replacer,
                abbreviation_replacer,
                period_before_number,
                number_after_period_before_letter,
                new_line_number_period_space_letter,
                start_line_number_period,
                start_line_two_digit_number_period,
                continuous_punctuation_regex,
                numbered_reference,
                with_multiple_periods_and_email,
                geo_location,
                file_format,
                parens_between_double_quotes_regex,
                parens_between_double_quotes_0,
                parens_between_double_quotes_1,
                three_space_ellipsis,
                four_space_ellipsis,
                four_consecutive_ellipsis,
                three_consecutive_ellipsis,
                other_three_period_ellipsis,
                exclamation_regex,
                sub_left_paren,
                sub_right_paren,
                sub_left_bracket,
                sub_right_bracket,
                sub_dash,
                word_with_leading_apostrophe,
                trailing_apostrophe,
                between_single_quotes_regex,
                between_single_quote_slanted_regex,
                between_double_quotes_regex_2,
                between_square_brackets_regex_2,
                between_parens_regex_2,
                between_quote_arrow_regex_2,
                between_em_dashes_regex_2,
                between_quote_slanted_regex_2,
                double_punctuation,
                question_mark_in_quotation,
                exclamation_in_quotation,
                exclamation_before_comma_mid_sentence,
                exclamation_mid_sentence,
                replace_parens,
                sentence_boundary_regex,
                post_process_regex,
                quotation_at_end_of_sentence_regex,
            },
        )
    }

    /// The sentences of `text`, in their order. What comes back depends on
    /// the text alone, an empty text has no sentence, and no sentence holds
    /// a line break or one of the masks that stand for one character each.
    pub fn segment(&self, text: &str) -> (r: Vec<String>)
        ensures
            views(r@) == segmented(text@),
            text@.len() == 0 ==> r@.len() == 0,
            all_free_of_masks(views(r@)),
            all_free_of(views(r@), line_break()),
    {
        proof {
            lemma_segmented_free_of_masks(text@);
            lemma_segmented_free_of_line_breaks(text@);
        }
        let mut out: Vec<String> = Vec::new();
        proof {
            assert(views(out@) =~= Seq::<Seq<char>>::empty());
        }
        if text.is_empty() {
            return out;
        }
        let prepared = self.prepare_document(text);
        let parts = split_nonempty(prepared.as_str(), '\r');
        let mut i: usize = 0;
        while i < parts.len()
            invariant
                i <= parts.len(),
                views(out@) == fragments_segmented(views(parts@), i as int),
            decreases parts.len() - i,
        {
            let sentences = self.segment_fragment(parts[i].as_str());
            proof {
                assert(views(parts@)[i as int] == parts@[i as int]@);
                assert(fragments_segmented(views(parts@), i + 1) == fragments_segmented(
                    views(parts@),
                    i as int,
                ) + fragment_segmented(views(parts@)[i as int]));
            }
            extend(&mut out, &sentences);
            i += 1;
        }
        out
    }

    /// The document as it is cut into fragments.
    pub fn prepare_document(&self, text: &str) -> (r: String)
        ensures
            r@ == document_prepared(text@),
    {
        reveal(document_prepared);
        proof {
            use_type_invariant(self);
        }
        let text = replace(text, LINE_FEED, LINE_BREAK);
        let text = match self.list_item_replacer.add_line_break(text.as_str()) {
            Ok(listed) => listed,
            Err(_) => text,
        };
        let text = self.abbreviation_replacer.replace(text.as_str());
        let text = self.replace_numbers(text.as_str());
        let text = self.replace_continuous_punctuation(text.as_str());
        let text = self.numbered_reference.replace_all(text.as_str());
        let text = self.with_multiple_periods_and_email.replace_all(text.as_str());
        let text = self.geo_location.replace_all(text.as_str());
        let text = self.file_format.replace_all(text.as_str());
        self.check_for_parens_between_quotes(text.as_str())
    }

    /// `text` with the periods masked that belong to a number.
    pub fn replace_numbers(&self, text: &str) -> (r: String)
        ensures
            r@ == numbers_protected(text@),
    {
        proof {
            use_type_invariant(self);
        }
        let text = self.period_before_number.replace_all(text);
        let text = self.number_after_period_before_letter.replace_all(text.as_str());
        let text = self.new_line_number_period_space_letter.replace_all(text.as_str());
        let text = self.start_line_number_period.replace_all(text.as_str());
        self.start_line_two_digit_number_period.replace_all(text.as_str())
    }

    /// `text` with every run of three or more exclamation and question marks
    /// masked.
    pub fn replace_continuous_punctuation(&self, text: &str) -> (r: String)
        ensures
            r@ == continuous_punctuation_masked(text@),
    {
        proof {
            use_type_invariant(self);
        }
        let how = MaskMarks {  };
        let out = self.continuous_punctuation_regex.replace_all_with(text, &how);
        proof {
            lemma_each_rewritten_same(
                (CONTINUOUS_PUNCTUATION@, false),
                text@,
                |m: Seq<char>| how.rewritten(m),
                |m: Seq<char>| marks_masked(m),
            );
        }
        out
    }

    /// `text` with a line break on either side of round brackets that stand
    /// between two quotations.
    pub fn check_for_parens_between_quotes(&self, text: &str) -> (r: String)
        ensures
            r@ == parens_between_quotes_broken(text@),
    {
        proof {
            use_type_invariant(self);
        }
        let how = BreakQuotedParens { rules: self };
        let out = self.parens_between_double_quotes_regex.replace_all_with(text, &how);
        proof {
            lemma_each_rewritten_same(
                (PARENS_BETWEEN_DOUBLE_QUOTES@, false),
                text@,
                |m: Seq<char>| how.rewritten(m),
                |m: Seq<char>| quoted_parens_broken(m),
            );
        }
        out
    }

    /// `text` with the punctuation masked in every stretch that `pattern`
    /// finds; the stretch stands between single quotes with
    /// `is_match_type_single`.
    pub fn replace_punctuation(&self, pattern: &Pattern, text: &str, is_match_type_single: bool) -> (r:
        String)
        ensures
            r@ == stretches_masked(pattern.pattern(), text@, is_match_type_single),
    {
        let how = MaskPunctuation { rules: self, single: is_match_type_single };
        let out = pattern.replace_all_with(text, &how);
        proof {
            lemma_each_rewritten_same(
                pattern.pattern(),
                text@,
                |m: Seq<char>| how.rewritten(m),
                |m: Seq<char>| punctuation_masked(m, is_match_type_single),
            );
        }
        out
    }

    /// `text` with the punctuation masked between quotation marks, brackets
    /// and dashes.
    pub fn between_punctuation(&self, text: &str) -> (r: String)
        ensures
            r@ == between_punctuation_masked(text@),
    {
        proof {
            use_type_invariant(self);
        }
        let text = if self.word_with_leading_apostrophe.find(text).is_none()
            || self.trailing_apostrophe.find(text).is_some() {
            self.replace_punctuation(&self.between_single_quotes_regex, text, true)
        } else {
            text.to_owned()
        };
        let text = self.replace_punctuation(
            &self.between_single_quote_slanted_regex,
            text.as_str(),
            false,
        );
        let text = self.replace_punctuation(
            &self.between_double_quotes_regex_2,
            text.as_str(),
            false,
        );
        let text = self.replace_punctuation(
            &self.between_square_brackets_regex_2,
            text.as_str(),
            false,
        );
        let text = self.replace_punctuation(&self.between_parens_regex_2, text.as_str(), false);
        let text = self.replace_punctuation(&self.between_quote_arrow_regex_2, text.as_str(), false);
        let text = self.replace_punctuation(&self.between_em_dashes_regex_2, text.as_str(), false);
        self.replace_punctuation(&self.between_quote_slanted_regex_2, text.as_str(), false)
    }

    /// `text` with each pair of question and exclamation marks masked by one
    /// character, unless the text starts with such a pair.
    pub fn replace_double_punctuation(&self, text: &str) -> (r: String)
        ensures
            r@ == double_punctuation_masked(text@),
    {
        proof {
            use_type_invariant(self);
        }
        if self.double_punctuation.find(text).is_none() {
            let text = replace(text, QUESTION_EXCLAMATION, MASKED_QUESTION_EXCLAMATION);
            let text = replace(text.as_str(), EXCLAMATION_QUESTION, MASKED_EXCLAMATION_QUESTION);
            let text = replace(text.as_str(), DOUBLE_QUESTION, MASKED_DOUBLE_QUESTION);
            replace(text.as_str(), DOUBLE_EXCLAMATION, MASKED_DOUBLE_EXCLAMATION)
        } else {
            text.to_owned()
        }
    }

    /// A fragment that holds a terminator, ready to be cut.
    pub fn process_text(&self, fragment: &str) -> (r: String)
        ensures
            r@ == fragment_masked(fragment@),
    {
        proof {
            use_type_invariant(self);
        }
        let mut text = fragment.to_owned();
        if !terminators(fragment).1 {
            text.append(END_GUARD);
        }
        let text = self.replace_punctuation(&self.exclamation_regex, text.as_str(), false);
        let text = self.between_punctuation(text.as_str());
        let text = self.replace_double_punctuation(text.as_str());
        let text = self.question_mark_in_quotation.replace_all(text.as_str());
        let text = self.exclamation_in_quotation.replace_all(text.as_str());
        let text = self.exclamation_before_comma_mid_sentence.replace_all(text.as_str());
        let text = self.exclamation_mid_sentence.replace_all(text.as_str());
        let text = self.replace_parens.replace_all(text.as_str());
        replace(text.as_str(), MASKED_EXCLAMATION_AND_DOLLAR, EXCLAMATION)
    }

    /// The sentences of one fragment, still masked.
    pub fn sentence_boundary_punctuation(&self, fragment: &str) -> (r: Vec<String>)
        ensures
            views(r@) == fragment_sentences(fragment@),
    {
        reveal(fragment_sentences);
        proof {
            use_type_invariant(self);
        }
        let text = replace(fragment, ESCAPED_LINE_FEED, MASKED_LINE_FEED);
        let text = self.three_space_ellipsis.replace_all(text.as_str());
        let text = self.four_space_ellipsis.replace_all(text.as_str());
        let text = self.four_consecutive_ellipsis.replace_all(text.as_str());
        let text = self.three_consecutive_ellipsis.replace_all(text.as_str());
        let text = self.other_three_period_ellipsis.replace_all(text.as_str());
        if terminators(text.as_str()).0 {
            let masked = self.process_text(text.as_str());
            let spans = self.sentence_boundary_regex.find_iter(masked.as_str());
            matched_texts(masked.as_str(), &spans)
        } else {
            let mut out: Vec<String> = Vec::new();
            proof {
                assert(views(out@) =~= Seq::<Seq<char>>::empty());
            }
            put(&mut out, text.as_str());
            proof {
                assert(views(out@) =~= seq![text@]);
            }
            out
        }
    }

    /// A sentence with the masks of its punctuation taken off.
    pub fn restore_symbols(&self, sentence: &str) -> (r: String)
        ensures
            r@ == symbols_restored(sentence@),
    {
        let text = replace(sentence, MASKED_PERIOD, PERIOD);
        let text = replace(text.as_str(), MASKED_ARABIC_COMMA, ARABIC_COMMA);
        let text = replace(text.as_str(), MASKED_COLON, COLON);
        let text = replace(text.as_str(), MASKED_IDEOGRAPHIC_PERIOD, IDEOGRAPHIC_PERIOD);
        let text = replace(text.as_str(), MASKED_FULL_WIDTH_PERIOD, FULL_WIDTH_PERIOD);
        let text = replace(text.as_str(), MASKED_FULL_WIDTH_EXCLAMATION, FULL_WIDTH_EXCLAMATION);
        let text = replace(text.as_str(), MASKED_EXCLAMATION, EXCLAMATION);
        let text = replace(text.as_str(), MASKED_QUESTION, QUESTION);
        let text = replace(text.as_str(), MASKED_FULL_WIDTH_QUESTION, FULL_WIDTH_QUESTION);
        let text = replace(text.as_str(), MASKED_QUESTION_EXCLAMATION, QUESTION_EXCLAMATION);
        let text = replace(text.as_str(), MASKED_DOUBLE_QUESTION, DOUBLE_QUESTION);
        let text = replace(text.as_str(), MASKED_EXCLAMATION_QUESTION, EXCLAMATION_QUESTION);
        let text = replace(text.as_str(), MASKED_DOUBLE_EXCLAMATION, DOUBLE_EXCLAMATION);
        let text = replace(text.as_str(), MASKED_LEFT_PAREN, LEFT_PAREN);
        let text = replace(text.as_str(), MASKED_RIGHT_PAREN, RIGHT_PAREN);
        let text = replace(text.as_str(), END_GUARD, NOTHING);
        replace(text.as_str(), MASKED_LINE_FEED, LINE_FEED)
    }

    /// A sentence with the masks of its ellipses and inner periods taken
    /// off.
    pub fn restore_ellipses(&self, sentence: &str) -> (r: String)
        ensures
            r@ == ellipses_restored(sentence@),
    {
        let text = replace(sentence, MASKED_THREE_PERIODS, THREE_PERIODS);
        let text = replace(text.as_str(), MASKED_THREE_SPACED_PERIODS, THREE_SPACED_PERIODS);
        let text = replace(text.as_str(), MASKED_FOUR_SPACED_PERIODS, FOUR_SPACED_PERIODS);
        let text = replace(text.as_str(), MASKED_TWO_PERIODS, TWO_PERIODS);
        replace(text.as_str(), MASKED_INNER_PERIOD, PERIOD)
    }

    /// What one masked sentence becomes, before its apostrophes are
    /// restored.
    pub fn post_process_segments(&self, sentence: &str) -> (r: Vec<String>)
        ensures
            views(r@) == sentence_split(sentence@),
    {
        reveal(sentence_split);
        proof {
            use_type_invariant(self);
        }
        let text = self.restore_symbols(sentence);
        let mut out: Vec<String> = Vec::new();
        proof {
            assert(views(out@) =~= Seq::<Seq<char>>::empty());
        }
        if byte_len(text.as_str()) > 2 && self.post_process_regex.find(text.as_str()).is_some() {
            put(&mut out, text.as_str());
            proof {
                assert(views(out@) =~= seq![text@]);
            }
            return out;
        }
        let text = self.restore_ellipses(text.as_str());
        if self.quotation_at_end_of_sentence_regex.find(text.as_str()).is_some() {
            let spans = self.quotation_at_end_of_sentence_regex.find_iter(text.as_str());
            cut_at(text.as_str(), &spans)
        } else {
            let bare = replace(text.as_str(), LINE_FEED, NOTHING);
            let bare = trim(bare.as_str());
            put(&mut out, bare.as_str());
            proof {
                assert(views(out@) =~= seq![bare@]);
            }
            out
        }
    }

    /// The sentences that one masked sentence gives.
    pub fn restore_sentence(&self, sentence: &str) -> (r: Vec<String>)
        ensures
            views(r@) == sentence_restored(sentence@),
    {
        reveal(sentence_restored);
        let parts = self.post_process_segments(sentence);
        let mut out: Vec<String> = Vec::new();
        let mut i: usize = 0;
        while i < parts.len()
            invariant
                i <= parts.len(),
                out@.len() == i,
                forall|k: int|
                    0 <= k < i ==> (#[trigger] out@[k])@ == replaced(
                        parts@[k]@,
                        MASKED_APOSTROPHE@,
                        APOSTROPHE@,
                    ),
            decreases parts.len() - i,
        {
            out.push(replace(parts[i].as_str(), MASKED_APOSTROPHE, APOSTROPHE));
            i += 1;
        }
        proof {
            assert(views(out@) =~= apostrophes_restored(views(parts@)));
        }
        out
    }

    /// The sentences of one fragment.
    pub fn segment_fragment(&self, fragment: &str) -> (r: Vec<String>)
        ensures
            views(r@) == fragment_segmented(fragment@),
    {
        reveal(fragment_segmented);
        let masked = self.sentence_boundary_punctuation(fragment);
        let mut out: Vec<String> = Vec::new();
        let mut i: usize = 0;
        proof {
            assert(views(out@) =~= Seq::<Seq<char>>::empty());
        }
        while i < masked.len()
            invariant
                i <= masked.len(),
                views(out@) == sentences_restored(views(masked@), i as int),
            decreases masked.len() - i,
        {
            let sentences = self.restore_sentence(masked[i].as_str());
            proof {
                assert(views(masked@)[i as int] == masked@[i as int]@);
                assert(sentences_restored(views(masked@), i + 1) == sentences_restored(
                    views(masked@),
                    i as int,
                ) + sentence_restored(views(masked@)[i as int]));
            }
            extend(&mut out, &sentences);
            i += 1;
        }
        out
    }
}

/// `text` cut before the last character of each of `spans`.
pub fn cut_at(text: &str, spans: &Vec<(usize, usize)>) -> (r: Vec<String>)
    ensures
        views(r@) == cut_before_capitals(text@, 0, spans@, 0),
{
    let len = byte_len(text);
    let mut out: Vec<String> = Vec::new();
    let mut from: usize = 0;
    let mut k: usize = 0;
    proof {
        lemma_piece_whole(text@);
        assert(views(out@) =~= Seq::<Seq<char>>::empty());
        assert(views(out@) + cut_before_capitals(text@, 0, spans@, 0) =~= cut_before_capitals(
            text@,
            0,
            spans@,
            0,
        ));
    }
    while k < spans.len()
        invariant
            k <= spans.len(),
            len == utf8(text@).len(),
            boundary(text@, from as int),
            boundary(text@, len as int),
            views(out@) + cut_before_capitals(text@, from as int, spans@, k as int)
                == cut_before_capitals(text@, 0, spans@, 0),
        decreases spans.len() - k,
    {
        let (_, e) = spans[k];
        if e >= 1 && from <= e - 1 && at_boundary(text, e - 1) {
            let cut = e - 1;
            let ghost before = out@;
            out.push(slice(text, from, cut).to_owned());
            proof {
                lemma_views_push(before, out@[out@.len() - 1]);
                assert(out@ == before.push(out@[out@.len() - 1]));
                assert(views(out@) + cut_before_capitals(text@, cut as int, spans@, k + 1)
                    =~= views(before) + cut_before_capitals(text@, from as int, spans@, k as int));
            }
            from = cut;
        }
        k += 1;
    }
    if from < len {
        let ghost before = out@;
        out.push(slice(text, from, len).to_owned());
        proof {
            lemma_views_push(before, out@[out@.len() - 1]);
            assert(out@ == before.push(out@[out@.len() - 1]));
            assert(views(out@) =~= views(before) + seq![tail(text@, from as int)]);
        }
    } else {
        proof {
            assert(views(out@) + Seq::<Seq<char>>::empty() =~= views(out@));
        }
    }
    out
}

} // verus!
