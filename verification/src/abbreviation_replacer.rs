//! Abbreviations. The period behind an abbreviation is masked, so that the
//! text is not cut there, unless what follows shows that a sentence ends.
use vstd::prelude::*;
use vstd::string::*;
use crate::error::SegmenterError;
use crate::regex::{
    all_spans, boundary_from, each_rewritten, lemma_boundary_from, lemma_each_rewritten_same,
    regex_compiles, step, step_over, Pattern, Rewriter,
};
use crate::rule::{rule_applied, Rule};
use crate::text::{
    at_boundary, boundary, byte_len, contains, lemma_piece_whole, lemma_views_push, lowercase,
    occurs_in, piece, put, rank, rank_in, replace, replaced, slice, tail, to_chars, to_lowercase,
    trim, trimmed, utf8, views,
};
use crate::util::{re, re_i};

verus! {

// The patterns of the rules that go over the whole text.

pub const POSSESSIVE_ABBREVIATION: &'static str = r"\.(?='s\s)|\.(?='s$)|\.(?='s\Z)";

pub const KOMMANDITGESELLSCHAFT: &'static str = r"(?<=Co)\.(?=\sKG)";

pub const SINGLE_UPPER_CASE_LETTER_AT_START_OF_LINE: &'static str = r"(?<=^[A-Z])\.(?=\s)";

pub const SINGLE_UPPER_CASE_LETTER: &'static str = r"(?<=\s[A-Z])\.(?=,?\s)";

pub const UPPER_CASE_PM: &'static str = r"(?<= P∯M)∯(?=\s[A-Z])";

pub const UPPER_CASE_AM: &'static str = r"(?<=A∯M)∯(?=\s[A-Z])";

pub const LOWER_CASE_PM: &'static str = r"(?<=p∯m)∯(?=\s[A-Z])";

pub const LOWER_CASE_AM: &'static str = r"(?<=a∯m)∯(?=\s[A-Z])";

pub const MULTI_PERIOD_ABBREVIATION: &'static str = r"\b[a-z](?:\.[a-z])+[.]";

pub const ABBREVIATION_AS_SENTENCE_BOUNDARY: &'static str =
    r"(U∯S|U\.S|U∯K|E∯U|E\.U|U∯S∯A|U\.S\.A|I|i.v|I.V)∯((?=\sA\s)|(?=\sBeing\s)|(?=\sDid\s)|(?=\sFor\s)|(?=\sHe\s)|(?=\sHow\s)|(?=\sHowever\s)|(?=\sI\s)|(?=\sIn\s)|(?=\sIt\s)|(?=\sMillions\s)|(?=\sMore\s)|(?=\sShe\s)|(?=\sThat\s)|(?=\sThe\s)|(?=\sThere\s)|(?=\sThey\s)|(?=\sWe\s)|(?=\sWhat\s)|(?=\sWhen\s)|(?=\sWhere\s)|(?=\sWho\s)|(?=\sWhy\s))";

// The texts that the rules put in, and the parts of which the patterns for
// one abbreviation are made.

pub const FIRST_GROUP_AND_PERIOD: &'static str = r"\1.";

pub const PERIOD: &'static str = ".";

pub const ESCAPED_PERIOD: &'static str = r"\.";

pub const MASKED_PERIOD: &'static str = "∯";

pub const SPACE: &'static str = " ";

pub const APPEARANCE_START: &'static str = r"(?:^|\s|\r|\n)";

pub const NEXT_WORD_START: &'static str = "(?<={";

pub const NEXT_WORD_END: &'static str = "} ).{1}";

pub const AFTER_SPACE_AND: &'static str = r"(?<=\s";

pub const PERIOD_BEFORE_NAME: &'static str = r")\.(?=(\s|:\d+))";

pub const PERIOD_BEFORE_NUMBER: &'static str = r")\.(?=(\s\d|\s+\())";

pub const PERIOD_INSIDE_SENTENCE: &'static str =
    r")\.(?=((\.|\:|-|\?|,)|(\s([a-z]|I\s|I'm|I'll|\d|\())))";

// What ends a line.

pub const CR_LF: &'static str = "\r\n";

pub const LINE_FEED: &'static str = "\n";

pub const CARRIAGE_RETURN: &'static str = "\r";

pub const LINE_TABULATION: &'static str = "\x0b";

pub const FORM_FEED: &'static str = "\x0c";

pub const FILE_SEPARATOR: &'static str = "\x1c";

pub const GROUP_SEPARATOR: &'static str = "\x1d";

pub const RECORD_SEPARATOR: &'static str = "\x1e";

pub const NEXT_LINE: &'static str = "\u{85}";

pub const LINE_SEPARATOR: &'static str = "\u{2028}";

pub const PARAGRAPH_SEPARATOR: &'static str = "\u{2029}";

/// `aho_corasick::AhoCorasick`, an automaton that finds any of a list of
/// patterns; nothing inside it is looked at here.
#[verifier::external_type_specification]
#[verifier::external_body]
pub struct ExAhoCorasick(aho_corasick::AhoCorasick);

/// The patterns that `aho_corasick::AhoCorasickBuilder::build` built the
/// automaton from, in their order, each as its bytes.
pub uninterp spec fn automaton_patterns(automaton: aho_corasick::AhoCorasick) -> Seq<Seq<u8>>;

/// Whether the automaton was built to report the leftmost match and, among
/// the matches that start there, that of the first pattern.
pub uninterp spec fn automaton_leftmost_first(automaton: aho_corasick::AhoCorasick) -> bool;

/// Whether `aho_corasick::AhoCorasickBuilder::build` can build an automaton
/// from `patterns`.
pub uninterp spec fn automaton_builds(patterns: Seq<Seq<u8>>) -> bool;

/// Whether the character has the Unicode property `Cased`, as
/// `unic_ucd_case::is_cased` tells.
pub uninterp spec fn unicode_cased(c: char) -> bool;

/// Whether the character has the Unicode property `Uppercase`, as
/// `char::is_uppercase` tells.
pub uninterp spec fn unicode_uppercase(c: char) -> bool;

/// `aho_corasick::AhoCorasickBuilder::build`, on a builder set to
/// leftmost-first matching and to a deterministic automaton. Whether the
/// build succeeds is taken to depend on the patterns alone; an automaton that
/// is built remembers its patterns and its way of matching.
#[verifier::external_body]
fn build_automaton(patterns: &Vec<String>) -> (r: Option<aho_corasick::AhoCorasick>)
    ensures
        r is Some == automaton_builds(encoded(views(patterns@))),
        r is Some ==> automaton_patterns(r->0) == encoded(views(patterns@))
            && automaton_leftmost_first(r->0),
{
    aho_corasick::AhoCorasickBuilder::new()
        .match_kind(aho_corasick::MatchKind::LeftmostFirst)
        .kind(Some(aho_corasick::AhoCorasickKind::DFA))
        .build(patterns)
        .ok()
}

/// `aho_corasick::AhoCorasick::try_find`, on the bytes of `text` from offset
/// `from` to the end: the start and end of the leftmost match and, among the
/// matches that start there, of the pattern that comes first in the list.
/// The search is not anchored, so the call has no error to give.
#[verifier::external_body]
fn find_in_automaton(automaton: &aho_corasick::AhoCorasick, text: &str, from: usize) -> (r: Option<
    (usize, usize),
>)
    requires
        from <= utf8(text@).len(),
        automaton_leftmost_first(*automaton),
    ensures
        r == leftmost_first(automaton_patterns(*automaton), utf8(text@), from as int),
{
    let input = aho_corasick::Input::new(text).span(from..text.len());
    match automaton.try_find(input) {
        Ok(Some(found)) => Some((found.start(), found.end())),
        _ => None,
    }
}

/// `unic_ucd_case::is_cased`: a look-up in the table of the Unicode property
/// `Cased`.
#[verifier::external_body]
fn is_cased(c: char) -> (r: bool)
    ensures
        r == unicode_cased(c),
{
    unic_ucd_case::is_cased(c)
}

/// `char::is_uppercase`: a look-up in the table of the Unicode property
/// `Uppercase`.
pub assume_specification[ char::is_uppercase ](c: char) -> (r: bool)
    ensures
        r == unicode_uppercase(c),
;

/// The UTF-8 encoding of each of `texts`.
pub open spec fn encoded(texts: Seq<Seq<char>>) -> Seq<Seq<u8>> {
    Seq::new(texts.len(), |i: int| utf8(texts[i]))
}

/// Whether `pattern` stands in `hay` at byte offset `i`.
pub open spec fn stands_at(hay: Seq<u8>, i: int, pattern: Seq<u8>) -> bool {
    0 <= i && i + pattern.len() <= hay.len() && hay.subrange(i, i + pattern.len()) == pattern
}

/// The first of `patterns`, from index `k` on, that stands in `hay` at byte
/// offset `i`.
pub open spec fn first_standing_at(patterns: Seq<Seq<u8>>, hay: Seq<u8>, i: int, k: int) -> Option<
    int,
>
    decreases patterns.len() - k,
{
    if k < 0 || k >= patterns.len() {
        None
    } else if stands_at(hay, i, patterns[k]) {
        Some(k)
    } else {
        first_standing_at(patterns, hay, i, k + 1)
    }
}

/// The leftmost match of any of `patterns` in `hay` at or after byte offset
/// `from`; where several patterns match at that place, the match of the one
/// that comes first.
pub open spec fn leftmost_first(patterns: Seq<Seq<u8>>, hay: Seq<u8>, from: int) -> Option<
    (usize, usize),
>
    decreases hay.len() - from,
{
    if from < 0 || from > hay.len() {
        None
    } else {
        match first_standing_at(patterns, hay, from, 0) {
            Some(k) => Some((from as usize, (from + patterns[k].len()) as usize)),
            None => if from == hay.len() {
                None
            } else {
                leftmost_first(patterns, hay, from + 1)
            },
        }
    }
}

/// What ends a line, in the order in which the endings are tried.
pub open spec fn line_ends() -> Seq<Seq<char>> {
    seq![
        CR_LF@,
        LINE_FEED@,
        CARRIAGE_RETURN@,
        LINE_TABULATION@,
        FORM_FEED@,
        FILE_SEPARATOR@,
        GROUP_SEPARATOR@,
        RECORD_SEPARATOR@,
        NEXT_LINE@,
        LINE_SEPARATOR@,
        PARAGRAPH_SEPARATOR@,
    ]
}

/// The end of the line of `text` that starts at byte offset `last`: behind
/// the first line ending at or after `last`, or the end of the text where no
/// line ending follows.
pub open spec fn line_end(text: Seq<char>, last: int) -> int {
    match leftmost_first(encoded(line_ends()), utf8(text), last) {
        Some(found) => if last < found.1 <= utf8(text).len() && boundary(text, found.1 as int) {
            found.1 as int
        } else {
            utf8(text).len() as int
        },
        None => utf8(text).len() as int,
    }
}

/// The lines of `text` from byte offset `last` on, each with its ending.
pub open spec fn lines_from(text: Seq<char>, last: int) -> Seq<Seq<char>>
    decreases utf8(text).len() - last,
{
    if last < 0 || last >= utf8(text).len() {
        Seq::empty()
    } else {
        seq![piece(text, last, line_end(text, last))] + lines_from(text, line_end(text, last))
    }
}

/// The lines of `text`, each with its ending.
pub open spec fn lines(text: Seq<char>) -> Seq<Seq<char>> {
    lines_from(text, 0)
}

/// Whether `text` is in upper case: it holds a cased character, and every
/// cased character of it is an upper-case one.
pub open spec fn is_upper(text: Seq<char>) -> bool {
    &&& exists|i: int| 0 <= i < text.len() && unicode_cased(#[trigger] text[i])
    &&& forall|i: int|
        0 <= i < text.len() && unicode_cased(#[trigger] text[i]) ==> unicode_uppercase(text[i])
}

/// The vocabulary from "adj" to "cal".
pub open spec fn abbreviations_from_adj() -> Seq<Seq<char>> {
    seq![
        "adj"@,
        "adm"@,
        "adv"@,
        "al"@,
        "ala"@,
        "alta"@,
        "apr"@,
        "arc"@,
        "ariz"@,
        "ark"@,
        "art"@,
        "assn"@,
        "asst"@,
        "attys"@,
        "aug"@,
        "ave"@,
        "bart"@,
        "bld"@,
        "bldg"@,
        "blvd"@,
        "brig"@,
        "bros"@,
        "btw"@,
        "cal"@,
    ]
}

/// The vocabulary from "calif" to "dr.philos".
pub open spec fn abbreviations_from_calif() -> Seq<Seq<char>> {
    seq![
        "calif"@,
        "capt"@,
        "cl"@,
        "cmdr"@,
        "co"@,
        "col"@,
        "colo"@,
        "comdr"@,
        "con"@,
        "conn"@,
        "corp"@,
        "cpl"@,
        "cres"@,
        "ct"@,
        "d.phil"@,
        "dak"@,
        "dec"@,
        "del"@,
        "dept"@,
        "det"@,
        "dist"@,
        "dr"@,
        "dr.phil"@,
        "dr.philos"@,
    ]
}

/// The vocabulary from "drs" to "i.e".
pub open spec fn abbreviations_from_drs() -> Seq<Seq<char>> {
    seq![
        "drs"@,
        "e.g"@,
        "ens"@,
        "esp"@,
        "esq"@,
        "etc"@,
        "exp"@,
        "expy"@,
        "ext"@,
        "feb"@,
        "fed"@,
        "fla"@,
        "ft"@,
        "fwy"@,
        "fy"@,
        "ga"@,
        "gen"@,
        "gov"@,
        "hon"@,
        "hosp"@,
        "hr"@,
        "hway"@,
        "hwy"@,
        "i.e"@,
    ]
}

/// The vocabulary from "ia" to "mass".
pub open spec fn abbreviations_from_ia() -> Seq<Seq<char>> {
    seq![
        "ia"@,
        "id"@,
        "ida"@,
        "ill"@,
        "inc"@,
        "ind"@,
        "ing"@,
        "insp"@,
        "is"@,
        "jan"@,
        "jr"@,
        "jul"@,
        "jun"@,
        "kan"@,
        "kans"@,
        "ken"@,
        "ky"@,
        "la"@,
        "lt"@,
        "ltd"@,
        "maj"@,
        "man"@,
        "mar"@,
        "mass"@,
    ]
}

/// The vocabulary from "may" to "neb".
pub open spec fn abbreviations_from_may() -> Seq<Seq<char>> {
    seq![
        "may"@,
        "md"@,
        "me"@,
        "med"@,
        "messrs"@,
        "mex"@,
        "mfg"@,
        "mich"@,
        "min"@,
        "minn"@,
        "miss"@,
        "mlle"@,
        "mm"@,
        "mme"@,
        "mo"@,
        "mont"@,
        "mr"@,
        "mrs"@,
        "ms"@,
        "msgr"@,
        "mssrs"@,
        "mt"@,
        "mtn"@,
        "neb"@,
    ]
}

/// The vocabulary from "nebr" to "plz".
pub open spec fn abbreviations_from_nebr() -> Seq<Seq<char>> {
    seq![
        "nebr"@,
        "nev"@,
        "no"@,
        "nos"@,
        "nov"@,
        "nr"@,
        "oct"@,
        "ok"@,
        "okla"@,
        "ont"@,
        "op"@,
        "ord"@,
        "ore"@,
        "p"@,
        "pa"@,
        "pd"@,
        "pde"@,
        "penn"@,
        "penna"@,
        "pfc"@,
        "ph"@,
        "ph.d"@,
        "pl"@,
        "plz"@,
    ]
}

/// The vocabulary from "pp" to "surg".
pub open spec fn abbreviations_from_pp() -> Seq<Seq<char>> {
    seq![
        "pp"@,
        "prof"@,
        "pvt"@,
        "que"@,
        "rd"@,
        "rs"@,
        "ref"@,
        "rep"@,
        "reps"@,
        "res"@,
        "rev"@,
        "rt"@,
        "sask"@,
        "sec"@,
        "sen"@,
        "sens"@,
        "sep"@,
        "sept"@,
        "sfc"@,
        "sgt"@,
        "sr"@,
        "st"@,
        "supt"@,
        "surg"@,
    ]
}

/// The vocabulary from "tce" to "fig".
pub open spec fn abbreviations_from_tce() -> Seq<Seq<char>> {
    seq![
        "tce"@,
        "tenn"@,
        "tex"@,
        "univ"@,
        "usafa"@,
        "u.s"@,
        "ut"@,
        "va"@,
        "v"@,
        "ver"@,
        "viz"@,
        "vs"@,
        "vt"@,
        "wash"@,
        "wis"@,
        "wisc"@,
        "wy"@,
        "wyo"@,
        "yuk"@,
        "fig"@,
    ]
}

/// The abbreviations that are looked for, in the order in which they are
/// gone through.
pub open spec fn abbreviations() -> Seq<Seq<char>> {
    abbreviations_from_adj()
        + abbreviations_from_calif()
        + abbreviations_from_drs()
        + abbreviations_from_ia()
        + abbreviations_from_may()
        + abbreviations_from_nebr()
        + abbreviations_from_pp()
        + abbreviations_from_tce()
}

/// The abbreviations that stand before a name.
pub open spec fn prepositive_abbreviations() -> Seq<Seq<char>> {
    seq![
        "adm"@,
        "attys"@,
        "brig"@,
        "capt"@,
        "cmdr"@,
        "col"@,
        "cpl"@,
        "det"@,
        "dr"@,
        "gen"@,
        "gov"@,
        "ing"@,
        "lt"@,
        "maj"@,
        "mr"@,
        "mrs"@,
        "ms"@,
        "mt"@,
        "messrs"@,
        "mssrs"@,
        "prof"@,
        "ph"@,
        "rep"@,
        "reps"@,
        "rev"@,
        "sen"@,
        "sens"@,
        "sgt"@,
        "st"@,
        "supt"@,
        "v"@,
        "vs"@,
        "fig"@,
    ]
}

/// The abbreviations that stand before a number.
pub open spec fn number_abbreviations() -> Seq<Seq<char>> {
    seq![
        "art"@,
        "ext"@,
        "no"@,
        "nos"@,
        "p"@,
        "pp"@,
    ]
}

/// Whether `word`, in lower case, stands before a name.
pub open spec fn is_prepositive(word: Seq<char>) -> bool {
    rank_in(prepositive_abbreviations(), word) is Some
}

/// Whether `word`, in lower case, stands before a number.
pub open spec fn is_number_abbreviation(word: Seq<char>) -> bool {
    rank_in(number_abbreviations(), word) is Some
}

/// The pattern that finds the abbreviation `word` where a word can start.
pub open spec fn appearance_pattern(word: Seq<char>) -> Seq<char> {
    APPEARANCE_START@ + word
}

/// The pattern that finds the character with which the word behind the
/// abbreviation `word` starts.
pub open spec fn next_word_pattern(word: Seq<char>) -> Seq<char> {
    NEXT_WORD_START@ + replaced(word, PERIOD@, ESCAPED_PERIOD@) + NEXT_WORD_END@
}

/// The pattern that finds the periods to mask behind `found`, an
/// abbreviation as it stands in the text. `found` goes into the pattern as
/// it is, so a period in it stands for any character.
pub open spec fn period_pattern(found: Seq<char>) -> Seq<char> {
    AFTER_SPACE_AND@ + found + (if is_prepositive(lowercase(found)) {
        PERIOD_BEFORE_NAME@
    } else if is_number_abbreviation(lowercase(found)) {
        PERIOD_BEFORE_NUMBER@
    } else {
        PERIOD_INSIDE_SENTENCE@
    })
}

/// Whether periods behind `found` are looked for at all: not where the next
/// word starts in upper case, unless the abbreviation stands before a name.
pub open spec fn masks_periods(found: Seq<char>, next: Seq<char>) -> bool {
    !is_upper(next) || is_prepositive(lowercase(found))
}

/// `marks` with the byte before the start of each of the first `n` of
/// `spans` marked; the spans lie in the text with one space put before it.
pub open spec fn marked_all(marks: Seq<bool>, spans: Seq<(usize, usize)>, n: int) -> Seq<bool>
    decreases n,
{
    if n <= 0 {
        marks
    } else {
        let so_far = marked_all(marks, spans, n - 1);
        let start = spans[n - 1].0 as int;
        if 1 <= start <= so_far.len() {
            so_far.update(start - 1, true)
        } else {
            so_far
        }
    }
}

/// `marks` with the periods marked that are to be masked on account of one
/// appearance of an abbreviation. A pattern that the engine refuses marks
/// nothing.
pub open spec fn marked_for(text: Seq<char>, marks: Seq<bool>, found: Seq<char>, next: Seq<char>) -> Seq<
    bool,
> {
    if masks_periods(found, next) && regex_compiles(period_pattern(found), false) {
        let spans = all_spans((period_pattern(found), false), SPACE@ + text);
        marked_all(marks, spans, spans.len() as int)
    } else {
        marks
    }
}

/// No byte marked.
pub open spec fn unmarked(text: Seq<char>) -> Seq<bool> {
    Seq::new(utf8(text).len(), |i: int| false)
}

/// The bytes of `text` that are marked on account of the first `n`
/// appearances of an abbreviation. The appearance at index `i` is taken
/// together with the next-word character at index `i`, if there is one.
pub open spec fn marked_upto(
    text: Seq<char>,
    appearances: Seq<(usize, usize)>,
    nexts: Seq<(usize, usize)>,
    n: int,
) -> Seq<bool>
    decreases n,
{
    if n <= 0 {
        unmarked(text)
    } else {
        let so_far = marked_upto(text, appearances, nexts, n - 1);
        let found = trimmed(piece(text, appearances[n - 1].0 as int, appearances[n - 1].1 as int));
        let next = if n - 1 < nexts.len() {
            piece(text, nexts[n - 1].0 as int, nexts[n - 1].1 as int)
        } else {
            Seq::empty()
        };
        marked_for(text, so_far, found, next)
    }
}

/// `text` from byte offset `i` on, with each marked character of one byte
/// replaced by the masked period.
pub open spec fn masked_from(text: Seq<char>, marks: Seq<bool>, i: int) -> Seq<char>
    decreases utf8(text).len() - i,
{
    if i < 0 || i >= utf8(text).len() {
        Seq::empty()
    } else {
        let j = step_over(text, i);
        (if i < marks.len() && marks[i] && j == i + 1 {
            MASKED_PERIOD@
        } else {
            piece(text, i, j)
        }) + masked_from(text, marks, j)
    }
}

/// `text` with the periods masked that follow the abbreviation `word`.
/// Nothing is done unless `word` occurs in `lowered`.
pub open spec fn abbreviation_handled(text: Seq<char>, lowered: Seq<char>, word: Seq<char>) -> Seq<
    char,
> {
    if !occurs_in(lowered, word) {
        text
    } else {
        let appearances = all_spans((appearance_pattern(word), true), text);
        if appearances.len() == 0 {
            text
        } else {
            let nexts = all_spans((next_word_pattern(word), false), text);
            masked_from(text, marked_upto(text, appearances, nexts, appearances.len() as int), 0)
        }
    }
}

/// `text` after the first `n` abbreviations of the vocabulary have been gone
/// through, each on the text as the one before left it. `lowered` is the text
/// in lower case as it was at the start.
pub open spec fn abbreviations_scanned(text: Seq<char>, lowered: Seq<char>, n: int) -> Seq<char>
    decreases n,
{
    if n <= 0 {
        text
    } else {
        abbreviation_handled(
            abbreviations_scanned(text, lowered, n - 1),
            lowered,
            abbreviations()[n - 1],
        )
    }
}

/// One line with the periods behind its abbreviations masked.
pub open spec fn line_scanned(line: Seq<char>) -> Seq<char> {
    abbreviations_scanned(line, lowercase(line), abbreviations().len() as int)
}

/// The first `n` of `lines`, each scanned, put together again.
pub open spec fn lines_scanned(lines: Seq<Seq<char>>, n: int) -> Seq<char>
    decreases n,
{
    if n <= 0 {
        Seq::empty()
    } else {
        lines_scanned(lines, n - 1) + line_scanned(lines[n - 1])
    }
}

/// `text` with every period masked.
pub open spec fn periods_masked(text: Seq<char>) -> Seq<char> {
    replaced(text, PERIOD@, MASKED_PERIOD@)
}

/// `text` by the rules that come before the scan line by line.
pub open spec fn before_scan(text: Seq<char>) -> Seq<char> {
    let a = rule_applied((POSSESSIVE_ABBREVIATION@, false), MASKED_PERIOD@, text);
    let b = rule_applied((KOMMANDITGESELLSCHAFT@, false), MASKED_PERIOD@, a);
    let c = rule_applied((SINGLE_UPPER_CASE_LETTER_AT_START_OF_LINE@, false), MASKED_PERIOD@, b);
    rule_applied((SINGLE_UPPER_CASE_LETTER@, false), MASKED_PERIOD@, c)
}

/// `text` by the rules that come behind the scan line by line.
pub open spec fn after_scan(text: Seq<char>) -> Seq<char> {
    let a = each_rewritten(
        (MULTI_PERIOD_ABBREVIATION@, true),
        text,
        |m: Seq<char>| periods_masked(m),
    );
    let b = rule_applied((UPPER_CASE_PM@, false), PERIOD@, a);
    let c = rule_applied((UPPER_CASE_AM@, false), PERIOD@, b);
    let d = rule_applied((LOWER_CASE_PM@, false), PERIOD@, c);
    let e = rule_applied((LOWER_CASE_AM@, false), PERIOD@, d);
    rule_applied((ABBREVIATION_AS_SENTENCE_BOUNDARY@, false), FIRST_GROUP_AND_PERIOD@, e)
}

/// `text` with the periods of its abbreviations masked.
pub open spec fn abbreviations_replaced(text: Seq<char>) -> Seq<char> {
    let all = lines(before_scan(text));
    after_scan(lines_scanned(all, all.len() as int))
}

/// Whether the engine accepts the patterns of the abbreviation at index `i`.
pub open spec fn abbreviation_compiles(i: int) -> bool {
    &&& regex_compiles(appearance_pattern(abbreviations()[i]), true)
    &&& regex_compiles(next_word_pattern(abbreviations()[i]), false)
}

/// Whether the engine accepts every pattern that the abbreviation rules are
/// made of, and the automaton that finds line endings can be built.
pub open spec fn abbreviation_patterns_compile() -> bool {
    &&& regex_compiles(POSSESSIVE_ABBREVIATION@, false)
    &&& regex_compiles(KOMMANDITGESELLSCHAFT@, false)
    &&& regex_compiles(SINGLE_UPPER_CASE_LETTER_AT_START_OF_LINE@, false)
    &&& regex_compiles(SINGLE_UPPER_CASE_LETTER@, false)
    &&& regex_compiles(UPPER_CASE_PM@, false)
    &&& regex_compiles(UPPER_CASE_AM@, false)
    &&& regex_compiles(LOWER_CASE_PM@, false)
    &&& regex_compiles(LOWER_CASE_AM@, false)
    &&& automaton_builds(encoded(line_ends()))
    &&& forall|i: int| 0 <= i < abbreviations().len() ==> #[trigger] abbreviation_compiles(i)
    &&& regex_compiles(MULTI_PERIOD_ABBREVIATION@, true)
    &&& regex_compiles(ABBREVIATION_AS_SENTENCE_BOUNDARY@, false)
}

/// The vocabulary from "adj" to "cal".
fn vocabulary_from_adj() -> (r: Vec<String>)
    ensures
        views(r@) == abbreviations_from_adj(),
{
    let mut list: Vec<String> = Vec::new();
    proof {
        assert(views(list@) =~= Seq::<Seq<char>>::empty());
    }
    put(&mut list, "adj");
    put(&mut list, "adm");
    put(&mut list, "adv");
    put(&mut list, "al");
    put(&mut list, "ala");
    put(&mut list, "alta");
    put(&mut list, "apr");
    put(&mut list, "arc");
    put(&mut list, "ariz");
    put(&mut list, "ark");
    put(&mut list, "art");
    put(&mut list, "assn");
    put(&mut list, "asst");
    put(&mut list, "attys");
    put(&mut list, "aug");
    put(&mut list, "ave");
    put(&mut list, "bart");
    put(&mut list, "bld");
    put(&mut list, "bldg");
    put(&mut list, "blvd");
    put(&mut list, "brig");
    put(&mut list, "bros");
    put(&mut list, "btw");
    put(&mut list, "cal");
    proof {
        assert(views(list@) =~= abbreviations_from_adj());
    }
    list
}

/// The vocabulary from "calif" to "dr.philos".
fn vocabulary_from_calif() -> (r: Vec<String>)
    ensures
        views(r@) == abbreviations_from_calif(),
{
    let mut list: Vec<String> = Vec::new();
    proof {
        assert(views(list@) =~= Seq::<Seq<char>>::empty());
    }
    put(&mut list, "calif");
    put(&mut list, "capt");
    put(&mut list, "cl");
    put(&mut list, "cmdr");
    put(&mut list, "co");
    put(&mut list, "col");
    put(&mut list, "colo");
    put(&mut list, "comdr");
    put(&mut list, "con");
    put(&mut list, "conn");
    put(&mut list, "corp");
    put(&mut list, "cpl");
    put(&mut list, "cres");
    put(&mut list, "ct");
    put(&mut list, "d.phil");
    put(&mut list, "dak");
    put(&mut list, "dec");
    put(&mut list, "del");
    put(&mut list, "dept");
    put(&mut list, "det");
    put(&mut list, "dist");
    put(&mut list, "dr");
    put(&mut list, "dr.phil");
    put(&mut list, "dr.philos");
    proof {
        assert(views(list@) =~= abbreviations_from_calif());
    }
    list
}

/// The vocabulary from "drs" to "i.e".
fn vocabulary_from_drs() -> (r: Vec<String>)
    ensures
        views(r@) == abbreviations_from_drs(),
{
    let mut list: Vec<String> = Vec::new();
    proof {
        assert(views(list@) =~= Seq::<Seq<char>>::empty());
    }
    put(&mut list, "drs");
    put(&mut list, "e.g");
    put(&mut list, "ens");
    put(&mut list, "esp");
    put(&mut list, "esq");
    put(&mut list, "etc");
    put(&mut list, "exp");
    put(&mut list, "expy");
    put(&mut list, "ext");
    put(&mut list, "feb");
    put(&mut list, "fed");
    put(&mut list, "fla");
    put(&mut list, "ft");
    put(&mut list, "fwy");
    put(&mut list, "fy");
    put(&mut list, "ga");
    put(&mut list, "gen");
    put(&mut list, "gov");
    put(&mut list, "hon");
    put(&mut list, "hosp");
    put(&mut list, "hr");
    put(&mut list, "hway");
    put(&mut list, "hwy");
    put(&mut list, "i.e");
    proof {
        assert(views(list@) =~= abbreviations_from_drs());
    }
    list
}

/// The vocabulary from "ia" to "mass".
fn vocabulary_from_ia() -> (r: Vec<String>)
    ensures
        views(r@) == abbreviations_from_ia(),
{
    let mut list: Vec<String> = Vec::new();
    proof {
        assert(views(list@) =~= Seq::<Seq<char>>::empty());
    }
    put(&mut list, "ia");
    put(&mut list, "id");
    put(&mut list, "ida");
    put(&mut list, "ill");
    put(&mut list, "inc");
    put(&mut list, "ind");
    put(&mut list, "ing");
    put(&mut list, "insp");
    put(&mut list, "is");
    put(&mut list, "jan");
    put(&mut list, "jr");
    put(&mut list, "jul");
    put(&mut list, "jun");
    put(&mut list, "kan");
    put(&mut list, "kans");
    put(&mut list, "ken");
    put(&mut list, "ky");
    put(&mut list, "la");
    put(&mut list, "lt");
    put(&mut list, "ltd");
    put(&mut list, "maj");
    put(&mut list, "man");
    put(&mut list, "mar");
    put(&mut list, "mass");
    proof {
        assert(views(list@) =~= abbreviations_from_ia());
    }
    list
}

/// The vocabulary from "may" to "neb".
fn vocabulary_from_may() -> (r: Vec<String>)
    ensures
        views(r@) == abbreviations_from_may(),
{
    let mut list: Vec<String> = Vec::new();
    proof {
        assert(views(list@) =~= Seq::<Seq<char>>::empty());
    }
    put(&mut list, "may");
    put(&mut list, "md");
    put(&mut list, "me");
    put(&mut list, "med");
    put(&mut list, "messrs");
    put(&mut list, "mex");
    put(&mut list, "mfg");
    put(&mut list, "mich");
    put(&mut list, "min");
    put(&mut list, "minn");
    put(&mut list, "miss");
    put(&mut list, "mlle");
    put(&mut list, "mm");
    put(&mut list, "mme");
    put(&mut list, "mo");
    put(&mut list, "mont");
    put(&mut list, "mr");
    put(&mut list, "mrs");
    put(&mut list, "ms");
    put(&mut list, "msgr");
    put(&mut list, "mssrs");
    put(&mut list, "mt");
    put(&mut list, "mtn");
    put(&mut list, "neb");
    proof {
        assert(views(list@) =~= abbreviations_from_may());
    }
    list
}

/// The vocabulary from "nebr" to "plz".
fn vocabulary_from_nebr() -> (r: Vec<String>)
    ensures
        views(r@) == abbreviations_from_nebr(),
{
    let mut list: Vec<String> = Vec::new();
    proof {
        assert(views(list@) =~= Seq::<Seq<char>>::empty());
    }
    put(&mut list, "nebr");
    put(&mut list, "nev");
    put(&mut list, "no");
    put(&mut list, "nos");
    put(&mut list, "nov");
    put(&mut list, "nr");
    put(&mut list, "oct");
    put(&mut list, "ok");
    put(&mut list, "okla");
    put(&mut list, "ont");
    put(&mut list, "op");
    put(&mut list, "ord");
    put(&mut list, "ore");
    put(&mut list, "p");
    put(&mut list, "pa");
    put(&mut list, "pd");
    put(&mut list, "pde");
    put(&mut list, "penn");
    put(&mut list, "penna");
    put(&mut list, "pfc");
    put(&mut list, "ph");
    put(&mut list, "ph.d");
    put(&mut list, "pl");
    put(&mut list, "plz");
    proof {
        assert(views(list@) =~= abbreviations_from_nebr());
    }
    list
}

/// The vocabulary from "pp" to "surg".
fn vocabulary_from_pp() -> (r: Vec<String>)
    ensures
        views(r@) == abbreviations_from_pp(),
{
    let mut list: Vec<String> = Vec::new();
    proof {
        assert(views(list@) =~= Seq::<Seq<char>>::empty());
    }
    put(&mut list, "pp");
    put(&mut list, "prof");
    put(&mut list, "pvt");
    put(&mut list, "que");
    put(&mut list, "rd");
    put(&mut list, "rs");
    put(&mut list, "ref");
    put(&mut list, "rep");
    put(&mut list, "reps");
    put(&mut list, "res");
    put(&mut list, "rev");
    put(&mut list, "rt");
    put(&mut list, "sask");
    put(&mut list, "sec");
    put(&mut list, "sen");
    put(&mut list, "sens");
    put(&mut list, "sep");
    put(&mut list, "sept");
    put(&mut list, "sfc");
    put(&mut list, "sgt");
    put(&mut list, "sr");
    put(&mut list, "st");
    put(&mut list, "supt");
    put(&mut list, "surg");
    proof {
        assert(views(list@) =~= abbreviations_from_pp());
    }
    list
}

/// The vocabulary from "tce" to "fig".
fn vocabulary_from_tce() -> (r: Vec<String>)
    ensures
        views(r@) == abbreviations_from_tce(),
{
    let mut list: Vec<String> = Vec::new();
    proof {
        assert(views(list@) =~= Seq::<Seq<char>>::empty());
    }
    put(&mut list, "tce");
    put(&mut list, "tenn");
    put(&mut list, "tex");
    put(&mut list, "univ");
    put(&mut list, "usafa");
    put(&mut list, "u.s");
    put(&mut list, "ut");
    put(&mut list, "va");
    put(&mut list, "v");
    put(&mut list, "ver");
    put(&mut list, "viz");
    put(&mut list, "vs");
    put(&mut list, "vt");
    put(&mut list, "wash");
    put(&mut list, "wis");
    put(&mut list, "wisc");
    put(&mut list, "wy");
    put(&mut list, "wyo");
    put(&mut list, "yuk");
    put(&mut list, "fig");
    proof {
        assert(views(list@) =~= abbreviations_from_tce());
    }
    list
}

/// The abbreviations that stand before a name.
fn prepositive_table() -> (r: Vec<String>)
    ensures
        views(r@) == prepositive_abbreviations(),
{
    let mut list: Vec<String> = Vec::new();
    proof {
        assert(views(list@) =~= Seq::<Seq<char>>::empty());
    }
    put(&mut list, "adm");
    put(&mut list, "attys");
    put(&mut list, "brig");
    put(&mut list, "capt");
    put(&mut list, "cmdr");
    put(&mut list, "col");
    put(&mut list, "cpl");
    put(&mut list, "det");
    put(&mut list, "dr");
    put(&mut list, "gen");
    put(&mut list, "gov");
    put(&mut list, "ing");
    put(&mut list, "lt");
    put(&mut list, "maj");
    put(&mut list, "mr");
    put(&mut list, "mrs");
    put(&mut list, "ms");
    put(&mut list, "mt");
    put(&mut list, "messrs");
    put(&mut list, "mssrs");
    put(&mut list, "prof");
    put(&mut list, "ph");
    put(&mut list, "rep");
    put(&mut list, "reps");
    put(&mut list, "rev");
    put(&mut list, "sen");
    put(&mut list, "sens");
    put(&mut list, "sgt");
    put(&mut list, "st");
    put(&mut list, "supt");
    put(&mut list, "v");
    put(&mut list, "vs");
    put(&mut list, "fig");
    proof {
        assert(views(list@) =~= prepositive_abbreviations());
    }
    list
}

/// The abbreviations that stand before a number.
fn number_table() -> (r: Vec<String>)
    ensures
        views(r@) == number_abbreviations(),
{
    let mut list: Vec<String> = Vec::new();
    proof {
        assert(views(list@) =~= Seq::<Seq<char>>::empty());
    }
    put(&mut list, "art");
    put(&mut list, "ext");
    put(&mut list, "no");
    put(&mut list, "nos");
    put(&mut list, "p");
    put(&mut list, "pp");
    proof {
        assert(views(list@) =~= number_abbreviations());
    }
    list
}

/// The three texts put together.
pub fn concat(a: &str, b: &str, c: &str) -> (r: String)
    ensures
        r@ == a@ + b@ + c@,
{
    let mut out = a.to_owned();
    out.append(b);
    out.append(c);
    out
}

/// The two lists put together.
fn joined(a: Vec<String>, b: &Vec<String>) -> (r: Vec<String>)
    ensures
        views(r@) == views(a@) + views(b@),
{
    let mut out = a;
    let mut i: usize = 0;
    proof {
        assert(views(b@).take(0) =~= Seq::<Seq<char>>::empty());
        assert(views(out@) + views(b@).take(0) =~= views(out@));
    }
    while i < b.len()
        invariant
            i <= b.len(),
            views(out@) == views(a@) + views(b@).take(i as int),
        decreases b.len() - i,
    {
        let ghost before = views(out@);
        put(&mut out, b[i].as_str());
        proof {
            assert(views(b@).take(i + 1) =~= views(b@).take(i as int).push(b@[i as int]@));
            assert(views(out@) =~= views(a@) + views(b@).take(i + 1));
        }
        i += 1;
    }
    proof {
        assert(views(b@).take(i as int) =~= views(b@));
    }
    out
}

/// The vocabulary.
fn vocabulary() -> (r: Vec<String>)
    ensures
        views(r@) == abbreviations(),
{
    let list = vocabulary_from_adj();
    let list = joined(list, &vocabulary_from_calif());
    let list = joined(list, &vocabulary_from_drs());
    let list = joined(list, &vocabulary_from_ia());
    let list = joined(list, &vocabulary_from_may());
    let list = joined(list, &vocabulary_from_nebr());
    let list = joined(list, &vocabulary_from_pp());
    let list = joined(list, &vocabulary_from_tce());
    list
}

/// Whether `text` is in upper case: it holds a cased character, and every
/// cased character of it is an upper-case one.
pub fn python_isupper(text: &str) -> (r: bool)
    ensures
        r == is_upper(text@),
{
    let chars = to_chars(text);
    let mut cased = false;
    let mut i: usize = 0;
    while i < chars.len()
        invariant
            i <= chars.len(),
            chars@ == text@,
            cased == (exists|k: int| 0 <= k < i && unicode_cased(#[trigger] text@[k])),
            forall|k: int|
                0 <= k < i && unicode_cased(#[trigger] text@[k]) ==> unicode_uppercase(text@[k]),
        decreases chars.len() - i,
    {
        let c = chars[i];
        if is_cased(c) {
            if c.is_uppercase() {
                cased = true;
            } else {
                return false;
            }
        }
        i += 1;
    }
    cased
}

/// Cuts a text into its lines and keeps what ends each line.
pub struct PythonSplitLines {
    automaton: aho_corasick::AhoCorasick,
}

/// The line endings, in the order in which they are tried.
fn line_end_table() -> (r: Vec<String>)
    ensures
        views(r@) == line_ends(),
{
    let mut list: Vec<String> = Vec::new();
    proof {
        assert(views(list@) =~= Seq::<Seq<char>>::empty());
    }
    put(&mut list, CR_LF);
    put(&mut list, LINE_FEED);
    put(&mut list, CARRIAGE_RETURN);
    put(&mut list, LINE_TABULATION);
    put(&mut list, FORM_FEED);
    put(&mut list, FILE_SEPARATOR);
    put(&mut list, GROUP_SEPARATOR);
    put(&mut list, RECORD_SEPARATOR);
    put(&mut list, NEXT_LINE);
    put(&mut list, LINE_SEPARATOR);
    put(&mut list, PARAGRAPH_SEPARATOR);
    proof {
        assert(views(list@) =~= line_ends());
    }
    list
}

impl PythonSplitLines {
    /// The automaton finds the line endings, the first listed first.
    #[verifier::type_invariant]
    pub closed spec fn wf(self) -> bool {
        &&& automaton_patterns(self.automaton) == encoded(line_ends())
        &&& automaton_leftmost_first(self.automaton)
    }

    /// Builds the automaton that finds line endings; `None` exactly when it
    /// cannot be built.
    pub fn new() -> (r: Option<PythonSplitLines>)
        ensures
            r is Some == automaton_builds(encoded(line_ends())),
    {
        let table = line_end_table();
        match build_automaton(&table) {
            Some(automaton) => Some(PythonSplitLines { automaton }),
            None => None,
        }
    }

    /// The lines of `input`, each with its ending.
    pub fn splitlines_keepends(&self, input: &str) -> (r: Vec<String>)
        ensures
            views(r@) == lines(input@),
    {
        proof {
            use_type_invariant(self);
            lemma_piece_whole(input@);
        }
        let len = byte_len(input);
        let mut out: Vec<String> = Vec::new();
        let mut last: usize = 0;
        proof {
            assert(views(out@) =~= Seq::<Seq<char>>::empty());
            assert(views(out@) + lines_from(input@, 0) =~= lines_from(input@, 0));
        }
        while last < len
            invariant
                last <= len,
                len == utf8(input@).len(),
                boundary(input@, last as int),
                boundary(input@, len as int),
                automaton_patterns(self.automaton) == encoded(line_ends()),
                automaton_leftmost_first(self.automaton),
                views(out@) + lines_from(input@, last as int) == lines(input@),
            decreases len - last,
        {
            let end = match find_in_automaton(&self.automaton, input, last) {
                Some((_, e)) => if last < e && e <= len && at_boundary(input, e) {
                    e
                } else {
                    len
                },
                None => len,
            };
            let ghost before = out@;
            out.push(slice(input, last, end).to_owned());
            proof {
                lemma_views_push(before, out@[out@.len() - 1]);
                assert(out@ == before.push(out@[out@.len() - 1]));
                assert(end == line_end(input@, last as int));
                assert(views(out@) + lines_from(input@, end as int) =~= views(before) + lines_from(
                    input@,
                    last as int,
                ));
            }
            last = end;
        }
        proof {
            assert(views(out@) + lines_from(input@, last as int) =~= views(out@));
        }
        out
    }
}

/// One abbreviation of the vocabulary with its two patterns.
pub struct Abbreviation {
    word: String,
    appearance: Pattern,
    next_word: Pattern,
}

impl Abbreviation {
    /// The abbreviation itself.
    pub closed spec fn word(&self) -> Seq<char> {
        self.word@
    }

    /// The two patterns are those of the abbreviation.
    #[verifier::type_invariant]
    pub closed spec fn wf(self) -> bool {
        &&& self.appearance.pattern() == (appearance_pattern(self.word@), true)
        &&& self.next_word.pattern() == (next_word_pattern(self.word@), false)
    }

    /// Compiles the two patterns of `word`. It fails exactly when the engine
    /// refuses one of them.
    pub fn new(word: &str) -> (r: Result<Abbreviation, SegmenterError>)
        ensures
            r is Ok == (regex_compiles(appearance_pattern(word@), true) && regex_compiles(
                next_word_pattern(word@),
                false,
            )),
            r is Ok ==> r->Ok_0.word() == word@,
            r is Err ==> r->Err_0 is Regex,
    {
        let appearance = match re_i(concat(APPEARANCE_START, word, "").as_str()) {
            Ok(p) => p,
            Err(e) => {
                proof {
                    reveal_strlit("");
                    assert(APPEARANCE_START@ + word@ + ""@ =~= appearance_pattern(word@));
                }
                return Err(SegmenterError::Regex(e));
            },
        };
        let escaped = replace(word, PERIOD, ESCAPED_PERIOD);
        let next_word = match re(concat(NEXT_WORD_START, escaped.as_str(), NEXT_WORD_END).as_str()) {
            Ok(p) => p,
            Err(e) => {
                return Err(SegmenterError::Regex(e));
            },
        };
        proof {
            reveal_strlit("");
            assert(APPEARANCE_START@ + word@ + ""@ =~= appearance_pattern(word@));
        }
        Ok(Abbreviation { word: word.to_owned(), appearance, next_word })
    }
}

/// Masks every period of a match.
pub struct MaskPeriods {}

impl Rewriter for MaskPeriods {
    open spec fn rewritten(&self, matched: Seq<char>) -> Seq<char> {
        periods_masked(matched)
    }

    fn rewrite(&self, matched: &str) -> (r: String) {
        replace(matched, PERIOD, MASKED_PERIOD)
    }
}

/// The rules that mask the periods of abbreviations.
pub struct AbbreviationReplacer {
    possessive_abbreviation_rule: Rule,
    kommanditgesellschaft_rule: Rule,
    single_upper_case_letter_at_start_of_line_rule: Rule,
    single_upper_case_letter_rule: Rule,
    upper_case_pm_rule: Rule,
    upper_case_am_rule: Rule,
    lower_case_pm_rule: Rule,
    lower_case_am_rule: Rule,
    python_splitlines_keepends: PythonSplitLines,
    abbreviations: Vec<Abbreviation>,
    prepositive_abbreviations: Vec<String>,
    number_abbreviations: Vec<String>,
    multi_period_abbreviation_regex: Pattern,
    replace_abbreviation_as_sentence_boundary: Rule,
}

/// Makes a rule of the abbreviation rules.
fn rule(regex: &str, replace: &str) -> (r: Result<Rule, SegmenterError>)
    ensures
        r is Ok == regex_compiles(regex@, false),
        r is Ok ==> r->Ok_0.pattern() == (regex@, false) && r->Ok_0.template() == replace@,
        r is Err ==> r->Err_0 is Regex,
{
    match Rule::new(regex, replace) {
        Ok(p) => Ok(p),
        Err(e) => Err(SegmenterError::Regex(e)),
    }
}

/// Whether every abbreviation of the vocabulary before index `n` compiles.
pub open spec fn compile_upto(n: int) -> bool {
    forall|i: int| 0 <= i < n ==> #[trigger] abbreviation_compiles(i)
}

/// The abbreviations of `words` with their patterns.
fn compile_vocabulary(words: &Vec<String>) -> (r: Result<Vec<Abbreviation>, SegmenterError>)
    requires
        views(words@) == abbreviations(),
    ensures
        r is Ok == compile_upto(abbreviations().len() as int),
        r is Ok ==> r->Ok_0@.len() == abbreviations().len() && forall|i: int|
            0 <= i < abbreviations().len() ==> (#[trigger] r->Ok_0@[i]).word() == abbreviations()[i],
        r is Err ==> r->Err_0 is Regex,
{
    let mut out: Vec<Abbreviation> = Vec::new();
    let mut i: usize = 0;
    while i < words.len()
        invariant
            i <= words.len(),
            views(words@) == abbreviations(),
            out@.len() == i,
            compile_upto(i as int),
            forall|k: int| 0 <= k < i ==> (#[trigger] out@[k]).word() == abbreviations()[k],
        decreases words.len() - i,
    {
        proof {
            assert(views(words@)[i as int] == words@[i as int]@);
        }
        match Abbreviation::new(words[i].as_str()) {
            Ok(entry) => {
                out.push(entry);
                proof {
                    assert(abbreviation_compiles(i as int));
                }
            },
            Err(e) => {
                proof {
                    assert(!abbreviation_compiles(i as int));
                }
                return Err(e);
            },
        }
        i += 1;
    }
    Ok(out)
}

impl AbbreviationReplacer {
    /// Every rule holds the pattern that it is named after, and the tables
    /// hold the vocabulary.
    #[verifier::type_invariant]
    pub closed spec fn wf(self) -> bool {
        &&& self.possessive_abbreviation_rule.pattern() == (POSSESSIVE_ABBREVIATION@, false)
        &&& self.possessive_abbreviation_rule.template() == MASKED_PERIOD@
        &&& self.kommanditgesellschaft_rule.pattern() == (KOMMANDITGESELLSCHAFT@, false)
        &&& self.kommanditgesellschaft_rule.template() == MASKED_PERIOD@
        &&& self.single_upper_case_letter_at_start_of_line_rule.pattern() == (
            SINGLE_UPPER_CASE_LETTER_AT_START_OF_LINE@,
            false,
        )
        &&& self.single_upper_case_letter_at_start_of_line_rule.template() == MASKED_PERIOD@
        &&& self.single_upper_case_letter_rule.pattern() == (SINGLE_UPPER_CASE_LETTER@, false)
        &&& self.single_upper_case_letter_rule.template() == MASKED_PERIOD@
        &&& self.upper_case_pm_rule.pattern() == (UPPER_CASE_PM@, false)
        &&& self.upper_case_pm_rule.template() == PERIOD@
        &&& self.upper_case_am_rule.pattern() == (UPPER_CASE_AM@, false)
        &&& self.upper_case_am_rule.template() == PERIOD@
        &&& self.lower_case_pm_rule.pattern() == (LOWER_CASE_PM@, false)
        &&& self.lower_case_pm_rule.template() == PERIOD@
        &&& self.lower_case_am_rule.pattern() == (LOWER_CASE_AM@, false)
        &&& self.lower_case_am_rule.template() == PERIOD@
        &&& self.abbreviations@.len() == abbreviations().len()
        &&& forall|i: int|
            0 <= i < abbreviations().len() ==> (#[trigger] self.abbreviations@[i]).word()
                == abbreviations()[i]
        &&& views(self.prepositive_abbreviations@) == prepositive_abbreviations()
        &&& views(self.number_abbreviations@) == number_abbreviations()
        &&& self.multi_period_abbreviation_regex.pattern() == (MULTI_PERIOD_ABBREVIATION@, true)
        &&& self.replace_abbreviation_as_sentence_boundary.pattern() == (
            ABBREVIATION_AS_SENTENCE_BOUNDARY@,
            false,
        )
        &&& self.replace_abbreviation_as_sentence_boundary.template() == FIRST_GROUP_AND_PERIOD@
    }

    /// Builds the abbreviation rules. It fails exactly when the engine
    /// refuses one of their patterns or the automaton that finds line
    /// endings cannot be built.
    pub fn new() -> (r: Result<AbbreviationReplacer, SegmenterError>)
        ensures
            r is Ok == abbreviation_patterns_compile(),
            r is Err ==> (r->Err_0 is Regex || r->Err_0 is Automaton),
    {
        let possessive_abbreviation_rule = rule(POSSESSIVE_ABBREVIATION, MASKED_PERIOD)?;
        let kommanditgesellschaft_rule = rule(KOMMANDITGESELLSCHAFT, MASKED_PERIOD)?;
        let single_upper_case_letter_at_start_of_line_rule = rule(
            SINGLE_UPPER_CASE_LETTER_AT_START_OF_LINE,
            MASKED_PERIOD,
        )?;
        let single_upper_case_letter_rule = rule(SINGLE_UPPER_CASE_LETTER, MASKED_PERIOD)?;
        let upper_case_pm_rule = rule(UPPER_CASE_PM, PERIOD)?;
        let upper_case_am_rule = rule(UPPER_CASE_AM, PERIOD)?;
        let lower_case_pm_rule = rule(LOWER_CASE_PM, PERIOD)?;
        let lower_case_am_rule = rule(LOWER_CASE_AM, PERIOD)?;
        let python_splitlines_keepends = match PythonSplitLines::new() {
            Some(splitter) => splitter,
            None => {
                return Err(SegmenterError::Automaton);
            },
        };
        let words = vocabulary();
        let abbreviations = compile_vocabulary(&words)?;
        let multi_period_abbreviation_regex = match re_i(MULTI_PERIOD_ABBREVIATION) {
            Ok(p) => p,
            Err(e) => {
                return Err(SegmenterError::Regex(e));
            },
        };
        let replace_abbreviation_as_sentence_boundary = rule(
            ABBREVIATION_AS_SENTENCE_BOUNDARY,
            FIRST_GROUP_AND_PERIOD,
        )?;
        Ok(
            AbbreviationReplacer {
                possessive_abbreviation_rule,
                kommanditgesellschaft_rule,
                single_upper_case_letter_at_start_of_line_rule,
                single_upper_case_letter_rule,
                upper_case_pm_rule,
                upper_case_am_rule,
                lower_case_pm_rule,
                lower_case_am_rule,
                python_splitlines_keepends,
                abbreviations,
                prepositive_abbreviations: prepositive_table(),
                number_abbreviations: number_table(),
                multi_period_abbreviation_regex,
                replace_abbreviation_as_sentence_boundary,
            },
        )
    }

    /// `text` with the periods of its abbreviations masked.
    pub fn replace(&self, text: &str) -> (r: String)
        ensures
            r@ == abbreviations_replaced(text@),
    {
        let text = self.replace_before_scan(text);
        let text = self.scan_lines(text.as_str());
        self.replace_after_scan(text.as_str())
    }

    /// `text` by the rules that come before the scan line by line.
    pub fn replace_before_scan(&self, text: &str) -> (r: String)
        ensures
            r@ == before_scan(text@),
    {
        proof {
            use_type_invariant(self);
        }
        let text = self.possessive_abbreviation_rule.replace_all(text);
        let text = self.kommanditgesellschaft_rule.replace_all(text.as_str());
        let text = self.single_upper_case_letter_at_start_of_line_rule.replace_all(text.as_str());
        self.single_upper_case_letter_rule.replace_all(text.as_str())
    }

    /// The lines of `text`, each scanned, put together again.
    pub fn scan_lines(&self, text: &str) -> (r: String)
        ensures
            r@ == lines_scanned(lines(text@), lines(text@).len() as int),
    {
        proof {
            use_type_invariant(self);
        }
        let all = self.python_splitlines_keepends.splitlines_keepends(text);
        let mut handled = String::new();
        let mut i: usize = 0;
        while i < all.len()
            invariant
                i <= all.len(),
                handled@ == lines_scanned(views(all@), i as int),
            decreases all.len() - i,
        {
            let line = self.search_for_abbreviations_in_string(all[i].as_str());
            proof {
                assert(views(all@)[i as int] == all@[i as int]@);
            }
            handled.append(line.as_str());
            i += 1;
        }
        handled
    }

    /// `text` by the rules that come behind the scan line by line.
    pub fn replace_after_scan(&self, text: &str) -> (r: String)
        ensures
            r@ == after_scan(text@),
    {
        proof {
            use_type_invariant(self);
        }
        let how = MaskPeriods {  };
        let masked = self.multi_period_abbreviation_regex.replace_all_with(text, &how);
        proof {
            lemma_each_rewritten_same(
                (MULTI_PERIOD_ABBREVIATION@, true),
                text@,
                |m: Seq<char>| how.rewritten(m),
                |m: Seq<char>| periods_masked(m),
            );
        }
        let text = self.upper_case_pm_rule.replace_all(masked.as_str());
        let text = self.upper_case_am_rule.replace_all(text.as_str());
        let text = self.lower_case_pm_rule.replace_all(text.as_str());
        let text = self.lower_case_am_rule.replace_all(text.as_str());
        self.replace_abbreviation_as_sentence_boundary.replace_all(text.as_str())
    }

    /// One line with the periods behind its abbreviations masked: the
    /// vocabulary is gone through in its order, each abbreviation on the
    /// line as the one before left it.
    pub fn search_for_abbreviations_in_string(&self, text: &str) -> (r: String)
        ensures
            r@ == line_scanned(text@),
    {
        proof {
            use_type_invariant(self);
        }
        let lowered = to_lowercase(text);
        let mut result = text.to_owned();
        let mut k: usize = 0;
        while k < self.abbreviations.len()
            invariant
                k <= self.abbreviations.len(),
                lowered@ == lowercase(text@),
                result@ == abbreviations_scanned(text@, lowercase(text@), k as int),
            decreases self.abbreviations.len() - k,
        {
            proof {
                use_type_invariant(self);
            }
            result = self.handle_abbreviation(
                result.as_str(),
                lowered.as_str(),
                &self.abbreviations[k],
            );
            k += 1;
        }
        result
    }

    /// `text` with the periods masked that follow one abbreviation of the
    /// vocabulary.
    pub fn handle_abbreviation(&self, text: &str, lowered: &str, entry: &Abbreviation) -> (r:
        String)
        ensures
            r@ == abbreviation_handled(text@, lowered@, entry.word()),
    {
        proof {
            use_type_invariant(self);
            use_type_invariant(entry);
        }
        if !contains(lowered, entry.word.as_str()) {
            return text.to_owned();
        }
        let appearances = entry.appearance.find_iter(text);
        if appearances.len() == 0 {
            return text.to_owned();
        }
        let nexts = entry.next_word.find_iter(text);
        let len = byte_len(text);
        let mut marks: Vec<bool> = Vec::new();
        while marks.len() < len
            invariant
                marks@.len() <= len,
                forall|k: int| 0 <= k < marks@.len() ==> !(#[trigger] marks@[k]),
            decreases len - marks.len(),
        {
            marks.push(false);
        }
        proof {
            assert(marks@ =~= unmarked(text@));
            crate::regex::lemma_in_order_each(text@, 0, appearances@);
            crate::regex::lemma_in_order_each(text@, 0, nexts@);
        }
        let mut i: usize = 0;
        while i < appearances.len()
            invariant
                i <= appearances.len(),
                marks@ == marked_upto(text@, appearances@, nexts@, i as int),
                forall|k: int|
                    0 <= k < appearances@.len() ==> crate::text::span_ok(
                        text@,
                        (#[trigger] appearances@[k]).0 as int,
                        appearances@[k].1 as int,
                    ),
                forall|k: int|
                    0 <= k < nexts@.len() ==> crate::text::span_ok(
                        text@,
                        (#[trigger] nexts@[k]).0 as int,
                        nexts@[k].1 as int,
                    ),
            decreases appearances.len() - i,
        {
            let (s, e) = appearances[i];
            let found = trim(slice(text, s, e));
            let next = if i < nexts.len() {
                let (a, b) = nexts[i];
                slice(text, a, b)
            } else {
                proof {
                    reveal_strlit("");
                    assert(""@ =~= Seq::<char>::empty());
                }
                ""
            };
            marks = self.mark_periods(text, marks, found.as_str(), next);
            i += 1;
        }
        mask(text, &marks)
    }

    /// `marks` with the periods marked that are to be masked on account of
    /// one appearance of an abbreviation: `found` is the abbreviation as it
    /// stands in `text`, `next` the character with which the next word
    /// starts, or empty.
    pub fn mark_periods(&self, text: &str, marks: Vec<bool>, found: &str, next: &str) -> (r: Vec<
        bool,
    >)
        ensures
            r@ == marked_for(text@, marks@, found@, next@),
    {
        proof {
            use_type_invariant(self);
        }
        let upper = python_isupper(next);
        let lower = to_lowercase(found);
        let is_prepositive = rank(&self.prepositive_abbreviations, lower.as_str()).is_some();
        if upper && !is_prepositive {
            return marks;
        }
        let end = if is_prepositive {
            PERIOD_BEFORE_NAME
        } else if rank(&self.number_abbreviations, lower.as_str()).is_some() {
            PERIOD_BEFORE_NUMBER
        } else {
            PERIOD_INSIDE_SENTENCE
        };
        let source = concat(AFTER_SPACE_AND, found, end);
        let pattern = match re(source.as_str()) {
            Ok(p) => p,
            Err(_) => {
                return marks;
            },
        };
        let mut prepended = SPACE.to_owned();
        prepended.append(text);
        let spans = pattern.find_iter(prepended.as_str());
        let mut marks = marks;
        let mut i: usize = 0;
        let ghost start = marks@;
        while i < spans.len()
            invariant
                i <= spans.len(),
                marks@ == marked_all(start, spans@, i as int),
            decreases spans.len() - i,
        {
            let (s, _) = spans[i];
            if 1 <= s && s <= marks.len() {
                marks.set(s - 1, true);
            }
            i += 1;
        }
        marks
    }
}

/// `text` with each marked character of one byte replaced by the masked
/// period.
pub fn mask(text: &str, marks: &Vec<bool>) -> (r: String)
    ensures
        r@ == masked_from(text@, marks@, 0),
{
    let len = byte_len(text);
    let mut out = String::new();
    let mut i: usize = 0;
    proof {
        lemma_piece_whole(text@);
        assert(out@ + masked_from(text@, marks@, 0) =~= masked_from(text@, marks@, 0));
    }
    while i < len
        invariant
            i <= len,
            len == utf8(text@).len(),
            boundary(text@, i as int),
            out@ + masked_from(text@, marks@, i as int) == masked_from(text@, marks@, 0),
        decreases len - i,
    {
        let j = step(text, i);
        let ghost before = out@;
        if i < marks.len() && marks[i] && j == i + 1 {
            out.append(MASKED_PERIOD);
        } else {
            out.append(slice(text, i, j));
        }
        proof {
            assert(out@ + masked_from(text@, marks@, j as int) =~= before + masked_from(
                text@,
                marks@,
                i as int,
            ));
        }
        i = j;
    }
    proof {
        assert(out@ + masked_from(text@, marks@, i as int) =~= out@);
    }
    out
}

} // verus!
