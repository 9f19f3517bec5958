//! Lists. A run of list markers (letters, roman numerals or numbers, closed
//! by a period or a round bracket) is rewritten so that each item starts on a
//! line of its own and the period behind its marker no longer looks like the
//! end of a sentence.
use vstd::prelude::*;
use vstd::string::*;
use crate::error::SegmenterError;
use crate::regex::{
    all_spans, each_rewritten, first_span, lemma_each_rewritten_same, matched_texts,
    regex_compiles, texts_of, Pattern, Rewriter,
};
use crate::rule::{rule_applied, Rule};
use crate::text::{
    byte_len, contains_char, decimal, decimal_digits, lemma_views_push, number_of, parse_number,
    put, rank, rank_in, same, string_of, strip, stripped, to_chars, trim, trim_start, trimmed,
    trimmed_start, utf8, views, Strip,
};
use crate::util::{re, re_i};

verus! {

// The patterns that find list markers, and those that find where a line is
// to be broken between two items.

pub const ALPHABETICAL_LIST_WITH_PERIODS: &'static str =
    r"(?<=^)[a-z](?=\.)|(?<=\A)[a-z](?=\.)|(?<=\s)[a-z](?=\.)";

pub const ALPHABETICAL_LIST_WITH_PARENS: &'static str =
    r"(?<=\()[a-z]+(?=\))|(?<=^)[a-z]+(?=\))|(?<=\A)[a-z]+(?=\))|(?<=\s)[a-z]+(?=\))";

pub const ALPHABETICAL_LIST_LETTERS_AND_PERIODS: &'static str =
    r"(?<=^)[a-z]\.|(?<=\A)[a-z]\.|(?<=\s)[a-z]\.";

pub const EXTRACT_ALPHABETICAL_LIST_LETTERS: &'static str =
    r"\([a-z]+(?=\))|(?<=^)[a-z]+(?=\))|(?<=\A)[a-z]+(?=\))|(?<=\s)[a-z]+(?=\))";

pub const NUMBERED_LIST_1: &'static str =
    r"\s\d{1,2}(?=\.\s)|^\d{1,2}(?=\.\s)|\s\d{1,2}(?=\.\))|^\d{1,2}(?=\.\))|(?<=\s\-)\d{1,2}(?=\.\s)|(?<=^\-)\d{1,2}(?=\.\s)|(?<=\s\⁃)\d{1,2}(?=\.\s)|(?<=^\⁃)\d{1,2}(?=\.\s)|(?<=s\-)\d{1,2}(?=\.\))|(?<=^\-)\d{1,2}(?=\.\))|(?<=\s\⁃)\d{1,2}(?=\.\))|(?<=^\⁃)\d{1,2}(?=\.\))";

pub const NUMBERED_LIST_2: &'static str =
    r"(?<=\s)\d{1,2}\.(?=\s)|^\d{1,2}\.(?=\s)|(?<=\s)\d{1,2}\.(?=\))|^\d{1,2}\.(?=\))|(?<=\s\-)\d{1,2}\.(?=\s)|(?<=^\-)\d{1,2}\.(?=\s)|(?<=\s\⁃)\d{1,2}\.(?=\s)|(?<=^\⁃)\d{1,2}\.(?=\s)|(?<=\s\-)\d{1,2}\.(?=\))|(?<=^\-)\d{1,2}\.(?=\))|(?<=\s\⁃)\d{1,2}\.(?=\))|(?<=^\⁃)\d{1,2}\.(?=\))";

pub const NUMBERED_LIST_PARENS: &'static str = r"\d{1,2}(?=\)\s)";

pub const FIND_NUMBERED_LIST_1: &'static str = r"♨.+\n.+♨|♨.+\r.+♨";

pub const FIND_NUMBERED_LIST_2: &'static str = r"for\s\d{1,2}♨\s[a-z]";

pub const SPACE_BETWEEN_LIST_ITEMS_FIRST: &'static str = r"(?<=\S\S)\s(?=\S\s*\d+♨)";

pub const SPACE_BETWEEN_LIST_ITEMS_SECOND: &'static str = r"(?<=\S\S)\s(?=\d{1,2}♨)";

pub const FIND_NUMBERED_LIST_PARENS: &'static str = r"☝.+\n.+☝|☝.+\r.+☝";

pub const SPACE_BETWEEN_LIST_ITEMS_THIRD: &'static str = r"(?<=\S\S)\s(?=\d{1,2}☝)";

// The marks that are set behind list numbers, and what the rules put in.

pub const LIST_PERIOD: &'static str = "♨";

pub const LIST_PAREN: &'static str = "☝";

pub const MASKED_PERIOD: &'static str = "∯";

pub const LINE_BREAK: &'static str = "\r";

pub const NOTHING: &'static str = "";

pub const BREAK_AND_MASKED_PAREN: &'static str = "\r&✂&";

/// The mark that stands in for the period behind a list number.
pub open spec fn list_period() -> char {
    '♨'
}

/// The mark that is set behind a list number before a round bracket.
pub open spec fn list_paren() -> char {
    '☝'
}

/// The roman numerals that can mark a list item, in the order of the table.
/// The rank of a numeral is the last place at which it stands.
pub open spec fn roman_numerals() -> Seq<Seq<char>> {
    seq![
        "i"@,
        "ii"@,
        "iii"@,
        "iv"@,
        "v"@,
        "vi"@,
        "vii"@,
        "viii"@,
        "ix"@,
        "x"@,
        "xi"@,
        "xii"@,
        "xiii"@,
        "xiv"@,
        "x"@,
        "xi"@,
        "xii"@,
        "xiii"@,
        "xv"@,
        "xvi"@,
        "xvii"@,
        "xviii"@,
        "xix"@,
        "xx"@,
    ]
}

/// The letters that can mark a list item, in the order of the alphabet.
pub open spec fn latin_numerals() -> Seq<Seq<char>> {
    seq![
        "a"@,
        "b"@,
        "c"@,
        "d"@,
        "e"@,
        "f"@,
        "g"@,
        "h"@,
        "i"@,
        "j"@,
        "k"@,
        "l"@,
        "m"@,
        "n"@,
        "o"@,
        "p"@,
        "q"@,
        "r"@,
        "s"@,
        "t"@,
        "u"@,
        "v"@,
        "w"@,
        "x"@,
        "y"@,
        "z"@,
    ]
}

/// The table of markers that a pass goes by.
pub open spec fn alphabet(roman: bool) -> Seq<Seq<char>> {
    if roman {
        roman_numerals()
    } else {
        latin_numerals()
    }
}

/// Those of `texts` that stand in `list`, in their order.
pub open spec fn marker_words(texts: Seq<Seq<char>>, list: Seq<Seq<char>>) -> Seq<Seq<char>>
    decreases texts.len(),
{
    if texts.len() == 0 {
        Seq::empty()
    } else if rank_in(list, texts.last()) is Some {
        marker_words(texts.drop_last(), list).push(texts.last())
    } else {
        marker_words(texts.drop_last(), list)
    }
}

/// The ranks of those of `texts` that stand in `list`, in their order.
pub open spec fn marker_ranks(texts: Seq<Seq<char>>, list: Seq<Seq<char>>) -> Seq<usize>
    decreases texts.len(),
{
    if texts.len() == 0 {
        Seq::empty()
    } else if rank_in(list, texts.last()) is Some {
        marker_ranks(texts.drop_last(), list).push(rank_in(list, texts.last())->0)
    } else {
        marker_ranks(texts.drop_last(), list)
    }
}

/// Whether two ranks are neighbours.
pub open spec fn one_apart(a: int, b: int) -> bool {
    a - b == 1 || b - a == 1
}

/// Whether the marker at index `ind` counts as part of a list. A marker
/// alone never does. The last marker does when the one before it is its
/// neighbour in rank. Any other does when the next marker has the rank that
/// follows its own, or when the marker before it is its neighbour in rank;
/// for the first marker, "the marker before it" is the last one.
pub open spec fn kept(ranks: Seq<usize>, ind: int) -> bool {
    let n = ranks.len() as int;
    if n <= 1 {
        false
    } else if ind == n - 1 {
        one_apart(ranks[n - 2] as int, ranks[n - 1] as int)
    } else if ind == 0 {
        ranks[1] - ranks[0] == 1 || one_apart(ranks[n - 1] as int, ranks[0] as int)
    } else {
        ranks[ind + 1] - ranks[ind] == 1 || one_apart(ranks[ind - 1] as int, ranks[ind] as int)
    }
}

/// `text` without one period at its end, if it ends in one.
pub open spec fn without_period(text: Seq<char>) -> Seq<char> {
    if text.len() > 0 && text.last() == '.' {
        text.drop_last()
    } else {
        text
    }
}

/// A letter with its period, rewritten if the letter is `what`: a line break
/// goes before it and its period is masked.
pub open spec fn period_marked(matched: Seq<char>, what: Seq<char>) -> Seq<char> {
    if without_period(matched) == what {
        LINE_BREAK@ + without_period(matched) + MASKED_PERIOD@
    } else {
        matched
    }
}

/// A marker before a round bracket, rewritten if the marker is `what`: a
/// line break goes before it, and an opening bracket before it is masked.
pub open spec fn paren_marked(matched: Seq<char>, what: Seq<char>) -> Seq<char> {
    if matched.len() > 0 && matched[0] == '(' {
        if matched.skip(1) == what {
            BREAK_AND_MASKED_PAREN@ + matched.skip(1)
        } else {
            matched
        }
    } else if matched == what {
        LINE_BREAK@ + matched
    } else {
        matched
    }
}

/// `text` with every letter-and-period that is the letter `what` rewritten.
pub open spec fn periods_marked(text: Seq<char>, what: Seq<char>) -> Seq<char> {
    each_rewritten(
        (ALPHABETICAL_LIST_LETTERS_AND_PERIODS@, true),
        text,
        |m: Seq<char>| period_marked(m, what),
    )
}

/// `text` with every marker before a round bracket that is `what` rewritten.
pub open spec fn parens_marked(text: Seq<char>, what: Seq<char>) -> Seq<char> {
    each_rewritten(
        (EXTRACT_ALPHABETICAL_LIST_LETTERS@, true),
        text,
        |m: Seq<char>| paren_marked(m, what),
    )
}

/// `text` after the first `n` markers have been gone through: for each that
/// is kept, the text as it then stands has that marker rewritten wherever it
/// occurs.
pub open spec fn letters_marked(
    text: Seq<char>,
    words: Seq<Seq<char>>,
    ranks: Seq<usize>,
    n: int,
    parens: bool,
) -> Seq<char>
    decreases n,
{
    if n <= 0 {
        text
    } else {
        let so_far = letters_marked(text, words, ranks, n - 1, parens);
        if kept(ranks, n - 1) {
            if parens {
                parens_marked(so_far, words[n - 1])
            } else {
                periods_marked(so_far, words[n - 1])
            }
        } else {
            so_far
        }
    }
}

/// One pass over a list of letters or roman numerals: the markers are what
/// `detector` finds and the table holds.
pub open spec fn alphabet_list_marked(
    detector: (Seq<char>, bool),
    text: Seq<char>,
    parens: bool,
    roman: bool,
) -> Seq<char> {
    let texts = texts_of(text, all_spans(detector, text));
    let words = marker_words(texts, alphabet(roman));
    let ranks = marker_ranks(texts, alphabet(roman));
    letters_marked(text, words, ranks, words.len() as int, parens)
}

/// The numbers that `texts` write, white space before them set aside; `None`
/// if one of them writes no number.
pub open spec fn numbers(texts: Seq<Seq<char>>) -> Option<Seq<i32>>
    decreases texts.len(),
{
    if texts.len() == 0 {
        Some(Seq::empty())
    } else {
        match (numbers(texts.drop_last()), number_of(trimmed_start(texts.last()))) {
            (Some(before), Some(n)) => Some(before.push(n as i32)),
            _ => None,
        }
    }
}

/// Whether the number at index `i` counts as part of a list: the next number
/// is one more, or the number before it is one less, or it is a 0 behind a 9,
/// or a 9 before a 0.
pub open spec fn in_sequence(numbers: Seq<i32>, i: int) -> bool {
    let each = numbers[i];
    ||| (i + 1 < numbers.len() && numbers[i + 1] == each + 1)
    ||| (i > 0 && numbers[i - 1] == each - 1)
    ||| (each == 0 && i > 0 && numbers[i - 1] == 9)
    ||| (each == 9 && i + 1 < numbers.len() && numbers[i + 1] == 0)
}

/// A list number with what closes it, rewritten if the number is `each`: the
/// mark `mark` takes the place of what closes it. With `strip`, white space
/// round the match is dropped in either case.
pub open spec fn number_marked(matched: Seq<char>, each: i32, mark: char, strip: bool) -> Seq<
    char,
> {
    let m = if strip {
        trimmed(matched)
    } else {
        matched
    };
    let chomped = if utf8(m).len() == 1 {
        m
    } else {
        stripped(m, Strip::ListMarks)
    };
    if each >= 0 && decimal_digits(each as nat) == chomped {
        decimal_digits(each as nat).push(mark)
    } else {
        m
    }
}

/// `text` after the first `n` numbers have been gone through: for each that
/// counts as part of a list, the text as it then stands has that number
/// rewritten wherever `pattern` finds it.
pub open spec fn numbers_marked(
    pattern: (Seq<char>, bool),
    text: Seq<char>,
    numbers: Seq<i32>,
    n: int,
    mark: char,
    strip: bool,
) -> Seq<char>
    decreases n,
{
    if n <= 0 {
        text
    } else {
        let so_far = numbers_marked(pattern, text, numbers, n - 1, mark, strip);
        if in_sequence(numbers, n - 1) {
            each_rewritten(
                pattern,
                so_far,
                |m: Seq<char>| number_marked(m, numbers[n - 1], mark, strip),
            )
        } else {
            so_far
        }
    }
}

/// One pass over a numbered list: the numbers are what `finder` finds, and
/// they are rewritten where `pattern` finds them. `None` if something that
/// `finder` finds writes no number.
pub open spec fn list_scanned(
    finder: (Seq<char>, bool),
    pattern: (Seq<char>, bool),
    text: Seq<char>,
    mark: char,
    strip: bool,
) -> Option<Seq<char>> {
    match numbers(texts_of(text, all_spans(finder, text))) {
        Some(found) => Some(numbers_marked(pattern, text, found, found.len() as int, mark, strip)),
        None => None,
    }
}

/// `text` with a line break before each item of a list of numbers with
/// periods. Nothing is done where no number was marked, or where the marked
/// numbers look like references that run over several lines.
pub open spec fn period_list_broken(text: Seq<char>) -> Seq<char> {
    if text.contains(list_period()) && first_span((FIND_NUMBERED_LIST_1@, false), text) is None
        && first_span((FIND_NUMBERED_LIST_2@, false), text) is None {
        rule_applied(
            (SPACE_BETWEEN_LIST_ITEMS_SECOND@, false),
            LINE_BREAK@,
            rule_applied((SPACE_BETWEEN_LIST_ITEMS_FIRST@, false), LINE_BREAK@, text),
        )
    } else {
        text
    }
}

/// `text` with a line break before each item of a list of numbers with round
/// brackets.
pub open spec fn paren_list_broken(text: Seq<char>) -> Seq<char> {
    if text.contains(list_paren()) && first_span((FIND_NUMBERED_LIST_PARENS@, false), text)
        is None {
        rule_applied((SPACE_BETWEEN_LIST_ITEMS_THIRD@, false), LINE_BREAK@, text)
    } else {
        text
    }
}

/// `text` after the four passes over lists of letters and roman numerals.
pub open spec fn alphabet_lists_marked(text: Seq<char>) -> Seq<char> {
    let a = alphabet_list_marked((ALPHABETICAL_LIST_WITH_PERIODS@, true), text, false, false);
    let b = alphabet_list_marked((ALPHABETICAL_LIST_WITH_PARENS@, true), a, true, false);
    let c = alphabet_list_marked((ALPHABETICAL_LIST_WITH_PERIODS@, true), b, false, true);
    alphabet_list_marked((ALPHABETICAL_LIST_WITH_PARENS@, true), c, true, true)
}

/// `text` after the pass over numbers with periods, given the text in which
/// the numbers have been marked.
pub open spec fn period_list_done(marked: Seq<char>) -> Seq<char> {
    rule_applied((LIST_PERIOD@, false), MASKED_PERIOD@, period_list_broken(marked))
}

/// `text` after the pass over numbers with round brackets, given the text in
/// which the numbers have been marked.
pub open spec fn paren_list_done(marked: Seq<char>) -> Seq<char> {
    rule_applied((LIST_PAREN@, false), NOTHING@, paren_list_broken(marked))
}

/// `text` with its lists rewritten: the four passes over letters and roman
/// numerals, then numbers with periods, then numbers with round brackets.
/// `None` if a list number is found that writes no number.
pub open spec fn line_breaks_added(text: Seq<char>) -> Option<Seq<char>> {
    let lettered = alphabet_lists_marked(text);
    match list_scanned(
        (NUMBERED_LIST_1@, false),
        (NUMBERED_LIST_2@, false),
        lettered,
        list_period(),
        true,
    ) {
        None => None,
        Some(marked) => {
            let periods = period_list_done(marked);
            match list_scanned(
                (NUMBERED_LIST_PARENS@, false),
                (NUMBERED_LIST_PARENS@, false),
                periods,
                list_paren(),
                false,
            ) {
                None => None,
                Some(marked_again) => Some(paren_list_done(marked_again)),
            }
        },
    }
}

/// Whether the engine accepts every pattern that the list rules are made of.
pub open spec fn list_patterns_compile() -> bool {
    &&& regex_compiles(ALPHABETICAL_LIST_WITH_PERIODS@, true)
    &&& regex_compiles(ALPHABETICAL_LIST_WITH_PARENS@, true)
    &&& regex_compiles(ALPHABETICAL_LIST_LETTERS_AND_PERIODS@, true)
    &&& regex_compiles(EXTRACT_ALPHABETICAL_LIST_LETTERS@, true)
    &&& regex_compiles(NUMBERED_LIST_1@, false)
    &&& regex_compiles(NUMBERED_LIST_2@, false)
    &&& regex_compiles(NUMBERED_LIST_PARENS@, false)
    &&& regex_compiles(FIND_NUMBERED_LIST_1@, false)
    &&& regex_compiles(FIND_NUMBERED_LIST_2@, false)
    &&& regex_compiles(SPACE_BETWEEN_LIST_ITEMS_FIRST@, false)
    &&& regex_compiles(SPACE_BETWEEN_LIST_ITEMS_SECOND@, false)
    &&& regex_compiles(FIND_NUMBERED_LIST_PARENS@, false)
    &&& regex_compiles(SPACE_BETWEEN_LIST_ITEMS_THIRD@, false)
    &&& regex_compiles(LIST_PERIOD@, false)
    &&& regex_compiles(LIST_PAREN@, false)
}

/// Rewrites a letter with its period if the letter is `what`.
pub struct PeriodMarker<'a> {
    pub what: &'a str,
}

impl<'a> Rewriter for PeriodMarker<'a> {
    open spec fn rewritten(&self, matched: Seq<char>) -> Seq<char> {
        period_marked(matched, self.what@)
    }

    fn rewrite(&self, matched: &str) -> (r: String) {
        let chars = to_chars(matched);
        let n = chars.len();
        let bare = if n > 0 && chars[n - 1] == '.' {
            proof {
                assert(chars@.subrange(0, n - 1) =~= chars@.drop_last());
            }
            string_of(&chars, 0, n - 1)
        } else {
            matched.to_owned()
        };
        if same(bare.as_str(), self.what) {
            let mut out = LINE_BREAK.to_owned();
            out.append(bare.as_str());
            out.append(MASKED_PERIOD);
            out
        } else {
            matched.to_owned()
        }
    }
}

/// Rewrites a marker before a round bracket if the marker is `what`.
pub struct ParenMarker<'a> {
    pub what: &'a str,
}

impl<'a> Rewriter for ParenMarker<'a> {
    open spec fn rewritten(&self, matched: Seq<char>) -> Seq<char> {
        paren_marked(matched, self.what@)
    }

    fn rewrite(&self, matched: &str) -> (r: String) {
        let chars = to_chars(matched);
        let n = chars.len();
        if n > 0 && chars[0] == '(' {
            proof {
                assert(chars@.subrange(1, n as int) =~= chars@.skip(1));
            }
            let bare = string_of(&chars, 1, n);
            if same(bare.as_str(), self.what) {
                let mut out = BREAK_AND_MASKED_PAREN.to_owned();
                out.append(bare.as_str());
                out
            } else {
                matched.to_owned()
            }
        } else if same(matched, self.what) {
            let mut out = LINE_BREAK.to_owned();
            out.append(matched);
            out
        } else {
            matched.to_owned()
        }
    }
}

/// Rewrites a list number with what closes it if the number is `each`.
pub struct NumberMarker {
    pub each: i32,
    pub mark: char,
    pub strip: bool,
}

impl Rewriter for NumberMarker {
    open spec fn rewritten(&self, matched: Seq<char>) -> Seq<char> {
        number_marked(matched, self.each, self.mark, self.strip)
    }

    fn rewrite(&self, matched: &str) -> (r: String) {
        let m = if self.strip {
            trim(matched)
        } else {
            matched.to_owned()
        };
        let chomped = if byte_len(m.as_str()) == 1 {
            m.clone()
        } else {
            strip(m.as_str(), &Strip::ListMarks)
        };
        if self.each >= 0 {
            let mut written = decimal(self.each as u32);
            if same(written.as_str(), chomped.as_str()) {
                written.push(self.mark);
                return written;
            }
        }
        m
    }
}

/// Whether the marker at index `ind` counts as part of a list.
pub fn keep(ranks: &Vec<usize>, ind: usize) -> (r: bool)
    requires
        ind < ranks.len(),
    ensures
        r == kept(ranks@, ind as int),
{
    let n = ranks.len();
    if n <= 1 {
        false
    } else if ind == n - 1 {
        apart(ranks[n - 2], ranks[n - 1])
    } else if ind == 0 {
        follows(ranks[0], ranks[1]) || apart(ranks[n - 1], ranks[0])
    } else {
        follows(ranks[ind], ranks[ind + 1]) || apart(ranks[ind - 1], ranks[ind])
    }
}

/// Whether `b` is the rank behind `a`.
pub fn follows(a: usize, b: usize) -> (r: bool)
    ensures
        r == (b - a == 1),
{
    b > a && b - a == 1
}

/// Whether two ranks are neighbours.
pub fn apart(a: usize, b: usize) -> (r: bool)
    ensures
        r == one_apart(a as int, b as int),
{
    (a > b && a - b == 1) || (b > a && b - a == 1)
}

/// Whether the number at index `i` counts as part of a list.
pub fn sequenced(numbers: &Vec<i32>, i: usize) -> (r: bool)
    requires
        i < numbers.len(),
    ensures
        r == in_sequence(numbers@, i as int),
{
    let each: i64 = numbers[i] as i64;
    let has_next = i + 1 < numbers.len();
    let has_before = i > 0;
    (has_next && numbers[i + 1] as i64 == each + 1) || (has_before && numbers[i - 1] as i64 == each
        - 1) || (each == 0 && has_before && numbers[i - 1] == 9) || (each == 9 && has_next
        && numbers[i + 1] == 0)
}

/// The rules that find lists and rewrite them.
pub struct ListItemReplacer {
    roman_numerals: Vec<String>,
    latin_numerals: Vec<String>,
    alphabetical_list_with_periods: Pattern,
    alphabetical_list_with_parens: Pattern,
    alphabetical_list_letters_and_periods_regex: Pattern,
    extract_alphabetical_list_letters_regex: Pattern,
    numbered_list_regex_1: Pattern,
    numbered_list_regex_2: Pattern,
    numbered_list_parens_regex: Pattern,
    find_numbered_list_1: Pattern,
    find_numbered_list_2: Pattern,
    space_between_list_items_first_rule: Rule,
    space_between_list_items_second_rule: Rule,
    find_numbered_list_parens: Pattern,
    space_between_list_items_third_rule: Rule,
    substitute_list_period_rule: Rule,
    list_marker_rule: Rule,
}

/// The table of roman numerals.
fn roman_table() -> (r: Vec<String>)
    ensures
        views(r@) == roman_numerals(),
{
    let mut list: Vec<String> = Vec::new();
    proof {
        assert(views(list@) =~= Seq::<Seq<char>>::empty());
    }
    put(&mut list, "i");
    put(&mut list, "ii");
    put(&mut list, "iii");
    put(&mut list, "iv");
    put(&mut list, "v");
    put(&mut list, "vi");
    put(&mut list, "vii");
    put(&mut list, "viii");
    put(&mut list, "ix");
    put(&mut list, "x");
    put(&mut list, "xi");
    put(&mut list, "xii");
    put(&mut list, "xiii");
    put(&mut list, "xiv");
    put(&mut list, "x");
    put(&mut list, "xi");
    put(&mut list, "xii");
    put(&mut list, "xiii");
    put(&mut list, "xv");
    put(&mut list, "xvi");
    put(&mut list, "xvii");
    put(&mut list, "xviii");
    put(&mut list, "xix");
    put(&mut list, "xx");
    proof {
        assert(views(list@) =~= roman_numerals());
    }
    list
}

/// The table of letters.
fn latin_table() -> (r: Vec<String>)
    ensures
        views(r@) == latin_numerals(),
{
    let mut list: Vec<String> = Vec::new();
    proof {
        assert(views(list@) =~= Seq::<Seq<char>>::empty());
    }
    put(&mut list, "a");
    put(&mut list, "b");
    put(&mut list, "c");
    put(&mut list, "d");
    put(&mut list, "e");
    put(&mut list, "f");
    put(&mut list, "g");
    put(&mut list, "h");
    put(&mut list, "i");
    put(&mut list, "j");
    put(&mut list, "k");
    put(&mut list, "l");
    put(&mut list, "m");
    put(&mut list, "n");
    put(&mut list, "o");
    put(&mut list, "p");
    put(&mut list, "q");
    put(&mut list, "r");
    put(&mut list, "s");
    put(&mut list, "t");
    put(&mut list, "u");
    put(&mut list, "v");
    put(&mut list, "w");
    put(&mut list, "x");
    put(&mut list, "y");
    put(&mut list, "z");
    proof {
        assert(views(list@) =~= latin_numerals());
    }
    list
}

/// Compiles a pattern of the list rules.
fn pattern(regex: &str, ignore_case: bool) -> (r: Result<Pattern, SegmenterError>)
    ensures
        r is Ok == regex_compiles(regex@, ignore_case),
        r is Ok ==> r->Ok_0.pattern() == (regex@, ignore_case),
        r is Err ==> r->Err_0 is Regex,
{
    let compiled = if ignore_case {
        re_i(regex)
    } else {
        re(regex)
    };
    match compiled {
        Ok(p) => Ok(p),
        Err(e) => Err(SegmenterError::Regex(e)),
    }
}

/// Makes a rule of the list rules.
fn rule(regex: &str, replace: &str) -> (r: Result<Rule, SegmenterError>)
    ensures
        r is Ok == regex_compiles(regex@, false),
        r is Ok ==> r->Ok_0.pattern() == (regex@, false) && r->Ok_0.template() == replace@,
        r is Err ==> r->Err_0 is Regex,
{
    match Rule::new(regex, replace) {
        Ok(p) => Ok(p),
        Err(e) => Err(SegmenterError::Regex(e)),
    }
}

impl ListItemReplacer {
    /// Every rule holds the pattern that it is named after.
    #[verifier::type_invariant]
    pub closed spec fn wf(self) -> bool {
        &&& views(self.roman_numerals@) == roman_numerals()
        &&& views(self.latin_numerals@) == latin_numerals()
        &&& self.alphabetical_list_with_periods.pattern() == (
            ALPHABETICAL_LIST_WITH_PERIODS@,
            true,
        )
        &&& self.alphabetical_list_with_parens.pattern() == (ALPHABETICAL_LIST_WITH_PARENS@, true)
        &&& self.alphabetical_list_letters_and_periods_regex.pattern() == (
            ALPHABETICAL_LIST_LETTERS_AND_PERIODS@,
            true,
        )
        &&& self.extract_alphabetical_list_letters_regex.pattern() == (
            EXTRACT_ALPHABETICAL_LIST_LETTERS@,
            true,
        )
        &&& self.numbered_list_regex_1.pattern() == (NUMBERED_LIST_1@, false)
        &&& self.numbered_list_regex_2.pattern() == (NUMBERED_LIST_2@, false)
        &&& self.numbered_list_parens_regex.pattern() == (NUMBERED_LIST_PARENS@, false)
        &&& self.find_numbered_list_1.pattern() == (FIND_NUMBERED_LIST_1@, false)
        &&& self.find_numbered_list_2.pattern() == (FIND_NUMBERED_LIST_2@, false)
        &&& self.space_between_list_items_first_rule.pattern() == (
            SPACE_BETWEEN_LIST_ITEMS_FIRST@,
            false,
        )
        &&& self.space_between_list_items_first_rule.template() == LINE_BREAK@
        &&& self.space_between_list_items_second_rule.pattern() == (
            SPACE_BETWEEN_LIST_ITEMS_SECOND@,
            false,
        )
        &&& self.space_between_list_items_second_rule.template() == LINE_BREAK@
        &&& self.find_numbered_list_parens.pattern() == (FIND_NUMBERED_LIST_PARENS@, false)
        &&& self.space_between_list_items_third_rule.pattern() == (
            SPACE_BETWEEN_LIST_ITEMS_THIRD@,
            false,
        )
        &&& self.space_between_list_items_third_rule.template() == LINE_BREAK@
        &&& self.substitute_list_period_rule.pattern() == (LIST_PERIOD@, false)
        &&& self.substitute_list_period_rule.template() == MASKED_PERIOD@
        &&& self.list_marker_rule.pattern() == (LIST_PAREN@, false)
        &&& self.list_marker_rule.template() == NOTHING@
    }

    /// Builds the list rules. It fails exactly when the engine refuses one
    /// of their patterns.
    pub fn new() -> (r: Result<ListItemReplacer, SegmenterError>)
        ensures
            r is Ok == list_patterns_compile(),
            r is Err ==> r->Err_0 is Regex,
    {
        Ok(
            ListItemReplacer {
                roman_numerals: roman_table(),
                latin_numerals: latin_table(),
                alphabetical_list_with_periods: pattern(ALPHABETICAL_LIST_WITH_PERIODS, true)?,
                alphabetical_list_with_parens: pattern(ALPHABETICAL_LIST_WITH_PARENS, true)?,
                alphabetical_list_letters_and_periods_regex: pattern(
                    ALPHABETICAL_LIST_LETTERS_AND_PERIODS,
                    true,
                )?,
                extract_alphabetical_list_letters_regex: pattern(
                    EXTRACT_ALPHABETICAL_LIST_LETTERS,
                    true,
                )?,
                numbered_list_regex_1: pattern(NUMBERED_LIST_1, false)?,
                numbered_list_regex_2: pattern(NUMBERED_LIST_2, false)?,
                numbered_list_parens_regex: pattern(NUMBERED_LIST_PARENS, false)?,
                find_numbered_list_1: pattern(FIND_NUMBERED_LIST_1, false)?,
                find_numbered_list_2: pattern(FIND_NUMBERED_LIST_2, false)?,
                space_between_list_items_first_rule: rule(
                    SPACE_BETWEEN_LIST_ITEMS_FIRST,
                    LINE_BREAK,
                )?,
                space_between_list_items_second_rule: rule(
                    SPACE_BETWEEN_LIST_ITEMS_SECOND,
                    LINE_BREAK,
                )?,
                find_numbered_list_parens: pattern(FIND_NUMBERED_LIST_PARENS, false)?,
                space_between_list_items_third_rule: rule(
                    SPACE_BETWEEN_LIST_ITEMS_THIRD,
                    LINE_BREAK,
                )?,
                substitute_list_period_rule: rule(LIST_PERIOD, MASKED_PERIOD)?,
                list_marker_rule: rule(LIST_PAREN, NOTHING)?,
            },
        )
    }

    /// `text` with its lists rewritten. It fails exactly when a list number
    /// is found that writes no number.
    pub fn add_line_break(&self, text: &str) -> (r: Result<String, SegmenterError>)
        ensures
            match r {
                Ok(s) => line_breaks_added(text@) == Some(s@),
                Err(e) => line_breaks_added(text@) is None && e is Number,
            },
    {
        proof {
            use_type_invariant(self);
        }
        let text = self.iterate_alphabet_array(
            text,
            &self.alphabetical_list_with_periods,
            false,
            false,
        );
        let text = self.iterate_alphabet_array(
            text.as_str(),
            &self.alphabetical_list_with_parens,
            true,
            false,
        );
        let text = self.iterate_alphabet_array(
            text.as_str(),
            &self.alphabetical_list_with_periods,
            false,
            true,
        );
        let text = self.iterate_alphabet_array(
            text.as_str(),
            &self.alphabetical_list_with_parens,
            true,
            true,
        );
        let text = self.scan_lists(
            text.as_str(),
            &self.numbered_list_regex_1,
            &self.numbered_list_regex_2,
            '♨',
            true,
        )?;
        let text = self.add_line_breaks_for_numbered_list_with_periods(text.as_str());
        let text = self.substitute_list_period_rule.replace_all(text.as_str());
        let text = self.scan_lists(
            text.as_str(),
            &self.numbered_list_parens_regex,
            &self.numbered_list_parens_regex,
            '☝',
            false,
        )?;
        let text = self.add_line_breaks_for_numbered_list_with_parens(text.as_str());
        let text = self.list_marker_rule.replace_all(text.as_str());
        Ok(text)
    }

    /// `text` with every letter-and-period that is the letter
    /// `what_to_replace` rewritten.
    pub fn replace_alphabet_list(&self, text: &str, what_to_replace: &str) -> (r: String)
        ensures
            r@ == periods_marked(text@, what_to_replace@),
    {
        proof {
            use_type_invariant(self);
        }
        let how = PeriodMarker { what: what_to_replace };
        let out = self.alphabetical_list_letters_and_periods_regex.replace_all_with(text, &how);
        proof {
            lemma_each_rewritten_same(
                (ALPHABETICAL_LIST_LETTERS_AND_PERIODS@, true),
                text@,
                |m: Seq<char>| how.rewritten(m),
                |m: Seq<char>| period_marked(m, what_to_replace@),
            );
        }
        out
    }

    /// `text` with every marker before a round bracket that is
    /// `what_to_replace` rewritten.
    pub fn replace_alphabet_list_parens(&self, text: &str, what_to_replace: &str) -> (r: String)
        ensures
            r@ == parens_marked(text@, what_to_replace@),
    {
        proof {
            use_type_invariant(self);
        }
        let how = ParenMarker { what: what_to_replace };
        let out = self.extract_alphabetical_list_letters_regex.replace_all_with(text, &how);
        proof {
            lemma_each_rewritten_same(
                (EXTRACT_ALPHABETICAL_LIST_LETTERS@, true),
                text@,
                |m: Seq<char>| how.rewritten(m),
                |m: Seq<char>| paren_marked(m, what_to_replace@),
            );
        }
        out
    }

    /// One pass over a list of letters, or of roman numerals with
    /// `use_roman_numeral`: the markers are what `regex` finds and the table
    /// holds; those that count as part of a list are rewritten, as markers
    /// before a round bracket with `parens` and as letters with a period
    /// without.
    pub fn iterate_alphabet_array(
        &self,
        text: &str,
        regex: &Pattern,
        parens: bool,
        use_roman_numeral: bool,
    ) -> (r: String)
        ensures
            r@ == alphabet_list_marked(regex.pattern(), text@, parens, use_roman_numeral),
    {
        proof {
            use_type_invariant(self);
        }
        let list = if use_roman_numeral {
            &self.roman_numerals
        } else {
            &self.latin_numerals
        };
        let spans = regex.find_iter(text);
        let texts = matched_texts(text, &spans);
        let mut words: Vec<String> = Vec::new();
        let mut ranks: Vec<usize> = Vec::new();
        let mut i: usize = 0;
        let ghost table = alphabet(use_roman_numeral);
        let ghost all = texts_of(text@, all_spans(regex.pattern(), text@));
        proof {
            assert(views(words@) =~= Seq::<Seq<char>>::empty());
            assert(all.take(0) =~= Seq::<Seq<char>>::empty());
        }
        while i < texts.len()
            invariant
                i <= texts.len(),
                views(list@) == table,
                views(texts@) == all,
                views(words@) == marker_words(all.take(i as int), table),
                ranks@ == marker_ranks(all.take(i as int), table),
            decreases texts.len() - i,
        {
            let ghost upto = all.take(i + 1);
            let ghost before = words@;
            proof {
                assert(upto.last() == texts@[i as int]@);
                assert(upto.drop_last() =~= all.take(i as int));
            }
            match rank(list, texts[i].as_str()) {
                Some(v) => {
                    words.push(texts[i].clone());
                    ranks.push(v);
                    proof {
                        lemma_views_push(before, words@[words@.len() - 1]);
                        assert(words@ == before.push(words@[words@.len() - 1]));
                    }
                },
                None => {},
            }
            i += 1;
        }
        proof {
            assert(all.take(i as int) =~= all);
        }
        let mut result = text.to_owned();
        let mut ind: usize = 0;
        proof {
            lemma_marker_lengths(all, table);
        }
        while ind < words.len()
            invariant
                ind <= words.len(),
                words@.len() == ranks@.len(),
                result@ == letters_marked(text@, views(words@), ranks@, ind as int, parens),
            decreases words.len() - ind,
        {
            if keep(&ranks, ind) {
                result = if parens {
                    self.replace_alphabet_list_parens(result.as_str(), words[ind].as_str())
                } else {
                    self.replace_alphabet_list(result.as_str(), words[ind].as_str())
                };
            }
            ind += 1;
        }
        result
    }

    /// One pass over a numbered list: the numbers are what `regex1` finds;
    /// those that count as part of a list are rewritten where `regex2` finds
    /// them, `replacement` taking the place of what closes them. It fails
    /// exactly when something that `regex1` finds writes no number.
    pub fn scan_lists(
        &self,
        text: &str,
        regex1: &Pattern,
        regex2: &Pattern,
        replacement: char,
        strip: bool,
    ) -> (r: Result<String, SegmenterError>)
        ensures
            match r {
                Ok(s) => list_scanned(regex1.pattern(), regex2.pattern(), text@, replacement, strip)
                    == Some(s@),
                Err(e) => list_scanned(regex1.pattern(), regex2.pattern(), text@, replacement, strip)
                    is None && e is Number,
            },
    {
        let spans = regex1.find_iter(text);
        let texts = matched_texts(text, &spans);
        let mut found: Vec<i32> = Vec::new();
        let mut i: usize = 0;
        let ghost all = texts_of(text@, all_spans(regex1.pattern(), text@));
        proof {
            assert(all.take(0) =~= Seq::<Seq<char>>::empty());
        }
        while i < texts.len()
            invariant
                i <= texts.len(),
                views(texts@) == all,
                all == texts_of(text@, all_spans(regex1.pattern(), text@)),
                numbers(all.take(i as int)) == Some(found@),
            decreases texts.len() - i,
        {
            let ghost upto = all.take(i + 1);
            proof {
                assert(upto.last() == texts@[i as int]@);
                assert(upto.drop_last() =~= all.take(i as int));
            }
            let bare = trim_start(texts[i].as_str());
            match parse_number(bare.as_str()) {
                Some(n) => {
                    found.push(n);
                },
                None => {
                    proof {
                        assert(number_of(trimmed_start(upto.last())) is None);
                        assert(numbers(upto) is None);
                        lemma_numbers_fail(all, i + 1);
                    }
                    return Err(SegmenterError::Number);
                },
            }
            i += 1;
        }
        proof {
            assert(all.take(i as int) =~= all);
        }
        let mut result = text.to_owned();
        let mut k: usize = 0;
        while k < found.len()
            invariant
                k <= found.len(),
                result@ == numbers_marked(
                    regex2.pattern(),
                    text@,
                    found@,
                    k as int,
                    replacement,
                    strip,
                ),
            decreases found.len() - k,
        {
            if sequenced(&found, k) {
                let how = NumberMarker { each: found[k], mark: replacement, strip };
                let ghost before = result@;
                result = regex2.replace_all_with(result.as_str(), &how);
                proof {
                    lemma_each_rewritten_same(
                        regex2.pattern(),
                        before,
                        |m: Seq<char>| how.rewritten(m),
                        |m: Seq<char>| number_marked(m, found@[k as int], replacement, strip),
                    );
                }
            }
            k += 1;
        }
        Ok(result)
    }

    /// `text` with a line break before each item of a list of numbers with
    /// periods.
    pub fn add_line_breaks_for_numbered_list_with_periods(&self, text: &str) -> (r: String)
        ensures
            r@ == period_list_broken(text@),
    {
        proof {
            use_type_invariant(self);
        }
        if contains_char(text, '♨') && self.find_numbered_list_1.find(text).is_none()
            && self.find_numbered_list_2.find(text).is_none() {
            let text = self.space_between_list_items_first_rule.replace_all(text);
            self.space_between_list_items_second_rule.replace_all(text.as_str())
        } else {
            text.to_owned()
        }
    }

    /// `text` with a line break before each item of a list of numbers with
    /// round brackets.
    pub fn add_line_breaks_for_numbered_list_with_parens(&self, text: &str) -> (r: String)
        ensures
            r@ == paren_list_broken(text@),
    {
        proof {
            use_type_invariant(self);
        }
        if contains_char(text, '☝') && self.find_numbered_list_parens.find(text).is_none() {
            self.space_between_list_items_third_rule.replace_all(text)
        } else {
            text.to_owned()
        }
    }

    /// The pattern that finds a letter before a period.
    pub fn alphabetical_list_with_periods(&self) -> (r: &Pattern)
        ensures
            r.pattern() == (ALPHABETICAL_LIST_WITH_PERIODS@, true),
    {
        proof {
            use_type_invariant(self);
        }
        &self.alphabetical_list_with_periods
    }

    /// The pattern that finds a marker before a round bracket.
    pub fn alphabetical_list_with_parens(&self) -> (r: &Pattern)
        ensures
            r.pattern() == (ALPHABETICAL_LIST_WITH_PARENS@, true),
    {
        proof {
            use_type_invariant(self);
        }
        &self.alphabetical_list_with_parens
    }

    /// The pattern that finds a letter with its period.
    pub fn alphabetical_list_letters_and_periods_regex(&self) -> (r: &Pattern)
        ensures
            r.pattern() == (ALPHABETICAL_LIST_LETTERS_AND_PERIODS@, true),
    {
        proof {
            use_type_invariant(self);
        }
        &self.alphabetical_list_letters_and_periods_regex
    }

    /// The pattern that finds a marker before a round bracket, with the
    /// opening bracket if there is one.
    pub fn extract_alphabetical_list_letters_regex(&self) -> (r: &Pattern)
        ensures
            r.pattern() == (EXTRACT_ALPHABETICAL_LIST_LETTERS@, true),
    {
        proof {
            use_type_invariant(self);
        }
        &self.extract_alphabetical_list_letters_regex
    }

    /// The pattern that finds a list number before a period.
    pub fn numbered_list_regex_1(&self) -> (r: &Pattern)
        ensures
            r.pattern() == (NUMBERED_LIST_1@, false),
    {
        proof {
            use_type_invariant(self);
        }
        &self.numbered_list_regex_1
    }

    /// The pattern that finds a list number with its period.
    pub fn numbered_list_regex_2(&self) -> (r: &Pattern)
        ensures
            r.pattern() == (NUMBERED_LIST_2@, false),
    {
        proof {
            use_type_invariant(self);
        }
        &self.numbered_list_regex_2
    }

    /// The pattern that finds a list number before a round bracket.
    pub fn numbered_list_parens_regex(&self) -> (r: &Pattern)
        ensures
            r.pattern() == (NUMBERED_LIST_PARENS@, false),
    {
        proof {
            use_type_invariant(self);
        }
        &self.numbered_list_parens_regex
    }

    /// The first rule that breaks the line before a numbered item.
    pub fn space_between_list_items_first_rule(&self) -> (r: &Rule)
        ensures
            r.pattern() == (SPACE_BETWEEN_LIST_ITEMS_FIRST@, false),
            r.template() == LINE_BREAK@,
    {
        proof {
            use_type_invariant(self);
        }
        &self.space_between_list_items_first_rule
    }

    /// The second rule that breaks the line before a numbered item.
    pub fn space_between_list_items_second_rule(&self) -> (r: &Rule)
        ensures
            r.pattern() == (SPACE_BETWEEN_LIST_ITEMS_SECOND@, false),
            r.template() == LINE_BREAK@,
    {
        proof {
            use_type_invariant(self);
        }
        &self.space_between_list_items_second_rule
    }

    /// The rule that breaks the line before an item numbered with a round
    /// bracket.
    pub fn space_between_list_items_third_rule(&self) -> (r: &Rule)
        ensures
            r.pattern() == (SPACE_BETWEEN_LIST_ITEMS_THIRD@, false),
            r.template() == LINE_BREAK@,
    {
        proof {
            use_type_invariant(self);
        }
        &self.space_between_list_items_third_rule
    }
}

/// As many ranks are found as markers.
pub proof fn lemma_marker_lengths(texts: Seq<Seq<char>>, list: Seq<Seq<char>>)
    ensures
        marker_words(texts, list).len() == marker_ranks(texts, list).len(),
    decreases texts.len(),
{
    if texts.len() > 0 {
        lemma_marker_lengths(texts.drop_last(), list);
    }
}

/// Once one text writes no number, no longer run of the texts gives numbers.
pub proof fn lemma_numbers_fail(texts: Seq<Seq<char>>, i: int)
    requires
        0 <= i <= texts.len(),
        numbers(texts.take(i)) is None,
    ensures
        numbers(texts) is None,
    decreases texts.len() - i,
{
    if i == texts.len() {
        assert(texts.take(i) =~= texts);
    } else {
        assert(texts.take(i + 1).drop_last() =~= texts.take(i));
        lemma_numbers_fail(texts, i + 1);
    }
}

} // verus!
