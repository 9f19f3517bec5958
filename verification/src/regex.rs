//! Regular expressions in the Oniguruma dialect.
//!
//! The engine is an outside crate. Two things are taken from it on trust:
//! compiling a pattern, and one search of a compiled pattern from a byte
//! offset. Everything that a rule needs on top of that (walking all matches,
//! cutting the text around them, putting replacements in) is done, and
//! verified, here.
use vstd::prelude::*;
use vstd::string::*;
use crate::text::{
    at_boundary, boundary, byte_len, lemma_concat_free, lemma_piece_free, lemma_piece_whole,
    piece, slice, span_ok, tail, utf8, views,
};

verus! {

/// `onig::Regex`, a compiled pattern of the engine; nothing inside it is
/// looked at here.
#[verifier::external_type_specification]
#[verifier::external_body]
pub struct ExOnigRegex(onig::Regex);

/// `onig::Error`, the engine's account of why it refused a pattern.
#[verifier::external_type_specification]
#[verifier::external_body]
pub struct ExOnigError(onig::Error);

/// The pattern text and the ignore-case option from which
/// `onig::Regex::with_options` compiled `re`.
pub uninterp spec fn regex_origin(re: onig::Regex) -> (Seq<char>, bool);

/// Whether `onig::Regex::with_options` accepts `source` as a pattern in Ruby
/// syntax, with or without the ignore-case option.
pub uninterp spec fn regex_compiles(source: Seq<char>, ignore_case: bool) -> bool;

/// What one search by `onig::Regex::search_with_param` of the pattern
/// `source` in `text` gives when it starts at byte offset `from` and uses
/// the engine's default parameters: the byte ranges of the capture groups of the leftmost
/// match, group 0 being the whole match and a group that took no part being
/// `None`; or `None` when nothing matches or the engine gives the search up.
pub uninterp spec fn regex_search(
    source: Seq<char>,
    ignore_case: bool,
    text: Seq<char>,
    from: usize,
) -> Option<Seq<Option<(usize, usize)>>>;

/// `onig::Regex::with_options`, called with Ruby syntax and with either no
/// option or the ignore-case option. The engine's verdict on a pattern is
/// taken to depend on the pattern and the option alone, and the compiled
/// value to remember both.
#[verifier::external_body]
fn compile(pattern: &str, ignore_case: bool) -> (r: Result<onig::Regex, onig::Error>)
    ensures
        r is Ok == regex_compiles(pattern@, ignore_case),
        r is Ok ==> regex_origin(r->Ok_0) == (pattern@, ignore_case),
{
    let options = if ignore_case {
        onig::RegexOptions::REGEX_OPTION_IGNORECASE
    } else {
        onig::RegexOptions::REGEX_OPTION_NONE
    };
    onig::Regex::with_options(pattern, options, onig::Syntax::ruby())
}

/// `onig::Regex::search_with_param`, searching forward from byte offset
/// `from` to the end of `text` with the default parameters. The capture
/// positions are read off the region that the call fills. An error of the
/// engine (a search that it gives up) comes back as `None`, like a search
/// that finds nothing. The result is taken to depend on the pattern, the
/// text and the offset alone.
#[verifier::external_body]
fn search(re: &onig::Regex, text: &str, from: usize) -> (r: Option<Vec<Option<(usize, usize)>>>)
    requires
        from <= utf8(text@).len(),
    ensures
        r is Some == regex_search(regex_origin(*re).0, regex_origin(*re).1, text@, from) is Some,
        r is Some ==> r->0@ == regex_search(
            regex_origin(*re).0,
            regex_origin(*re).1,
            text@,
            from,
        )->0,
{
    let mut region = onig::Region::new();
    let found = re.search_with_param(
        text,
        from,
        text.len(),
        onig::SearchOptions::SEARCH_OPTION_NONE,
        Some(&mut region),
        onig::MatchParam::default(),
    );
    match found {
        Ok(Some(_)) => Some((0..region.len()).map(|i| region.pos(i)).collect()),
        _ => None,
    }
}

/// `onig::Error::code`: the engine's number for the error.
pub assume_specification[ onig::Error::code ](e: &onig::Error) -> (r: i32)
;

/// `onig::Error::description`: the engine's message for the error.
pub assume_specification<'a>[ onig::Error::description ](e: &'a onig::Error) -> (r: &'a str)
;

/// Why a pattern was refused: the engine's error number and message.
#[derive(Debug)]
pub struct RegexError {
    pub code: i32,
    pub description: String,
}

/// A compiled pattern.
pub struct Pattern {
    raw: onig::Regex,
}

/// What a match holds: the byte range of each capture group, group 0 being
/// the whole match.
pub type Groups = Seq<Option<(usize, usize)>>;

/// The byte range of the whole match.
pub open spec fn whole(groups: Groups) -> (usize, usize) {
    groups[0]->0
}

/// Whether `groups` is a match that can be cut out of `text`: its group 0 is
/// a range of whole characters that starts at or after `from`.
pub open spec fn usable(text: Seq<char>, from: int, groups: Groups) -> bool {
    &&& groups.len() > 0
    &&& groups[0] is Some
    &&& from <= whole(groups).0
    &&& span_ok(text, whole(groups).0 as int, whole(groups).1 as int)
}

/// The leftmost match of `pattern` in `text` at or after byte offset `from`
/// that can be cut out of `text`, if the engine reports one.
pub open spec fn search_from(pattern: (Seq<char>, bool), text: Seq<char>, from: int) -> Option<
    Groups,
> {
    if 0 <= from <= utf8(text).len() && from <= usize::MAX {
        match regex_search(pattern.0, pattern.1, text, from as usize) {
            Some(groups) => if usable(text, from, groups) {
                Some(groups)
            } else {
                None
            },
            None => None,
        }
    } else {
        None
    }
}

/// The first boundary of `text` at or after byte offset `i`; `i` itself once
/// it is past the end.
pub open spec fn boundary_from(text: Seq<char>, i: int) -> int
    decreases utf8(text).len() - i,
{
    if i >= utf8(text).len() || boundary(text, i) {
        i
    } else {
        boundary_from(text, i + 1)
    }
}

/// Where a walk goes on after an empty match at byte offset `i`: behind the
/// character that starts there, or one byte on at the end of `text`.
pub open spec fn step_over(text: Seq<char>, i: int) -> int {
    let j = boundary_from(text, i + 1);
    if i < j <= utf8(text).len() {
        j
    } else {
        i + 1
    }
}

/// All matches of `pattern` in `text`, left to right and without overlap, as a
/// walk that has come to byte offset `last_end` and whose latest match ended
/// at `last_match_end`. An empty match directly behind the latest match is
/// passed over, and the walk then moves on by one character.
pub open spec fn scan(
    pattern: (Seq<char>, bool),
    text: Seq<char>,
    last_end: int,
    last_match_end: Option<int>,
) -> Seq<Groups>
    decreases utf8(text).len() + 1 - last_end, (if last_match_end == Some(last_end) {
        0int
    } else {
        1int
    }),
{
    if last_end < 0 || last_end > utf8(text).len() {
        Seq::empty()
    } else {
        match search_from(pattern, text, last_end) {
            None => Seq::empty(),
            Some(groups) => {
                let s = whole(groups).0 as int;
                let e = whole(groups).1 as int;
                if e == s && last_match_end == Some(e) {
                    scan(pattern, text, step_over(text, last_end), last_match_end)
                } else {
                    seq![groups] + scan(pattern, text, e, Some(e))
                }
            },
        }
    }
}

/// All matches of `pattern` in `text`.
pub open spec fn all_matches(pattern: (Seq<char>, bool), text: Seq<char>) -> Seq<Groups> {
    scan(pattern, text, 0, None)
}

/// The whole-match range of each match.
pub open spec fn spans_of(matches: Seq<Groups>) -> Seq<(usize, usize)> {
    Seq::new(matches.len(), |i: int| whole(matches[i]))
}

/// All whole-match ranges of `pattern` in `text`.
pub open spec fn all_spans(pattern: (Seq<char>, bool), text: Seq<char>) -> Seq<(usize, usize)> {
    spans_of(all_matches(pattern, text))
}

/// The range of the first match of `pattern` in `text`.
pub open spec fn first_span(pattern: (Seq<char>, bool), text: Seq<char>) -> Option<(usize, usize)> {
    match search_from(pattern, text, 0) {
        Some(groups) => Some(whole(groups)),
        None => None,
    }
}

/// Whether `spans` are ranges of whole characters of `text` that follow one
/// another from byte offset `from` on without overlap.
pub open spec fn in_order(text: Seq<char>, from: int, spans: Seq<(usize, usize)>) -> bool
    decreases spans.len(),
{
    boundary(text, from) && (spans.len() > 0 ==> {
        &&& from <= spans[0].0
        &&& span_ok(text, spans[0].0 as int, spans[0].1 as int)
        &&& in_order(text, spans[0].1 as int, spans.drop_first())
    })
}

/// `text` from byte offset `from` on, with each of `spans` replaced by the
/// entry of `with` at the same index.
pub open spec fn spliced(
    text: Seq<char>,
    from: int,
    spans: Seq<(usize, usize)>,
    with: Seq<Seq<char>>,
) -> Seq<char>
    decreases spans.len(),
{
    if spans.len() == 0 {
        tail(text, from)
    } else {
        piece(text, from, spans[0].0 as int) + with[0] + spliced(
            text,
            spans[0].1 as int,
            spans.drop_first(),
            with.drop_first(),
        )
    }
}

/// The matched text of each of `spans`.
pub open spec fn texts_of(text: Seq<char>, spans: Seq<(usize, usize)>) -> Seq<Seq<char>> {
    Seq::new(spans.len(), |i: int| piece(text, spans[i].0 as int, spans[i].1 as int))
}

/// The views of a vector of matches.
pub open spec fn group_views(matches: Seq<Vec<Option<(usize, usize)>>>) -> Seq<Groups> {
    Seq::new(matches.len(), |i: int| matches[i]@)
}

/// From an offset inside the text on, the first boundary is found before the
/// text ends.
pub proof fn lemma_boundary_from(text: Seq<char>, i: int)
    requires
        0 <= i <= utf8(text).len(),
    ensures
        i <= boundary_from(text, i) <= utf8(text).len(),
        boundary(text, boundary_from(text, i)),
    decreases utf8(text).len() - i,
{
    lemma_piece_whole(text);
    if i >= utf8(text).len() || boundary(text, i) {
    } else {
        lemma_boundary_from(text, i + 1);
    }
}

/// Ranges that are in order from an offset are in order from any boundary
/// before it.
pub proof fn lemma_in_order_earlier(
    text: Seq<char>,
    earlier: int,
    from: int,
    spans: Seq<(usize, usize)>,
)
    requires
        boundary(text, earlier),
        earlier <= from,
        spans.len() > 0 ==> in_order(text, from, spans),
    ensures
        in_order(text, earlier, spans),
{
}

/// The matches that a walk finds are ranges of whole characters, in order and
/// without overlap.
pub proof fn lemma_scan(
    pattern: (Seq<char>, bool),
    text: Seq<char>,
    last_end: int,
    last_match_end: Option<int>,
)
    requires
        boundary(text, last_end),
    ensures
        in_order(text, last_end, spans_of(scan(pattern, text, last_end, last_match_end))),
        forall|i: int|
            0 <= i < scan(pattern, text, last_end, last_match_end).len() ==> usable(
                text,
                last_end,
                #[trigger] scan(pattern, text, last_end, last_match_end)[i],
            ),
    decreases utf8(text).len() + 1 - last_end, (if last_match_end == Some(last_end) {
        0int
    } else {
        1int
    }),
{
    let found = scan(pattern, text, last_end, last_match_end);
    match search_from(pattern, text, last_end) {
        None => {},
        Some(groups) => {
            let s = whole(groups).0 as int;
            let e = whole(groups).1 as int;
            if e == s && last_match_end == Some(e) {
                let next = step_over(text, last_end);
                if last_end < utf8(text).len() {
                    lemma_boundary_from(text, last_end + 1);
                    lemma_scan(pattern, text, next, last_match_end);
                    lemma_in_order_earlier(text, last_end, next, spans_of(found));
                    assert forall|i: int| 0 <= i < found.len() implies usable(
                        text,
                        last_end,
                        #[trigger] found[i],
                    ) by {
                        assert(usable(text, next, found[i]));
                    }
                } else {
                    assert(next == utf8(text).len() + 1);
                    assert(scan(pattern, text, next, last_match_end).len() == 0);
                }
            } else {
                let rest = scan(pattern, text, e, Some(e));
                lemma_scan(pattern, text, e, Some(e));
                assert(found == seq![groups] + rest);
                assert(spans_of(found).drop_first() =~= spans_of(rest));
                assert(spans_of(found)[0] == whole(groups));
                assert forall|i: int| 0 <= i < found.len() implies usable(
                    text,
                    last_end,
                    #[trigger] found[i],
                ) by {
                    if i > 0 {
                        assert(found[i] == rest[i - 1]);
                        assert(usable(text, e, rest[i - 1]));
                    }
                }
            }
        },
    }
}

/// Each of the ranges that are in order is a range of whole characters.
pub proof fn lemma_in_order_each(text: Seq<char>, from: int, spans: Seq<(usize, usize)>)
    requires
        in_order(text, from, spans),
    ensures
        forall|i: int|
            0 <= i < spans.len() ==> span_ok(
                text,
                (#[trigger] spans[i]).0 as int,
                spans[i].1 as int,
            ),
    decreases spans.len(),
{
    if spans.len() > 0 {
        lemma_in_order_each(text, spans[0].1 as int, spans.drop_first());
        assert forall|i: int| 0 <= i < spans.len() implies span_ok(
            text,
            (#[trigger] spans[i]).0 as int,
            spans[i].1 as int,
        ) by {
            if i > 0 {
                assert(spans[i] == spans.drop_first()[i - 1]);
            }
        }
    }
}

/// The text of each of `spans`.
pub fn matched_texts(text: &str, spans: &Vec<(usize, usize)>) -> (r: Vec<String>)
    requires
        in_order(text@, 0, spans@),
    ensures
        views(r@) == texts_of(text@, spans@),
        r@.len() == spans@.len(),
{
    let mut out: Vec<String> = Vec::new();
    let mut i: usize = 0;
    proof {
        lemma_in_order_each(text@, 0, spans@);
    }
    while i < spans.len()
        invariant
            i <= spans.len(),
            out@.len() == i,
            forall|k: int|
                0 <= k < spans@.len() ==> span_ok(
                    text@,
                    (#[trigger] spans@[k]).0 as int,
                    spans@[k].1 as int,
                ),
            forall|k: int|
                0 <= k < i ==> (#[trigger] out@[k])@ == piece(
                    text@,
                    spans@[k].0 as int,
                    spans@[k].1 as int,
                ),
        decreases spans.len() - i,
    {
        let (s, e) = spans[i];
        out.push(slice(text, s, e).to_owned());
        i += 1;
    }
    proof {
        assert(views(out@) =~= texts_of(text@, spans@));
    }
    out
}

/// Where a walk goes on after an empty match at byte offset `i` inside
/// `text`.
pub fn step(text: &str, i: usize) -> (r: usize)
    requires
        i < utf8(text@).len(),
    ensures
        r == step_over(text@, i as int),
        i < r <= utf8(text@).len(),
        boundary(text@, r as int),
{
    let len = byte_len(text);
    let mut j: usize = i + 1;
    proof {
        lemma_boundary_from(text@, i + 1);
    }
    while j < len && !at_boundary(text, j)
        invariant
            i < j <= len,
            len == utf8(text@).len(),
            boundary_from(text@, j as int) == boundary_from(text@, i + 1),
        decreases len - j,
    {
        j += 1;
    }
    j
}

/// `text` with each of `spans` replaced by the entry of `with` at the same
/// index.
pub fn splice(text: &str, spans: &Vec<(usize, usize)>, with: &Vec<String>) -> (r: String)
    requires
        in_order(text@, 0, spans@),
        with.len() == spans.len(),
    ensures
        r@ == spliced(text@, 0, spans@, views(with@)),
{
    let mut out = String::new();
    let mut last: usize = 0;
    let mut i: usize = 0;
    proof {
        assert(spans@.skip(0) =~= spans@);
        assert(views(with@).skip(0) =~= views(with@));
        assert(out@ + spliced(text@, 0, spans@, views(with@)) =~= spliced(
            text@,
            0,
            spans@,
            views(with@),
        ));
    }
    while i < spans.len()
        invariant
            i <= spans.len(),
            with.len() == spans.len(),
            in_order(text@, last as int, spans@.skip(i as int)),
            out@ + spliced(text@, last as int, spans@.skip(i as int), views(with@).skip(i as int))
                == spliced(text@, 0, spans@, views(with@)),
        decreases spans.len() - i,
    {
        let (s, e) = spans[i];
        let ghost rest = spans@.skip(i as int);
        let ghost rest_with = views(with@).skip(i as int);
        let ghost before = out@;
        proof {
            assert(rest[0] == spans@[i as int]);
            assert(rest.drop_first() =~= spans@.skip(i + 1));
            assert(rest_with.drop_first() =~= views(with@).skip(i + 1));
            assert(rest_with[0] == with@[i as int]@);
        }
        out.append(slice(text, last, s));
        out.append(with[i].as_str());
        proof {
            assert(out@ + spliced(
                text@,
                e as int,
                spans@.skip(i + 1),
                views(with@).skip(i + 1),
            ) =~= before + spliced(text@, last as int, rest, rest_with));
        }
        last = e;
        i += 1;
    }
    proof {
        lemma_piece_whole(text@);
        assert(spans@.skip(i as int).len() == 0);
    }
    let ghost before = out@;
    out.append(slice(text, last, byte_len(text)));
    out
}

/// A way to rewrite the text of a match.
pub trait Rewriter {
    /// What the matched text is rewritten to.
    spec fn rewritten(&self, matched: Seq<char>) -> Seq<char>;

    /// Rewrites the text of one match.
    fn rewrite(&self, matched: &str) -> (r: String)
        ensures
            r@ == self.rewritten(matched@),
    ;
}

/// The text of each of `spans`, rewritten by `f`.
pub open spec fn texts_rewritten(
    text: Seq<char>,
    spans: Seq<(usize, usize)>,
    f: spec_fn(Seq<char>) -> Seq<char>,
) -> Seq<Seq<char>> {
    Seq::new(spans.len(), |i: int| f(piece(text, spans[i].0 as int, spans[i].1 as int)))
}

/// `text` with the text of every match of `pattern` rewritten by `f`.
pub open spec fn each_rewritten(
    pattern: (Seq<char>, bool),
    text: Seq<char>,
    f: spec_fn(Seq<char>) -> Seq<char>,
) -> Seq<char> {
    let spans = all_spans(pattern, text);
    spliced(text, 0, spans, texts_rewritten(text, spans, f))
}

/// Two ways of rewriting that agree on every text give the same result.
pub proof fn lemma_each_rewritten_same(
    pattern: (Seq<char>, bool),
    text: Seq<char>,
    f: spec_fn(Seq<char>) -> Seq<char>,
    g: spec_fn(Seq<char>) -> Seq<char>,
)
    requires
        forall|m: Seq<char>| #[trigger] f(m) == g(m),
    ensures
        each_rewritten(pattern, text, f) == each_rewritten(pattern, text, g),
{
    let spans = all_spans(pattern, text);
    assert(texts_rewritten(text, spans, f) =~= texts_rewritten(text, spans, g));
}

/// Putting replacements in brings in no character that neither the text nor
/// a replacement holds.
pub proof fn lemma_spliced_free(
    text: Seq<char>,
    from: int,
    spans: Seq<(usize, usize)>,
    with: Seq<Seq<char>>,
    c: char,
)
    requires
        in_order(text, from, spans),
        with.len() == spans.len(),
        !text.contains(c),
        forall|i: int| 0 <= i < with.len() ==> !(#[trigger] with[i]).contains(c),
    ensures
        !spliced(text, from, spans, with).contains(c),
    decreases spans.len(),
{
    lemma_piece_whole(text);
    if spans.len() == 0 {
        lemma_piece_free(text, from, utf8(text).len() as int, c);
    } else {
        lemma_piece_free(text, from, spans[0].0 as int, c);
        assert forall|i: int| 0 <= i < with.drop_first().len() implies !(
        #[trigger] with.drop_first()[i]).contains(c) by {
            assert(with.drop_first()[i] == with[i + 1]);
        }
        lemma_spliced_free(text, spans[0].1 as int, spans.drop_first(), with.drop_first(), c);
        lemma_concat_free(piece(text, from, spans[0].0 as int), with[0], c);
        lemma_concat_free(
            piece(text, from, spans[0].0 as int) + with[0],
            spliced(text, spans[0].1 as int, spans.drop_first(), with.drop_first()),
            c,
        );
    }
}

/// The text of a match holds no character that the text does not hold.
pub proof fn lemma_texts_of_free(text: Seq<char>, spans: Seq<(usize, usize)>, c: char)
    requires
        in_order(text, 0, spans),
        !text.contains(c),
    ensures
        forall|i: int|
            0 <= i < spans.len() ==> !(#[trigger] texts_of(text, spans)[i]).contains(c),
{
    lemma_in_order_each(text, 0, spans);
    assert forall|i: int| 0 <= i < spans.len() implies !(#[trigger] texts_of(
        text,
        spans,
    )[i]).contains(c) by {
        assert(span_ok(text, spans[i].0 as int, spans[i].1 as int));
        lemma_piece_free(text, spans[i].0 as int, spans[i].1 as int, c);
    }
}

/// The ranges of all matches are ranges of whole characters, in order and
/// without overlap.
pub proof fn lemma_all_spans_in_order(pattern: (Seq<char>, bool), text: Seq<char>)
    ensures
        in_order(text, 0, all_spans(pattern, text)),
{
    lemma_piece_whole(text);
    lemma_scan(pattern, text, 0, None);
}

/// Rewriting matches brings in no character that the text does not hold, if
/// the way of rewriting brings none in.
pub proof fn lemma_each_rewritten_free(
    pattern: (Seq<char>, bool),
    text: Seq<char>,
    f: spec_fn(Seq<char>) -> Seq<char>,
    c: char,
)
    requires
        !text.contains(c),
        forall|m: Seq<char>| !m.contains(c) ==> !(#[trigger] f(m)).contains(c),
    ensures
        !each_rewritten(pattern, text, f).contains(c),
{
    let spans = all_spans(pattern, text);
    lemma_all_spans_in_order(pattern, text);
    lemma_texts_of_free(text, spans, c);
    let with = texts_rewritten(text, spans, f);
    assert forall|i: int| 0 <= i < with.len() implies !(#[trigger] with[i]).contains(c) by {
        assert(texts_of(text, spans)[i] == piece(text, spans[i].0 as int, spans[i].1 as int));
    }
    lemma_spliced_free(text, 0, spans, with, c);
}

/// The option of a byte offset as an option of an integer.
pub open spec fn as_int(offset: Option<usize>) -> Option<int> {
    match offset {
        Some(x) => Some(x as int),
        None => None,
    }
}

impl Pattern {
    /// The pattern text and the ignore-case option that this was compiled
    /// from.
    pub closed spec fn pattern(&self) -> (Seq<char>, bool) {
        regex_origin(self.raw)
    }

    /// Compiles `source`. It fails exactly when the engine refuses the
    /// pattern, and then hands on the engine's error.
    pub fn new(source: &str, ignore_case: bool) -> (r: Result<Pattern, RegexError>)
        ensures
            r is Ok == regex_compiles(source@, ignore_case),
            r is Ok ==> r->Ok_0.pattern() == (source@, ignore_case),
    {
        match compile(source, ignore_case) {
            Ok(raw) => Ok(Pattern { raw }),
            Err(e) => Err(RegexError { code: e.code(), description: e.description().to_owned() }),
        }
    }

    /// One search from byte offset `from`: the capture groups of the leftmost
    /// match at or after `from` whose range can be cut out of `text`.
    pub fn search_at(&self, text: &str, from: usize) -> (r: Option<Vec<Option<(usize, usize)>>>)
        ensures
            r is Some == search_from(self.pattern(), text@, from as int) is Some,
            r is Some ==> r->0@ == search_from(self.pattern(), text@, from as int)->0,
    {
        if from > byte_len(text) {
            return None;
        }
        match search(&self.raw, text, from) {
            None => None,
            Some(groups) => {
                if groups.len() == 0 {
                    return None;
                }
                match groups[0] {
                    None => None,
                    Some((s, e)) => {
                        if from <= s && s <= e && at_boundary(text, s) && at_boundary(text, e) {
                            Some(groups)
                        } else {
                            None
                        }
                    },
                }
            },
        }
    }

    /// The capture groups of every match in `text`, left to right and without
    /// overlap.
    pub fn captures_iter(&self, text: &str) -> (r: Vec<Vec<Option<(usize, usize)>>>)
        ensures
            group_views(r@) == all_matches(self.pattern(), text@),
            in_order(text@, 0, spans_of(group_views(r@))),
            forall|i: int| 0 <= i < r@.len() ==> usable(text@, 0, #[trigger] r@[i]@),
    {
        let len = byte_len(text);
        let mut out: Vec<Vec<Option<(usize, usize)>>> = Vec::new();
        let mut last_end: usize = 0;
        let mut last_match_end: Option<usize> = None;
        proof {
            assert(group_views(out@) =~= Seq::<Groups>::empty());
        }
        loop
            invariant
                len == utf8(text@).len(),
                last_end <= len,
                group_views(out@) + scan(
                    self.pattern(),
                    text@,
                    last_end as int,
                    as_int(last_match_end),
                ) == all_matches(self.pattern(), text@),
            ensures
                group_views(out@) == all_matches(self.pattern(), text@),
            decreases len + 1 - last_end, (if as_int(last_match_end) == Some(last_end as int) {
                0int
            } else {
                1int
            }),
        {
            let ghost walk = scan(self.pattern(), text@, last_end as int, as_int(last_match_end));
            let ghost before = out@;
            match self.search_at(text, last_end) {
                None => {
                    proof {
                        assert(group_views(out@) + walk =~= group_views(out@));
                    }
                    break ;
                },
                Some(groups) => {
                    let (s, e) = groups[0].unwrap();
                    let skip = s == e && match last_match_end {
                        Some(l) => l == e,
                        None => false,
                    };
                    if skip {
                        if last_end >= len {
                            proof {
                                assert(step_over(text@, last_end as int) == len + 1);
                                assert(scan(
                                    self.pattern(),
                                    text@,
                                    len + 1,
                                    as_int(last_match_end),
                                ).len() == 0);
                                assert(walk.len() == 0);
                                assert(group_views(out@) + walk =~= group_views(out@));
                            }
                            break ;
                        }
                        last_end = step(text, last_end);
                    } else {
                        let ghost found = groups@;
                        out.push(groups);
                        proof {
                            assert(group_views(out@) =~= group_views(before).push(found));
                            assert(walk == seq![found] + scan(
                                self.pattern(),
                                text@,
                                e as int,
                                Some(e as int),
                            ));
                            assert(group_views(out@) + scan(
                                self.pattern(),
                                text@,
                                e as int,
                                Some(e as int),
                            ) =~= group_views(before) + walk);
                        }
                        last_end = e;
                        last_match_end = Some(e);
                    }
                },
            }
        }
        proof {
            lemma_piece_whole(text@);
            lemma_scan(self.pattern(), text@, 0, None);
            assert forall|i: int| 0 <= i < out@.len() implies usable(
                text@,
                0,
                #[trigger] out@[i]@,
            ) by {
                assert(group_views(out@)[i] == out@[i]@);
            }
        }
        out
    }

    /// The byte range of every match in `text`, left to right and without
    /// overlap.
    pub fn find_iter(&self, text: &str) -> (r: Vec<(usize, usize)>)
        ensures
            r@ == all_spans(self.pattern(), text@),
            in_order(text@, 0, r@),
    {
        let found = self.captures_iter(text);
        let mut out: Vec<(usize, usize)> = Vec::new();
        let mut i: usize = 0;
        proof {
            lemma_piece_whole(text@);
            lemma_scan(self.pattern(), text@, 0, None);
        }
        while i < found.len()
            invariant
                i <= found.len(),
                group_views(found@) == all_matches(self.pattern(), text@),
                forall|k: int|
                    0 <= k < found.len() ==> usable(text@, 0, #[trigger] group_views(found@)[k]),
                out@ == all_spans(self.pattern(), text@).take(i as int),
            decreases found.len() - i,
        {
            proof {
                assert(usable(text@, 0, group_views(found@)[i as int]));
            }
            let span = found[i][0].unwrap();
            out.push(span);
            proof {
                assert(out@ =~= all_spans(self.pattern(), text@).take(i + 1));
            }
            i += 1;
        }
        proof {
            assert(out@ =~= all_spans(self.pattern(), text@));
        }
        out
    }

    /// The byte range of the first match in `text`.
    pub fn find(&self, text: &str) -> (r: Option<(usize, usize)>)
        ensures
            r == first_span(self.pattern(), text@),
            match r {
                Some(span) => span_ok(text@, span.0 as int, span.1 as int),
                None => true,
            },
    {
        match self.search_at(text, 0) {
            Some(groups) => groups[0],
            None => None,
        }
    }

    /// `text` with the text of every match rewritten by `how`.
    pub fn replace_all_with<R: Rewriter>(&self, text: &str, how: &R) -> (r: String)
        ensures
            r@ == each_rewritten(self.pattern(), text@, |m: Seq<char>| how.rewritten(m)),
    {
        let spans = self.find_iter(text);
        let texts = matched_texts(text, &spans);
        let mut with: Vec<String> = Vec::new();
        let mut i: usize = 0;
        let ghost f = |m: Seq<char>| how.rewritten(m);
        while i < texts.len()
            invariant
                i <= texts.len(),
                texts@.len() == spans@.len(),
                with@.len() == i,
                views(texts@) == texts_of(text@, spans@),
                f == |m: Seq<char>| how.rewritten(m),
                forall|k: int|
                    0 <= k < i ==> (#[trigger] with@[k])@ == f(
                        piece(text@, spans@[k].0 as int, spans@[k].1 as int),
                    ),
            decreases texts.len() - i,
        {
            proof {
                assert(views(texts@)[i as int] == texts@[i as int]@);
            }
            with.push(how.rewrite(texts[i].as_str()));
            i += 1;
        }
        proof {
            assert(views(with@) =~= texts_rewritten(text@, spans@, f));
        }
        splice(text, &spans, &with)
    }
}

} // verus!
