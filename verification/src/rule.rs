//! A rule: a pattern and what each of its matches is replaced by.
use vstd::prelude::*;
use vstd::string::*;
use crate::regex::{
    all_matches, group_views, lemma_all_spans_in_order, lemma_spliced_free, regex_compiles, splice,
    spans_of, spliced, usable, Groups, Pattern, RegexError,
};
use crate::text::{
    at_boundary, digit_value, is_digit, lemma_concat_free, lemma_piece_free, piece, slice, span_ok,
    to_chars, views,
};

verus! {

/// What capture group `k` of a match holds: the text of its range, or nothing
/// when the match has no such group, the group took no part in it, or its
/// range cannot be cut out of `text`.
pub open spec fn group_text(text: Seq<char>, groups: Groups, k: int) -> Seq<char> {
    if 0 <= k < groups.len() && groups[k] is Some {
        let span = groups[k]->0;
        if span_ok(text, span.0 as int, span.1 as int) {
            piece(text, span.0 as int, span.1 as int)
        } else {
            Seq::empty()
        }
    } else {
        Seq::empty()
    }
}

/// The replacement that `template` stands for at one match. A backslash and
/// a digit stand for what the capture group of that number holds, a
/// backslash and the letter `r` for a carriage return; every other character
/// stands for itself.
pub open spec fn expanded(template: Seq<char>, text: Seq<char>, groups: Groups) -> Seq<char>
    decreases template.len(),
{
    if template.len() == 0 {
        template
    } else if template[0] == '\\' && template.len() >= 2 && is_digit(template[1]) {
        group_text(text, groups, digit_value(template[1])) + expanded(
            template.skip(2),
            text,
            groups,
        )
    } else if template[0] == '\\' && template.len() >= 2 && template[1] == 'r' {
        seq!['\r'] + expanded(template.skip(2), text, groups)
    } else {
        seq![template[0]] + expanded(template.skip(1), text, groups)
    }
}

/// The replacement for each of `matches`.
pub open spec fn expansions(template: Seq<char>, text: Seq<char>, matches: Seq<Groups>) -> Seq<
    Seq<char>,
> {
    Seq::new(matches.len(), |i: int| expanded(template, text, matches[i]))
}

/// `text` with every match of `pattern` replaced by what `template` stands
/// for at that match.
pub open spec fn rule_applied(pattern: (Seq<char>, bool), template: Seq<char>, text: Seq<char>) -> Seq<
    char,
> {
    let matches = all_matches(pattern, text);
    spliced(text, 0, spans_of(matches), expansions(template, text, matches))
}

/// Whether what `template` stands for holds the character `c` only where a
/// capture group brings it in: `c` is no character of the template itself,
/// and is no carriage return where the template stands for one.
pub open spec fn template_free(template: Seq<char>, c: char) -> bool
    decreases template.len(),
{
    if template.len() == 0 {
        true
    } else if template[0] == '\\' && template.len() >= 2 && is_digit(template[1]) {
        template_free(template.skip(2), c)
    } else if template[0] == '\\' && template.len() >= 2 && template[1] == 'r' {
        c != '\r' && template_free(template.skip(2), c)
    } else {
        template[0] != c && template_free(template.skip(1), c)
    }
}

/// Whether `template` neither holds `c` nor, where `c` is the carriage
/// return, stands for one anywhere.
pub open spec fn brings_no(template: Seq<char>, c: char) -> bool {
    &&& !template.contains(c)
    &&& c == '\r' ==> forall|i: int|
        0 <= i < template.len() - 1 && #[trigger] template[i] == '\\' ==> template[i + 1] != 'r'
}

/// What a template that brings no `c` stands for holds `c` only where a
/// capture group brings it in.
pub proof fn lemma_template_free(template: Seq<char>, c: char)
    requires
        brings_no(template, c),
    ensures
        template_free(template, c),
    decreases template.len(),
{
    if template.len() == 0 {
    } else {
        assert(template.contains(template[0]));
        let n: int = if template[0] == '\\' && template.len() >= 2 && (is_digit(template[1])
            || template[1] == 'r') {
            2
        } else {
            1
        };
        let rest = template.skip(n);
        assert forall|i: int| 0 <= i < rest.len() implies rest[i] != c by {
            assert(template.contains(template[i + n]));
        }
        if c == '\r' {
            assert forall|i: int| 0 <= i < rest.len() - 1 && #[trigger] rest[i] == '\\' implies rest[i
                + 1] != 'r' by {
                assert(template[i + n] == '\\');
            }
            if n == 2 {
                assert(template[0] == '\\');
            }
        }
        lemma_template_free(rest, c);
    }
}

/// A replacement holds no character that neither its template nor the text
/// brings in.
pub proof fn lemma_expanded_free(template: Seq<char>, text: Seq<char>, groups: Groups, c: char)
    requires
        template_free(template, c),
        !text.contains(c),
    ensures
        !expanded(template, text, groups).contains(c),
    decreases template.len(),
{
    if template.len() == 0 {
    } else if template[0] == '\\' && template.len() >= 2 && is_digit(template[1]) {
        let k = digit_value(template[1]);
        let held = group_text(text, groups, k);
        if 0 <= k < groups.len() && groups[k] is Some {
            let span = groups[k]->0;
            if span_ok(text, span.0 as int, span.1 as int) {
                lemma_piece_free(text, span.0 as int, span.1 as int, c);
            }
        }
        lemma_expanded_free(template.skip(2), text, groups, c);
        lemma_concat_free(held, expanded(template.skip(2), text, groups), c);
    } else if template[0] == '\\' && template.len() >= 2 && template[1] == 'r' {
        lemma_expanded_free(template.skip(2), text, groups, c);
        lemma_concat_free(seq!['\r'], expanded(template.skip(2), text, groups), c);
    } else {
        lemma_expanded_free(template.skip(1), text, groups, c);
        lemma_concat_free(seq![template[0]], expanded(template.skip(1), text, groups), c);
    }
}

/// A rule brings in no character that neither its template nor the text
/// holds.
pub proof fn lemma_rule_applied_free(
    pattern: (Seq<char>, bool),
    template: Seq<char>,
    text: Seq<char>,
    c: char,
)
    requires
        template_free(template, c),
        !text.contains(c),
    ensures
        !rule_applied(pattern, template, text).contains(c),
{
    let matches = all_matches(pattern, text);
    lemma_all_spans_in_order(pattern, text);
    let with = expansions(template, text, matches);
    assert forall|i: int| 0 <= i < with.len() implies !(#[trigger] with[i]).contains(c) by {
        lemma_expanded_free(template, text, matches[i], c);
    }
    lemma_spliced_free(text, 0, spans_of(matches), with, c);
}

/// What capture group `k` of a match holds.
pub fn group_slice<'a>(text: &'a str, groups: &Vec<Option<(usize, usize)>>, k: usize) -> (r: &'a str)
    ensures
        r@ == group_text(text@, groups@, k as int),
{
    if k < groups.len() {
        match groups[k] {
            Some((a, b)) => {
                if a <= b && at_boundary(text, a) && at_boundary(text, b) {
                    return slice(text, a, b);
                }
            },
            None => {},
        }
    }
    let r = "";
    proof {
        reveal_strlit("");
        assert(r@ =~= Seq::<char>::empty());
    }
    r
}

/// The replacement that `template` stands for at the match `groups`.
pub fn expand(template: &Vec<char>, text: &str, groups: &Vec<Option<(usize, usize)>>) -> (r: String)
    ensures
        r@ == expanded(template@, text@, groups@),
{
    let mut out = String::new();
    let mut i: usize = 0;
    proof {
        assert(template@.skip(0) =~= template@);
        assert(out@ + expanded(template@, text@, groups@) =~= expanded(
            template@,
            text@,
            groups@,
        ));
    }
    while i < template.len()
        invariant
            i <= template.len(),
            out@ + expanded(template@.skip(i as int), text@, groups@) == expanded(
                template@,
                text@,
                groups@,
            ),
        decreases template.len() - i,
    {
        let c = template[i];
        let ghost rest = template@.skip(i as int);
        let ghost before = out@;
        proof {
            assert(rest[0] == c);
            assert(rest.skip(1) =~= template@.skip(i + 1));
            if i + 1 < template.len() {
                assert(rest[1] == template@[i + 1]);
                assert(rest.skip(2) =~= template@.skip(i + 2));
            }
        }
        if c == '\\' && i + 1 < template.len() && '0' <= template[i + 1] && template[i + 1]
            <= '9' {
            let k = (template[i + 1] as u32 - 0x30) as usize;
            out.append(group_slice(text, groups, k));
            proof {
                assert(out@ + expanded(template@.skip(i + 2), text@, groups@) =~= before
                    + expanded(rest, text@, groups@));
            }
            i += 2;
        } else if c == '\\' && i + 1 < template.len() && template[i + 1] == 'r' {
            out.push('\r');
            proof {
                assert(out@ + expanded(template@.skip(i + 2), text@, groups@) =~= before
                    + expanded(rest, text@, groups@));
            }
            i += 2;
        } else {
            out.push(c);
            proof {
                assert(out@ + expanded(template@.skip(i + 1), text@, groups@) =~= before
                    + expanded(rest, text@, groups@));
            }
            i += 1;
        }
    }
    proof {
        assert(out@ + expanded(template@.skip(i as int), text@, groups@) =~= out@);
    }
    out
}

/// A compiled pattern together with the template of its replacement.
pub struct Rule {
    pattern: Pattern,
    template: Vec<char>,
}

impl Rule {
    /// The pattern text and the ignore-case option of the rule.
    pub closed spec fn pattern(&self) -> (Seq<char>, bool) {
        self.pattern.pattern()
    }

    /// The template of the rule's replacement.
    pub closed spec fn template(&self) -> Seq<char> {
        self.template@
    }

    /// A rule that replaces what `regex` matches by what `replace` stands
    /// for. It fails exactly when the engine refuses the pattern.
    pub fn new(regex: &str, replace: &str) -> (r: Result<Rule, RegexError>)
        ensures
            r is Ok == regex_compiles(regex@, false),
            r is Ok ==> r->Ok_0.pattern() == (regex@, false) && r->Ok_0.template() == replace@,
    {
        match Pattern::new(regex, false) {
            Ok(pattern) => Ok(Rule { pattern, template: to_chars(replace) }),
            Err(e) => Err(e),
        }
    }

    /// `text` with every match of the rule's pattern replaced, the matches
    /// taken left to right and without overlap.
    pub fn replace_all(&self, text: &str) -> (r: String)
        ensures
            r@ == rule_applied(self.pattern(), self.template(), text@),
    {
        let found = self.pattern.captures_iter(text);
        let mut spans: Vec<(usize, usize)> = Vec::new();
        let mut with: Vec<String> = Vec::new();
        let mut i: usize = 0;
        let ghost matches = all_matches(self.pattern(), text@);
        while i < found.len()
            invariant
                i <= found.len(),
                matches == all_matches(self.pattern(), text@),
                group_views(found@) == matches,
                forall|k: int| 0 <= k < found@.len() ==> usable(text@, 0, #[trigger] found@[k]@),
                spans@ == spans_of(matches).take(i as int),
                views(with@) == expansions(self.template(), text@, matches).take(i as int),
                with@.len() == i,
            decreases found.len() - i,
        {
            proof {
                assert(usable(text@, 0, found@[i as int]@));
                assert(matches[i as int] == found@[i as int]@);
            }
            let ghost before = with@;
            spans.push(found[i][0].unwrap());
            with.push(expand(&self.template, text, &found[i]));
            proof {
                assert(spans@ =~= spans_of(matches).take(i + 1));
                assert(views(with@) =~= expansions(self.template(), text@, matches).take(i + 1))
                    by {
                    assert forall|k: int| 0 <= k < i + 1 implies views(with@)[k] == expansions(
                        self.template(),
                        text@,
                        matches,
                    )[k] by {
                        if k < i {
                            assert(views(with@)[k] == views(before)[k]);
                        }
                    }
                }
            }
            i += 1;
        }
        proof {
            assert(spans@ =~= spans_of(matches));
            assert(views(with@) =~= expansions(self.template(), text@, matches));
        }
        splice(text, &spans, &with)
    }
}

} // verus!
