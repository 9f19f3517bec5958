//! Text as Verus sees it: a `str` is modelled by its sequence of characters,
//! while positions inside it are byte offsets into its UTF-8 encoding, which is
//! what the regular-expression engine reports.
use vstd::prelude::*;
use vstd::std_specs::iter::IteratorSpec;
use vstd::string::*;
use vstd::utf8::*;

verus! {

/// The UTF-8 encoding of `text`.
pub open spec fn utf8(text: Seq<char>) -> Seq<u8> {
    encode_utf8(text)
}

/// Whether byte offset `i` lies between two characters of `text`, or at one of
/// its ends.
pub open spec fn boundary(text: Seq<char>, i: int) -> bool {
    0 <= i <= utf8(text).len() && is_char_boundary(utf8(text), i)
}

/// Whether `a..b` is a range of whole characters of `text`.
pub open spec fn span_ok(text: Seq<char>, a: int, b: int) -> bool {
    a <= b && boundary(text, a) && boundary(text, b)
}

/// The characters of `text` between byte offsets `a` and `b`.
pub open spec fn piece(text: Seq<char>, a: int, b: int) -> Seq<char> {
    decode_utf8(utf8(text).subrange(a, b))
}

/// The characters of `text` from byte offset `a` on.
pub open spec fn tail(text: Seq<char>, a: int) -> Seq<char> {
    piece(text, a, utf8(text).len() as int)
}

/// A boundary of `text` that lies at or before boundary `b` is a boundary of
/// the bytes up to `b`, and the other way round.
pub proof fn lemma_boundary_prefix(text: Seq<char>, a: int, b: int)
    requires
        boundary(text, b),
        0 <= a <= b,
    ensures
        valid_utf8(utf8(text).subrange(0, b)),
        is_char_boundary(utf8(text).subrange(0, b), a) == boundary(text, a),
{
    let bytes = utf8(text);
    let head = bytes.subrange(0, b);
    encode_utf8_valid_utf8(text);
    valid_utf8_split(bytes, b);
    if a == 0 {
        is_char_boundary_start_end_of_seq(head);
        is_char_boundary_start_end_of_seq(bytes);
    } else if a == b {
        is_char_boundary_start_end_of_seq(head);
    } else {
        is_char_boundary_iff_not_is_continuation_byte(head, a);
        is_char_boundary_iff_not_is_continuation_byte(bytes, a);
    }
}

/// Cutting `text` at a boundary loses nothing.
pub proof fn lemma_piece_split(text: Seq<char>, a: int, m: int, b: int)
    requires
        span_ok(text, a, m),
        span_ok(text, m, b),
    ensures
        piece(text, a, b) == piece(text, a, m) + piece(text, m, b),
{
    let bytes = utf8(text);
    let len = bytes.len() as int;
    lemma_boundary_prefix(text, a, b);
    let head = bytes.subrange(0, b);
    // within head, a and m are boundaries
    lemma_boundary_prefix(text, m, b);
    assert(is_char_boundary(head, a));
    assert(is_char_boundary(head, m));
    valid_utf8_split(head, a);
    let mid = head.subrange(a, b);
    assert(mid =~= bytes.subrange(a, b));
    // m - a is a boundary of mid
    if m == a {
        is_char_boundary_start_end_of_seq(mid);
    } else if m == b {
        is_char_boundary_start_end_of_seq(mid);
    } else {
        is_char_boundary_iff_not_is_continuation_byte(mid, m - a);
        is_char_boundary_iff_not_is_continuation_byte(head, m);
    }
    decode_utf8_split(mid, m - a);
    assert(mid.subrange(0, m - a) =~= bytes.subrange(a, m));
    assert(mid.subrange(m - a, mid.len() as int) =~= bytes.subrange(m, b));
}

/// The whole of `text` is the piece between its two ends.
pub proof fn lemma_piece_whole(text: Seq<char>)
    ensures
        piece(text, 0, utf8(text).len() as int) == text,
        boundary(text, 0),
        boundary(text, utf8(text).len() as int),
{
    let bytes = utf8(text);
    assert(bytes.subrange(0, bytes.len() as int) =~= bytes);
    encode_utf8_decode_utf8(text);
    encode_utf8_valid_utf8(text);
    is_char_boundary_start_end_of_seq(bytes);
}

/// The length of `text` in bytes.
pub fn byte_len(text: &str) -> (r: usize)
    ensures
        r == utf8(text@).len(),
{
    text.as_bytes().len()
}

/// Whether byte offset `i` is a character boundary of `text`.
pub fn at_boundary(text: &str, i: usize) -> (r: bool)
    ensures
        r == boundary(text@, i as int),
{
    proof {
        encode_utf8_valid_utf8(text@);
    }
    text.is_char_boundary(i)
}

/// The part of `text` between byte offsets `a` and `b`.
pub fn slice<'a>(text: &'a str, a: usize, b: usize) -> (r: &'a str)
    requires
        span_ok(text@, a as int, b as int),
    ensures
        r@ == piece(text@, a as int, b as int),
{
    let (head, _) = text.split_at(b);
    proof {
        lemma_boundary_prefix(text@, a as int, b as int);
        assert(head.spec_bytes() == utf8(text@).subrange(0, b as int));
    }
    let (_, mid) = head.split_at(a);
    proof {
        assert(mid.spec_bytes() =~= utf8(text@).subrange(a as int, b as int));
        encode_utf8_decode_utf8(mid@);
    }
    mid
}

/// The characters of `text`, one by one.
pub fn to_chars(text: &str) -> (r: Vec<char>)
    ensures
        r@ == text@,
{
    let mut out: Vec<char> = Vec::new();
    let mut it = text.chars();
    proof {
        broadcast use vstd::string::group_string_axioms;

    }
    loop
        invariant
            it.obeys_prophetic_iter_laws(),
            it.decrease() is Some,
            out@ + it.remaining() == text@,
        ensures
            out@ == text@,
        decreases it.decrease()->0,
    {
        proof {
            broadcast use vstd::string::group_string_axioms;

        }
        let ghost before = it.remaining();
        let ghost seen = out@;
        match it.next() {
            Some(c) => {
                out.push(c);
                assert(out@ + it.remaining() =~= seen + before);
            },
            None => {
                assert(out@ + it.remaining() =~= out@);
                break ;
            },
        }
    }
    out
}

/// The views of a vector of strings.
pub open spec fn views(strings: Seq<String>) -> Seq<Seq<char>> {
    Seq::new(strings.len(), |i: int| strings[i]@)
}

/// A vector of strings that grows by one holds one view more.
pub proof fn lemma_views_push(strings: Seq<String>, last: String)
    ensures
        views(strings.push(last)) == views(strings).push(last@),
{
    assert(views(strings.push(last)) =~= views(strings).push(last@));
}

/// `String::push`: the string grows by the one character at its end.
pub assume_specification[ String::push ](s: &mut String, c: char)
    ensures
        final(s)@ == old(s)@.push(c),
;

/// `char::is_whitespace`: whether the character has the Unicode property
/// `White_Space`, a look-up in a table that is named and not spelt out.
pub assume_specification[ char::is_whitespace ](c: char) -> (r: bool)
    ensures
        r == unicode_white_space(c),
;

/// `str::to_lowercase`: the lower-case form of the text by the Unicode
/// tables, a function of the text alone that is named and not spelt out.
#[verifier::external_body]
pub(crate) fn to_lowercase(text: &str) -> (r: String)
    ensures
        r@ == lowercase(text@),
{
    text.to_lowercase()
}

/// The lower-case form of `text` that `str::to_lowercase` gives.
pub uninterp spec fn lowercase(text: Seq<char>) -> Seq<char>;

/// Whether the character has the Unicode property `White_Space`, as
/// `char::is_whitespace` tells.
pub uninterp spec fn unicode_white_space(c: char) -> bool;

/// Whether `text` begins with `prefix`.
pub open spec fn starts_with(text: Seq<char>, prefix: Seq<char>) -> bool {
    prefix.len() <= text.len() && text.take(prefix.len() as int) == prefix
}

/// Whether `needle` occurs in `text`.
pub open spec fn occurs_in(text: Seq<char>, needle: Seq<char>) -> bool {
    exists|i: int| 0 <= i <= text.len() && #[trigger] starts_with(text.skip(i), needle)
}

/// `text` with every occurrence of `from` replaced by `to`, the occurrences
/// taken left to right and without overlap. An empty `from` occurs nowhere.
pub open spec fn replaced(text: Seq<char>, from: Seq<char>, to: Seq<char>) -> Seq<char>
    decreases text.len(),
{
    if text.len() == 0 {
        text
    } else if from.len() > 0 && starts_with(text, from) {
        to + replaced(text.skip(from.len() as int), from, to)
    } else {
        seq![text[0]] + replaced(text.skip(1), from, to)
    }
}

/// What is stripped off the ends of a text.
pub enum Strip {
    /// White space.
    WhiteSpace,
    /// The marks that close a list number: period, square bracket, round
    /// bracket.
    ListMarks,
}

impl Strip {
    /// Whether `c` is stripped.
    pub open spec fn takes(self, c: char) -> bool {
        match self {
            Strip::WhiteSpace => unicode_white_space(c),
            Strip::ListMarks => c == '.' || c == ']' || c == ')',
        }
    }

    /// Whether `c` is stripped.
    pub fn test(&self, c: char) -> (r: bool)
        ensures
            r == self.takes(c),
    {
        match self {
            Strip::WhiteSpace => c.is_whitespace(),
            Strip::ListMarks => c == '.' || c == ']' || c == ')',
        }
    }
}

/// `text` without the characters at its start that `what` takes.
pub open spec fn stripped_start(text: Seq<char>, what: Strip) -> Seq<char>
    decreases text.len(),
{
    if text.len() > 0 && what.takes(text[0]) {
        stripped_start(text.skip(1), what)
    } else {
        text
    }
}

/// `text` without the characters at its end that `what` takes.
pub open spec fn stripped_end(text: Seq<char>, what: Strip) -> Seq<char>
    decreases text.len(),
{
    if text.len() > 0 && what.takes(text.last()) {
        stripped_end(text.drop_last(), what)
    } else {
        text
    }
}

/// `text` without the characters at its two ends that `what` takes.
pub open spec fn stripped(text: Seq<char>, what: Strip) -> Seq<char> {
    stripped_end(stripped_start(text, what), what)
}

/// `text` without the white space at its start.
pub open spec fn trimmed_start(text: Seq<char>) -> Seq<char> {
    stripped_start(text, Strip::WhiteSpace)
}

/// `text` without the white space at its start and at its end.
pub open spec fn trimmed(text: Seq<char>) -> Seq<char> {
    stripped(text, Strip::WhiteSpace)
}

/// Whether `c` is one of the ten decimal digits.
pub open spec fn is_digit(c: char) -> bool {
    '0' <= c <= '9'
}

/// The digit that `c` writes.
pub open spec fn digit_value(c: char) -> int {
    c as u32 - 0x30
}

/// The character that writes the digit `d`.
pub open spec fn digit_char(d: int) -> char {
    if d == 0 {
        '0'
    } else if d == 1 {
        '1'
    } else if d == 2 {
        '2'
    } else if d == 3 {
        '3'
    } else if d == 4 {
        '4'
    } else if d == 5 {
        '5'
    } else if d == 6 {
        '6'
    } else if d == 7 {
        '7'
    } else if d == 8 {
        '8'
    } else {
        '9'
    }
}

/// Whether every character of `text` is a decimal digit.
pub open spec fn all_digits(text: Seq<char>) -> bool {
    forall|i: int| 0 <= i < text.len() ==> is_digit(#[trigger] text[i])
}

/// The number that the digits write in base ten.
pub open spec fn decimal_value(digits: Seq<char>) -> int
    decreases digits.len(),
{
    if digits.len() == 0 {
        0
    } else {
        decimal_value(digits.drop_last()) * 10 + digit_value(digits.last())
    }
}

/// The number that `text` writes: `text` is one decimal digit or more,
/// without a sign, and the number fits in 32 bits with a sign.
pub open spec fn number_of(text: Seq<char>) -> Option<int> {
    if text.len() > 0 && all_digits(text) && decimal_value(text) <= i32::MAX {
        Some(decimal_value(text))
    } else {
        None
    }
}

/// The digits that write `n` in base ten.
pub open spec fn decimal_digits(n: nat) -> Seq<char>
    decreases n,
{
    if n < 10 {
        seq![digit_char(n as int)]
    } else {
        decimal_digits(n / 10).push(digit_char((n % 10) as int))
    }
}

/// The index of the first `sep` in `text`, or the length of `text` when it
/// holds none.
pub open spec fn first_index_of(text: Seq<char>, sep: char) -> int
    decreases text.len(),
{
    if text.len() == 0 || text[0] == sep {
        0
    } else {
        1 + first_index_of(text.skip(1), sep)
    }
}

/// The parts of `text` between occurrences of `sep`, the empty ones left out.
pub open spec fn fragments(text: Seq<char>, sep: char) -> Seq<Seq<char>>
    decreases text.len(),
{
    if text.len() == 0 {
        Seq::empty()
    } else if text[0] == sep {
        fragments(text.skip(1), sep)
    } else {
        let k = first_index_of(text, sep);
        if 0 < k <= text.len() {
            seq![text.take(k)] + fragments(text.skip(k), sep)
        } else {
            Seq::empty()
        }
    }
}

/// The first `sep` lies inside the text, and nothing before it is `sep`.
pub proof fn lemma_first_index_of(text: Seq<char>, sep: char)
    ensures
        0 <= first_index_of(text, sep) <= text.len(),
        forall|i: int| 0 <= i < first_index_of(text, sep) ==> text[i] != sep,
        first_index_of(text, sep) < text.len() ==> text[first_index_of(text, sep)] == sep,
    decreases text.len(),
{
    if text.len() == 0 || text[0] == sep {
    } else {
        lemma_first_index_of(text.skip(1), sep);
        let k = first_index_of(text.skip(1), sep);
        assert forall|i: int| 0 <= i < 1 + k implies text[i] != sep by {
            if i > 0 {
                assert(text.skip(1)[i - 1] == text[i]);
            }
        }
        if 1 + k < text.len() {
            assert(text.skip(1)[k] == text[1 + k]);
        }
    }
}

/// The string made of the characters of `chars` from index `a` up to `b`.
pub fn string_of(chars: &Vec<char>, a: usize, b: usize) -> (r: String)
    requires
        a <= b <= chars.len(),
    ensures
        r@ == chars@.subrange(a as int, b as int),
{
    let mut out = String::new();
    let mut i: usize = a;
    while i < b
        invariant
            a <= i <= b <= chars.len(),
            out@ == chars@.subrange(a as int, i as int),
        decreases b - i,
    {
        out.push(chars[i]);
        proof {
            assert(out@ =~= chars@.subrange(a as int, i + 1));
        }
        i += 1;
    }
    proof {
        assert(out@ =~= chars@.subrange(a as int, b as int));
    }
    out
}

/// Whether `prefix` stands in `chars` at index `i`.
pub fn starts_at(chars: &Vec<char>, i: usize, prefix: &Vec<char>) -> (r: bool)
    requires
        i <= chars.len(),
    ensures
        r == starts_with(chars@.skip(i as int), prefix@),
{
    if prefix.len() > chars.len() - i {
        return false;
    }
    let mut k: usize = 0;
    while k < prefix.len()
        invariant
            k <= prefix.len(),
            i <= chars.len(),
            prefix.len() <= chars.len() - i,
            forall|j: int| 0 <= j < k ==> chars@[i + j] == prefix@[j],
        decreases prefix.len() - k,
    {
        if chars[i + k] != prefix[k] {
            proof {
                let taken = chars@.skip(i as int).take(prefix.len() as int);
                assert(taken[k as int] == chars@[i + k]);
            }
            return false;
        }
        k += 1;
    }
    proof {
        assert(chars@.skip(i as int).take(prefix.len() as int) =~= prefix@);
    }
    true
}

/// Whether the two texts are the same.
pub fn same(a: &str, b: &str) -> (r: bool)
    ensures
        r == (a@ == b@),
{
    let x = to_chars(a);
    let y = to_chars(b);
    if x.len() != y.len() {
        return false;
    }
    let r = starts_at(&x, 0, &y);
    proof {
        assert(x@.skip(0) =~= x@);
        assert(x@.take(y@.len() as int) =~= x@);
    }
    r
}

/// `text` with every occurrence of `from` replaced by `to`.
pub fn replace(text: &str, from: &str, to: &str) -> (r: String)
    ensures
        r@ == replaced(text@, from@, to@),
{
    let chars = to_chars(text);
    let pattern = to_chars(from);
    let mut out = String::new();
    let mut i: usize = 0;
    proof {
        assert(chars@.skip(0) =~= chars@);
        assert(out@ + replaced(chars@, from@, to@) =~= replaced(chars@, from@, to@));
    }
    while i < chars.len()
        invariant
            i <= chars.len(),
            chars@ == text@,
            pattern@ == from@,
            out@ + replaced(chars@.skip(i as int), from@, to@) == replaced(text@, from@, to@),
        decreases chars.len() - i,
    {
        let ghost rest = chars@.skip(i as int);
        let ghost before = out@;
        if pattern.len() > 0 && starts_at(&chars, i, &pattern) {
            out.append(to);
            proof {
                assert(rest.skip(from@.len() as int) =~= chars@.skip(i + pattern.len()));
                assert(out@ + replaced(chars@.skip(i + pattern.len()), from@, to@) =~= before
                    + replaced(rest, from@, to@));
            }
            i += pattern.len();
        } else {
            out.push(chars[i]);
            proof {
                assert(rest.skip(1) =~= chars@.skip(i + 1));
                assert(rest[0] == chars@[i as int]);
                assert(out@ + replaced(chars@.skip(i + 1), from@, to@) =~= before + replaced(
                    rest,
                    from@,
                    to@,
                ));
            }
            i += 1;
        }
    }
    proof {
        assert(out@ + replaced(chars@.skip(i as int), from@, to@) =~= out@);
    }
    out
}

/// Whether `needle` occurs in `text`.
pub fn contains(text: &str, needle: &str) -> (r: bool)
    ensures
        r == occurs_in(text@, needle@),
{
    let chars = to_chars(text);
    let pattern = to_chars(needle);
    let mut i: usize = 0;
    while i < chars.len()
        invariant
            i <= chars.len(),
            chars@ == text@,
            pattern@ == needle@,
            forall|j: int| 0 <= j < i ==> !starts_with(#[trigger] text@.skip(j), needle@),
        decreases chars.len() - i,
    {
        if starts_at(&chars, i, &pattern) {
            return true;
        }
        i += 1;
    }
    starts_at(&chars, i, &pattern)
}

/// Whether the character `c` occurs in `text`.
pub fn contains_char(text: &str, c: char) -> (r: bool)
    ensures
        r == text@.contains(c),
{
    let chars = to_chars(text);
    let mut i: usize = 0;
    while i < chars.len()
        invariant
            i <= chars.len(),
            chars@ == text@,
            forall|j: int| 0 <= j < i ==> text@[j] != c,
        decreases chars.len() - i,
    {
        if chars[i] == c {
            return true;
        }
        i += 1;
    }
    false
}

/// The index of the first character of `chars` that `what` does not take.
pub fn strip_start_index(chars: &Vec<char>, what: &Strip) -> (a: usize)
    ensures
        a <= chars.len(),
        chars@.skip(a as int) == stripped_start(chars@, *what),
{
    let mut a: usize = 0;
    proof {
        assert(chars@.skip(0) =~= chars@);
    }
    while a < chars.len() && what.test(chars[a])
        invariant
            a <= chars.len(),
            stripped_start(chars@.skip(a as int), *what) == stripped_start(chars@, *what),
        decreases chars.len() - a,
    {
        proof {
            assert(chars@.skip(a as int)[0] == chars@[a as int]);
            assert(chars@.skip(a as int).skip(1) =~= chars@.skip(a + 1));
        }
        a += 1;
    }
    proof {
        if a < chars.len() {
            assert(chars@.skip(a as int)[0] == chars@[a as int]);
        }
    }
    a
}

/// `text` without the characters at its two ends that `what` takes.
pub fn strip(text: &str, what: &Strip) -> (r: String)
    ensures
        r@ == stripped(text@, *what),
{
    let chars = to_chars(text);
    let a = strip_start_index(&chars, what);
    let mut b: usize = chars.len();
    proof {
        assert(chars@.subrange(a as int, b as int) =~= chars@.skip(a as int));
    }
    while b > a && what.test(chars[b - 1])
        invariant
            a <= b <= chars.len(),
            stripped_end(chars@.subrange(a as int, b as int), *what) == stripped(text@, *what),
        decreases b,
    {
        proof {
            let cur = chars@.subrange(a as int, b as int);
            assert(cur.last() == chars@[b - 1]);
            assert(cur.drop_last() =~= chars@.subrange(a as int, b - 1));
        }
        b -= 1;
    }
    proof {
        let cur = chars@.subrange(a as int, b as int);
        if b > a {
            assert(cur.last() == chars@[b - 1]);
        }
    }
    string_of(&chars, a, b)
}

/// `text` without the white space at its start and at its end.
pub fn trim(text: &str) -> (r: String)
    ensures
        r@ == trimmed(text@),
{
    strip(text, &Strip::WhiteSpace)
}

/// `text` without the white space at its start.
pub fn trim_start(text: &str) -> (r: String)
    ensures
        r@ == trimmed_start(text@),
{
    let chars = to_chars(text);
    let a = strip_start_index(&chars, &Strip::WhiteSpace);
    proof {
        assert(chars@.subrange(a as int, chars@.len() as int) =~= chars@.skip(a as int));
    }
    string_of(&chars, a, chars.len())
}

/// The number written by a run of digits is not negative, and grows with
/// the run.
pub proof fn lemma_decimal_value_grows(digits: Seq<char>, i: int)
    requires
        all_digits(digits),
        0 <= i <= digits.len(),
    ensures
        0 <= decimal_value(digits.take(i)) <= decimal_value(digits),
    decreases digits.len() - i,
{
    lemma_decimal_value_nonnegative(digits.take(i));
    if i == digits.len() {
        assert(digits.take(i) =~= digits);
    } else {
        lemma_decimal_value_grows(digits, i + 1);
        let longer = digits.take(i + 1);
        assert(longer.drop_last() =~= digits.take(i));
        assert(longer.last() == digits[i]);
        assert(is_digit(digits[i]));
    }
}

/// The number written by a run of digits is not negative.
pub proof fn lemma_decimal_value_nonnegative(digits: Seq<char>)
    requires
        all_digits(digits),
    ensures
        0 <= decimal_value(digits),
    decreases digits.len(),
{
    if digits.len() > 0 {
        assert(all_digits(digits.drop_last())) by {
            assert forall|i: int| 0 <= i < digits.drop_last().len() implies is_digit(
                #[trigger] digits.drop_last()[i],
            ) by {
                assert(digits.drop_last()[i] == digits[i]);
            }
        }
        lemma_decimal_value_nonnegative(digits.drop_last());
        assert(is_digit(digits.last()));
    }
}

/// The number that `text` writes, if it writes one.
pub fn parse_number(text: &str) -> (r: Option<i32>)
    ensures
        match r {
            Some(n) => number_of(text@) == Some(n as int),
            None => number_of(text@) is None,
        },
{
    let chars = to_chars(text);
    if chars.len() == 0 {
        return None;
    }
    let mut acc: i64 = 0;
    let mut i: usize = 0;
    proof {
        assert(chars@.take(0) =~= Seq::<char>::empty());
    }
    while i < chars.len()
        invariant
            i <= chars.len(),
            chars@ == text@,
            all_digits(chars@.take(i as int)),
            acc == decimal_value(chars@.take(i as int)),
            0 <= acc <= i32::MAX,
        decreases chars.len() - i,
    {
        let c = chars[i];
        if !('0' <= c && c <= '9') {
            proof {
                assert(!is_digit(chars@[i as int]));
            }
            return None;
        }
        let ghost longer = chars@.take(i + 1);
        proof {
            assert(longer.drop_last() =~= chars@.take(i as int));
            assert(longer.last() == c);
            assert forall|k: int| 0 <= k < longer.len() implies is_digit(#[trigger] longer[k]) by {
                if k < i {
                    assert(longer[k] == chars@.take(i as int)[k]);
                }
            }
        }
        let next: i64 = acc * 10 + (c as u32 - 0x30) as i64;
        if next > 0x7fff_ffff {
            proof {
                if all_digits(chars@) {
                    lemma_decimal_value_grows(chars@, i + 1);
                }
            }
            return None;
        }
        acc = next;
        i += 1;
    }
    proof {
        assert(chars@.take(i as int) =~= chars@);
    }
    Some(acc as i32)
}

/// The character that writes the digit `d`.
pub fn digit(d: u32) -> (r: char)
    requires
        d < 10,
    ensures
        r == digit_char(d as int),
{
    if d == 0 {
        '0'
    } else if d == 1 {
        '1'
    } else if d == 2 {
        '2'
    } else if d == 3 {
        '3'
    } else if d == 4 {
        '4'
    } else if d == 5 {
        '5'
    } else if d == 6 {
        '6'
    } else if d == 7 {
        '7'
    } else if d == 8 {
        '8'
    } else {
        '9'
    }
}

/// `n` written in base ten.
pub fn decimal(n: u32) -> (r: String)
    ensures
        r@ == decimal_digits(n as nat),
    decreases n,
{
    if n < 10 {
        let mut out = String::new();
        out.push(digit(n));
        proof {
            assert(out@ =~= seq![digit_char(n as int)]);
        }
        out
    } else {
        let mut out = decimal(n / 10);
        out.push(digit(n % 10));
        out
    }
}

/// The parts of `text` between occurrences of `sep`, the empty ones left out.
pub fn split_nonempty(text: &str, sep: char) -> (r: Vec<String>)
    ensures
        views(r@) == fragments(text@, sep),
{
    let chars = to_chars(text);
    let mut out: Vec<String> = Vec::new();
    let mut i: usize = 0;
    let ghost mut done: Seq<Seq<char>> = Seq::empty();
    proof {
        assert(chars@.skip(0) =~= chars@);
        assert(done + fragments(chars@, sep) =~= fragments(chars@, sep));
    }
    while i < chars.len()
        invariant
            i <= chars.len(),
            chars@ == text@,
            done.len() == out@.len(),
            forall|k: int| 0 <= k < out@.len() ==> (#[trigger] out@[k])@ == done[k],
            done + fragments(chars@.skip(i as int), sep) == fragments(text@, sep),
        decreases chars.len() - i,
    {
        let ghost rest = chars@.skip(i as int);
        proof {
            assert(rest[0] == chars@[i as int]);
        }
        if chars[i] == sep {
            proof {
                assert(rest.skip(1) =~= chars@.skip(i + 1));
            }
            i += 1;
        } else {
            let mut j: usize = i + 1;
            proof {
                assert(rest.skip(1) =~= chars@.skip(i + 1));
            }
            while j < chars.len() && chars[j] != sep
                invariant
                    i < j <= chars.len(),
                    rest == chars@.skip(i as int),
                    rest.len() > 0,
                    rest[0] != sep,
                    first_index_of(rest, sep) == (j - i) + first_index_of(chars@.skip(j as int), sep),
                decreases chars.len() - j,
            {
                proof {
                    assert(chars@.skip(j as int)[0] == chars@[j as int]);
                    assert(chars@.skip(j as int).skip(1) =~= chars@.skip(j + 1));
                }
                j += 1;
            }
            proof {
                if j < chars.len() {
                    assert(chars@.skip(j as int)[0] == chars@[j as int]);
                }
                assert(first_index_of(rest, sep) == j - i);
                assert(rest.take(j - i) =~= chars@.subrange(i as int, j as int));
                assert(rest.skip(j - i) =~= chars@.skip(j as int));
            }
            let part = string_of(&chars, i, j);
            let ghost before = done;
            proof {
                done = done.push(part@);
                assert(done + fragments(chars@.skip(j as int), sep) =~= before + fragments(
                    rest,
                    sep,
                ));
            }
            out.push(part);
            i = j;
        }
    }
    proof {
        assert(done + fragments(chars@.skip(i as int), sep) =~= done);
        assert(views(out@) =~= done);
    }
    out
}

/// The rank of `token` in `list`: the last index at which it stands.
pub open spec fn rank_in(list: Seq<Seq<char>>, token: Seq<char>) -> Option<usize>
    decreases list.len(),
{
    if list.len() == 0 {
        None
    } else if list.last() == token {
        Some((list.len() - 1) as usize)
    } else {
        rank_in(list.drop_last(), token)
    }
}

/// The rank of `token` in `list`.
pub fn rank(list: &Vec<String>, token: &str) -> (r: Option<usize>)
    ensures
        r == rank_in(views(list@), token@),
{
    let mut i: usize = list.len();
    proof {
        assert(views(list@).take(i as int) =~= views(list@));
    }
    while i > 0
        invariant
            i <= list.len(),
            rank_in(views(list@).take(i as int), token@) == rank_in(views(list@), token@),
        decreases i,
    {
        let ghost upto = views(list@).take(i as int);
        proof {
            assert(upto.last() == list@[i - 1]@);
            assert(upto.drop_last() =~= views(list@).take(i - 1));
        }
        if same(list[i - 1].as_str(), token) {
            return Some(i - 1);
        }
        i -= 1;
    }
    None
}

/// Adds `word` to `list`.
pub fn put(list: &mut Vec<String>, word: &str)
    ensures
        views(final(list)@) == views(old(list)@).push(word@),
{
    let ghost before = list@;
    list.push(word.to_owned());
    proof {
        lemma_views_push(before, list@[list@.len() - 1]);
        assert(list@ == before.push(list@[list@.len() - 1]));
    }
}

/// Where neither of two texts holds a character, the two put together do not
/// hold it.
pub proof fn lemma_concat_free(a: Seq<char>, b: Seq<char>, c: char)
    requires
        !a.contains(c),
        !b.contains(c),
    ensures
        !(a + b).contains(c),
{
    assert forall|i: int| 0 <= i < (a + b).len() implies (a + b)[i] != c by {
        if i < a.len() {
            assert(a.contains((a + b)[i]));
        } else {
            assert(b[i - a.len()] == (a + b)[i]);
            assert(b.contains((a + b)[i]));
        }
    }
}

/// A replacement leaves a text free of a character that the new text does
/// not hold, if the text was free of it or the character is all that is
/// replaced.
pub proof fn lemma_replaced_free(text: Seq<char>, from: Seq<char>, to: Seq<char>, c: char)
    requires
        !to.contains(c),
        !text.contains(c) || from == seq![c],
    ensures
        !replaced(text, from, to).contains(c),
    decreases text.len(),
{
    if text.len() == 0 {
    } else if from.len() > 0 && starts_with(text, from) {
        let rest = text.skip(from.len() as int);
        if !text.contains(c) {
            assert forall|i: int| 0 <= i < rest.len() implies rest[i] != c by {
                assert(text.contains(text[i + from.len()]));
            }
        }
        lemma_replaced_free(rest, from, to, c);
        lemma_concat_free(to, replaced(rest, from, to), c);
    } else {
        let rest = text.skip(1);
        if !text.contains(c) {
            assert forall|i: int| 0 <= i < rest.len() implies rest[i] != c by {
                assert(text.contains(text[i + 1]));
            }
            assert(text.contains(text[0]));
        } else {
            assert(from.len() == 1);
            assert(from[0] == c);
            if text[0] == c {
                assert(text.take(1) =~= from);
            }
        }
        lemma_replaced_free(rest, from, to, c);
        assert(!seq![text[0]].contains(c));
        lemma_concat_free(seq![text[0]], replaced(rest, from, to), c);
    }
}

/// A text stays free of a character when its start is stripped.
pub proof fn lemma_stripped_start_free(text: Seq<char>, what: Strip, c: char)
    requires
        !text.contains(c),
    ensures
        !stripped_start(text, what).contains(c),
    decreases text.len(),
{
    if text.len() > 0 && what.takes(text[0]) {
        assert forall|i: int| 0 <= i < text.skip(1).len() implies text.skip(1)[i] != c by {
            assert(text.contains(text[i + 1]));
        }
        lemma_stripped_start_free(text.skip(1), what, c);
    }
}

/// A text stays free of a character when its end is stripped.
pub proof fn lemma_stripped_end_free(text: Seq<char>, what: Strip, c: char)
    requires
        !text.contains(c),
    ensures
        !stripped_end(text, what).contains(c),
    decreases text.len(),
{
    if text.len() > 0 && what.takes(text.last()) {
        assert forall|i: int| 0 <= i < text.drop_last().len() implies text.drop_last()[i] != c by {
            assert(text.contains(text[i]));
        }
        lemma_stripped_end_free(text.drop_last(), what, c);
    }
}

/// A range of whole characters of a text is free of a character that the
/// text is free of.
pub proof fn lemma_piece_free(text: Seq<char>, a: int, b: int, c: char)
    requires
        span_ok(text, a, b),
        !text.contains(c),
    ensures
        !piece(text, a, b).contains(c),
{
    let len = utf8(text).len() as int;
    lemma_piece_whole(text);
    lemma_piece_split(text, 0, b, len);
    lemma_piece_split(text, 0, a, b);
    let head = piece(text, 0, a);
    let mid = piece(text, a, b);
    assert(text == head + mid + piece(text, b, len));
    assert forall|i: int| 0 <= i < mid.len() implies mid[i] != c by {
        assert(text[head.len() + i] == mid[i]);
        assert(text.contains(text[head.len() + i]));
    }
}

/// No part between occurrences of `sep` holds `sep`.
pub proof fn lemma_fragments_free(text: Seq<char>, sep: char)
    ensures
        forall|i: int|
            0 <= i < fragments(text, sep).len() ==> !(#[trigger] fragments(text, sep)[i]).contains(
                sep,
            ),
    decreases text.len(),
{
    let parts = fragments(text, sep);
    if text.len() == 0 {
    } else if text[0] == sep {
        lemma_fragments_free(text.skip(1), sep);
        assert(parts == fragments(text.skip(1), sep));
    } else {
        let k = first_index_of(text, sep);
        lemma_first_index_of(text, sep);
        if 0 < k <= text.len() {
            lemma_fragments_free(text.skip(k), sep);
            let rest = fragments(text.skip(k), sep);
            assert(parts == seq![text.take(k)] + rest);
            assert forall|i: int| 0 <= i < parts.len() implies !(#[trigger] parts[i]).contains(
                sep,
            ) by {
                if i == 0 {
                    assert(parts[0] == text.take(k));
                    assert forall|j: int| 0 <= j < text.take(k).len() implies text.take(k)[j]
                        != sep by {
                        assert(text.take(k)[j] == text[j]);
                    }
                } else {
                    assert(parts[i] == rest[i - 1]);
                }
            }
        }
    }
}

} // verus!
