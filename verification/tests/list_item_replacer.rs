use pragmatic_segmenter::error::SegmenterError;
use pragmatic_segmenter::list_item_replacer::{
    keep, sequenced, ListItemReplacer, NumberMarker, ParenMarker, PeriodMarker,
};
use pragmatic_segmenter::regex::Rewriter;

type TestResult = Result<(), SegmenterError>;

#[test]
fn test_alphabetical_list_with_periods() -> TestResult {
    let list = ListItemReplacer::new()?;
    let text =
        "a. The first item b. The second item c. The third list item D. case insesitive \
E. Don't select the nextF.dont't select this G should be followed by dot";

    assert_eq!(
        list.alphabetical_list_with_periods().find_iter(text),
        vec![
            (0, 1),   // a
            (18, 19), // b
            (37, 38), // c
            (60, 61), // D
            (79, 80), // E
        ]
    );
    Ok(())
}

#[test]
fn test_alphabetical_list_with_parens() -> TestResult {
    let list = ListItemReplacer::new()?;
    let text = "\
a) Hello world.
b) Hello world.
c) Hello world.
d) Hello world.
e) Hello world.
f) Hello world.

(i) Hello world.
(ii) Hello world.
(iii) Hello world.
(iv) Hello world.
(v) Hello world.
(vi) Hello world.
";

    assert_eq!(
        list.alphabetical_list_with_parens().find_iter(text),
        vec![
            (0, 1,),
            (16, 17,),
            (32, 33,),
            (48, 49,),
            (64, 65,),
            (80, 81,),
            (98, 99,),
            (115, 117,),
            (133, 136,),
            (152, 154,),
            (170, 171,),
            (187, 189,),
        ]
    );
    Ok(())
}

#[test]
fn test_alphabetical_list_letters_and_periods_regex() -> TestResult {
    let list = ListItemReplacer::new()?;
    let text = "His name is Mark E. Smith. a. here it is b. another c. one more
 They went to the store. It was John A. Smith. She was Jane B. Smith.";

    assert_eq!(
        list.alphabetical_list_letters_and_periods_regex()
            .find_iter(text),
        vec![
            (17, 19),   // "E."
            (27, 29),   // "a."
            (41, 43),   // "b."
            (52, 54),   // "c."
            (101, 103), // "A."
            (124, 126), // "B."
        ]
    );
    Ok(())
}

#[test]
fn test_extract_alphabetical_list_letters_regex() -> TestResult {
    let list = ListItemReplacer::new()?;
    let text =
        "a) here it is b) another c) one more \nThey went to the store. W) hello X) hello Y) hello";

    assert_eq!(
        list.extract_alphabetical_list_letters_regex()
            .find_iter(text),
        vec![
            (0, 1),   // "a"
            (14, 15), // "b"
            (25, 26), // "c"
            (62, 63), // "W"
            (71, 72), // "X"
            (80, 81), // "Y"
        ]
    );
    Ok(())
}

#[test]
fn test_numbered_list_regex_1() -> TestResult {
    let list = ListItemReplacer::new()?;
    let text = "\
Match below

1.  abcd
2.  xyz
    1. as
    2. yo
3.  asdf
4.  asdf

Dont match below

1.abc
2) asdf
333. asdf
";

    assert_eq!(
        list.numbered_list_regex_1().find_iter(text),
        vec![(12, 14), (21, 23), (33, 35), (43, 45), (49, 51), (58, 60),]
    );

    Ok(())
}

#[test]
fn test_numbered_list_regex_2() -> TestResult {
    let list = ListItemReplacer::new()?;
    let text = "\
Match below

1.  abcd
2.  xyz
    1. as
    2. yo
3.  asdf
4.  asdf

Dont match below

1.abc
2) asdf
333. asdf
";

    assert_eq!(
        list.numbered_list_regex_2().find_iter(text),
        vec![(13, 15), (22, 24), (34, 36), (44, 46), (50, 52), (59, 61),]
    );

    Ok(())
}

#[test]
fn test_numbered_list_parens_regex() -> TestResult {
    let list = ListItemReplacer::new()?;
    let text = "\
1) a
2) b
    1) b1
    2) b2
3) c
4) 5)
55) d
666) e
f77) f
8888) f
10)nomatch
-10) ignore sign
";

    assert_eq!(
        list.numbered_list_parens_regex().find_iter(text),
        vec![
            (0, 1),
            (5, 6),
            (14, 15),
            (24, 25),
            (30, 31),
            (35, 36),
            (38, 39),
            (41, 43),
            (48, 50),
            (55, 57),
            (63, 65),
            (81, 83),
        ]
    );

    Ok(())
}

#[test]
fn test_space_between_list_items_first_rule() -> TestResult {
    let list = ListItemReplacer::new()?;

    let input = "abcd  ⁃9♨ The first item ⁃10♨ The second item ⁃9♨ The first item ⁃10♨ The second item ⁃9♨ The first item ⁃10♨ The second item ⁃9♨ The first item ⁃10♨ The second item ⁃9♨ The first item ⁃10♨ The second item ⁃9♨ The first item ⁃10♨ The second item";
    let output = "abcd  ⁃9♨ The first item\r⁃10♨ The second item\r⁃9♨ The first item\r⁃10♨ The second item\r⁃9♨ The first item\r⁃10♨ The second item\r⁃9♨ The first item\r⁃10♨ The second item\r⁃9♨ The first item\r⁃10♨ The second item\r⁃9♨ The first item\r⁃10♨ The second item";

    assert_eq!(
        list.space_between_list_items_first_rule().replace_all(input),
        output
    );

    Ok(())
}

#[test]
fn test_space_between_list_items_second_rule() -> TestResult {
    let list = ListItemReplacer::new()?;

    let input = "1♨ The first item 2♨ The second item";
    let output = "1♨ The first item\r2♨ The second item";

    assert_eq!(
        list.space_between_list_items_second_rule().replace_all(input),
        output
    );

    Ok(())
}

#[test]
fn test_space_between_list_items_third_rule() -> TestResult {
    let list = ListItemReplacer::new()?;

    let input = "1☝) The first item 2☝) The second item";
    let output = "1☝) The first item\r2☝) The second item";

    assert_eq!(
        list.space_between_list_items_third_rule().replace_all(input),
        output
    );

    Ok(())
}

#[test]
fn test_replace_alphabet_list() -> TestResult {
    let list = ListItemReplacer::new()?;
    assert_eq!(
        list.replace_alphabet_list("a. ffegnog b. fgegkl c.", "b"),
        "a. ffegnog \rb∯ fgegkl c."
    );
    Ok(())
}

#[test]
fn test_replace_alphabet_list_parens() -> TestResult {
    let list = ListItemReplacer::new()?;
    assert_eq!(
        list.replace_alphabet_list_parens("a) ffegnog (b) fgegkl c)", "a"),
        "\ra) ffegnog (b) fgegkl c)"
    );
    assert_eq!(
        list.replace_alphabet_list_parens("a) ffegnog (b) fgegkl c)", "b"),
        "a) ffegnog \r&✂&b) fgegkl c)"
    );
    Ok(())
}

#[test]
fn test_iterate_alphabet_array() -> TestResult {
    let list = ListItemReplacer::new()?;
    assert_eq!(
        list.iterate_alphabet_array("i. Hi", list.alphabetical_list_with_periods(), false, true),
        "i. Hi"
    );

    let input = "\
Replace

a. Lorem
b. Donec
c. Aenean

Don't

A. Vestibulum
B. Proin
C. Maecenas
";
    let output = "\
Replace

\ra∯ Lorem
\rb∯ Donec
\rc∯ Aenean

Don't

A. Vestibulum
B. Proin
C. Maecenas
";
    assert_eq!(
        list.iterate_alphabet_array(input, list.alphabetical_list_with_periods(), false, false),
        output,
    );

    let input = "\
Do

a) Lorem
b) Donec
c) Aenean

(a) Lorem
(b) Donec
(c) Aenean

Don't

A) Vestibulum
B) Proin
C) Maecenas

(A) Vestibulum
(B) Proin
(C) Maecenas
";
    let output = "\
Do

\r\ra) Lorem
\r\rb) Donec
\r\rc) Aenean

\r&✂&a) Lorem
\r&✂&b) Donec
\r&✂&c) Aenean

Don't

A) Vestibulum
B) Proin
C) Maecenas

(A) Vestibulum
(B) Proin
(C) Maecenas
";
    assert_eq!(
        list.iterate_alphabet_array(input, list.alphabetical_list_with_parens(), true, false),
        output,
    );

    let input = "\
NOP

i. Ut eu volutpat felis.
ii. Mauris
iii. Proin

I. Suspendisse
II. Maecenas
III. Nam
";
    assert_eq!(
        list.iterate_alphabet_array(input, list.alphabetical_list_with_periods(), false, true),
        input,
    );

    let input = "\
Do

i) Ut eu volutpat felis.
ii) Mauris
iii) Proin

(i) Ut eu volutpat felis.
(ii) Mauris
(iii) Proin

Don't

I) Suspendisse
II) Maecenas
III) Nam

(I) Suspendisse
(II) Maecenas
(III) Nam
";
    let output = "\
Do

\r\ri) Ut eu volutpat felis.
\r\rii) Mauris
\r\riii) Proin

\r&✂&i) Ut eu volutpat felis.
\r&✂&ii) Mauris
\r&✂&iii) Proin

Don't

I) Suspendisse
II) Maecenas
III) Nam

(I) Suspendisse
(II) Maecenas
(III) Nam
";
    assert_eq!(
        list.iterate_alphabet_array(input, list.alphabetical_list_with_parens(), true, true),
        output,
    );

    Ok(())
}

#[test]
fn test_scan_lists() -> TestResult {
    let list = ListItemReplacer::new()?;

    let input = "\
Match below

1.  abcd
2.  xyz
    1. as
    2. yo
3.  asdf
4.  asdf

Dont match below

1.abc
2) asdf
333. asdf
";
    let output = "\
Match below

1♨  abcd
2♨  xyz
    1♨ as
    2♨ yo
3♨  asdf
4♨  asdf

Dont match below

1.abc
2) asdf
333. asdf
";
    assert_eq!(
        list.scan_lists(
            input,
            list.numbered_list_regex_1(),
            list.numbered_list_regex_2(),
            '♨',
            true
        )?,
        output
    );

    let input = "\
1) a
2) b
    1) b1
    2) b2
3) c
4) 5)
55) d
666) e
f77) f
8888) f
10)nomatch
-10) ignore sign
";
    let output = "\
1☝) a
2☝) b
    1☝) b1
    2☝) b2
3☝) c
4☝) 5☝)
55) d
666) e
f77) f
8888) f
10)nomatch
-10) ignore sign
";
    assert_eq!(
        list.scan_lists(
            input,
            list.numbered_list_parens_regex(),
            list.numbered_list_parens_regex(),
            '☝',
            false
        )?,
        output
    );

    Ok(())
}

#[test]
fn test_add_line_breaks_for_numbered_list_with_periods() -> TestResult {
    let list = ListItemReplacer::new()?;

    let input = "1♨ abcd 2♨ xyz 3♨ asdf 4♨ asdf";
    let output = "1♨ abcd\r2♨ xyz\r3♨ asdf\r4♨ asdf";

    assert_eq!(
        list.add_line_breaks_for_numbered_list_with_periods(input),
        output
    );

    Ok(())
}

#[test]
fn test_add_line_breaks_for_numbered_list_with_parens() -> TestResult {
    let list = ListItemReplacer::new()?;

    let input = "1☝) The first item 2☝) The second item";
    let output = "1☝) The first item\r2☝) The second item";

    assert_eq!(
        list.add_line_breaks_for_numbered_list_with_parens(input),
        output
    );

    Ok(())
}

#[test]
fn a_single_marker_is_never_a_list() {
    assert!(!keep(&vec![0], 0));
    assert!(!keep(&Vec::from([3usize]), 0));
}

#[test]
fn markers_count_by_the_ranks_of_their_neighbours() {
    // a b c
    assert!(keep(&vec![0, 1, 2], 0));
    assert!(keep(&vec![0, 1, 2], 1));
    assert!(keep(&vec![0, 1, 2], 2));
    // the first marker goes by the last one as the marker before it
    assert!(keep(&vec![5, 9, 4], 0));
    assert!(keep(&vec![5, 9, 6], 0));
    assert!(!keep(&vec![5, 9, 7], 0));
    // a marker in the middle: the next must follow, the one before be a neighbour
    assert!(!keep(&vec![0, 4, 3, 9], 1));
    assert!(keep(&vec![0, 4, 5, 9], 1));
    assert!(keep(&vec![5, 4, 0, 9], 1));
    assert!(keep(&vec![3, 4, 0, 9], 1));
    assert!(!keep(&vec![0, 4, 0, 9], 1));
    // the last marker goes by the one before it alone
    assert!(keep(&vec![0, 7, 8], 2));
    assert!(keep(&vec![0, 9, 8], 2));
    assert!(!keep(&vec![7, 0, 8], 2));
}

#[test]
fn numbers_count_by_their_neighbours_and_wrap_from_nine_to_zero() {
    assert!(sequenced(&vec![1, 2], 0));
    assert!(sequenced(&vec![1, 2], 1));
    assert!(!sequenced(&vec![1, 3], 0));
    assert!(!sequenced(&vec![1, 3], 1));
    assert!(!sequenced(&vec![2, 1], 0));
    assert!(!sequenced(&vec![2, 1], 1));
    assert!(sequenced(&vec![9, 0], 0));
    assert!(sequenced(&vec![9, 0], 1));
    assert!(!sequenced(&vec![0, 9], 0));
    assert!(!sequenced(&vec![5], 0));
    assert!(!sequenced(&vec![2147483647, 0], 0));
}

#[test]
fn a_marker_that_writes_no_number_is_an_error() {
    let list = ListItemReplacer::new().unwrap();
    let r = list.scan_lists(
        "a. one b. two",
        list.alphabetical_list_with_periods(),
        list.numbered_list_regex_2(),
        '♨',
        true,
    );
    assert!(matches!(r, Err(SegmenterError::Number)));
}

#[test]
fn numbers_that_do_not_follow_one_another_stay_as_they_are() {
    let list = ListItemReplacer::new().unwrap();
    let text = "1. one 3. three 2. two";
    assert_eq!(
        list.scan_lists(text, list.numbered_list_regex_1(), list.numbered_list_regex_2(), '♨', true)
            .unwrap(),
        text
    );
}

#[test]
fn add_line_break_starts_each_item_on_its_own_line() {
    let list = ListItemReplacer::new().unwrap();
    assert_eq!(
        list.add_line_break("a. one b. two c. three").unwrap(),
        "\ra∯ one \rb∯ two \rc∯ three"
    );
    assert_eq!(
        list.add_line_break("1. abcd 2. xyz 3. asdf").unwrap(),
        "1∯ abcd\r2∯ xyz\r3∯ asdf"
    );
    assert_eq!(
        list.add_line_break("1) The first item 2) The second item").unwrap(),
        "1) The first item\r2) The second item"
    );
    assert_eq!(list.add_line_break("No list here.").unwrap(), "No list here.");
    assert_eq!(list.add_line_break("").unwrap(), "");
}

#[test]
fn the_rewriters_act_on_one_match() {
    assert_eq!(PeriodMarker { what: "b" }.rewrite("b."), "\rb∯");
    assert_eq!(PeriodMarker { what: "b" }.rewrite("B."), "B.");
    assert_eq!(PeriodMarker { what: "b" }.rewrite("b"), "\rb∯");
    assert_eq!(ParenMarker { what: "ii" }.rewrite("(ii"), "\r&✂&ii");
    assert_eq!(ParenMarker { what: "ii" }.rewrite("ii"), "\rii");
    assert_eq!(ParenMarker { what: "ii" }.rewrite("(iii"), "(iii");
    let mark = NumberMarker { each: 7, mark: '♨', strip: true };
    assert_eq!(mark.rewrite(" 7."), "7♨");
    assert_eq!(mark.rewrite(" 8."), "8.");
    assert_eq!(mark.rewrite("07."), "07.");
    let mark = NumberMarker { each: 7, mark: '☝', strip: false };
    assert_eq!(mark.rewrite("7"), "7☝");
    assert_eq!(mark.rewrite(" 7"), " 7");
}

#[test]
fn a_list_number_in_other_digits_writes_no_number() {
    let list = ListItemReplacer::new().unwrap();
    let text = "٣. abc ٤. def";
    let found = list.numbered_list_regex_1().find_iter(text);
    assert_eq!(found, vec![(0, 2), (7, 10)]);
    assert!(matches!(list.add_line_break(text), Err(SegmenterError::Number)));
}
