use pragmatic_segmenter::regex::{splice, step, Pattern};
use pragmatic_segmenter::rule::{expand, group_slice, Rule};
use pragmatic_segmenter::util::{re, re_i};

#[test]
fn a_rule_replaces_every_match() {
    let rule = Rule::new(r"\.(?=\d)", "∯").unwrap();
    assert_eq!(rule.replace_all("3.14 and 2.71. End."), "3∯14 and 2∯71. End.");
    assert_eq!(rule.replace_all("nothing"), "nothing");
    assert_eq!(rule.replace_all(""), "");
}

#[test]
fn a_template_stands_for_groups_and_for_a_carriage_return() {
    let rule = Rule::new(r"([a-z])(\.)([a-z])", r"\1∮\3").unwrap();
    assert_eq!(rule.replace_all("www.stanler.com"), "www∮stanler∮com");
    let rule = Rule::new(r"(a)(b)?", r"[\1|\2|\0|\9]\r").unwrap();
    assert_eq!(rule.replace_all("ab a"), "[a|b|ab|]\r [a||a|]\r");
    let rule = Rule::new(r"x", r"\n\\\").unwrap();
    assert_eq!(rule.replace_all("x"), r"\n\\\");
}

#[test]
fn a_rule_with_a_pattern_that_the_engine_refuses_is_an_error() {
    assert!(Rule::new(r"(", "x").is_err());
    assert!(re(r"[").is_err());
    assert!(re_i(r"(?<=a").is_err());
}

#[test]
fn re_i_ignores_case_and_re_does_not() {
    assert_eq!(re_i("[a-z]").unwrap().find_iter("aB"), vec![(0, 1), (1, 2)]);
    assert_eq!(re("[a-z]").unwrap().find_iter("aB"), vec![(0, 1)]);
}

#[test]
fn expand_reads_the_groups_of_one_match() {
    let template: Vec<char> = r"<\2\1>".chars().collect();
    let groups = vec![Some((0, 4)), Some((0, 1)), Some((1, 4))];
    assert_eq!(expand(&template, "a∯b", &groups), "<∯a>");
    let groups = vec![Some((0, 4)), None, Some((2, 4))];
    assert_eq!(expand(&template, "a∯b", &groups), "<>");
    assert_eq!(group_slice("a∯b", &groups, 0), "a∯");
    assert_eq!(group_slice("a∯b", &groups, 1), "");
    assert_eq!(group_slice("a∯b", &groups, 2), "");
    assert_eq!(group_slice("a∯b", &groups, 7), "");
}

#[test]
fn splice_puts_replacements_in_the_place_of_ranges() {
    let spans = vec![(1, 2), (3, 3)];
    let with = vec!["XY".to_string(), "-".to_string()];
    assert_eq!(splice("abcd", &spans, &with), "aXYc-d");
    assert_eq!(splice("abcd", &Vec::new(), &Vec::new()), "abcd");
}

#[test]
fn step_goes_on_by_one_character() {
    assert_eq!(step("a∯b", 0), 1);
    assert_eq!(step("a∯b", 1), 4);
    assert_eq!(step("a∯b", 4), 5);
}

#[test]
fn captures_iter_gives_every_group() {
    let re = Pattern::new(r"e(l+)|(r+)", false).unwrap();
    assert_eq!(
        re.captures_iter("hello rr"),
        vec![vec![Some((1, 4)), Some((2, 4)), None], vec![Some((6, 8)), None, Some((6, 8))]]
    );
    assert_eq!(re.search_at("hello rr", 2), Some(vec![Some((6, 8)), None, Some((6, 8))]));
    assert_eq!(re.search_at("hello rr", 9), None);
    assert_eq!(re.find("xyz"), None);
    assert_eq!(re.find("hello"), Some((1, 4)));
}
