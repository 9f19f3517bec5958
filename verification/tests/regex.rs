use pragmatic_segmenter::regex::Pattern;

#[test]
fn find_iter_reports_byte_ranges() {
    let re = Pattern::new(r"\d+", false).unwrap();
    assert_eq!(re.find_iter("a12b2"), vec![(1, 3), (4, 5)]);
}

#[test]
fn find_iter_passes_over_empty_match_behind_a_match() {
    let re = Pattern::new(r"\d*", false).unwrap();
    assert_eq!(re.find_iter("a1b2"), vec![(0, 0), (1, 2), (3, 4)]);
    assert_eq!(re.find_iter("a1bbb2"), vec![(0, 0), (1, 2), (3, 3), (4, 4), (5, 6)]);
    let re = Pattern::new(r"b|(?=,)", false).unwrap();
    assert_eq!(re.find_iter("ba,"), vec![(0, 1), (2, 2)]);
    let re = Pattern::new(r"\b", false).unwrap();
    assert_eq!(re.find_iter("test string"), vec![(0, 0), (4, 4), (5, 5), (11, 11)]);
}

#[test]
fn empty_matches_step_by_whole_characters() {
    let re = Pattern::new(r"x*", false).unwrap();
    assert_eq!(re.find_iter("∯é"), vec![(0, 0), (3, 3), (5, 5)]);
}

#[test]
fn a_pattern_that_the_engine_refuses_is_an_error() {
    let e = Pattern::new(r"\p{foo}", false).err().unwrap();
    assert_eq!(e.code, -223);
    assert!(Pattern::new(r"(", false).is_err());
}

#[test]
fn ignore_case_is_an_option_of_the_pattern() {
    assert_eq!(Pattern::new("ab", true).unwrap().find("xAB"), Some((1, 3)));
    assert_eq!(Pattern::new("ab", false).unwrap().find("xAB"), None);
}
