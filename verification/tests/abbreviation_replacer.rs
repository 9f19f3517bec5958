use pragmatic_segmenter::abbreviation_replacer::{
    mask, python_isupper, Abbreviation, AbbreviationReplacer, PythonSplitLines,
};
use pragmatic_segmenter::error::SegmenterError;

type TestResult = Result<(), SegmenterError>;

#[test]
fn test_python_splitlines_keepends() {
    let splitter = PythonSplitLines::new().unwrap();

    let input = "x\nx\rx\r\nx\x0bx\x0cx\x1cx\x1dx\x1ex\u{85}x\u{2028}x\u{2029}";
    let output = [
        "x\n",
        "x\r",
        "x\r\n",
        "x\x0b",
        "x\x0c",
        "x\x1c",
        "x\x1d",
        "x\x1e",
        "x\u{85}",
        "x\u{2028}",
        "x\u{2029}",
    ];
    assert_eq!(splitter.splitlines_keepends(input), output);

    let input = "\n\na";
    let output = ["\n", "\n", "a"];
    assert_eq!(splitter.splitlines_keepends(input), output);
}

#[test]
fn test_python_isupper() {
    assert!(!python_isupper("abc"));
    assert!(!python_isupper("123"));
    assert!(python_isupper("A_B"));
    assert!(!python_isupper("a_b"));
    assert!(python_isupper("A1"));
    assert!(python_isupper("1A"));
    assert!(!python_isupper("a1"));
    assert!(!python_isupper("1a"));
    assert!(!python_isupper("가나다a"));
    assert!(python_isupper("가나다A"));
}

#[test]
fn abbreviation_replacer_regex_should_be_compiled() {
    assert!(AbbreviationReplacer::new().is_ok())
}

#[test]
fn test_abbr_replace() -> TestResult {
    let rep = AbbreviationReplacer::new()?;

    assert_eq!(
        rep.replace("Humana Inc. is including"),
        "Humana Inc∯ is including"
    );

    Ok(())
}

#[test]
fn test_search_for_abbreviations_in_string() -> TestResult {
    let rep = AbbreviationReplacer::new()?;

    assert_eq!(
        rep.search_for_abbreviations_in_string("Humana Inc. is including"),
        "Humana Inc∯ is including"
    );

    Ok(())
}

#[test]
fn splitlines_of_nothing_is_nothing() {
    let splitter = PythonSplitLines::new().unwrap();
    assert_eq!(splitter.splitlines_keepends(""), Vec::<String>::new());
    assert_eq!(splitter.splitlines_keepends("no ending"), vec!["no ending"]);
}

#[test]
fn a_title_case_letter_is_cased_and_not_upper() {
    assert!(!python_isupper("ǅ"));
    assert!(!python_isupper("Aǅ"));
    assert!(!python_isupper(""));
}

#[test]
fn upper_case_next_word_keeps_the_period_unless_prepositive() {
    let rep = AbbreviationReplacer::new().unwrap();
    assert_eq!(rep.replace("He works at Acme Inc. The end"), "He works at Acme Inc. The end");
    assert_eq!(rep.replace("Ask Dr. Watson now"), "Ask Dr∯ Watson now");
    assert_eq!(rep.replace("See p. 55 now"), "See p∯ 55 now");
    assert_eq!(rep.replace("It costs U.S. dollars"), "It costs U.S∯ dollars");
}

#[test]
fn mask_replaces_marked_characters_of_one_byte() {
    assert_eq!(mask("a.b", &vec![false, true, false]), "a∯b");
    assert_eq!(mask("a.b", &vec![false, false, false]), "a.b");
    assert_eq!(mask("é.", &vec![true, false, true]), "é∯");
    assert_eq!(mask("", &Vec::new()), "");
}

#[test]
fn an_abbreviation_with_a_pattern_that_the_engine_refuses_is_an_error() {
    assert!(matches!(Abbreviation::new("("), Err(SegmenterError::Regex(_))));
    assert!(Abbreviation::new("e.g").is_ok());
}

#[test]
fn an_appearance_that_makes_no_pattern_marks_nothing() {
    let rep = AbbreviationReplacer::new().unwrap();
    // "e.g" goes into its patterns as it is, so its period finds the bracket
    assert_eq!(rep.search_for_abbreviations_in_string("see e(g. this"), "see e(g. this");
    assert_eq!(rep.search_for_abbreviations_in_string("see e.g. this"), "see e.g∯ this");
    // and any other character, once the line holds the abbreviation itself
    assert_eq!(rep.search_for_abbreviations_in_string("see eXg. this"), "see eXg. this");
    assert_eq!(
        rep.search_for_abbreviations_in_string("see eXg. this, e.g. that"),
        "see eXg∯ this, e.g∯ that"
    );
}

#[test]
fn replace_goes_line_by_line() {
    let rep = AbbreviationReplacer::new().unwrap();
    assert_eq!(rep.replace("Mr. A\rMrs. B"), "Mr∯ A\rMrs∯ B");
    assert_eq!(rep.replace("Jane's Co. KG is here"), "Jane's Co∯ KG is here");
    assert_eq!(rep.replace("At 5 p.m. The end"), "At 5 p∯m. The end");
    assert_eq!(rep.replace(""), "");
}
