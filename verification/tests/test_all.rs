use pragmatic_segmenter::error::SegmenterError;
use pragmatic_segmenter::Segmenter;

type TestResult = Result<(), SegmenterError>;

#[test]
fn test_all_test_punctuation() -> TestResult {
    let segmenter = Segmenter::new()?;

    assert_eq!(
        segmenter.segment("U.S. army at www.stanler.com"),
        vec!["U.S. army at www.stanler.com"],
    );

    Ok(())
}

#[test]
fn test_all_test_character_boundary() -> TestResult {
    let segmenter = Segmenter::new()?;
    let input = "U.S. and NYSE’s U.S.";

    let actual = segmenter.segment(input);
    let expected = vec!["U.S. and NYSE’s U.S."];

    assert_eq!(actual, expected);
    Ok(())
}

#[test]
fn test_all_test_parens() -> TestResult {
    let segmenter = Segmenter::new()?;
    let input = "AA Inc. is including";

    let actual = segmenter.segment(input);
    let expected = vec!["AA Inc. is including"];

    assert_eq!(actual, expected);
    Ok(())
}

#[test]
fn test_all_test_quotes() -> TestResult {
    let segmenter = Segmenter::new()?;

    let input = r#"Our "business." Walgreens"#;
    let actual = segmenter.segment(input);
    let expected = vec![r#"Our "business." "#, "Walgreens"];

    assert_eq!(actual, expected);
    Ok(())
}
