use pragmatic_segmenter::error::SegmenterError;
use pragmatic_segmenter::segmenter::{cut_at, terminator, terminators};
use pragmatic_segmenter::Segmenter;

type TestResult = Result<(), SegmenterError>;

#[test]
fn lib_regex_should_be_compiled() -> TestResult {
    let _seg = Segmenter::new()?;
    Ok(())
}

#[test]
fn empty_string() -> TestResult {
    let seg = Segmenter::new()?;

    let expected: [String; 0] = [];
    let actual = seg.segment("");
    assert_eq!(actual, expected);
    Ok(())
}

#[test]
fn a_list_of_letters_gives_one_sentence_for_each_item() {
    let seg = Segmenter::new().unwrap();
    assert_eq!(seg.segment("a. one b. two c. three"), vec!["a. one", "b. two", "c. three"]);
}

#[test]
fn an_abbreviation_does_not_end_a_sentence() {
    let seg = Segmenter::new().unwrap();
    assert_eq!(seg.segment("Humana Inc. is including"), vec!["Humana Inc. is including"]);
}

#[test]
fn plain_sentences_are_cut_at_their_terminators() {
    let seg = Segmenter::new().unwrap();
    assert_eq!(seg.segment("Hello world. How are you? Fine!"), vec!["Hello world.", "How are you?", "Fine!"]);
    assert_eq!(seg.segment("One.\nTwo."), vec!["One.", "Two."]);
    assert_eq!(seg.segment("no terminator here"), vec!["no terminator here"]);
}

fn without_white_space(text: &str) -> String {
    text.chars().filter(|c| !c.is_whitespace()).collect()
}

fn samples() -> Vec<&'static str> {
    vec![
        "U.S. army at www.stanler.com",
        "Hello world. How are you? Fine!",
        "He said \"Stop!\" and left. Then she came.",
        "She wrote 'go now.' and 'stay!' on the door. It's late.",
        "a. one b. two c. three",
        "1. abcd 2. xyz 3. asdf",
        "It costs $3.50 at 5 p.m. Really?!",
        "Dr. Who met Mr. Smith (see p. 5). They talked.",
        "What?? No!! Yes...",
        "First line.\nSecond line.\n\nThird.",
        "",
        "   ",
        "no terminator",
    ]
}

#[test]
fn the_sentences_hold_what_the_text_holds_but_for_white_space() {
    let seg = Segmenter::new().unwrap();
    for text in samples() {
        let joined: String = seg.segment(text).concat();
        assert_eq!(without_white_space(&joined), without_white_space(text), "for {:?}", text);
    }
}

#[test]
fn no_mask_is_left_in_a_sentence() {
    let seg = Segmenter::new().unwrap();
    let masks = ['∯', '♬', '♭', '☉', '☇', '☈', '☄', 'ȸ', 'ȹ', '∮', '♨', '☝', 'ƪ', '☏', '♟', '♝', '\r'];
    for text in samples() {
        for sentence in seg.segment(text) {
            assert!(!sentence.contains(&masks[..]), "{:?} in {:?}", sentence, text);
            assert!(!sentence.contains("&ᓴ&") && !sentence.contains("&ᓷ&"));
            assert!(!sentence.contains("&✂&") && !sentence.contains("&⌬&"));
            assert!(!sentence.contains("&⎋&"));
        }
    }
    // masks that the text brings along are taken off like the others
    assert_eq!(seg.segment("a∯b ♬ ȸ"), vec!["a.b ،"]);
}

#[test]
fn two_segmenters_give_the_same_sentences() {
    let first = Segmenter::new().unwrap();
    let second = Segmenter::new().unwrap();
    for text in samples() {
        assert_eq!(first.segment(text), second.segment(text));
    }
}

#[test]
fn segmenting_twice_gives_the_same_sentences() {
    let seg = Segmenter::new().unwrap();
    for text in samples() {
        assert_eq!(seg.segment(text), seg.segment(text));
    }
}

#[test]
fn a_segmenter_can_be_used_from_several_places_at_once() {
    let seg = Segmenter::new().unwrap();
    let shared: &Segmenter = &seg;
    let a = shared.segment("One. Two.");
    let b = shared.segment("Three? Four!");
    assert_eq!(a, vec!["One.", "Two."]);
    assert_eq!(b, vec!["Three?", "Four!"]);
    assert_eq!(shared.segment("One. Two."), a);
}

#[test]
fn the_stages_of_a_document() {
    let seg = Segmenter::new().unwrap();
    assert_eq!(seg.replace_numbers("It is 3.14 or 1.a"), "It is 3∯14 or 1∯a");
    assert_eq!(seg.replace_continuous_punctuation("Really?!? Yes"), "Really&ᓷ&&ᓴ&&ᓷ& Yes");
    assert_eq!(seg.replace_continuous_punctuation("Really?! Yes"), "Really?! Yes");
    assert_eq!(
        seg.check_for_parens_between_quotes("\"a\" (b) \"c\""),
        "\"a\"\r(b)\r\"c\""
    );
    assert_eq!(
        seg.prepare_document("See it.[12] Then go.\nNext"),
        "See it∯[12]\r Then go.\rNext"
    );
    assert_eq!(seg.prepare_document("www.a.com x .pdf y 5°.3"), "www∮a.com x ∯pdf y 5°∯3");
}

#[test]
fn the_stages_of_a_fragment() {
    let seg = Segmenter::new().unwrap();
    assert_eq!(seg.between_punctuation("He said \"No. Go!\" then"), "He said \"No∯ Go&ᓴ&\" then");
    assert_eq!(seg.between_punctuation("a (b. c?) d [e！]"), "a (b∯ c&ᓷ&) d [e&ᓳ&]");
    assert_eq!(seg.between_punctuation("it's \"don't.\""), "it's \"don't∯\"");
    assert_eq!(seg.between_punctuation("so 'it is.' ok"), "so &⎋&it is∯&⎋& ok");
    assert_eq!(seg.replace_double_punctuation("What?! No!! a?? b!?"), "What☉ No☄ a☇ b☈");
    assert_eq!(seg.replace_double_punctuation("?! What?!"), "?! What?!");
    assert_eq!(seg.process_text("Hello world"), "Hello worldȸ");
    assert_eq!(seg.process_text("Hello world."), "Hello world.");
    assert_eq!(seg.process_text("I use Yahoo! daily"), "I use Yahoo&ᓴ& dailyȸ");
    assert_eq!(seg.process_text("Wow! great"), "Wow&ᓴ& greatȸ");
    assert_eq!(seg.process_text("see (iv) And"), "see &✂&iv&⌬& Andȸ");
    assert_eq!(
        seg.sentence_boundary_punctuation("One. Two? Three"),
        vec!["One.", "Two?", "Threeȸ"]
    );
    assert_eq!(seg.sentence_boundary_punctuation("no end"), vec!["no end"]);
    assert_eq!(seg.sentence_boundary_punctuation("a ... B . . . c"), vec!["a ☏☏.", "B♟♟♟♟♟♟♟cȸ"]);
    assert_eq!(seg.sentence_boundary_punctuation(r"a\nb"), vec!["aȹb"]);
}

#[test]
fn the_stages_of_a_sentence() {
    let seg = Segmenter::new().unwrap();
    assert_eq!(seg.restore_symbols("a∯ b&ᓴ& c☉ d&✂&e&⌬& fȸ gȹ"), "a. b! c?! d(e) f g\n");
    assert_eq!(seg.restore_symbols("&ᓰ&&ᓱ&&ᓳ&&ᓷ&&ᓸ&☇☈☄♬♭"), "。．！?？??!?!!،:");
    assert_eq!(seg.restore_ellipses("aƪƪƪ b♟♟♟♟♟♟♟c♝♝♝♝♝♝♝ ☏☏ x∮y"), "a... b . . . c. . . . .. x.y");
    assert_eq!(seg.post_process_segments("Hello∮"), vec!["Hello."]);
    assert_eq!(seg.post_process_segments("abc"), vec!["abc"]);
    assert_eq!(seg.post_process_segments("abc\n"), vec!["abc\n"]);
    assert_eq!(seg.post_process_segments("a\n"), vec!["a"]);
    assert_eq!(seg.post_process_segments("  a b.ȹ "), vec!["a b."]);
    assert_eq!(
        seg.post_process_segments("He said \"Go.\" She left.\" And so"),
        vec!["He said \"Go.\" ", "She left.\" ", "And so"]
    );
    assert_eq!(seg.restore_sentence("don&⎋&t∯"), vec!["don't."]);
    assert_eq!(seg.segment_fragment("One. Two? Three"), vec!["One.", "Two?", "Three"]);
}

#[test]
fn cut_at_cuts_before_the_last_character_of_each_range() {
    assert_eq!(cut_at("ab cd", &vec![(1, 4)]), vec!["ab ", "cd"]);
    assert_eq!(cut_at("ab cd", &Vec::new()), vec!["ab cd"]);
    assert_eq!(cut_at("ab", &vec![(0, 1)]), vec!["", "ab"]);
    assert_eq!(cut_at("abé", &vec![(0, 4)]), vec!["abé"]);
    assert_eq!(cut_at("", &Vec::new()), Vec::<String>::new());
}

#[test]
fn terminators_are_seven_characters() {
    for c in ['。', '．', '.', '！', '!', '?', '？'] {
        assert!(terminator(c));
    }
    assert!(!terminator(','));
    assert!(!terminator('∯'));
    assert_eq!(terminators("a.b"), (true, false));
    assert_eq!(terminators("ab？"), (true, true));
    assert_eq!(terminators("ab"), (false, false));
    assert_eq!(terminators(""), (false, false));
}

#[test]
fn a_period_behind_a_degree_sign_is_masked_behind_a_letter_only() {
    let seg = Segmenter::new().unwrap();
    assert_eq!(seg.prepare_document("lat N°. 5 and _°. 7"), "lat N°∯ 5 and _°. 7");
}

fn shareable<T: Send + Sync>() {}

#[test]
fn a_segmenter_is_send_and_sync() {
    shareable::<Segmenter>();
}

#[test]
fn a_long_text_gives_its_sentences_in_order() {
    let seg = Segmenter::new().unwrap();
    let paragraph = "Dr. Smith went to Washington at 5 p.m. on Jan. 3. He paid $3.50 for coffee! \
Was it good? \"It was fine.\" said Mr. Jones. ";
    let text = paragraph.repeat(100);
    let sentences = seg.segment(&text);
    assert_eq!(sentences.len(), 400);
    assert_eq!(sentences[0], "Dr. Smith went to Washington at 5 p.m. on Jan. 3.");
    assert_eq!(sentences[1], "He paid $3.50 for coffee!");
    assert_eq!(sentences[2], "Was it good?");
    assert_eq!(sentences[3], "\"It was fine.\" said Mr. Jones.");
    assert_eq!(sentences[4], sentences[0]);
    assert_eq!(sentences[399], sentences[3]);
}

#[test]
fn lists_that_cannot_be_read_are_left_as_they_are() {
    let seg = Segmenter::new().unwrap();
    assert_eq!(seg.segment("٣. abc ٤. def"), vec!["٣. abc ٤.", "def"]);
}
