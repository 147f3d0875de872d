use rust_higher_kined_types::custom_types::with_lifetime::{
    count_words, process_any_lifetime, processed_string, WithLifetime, WordCounter,
};

struct LengthCounter;

impl<'a> WithLifetime<'a> for LengthCounter {
    type Output = usize;

    fn process(&self, input: &'a str) -> Self::Output {
        input.len()
    }
}

struct Echo;

impl<'a> WithLifetime<'a> for Echo {
    type Output = &'a str;

    fn process(&self, input: &'a str) -> Self::Output {
        input
    }
}

#[test]
fn every_sample_is_processed_in_order() {
    assert_eq!(
        process_any_lifetime(LengthCounter),
        vec!["Processed: 5".to_string(), "Processed: 6".to_string(), "Processed: 5".to_string()]
    );
    assert_eq!(
        process_any_lifetime(Echo),
        vec![
            "Processed: \"first\"".to_string(),
            "Processed: \"second\"".to_string(),
            "Processed: \"third\"".to_string()
        ]
    );
    assert_eq!(
        process_any_lifetime(WordCounter),
        vec!["Processed: 1".to_string(), "Processed: 1".to_string(), "Processed: 1".to_string()]
    );
}

#[test]
fn a_report_starts_with_its_prefix() {
    assert_eq!(processed_string("7"), "Processed: 7");
    assert_eq!(processed_string(""), "Processed: ");
}

#[test]
fn words_are_runs_between_white_space() {
    assert_eq!(count_words(""), 0);
    assert_eq!(count_words("   "), 0);
    assert_eq!(count_words("word"), 1);
    assert_eq!(count_words("Hello world from the stream"), 5);
    assert_eq!(count_words("  leading and trailing  "), 3);
    assert_eq!(count_words("tabs\tand\nlines\r\nand\u{3000}wide space"), 6);
    assert_eq!(count_words("a  b   c"), 3);
    let counter = WordCounter;
    assert_eq!(counter.process("one two"), 2);
    let local = String::from("three little words");
    assert_eq!(counter.process(&local), 3);
}

#[test]
fn word_count_agrees_with_split_whitespace() {
    let texts = ["", " ", "a", " a", "a ", "a b", "\u{a0}x\u{2003}y", "x\u{85}y z", "日本語 テキスト"];
    for text in texts {
        assert_eq!(count_words(text), text.split_whitespace().count());
    }
}
