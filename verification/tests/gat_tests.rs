use rust_higher_kined_types::custom_types::gat::{IntStream, Stream, StringStream};

#[test]
fn a_string_stream_lends_its_words() {
    let mut stream = StringStream { data: "Hello world from the stream".to_string(), position: 0 };
    let mut words: Vec<String> = Vec::new();
    while let Some(word) = stream.next() {
        words.push(word.to_string());
    }
    assert_eq!(words, vec!["Hello", "world", "from", "the", "stream"]);
    assert_eq!(stream.position, 28);
    assert_eq!(stream.next(), None);
    assert_eq!(stream.position, 28);
}

#[test]
fn a_string_stream_tells_positions() {
    let mut stream = StringStream { data: "Hello world from the stream".to_string(), position: 0 };
    while stream.next().is_some() {}
    stream.reset_position();
    assert_eq!(stream.position, 0);
    let mut found: Vec<(String, usize)> = Vec::new();
    while let Some((word, position)) = stream.next_with_position() {
        found.push((word.to_string(), position));
    }
    assert_eq!(
        found,
        vec![
            ("Hello".to_string(), 0),
            ("world".to_string(), 6),
            ("from".to_string(), 12),
            ("the".to_string(), 17),
            ("stream".to_string(), 21)
        ]
    );
    assert_eq!(stream.position, 28);
}

#[test]
fn spaces_in_a_row_bound_empty_words() {
    let mut stream = StringStream { data: "a  b ".to_string(), position: 0 };
    assert_eq!(stream.next(), Some("a"));
    assert_eq!(stream.position, 2);
    assert_eq!(stream.next(), Some(""));
    assert_eq!(stream.position, 3);
    assert_eq!(stream.next(), Some("b"));
    assert_eq!(stream.position, 5);
    assert_eq!(stream.next(), None);
    assert_eq!(stream.position, 5);
}

#[test]
fn words_may_hold_characters_of_several_bytes() {
    let mut stream = StringStream { data: "héllo wörld 日本".to_string(), position: 0 };
    assert_eq!(stream.next_with_position(), Some(("héllo", 0)));
    assert_eq!(stream.next_with_position(), Some(("wörld", 7)));
    assert_eq!(stream.next_with_position(), Some(("日本", 14)));
    assert_eq!(stream.position, 21);
    assert_eq!(stream.next_with_position(), None);
}

#[test]
fn an_empty_string_stream_has_no_word() {
    let mut stream = StringStream { data: String::new(), position: 0 };
    assert_eq!(stream.next(), None);
    assert_eq!(stream.position, 0);
    let copy = stream.clone();
    assert_eq!(copy.data, "");
    assert_eq!(copy.position, 0);
}

#[test]
fn an_int_stream_lends_its_numbers() {
    let mut stream = IntStream { data: vec![1, 2, 3, 4, 5], position: 0 };
    let mut numbers: Vec<i32> = Vec::new();
    while let Some(number) = stream.next() {
        numbers.push(*number);
    }
    assert_eq!(numbers, vec![1, 2, 3, 4, 5]);
    assert_eq!(stream.position, 5);
    assert_eq!(stream.next(), None);
    stream.reset_position();
    assert_eq!(stream.position, 0);
    let mut found: Vec<(i32, usize)> = Vec::new();
    while let Some((number, position)) = stream.next_with_position() {
        found.push((*number, position));
    }
    assert_eq!(found, vec![(1, 0), (2, 1), (3, 2), (4, 3), (5, 4)]);
    assert_eq!(stream.position, 5);
    assert_eq!(stream.next_with_position(), None);
}

#[test]
fn an_int_stream_past_its_end_stays() {
    let mut stream = IntStream { data: vec![7], position: 3 };
    assert_eq!(stream.next(), None);
    assert_eq!(stream.position, 3);
    assert_eq!(stream.reset_position().next(), Some(&7));
}
