//! Processors of text that work for a text of any lifetime.

use std::fmt::Debug;
use vstd::prelude::*;
use vstd::std_specs::iter::IteratorSpec;
use vstd::string::StrSliceExecFns;
use vstd::string::StringExecFns;

verus! {

/// A processor of texts that live for `'a`.
pub trait WithLifetime<'a> {
    /// What the processor makes of a text.
    type Output;

    /// Processes `input`.
    fn process(&self, input: &'a str) -> Self::Output;
}

/// The text by which `value` shows itself for debugging. Calls `format!` with
/// `{:?}`, which asks the `Debug` implementation of `D`; nothing is claimed of the
/// text.
#[verifier::external_body]
fn debug_string<D: Debug>(value: &D) -> (text: String) {
    format!("{:?}", value)
}

/// The three texts that every processor is given, in their order.
pub open spec fn sample_inputs() -> Seq<Seq<char>> {
    seq!["first"@, "second"@, "third"@]
}

/// The text that reports a result shown as `shown`.
pub open spec fn processed_text(shown: Seq<char>) -> Seq<char> {
    "Processed: "@ + shown
}

/// Whether `text` reports a result, however the result shows itself.
pub open spec fn is_processed_text(text: Seq<char>) -> bool {
    exists|shown: Seq<char>| text == #[trigger] processed_text(shown)
}

/// Reports the result that `shown` shows.
pub fn processed_string(shown: &str) -> (text: String)
    ensures
        text@ == processed_text(shown@),
{
    let mut text = String::from_str("Processed: ");
    text.append(shown);
    text
}

/// Hands each of the three sample texts to `processor`, in their order, and reports
/// each result as it shows itself for debugging.
pub fn process_any_lifetime<T>(processor: T) -> (reports: Vec<String>) where
    for <'a>T: WithLifetime<'a>,
    for <'a><T as WithLifetime<'a>>::Output: Debug,

    ensures
        reports@.len() == sample_inputs().len(),
        forall|i: int| 0 <= i < reports@.len() ==> is_processed_text(#[trigger] reports@[i]@),
{
    let inputs: [&'static str; 3] = ["first", "second", "third"];
    let mut reports: Vec<String> = Vec::new();
    let mut at: usize = 0;
    while at < 3
        invariant
            at <= 3,
            reports@.len() == at,
            forall|i: int| 0 <= i < reports@.len() ==> is_processed_text(#[trigger] reports@[i]@),
        decreases 3 - at,
    {
        let result = processor.process(inputs[at]);
        let shown = debug_string(&result);
        let report = processed_string(shown.as_str());
        reports.push(report);
        at += 1;
    }
    reports
}

/// Whether `c` is white space, as `char::is_whitespace` tells it.
pub uninterp spec fn is_white_space(c: char) -> bool;

/// `char::is_whitespace` tells whether the character has the Unicode property
/// `White_Space`: a fixed property of the character, named here and not spelled out.
pub assume_specification[ char::is_whitespace ](c: char) -> (white: bool)
    ensures
        white == is_white_space(c),
;

/// Whether a word starts at index `i` of `text`: a character that is no white space,
/// at the start of the text or behind white space.
pub open spec fn word_starts_at(text: Seq<char>, i: int) -> bool {
    &&& 0 <= i < text.len()
    &&& !is_white_space(text[i])
    &&& (i == 0 || is_white_space(text[i - 1]))
}

/// The number of words in `text`: runs of characters that are no white space.
pub open spec fn word_count(text: Seq<char>) -> nat
    decreases text.len(),
{
    if text.len() == 0 {
        0
    } else {
        word_count(text.drop_last()) + if word_starts_at(text, text.len() - 1) {
            1nat
        } else {
            0nat
        }
    }
}

/// Counts the words of `input`.
pub fn count_words(input: &str) -> (count: usize)
    ensures
        count == word_count(input@),
{
    broadcast use vstd::string::group_string_axioms;

    let total = input.unicode_len();
    let mut chars = input.chars();
    let mut count: usize = 0;
    let mut after_space = true;
    let ghost mut seen: int = 0;
    proof {
        assert(input@.skip(0) =~= input@);
    }
    loop
        invariant
            total == input@.len(),
            0 <= seen <= input@.len(),
            chars.remaining() == input@.skip(seen),
            count == word_count(input@.take(seen)),
            count <= seen,
            after_space == (seen == 0 || is_white_space(input@[seen - 1])),
        ensures
            count == word_count(input@),
        decreases input@.len() - seen,
    {
        match chars.next() {
            Some(c) => {
                let white = c.is_whitespace();
                proof {
                    let longer = input@.take(seen + 1);
                    assert(c == input@.skip(seen)[0]);
                    assert(longer.drop_last() =~= input@.take(seen));
                    assert(longer[seen] == input@[seen]);
                    assert(seen > 0 ==> longer[seen - 1] == input@[seen - 1]);
                    assert(input@.skip(seen).drop_first() =~= input@.skip(seen + 1));
                }
                if !white && after_space {
                    count += 1;
                }
                after_space = white;
                proof {
                    seen = seen + 1;
                }
            },
            None => {
                proof {
                    assert(input@.take(seen) =~= input@);
                }
                break ;
            },
        }
    }
    count
}

/// Counts the words of a text.
pub struct WordCounter;

impl<'a> WithLifetime<'a> for WordCounter {
    type Output = usize;

    /// The number of words in `input`.
    fn process(&self, input: &'a str) -> (count: usize)
        ensures
            count == word_count(input@),
    {
        count_words(input)
    }
}

} // verus!
