//! Streams that lend each item for as long as the stream is borrowed.

use vstd::prelude::*;
use vstd::string::StringSliceAdditionalSpecFns;
use vstd::utf8::encode_utf8_valid_utf8;
use vstd::utf8::is_char_boundary;
use vstd::utf8::is_char_boundary_iff_not_is_continuation_byte;
use vstd::utf8::is_char_boundary_start_end_of_seq;
use vstd::utf8::is_continuation_byte;
use vstd::utf8::valid_utf8_split;

verus! {

/// A stream of items that are lent out of the stream.
pub trait Stream {
    /// An item that lives as long as the borrow `'a` of the stream.
    type Item<'a> where Self: 'a;

    /// Whether the stream stands at a place from which it can go on.
    spec fn can_go_on(&self) -> bool;

    /// The next item, if one is left.
    fn next<'a>(&'a mut self) -> (item: Option<Self::Item<'a>>)
        requires
            old(self).can_go_on(),
        ensures
            final(self).can_go_on(),
    ;

    /// The next item together with the position at which it stands, if one is left.
    fn next_with_position<'a>(&'a mut self) -> (item: Option<(Self::Item<'a>, usize)>) where
        Self: Sized,

        requires
            old(self).can_go_on(),
        ensures
            final(self).can_go_on(),
    ;

    /// Goes back to the start, and lends the stream on for the next call.
    fn reset_position(&mut self) -> (stream: &mut Self) where Self: Sized
        ensures
            old(self).can_go_on() ==> stream.can_go_on(),
            *final(self) == *final(stream),
    ;
}

/// The byte that encodes a space.
pub const SPACE: u8 = 32;

/// The index of the first space in `bytes` at or behind `from`, or the length of
/// `bytes` where there is none.
pub open spec fn word_end(bytes: Seq<u8>, from: int) -> int
    decreases bytes.len() - from,
{
    if from >= bytes.len() {
        bytes.len() as int
    } else if bytes[from] == SPACE {
        from
    } else {
        word_end(bytes, from + 1)
    }
}

/// A stream of the words of a text: the runs of bytes between single spaces.
#[derive(Debug)]
pub struct StringStream {
    pub data: String,
    pub position: usize,
}

impl Clone for StringStream {
    fn clone(&self) -> (copy: Self)
        ensures
            copy == *self,
    {
        StringStream { data: self.data.clone(), position: self.position }
    }
}

impl StringStream {
    /// The bytes of the text.
    pub open spec fn bytes(&self) -> Seq<u8> {
        vstd::utf8::encode_utf8(self.data@)
    }

    /// The word that starts at the position, as bytes: the bytes up to the next
    /// space, or up to the end where no space follows.
    pub open spec fn word(&self) -> Seq<u8> {
        self.bytes().subrange(self.position as int, word_end(self.bytes(), self.position as int))
    }

    /// The position behind the space that ends the word at the position.
    pub open spec fn behind_word(&self) -> int {
        word_end(self.bytes(), self.position as int) + 1
    }
}

impl Stream for StringStream {
    type Item<'a> = &'a str;

    /// The position is at or behind the end of the text, or a character starts at it.
    open spec fn can_go_on(&self) -> bool {
        &&& self.bytes().len() < usize::MAX
        &&& self.position < self.bytes().len() ==> is_char_boundary(
            self.bytes(),
            self.position as int,
        )
    }

    fn next<'a>(&'a mut self) -> (item: Option<&'a str>)
        ensures
            final(self).data == old(self).data,
            old(self).position < old(self).bytes().len() ==> (item matches Some(word)
                && word.spec_bytes() == old(self).word()) && final(self).position == old(
                self,
            ).behind_word(),
            old(self).position >= old(self).bytes().len() ==> item is None
                && final(self).position == old(self).position,
    {
        let text = self.data.as_str();
        if self.position >= text.as_bytes().len() {
            return None;
        }
        let (word, behind) = word_at(text, self.position);
        self.position = behind;
        Some(word)
    }

    fn next_with_position<'a>(&'a mut self) -> (item: Option<(&'a str, usize)>)
        ensures
            final(self).data == old(self).data,
            old(self).position < old(self).bytes().len() ==> (item matches Some(found)
                && found.0.spec_bytes() == old(self).word() && found.1 == old(self).position)
                && final(self).position == old(self).behind_word(),
            old(self).position >= old(self).bytes().len() ==> item is None
                && final(self).position == old(self).position,
    {
        let text = self.data.as_str();
        if self.position >= text.as_bytes().len() {
            return None;
        }
        let position = self.position;
        let (word, behind) = word_at(text, position);
        self.position = behind;
        Some((word, position))
    }

    fn reset_position(&mut self) -> (stream: &mut Self)
        ensures
            stream.data == old(self).data,
            stream.position == 0,
    {
        proof {
            encode_utf8_valid_utf8(self.data@);
            is_char_boundary_start_end_of_seq(self.bytes());
        }
        self.position = 0;
        self
    }
}

/// The word of `text` that starts at byte `position`, and the position behind the
/// space that ends it.
fn word_at<'a>(text: &'a str, position: usize) -> (found: (&'a str, usize))
    requires
        position < text.spec_bytes().len() < usize::MAX,
        is_char_boundary(text.spec_bytes(), position as int),
    ensures
        found.0.spec_bytes() == text.spec_bytes().subrange(
            position as int,
            word_end(text.spec_bytes(), position as int),
        ),
        found.1 == word_end(text.spec_bytes(), position as int) + 1,
        found.1 <= text.spec_bytes().len() ==> is_char_boundary(
            text.spec_bytes(),
            found.1 as int,
        ),
{
    let ghost all = text.spec_bytes();
    proof {
        encode_utf8_valid_utf8(text@);
        valid_utf8_split(all, position as int);
    }
    let (_, rest) = text.split_at(position);
    let bytes = rest.as_bytes();
    let mut end: usize = 0;
    while end < bytes.len() && bytes[end] != SPACE
        invariant
            end <= bytes@.len(),
            bytes@ == all.subrange(position as int, all.len() as int),
            position < all.len(),
            word_end(all, position as int) == word_end(all, position + end),
        decreases bytes@.len() - end,
    {
        assert(bytes@[end as int] == all[position + end]);
        end += 1;
    }
    proof {
        assert(end < bytes@.len() ==> bytes@[end as int] == all[position + end]);
        assert(word_end(all, position as int) == position + end);
        encode_utf8_valid_utf8(rest@);
        if end < bytes@.len() {
            assert(!is_continuation_byte(bytes@[end as int]));
            is_char_boundary_iff_not_is_continuation_byte(bytes@, end as int);
            assert(!is_continuation_byte(all[position + end]));
            is_char_boundary_iff_not_is_continuation_byte(all, position + end);
        } else {
            is_char_boundary_start_end_of_seq(bytes@);
        }
    }
    let (word, _) = rest.split_at(end);
    proof {
        assert(word.spec_bytes() =~= all.subrange(position as int, position + end));
        let behind = position + end + 1;
        if behind < all.len() {
            // The byte behind a space starts a character, the space being one whole.
            is_char_boundary_behind_space(all, position + end);
        } else if behind == all.len() {
            is_char_boundary_start_end_of_seq(all);
        }
    }
    (word, position + end + 1)
}

/// In a valid text, a character starts behind every space.
proof fn is_char_boundary_behind_space(bytes: Seq<u8>, at: int)
    requires
        vstd::utf8::valid_utf8(bytes),
        0 <= at,
        at + 1 < bytes.len(),
        bytes[at] == SPACE,
    ensures
        is_char_boundary(bytes, at + 1),
    decreases bytes.len(),
{
    assert(!is_continuation_byte(bytes[at]));
    is_char_boundary_iff_not_is_continuation_byte(bytes, at);
    let first = vstd::utf8::length_of_first_scalar(bytes);
    if at == 0 {
        assert(first == 1) by {
            assert(vstd::utf8::is_leading_byte_width_1(bytes[0]));
            reveal_with_fuel(vstd::utf8::valid_utf8, 2);
        }
        reveal_with_fuel(is_char_boundary, 2);
        is_char_boundary_start_end_of_seq(vstd::utf8::pop_first_scalar(bytes));
        reveal_with_fuel(vstd::utf8::valid_utf8, 2);
    } else {
        reveal_with_fuel(is_char_boundary, 2);
        reveal_with_fuel(vstd::utf8::valid_utf8, 2);
        is_char_boundary_behind_space(vstd::utf8::pop_first_scalar(bytes), at - first);
    }
}

/// A stream of the integers of a vector.
pub struct IntStream {
    pub data: Vec<i32>,
    pub position: usize,
}

impl Stream for IntStream {
    type Item<'a> = &'a i32;

    open spec fn can_go_on(&self) -> bool {
        true
    }

    fn next<'a>(&'a mut self) -> (item: Option<&'a i32>)
        ensures
            final(self).data == old(self).data,
            old(self).position < old(self).data@.len() ==> item == Some(
                &old(self).data@[old(self).position as int],
            ) && final(self).position == old(self).position + 1,
            old(self).position >= old(self).data@.len() ==> item is None && final(self).position
                == old(self).position,
    {
        if self.position >= self.data.len() {
            return None;
        }
        let result = &self.data[self.position];
        self.position += 1;
        Some(result)
    }

    fn next_with_position<'a>(&'a mut self) -> (item: Option<(&'a i32, usize)>)
        ensures
            final(self).data == old(self).data,
            old(self).position < old(self).data@.len() ==> item == Some(
                (&old(self).data@[old(self).position as int], old(self).position),
            ) && final(self).position == old(self).position + 1,
            old(self).position >= old(self).data@.len() ==> item is None && final(self).position
                == old(self).position,
    {
        if self.position >= self.data.len() {
            return None;
        }
        let result = &self.data[self.position];
        let position = self.position;
        self.position += 1;
        Some((result, position))
    }

    fn reset_position(&mut self) -> (stream: &mut Self)
        ensures
            stream.data == old(self).data,
            stream.position == 0,
    {
        self.position = 0;
        self
    }
}

} // verus!
