//! Walking a byte slice one character at a time.

use vstd::prelude::*;
use vstd::utf8::*;
use crate::text::{
    decode_lenient, first_char, first_width, is_white_space, lemma_line_count_bounded,
    line_count, line_feed_count, word_count, LINE_FEED,
};

verus! {

/// Whether `byte` is a continuation byte of a multi-byte scalar.
fn is_continuation(byte: u8) -> (r: bool)
    ensures
        r == is_continuation_byte(byte),
{
    0x80 <= byte && byte <= 0xBF
}

/// Decodes the scalar that begins at index `i`. Returns its value and the
/// number of bytes it takes up, or `None` where no well-formed scalar
/// begins at `i`.
pub fn scalar_at(bytes: &[u8], i: usize) -> (r: Option<(u32, usize)>)
    requires
        i < bytes.len(),
    ensures
        match r {
            Some((scalar, width)) => {
                &&& valid_first_scalar(bytes@.skip(i as int))
                &&& scalar == decode_first_scalar(bytes@.skip(i as int))
                &&& width == length_of_first_scalar(bytes@.skip(i as int))
                &&& is_scalar(scalar)
                &&& 1 <= width <= 4
                &&& i + width <= bytes.len()
            },
            None => !valid_first_scalar(bytes@.skip(i as int)),
        },
{
    let ghost rest = bytes@.skip(i as int);
    let left: usize = bytes.len() - i;
    let b0: u8 = bytes[i];
    assert(rest[0] == b0);
    if b0 <= 0x7F {
        assert((b0 & 0x7F) as u32 <= 0x7F) by (bit_vector);
        Some(((b0 & 0x7F) as u32, 1))
    } else if 0xC0 <= b0 && b0 <= 0xDF {
        if left < 2 {
            return None;
        }
        let b1: u8 = bytes[i + 1];
        assert(rest[1] == b1);
        if !is_continuation(b1) {
            return None;
        }
        let scalar: u32 = (((b0 & 0x1F) as u32) << 6) | ((b1 & 0x3F) as u32);
        if scalar < 0x80 {
            return None;
        }
        assert((((b0 & 0x1F) as u32) << 6) | ((b1 & 0x3F) as u32) <= 0x7FF) by (bit_vector);
        Some((scalar, 2))
    } else if 0xE0 <= b0 && b0 <= 0xEF {
        if left < 3 {
            return None;
        }
        let b1: u8 = bytes[i + 1];
        let b2: u8 = bytes[i + 2];
        assert(rest[1] == b1 && rest[2] == b2);
        if !is_continuation(b1) || !is_continuation(b2) {
            return None;
        }
        let scalar: u32 = (((b0 & 0x0F) as u32) << 12) | (((b1 & 0x3F) as u32) << 6) | ((b2
            & 0x3F) as u32);
        if scalar < 0x800 || (0xD800 <= scalar && scalar <= 0xDFFF) {
            return None;
        }
        assert((((b0 & 0x0F) as u32) << 12) | (((b1 & 0x3F) as u32) << 6) | ((b2 & 0x3F) as u32)
            <= 0xFFFF) by (bit_vector);
        Some((scalar, 3))
    } else if 0xF0 <= b0 && b0 <= 0xF7 {
        if left < 4 {
            return None;
        }
        let b1: u8 = bytes[i + 1];
        let b2: u8 = bytes[i + 2];
        let b3: u8 = bytes[i + 3];
        assert(rest[1] == b1 && rest[2] == b2 && rest[3] == b3);
        if !is_continuation(b1) || !is_continuation(b2) || !is_continuation(b3) {
            return None;
        }
        let scalar: u32 = (((b0 & 0x07) as u32) << 18) | (((b1 & 0x3F) as u32) << 12) | (((b2
            & 0x3F) as u32) << 6) | ((b3 & 0x3F) as u32);
        if scalar < 0x10000 || scalar > 0x10FFFF {
            return None;
        }
        Some((scalar, 4))
    } else {
        None
    }
}

/// Whether the scalar `scalar` is a white-space character.
pub fn is_space(scalar: u32) -> (r: bool)
    requires
        is_scalar(scalar),
    ensures
        r == is_white_space(scalar as char),
{
    (0x09 <= scalar && scalar <= 0x0D) || scalar == 0x20 || scalar == 0x85 || scalar == 0xA0
        || scalar == 0x1680 || (0x2000 <= scalar && scalar <= 0x200A) || scalar == 0x2028
        || scalar == 0x2029 || scalar == 0x202F || scalar == 0x205F || scalar == 0x3000
}

/// Counts the words of the lenient reading of `bytes`.
pub fn count_words(bytes: &[u8]) -> (n: usize)
    ensures
        n == word_count(decode_lenient(bytes@)),
        n <= bytes.len(),
{
    let mut n: usize = 0;
    let mut i: usize = 0;
    let mut in_word: bool = false;
    let ghost mut done: Seq<char> = Seq::empty();
    assert(bytes@.skip(0) =~= bytes@);
    while i < bytes.len()
        invariant
            i <= bytes.len(),
            decode_lenient(bytes@) == done + decode_lenient(bytes@.skip(i as int)),
            n == word_count(done),
            n <= done.len() <= i,
            in_word == (done.len() > 0 && !is_white_space(done.last())),
        decreases bytes.len() - i,
    {
        let ghost rest = bytes@.skip(i as int);
        let (space, width) = match scalar_at(bytes, i) {
            Some((scalar, width)) => (is_space(scalar), width),
            None => (false, 1),
        };
        proof {
            let c = first_char(rest);
            assert(width == first_width(rest));
            assert(space == is_white_space(c));
            assert(rest.skip(width as int) =~= bytes@.skip(i + width));
            let next = done.push(c);
            assert(next.drop_last() =~= done);
            assert(done + (seq![c] + decode_lenient(rest.skip(width as int))) =~= next
                + decode_lenient(rest.skip(width as int)));
            done = next;
        }
        if space {
            in_word = false;
        } else {
            if !in_word {
                n = n + 1;
            }
            in_word = true;
        }
        i = i + width;
    }
    assert(done + decode_lenient(bytes@.skip(i as int)) =~= done);
    n
}

/// Counts the characters that `bytes` encodes. Returns `None` where
/// `bytes` is not well-formed UTF-8.
pub fn count_chars(bytes: &[u8]) -> (r: Option<usize>)
    ensures
        match r {
            Some(n) => valid_utf8(bytes@) && n == decode_utf8(bytes@).len() && n <= bytes.len(),
            None => !valid_utf8(bytes@),
        },
{
    let mut n: usize = 0;
    let mut i: usize = 0;
    assert(bytes@.skip(0) =~= bytes@);
    while i < bytes.len()
        invariant
            i <= bytes.len(),
            n <= i,
            valid_utf8(bytes@) <==> valid_utf8(bytes@.skip(i as int)),
            valid_utf8(bytes@) ==> decode_utf8(bytes@).len() == n + decode_utf8(
                bytes@.skip(i as int),
            ).len(),
        decreases bytes.len() - i,
    {
        let ghost rest = bytes@.skip(i as int);
        match scalar_at(bytes, i) {
            None => {
                return None;
            },
            Some((_, width)) => {
                assert(pop_first_scalar(rest) =~= bytes@.skip(i + width));
                n = n + 1;
                i = i + width;
            },
        }
    }
    Some(n)
}

/// Counts the lines of `bytes`.
pub fn count_lines(bytes: &[u8]) -> (n: usize)
    ensures
        n == line_count(bytes@),
        n <= bytes.len(),
{
    let len: usize = bytes.len();
    let mut n: usize = 0;
    let mut i: usize = 0;
    while i < len
        invariant
            len == bytes.len(),
            i <= len,
            n <= i,
            n == line_feed_count(bytes@.take(i as int)),
        decreases len - i,
    {
        assert(bytes@.take(i + 1).drop_last() =~= bytes@.take(i as int));
        if bytes[i] == LINE_FEED {
            n = n + 1;
        }
        i = i + 1;
    }
    assert(bytes@.take(len as int) =~= bytes@);
    proof {
        lemma_line_count_bounded(bytes@);
    }
    if len > 0 && bytes[len - 1] != LINE_FEED {
        n = n + 1;
    }
    n
}

/// Finds the end of the line that begins at `start`: the index after its
/// line feed, or the length of `bytes` where no line feed follows.
pub fn line_end(bytes: &[u8], start: usize) -> (end: usize)
    requires
        start <= bytes.len(),
    ensures
        start <= end <= bytes.len(),
        start < bytes.len() ==> start < end,
        end < bytes.len() ==> bytes@[end - 1] == LINE_FEED,
        forall|j: int| start <= j < end - 1 ==> bytes@[j] != LINE_FEED,
{
    let mut i: usize = start;
    while i < bytes.len()
        invariant
            start <= i <= bytes.len(),
            forall|j: int| start <= j < i ==> bytes@[j] != LINE_FEED,
        decreases bytes.len() - i,
    {
        if bytes[i] == LINE_FEED {
            return i + 1;
        }
        i = i + 1;
    }
    i
}

} // verus!
