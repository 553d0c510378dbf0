//! What the statistics mean: lines and words of a byte sequence, and the
//! text that the bytes encode.
//!
//! Bytes are read as UTF-8. The strict reading is `vstd::utf8::decode_utf8`,
//! defined for well-formed input only. Words are counted in the lenient
//! reading `decode_lenient`, which is defined for every input.

use vstd::prelude::*;
use vstd::utf8::*;

verus! {

/// The line terminator.
pub const LINE_FEED: u8 = 0x0A;

/// The character that stands for a byte that starts no well-formed scalar.
pub const REPLACEMENT: char = '\u{FFFD}';

/// Whether `c` has the Unicode property White_Space.
pub open spec fn is_white_space(c: char) -> bool {
    let u = c as u32;
    ||| 0x09 <= u <= 0x0D
    ||| u == 0x20
    ||| u == 0x85
    ||| u == 0xA0
    ||| u == 0x1680
    ||| 0x2000 <= u <= 0x200A
    ||| u == 0x2028
    ||| u == 0x2029
    ||| u == 0x202F
    ||| u == 0x205F
    ||| u == 0x3000
}

/// How many bytes the first character of the lenient reading takes up: the
/// length of the scalar that `bytes` begins with, or one byte where it
/// begins with none.
pub open spec fn first_width(bytes: Seq<u8>) -> int
    recommends
        bytes.len() > 0,
{
    if valid_first_scalar(bytes) {
        length_of_first_scalar(bytes)
    } else {
        1
    }
}

/// The first character of the lenient reading: the scalar that `bytes`
/// begins with, or `REPLACEMENT` where it begins with none.
pub open spec fn first_char(bytes: Seq<u8>) -> char
    recommends
        bytes.len() > 0,
{
    if valid_first_scalar(bytes) {
        decode_first_scalar(bytes) as char
    } else {
        REPLACEMENT
    }
}

/// The lenient reading of `bytes`: every well-formed scalar decodes to its
/// character, and every byte at which none begins becomes `REPLACEMENT`.
pub open spec fn decode_lenient(bytes: Seq<u8>) -> Seq<char>
    decreases bytes.len(),
{
    if bytes.len() == 0 {
        Seq::empty()
    } else {
        seq![first_char(bytes)] + decode_lenient(bytes.skip(first_width(bytes)))
    }
}

/// Whether a word begins at position `i` of `text`: the character there is
/// no white space, and it is the first one or follows white space.
pub open spec fn begins_word(text: Seq<char>, i: int) -> bool {
    &&& 0 <= i < text.len()
    &&& !is_white_space(text[i])
    &&& (i == 0 || is_white_space(text[i - 1]))
}

/// The number of words in `text`, a word being a maximal run of characters
/// that are no white space: the number of positions at which one begins.
pub open spec fn word_count(text: Seq<char>) -> nat
    decreases text.len(),
{
    if text.len() == 0 {
        0
    } else {
        word_count(text.drop_last()) + if begins_word(text, text.len() - 1) {
            1nat
        } else {
            0nat
        }
    }
}

/// The number of line feeds in `bytes`.
pub open spec fn line_feed_count(bytes: Seq<u8>) -> nat
    decreases bytes.len(),
{
    if bytes.len() == 0 {
        0
    } else {
        line_feed_count(bytes.drop_last()) + if bytes.last() == LINE_FEED {
            1nat
        } else {
            0nat
        }
    }
}

/// The number of lines in `bytes`. A line ends with a line feed or with the
/// input, so there is one per line feed, and one more for what follows the
/// last line feed if anything does.
pub open spec fn line_count(bytes: Seq<u8>) -> nat {
    line_feed_count(bytes) + if bytes.len() > 0 && bytes.last() != LINE_FEED {
        1nat
    } else {
        0nat
    }
}

/// A concatenation has the line feeds of both parts.
pub proof fn lemma_line_feed_count_concat(a: Seq<u8>, b: Seq<u8>)
    ensures
        line_feed_count(a + b) == line_feed_count(a) + line_feed_count(b),
    decreases b.len(),
{
    if b.len() == 0 {
        assert(a + b =~= a);
    } else {
        assert((a + b).drop_last() =~= a + b.drop_last());
        lemma_line_feed_count_concat(a, b.drop_last());
    }
}

/// Where `a` ends with a line, the lines of `a + b` are those of `a` and
/// those of `b`.
pub proof fn lemma_line_count_concat(a: Seq<u8>, b: Seq<u8>)
    requires
        a.len() == 0 || a.last() == LINE_FEED,
    ensures
        line_count(a + b) == line_count(a) + line_count(b),
{
    lemma_line_feed_count_concat(a, b);
    if b.len() == 0 {
        assert(a + b =~= a);
    } else {
        assert((a + b).last() == b.last());
    }
}

/// There are at most as many lines as bytes.
pub proof fn lemma_line_count_bounded(bytes: Seq<u8>)
    ensures
        line_feed_count(bytes) <= bytes.len(),
        line_count(bytes) <= bytes.len(),
    decreases bytes.len(),
{
    if bytes.len() > 0 {
        lemma_line_count_bounded(bytes.drop_last());
    }
}

/// Where `s` ends with white space, no word of `s + t` lies across the
/// seam, so the words of `s + t` are those of `s` and those of `t`.
pub proof fn lemma_word_count_concat(s: Seq<char>, t: Seq<char>)
    requires
        s.len() == 0 || is_white_space(s.last()),
    ensures
        word_count(s + t) == word_count(s) + word_count(t),
    decreases t.len(),
{
    if t.len() == 0 {
        assert(s + t =~= s);
    } else {
        let i = t.len() - 1;
        assert((s + t).drop_last() =~= s + t.drop_last());
        lemma_word_count_concat(s, t.drop_last());
        assert((s + t)[s.len() + i] == t[i]);
        if i > 0 {
            assert((s + t)[s.len() + i - 1] == t[i - 1]);
        } else if s.len() > 0 {
            assert((s + t)[s.len() - 1] == s.last());
        }
    }
}

/// There are at most as many words as characters.
pub proof fn lemma_word_count_bounded(text: Seq<char>)
    ensures
        word_count(text) <= text.len(),
    decreases text.len(),
{
    if text.len() > 0 {
        lemma_word_count_bounded(text.drop_last());
    }
}

/// Where `a` ends with an ASCII byte, no scalar of `a + b` lies across the
/// seam: `a + b` begins as `a` does.
pub proof fn lemma_first_scalar_concat(a: Seq<u8>, b: Seq<u8>)
    requires
        a.len() > 0,
        a.last() <= 0x7F,
    ensures
        valid_first_scalar(a + b) == valid_first_scalar(a),
        first_width(a + b) == first_width(a),
        first_char(a + b) == first_char(a),
        1 <= first_width(a) <= a.len(),
{
    let ab = a + b;
    assert(forall|j: int| 0 <= j < a.len() ==> ab[j] == a[j]);
}

/// Where `a` ends with an ASCII byte, the lenient reading of `a + b` is
/// that of `a` followed by that of `b`.
pub proof fn lemma_decode_lenient_concat(a: Seq<u8>, b: Seq<u8>)
    requires
        a.len() == 0 || a.last() <= 0x7F,
    ensures
        decode_lenient(a + b) == decode_lenient(a) + decode_lenient(b),
    decreases a.len(),
{
    if a.len() == 0 {
        assert(a + b =~= b);
        assert(decode_lenient(a) + decode_lenient(b) =~= decode_lenient(b));
    } else {
        lemma_first_scalar_concat(a, b);
        let w = first_width(a);
        assert((a + b).skip(w) =~= a.skip(w) + b);
        lemma_decode_lenient_concat(a.skip(w), b);
        assert(seq![first_char(a)] + (decode_lenient(a.skip(w)) + decode_lenient(b)) =~= (
        seq![first_char(a)] + decode_lenient(a.skip(w))) + decode_lenient(b));
    }
}

/// Where `a` ends with an ASCII byte, `a + b` is well-formed exactly if
/// both parts are, and then it decodes to what `a` decodes to followed by
/// what `b` decodes to.
pub proof fn lemma_decode_utf8_concat(a: Seq<u8>, b: Seq<u8>)
    requires
        a.len() == 0 || a.last() <= 0x7F,
    ensures
        valid_utf8(a + b) <==> valid_utf8(a) && valid_utf8(b),
        valid_utf8(a + b) ==> decode_utf8(a + b) == decode_utf8(a) + decode_utf8(b),
    decreases a.len(),
{
    if a.len() == 0 {
        assert(a + b =~= b);
        assert(decode_utf8(a) + decode_utf8(b) =~= decode_utf8(b));
    } else {
        lemma_first_scalar_concat(a, b);
        if valid_first_scalar(a) {
            let c = decode_first_scalar(a) as char;
            assert(pop_first_scalar(a + b) =~= pop_first_scalar(a) + b);
            lemma_decode_utf8_concat(pop_first_scalar(a), b);
            if valid_utf8(a + b) {
                assert(seq![c] + (decode_utf8(pop_first_scalar(a)) + decode_utf8(b)) =~= (seq![c]
                    + decode_utf8(pop_first_scalar(a))) + decode_utf8(b));
            }
        }
    }
}

/// Each character of either reading takes up at least one byte.
pub proof fn lemma_decode_bounded(bytes: Seq<u8>)
    ensures
        decode_lenient(bytes).len() <= bytes.len(),
        valid_utf8(bytes) ==> decode_utf8(bytes).len() <= bytes.len(),
    decreases bytes.len(),
{
    if bytes.len() > 0 {
        lemma_decode_bounded(bytes.skip(first_width(bytes)));
    }
}

/// The lenient reading of bytes that end with an ASCII byte ends with
/// that character.
pub proof fn lemma_decode_lenient_ascii_last(bytes: Seq<u8>)
    requires
        bytes.len() > 0,
        bytes.last() <= 0x7F,
    ensures
        decode_lenient(bytes).len() > 0,
        decode_lenient(bytes).last() as u32 == bytes.last(),
    decreases bytes.len(),
{
    let w = first_width(bytes);
    let rest = bytes.skip(w);
    if rest.len() == 0 {
        let b0 = bytes[0];
        assert(b0 <= 0x7F ==> (b0 & 0x7F) as u32 == b0) by (bit_vector);
        assert(decode_lenient(rest) =~= Seq::<char>::empty());
        assert(decode_lenient(bytes) =~= seq![first_char(bytes)]);
    } else {
        lemma_decode_lenient_ascii_last(rest);
    }
}

} // verus!
