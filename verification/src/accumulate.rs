//! The accumulator: statistics of a stream, gathered read by read.

use vstd::prelude::*;
use vstd::slice::slice_subrange;
use vstd::utf8::{decode_utf8, valid_utf8};
use crate::counts::{Tally, WcCounts};
use crate::error::WcError;
use crate::options::WcOptions;
use crate::scan::{count_chars, count_lines, count_words, line_end};
use crate::text::{
    decode_lenient, lemma_decode_bounded, lemma_decode_lenient_ascii_last,
    lemma_decode_lenient_concat, lemma_decode_utf8_concat, lemma_line_count_bounded,
    lemma_line_count_concat, lemma_word_count_bounded, lemma_word_count_concat, line_count,
    word_count, LINE_FEED,
};

verus! {

/// Everything that can be counted in `content`: its lines and bytes, the
/// words of its lenient reading, and the characters of its strict reading.
/// The last is meaningful for well-formed content only.
pub open spec fn full_tally(content: Seq<u8>) -> Tally {
    Tally {
        lines: line_count(content),
        words: word_count(decode_lenient(content)),
        bytes: content.len(),
        chars: decode_utf8(content).len(),
    }
}

/// The counters of `tally` that `opts` selects. The others are zero.
pub open spec fn selected(opts: WcOptions, tally: Tally) -> Tally {
    Tally {
        lines: if opts.count_lines {
            tally.lines
        } else {
            0
        },
        words: if opts.count_words {
            tally.words
        } else {
            0
        },
        bytes: if opts.count_bytes {
            tally.bytes
        } else {
            0
        },
        chars: if opts.count_chars {
            tally.chars
        } else {
            0
        },
    }
}

/// The statistics of `content` under `opts`.
///
/// Bytes and lines are counted in the raw content. Words are counted in its
/// lenient reading, so a byte that decodes to nothing is part of a word.
/// Characters are the scalars of the strict reading: where they are asked
/// for and the content is not well-formed UTF-8, the run fails. A counter
/// that is not asked for is zero.
pub open spec fn statistics(opts: WcOptions, content: Seq<u8>) -> Result<Tally, WcError> {
    if opts.count_chars && !valid_utf8(content) {
        Err(WcError::Decoding)
    } else {
        Ok(selected(opts, full_tally(content)))
    }
}

/// The result of two parts of a run, one after the other: the sum of their
/// statistics, or the first failure.
pub open spec fn combine(first: Result<Tally, WcError>, second: Result<Tally, WcError>) -> Result<
    Tally,
    WcError,
> {
    match first {
        Err(e) => Err(e),
        Ok(t) => match second {
            Err(e) => Err(e),
            Ok(u) => Ok(t.plus(u)),
        },
    }
}

/// What a result says, with the counters as natural numbers.
pub open spec fn result_view(r: Result<WcCounts, WcError>) -> Result<Tally, WcError> {
    match r {
        Ok(counts) => Ok(counts@),
        Err(e) => Err(e),
    }
}

/// No statistic of a content exceeds its length.
pub proof fn lemma_statistics_bounded(opts: WcOptions, content: Seq<u8>)
    ensures
        statistics(opts, content) matches Ok(t) ==> t.within(content.len()),
{
    lemma_line_count_bounded(content);
    lemma_decode_bounded(content);
    lemma_word_count_bounded(decode_lenient(content));
}

/// Statistics add up at line boundaries: where `a` is empty or ends with a
/// line feed, the statistics of `a + b` are those of `a` and those of `b`
/// combined.
pub proof fn lemma_statistics_concat(opts: WcOptions, a: Seq<u8>, b: Seq<u8>)
    requires
        a.len() == 0 || a.last() == LINE_FEED,
    ensures
        statistics(opts, a + b) == combine(statistics(opts, a), statistics(opts, b)),
{
    lemma_line_count_concat(a, b);
    lemma_decode_utf8_concat(a, b);
    lemma_decode_lenient_concat(a, b);
    if a.len() > 0 {
        lemma_decode_lenient_ascii_last(a);
    }
    lemma_word_count_concat(decode_lenient(a), decode_lenient(b));
}

/// Gathers the statistics of what one read delivered.
fn count_chunk(opts: &WcOptions, chunk: &[u8]) -> (r: Result<WcCounts, WcError>)
    ensures
        result_view(r) == statistics(*opts, chunk@),
{
    let mut counts = WcCounts::new();
    if opts.count_bytes {
        counts.num_bytes = chunk.len();
    }
    if opts.count_lines {
        counts.num_lines = count_lines(chunk);
    }
    if opts.count_words {
        counts.num_words = count_words(chunk);
    }
    if opts.count_chars {
        match count_chars(chunk) {
            Some(n) => {
                counts.num_chars = n;
            },
            None => {
                return Err(WcError::Decoding);
            },
        }
    }
    Ok(counts)
}

/// What one read of the stream came to.
#[derive(Debug, Clone, Copy)]
pub enum ReadEvent<'a> {
    /// The read delivered these bytes; none, if the stream has ended.
    Delivered(&'a [u8]),
    /// The stream reported a failure.
    Failed,
}

/// How a run goes on after a read.
#[derive(Debug, Clone, Copy, PartialEq, Eq, Structural)]
pub enum Step {
    /// The run goes on with these counts.
    Continue(WcCounts),
    /// The stream has ended, and these are its statistics.
    Finished(WcCounts),
    /// The run has failed. What was counted so far is dropped.
    Failed(WcError),
}

/// Takes a run one read further.
///
/// A read that delivered no byte ends the run with the counts as they are.
/// A read that delivered bytes adds their statistics to the counts, or
/// fails the run where they have none. A failed read fails the run.
pub fn step(opts: &WcOptions, counts: WcCounts, event: ReadEvent) -> (next: Step)
    requires
        event matches ReadEvent::Delivered(chunk) ==> (statistics(*opts, chunk@) matches Ok(t)
            ==> counts@.plus(t).within(usize::MAX as nat)),
    ensures
        match event {
            ReadEvent::Failed => next == Step::Failed(WcError::StreamRead),
            ReadEvent::Delivered(chunk) => if chunk@.len() == 0 {
                next == Step::Finished(counts)
            } else {
                match statistics(*opts, chunk@) {
                    Err(e) => next == Step::Failed(e),
                    Ok(t) => next matches Step::Continue(sum) && sum@ == counts@.plus(t),
                }
            },
        },
        next matches Step::Continue(sum) ==> sum@.at_least(counts@),
{
    match event {
        ReadEvent::Failed => Step::Failed(WcError::StreamRead),
        ReadEvent::Delivered(chunk) => {
            if chunk.len() == 0 {
                Step::Finished(counts)
            } else {
                match count_chunk(opts, chunk) {
                    Err(e) => Step::Failed(e),
                    Ok(found) => Step::Continue(counts.plus(found)),
                }
            }
        },
    }
}

/// What reading the line from `pos` to `end` adds to a run over `content`
/// that has come to `pos`: the statistics up to `end` are those up to `pos`
/// combined with those of the line, and a failure up to `end` is the
/// failure of the whole content.
proof fn lemma_line_read(opts: WcOptions, content: Seq<u8>, pos: int, end: int)
    requires
        0 <= pos < end <= content.len(),
        pos == 0 || content[pos - 1] == LINE_FEED,
        end < content.len() ==> content[end - 1] == LINE_FEED,
    ensures
        statistics(opts, content.take(end)) == combine(
            statistics(opts, content.take(pos)),
            statistics(opts, content.subrange(pos, end)),
        ),
        statistics(opts, content.take(end)) is Err ==> statistics(opts, content) == statistics(
            opts,
            content.take(end),
        ),
        statistics(opts, content.subrange(pos, end)) matches Ok(t) ==> t.within(
            (end - pos) as nat,
        ),
{
    let before = content.take(pos);
    let line = content.subrange(pos, end);
    let upto = content.take(end);
    let after = content.skip(end);
    assert(before + line =~= upto);
    assert(upto + after =~= content);
    lemma_statistics_bounded(opts, line);
    lemma_statistics_concat(opts, before, line);
    if end < content.len() {
        lemma_statistics_concat(opts, upto, after);
    } else {
        assert(upto =~= content);
    }
}

/// Gathers the statistics of a stream that is held in memory, reading it
/// line by line.
pub fn compute_statistics(wc_args: WcOptions, input: &[u8]) -> (r: Result<WcCounts, WcError>)
    ensures
        result_view(r) == statistics(wc_args, input@),
        input@.len() == 0 ==> r == Ok::<WcCounts, WcError>(
            (WcCounts { num_lines: 0, num_words: 0, num_bytes: 0, num_chars: 0 }),
        ),
{
    let mut counts = WcCounts::new();
    let mut pos: usize = 0;
    assert(input@.take(0) =~= Seq::<u8>::empty());
    loop
        invariant
            pos <= input.len(),
            pos < input.len() ==> pos == 0 || input@[pos - 1] == LINE_FEED,
            statistics(wc_args, input@.take(pos as int)) == Ok::<Tally, WcError>(counts@),
            counts@.within(pos as nat),
            input@.len() == 0 ==> counts@ == Tally::zero(),
        decreases input.len() - pos,
    {
        let end = line_end(input, pos);
        let line = slice_subrange(input, pos, end);
        proof {
            if pos < input.len() {
                lemma_line_read(wc_args, input@, pos as int, end as int);
            } else {
                assert(input@.take(pos as int) =~= input@);
            }
        }
        match step(&wc_args, counts, ReadEvent::Delivered(line)) {
            Step::Continue(sum) => {
                counts = sum;
                pos = end;
            },
            Step::Finished(total) => {
                return Ok(total);
            },
            Step::Failed(e) => {
                return Err(e);
            },
        }
    }
}

} // verus!
