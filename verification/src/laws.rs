//! What holds of the statistics of every content.

use vstd::prelude::*;
use vstd::utf8::{decode_utf8, pop_first_scalar, valid_utf8};
use crate::accumulate::{
    combine, full_tally, lemma_statistics_concat, result_view, selected, statistics,
};
use crate::counts::{Tally, WcCounts};
use crate::error::WcError;
use crate::options::WcOptions;
use crate::text::{decode_lenient, LINE_FEED};

verus! {

/// An empty content has no lines, words, bytes or characters, whatever is
/// asked for.
pub proof fn law_empty_content(opts: WcOptions)
    ensures
        statistics(opts, Seq::<u8>::empty()) == Ok::<Tally, WcError>(Tally::zero()),
{
}

/// The result of a run depends on nothing but the options and the content:
/// two results for the same options and content are equal.
pub proof fn law_deterministic(
    opts: WcOptions,
    content: Seq<u8>,
    first: Result<WcCounts, WcError>,
    second: Result<WcCounts, WcError>,
)
    requires
        result_view(first) == statistics(opts, content),
        result_view(second) == statistics(opts, content),
    ensures
        first == second,
{
}

/// Each statistic is counted independently of the others. Under any
/// selection, and so under the selection of a single statistic, a counter
/// that is selected has the value that it has when all four are selected,
/// and a counter that is not selected is zero. This is stated of
/// well-formed content: on other content the run with all four selected
/// fails.
pub proof fn law_flag_independence(opts: WcOptions, content: Seq<u8>)
    requires
        valid_utf8(content),
    ensures
        statistics(WcOptions::all(), content) == Ok::<Tally, WcError>(full_tally(content)),
        statistics(opts, content) == Ok::<Tally, WcError>(selected(opts, full_tally(content))),
{
}

/// Where a run succeeds, every counter that was not selected is zero, on
/// any content.
pub proof fn law_unselected_counters_are_zero(opts: WcOptions, content: Seq<u8>)
    ensures
        statistics(opts, content) matches Ok(tally) ==> {
            &&& !opts.count_lines ==> tally.lines == 0
            &&& !opts.count_words ==> tally.words == 0
            &&& !opts.count_bytes ==> tally.bytes == 0
            &&& !opts.count_chars ==> tally.chars == 0
        },
{
}

/// The chunks put one after the other.
pub open spec fn joined(chunks: Seq<Seq<u8>>) -> Seq<u8>
    decreases chunks.len(),
{
    if chunks.len() == 0 {
        Seq::empty()
    } else {
        joined(chunks.drop_last()) + chunks.last()
    }
}

/// What a run comes to that is handed `chunks` one read after the other
/// and then the end of the stream: the statistics of the chunks added up,
/// or the failure of the first chunk that has none.
pub open spec fn run_result(opts: WcOptions, chunks: Seq<Seq<u8>>) -> Result<Tally, WcError>
    decreases chunks.len(),
{
    if chunks.len() == 0 {
        Ok(Tally::zero())
    } else {
        combine(run_result(opts, chunks.drop_last()), statistics(opts, chunks.last()))
    }
}

/// Whether every chunk but the last ends with a line feed, as the reads of
/// a stream do that is read line by line.
pub open spec fn cut_at_line_ends(chunks: Seq<Seq<u8>>) -> bool {
    forall|i: int|
        0 <= i < chunks.len() - 1 ==> (#[trigger] chunks[i]).len() > 0 && chunks[i].last()
            == LINE_FEED
}

/// A run over a stream that is read line by line, or several lines at a
/// time, comes to the statistics of the stream's whole content.
pub proof fn law_run_by_lines(opts: WcOptions, chunks: Seq<Seq<u8>>)
    requires
        cut_at_line_ends(chunks),
    ensures
        run_result(opts, chunks) == statistics(opts, joined(chunks)),
    decreases chunks.len(),
{
    if chunks.len() > 0 {
        let before = chunks.drop_last();
        law_run_by_lines(opts, before);
        if before.len() > 0 {
            assert(before.last() == chunks[chunks.len() - 2]);
        }
        lemma_statistics_concat(opts, joined(before), chunks.last());
    }
}

/// Well-formed content reads the same leniently and strictly, so its
/// words are those of the text that it encodes.
pub proof fn law_lenient_reading_of_well_formed(content: Seq<u8>)
    requires
        valid_utf8(content),
    ensures
        decode_lenient(content) == decode_utf8(content),
    decreases content.len(),
{
    if content.len() > 0 {
        law_lenient_reading_of_well_formed(pop_first_scalar(content));
    }
}

/// Whether every byte of `content` is an ASCII character.
pub open spec fn is_ascii_content(content: Seq<u8>) -> bool {
    forall|i: int| 0 <= i < content.len() ==> content[i] <= 0x7F
}

/// Content in ASCII is well-formed and has one character per byte.
pub proof fn law_ascii_chars_are_bytes(content: Seq<u8>)
    requires
        is_ascii_content(content),
    ensures
        valid_utf8(content),
        decode_utf8(content).len() == content.len(),
        full_tally(content).chars == full_tally(content).bytes,
    decreases content.len(),
{
    if content.len() > 0 {
        let b0 = content[0];
        assert(b0 <= 0x7F ==> (b0 & 0x7F) as u32 <= 0x7F) by (bit_vector);
        law_ascii_chars_are_bytes(pop_first_scalar(content));
    }
}

} // verus!
