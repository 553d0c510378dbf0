//! The four counters.

use vstd::prelude::*;

verus! {

/// The mathematical value of the four counters: natural numbers, without a
/// machine limit.
pub struct Tally {
    pub lines: nat,
    pub words: nat,
    pub bytes: nat,
    pub chars: nat,
}

impl Tally {
    /// Nothing counted.
    pub open spec fn zero() -> Tally {
        Tally { lines: 0, words: 0, bytes: 0, chars: 0 }
    }

    /// The counters of `self` and `other` added one by one.
    pub open spec fn plus(self, other: Tally) -> Tally {
        Tally {
            lines: self.lines + other.lines,
            words: self.words + other.words,
            bytes: self.bytes + other.bytes,
            chars: self.chars + other.chars,
        }
    }

    /// Whether no counter exceeds `limit`.
    pub open spec fn within(self, limit: nat) -> bool {
        &&& self.lines <= limit
        &&& self.words <= limit
        &&& self.bytes <= limit
        &&& self.chars <= limit
    }

    /// Whether every counter of `self` is at least that of `earlier`.
    pub open spec fn at_least(self, earlier: Tally) -> bool {
        &&& self.lines >= earlier.lines
        &&& self.words >= earlier.words
        &&& self.bytes >= earlier.bytes
        &&& self.chars >= earlier.chars
    }
}

/// The statistics of a run. A counter that was not asked for stays zero.
#[derive(Debug, Clone, Copy, PartialEq, Eq, Structural)]
pub struct WcCounts {
    pub num_lines: usize,
    pub num_words: usize,
    pub num_bytes: usize,
    pub num_chars: usize,
}

impl View for WcCounts {
    type V = Tally;

    open spec fn view(&self) -> Tally {
        Tally {
            lines: self.num_lines as nat,
            words: self.num_words as nat,
            bytes: self.num_bytes as nat,
            chars: self.num_chars as nat,
        }
    }
}

impl WcCounts {
    /// The counts before anything was read: all zero.
    pub fn new() -> (counts: Self)
        ensures
            counts@ == Tally::zero(),
    {
        WcCounts { num_lines: 0, num_words: 0, num_bytes: 0, num_chars: 0 }
    }

    /// Whether every counter can grow by `n` without leaving `usize`.
    pub fn has_room(&self, n: usize) -> (r: bool)
        ensures
            r == self@.within((usize::MAX - n) as nat),
    {
        let limit: usize = usize::MAX - n;
        self.num_lines <= limit && self.num_words <= limit && self.num_bytes <= limit
            && self.num_chars <= limit
    }

    /// Adds the counters of `other` to those of `self`.
    pub fn plus(self, other: WcCounts) -> (sum: WcCounts)
        requires
            self@.plus(other@).within(usize::MAX as nat),
        ensures
            sum@ == self@.plus(other@),
    {
        WcCounts {
            num_lines: self.num_lines + other.num_lines,
            num_words: self.num_words + other.num_words,
            num_bytes: self.num_bytes + other.num_bytes,
            num_chars: self.num_chars + other.num_chars,
        }
    }
}

} // verus!
