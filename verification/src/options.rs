//! Which statistics a run gathers.

use vstd::prelude::*;

verus! {

/// The statistics that a run is asked to gather. Every combination of the
/// four flags is meaningful, the empty one included: it asks for nothing.
#[derive(Debug, Clone, Copy, PartialEq, Eq, Structural)]
pub struct WcOptions {
    pub count_lines: bool,
    pub count_words: bool,
    pub count_bytes: bool,
    pub count_chars: bool,
}

impl WcOptions {
    /// The options with no statistic selected.
    pub fn new() -> (opts: Self)
        ensures
            !opts.count_lines,
            !opts.count_words,
            !opts.count_bytes,
            !opts.count_chars,
    {
        WcOptions { count_lines: false, count_words: false, count_bytes: false, count_chars: false }
    }

    /// The options with every statistic selected.
    #[verifier::when_used_as_spec(spec_all)]
    pub fn all() -> (opts: Self)
        ensures
            opts == Self::spec_all(),
    {
        WcOptions { count_lines: true, count_words: true, count_bytes: true, count_chars: true }
    }

    /// The options with every statistic selected.
    pub open spec fn spec_all() -> Self {
        WcOptions { count_lines: true, count_words: true, count_bytes: true, count_chars: true }
    }

    /// Whether no statistic is selected.
    pub fn is_empty(&self) -> (r: bool)
        ensures
            r == (!self.count_lines && !self.count_words && !self.count_bytes
                && !self.count_chars),
    {
        !self.count_lines && !self.count_words && !self.count_bytes && !self.count_chars
    }
}

} // verus!
