//! What can go wrong.
use vstd::prelude::*;
use crate::regex::RegexError;

verus! {

/// Why a segmenter could not be built, or a list not be read.
#[derive(Debug)]
pub enum SegmenterError {
    /// The engine refused one of the built-in patterns.
    Regex(RegexError),
    /// The automaton that finds line endings could not be built.
    Automaton,
    /// A list marker does not write a number.
    Number,
}

} // verus!
