//! The two ways in which the rules compile their patterns.
use vstd::prelude::*;
use crate::regex::{regex_compiles, Pattern, RegexError};

verus! {

/// Compiles `regex` as it is written.
pub fn re(regex: &str) -> (r: Result<Pattern, RegexError>)
    ensures
        r is Ok == regex_compiles(regex@, false),
        r is Ok ==> r->Ok_0.pattern() == (regex@, false),
{
    Pattern::new(regex, false)
}

/// Compiles `regex` to match without regard to case.
pub fn re_i(regex: &str) -> (r: Result<Pattern, RegexError>)
    ensures
        r is Ok == regex_compiles(regex@, true),
        r is Ok ==> r->Ok_0.pattern() == (regex@, true),
{
    Pattern::new(regex, true)
}

} // verus!
