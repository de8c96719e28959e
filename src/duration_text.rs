//! Durations written as text, read by the `parse_duration` crate.

use vstd::prelude::*;

verus! {

/// The length in nanoseconds of the duration that `parse_duration::parse`
/// reads from a text, or `None` where it reports an error.
pub uninterp spec fn duration_of(s: Seq<char>) -> Option<u128>;

/// Relies on `parse_duration::parse`: a pure function of the text, which
/// returns a `Duration` (here in whole nanoseconds) or an error (here `None`).
#[verifier::external_body]
pub(crate) fn parse_duration_nanos(s: &str) -> (r: Option<u128>)
    ensures
        r == duration_of(s@),
{
    ::parse_duration::parse(s).ok().map(|d| d.as_nanos())
}

} // verus!
