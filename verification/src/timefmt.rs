//! Timestamp validation leans on chrono's RFC 3339 parser.

use vstd::prelude::*;

verus! {

/// Whether `chrono::DateTime::parse_from_rfc3339` accepts the string.
pub uninterp spec fn is_rfc3339(s: Seq<char>) -> bool;

/// Relies on `chrono::DateTime::<FixedOffset>::parse_from_rfc3339`: whether a
/// string parses as an RFC 3339 timestamp depends on the characters alone.
#[verifier::external_body]
pub(crate) fn rfc3339_valid(s: &str) -> (r: bool)
    ensures
        r == is_rfc3339(s@),
{
    chrono::DateTime::parse_from_rfc3339(s).is_ok()
}

} // verus!
