//! The recoverable failure of the library: parameter validation at
//! construction time. Violations of a query's domain (a moment that is
//! mathematically undefined for the stored parameters) are a distinct,
//! non-recoverable channel and are not represented here; the query
//! predicates of each distribution decide them ahead of the call.

use vstd::prelude::*;

verus! {

/// Error returned by a distribution constructor when a parameter is a NaN
/// or lies outside the family's admissible range.
#[derive(Clone, Copy, Debug, PartialEq, Eq, Structural)]
pub enum StatsError {
    /// One or more parameters are inadmissible for the family.
    BadParams,
}

} // verus!
