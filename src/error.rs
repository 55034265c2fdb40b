use vstd::prelude::*;

verus! {

/// Fatal conditions that abort a harmonizing pass.
#[derive(Debug, Clone, Copy, PartialEq, Eq, Structural)]
pub enum HarmonizeError {
    /// The top level of a run file holds neither `meta` nor `events`.
    InvalidVersion,
    /// A header or scaler record is shorter than its schema demands.
    MalformedRecord,
    /// An output counter (file number or event index) would overflow.
    CounterOverflow,
}

} // verus!
