use vstd::prelude::*;

verus! {

/// Failures of the resolution of substances and of the combination of segments.
#[derive(Debug, Clone, PartialEq, Eq)]
pub enum ParameterError {
    /// The same substance was requested more than once.
    DuplicateRequest,
    /// No record matched these requested substances (in the order of the request).
    UnresolvedSubstances(Vec<String>),
    /// A model rejected the segments it was asked to combine.
    Aggregation(String),
}

} // verus!
