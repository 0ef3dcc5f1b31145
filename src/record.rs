use vstd::prelude::*;
use crate::identifier::Identifier;

verus! {

/// A collection of parameters of a pure substance.
///
/// `molarweight` is held in micrograms per mole (millionths of g/mol); a record
/// without a molar weight holds zero.
#[derive(Debug, Clone)]
pub struct PureRecord<M> {
    pub identifier: Identifier,
    pub molarweight: u64,
    pub model_record: M,
}

impl<M> PureRecord<M> {
    /// Creates a new `PureRecord`.
    pub fn new(identifier: Identifier, molarweight: u64, model_record: M) -> (r: Self)
        ensures
            r.identifier == identifier,
            r.molarweight == molarweight,
            r.model_record == model_record,
    {
        PureRecord { identifier, molarweight, model_record }
    }
}

/// The parameters of one molecular fragment (segment) that records of
/// substances can be combined from. `molarweight` is in micrograms per mole.
#[derive(Debug, Clone)]
pub struct SegmentRecord<M> {
    pub identifier: String,
    pub molarweight: u64,
    pub model_record: M,
}

impl<M> SegmentRecord<M> {
    /// Creates a new `SegmentRecord`.
    pub fn new(identifier: String, molarweight: u64, model_record: M) -> (r: Self)
        ensures
            r.identifier == identifier,
            r.molarweight == molarweight,
            r.model_record == model_record,
    {
        SegmentRecord { identifier, molarweight, model_record }
    }
}

/// A collection of parameters that model interactions between two substances.
#[derive(Debug, Clone)]
pub struct BinaryRecord<B> {
    /// Identifier of the first component
    pub id1: Identifier,
    /// Identifier of the second component
    pub id2: Identifier,
    /// Binary interaction parameter(s)
    pub model_record: B,
}

impl<B> BinaryRecord<B> {
    /// Creates a new `BinaryRecord`; the order of the two identifiers is kept.
    pub fn new(id1: Identifier, id2: Identifier, model_record: B) -> (r: Self)
        ensures
            r.id1 == id1,
            r.id2 == id2,
            r.model_record == model_record,
    {
        BinaryRecord { id1, id2, model_record }
    }
}

} // verus!
