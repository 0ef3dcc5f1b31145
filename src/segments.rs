use vstd::prelude::*;
use crate::error::ParameterError;
use crate::identifier::Identifier;
use crate::record::{PureRecord, SegmentRecord};
use crate::vec_util::reversed;

verus! {

/// The denominator of a fractional count: `Fractional(f)` stands for `f / FRACTION_SCALE`.
pub const FRACTION_SCALE: u64 = 1_000_000;

/// How many times, or how much of, a segment occurs in a molecule.
#[derive(Debug, Clone, Copy, PartialEq, Eq, Structural)]
pub enum CountType {
    /// A whole number of repeats.
    Integral(u64),
    /// A continuous weight, in millionths.
    Fractional(u64),
}

impl CountType {
    /// The quantity `x` scaled by this count; a fractional scaling rounds down.
    pub open spec fn apply_spec(self, x: nat) -> nat {
        match self {
            CountType::Integral(n) => (n as nat) * x,
            CountType::Fractional(f) => ((f as nat) * x) / (FRACTION_SCALE as nat),
        }
    }

    /// Scales the quantity `x` by this count.
    pub fn apply_count(&self, x: u64) -> (r: u64)
        requires
            self.apply_spec(x as nat) <= u64::MAX,
        ensures
            r == self.apply_spec(x as nat),
    {
        match *self {
            CountType::Integral(n) => n * x,
            CountType::Fractional(f) => {
                let p: u128 = (f as u128) * (x as u128);
                (p / (FRACTION_SCALE as u128)) as u64
            },
        }
    }
}

/// Models that build their record of a substance from the records of its
/// segments, each with the number of its occurrences (a homosegmented group
/// contribution method).
pub trait FromSegments<T>: Sized {
    /// The record that `from_segments` builds, or the reason it fails. A
    /// verified model defines it; by default it is left unspecified.
    closed spec fn combined(segments: Seq<(Self, T)>) -> Result<Self, ParameterError> {
        arbitrary()
    }

    /// Constructs the record from a list of segment records with their
    /// number of occurrences.
    fn from_segments(segments: &[(Self, T)]) -> (r: Result<Self, ParameterError>)
        ensures
            r == Self::combined(segments@),
    ;
}

/// The molar weight of a molecule made of `segments`: the sum of each segment's
/// molar weight scaled by its count.
pub open spec fn total_molarweight<M>(segments: Seq<(SegmentRecord<M>, CountType)>) -> nat
    decreases segments.len(),
{
    if segments.len() == 0 {
        0
    } else {
        total_molarweight(segments.drop_last()) + segments.last().1.apply_spec(
            segments.last().0.molarweight as nat,
        )
    }
}

/// The model records of `segments`, each with its count, in the same order.
pub open spec fn model_segments<M>(segments: Seq<(SegmentRecord<M>, CountType)>) -> Seq<(M, CountType)> {
    segments.map_values(|p: (SegmentRecord<M>, CountType)| (p.0.model_record, p.1))
}

/// The weighted molar weight of a longer list is at least that of its prefix.
proof fn lemma_total_monotone<M>(segments: Seq<(SegmentRecord<M>, CountType)>, k: int)
    requires
        0 <= k <= segments.len(),
    ensures
        total_molarweight(segments.take(k)) <= total_molarweight(segments),
    decreases segments.len() - k,
{
    if k < segments.len() {
        lemma_total_monotone(segments, k + 1);
        assert(segments.take(k + 1).drop_last() =~= segments.take(k));
    } else {
        assert(segments.take(k) =~= segments);
    }
}

/// The molar weight of a molecule of two segments is the sum of their molar
/// weights, each scaled by its count.
pub proof fn lemma_two_segment_molarweight<M>(
    s1: SegmentRecord<M>,
    n1: CountType,
    s2: SegmentRecord<M>,
    n2: CountType,
)
    ensures
        total_molarweight(seq![(s1, n1), (s2, n2)]) == n1.apply_spec(s1.molarweight as nat)
            + n2.apply_spec(s2.molarweight as nat),
{
    let s = seq![(s1, n1), (s2, n2)];
    assert(s.drop_last() =~= seq![(s1, n1)]);
    assert(s.drop_last().drop_last() =~= Seq::<(SegmentRecord<M>, CountType)>::empty());
    assert(s.drop_last().last() == (s1, n1));
    assert(s.last() == (s2, n2));
    assert(total_molarweight(s.drop_last().drop_last()) == 0);
    assert(total_molarweight(s.drop_last()) == n1.apply_spec(s1.molarweight as nat));
}

impl<M> PureRecord<M> {
    /// Builds the record of a substance from its segments: the molar weight is
    /// the weighted sum of the segments' molar weights, and the model record is
    /// what the model combines from the segments' model records and counts, in
    /// the order given. A failure of the model is passed on unchanged.
    pub fn from_segments(identifier: Identifier, segments: Vec<(SegmentRecord<M>, CountType)>) -> (r:
        Result<Self, ParameterError>) where M: FromSegments<CountType>
        requires
            total_molarweight(segments@) <= u64::MAX,
        ensures
            match M::combined(model_segments(segments@)) {
                Ok(model_record) => r == Ok::<Self, ParameterError>(
                    PureRecord {
                        identifier,
                        molarweight: total_molarweight(segments@) as u64,
                        model_record,
                    },
                ),
                Err(e) => r == Err::<Self, ParameterError>(e),
            },
    {
        let ghost segs = segments@;
        let n = segments.len();
        let mut stack = reversed(segments);
        let mut molarweight: u64 = 0;
        let mut models: Vec<(M, CountType)> = Vec::new();
        let mut i: usize = 0;
        while i < n
            invariant
                n == segs.len(),
                total_molarweight(segs) <= u64::MAX,
                i <= n,
                stack@.len() == n - i,
                forall|t: int| 0 <= t < n - i ==> stack@[t] == segs[n - 1 - t],
                molarweight == total_molarweight(segs.take(i as int)),
                models@ == model_segments(segs.take(i as int)),
            decreases n - i,
        {
            let (s, c) = stack.pop().unwrap();
            proof {
                assert(segs.take(i as int + 1).drop_last() =~= segs.take(i as int));
                lemma_total_monotone(segs, i as int + 1);
            }
            molarweight = molarweight + c.apply_count(s.molarweight);
            models.push((s.model_record, c));
            assert(models@ =~= model_segments(segs.take(i as int + 1)));
            i += 1;
        }
        assert(segs.take(n as int) =~= segs);
        match M::from_segments(models.as_slice()) {
            Ok(model_record) => Ok(PureRecord::new(identifier, molarweight, model_record)),
            Err(e) => Err(e),
        }
    }
}

} // verus!
