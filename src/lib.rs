//! Parameter records of pure substances and binary mixtures, the resolution of
//! requested substances against a library of records, and the synthesis of a
//! substance record from weighted segment records.

mod error;
mod identifier;
mod record;
mod resolve;
mod segments;
mod vec_util;

pub use error::ParameterError;
pub use identifier::{Identifier, IdentifierOption};
pub use record::{BinaryRecord, PureRecord, SegmentRecord};
pub use segments::{CountType, FromSegments, FRACTION_SCALE};
pub use resolve::{
    all_matched, first_index, has_duplicates, has_match, is_first_match, lemma_first_match_wins,
    lemma_order_preserved, lemma_repeated_request, lemma_trailing_records_ignored, matches_key,
    resolved, unmatched, views,
};
pub use segments::{lemma_two_segment_molarweight, model_segments, total_molarweight};
pub use identifier::field_view;
