//! Weighted random selection of equipment stats.
//!
//! A [`WeightContainer`] holds one non-negative integer weight per [`Stat`] and
//! draws a stat with probability proportional to its weight, by inverting the
//! cumulative distribution of the weights. [`ArtifactBases`] holds, for each of
//! the five [`SlotType`]s, a primary and a secondary weight table, filled in
//! from a list of [`ArtifactRecord`]s.

mod bases;
mod stat;
mod weights;

pub use bases::{
    import_records, last_set, last_write, lemma_import_deterministic, lemma_import_last_write_wins,
    record_pairs, slot_weights, ArtifactBase, ArtifactBases, ArtifactRecord,
};
pub use stat::{SlotType, Stat, SLOT_COUNT, STAT_COUNT};
pub use weights::{
    apply_pairs, index_of, last_below, lemma_high_fraction_draws_last, lemma_low_fraction_draws_first,
    lemma_set_then_remove, pick, prefix_sum, total_of, zero_weights, WeightContainer, DRAW_SCALE,
    MAX_WEIGHT,
};
