//! Statistics that a column segment keeps about the values pushed into it.
use vstd::prelude::*;

use cardinality_estimator::CardinalityEstimator;
use fastbloom::BloomFilter;

use crate::db_storage::zone_map::{spec_zone_updated, spec_zone_width, ZoneMap};
use crate::db_types::TableSchema;

verus! {

#[verifier::external_type_specification]
#[verifier::external_body]
#[verifier::reject_recursive_types(S)]
pub struct ExBloomFilter<S>(BloomFilter<S>);

#[verifier::external_type_specification]
#[verifier::external_body]
pub struct ExRandomState<const AVALANCHE: bool, const SPONGE: bool, const COMPACT: bool, const PROTECTED: bool>(
    rapidhash::inner::RandomState<AVALANCHE, SPONGE, COMPACT, PROTECTED>,
);

#[verifier::external_type_specification]
#[verifier::external_body]
#[verifier::reject_recursive_types(T)]
#[verifier::reject_recursive_types(H)]
pub struct ExCardinalityEstimator<T: std::hash::Hash + ?Sized, H: std::hash::Hasher + Default, const P: usize, const W: usize>(
    CardinalityEstimator<T, H, P, W>,
);

#[verifier::external_type_specification]
#[verifier::external_body]
pub struct ExRapidHasher<'s, const AVALANCHE: bool, const SPONGE: bool, const COMPACT: bool, const PROTECTED: bool>(
    rapidhash::inner::RapidHasher<'s, AVALANCHE, SPONGE, COMPACT, PROTECTED>,
);

/// Statistics of one column segment: a zone map, a Bloom filter and a
/// HyperLogLog++ cardinality sketch of the values pushed.
#[derive(Debug)]
pub struct ColumnSegmentStatistics {
    zone_map: ZoneMap,
    bloom: Option<BloomFilter<rapidhash::quality::RandomState>>,
    hll: CardinalityEstimator<[u8], rapidhash::quality::RapidHasher<'static>>,
}

/// `fastbloom::BloomFilter::with_num_bits(64)` with a
/// `rapidhash::quality::RandomState::default()` hasher and one hash per item:
/// an empty 64-bit Bloom filter whose hasher has a fresh random seed.
#[verifier::external_body]
fn new_bloom_filter() -> (filter: BloomFilter<rapidhash::quality::RandomState>) {
    BloomFilter::with_num_bits(64).hasher(rapidhash::quality::RandomState::default()).hashes(1)
}

/// `fastbloom::BloomFilter::insert`: sets the bits of `bytes`. What it returns
/// (whether the item may have been present) depends on the seed and is
/// dropped.
#[verifier::external_body]
fn bloom_insert(filter: &mut BloomFilter<rapidhash::quality::RandomState>, bytes: &[u8]) {
    filter.insert(bytes);
}

/// `cardinality_estimator::CardinalityEstimator::new`: an empty HyperLogLog++
/// sketch of byte strings hashed with rapidhash.
#[verifier::external_body]
fn new_cardinality_estimator() -> (estimator: CardinalityEstimator<[u8], rapidhash::quality::RapidHasher<'static>>) {
    CardinalityEstimator::new()
}

/// `cardinality_estimator::CardinalityEstimator::insert`: adds `bytes` to the
/// sketch.
#[verifier::external_body]
fn cardinality_insert(estimator: &mut CardinalityEstimator<[u8], rapidhash::quality::RapidHasher<'static>>, bytes: &[u8]) {
    estimator.insert(bytes);
}

impl ColumnSegmentStatistics {
    /// The zone map of the values pushed so far.
    pub closed spec fn spec_zone_map(&self) -> ZoneMap {
        self.zone_map
    }

    /// Whether the statistics keep a Bloom filter of the values.
    pub closed spec fn spec_has_bloom_filter(&self) -> bool {
        self.bloom is Some
    }

    pub fn new() -> (statistics: Self)
        ensures
            statistics.spec_has_bloom_filter(),
            statistics.spec_zone_map().spec_min() == Seq::new(8, |i: int| 0u8),
            statistics.spec_zone_map().spec_max() == Seq::new(8, |i: int| 0u8),
    {
        Self { zone_map: ZoneMap::new(), bloom: Some(new_bloom_filter()), hll: new_cardinality_estimator() }
    }

    /// Records one value of column `idx` of `schema`: adds it to the Bloom
    /// filter and the cardinality sketch, and folds it into the zone map by
    /// the column's type.
    pub fn update(&mut self, bytes: &[u8], schema: &TableSchema, idx: usize)
        requires
            idx < schema.spec_columns().len(),
            bytes@.len() >= spec_zone_width(schema.spec_columns()[idx as int].spec_data_type()),
        ensures
            spec_zone_updated(
                old(self).spec_zone_map(),
                final(self).spec_zone_map(),
                bytes@,
                schema.spec_columns()[idx as int].spec_data_type(),
            ),
            final(self).spec_has_bloom_filter() == old(self).spec_has_bloom_filter(),
    {
        match &mut self.bloom {
            Some(bloom_filter) => bloom_insert(bloom_filter, bytes),
            None => {},
        }
        cardinality_insert(&mut self.hll, bytes);
        self.zone_map.update(bytes, schema.column_at(idx).data_type());
    }
}

} // verus!
