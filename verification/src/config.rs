//! What the indexer knows of an event that it follows.

use vstd::prelude::*;

verus! {

/// A 256-bit topic, most significant half first.
#[derive(Clone, Copy, Debug, PartialEq, Eq, Structural)]
pub struct TopicId {
    pub high: u128,
    pub low: u128,
}

/// An event to index and the limits that apply to it.
#[derive(Clone, Debug)]
pub struct EventProcessingConfig {
    pub contract_name: String,
    pub event_name: String,
    pub topic_id: TopicId,
    /// Whether new blocks are followed once the history is indexed.
    pub live_indexing: bool,
    /// Whether the next logs wait until the events of the previous ones have been handled.
    pub index_event_in_order: bool,
    /// How many blocks behind the head a block counts as safe from a reorganisation.
    pub indexing_distance_from_head: u64,
    pub disable_logs_bloom_checks: bool,
    /// The largest number of blocks that the provider takes in one request.
    pub max_block_range: Option<u64>,
    pub min_block_range: Option<u64>,
}

} // verus!
