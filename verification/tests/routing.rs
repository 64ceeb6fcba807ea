use std::collections::hash_map::DefaultHasher;
use std::hash::{Hash, Hasher};

use transaction_processor::processor::{DEFAULT_CHANNEL_CAPACITY, MAX_CHANNEL_CAPACITY};
use transaction_processor::sources::{route, route_hash};
use transaction_processor::{TransactionProcessor, TransactionProcessorBuilder};

#[test]
fn route_is_in_range() {
    for parallelism in [1, 2, 4, 8, 16] {
        for key in 0..1024u16 {
            assert!(route(key, parallelism) < parallelism);
        }
    }
}

#[test]
fn route_is_deterministic() {
    assert_eq!(route(42, 8), route(42, 8));
    assert_eq!(route(u16::MAX, 4), route(u16::MAX, 4));
}

#[test]
fn transaction_processor_direct_use() {
    let processor = TransactionProcessor::builder()
        .parallelism(4)
        .channel_capacity(128)
        .build();

    assert_eq!(processor.parallelism(), 4);
    assert_eq!(processor.channel_capacity(), 128);

    let idx_a = processor.route(42);
    let idx_b = processor.route(42);
    assert_eq!(idx_a, idx_b, "router must be deterministic");
    assert!(idx_a < 4);
}

#[test]
fn a_single_worker_takes_every_key() {
    let processor = TransactionProcessor::builder()
        .parallelism(1)
        .channel_capacity(2)
        .build();
    assert_eq!(processor.parallelism(), 1);
    assert_eq!(processor.channel_capacity(), 2);
    assert_eq!(processor.route(2341), 0);
    assert_eq!(route(2341, 0), 0);
}

#[test]
fn routes_follow_the_hash_of_the_key() {
    for key in [0u16, 1, 42, 2341, u16::MAX] {
        let mut hasher = DefaultHasher::new();
        key.hash(&mut hasher);
        for parallelism in [1usize, 2, 3, 8] {
            assert_eq!(
                route(key, parallelism),
                (hasher.finish() as usize) % parallelism
            );
        }
    }
    assert_eq!(route_hash(10, 4), 2);
    assert_eq!(route_hash(10, 0), 0);
}

#[test]
fn routes_spread_over_the_channels() {
    let mut used = [false; 4];
    for key in 0..256u16 {
        used[route(key, 4)] = true;
    }
    assert_eq!(used, [true; 4]);
}

#[test]
fn builder_defaults() {
    let builder = TransactionProcessorBuilder::default();
    assert!(builder.parallelism.is_none());
    assert_eq!(builder.channel_capacity, DEFAULT_CHANNEL_CAPACITY);
    assert_eq!(DEFAULT_CHANNEL_CAPACITY, 512);

    let processor = builder.build();
    assert_eq!(processor.parallelism(), num_cpus::get().max(1));
    assert_eq!(processor.channel_capacity(), 512);
}

#[test]
fn there_is_always_a_worker() {
    let none = TransactionProcessor::builder().parallelism(0).build();
    assert_eq!(none.parallelism(), 1);
    assert_eq!(TransactionProcessor::builder().build_for(6).parallelism(), 6);
    assert_eq!(TransactionProcessor::builder().build_for(0).parallelism(), 1);
    let asked = TransactionProcessor::builder().parallelism(3).build_for(6);
    assert_eq!(asked.parallelism(), 3);
}

#[test]
fn capacities_reach_from_one_to_the_largest() {
    for capacity in [1, MAX_CHANNEL_CAPACITY] {
        let processor = TransactionProcessor::builder()
            .parallelism(2)
            .channel_capacity(capacity)
            .build();
        assert_eq!(processor.channel_capacity(), capacity);
    }
    assert_eq!(MAX_CHANNEL_CAPACITY, usize::MAX >> 3);
}
