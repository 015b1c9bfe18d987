use voxel_world::server::{fan_out, ChunkCache, RequestOutcome};
use voxel_world::types::block::Block;
use voxel_world::types::chunk::{ChunkData, ChunkPosition};

fn is_start(outcome: &RequestOutcome) -> bool {
    matches!(outcome, RequestOutcome::StartGeneration)
}

#[test]
fn first_request_starts_generation() {
    let mut cache = ChunkCache::new();
    let pos = ChunkPosition::new(3, -4);
    assert!(!cache.is_generating(pos));
    assert!(is_start(&cache.request(pos, 7)));
    assert!(cache.is_generating(pos));
    assert!(cache.cached(pos).is_none());
}

#[test]
fn many_requests_share_one_generation() {
    let mut cache = ChunkCache::new();
    let pos = ChunkPosition::new(0, 0);
    let requesters: Vec<u64> = vec![11, 12, 13, 14, 15];
    let mut started = 0;
    for (i, requester) in requesters.iter().enumerate() {
        let outcome = cache.request(pos, *requester);
        if is_start(&outcome) {
            started += 1;
            assert_eq!(i, 0);
        } else {
            assert!(matches!(outcome, RequestOutcome::Subscribed));
        }
    }
    assert_eq!(started, 1);
    let subscribers = cache.complete_generation(pos, ChunkData::new_test()).unwrap();
    assert_eq!(subscribers, requesters);
    let deliveries = fan_out(&subscribers, vec![1, 2, 3]);
    assert_eq!(deliveries.len(), 5);
    for (delivery, requester) in deliveries.iter().zip(requesters.iter()) {
        assert_eq!(delivery.0, *requester);
        assert_eq!(delivery.1, vec![1, 2, 3]);
    }
}

#[test]
fn subscribing_twice_counts_once() {
    let mut cache = ChunkCache::new();
    let pos = ChunkPosition::new(9, 9);
    assert!(is_start(&cache.request(pos, 1)));
    assert!(matches!(cache.request(pos, 1), RequestOutcome::AlreadySubscribed));
    assert!(matches!(cache.request(pos, 2), RequestOutcome::Subscribed));
    assert!(matches!(cache.request(pos, 2), RequestOutcome::AlreadySubscribed));
    assert!(matches!(cache.request(pos, 1), RequestOutcome::AlreadySubscribed));
    let subscribers = cache.complete_generation(pos, ChunkData::new()).unwrap();
    assert_eq!(subscribers, vec![1, 2]);
    assert_eq!(fan_out(&subscribers, vec![9]).len(), 2);
}

#[test]
fn ready_chunk_is_served_from_the_cache() {
    let mut cache = ChunkCache::new();
    let pos = ChunkPosition::new(-1, 2);
    assert!(is_start(&cache.request(pos, 1)));
    let mut chunk = ChunkData::new();
    chunk.set(1, 2, 3, Block { block_type: 42 });
    assert_eq!(cache.complete_generation(pos, chunk), Some(vec![1]));
    assert!(!cache.is_generating(pos));
    for requester in [1u64, 2, 3] {
        match cache.request(pos, requester) {
            RequestOutcome::Cached(copy) => {
                assert_eq!(copy.get(1, 2, 3).block_type, 42);
                assert_eq!(copy.get(0, 0, 0).block_type, 0);
            },
            _ => panic!("a ready chunk is served from the cache"),
        }
    }
    assert_eq!(cache.cached(pos).unwrap().get(1, 2, 3).block_type, 42);
}

#[test]
fn a_chunk_becomes_ready_once() {
    let mut cache = ChunkCache::new();
    let pos = ChunkPosition::new(5, 5);
    assert_eq!(cache.complete_generation(pos, ChunkData::new()), None);
    assert!(cache.cached(pos).is_none());
    assert!(is_start(&cache.request(pos, 1)));
    assert_eq!(cache.complete_generation(pos, ChunkData::new_test()), Some(vec![1]));
    assert_eq!(cache.complete_generation(pos, ChunkData::new()), None);
    assert_eq!(cache.cached(pos).unwrap().get(0, 0, 0).block_type, 1);
}

#[test]
fn positions_are_kept_apart() {
    let mut cache = ChunkCache::new();
    let a = ChunkPosition::new(1, 0);
    let b = ChunkPosition::new(0, 1);
    let c = ChunkPosition::new(i64::MIN, i64::MAX);
    assert!(is_start(&cache.request(a, 1)));
    assert!(is_start(&cache.request(b, 1)));
    assert!(is_start(&cache.request(c, 2)));
    assert_eq!(cache.complete_generation(b, ChunkData::new()), Some(vec![1]));
    assert!(cache.is_generating(a));
    assert!(cache.is_generating(c));
    assert!(cache.cached(b).is_some());
    assert!(matches!(cache.request(a, 2), RequestOutcome::Subscribed));
    assert_eq!(cache.complete_generation(a, ChunkData::new()), Some(vec![1, 2]));
    assert_eq!(cache.complete_generation(c, ChunkData::new()), Some(vec![2]));
}

#[test]
fn fan_out_to_nobody_and_to_one() {
    assert!(fan_out(&Vec::new(), vec![1]).is_empty());
    assert_eq!(fan_out(&vec![4], vec![1, 2]), vec![(4u64, vec![1u8, 2])]);
}
