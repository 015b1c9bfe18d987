use voxel_world::codec::CodecError;
use voxel_world::player::{chunk_coordinate, ChunkLocation};
use voxel_world::types::block::Block;
use voxel_world::types::chunk::{ChunkData, ChunkMap, ChunkPosition, PositionSet};
use voxel_world::world::{
    chunk_distance, chunk_origin, ChunkStage, ClientWorld, MeshStage,
    MAX_STARTED_MESH_BUILD_TASKS_PER_TICK,
};

fn give_data(world: &mut ClientWorld, pos: ChunkPosition) {
    let ticket = world.receive_chunk(pos).unwrap();
    assert!(world.apply_decompressed(pos, ticket, Ok(ChunkData::new_test())));
}

#[test]
fn chunk_distance_is_the_larger_gap() {
    let origin = ChunkLocation(0, 0);
    assert_eq!(chunk_distance(&ChunkPosition::new(3, 0), &origin), 3);
    assert_eq!(chunk_distance(&ChunkPosition::new(2, 2), &origin), 2);
    assert_eq!(chunk_distance(&ChunkPosition::new(-2, 5), &origin), 5);
    assert_eq!(chunk_distance(&ChunkPosition::new(-7, -5), &ChunkLocation(1, 1)), 8);
    assert_eq!(chunk_distance(&ChunkPosition::new(4, 4), &ChunkLocation(4, 4)), 0);
    assert_eq!(
        chunk_distance(&ChunkPosition::new(i64::MAX, 0), &ChunkLocation(i64::MIN, 0)),
        u64::MAX
    );
}

#[test]
fn chunk_coordinate_rounds_down() {
    assert_eq!(chunk_coordinate(0), 0);
    assert_eq!(chunk_coordinate(15), 0);
    assert_eq!(chunk_coordinate(16), 1);
    assert_eq!(chunk_coordinate(-1), -1);
    assert_eq!(chunk_coordinate(-16), -1);
    assert_eq!(chunk_coordinate(-17), -2);
    assert_eq!(chunk_coordinate(i64::MIN), i64::MIN / 16);
    assert_eq!(chunk_coordinate(i64::MAX), i64::MAX / 16);
    assert_eq!(ChunkLocation::containing(-1, 33), ChunkLocation(-1, 2));
}

#[test]
fn chunk_location_says_when_it_moves() {
    let mut location = ChunkLocation::default();
    assert_eq!(location, ChunkLocation(0, 0));
    assert!(!location.move_to(0, 0));
    assert!(location.move_to(0, 1));
    assert_eq!(location, ChunkLocation(0, 1));
    assert!(location.move_to(-3, 1));
    assert!(!location.move_to(-3, 1));
}

#[test]
fn chunk_origin_scales_by_the_chunk_size() {
    assert_eq!(chunk_origin(ChunkPosition::new(2, -3)), (32, -48));
    assert_eq!(chunk_origin(ChunkPosition::new(i64::MAX, i64::MIN)).0, i64::MAX as i128 * 16);
}

#[test]
fn first_update_asks_for_the_whole_square() {
    let mut world = ClientWorld::new(1);
    let update = world.update_loaded_chunks(ChunkLocation(5, 5));
    assert!(update.evicted.is_empty());
    let expected: Vec<ChunkPosition> = vec![
        ChunkPosition::new(4, 4),
        ChunkPosition::new(4, 5),
        ChunkPosition::new(4, 6),
        ChunkPosition::new(5, 4),
        ChunkPosition::new(5, 5),
        ChunkPosition::new(5, 6),
        ChunkPosition::new(6, 4),
        ChunkPosition::new(6, 5),
        ChunkPosition::new(6, 6),
    ];
    assert_eq!(update.requests, expected);
    assert_eq!(world.chunk_count(), 9);
    for pos in expected {
        assert_eq!(world.stage_of(pos), Some(ChunkStage::Requested));
    }
}

#[test]
fn loaded_chunks_are_not_asked_for_again() {
    let mut world = ClientWorld::new(1);
    world.update_loaded_chunks(ChunkLocation(5, 5));
    give_data(&mut world, ChunkPosition::new(5, 5));
    give_data(&mut world, ChunkPosition::new(6, 4));
    let ticket = world.receive_chunk(ChunkPosition::new(4, 6)).unwrap();
    let update = world.update_loaded_chunks(ChunkLocation(5, 5));
    assert!(update.evicted.is_empty());
    assert_eq!(
        update.requests,
        vec![
            ChunkPosition::new(4, 4),
            ChunkPosition::new(4, 5),
            ChunkPosition::new(5, 4),
            ChunkPosition::new(5, 6),
            ChunkPosition::new(6, 5),
            ChunkPosition::new(6, 6),
        ]
    );
    assert_eq!(world.chunk_count(), 9);
    assert_eq!(world.stage_of(ChunkPosition::new(4, 6)), Some(ChunkStage::Decompressing));
    assert!(world.apply_decompressed(ChunkPosition::new(4, 6), ticket, Ok(ChunkData::new())));
}

#[test]
fn far_chunks_are_evicted() {
    let mut world = ClientWorld::new(2);
    world.update_loaded_chunks(ChunkLocation(3, 0));
    assert_eq!(world.chunk_count(), 25);
    assert!(world.find(ChunkPosition::new(3, 0)).is_some());
    assert!(world.find(ChunkPosition::new(2, 2)).is_some());
    give_data(&mut world, ChunkPosition::new(2, 2));
    let update = world.update_loaded_chunks(ChunkLocation(0, 0));
    assert!(update.evicted.contains(&ChunkPosition::new(3, 0)));
    assert!(update.evicted.contains(&ChunkPosition::new(5, 2)));
    assert!(!update.evicted.contains(&ChunkPosition::new(2, 2)));
    assert!(!update.evicted.contains(&ChunkPosition::new(1, -2)));
    assert_eq!(update.evicted.len(), 15);
    assert_eq!(world.stage_of(ChunkPosition::new(3, 0)), None);
    assert_eq!(world.stage_of(ChunkPosition::new(2, 2)), Some(ChunkStage::HasData));
    assert_eq!(world.stage_of(ChunkPosition::new(-2, -2)), Some(ChunkStage::Requested));
    assert_eq!(world.chunk_count(), 25);
    assert_eq!(update.requests.len(), 24);
    assert!(!update.requests.contains(&ChunkPosition::new(2, 2)));
    assert_eq!(update.requests[0], ChunkPosition::new(-2, -2));
    assert_eq!(update.requests[23], ChunkPosition::new(2, 1));
}

#[test]
fn zero_view_distance_keeps_one_chunk() {
    let mut world = ClientWorld::new(0);
    assert_eq!(world.view_distance(), 0);
    let update = world.update_loaded_chunks(ChunkLocation(-7, 7));
    assert_eq!(update.requests, vec![ChunkPosition::new(-7, 7)]);
    let update = world.update_loaded_chunks(ChunkLocation(-7, 8));
    assert_eq!(update.evicted, vec![ChunkPosition::new(-7, 7)]);
    assert_eq!(update.requests, vec![ChunkPosition::new(-7, 8)]);
    assert_eq!(world.chunk_count(), 1);
}

#[test]
fn payload_for_an_unknown_chunk_is_dropped() {
    let mut world = ClientWorld::new(1);
    assert_eq!(world.receive_chunk(ChunkPosition::new(0, 0)), None);
    world.update_loaded_chunks(ChunkLocation(0, 0));
    assert_eq!(world.receive_chunk(ChunkPosition::new(2, 0)), None);
    assert_eq!(world.receive_chunk(ChunkPosition::new(1, 0)), Some(0));
    assert_eq!(world.receive_chunk(ChunkPosition::new(0, 0)), Some(1));
}

#[test]
fn decompressed_chunk_goes_through_its_stages() {
    let mut world = ClientWorld::new(1);
    let pos = ChunkPosition::new(0, 0);
    world.update_loaded_chunks(ChunkLocation(0, 0));
    let ticket = world.receive_chunk(pos).unwrap();
    assert_eq!(world.stage_of(pos), Some(ChunkStage::Decompressing));
    assert!(!world.apply_decompressed(pos, ticket + 1, Ok(ChunkData::new())));
    assert!(!world.apply_decompressed(ChunkPosition::new(9, 9), ticket, Ok(ChunkData::new())));
    assert!(world.apply_decompressed(pos, ticket, Ok(ChunkData::new_test())));
    assert!(!world.apply_decompressed(pos, ticket, Ok(ChunkData::new())));
    assert_eq!(world.stage_of(pos), Some(ChunkStage::HasData));
    let index = world.find(pos).unwrap();
    assert_eq!(world.chunk(index).position(), pos);
    assert_eq!(world.chunk(index).stage(), ChunkStage::HasData);
    assert_eq!(world.chunk(index).data().unwrap().get(0, 0, 0).block_type, 1);
    let jobs = world.dispatch_mesh_jobs(MAX_STARTED_MESH_BUILD_TASKS_PER_TICK);
    assert_eq!(jobs.len(), 1);
    assert_eq!(jobs[0].position, pos);
    assert_eq!(jobs[0].data.get(0, 39, 0).block_type, 1);
    assert_eq!(world.stage_of(pos), Some(ChunkStage::MeshQueued));
    assert_eq!(ChunkStage::MeshQueued.mesh_stage(), Some(MeshStage::Queued));
    assert!(world.dispatch_mesh_jobs(10).is_empty());
    assert!(!world.apply_mesh(pos, jobs[0].ticket + 1));
    assert!(world.apply_mesh(pos, jobs[0].ticket));
    assert!(!world.apply_mesh(pos, jobs[0].ticket));
    assert_eq!(world.stage_of(pos), Some(ChunkStage::MeshReady));
    assert_eq!(ChunkStage::MeshReady.mesh_stage(), Some(MeshStage::Ready));
    assert_eq!(ChunkStage::HasData.mesh_stage(), None);
}

#[test]
fn later_payload_wins() {
    let mut world = ClientWorld::new(0);
    let pos = ChunkPosition::new(0, 0);
    world.update_loaded_chunks(ChunkLocation(0, 0));
    let first = world.receive_chunk(pos).unwrap();
    let second = world.receive_chunk(pos).unwrap();
    assert_ne!(first, second);
    let mut newer = ChunkData::new();
    newer.set(0, 0, 0, Block { block_type: 2 });
    assert!(world.apply_decompressed(pos, second, Ok(newer)));
    assert!(!world.apply_decompressed(pos, first, Ok(ChunkData::new_test())));
    let index = world.find(pos).unwrap();
    assert_eq!(world.chunk(index).data().unwrap().get(0, 0, 0).block_type, 2);
}

#[test]
fn new_data_overwrites_and_needs_a_new_mesh() {
    let mut world = ClientWorld::new(0);
    let pos = ChunkPosition::new(0, 0);
    world.update_loaded_chunks(ChunkLocation(0, 0));
    give_data(&mut world, pos);
    let jobs = world.dispatch_mesh_jobs(10);
    let again = world.receive_chunk(pos).unwrap();
    assert_eq!(world.stage_of(pos), Some(ChunkStage::MeshQueued));
    assert!(world.apply_decompressed(pos, again, Ok(ChunkData::new())));
    assert_eq!(world.chunk_count(), 1);
    assert_eq!(world.stage_of(pos), Some(ChunkStage::HasData));
    assert!(!world.apply_mesh(pos, jobs[0].ticket));
    let index = world.find(pos).unwrap();
    assert_eq!(world.chunk(index).data().unwrap().get(0, 0, 0).block_type, 0);
    assert_eq!(world.dispatch_mesh_jobs(10).len(), 1);
}

#[test]
fn failed_decompression_lets_the_chunk_be_asked_for_again() {
    let mut world = ClientWorld::new(0);
    let pos = ChunkPosition::new(0, 0);
    world.update_loaded_chunks(ChunkLocation(0, 0));
    let ticket = world.receive_chunk(pos).unwrap();
    assert!(world.apply_decompressed(pos, ticket, Err(CodecError::Corrupt)));
    assert_eq!(world.stage_of(pos), Some(ChunkStage::Requested));
    assert_eq!(world.update_loaded_chunks(ChunkLocation(0, 0)).requests, vec![pos]);
    give_data(&mut world, pos);
    let ticket = world.receive_chunk(pos).unwrap();
    assert!(world.apply_decompressed(pos, ticket, Err(CodecError::Truncated)));
    assert_eq!(world.stage_of(pos), Some(ChunkStage::HasData));
}

#[test]
fn result_for_an_evicted_chunk_is_discarded() {
    let mut world = ClientWorld::new(0);
    let pos = ChunkPosition::new(0, 0);
    world.update_loaded_chunks(ChunkLocation(0, 0));
    let ticket = world.receive_chunk(pos).unwrap();
    world.update_loaded_chunks(ChunkLocation(4, 4));
    assert!(!world.apply_decompressed(pos, ticket, Ok(ChunkData::new())));
    world.update_loaded_chunks(ChunkLocation(0, 0));
    assert!(!world.apply_decompressed(pos, ticket, Ok(ChunkData::new())));
    assert_eq!(world.stage_of(pos), Some(ChunkStage::Requested));
}

#[test]
fn mesh_jobs_are_limited_per_tick() {
    let mut world = ClientWorld::new(2);
    let update = world.update_loaded_chunks(ChunkLocation(0, 0));
    for pos in update.requests.iter() {
        give_data(&mut world, *pos);
    }
    let jobs = world.dispatch_mesh_jobs(MAX_STARTED_MESH_BUILD_TASKS_PER_TICK);
    assert_eq!(jobs.len(), 10);
    for (k, job) in jobs.iter().enumerate() {
        assert_eq!(job.position, update.requests[k]);
        assert_eq!(job.ticket, 25 + k as u64);
    }
    assert_eq!(world.dispatch_mesh_jobs(10).len(), 10);
    assert_eq!(world.dispatch_mesh_jobs(10).len(), 5);
    assert_eq!(world.dispatch_mesh_jobs(10).len(), 0);
    assert_eq!(world.dispatch_mesh_jobs(0).len(), 0);
}

#[test]
fn chunk_map_files_entities_by_position() {
    let mut map = ChunkMap::new();
    let a = ChunkPosition::new(1, 2);
    let b = ChunkPosition::new(2, 1);
    assert_eq!(a.x(), 1);
    assert_eq!(a.y(), 2);
    assert_eq!(a.xy(), (1, 2));
    assert!(!map.contains(a));
    assert_eq!(map.get(a), None);
    map.insert(a, 10);
    map.insert(b, 20);
    map.insert(ChunkPosition::new(-1, i64::MIN), 30);
    assert_eq!(map.get(a), Some(10));
    assert_eq!(map.get(b), Some(20));
    assert_eq!(map.get(ChunkPosition::new(-1, i64::MIN)), Some(30));
    assert_eq!(map.get(ChunkPosition::new(0, i64::MAX)), None);
    map.insert(a, 11);
    assert_eq!(map.get(a), Some(11));
    map.remove(a);
    assert!(!map.contains(a));
    assert!(map.contains(b));
    map.remove(a);
    assert_eq!(map.get(b), Some(20));
}

#[test]
fn position_set_holds_what_was_put_in() {
    let mut set = PositionSet::new();
    let a = ChunkPosition::new(1, 2);
    let b = ChunkPosition::new(2, 1);
    assert!(!set.contains(a));
    set.insert(a);
    assert!(set.contains(a));
    assert!(!set.contains(b));
    set.insert(a);
    set.insert(ChunkPosition::new(i64::MIN, i64::MAX));
    assert!(set.contains(a));
    assert!(set.contains(ChunkPosition::new(i64::MIN, i64::MAX)));
    assert!(!set.contains(ChunkPosition::new(i64::MAX, i64::MIN)));
}
