use gg_engine::particles::{
    indirect_reset_command, plan_emission_upload, simulation_workgroups, BufferUpdate, EmissionQueue, Rng,
    UPDATE_BUFFER_LIMIT, ZERO_SEED_REPLACEMENT,
};

fn xorshift(mut x: u32) -> u32 {
    x ^= x << 13;
    x ^= x >> 17;
    x ^= x << 5;
    x
}

#[test]
fn rng_zero_seed_is_replaced() {
    let rng = Rng::from_seed(0);
    assert_eq!(rng.state(), ZERO_SEED_REPLACEMENT);
    assert_eq!(Rng::from_seed(12345).state(), 12345);
}

#[test]
fn rng_follows_xorshift32() {
    let mut rng = Rng::from_seed(1);
    assert_eq!(rng.next_u32(), 270369);
    let mut expected = 270369u32;
    for _ in 0..100 {
        expected = xorshift(expected);
        let v = rng.next_u32();
        assert_eq!(v, expected);
        assert_ne!(v, 0);
    }
}

#[test]
fn rng_from_time_is_never_stuck() {
    let mut rng = Rng::from_time();
    assert_ne!(rng.state(), 0);
    assert_ne!(rng.next_u32(), 0);
}

#[test]
fn workgroups_cover_all_particles() {
    assert_eq!(simulation_workgroups(0), 0);
    assert_eq!(simulation_workgroups(1), 1);
    assert_eq!(simulation_workgroups(256), 1);
    assert_eq!(simulation_workgroups(257), 2);
    assert_eq!(simulation_workgroups(100_000), 391);
}

#[test]
fn indirect_command_reset_values() {
    let c = indirect_reset_command();
    assert_eq!(c.index_count, 6);
    assert_eq!(c.instance_count, 0);
    assert_eq!(c.first_index, 0);
    assert_eq!(c.vertex_offset, 0);
    assert_eq!(c.first_instance, 0);
}

#[test]
fn emission_upload_contiguous() {
    // 3 particles emitted, next free slot 5: they occupy slots 2, 3, 4.
    let plan = plan_emission_upload(5, 100, 3, 64);
    assert_eq!(plan, vec![BufferUpdate { dst_offset: 2 * 64, src_offset: 0, len: 3 * 64 }]);
}

#[test]
fn emission_upload_wraps_around_ring() {
    // 4 particles emitted, next free slot 1 in a ring of 10: slots 7, 8, 9, 0.
    let plan = plan_emission_upload(1, 10, 4, 16);
    assert_eq!(
        plan,
        vec![
            BufferUpdate { dst_offset: 7 * 16, src_offset: 0, len: 3 * 16 },
            BufferUpdate { dst_offset: 0, src_offset: 3 * 16, len: 16 },
        ]
    );
}

#[test]
fn emission_upload_chunks_large_runs() {
    let ps = 1024usize;
    let plan = plan_emission_upload(100, 1000, 100, ps);
    assert_eq!(plan.len(), 2);
    assert_eq!(plan[0], BufferUpdate { dst_offset: 0, src_offset: 0, len: UPDATE_BUFFER_LIMIT });
    assert_eq!(
        plan[1],
        BufferUpdate { dst_offset: UPDATE_BUFFER_LIMIT as u64, src_offset: UPDATE_BUFFER_LIMIT, len: 100 * ps - UPDATE_BUFFER_LIMIT }
    );
    assert!(plan_emission_upload(3, 10, 0, 64).is_empty());
}

#[test]
fn emission_queue_tracks_ring_slot() {
    let mut q: EmissionQueue<u32> = EmissionQueue::new(3);
    assert_eq!(q.pool_index(), 0);
    q.emit(10);
    q.emit(11);
    q.emit(12);
    q.emit(13);
    assert_eq!(q.queued(), &[10, 11, 12, 13]);
    assert_eq!(q.pool_index(), 1);
    assert_eq!(q.max_particles(), 3);
    q.clear();
    assert!(q.queued().is_empty());
    assert_eq!(q.pool_index(), 1);
    q.emit(20);
    let plan = q.plan_upload(8);
    assert_eq!(plan, vec![BufferUpdate { dst_offset: 8, src_offset: 0, len: 8 }]);
}
