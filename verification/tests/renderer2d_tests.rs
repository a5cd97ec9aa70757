use gg_engine::renderer2d::{
    batch_circle_vertex_layout, batch_line_vertex_layout, batch_quad_indices, batch_quad_vertex_layout,
    circle_batch_kind, line_batch_kind, quad_batch_kind, sprite_instance_layout, unit_quad_indices,
    unit_quad_vertex_layout, BatchState, BindlessSlots, FlushAction, Renderer2DStats, MAX_BINDLESS_TEXTURES,
    MAX_INDICES, MAX_QUADS, QUAD_VB_CAPACITY,
};

#[test]
fn stats_vertex_and_index_counts() {
    let stats = Renderer2DStats { draw_calls: 3, quad_count: 10 };
    assert_eq!(stats.total_vertex_count(), 40);
    assert_eq!(stats.total_index_count(), 60);
    let empty = Renderer2DStats::default();
    assert_eq!(empty.draw_calls, 0);
    assert_eq!(empty.total_vertex_count(), 0);
}

#[test]
fn vertex_layout_strides() {
    assert_eq!(batch_quad_vertex_layout().stride(), 44);
    assert_eq!(batch_circle_vertex_layout().stride(), 52);
    assert_eq!(batch_line_vertex_layout().stride(), 32);
    assert_eq!(unit_quad_vertex_layout().stride(), 20);
    assert_eq!(sprite_instance_layout().stride(), 112);
}

#[test]
fn quad_layout_element_offsets() {
    let layout = batch_quad_vertex_layout();
    let offsets: Vec<u32> = layout.elements().iter().map(|e| e.offset).collect();
    assert_eq!(offsets, vec![0, 12, 28, 36, 40]);
}

#[test]
fn all_layout_element_offsets() {
    let offsets = |l: gg_engine::buffer::BufferLayout| -> Vec<u32> { l.elements().iter().map(|e| e.offset).collect() };
    assert_eq!(offsets(batch_circle_vertex_layout()), vec![0, 12, 24, 40, 44, 48]);
    assert_eq!(offsets(batch_line_vertex_layout()), vec![0, 12, 28]);
    assert_eq!(offsets(unit_quad_vertex_layout()), vec![0, 12]);
    assert_eq!(offsets(sprite_instance_layout()), vec![0, 16, 32, 48, 64, 80, 88, 96, 100, 104, 108]);
}

#[test]
fn quad_indices_pattern() {
    let idx = batch_quad_indices(2);
    assert_eq!(idx, vec![0, 1, 2, 2, 3, 0, 4, 5, 6, 6, 7, 4]);
    assert_eq!(unit_quad_indices(), vec![0, 1, 2, 2, 3, 0]);
    assert_eq!(batch_quad_indices(MAX_QUADS as u32).len(), MAX_INDICES);
}

#[test]
fn batch_push_and_flush() {
    let mut batch: BatchState<u8> = BatchState::new(quad_batch_kind());
    assert!(!batch.has_pending());
    assert!(batch.push_item(&[1, 2, 3, 4]));
    assert!(batch.push_item(&[5, 6, 7, 8]));
    assert!(batch.has_pending());
    match batch.flush() {
        FlushAction::Draw { vb_offset, vertices, draw_count } => {
            assert_eq!(vb_offset, 0);
            assert_eq!(vertices, vec![1, 2, 3, 4, 5, 6, 7, 8]);
            assert_eq!(draw_count, 12);
        }
        _ => panic!("expected a draw"),
    }
    assert!(!batch.has_pending());
    assert_eq!(batch.stats(), Renderer2DStats { draw_calls: 1, quad_count: 2 });
    assert!(batch.push_item(&[9, 9, 9, 9]));
    match batch.flush() {
        FlushAction::Draw { vb_offset, draw_count, .. } => {
            assert_eq!(vb_offset, 2 * 4 * 44);
            assert_eq!(draw_count, 6);
        }
        _ => panic!("expected a draw"),
    }
    assert_eq!(batch.stats(), Renderer2DStats { draw_calls: 2, quad_count: 3 });
}

#[test]
fn batch_flush_empty_does_nothing() {
    let mut batch: BatchState<u8> = BatchState::new(line_batch_kind());
    assert!(matches!(batch.flush(), FlushAction::Nothing));
    assert_eq!(batch.stats(), Renderer2DStats { draw_calls: 0, quad_count: 0 });
}

#[test]
fn batch_refuses_items_when_full() {
    let mut batch: BatchState<u8> = BatchState::new(circle_batch_kind());
    for _ in 0..MAX_QUADS {
        assert!(batch.push_item(&[0, 0, 0, 0]));
    }
    assert!(!batch.push_item(&[0, 0, 0, 0]));
    match batch.flush() {
        FlushAction::Draw { vertices, draw_count, .. } => {
            assert_eq!(vertices.len(), 4 * MAX_QUADS);
            assert_eq!(draw_count, 6 * MAX_QUADS as u32);
        }
        _ => panic!("expected a draw"),
    }
    assert!(batch.push_item(&[0, 0, 0, 0]));
}

#[test]
fn batch_overflow_drops_items_and_reset_clears() {
    let mut batch: BatchState<u8> = BatchState::new(quad_batch_kind());
    let full_batches = QUAD_VB_CAPACITY / (MAX_QUADS * 4 * 44);
    for _ in 0..full_batches {
        for _ in 0..MAX_QUADS {
            assert!(batch.push_item(&[0, 0, 0, 0]));
        }
        assert!(matches!(batch.flush(), FlushAction::Draw { .. }));
    }
    assert!(batch.push_item(&[0, 0, 0, 0]));
    match batch.flush() {
        FlushAction::Overflow { dropped_items } => assert_eq!(dropped_items, 1),
        _ => panic!("expected an overflow"),
    }
    batch.reset();
    assert!(batch.push_item(&[0, 0, 0, 0]));
    match batch.flush() {
        FlushAction::Draw { vb_offset, .. } => assert_eq!(vb_offset, 0),
        _ => panic!("expected a draw"),
    }
}

#[test]
fn bindless_slots_recycle_most_recent() {
    let mut slots = BindlessSlots::new();
    assert_eq!(slots.register(), 0);
    assert_eq!(slots.register(), 1);
    assert_eq!(slots.register(), 2);
    slots.unregister(1);
    slots.unregister(2);
    assert_eq!(slots.register(), 2);
    assert_eq!(slots.register(), 1);
    assert_eq!(slots.register(), 3);
    slots.unregister(0);
    assert_eq!(slots.register(), 4);
}

#[test]
fn bindless_slots_exhaustion_falls_back_to_white() {
    let mut slots = BindlessSlots::new();
    for i in 0..MAX_BINDLESS_TEXTURES {
        assert_eq!(slots.register(), i);
    }
    assert_eq!(slots.register(), 0);
}

#[test]
fn frame_stats_add_all_batches() {
    let s = |d: u32, q: u32| Renderer2DStats { draw_calls: d, quad_count: q };
    let total = gg_engine::renderer2d::frame_stats(s(1, 10), s(2, 20), s(3, 30), s(4, 40), s(5, 50));
    assert_eq!(total, s(15, 150));
}

#[test]
fn box_outline_has_twelve_distinct_edges() {
    let edges = gg_engine::renderer2d::box_outline_edges();
    assert_eq!(edges[0], (0, 1));
    assert_eq!(edges[7], (7, 4));
    assert_eq!(edges[11], (3, 7));
    let mut degree = [0; 8];
    for (a, b) in edges {
        degree[a] += 1;
        degree[b] += 1;
    }
    assert_eq!(degree, [3; 8]);
}

#[test]
fn push_flushing_flushes_full_batch_then_pushes() {
    let mut batch: BatchState<u8> = BatchState::new(gg_engine::renderer2d::instance_batch_kind());
    for i in 0..gg_engine::renderer2d::MAX_INSTANCES {
        assert!(batch.push_flushing(&[(i % 256) as u8]).is_none());
    }
    match batch.push_flushing(&[7]) {
        Some(FlushAction::Draw { vb_offset, vertices, draw_count }) => {
            assert_eq!(vb_offset, 0);
            assert_eq!(vertices.len(), gg_engine::renderer2d::MAX_INSTANCES);
            assert_eq!(draw_count, gg_engine::renderer2d::MAX_INSTANCES as u32);
        }
        _ => panic!("expected the full batch to be drawn"),
    }
    let written = gg_engine::renderer2d::MAX_INSTANCES * gg_engine::renderer2d::SPRITE_INSTANCE_SIZE;
    assert_eq!(batch.stats().draw_calls, 1);
    assert_eq!(batch.stats().quad_count, gg_engine::renderer2d::MAX_INSTANCES as u32);
    match batch.flush() {
        FlushAction::Draw { vb_offset, vertices, .. } => {
            assert_eq!(vb_offset, written);
            assert_eq!(vertices, vec![7]);
        }
        _ => panic!("expected the pushed item"),
    }
}
