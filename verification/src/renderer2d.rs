//! Batch bookkeeping of the 2D renderer: the vertex layouts of the batched
//! primitives, per-batch state (what is pending, where the next flush
//! writes, what was drawn), the shared quad index pattern, and the
//! allocation of bindless texture slots.
use vstd::prelude::*;
use crate::buffer::{size_prefix, laid_out_from, placed_copy, BufferElement, BufferLayout, ShaderDataType};

verus! {

// ---------------------------------------------------------------------------
// Limits
// ---------------------------------------------------------------------------

/// Quads per batch (also circles and text quads).
pub const MAX_QUADS: usize = 10_000;
/// Vertices per quad batch.
pub const MAX_VERTICES: usize = 40_000;
/// Indices of the shared quad index buffer.
pub const MAX_INDICES: usize = 60_000;
/// Lines per batch.
pub const MAX_LINES: usize = 10_000;
/// Vertices per line batch.
pub const MAX_LINE_VERTICES: usize = 20_000;
/// Sprite instances per instanced draw call.
pub const MAX_INSTANCES: usize = 10_000;
/// Slots of the bindless texture array.
pub const MAX_BINDLESS_TEXTURES: u32 = 4096;
/// Flushes (draw calls) per frame that the per-frame vertex buffers have
/// room for.
pub const MAX_BATCHES_PER_FRAME: usize = 16;

/// Size in bytes of a batched quad vertex (position, color, tex coord, tex
/// index, entity id).
pub const QUAD_VERTEX_SIZE: usize = 44;
/// Size in bytes of a batched circle vertex.
pub const CIRCLE_VERTEX_SIZE: usize = 52;
/// Size in bytes of a batched line vertex.
pub const LINE_VERTEX_SIZE: usize = 32;
/// Size in bytes of one sprite instance.
pub const SPRITE_INSTANCE_SIZE: usize = 112;

/// Per-frame capacity in bytes of the quad (and text) vertex buffer.
pub const QUAD_VB_CAPACITY: usize = 28_160_000;
/// Per-frame capacity in bytes of the circle vertex buffer.
pub const CIRCLE_VB_CAPACITY: usize = 33_280_000;
/// Per-frame capacity in bytes of the line vertex buffer.
pub const LINE_VB_CAPACITY: usize = 10_240_000;
/// Per-frame capacity in bytes of the sprite instance buffer.
pub const INSTANCE_VB_CAPACITY: usize = 17_920_000;

/// The capacities are the per-batch maximum times the flushes per frame.
pub proof fn lemma_capacities()
    ensures
        MAX_VERTICES == 4 * MAX_QUADS,
        MAX_INDICES == 6 * MAX_QUADS,
        MAX_LINE_VERTICES == 2 * MAX_LINES,
        QUAD_VB_CAPACITY == MAX_VERTICES * MAX_BATCHES_PER_FRAME * QUAD_VERTEX_SIZE,
        CIRCLE_VB_CAPACITY == MAX_VERTICES * MAX_BATCHES_PER_FRAME * CIRCLE_VERTEX_SIZE,
        LINE_VB_CAPACITY == MAX_LINE_VERTICES * MAX_BATCHES_PER_FRAME * LINE_VERTEX_SIZE,
        INSTANCE_VB_CAPACITY == MAX_INSTANCES * MAX_BATCHES_PER_FRAME * SPRITE_INSTANCE_SIZE,
{
}

// ---------------------------------------------------------------------------
// Stats
// ---------------------------------------------------------------------------

/// Statistics from the 2D batch renderer for the current frame.
#[derive(Debug, Clone, Copy, PartialEq, Eq, Structural)]
pub struct Renderer2DStats {
    pub draw_calls: u32,
    pub quad_count: u32,
}

impl Default for Renderer2DStats {
    fn default() -> (r: Self)
        ensures
            r == (Renderer2DStats { draw_calls: 0, quad_count: 0 }),
    {
        Renderer2DStats { draw_calls: 0, quad_count: 0 }
    }
}

impl Renderer2DStats {
    /// Four vertices per quad.
    pub fn total_vertex_count(&self) -> (r: u32)
        requires
            4 * self.quad_count <= u32::MAX,
        ensures
            r == 4 * self.quad_count,
    {
        self.quad_count * 4
    }

    /// Six indices per quad.
    pub fn total_index_count(&self) -> (r: u32)
        requires
            6 * self.quad_count <= u32::MAX,
        ensures
            r == 6 * self.quad_count,
    {
        self.quad_count * 6
    }
}

/// The frame's 2D statistics: the draw calls and items of the quad,
/// circle, line, text and instance batches added up.
pub fn frame_stats(
    quads: Renderer2DStats,
    circles: Renderer2DStats,
    lines: Renderer2DStats,
    text: Renderer2DStats,
    instances: Renderer2DStats,
) -> (r: Renderer2DStats)
    requires
        quads.draw_calls + circles.draw_calls + lines.draw_calls + text.draw_calls + instances.draw_calls
            <= u32::MAX,
        quads.quad_count + circles.quad_count + lines.quad_count + text.quad_count + instances.quad_count
            <= u32::MAX,
    ensures
        r.draw_calls == quads.draw_calls + circles.draw_calls + lines.draw_calls + text.draw_calls
            + instances.draw_calls,
        r.quad_count == quads.quad_count + circles.quad_count + lines.quad_count + text.quad_count
            + instances.quad_count,
{
    Renderer2DStats {
        draw_calls: quads.draw_calls + circles.draw_calls + lines.draw_calls + text.draw_calls
            + instances.draw_calls,
        quad_count: quads.quad_count + circles.quad_count + lines.quad_count + text.quad_count
            + instances.quad_count,
    }
}

/// The three coordinates of box corner `i` as bits (0 = minimum, 1 =
/// maximum): corners 0 to 3 go round the bottom face, 4 to 7 round the top.
pub open spec fn box_corner_bits(i: int) -> (int, int, int) {
    let z = if i >= 4 { 1int } else { 0int };
    let k = i % 4;
    let x = if k == 1 || k == 2 { 1int } else { 0int };
    let y = if k == 2 || k == 3 { 1int } else { 0int };
    (x, y, z)
}

/// Number of coordinates in which two box corners differ.
pub open spec fn corner_distance(a: int, b: int) -> int {
    let (ax, ay, az) = box_corner_bits(a);
    let (bx, by, bz) = box_corner_bits(b);
    (if ax != bx { 1int } else { 0int }) + (if ay != by { 1int } else { 0int }) + (if az != bz {
        1int
    } else {
        0int
    })
}

/// The twelve edges of a box outline as pairs of corner indices: the four
/// bottom edges, the four top edges, then the four vertical edges.
pub fn box_outline_edges() -> (r: [(usize, usize); 12])
    ensures
        forall|e: int| 0 <= e < 12 ==> (#[trigger] r@[e]).0 < 8 && r@[e].1 < 8 && corner_distance(
            r@[e].0 as int,
            r@[e].1 as int,
        ) == 1,
        forall|e: int, f: int|
            0 <= e < f < 12 ==> (#[trigger] r@[e]) != (#[trigger] r@[f]) && r@[e] != (r@[f].1, r@[f].0),
{
    let r = [
        (0, 1),
        (1, 2),
        (2, 3),
        (3, 0),
        (4, 5),
        (5, 6),
        (6, 7),
        (7, 4),
        (0, 4),
        (1, 5),
        (2, 6),
        (3, 7),
    ];
    assert(r@ =~= seq![
        (0usize, 1usize),
        (1usize, 2usize),
        (2usize, 3usize),
        (3usize, 0usize),
        (4usize, 5usize),
        (5usize, 6usize),
        (6usize, 7usize),
        (7usize, 4usize),
        (0usize, 4usize),
        (1usize, 5usize),
        (2usize, 6usize),
        (3usize, 7usize),
    ]);
    r
}

// ---------------------------------------------------------------------------
// Batch state
// ---------------------------------------------------------------------------

/// The shape of one kind of batch.
#[derive(Debug, Clone, Copy, PartialEq, Eq, Structural)]
pub struct BatchKind {
    /// Items (quads, lines, instances) a batch holds at most.
    pub max_items: usize,
    /// Vertices pushed per item.
    pub vertices_per_item: usize,
    /// Elements drawn per item (indices for quads, vertices for lines,
    /// instances for sprites).
    pub draw_elements_per_item: usize,
    /// Size in bytes of one vertex.
    pub vertex_size: usize,
    /// Bytes of vertex buffer per frame.
    pub capacity: usize,
}

/// The batch shape fits the `u32` counters of the stats and draw calls.
pub open spec fn valid_kind(k: BatchKind) -> bool {
    &&& 0 < k.max_items
    &&& 0 < k.vertices_per_item
    &&& 0 < k.vertex_size
    &&& k.draw_elements_per_item <= 6
    &&& k.max_items * 6 <= u32::MAX
    &&& k.max_items * k.vertices_per_item * k.vertex_size <= u32::MAX
    &&& k.capacity <= u32::MAX
}

/// Quads: 4 vertices and 6 indices each.
pub fn quad_batch_kind() -> (r: BatchKind)
    ensures
        r == (BatchKind {
            max_items: MAX_QUADS,
            vertices_per_item: 4,
            draw_elements_per_item: 6,
            vertex_size: QUAD_VERTEX_SIZE,
            capacity: QUAD_VB_CAPACITY,
        }),
        valid_kind(r),
{
    BatchKind {
        max_items: MAX_QUADS,
        vertices_per_item: 4,
        draw_elements_per_item: 6,
        vertex_size: QUAD_VERTEX_SIZE,
        capacity: QUAD_VB_CAPACITY,
    }
}

/// Circles (drawn as quads): 4 vertices and 6 indices each.
pub fn circle_batch_kind() -> (r: BatchKind)
    ensures
        r == (BatchKind {
            max_items: MAX_QUADS,
            vertices_per_item: 4,
            draw_elements_per_item: 6,
            vertex_size: CIRCLE_VERTEX_SIZE,
            capacity: CIRCLE_VB_CAPACITY,
        }),
        valid_kind(r),
{
    BatchKind {
        max_items: MAX_QUADS,
        vertices_per_item: 4,
        draw_elements_per_item: 6,
        vertex_size: CIRCLE_VERTEX_SIZE,
        capacity: CIRCLE_VB_CAPACITY,
    }
}

/// Lines: 2 vertices each, drawn as line vertices.
pub fn line_batch_kind() -> (r: BatchKind)
    ensures
        r == (BatchKind {
            max_items: MAX_LINES,
            vertices_per_item: 2,
            draw_elements_per_item: 2,
            vertex_size: LINE_VERTEX_SIZE,
            capacity: LINE_VB_CAPACITY,
        }),
        valid_kind(r),
{
    BatchKind {
        max_items: MAX_LINES,
        vertices_per_item: 2,
        draw_elements_per_item: 2,
        vertex_size: LINE_VERTEX_SIZE,
        capacity: LINE_VB_CAPACITY,
    }
}

/// Text glyph quads: same vertices as quads, in their own batch.
pub fn text_batch_kind() -> (r: BatchKind)
    ensures
        r == (BatchKind {
            max_items: MAX_QUADS,
            vertices_per_item: 4,
            draw_elements_per_item: 6,
            vertex_size: QUAD_VERTEX_SIZE,
            capacity: QUAD_VB_CAPACITY,
        }),
        valid_kind(r),
{
    quad_batch_kind()
}

/// Sprite instances: one instance record each, drawn as instances.
pub fn instance_batch_kind() -> (r: BatchKind)
    ensures
        r == (BatchKind {
            max_items: MAX_INSTANCES,
            vertices_per_item: 1,
            draw_elements_per_item: 1,
            vertex_size: SPRITE_INSTANCE_SIZE,
            capacity: INSTANCE_VB_CAPACITY,
        }),
        valid_kind(r),
{
    BatchKind {
        max_items: MAX_INSTANCES,
        vertices_per_item: 1,
        draw_elements_per_item: 1,
        vertex_size: SPRITE_INSTANCE_SIZE,
        capacity: INSTANCE_VB_CAPACITY,
    }
}

/// What flushing a batch does.
pub enum FlushAction<V> {
    /// The batch was empty.
    Nothing,
    /// The frame's vertex buffer is full: the pending items are dropped.
    Overflow { dropped_items: usize },
    /// Write `vertices` at byte `vb_offset` of the frame's vertex buffer and
    /// draw `draw_count` elements.
    Draw { vb_offset: usize, vertices: Vec<V>, draw_count: u32 },
}

/// The pending items of one batch and what the frame drew of it so far.
pub struct BatchState<V> {
    kind: BatchKind,
    vertices: Vec<V>,
    count: usize,
    vb_write_offset: usize,
    stats: Renderer2DStats,
}

impl<V: Copy> BatchState<V> {
    /// The batch's shape.
    pub closed spec fn spec_kind(&self) -> BatchKind {
        self.kind
    }

    /// The pending vertices.
    pub closed spec fn spec_vertices(&self) -> Seq<V> {
        self.vertices@
    }

    /// The number of pending items.
    pub closed spec fn spec_count(&self) -> usize {
        self.count
    }

    /// The byte offset where the next flush writes.
    pub closed spec fn spec_write_offset(&self) -> usize {
        self.vb_write_offset
    }

    /// What the frame drew of this batch so far.
    pub closed spec fn spec_stats(&self) -> Renderer2DStats {
        self.stats
    }

    /// The batch invariant: the pending vertices are whole items, no more
    /// than a batch holds; the bytes written this frame stay within the
    /// buffer and are exactly the drawn items' vertices; every draw call
    /// wrote at least one byte.
    pub open spec fn wf(&self) -> bool {
        let k = self.spec_kind();
        &&& valid_kind(k)
        &&& self.spec_vertices().len() == self.spec_count() * k.vertices_per_item
        &&& self.spec_count() <= k.max_items
        &&& self.spec_write_offset() <= k.capacity
        &&& self.spec_stats().quad_count * (k.vertices_per_item * k.vertex_size)
            == self.spec_write_offset()
        &&& self.spec_stats().draw_calls <= self.spec_write_offset()
    }

    /// What flushing this batch gives: `r` is the answer, and `offset` and
    /// `stats` are the write offset and stats afterwards. Nothing when no
    /// item is pending; the pending items dropped when their vertices would
    /// run past the frame's vertex buffer; else a draw of the pending
    /// vertices at the current write offset, with the offset moved past them
    /// and one more draw call of those items counted.
    pub open spec fn spec_flush_outcome(&self, r: FlushAction<V>, offset: usize, stats: Renderer2DStats) -> bool {
        let k = self.spec_kind();
        let n = self.spec_count();
        let bytes = self.spec_vertices().len() * k.vertex_size;
        let off = self.spec_write_offset();
        let st = self.spec_stats();
        if n == 0 {
            &&& r is Nothing
            &&& offset == off
            &&& stats == st
        } else if off + bytes > k.capacity {
            &&& r == FlushAction::<V>::Overflow { dropped_items: n }
            &&& offset == off
            &&& stats == st
        } else {
            &&& r matches FlushAction::Draw { vb_offset, vertices, draw_count } && vb_offset == off
                && vertices@ == self.spec_vertices() && draw_count == n * k.draw_elements_per_item
            &&& offset == off + bytes
            &&& stats == (Renderer2DStats {
                draw_calls: (st.draw_calls + 1) as u32,
                quad_count: (st.quad_count + n) as u32,
            })
        }
    }

    /// An empty batch of the given shape.
    pub fn new(kind: BatchKind) -> (r: Self)
        requires
            valid_kind(kind),
        ensures
            r.wf(),
            r.spec_kind() == kind,
            r.spec_vertices() == Seq::<V>::empty(),
            r.spec_count() == 0,
            r.spec_write_offset() == 0,
            r.spec_stats() == (Renderer2DStats { draw_calls: 0, quad_count: 0 }),
    {
        BatchState {
            kind,
            vertices: Vec::new(),
            count: 0,
            vb_write_offset: 0,
            stats: Renderer2DStats::default(),
        }
    }

    /// Start a new frame: nothing pending, nothing drawn, the next flush
    /// writes at the start of the buffer.
    pub fn reset(&mut self)
        requires
            old(self).wf(),
        ensures
            final(self).wf(),
            final(self).spec_kind() == old(self).spec_kind(),
            final(self).spec_vertices() == Seq::<V>::empty(),
            final(self).spec_count() == 0,
            final(self).spec_write_offset() == 0,
            final(self).spec_stats() == (Renderer2DStats { draw_calls: 0, quad_count: 0 }),
    {
        self.vertices.clear();
        self.count = 0;
        self.vb_write_offset = 0;
        self.stats = Renderer2DStats::default();
        assert(self.stats.quad_count * (self.kind.vertices_per_item * self.kind.vertex_size) == 0);
        assert(self.vertices@.len() == self.count * self.kind.vertices_per_item);
    }

    /// Push one item's vertices; refused (false) when the batch is full and
    /// must be flushed first.
    pub fn push_item(&mut self, item: &[V]) -> (r: bool)
        requires
            old(self).wf(),
            item@.len() == old(self).spec_kind().vertices_per_item,
        ensures
            final(self).wf(),
            r == (old(self).spec_count() < old(self).spec_kind().max_items),
            final(self).spec_kind() == old(self).spec_kind(),
            r ==> final(self).spec_vertices() == old(self).spec_vertices() + item@
                && final(self).spec_count() == old(self).spec_count() + 1,
            !r ==> final(self).spec_vertices() == old(self).spec_vertices() && final(self).spec_count()
                == old(self).spec_count(),
            final(self).spec_write_offset() == old(self).spec_write_offset(),
            final(self).spec_stats() == old(self).spec_stats(),
    {
        if self.count >= self.kind.max_items {
            return false;
        }
        let ghost before = self.vertices@;
        let ghost k0 = self.kind;
        let ghost c0 = self.count;
        let ghost o0 = self.vb_write_offset;
        let ghost s0 = self.stats;
        let mut i: usize = 0;
        while i < item.len()
            invariant
                self.kind == k0,
                self.vb_write_offset == o0,
                self.stats == s0,
                self.count == c0,
                c0 < k0.max_items,
                valid_kind(k0),
                item@.len() == k0.vertices_per_item,
                before.len() == c0 * k0.vertices_per_item,
                i <= item@.len(),
                self.vertices@ == before + item@.subrange(0, i as int),
            decreases item@.len() - i,
        {
            self.vertices.push(item[i]);
            proof {
                assert(item@.subrange(0, i + 1) =~= item@.subrange(0, i as int).push(item@[i as int]));
            }
            i += 1;
        }
        assert(item@.subrange(0, i as int) =~= item@);
        self.count = self.count + 1;
        proof {
            assert(self.vertices@.len() == self.count * self.kind.vertices_per_item) by (nonlinear_arith)
                requires
                    self.vertices@.len() == before.len() + self.kind.vertices_per_item,
                    before.len() == (self.count - 1) * self.kind.vertices_per_item,
            ;
        }
        true
    }

    /// Push one item's vertices, flushing the batch first when it is full:
    /// the answer is that flush (`None` when none was needed), the write
    /// offset and stats are those the flush left, and the item is pending
    /// afterwards in either case.
    pub fn push_flushing(&mut self, item: &[V]) -> (r: Option<FlushAction<V>>)
        requires
            old(self).wf(),
            item@.len() == old(self).spec_kind().vertices_per_item,
        ensures
            final(self).wf(),
            final(self).spec_kind() == old(self).spec_kind(),
            old(self).spec_count() < old(self).spec_kind().max_items ==> r.is_none()
                && final(self).spec_vertices() == old(self).spec_vertices() + item@
                && final(self).spec_count() == old(self).spec_count() + 1
                && final(self).spec_write_offset() == old(self).spec_write_offset()
                && final(self).spec_stats() == old(self).spec_stats(),
            old(self).spec_count() >= old(self).spec_kind().max_items ==> (r matches Some(a)
                && old(self).spec_flush_outcome(a, final(self).spec_write_offset(), final(self).spec_stats()))
                && final(self).spec_vertices() == item@ && final(self).spec_count() == 1,
    {
        if self.push_item(item) {
            return None;
        }
        let flushed = self.flush();
        let pushed = self.push_item(item);
        assert(pushed);
        assert(self.spec_vertices() =~= item@);
        Some(flushed)
    }

    /// Whether items are pending.
    pub fn has_pending(&self) -> (r: bool)
        ensures
            r == (self.spec_count() > 0),
    {
        self.count > 0
    }

    /// What the frame drew of this batch so far.
    pub fn stats(&self) -> (r: Renderer2DStats)
        ensures
            r == self.spec_stats(),
    {
        self.stats
    }

    /// Flush the pending items: nothing when there are none; dropped when
    /// their vertices would run past the frame's vertex buffer; else their
    /// vertices go to the current write offset, one draw call of their
    /// elements is counted, and the write offset moves past them.
    pub fn flush(&mut self) -> (r: FlushAction<V>)
        requires
            old(self).wf(),
        ensures
            final(self).wf(),
            final(self).spec_kind() == old(self).spec_kind(),
            final(self).spec_vertices() == Seq::<V>::empty(),
            final(self).spec_count() == 0,
            old(self).spec_flush_outcome(r, final(self).spec_write_offset(), final(self).spec_stats()),
    {
        if self.count == 0 {
            assert(self.vertices@.len() == 0) by (nonlinear_arith)
                requires
                    self.vertices@.len() == self.count * self.kind.vertices_per_item,
                    self.count == 0,
            ;
            assert(self.vertices@ =~= Seq::<V>::empty());
            return FlushAction::Nothing;
        }
        let n = self.count;
        proof {
            assert(self.vertices@.len() * self.kind.vertex_size <= self.kind.max_items
                * self.kind.vertices_per_item * self.kind.vertex_size) by (nonlinear_arith)
                requires
                    self.vertices@.len() == n * self.kind.vertices_per_item,
                    n <= self.kind.max_items,
            ;
        }
        let bytes = self.vertices.len() * self.kind.vertex_size;
        let offset = self.vb_write_offset;
        if bytes > self.kind.capacity - offset {
            self.vertices.clear();
            self.count = 0;
            assert(self.vertices@.len() == self.count * self.kind.vertices_per_item);
            return FlushAction::Overflow { dropped_items: n };
        }
        let mut drawn: Vec<V> = Vec::new();
        std::mem::swap(&mut drawn, &mut self.vertices);
        proof {
            assert(self.kind.vertices_per_item * self.kind.vertex_size >= 1) by (nonlinear_arith)
                requires
                    self.kind.vertices_per_item >= 1,
                    self.kind.vertex_size >= 1,
            ;
            assert(n * self.kind.draw_elements_per_item <= self.kind.max_items * 6) by (nonlinear_arith)
                requires
                    n <= self.kind.max_items,
                    self.kind.draw_elements_per_item <= 6,
            ;
            assert(bytes == n * (self.kind.vertices_per_item * self.kind.vertex_size)) by (nonlinear_arith)
                requires
                    bytes == drawn@.len() * self.kind.vertex_size,
                    drawn@.len() == n * self.kind.vertices_per_item,
            ;
            assert((self.stats.quad_count + n) * (self.kind.vertices_per_item * self.kind.vertex_size)
                == self.stats.quad_count * (self.kind.vertices_per_item * self.kind.vertex_size) + n * (
            self.kind.vertices_per_item * self.kind.vertex_size)) by (nonlinear_arith);
            assert(self.stats.quad_count + n <= offset + bytes) by (nonlinear_arith)
                requires
                    self.stats.quad_count * (self.kind.vertices_per_item * self.kind.vertex_size) == offset,
                    bytes == n * (self.kind.vertices_per_item * self.kind.vertex_size),
                    self.kind.vertices_per_item * self.kind.vertex_size >= 1,
            ;
            assert(bytes >= 1) by (nonlinear_arith)
                requires
                    bytes == n * (self.kind.vertices_per_item * self.kind.vertex_size),
                    n >= 1,
                    self.kind.vertices_per_item * self.kind.vertex_size >= 1,
            ;
        }
        let draw_count = (n * self.kind.draw_elements_per_item) as u32;
        self.stats = Renderer2DStats {
            draw_calls: self.stats.draw_calls + 1,
            quad_count: self.stats.quad_count + n as u32,
        };
        self.vb_write_offset = offset + bytes;
        self.count = 0;
        assert(self.vertices@.len() == self.count * self.kind.vertices_per_item);
        FlushAction::Draw { vb_offset: offset, vertices: drawn, draw_count }
    }
}

/// Items that a flush drops are never drawn: the frame's stats count
/// exactly the items whose vertices were written, so the item count times
/// the item's bytes is the write offset.
pub proof fn lemma_stats_count_written_items<V: Copy>(b: BatchState<V>)
    requires
        b.wf(),
    ensures
        b.spec_stats().quad_count * (b.spec_kind().vertices_per_item * b.spec_kind().vertex_size)
            == b.spec_write_offset(),
        b.spec_write_offset() <= b.spec_kind().capacity,
{
}

// ---------------------------------------------------------------------------
// Index patterns
// ---------------------------------------------------------------------------

/// The `q`-th index of quad `i` in the shared quad index buffer: triangles
/// (0, 1, 2) and (2, 3, 0) of its four vertices.
pub open spec fn quad_index(i: int, q: int) -> int {
    4 * i + quad_corner(q)
}

/// Corner of the quad that the `q`-th index of its six refers to.
pub open spec fn quad_corner(q: int) -> int {
    if q == 0 {
        0
    } else if q == 1 {
        1
    } else if q == 2 {
        2
    } else if q == 3 {
        2
    } else if q == 4 {
        3
    } else {
        0
    }
}

/// The shared index buffer of `quads` batched quads.
pub fn batch_quad_indices(quads: u32) -> (r: Vec<u32>)
    requires
        4 * quads <= u32::MAX,
    ensures
        r@.len() == 6 * quads,
        forall|k: int| 0 <= k < r@.len() ==> #[trigger] r@[k] == quad_index(k / 6, k % 6),
        forall|k: int| 0 <= k < r@.len() ==> #[trigger] r@[k] < 4 * quads,
{
    let mut indices: Vec<u32> = Vec::new();
    let mut i: u32 = 0;
    while i < quads
        invariant
            4 * quads <= u32::MAX,
            i <= quads,
            indices@.len() == 6 * i,
            forall|k: int| 0 <= k < indices@.len() ==> #[trigger] indices@[k] == quad_index(k / 6, k % 6),
            forall|k: int| 0 <= k < indices@.len() ==> #[trigger] indices@[k] < 4 * i,
        decreases quads - i,
    {
        let base = i * 4;
        let ghost before = indices@;
        indices.push(base);
        indices.push(base + 1);
        indices.push(base + 2);
        indices.push(base + 2);
        indices.push(base + 3);
        indices.push(base);
        proof {
            assert forall|k: int| 0 <= k < indices@.len() implies #[trigger] indices@[k] == quad_index(k / 6, k % 6)
                && indices@[k] < 4 * (i + 1) by {
                if k < before.len() {
                    assert(indices@[k] == before[k]);
                }
            }
        }
        i += 1;
    }
    indices
}

/// The six indices of the shared unit quad of instanced sprites.
pub fn unit_quad_indices() -> (r: Vec<u32>)
    ensures
        r@ == seq![0u32, 1, 2, 2, 3, 0],
{
    let r = vec![0u32, 1, 2, 2, 3, 0];
    assert(r@ =~= seq![0u32, 1, 2, 2, 3, 0]);
    r
}

// ---------------------------------------------------------------------------
// Bindless texture slots
// ---------------------------------------------------------------------------

/// Allocation of slots in the bindless texture array. Slot 0 holds the
/// white fallback texture.
pub struct BindlessSlots {
    free_list: Vec<u32>,
    next_index: u32,
}

impl BindlessSlots {
    /// Slots returned for reuse, most recent last.
    pub closed spec fn spec_free_list(&self) -> Seq<u32> {
        self.free_list@
    }

    /// The next never-used slot.
    pub closed spec fn spec_next_index(&self) -> u32 {
        self.next_index
    }

    /// No slot beyond the array was ever handed out.
    pub open spec fn wf(&self) -> bool {
        self.spec_next_index() <= MAX_BINDLESS_TEXTURES
    }

    /// No slot used yet.
    pub fn new() -> (r: Self)
        ensures
            r.wf(),
            r.spec_free_list() == Seq::<u32>::empty(),
            r.spec_next_index() == 0,
    {
        BindlessSlots { free_list: Vec::new(), next_index: 0 }
    }

    /// A slot for a new texture: the most recently returned slot if any,
    /// else the next never-used one; when the array is exhausted, slot 0
    /// (the white texture) as a fallback.
    pub fn register(&mut self) -> (r: u32)
        requires
            old(self).wf(),
        ensures
            final(self).wf(),
            old(self).spec_free_list().len() > 0 ==> r == old(self).spec_free_list().last()
                && final(self).spec_free_list() == old(self).spec_free_list().drop_last()
                && final(self).spec_next_index() == old(self).spec_next_index(),
            old(self).spec_free_list().len() == 0 && old(self).spec_next_index() < MAX_BINDLESS_TEXTURES
                ==> r == old(self).spec_next_index() && final(self).spec_next_index() == old(
                self,
            ).spec_next_index() + 1 && final(self).spec_free_list() == old(self).spec_free_list(),
            old(self).spec_free_list().len() == 0 && old(self).spec_next_index()
                >= MAX_BINDLESS_TEXTURES ==> r == 0 && final(self).spec_next_index() == old(
                self,
            ).spec_next_index() && final(self).spec_free_list() == old(self).spec_free_list(),
    {
        match self.free_list.pop() {
            Some(recycled) => recycled,
            None => {
                let index = self.next_index;
                if index >= MAX_BINDLESS_TEXTURES {
                    return 0;
                }
                self.next_index = index + 1;
                index
            },
        }
    }

    /// Return a slot for reuse; slot 0 (the white texture) is never freed.
    pub fn unregister(&mut self, index: u32)
        requires
            old(self).wf(),
        ensures
            final(self).wf(),
            final(self).spec_next_index() == old(self).spec_next_index(),
            final(self).spec_free_list() == (if index == 0 {
                old(self).spec_free_list()
            } else {
                old(self).spec_free_list().push(index)
            }),
    {
        if index == 0 {
            return;
        }
        self.free_list.push(index);
    }
}

/// A returned slot is the next one handed out again.
pub proof fn lemma_unregister_then_register(before: BindlessSlots, mid: BindlessSlots, index: u32)
    requires
        before.wf(),
        index != 0,
        mid.spec_free_list() == before.spec_free_list().push(index),
    ensures
        mid.spec_free_list().len() > 0,
        mid.spec_free_list().last() == index,
        mid.spec_free_list().drop_last() == before.spec_free_list(),
{
    assert(mid.spec_free_list().drop_last() =~= before.spec_free_list());
}

// ---------------------------------------------------------------------------
// Vertex layouts
// ---------------------------------------------------------------------------

/// The data types of a layout's elements, in order.
pub open spec fn element_types(l: BufferLayout) -> Seq<ShaderDataType> {
    l.spec_elements().map_values(|e: BufferElement| e.data_type)
}

/// The names of a layout's elements, in order.
pub open spec fn element_names(l: BufferLayout) -> Seq<Seq<char>> {
    l.spec_elements().map_values(|e: BufferElement| e.name@)
}

/// The byte offsets of a layout's elements, in order.
pub open spec fn element_offsets(l: BufferLayout) -> Seq<u32> {
    l.spec_elements().map_values(|e: BufferElement| e.offset)
}

/// Lay out the given elements; the stride is their total size.
fn layout_of(elems: &[BufferElement]) -> (r: BufferLayout)
    requires
        size_prefix(elems@, elems@.len() as int) <= u32::MAX,
    ensures
        laid_out_from(r.spec_elements(), elems@),
        r.spec_stride() == size_prefix(elems@, elems@.len() as int),
        element_types(r) == elems@.map_values(|e: BufferElement| e.data_type),
        element_names(r) == elems@.map_values(|e: BufferElement| e.name@),
{
    let r = BufferLayout::new(elems);
    proof {
        assert forall|i: int| 0 <= i < elems@.len() implies r.spec_elements()[i].data_type
            == elems@[i].data_type && r.spec_elements()[i].name@ == elems@[i].name@ by {
            assert(placed_copy(r.spec_elements()[i], elems@[i], size_prefix(elems@, i)));
        }
        assert(element_types(r) =~= elems@.map_values(|e: BufferElement| e.data_type));
        assert(element_names(r) =~= elems@.map_values(|e: BufferElement| e.name@));
    }
    r
}

/// The canonical buffer layout for batch quad vertices.
pub fn batch_quad_vertex_layout() -> (r: BufferLayout)
    ensures
        r.spec_stride() == QUAD_VERTEX_SIZE,
        element_offsets(r) == seq![0u32, 12u32, 28u32, 36u32, 40u32],
        element_types(r) == seq![
            ShaderDataType::Float3,
            ShaderDataType::Float4,
            ShaderDataType::Float2,
            ShaderDataType::Float,
            ShaderDataType::Int,
        ],
        element_names(r) == seq!["a_position"@, "a_color"@, "a_tex_coord"@, "a_tex_index"@, "a_entity_id"@],
{
    let e = [
        BufferElement::new(ShaderDataType::Float3, "a_position"),
        BufferElement::new(ShaderDataType::Float4, "a_color"),
        BufferElement::new(ShaderDataType::Float2, "a_tex_coord"),
        BufferElement::new(ShaderDataType::Float, "a_tex_index"),
        BufferElement::new(ShaderDataType::Int, "a_entity_id"),
    ];
    let s = e.as_slice();
    assert(size_prefix(s@, 5) == 44) by {
        reveal_with_fuel(size_prefix, 6);
    }
    let r = layout_of(s);
    assert(element_offsets(r) =~= seq![0u32, 12u32, 28u32, 36u32, 40u32]) by {
        reveal_with_fuel(size_prefix, 6);
    }
    assert(element_types(r) =~= seq![
        ShaderDataType::Float3,
        ShaderDataType::Float4,
        ShaderDataType::Float2,
        ShaderDataType::Float,
        ShaderDataType::Int,
    ]);
    assert(element_names(r) =~= seq!["a_position"@, "a_color"@, "a_tex_coord"@, "a_tex_index"@, "a_entity_id"@]);
    r
}

/// The canonical buffer layout for batch circle vertices.
pub fn batch_circle_vertex_layout() -> (r: BufferLayout)
    ensures
        r.spec_stride() == CIRCLE_VERTEX_SIZE,
        element_offsets(r) == seq![0u32, 12u32, 24u32, 40u32, 44u32, 48u32],
        element_types(r) == seq![
            ShaderDataType::Float3,
            ShaderDataType::Float3,
            ShaderDataType::Float4,
            ShaderDataType::Float,
            ShaderDataType::Float,
            ShaderDataType::Int,
        ],
        element_names(r) == seq![
            "a_world_position"@,
            "a_local_position"@,
            "a_color"@,
            "a_thickness"@,
            "a_fade"@,
            "a_entity_id"@,
        ],
{
    let e = [
        BufferElement::new(ShaderDataType::Float3, "a_world_position"),
        BufferElement::new(ShaderDataType::Float3, "a_local_position"),
        BufferElement::new(ShaderDataType::Float4, "a_color"),
        BufferElement::new(ShaderDataType::Float, "a_thickness"),
        BufferElement::new(ShaderDataType::Float, "a_fade"),
        BufferElement::new(ShaderDataType::Int, "a_entity_id"),
    ];
    let s = e.as_slice();
    assert(size_prefix(s@, 6) == 52) by {
        reveal_with_fuel(size_prefix, 7);
    }
    let r = layout_of(s);
    assert(element_offsets(r) =~= seq![0u32, 12u32, 24u32, 40u32, 44u32, 48u32]) by {
        reveal_with_fuel(size_prefix, 7);
    }
    assert(element_types(r) =~= seq![
        ShaderDataType::Float3,
        ShaderDataType::Float3,
        ShaderDataType::Float4,
        ShaderDataType::Float,
        ShaderDataType::Float,
        ShaderDataType::Int,
    ]);
    assert(element_names(r) =~= seq![
        "a_world_position"@,
        "a_local_position"@,
        "a_color"@,
        "a_thickness"@,
        "a_fade"@,
        "a_entity_id"@,
    ]);
    r
}

/// The canonical buffer layout for batch line vertices.
pub fn batch_line_vertex_layout() -> (r: BufferLayout)
    ensures
        r.spec_stride() == LINE_VERTEX_SIZE,
        element_offsets(r) == seq![0u32, 12u32, 28u32],
        element_types(r) == seq![ShaderDataType::Float3, ShaderDataType::Float4, ShaderDataType::Int],
        element_names(r) == seq!["a_position"@, "a_color"@, "a_entity_id"@],
{
    let e = [
        BufferElement::new(ShaderDataType::Float3, "a_position"),
        BufferElement::new(ShaderDataType::Float4, "a_color"),
        BufferElement::new(ShaderDataType::Int, "a_entity_id"),
    ];
    let s = e.as_slice();
    assert(size_prefix(s@, 3) == 32) by {
        reveal_with_fuel(size_prefix, 4);
    }
    let r = layout_of(s);
    assert(element_offsets(r) =~= seq![0u32, 12u32, 28u32]) by {
        reveal_with_fuel(size_prefix, 4);
    }
    assert(element_types(r) =~= seq![ShaderDataType::Float3, ShaderDataType::Float4, ShaderDataType::Int]);
    assert(element_names(r) =~= seq!["a_position"@, "a_color"@, "a_entity_id"@]);
    r
}

/// Buffer layout of the static unit quad of instanced sprites (per-vertex).
pub fn unit_quad_vertex_layout() -> (r: BufferLayout)
    ensures
        r.spec_stride() == 20,
        element_offsets(r) == seq![0u32, 12u32],
        element_types(r) == seq![ShaderDataType::Float3, ShaderDataType::Float2],
        element_names(r) == seq!["a_position"@, "a_tex_coord"@],
{
    let e = [
        BufferElement::new(ShaderDataType::Float3, "a_position"),
        BufferElement::new(ShaderDataType::Float2, "a_tex_coord"),
    ];
    let s = e.as_slice();
    assert(size_prefix(s@, 2) == 20) by {
        reveal_with_fuel(size_prefix, 3);
    }
    let r = layout_of(s);
    assert(element_offsets(r) =~= seq![0u32, 12u32]) by {
        reveal_with_fuel(size_prefix, 3);
    }
    assert(element_types(r) =~= seq![ShaderDataType::Float3, ShaderDataType::Float2]);
    assert(element_names(r) =~= seq!["a_position"@, "a_tex_coord"@]);
    r
}

/// Buffer layout of the per-instance sprite data.
pub fn sprite_instance_layout() -> (r: BufferLayout)
    ensures
        r.spec_stride() == SPRITE_INSTANCE_SIZE,
        element_offsets(r) == seq![0u32, 16u32, 32u32, 48u32, 64u32, 80u32, 88u32, 96u32, 100u32, 104u32, 108u32],
        element_types(r) == seq![
            ShaderDataType::Float4,
            ShaderDataType::Float4,
            ShaderDataType::Float4,
            ShaderDataType::Float4,
            ShaderDataType::Float4,
            ShaderDataType::Float2,
            ShaderDataType::Float2,
            ShaderDataType::Float,
            ShaderDataType::Float,
            ShaderDataType::Int,
            ShaderDataType::Int,
        ],
        element_names(r) == seq![
            "a_transform_col0"@,
            "a_transform_col1"@,
            "a_transform_col2"@,
            "a_transform_col3"@,
            "a_color"@,
            "a_uv_min"@,
            "a_uv_max"@,
            "a_tex_index"@,
            "a_tiling_factor"@,
            "a_entity_id"@,
            "a_pad"@,
        ],
{
    let e = [
        BufferElement::new(ShaderDataType::Float4, "a_transform_col0"),
        BufferElement::new(ShaderDataType::Float4, "a_transform_col1"),
        BufferElement::new(ShaderDataType::Float4, "a_transform_col2"),
        BufferElement::new(ShaderDataType::Float4, "a_transform_col3"),
        BufferElement::new(ShaderDataType::Float4, "a_color"),
        BufferElement::new(ShaderDataType::Float2, "a_uv_min"),
        BufferElement::new(ShaderDataType::Float2, "a_uv_max"),
        BufferElement::new(ShaderDataType::Float, "a_tex_index"),
        BufferElement::new(ShaderDataType::Float, "a_tiling_factor"),
        BufferElement::new(ShaderDataType::Int, "a_entity_id"),
        BufferElement::new(ShaderDataType::Int, "a_pad"),
    ];
    let s = e.as_slice();
    assert(size_prefix(s@, 11) == 112) by {
        reveal_with_fuel(size_prefix, 12);
    }
    let r = layout_of(s);
    assert(element_offsets(r) =~= seq![0u32, 16u32, 32u32, 48u32, 64u32, 80u32, 88u32, 96u32, 100u32, 104u32, 108u32]) by {
        reveal_with_fuel(size_prefix, 12);
    }
    assert(element_types(r) =~= seq![
        ShaderDataType::Float4,
        ShaderDataType::Float4,
        ShaderDataType::Float4,
        ShaderDataType::Float4,
        ShaderDataType::Float4,
        ShaderDataType::Float2,
        ShaderDataType::Float2,
        ShaderDataType::Float,
        ShaderDataType::Float,
        ShaderDataType::Int,
        ShaderDataType::Int,
    ]);
    assert(element_names(r) =~= seq![
        "a_transform_col0"@,
        "a_transform_col1"@,
        "a_transform_col2"@,
        "a_transform_col3"@,
        "a_color"@,
        "a_uv_min"@,
        "a_uv_max"@,
        "a_tex_index"@,
        "a_tiling_factor"@,
        "a_entity_id"@,
        "a_pad"@,
    ]);
    r
}

} // verus!
