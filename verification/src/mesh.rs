//! Triangle index generation for the built-in primitives, mesh merging and
//! glTF index conversion. Vertex data is generic: the mesh only rearranges
//! vertices, it never looks inside them.
use vstd::prelude::*;
use crate::buffer::{size_prefix, laid_out_from, BufferElement, BufferLayout, ShaderDataType};

verus! {

/// Every index refers to one of `vertex_count` vertices.
pub open spec fn indices_in_range(indices: Seq<u32>, vertex_count: int) -> bool {
    forall|i: int| 0 <= i < indices.len() ==> (#[trigger] indices[i]) < vertex_count
}

// ---------------------------------------------------------------------------
// Built-in primitives
// ---------------------------------------------------------------------------

/// Number of faces of the unit cube; each face has its own 4 vertices.
pub const CUBE_FACES: u32 = 6;

/// Corner order of the two triangles of a cube face, relative to the face's
/// first vertex.
pub open spec fn cube_face_corner(j: int) -> int {
    if j == 0 {
        0
    } else if j == 1 {
        2
    } else if j == 2 {
        1
    } else if j == 3 {
        0
    } else if j == 4 {
        3
    } else {
        2
    }
}

/// Indices of the unit cube (24 vertices, 4 per face): each face is the two
/// triangles (0, 2, 1) and (0, 3, 2) of its corners.
pub fn cube_indices() -> (r: Vec<u32>)
    ensures
        r@.len() == 36,
        forall|i: int| 0 <= i < 36 ==> #[trigger] r@[i] == 4 * (i / 6) + cube_face_corner(i % 6),
        indices_in_range(r@, 24),
{
    let mut indices: Vec<u32> = Vec::new();
    let mut face: u32 = 0;
    while face < CUBE_FACES
        invariant
            face <= 6,
            indices@.len() == 6 * face,
            forall|i: int|
                0 <= i < indices@.len() ==> #[trigger] indices@[i] == 4 * (i / 6)
                    + cube_face_corner(i % 6),
        decreases 6 - face,
    {
        let base = face * 4;
        let ghost before = indices@;
        indices.push(base);
        indices.push(base + 2);
        indices.push(base + 1);
        indices.push(base);
        indices.push(base + 3);
        indices.push(base + 2);
        proof {
            assert forall|i: int| 0 <= i < indices@.len() implies #[trigger] indices@[i] == 4 * (i
                / 6) + cube_face_corner(i % 6) by {
                if i < before.len() {
                    assert(indices@[i] == before[i]);
                }
            }
        }
        face += 1;
    }
    indices
}

/// Indices of the flat unit plane (4 vertices, two triangles).
pub fn plane_indices() -> (r: Vec<u32>)
    ensures
        r@ == seq![0u32, 1, 2, 0, 2, 3],
        indices_in_range(r@, 4),
{
    let r = vec![0u32, 1, 2, 0, 2, 3];
    assert(r@ =~= seq![0u32, 1, 2, 0, 2, 3]);
    r
}

/// Segment and ring counts of a UV sphere after the minimums are applied
/// (at least 3 segments around, at least 2 rings from pole to pole).
pub open spec fn sphere_grid(segments: u32, rings: u32) -> (u32, u32) {
    (if segments < 3 { 3 } else { segments }, if rings < 2 { 2 } else { rings })
}

/// Number of vertices of a UV sphere: a grid of (rings + 1) × (segments + 1).
pub open spec fn sphere_vertex_count(segments: u32, rings: u32) -> int {
    let (s, r) = sphere_grid(segments, rings);
    (r + 1) * (s + 1)
}

/// The `q`-th index of the quad at (`ring`, `seg`) of a sphere grid with
/// `s` segments: triangles (curr, next, curr + 1) and (curr + 1, next,
/// next + 1), where `next` is the vertex one ring further down.
pub open spec fn sphere_quad_index(s: int, ring: int, seg: int, q: int) -> int {
    let curr = ring * (s + 1) + seg;
    let next = curr + s + 1;
    if q == 0 {
        curr
    } else if q == 1 {
        next
    } else if q == 2 {
        curr + 1
    } else if q == 3 {
        curr + 1
    } else if q == 4 {
        next
    } else {
        next + 1
    }
}

/// The segment and ring counts a UV sphere request is built with.
pub fn sphere_dimensions(segments: u32, rings: u32) -> (r: (u32, u32))
    ensures
        r == sphere_grid(segments, rings),
{
    (if segments < 3 { 3 } else { segments }, if rings < 2 { 2 } else { rings })
}

/// Indices of a UV sphere with the given segment and ring counts (raised to
/// their minimums), ring by ring, segment by segment, six per grid quad.
pub fn sphere_indices(segments: u32, rings: u32) -> (r: Vec<u32>)
    requires
        sphere_vertex_count(segments, rings) <= u32::MAX,
    ensures
        ({
            let (s, rr) = sphere_grid(segments, rings);
            &&& r@.len() == 6 * s * rr
            &&& forall|i: int|
                0 <= i < r@.len() ==> #[trigger] r@[i] == sphere_quad_index(
                    s as int,
                    (i / 6) / (s as int),
                    (i / 6) % (s as int),
                    i % 6,
                )
            &&& indices_in_range(r@, sphere_vertex_count(segments, rings))
        }),
{
    let (s, rr) = sphere_dimensions(segments, rings);
    let ghost total = sphere_vertex_count(segments, rings);
    let mut indices: Vec<u32> = Vec::new();
    let mut ring: u32 = 0;
    while ring < rr
        invariant
            s >= 3,
            rr >= 2,
            total == (rr + 1) * (s + 1),
            total <= u32::MAX,
            ring <= rr,
            indices@.len() == 6 * s * ring,
            forall|i: int|
                0 <= i < indices@.len() ==> #[trigger] indices@[i] == sphere_quad_index(
                    s as int,
                    (i / 6) / (s as int),
                    (i / 6) % (s as int),
                    i % 6,
                ),
            indices_in_range(indices@, total),
        decreases rr - ring,
    {
        let mut seg: u32 = 0;
        while seg < s
            invariant
                s >= 3,
                rr >= 2,
                total == (rr + 1) * (s + 1),
                total <= u32::MAX,
                ring < rr,
                seg <= s,
                indices@.len() == 6 * s * ring + 6 * seg,
                forall|i: int|
                    0 <= i < indices@.len() ==> #[trigger] indices@[i] == sphere_quad_index(
                        s as int,
                        (i / 6) / (s as int),
                        (i / 6) % (s as int),
                        i % 6,
                    ),
                indices_in_range(indices@, total),
            decreases s - seg,
        {
            proof {
                assert((ring + 1) * (s + 1) + seg + 1 < (rr + 1) * (s + 1)) by (nonlinear_arith)
                    requires
                        ring + 1 <= rr,
                        seg < s,
                ;
                assert(ring * (s + 1) + seg + s + 2 == (ring + 1) * (s + 1) + seg + 1)
                    by (nonlinear_arith);
            }
            let curr = ring * (s + 1) + seg;
            let next = curr + s + 1;
            let ghost before = indices@;
            let ghost q0 = 6 * s * ring + 6 * seg;
            indices.push(curr);
            indices.push(next);
            indices.push(curr + 1);
            indices.push(curr + 1);
            indices.push(next);
            indices.push(next + 1);
            proof {
                assert(q0 / 6 == s * ring + seg && q0 == 6 * (s * ring + seg)) by (nonlinear_arith)
                    requires
                        q0 == 6 * s * ring + 6 * seg,
                ;
                assert((s * ring + seg) / (s as int) == ring as int) by (nonlinear_arith)
                    requires
                        seg < s,
                        s > 0,
                ;
                assert((s * ring + seg) % (s as int) == seg as int) by (nonlinear_arith)
                    requires
                        seg < s,
                        s > 0,
                ;
                assert forall|i: int| 0 <= i < indices@.len() implies #[trigger] indices@[i]
                    == sphere_quad_index(s as int, (i / 6) / (s as int), (i / 6) % (s as int), i
                    % 6) by {
                    if i < before.len() {
                        assert(indices@[i] == before[i]);
                    } else {
                        assert(i / 6 == q0 / 6 && i % 6 == i - q0) by (nonlinear_arith)
                            requires
                                q0 == 6 * (s * ring + seg),
                                q0 <= i < q0 + 6,
                        ;
                    }
                }
                assert forall|i: int| 0 <= i < indices@.len() implies (#[trigger] indices@[i])
                    < total by {
                    if i < before.len() {
                        assert(indices@[i] == before[i]);
                    }
                }
            }
            seg += 1;
        }
        proof {
            assert(6 * s * ring + 6 * s == 6 * s * (ring + 1)) by (nonlinear_arith);
        }
        ring += 1;
    }
    indices
}

// ---------------------------------------------------------------------------
// Mesh
// ---------------------------------------------------------------------------

/// CPU-side mesh data ready for GPU upload: vertices, triangle indices into
/// them, and a name.
pub struct Mesh<V> {
    pub vertices: Vec<V>,
    pub indices: Vec<u32>,
    pub name: String,
}

/// Total vertex count of the first `n` meshes.
pub open spec fn vertex_count_prefix<V>(ms: Seq<Mesh<V>>, n: int) -> int
    decreases n,
{
    if n <= 0 || ms.len() == 0 {
        0
    } else {
        vertex_count_prefix(ms, n - 1) + ms[n - 1].vertices@.len()
    }
}

/// The vertices of the first `n` meshes, one mesh after the other.
pub open spec fn concat_vertices<V>(ms: Seq<Mesh<V>>, n: int) -> Seq<V>
    decreases n,
{
    if n <= 0 || ms.len() == 0 {
        Seq::empty()
    } else {
        concat_vertices(ms, n - 1) + ms[n - 1].vertices@
    }
}

/// The base added to the indices of mesh `k` when merging: the number of
/// vertices before it, as the `u32` the indices are stored in.
pub open spec fn merge_base<V>(ms: Seq<Mesh<V>>, k: int) -> u32 {
    vertex_count_prefix(ms, k) as u32
}

/// The indices of the first `n` meshes, each mesh's indices shifted by its
/// base so that they refer to its vertices in the merged vertex list.
pub open spec fn concat_shifted_indices<V>(ms: Seq<Mesh<V>>, n: int) -> Seq<u32>
    decreases n,
{
    if n <= 0 || ms.len() == 0 {
        Seq::empty()
    } else {
        concat_shifted_indices(ms, n - 1) + ms[n - 1].indices@.map_values(
            |x: u32| (x + merge_base(ms, n - 1)) as u32,
        )
    }
}

/// No shifted index of any mesh exceeds `u32::MAX`.
pub open spec fn merge_fits<V>(ms: Seq<Mesh<V>>) -> bool {
    forall|k: int, j: int|
        0 <= k < ms.len() && 0 <= j < ms[k].indices@.len() ==> #[trigger] ms[k].indices@[j]
            + merge_base(ms, k) <= u32::MAX
}

proof fn lemma_prefix_unfold<V>(ms: Seq<Mesh<V>>, n: int)
    requires
        0 < n <= ms.len(),
    ensures
        vertex_count_prefix(ms, n) == vertex_count_prefix(ms, n - 1) + ms[n - 1].vertices@.len(),
        concat_vertices(ms, n) == concat_vertices(ms, n - 1) + ms[n - 1].vertices@,
        concat_shifted_indices(ms, n) == concat_shifted_indices(ms, n - 1) + ms[n
            - 1].indices@.map_values(|x: u32| (x + merge_base(ms, n - 1)) as u32),
{
}

proof fn lemma_concat_vertices_len<V>(ms: Seq<Mesh<V>>, n: int)
    requires
        0 <= n <= ms.len(),
    ensures
        concat_vertices(ms, n).len() == vertex_count_prefix(ms, n),
    decreases n,
{
    if n > 0 {
        lemma_concat_vertices_len(ms, n - 1);
    }
}

proof fn lemma_vertex_prefix_monotone<V>(ms: Seq<Mesh<V>>, m: int, n: int)
    requires
        0 <= m <= n <= ms.len(),
    ensures
        0 <= vertex_count_prefix(ms, m) <= vertex_count_prefix(ms, n),
    decreases n,
{
    if n > m {
        lemma_vertex_prefix_monotone(ms, m, n - 1);
    } else if n > 0 {
        lemma_vertex_prefix_monotone(ms, m - 1, n - 1);
    }
}

impl<V> Mesh<V> {
    /// Merge meshes into one: their vertices one mesh after the other, and
    /// their indices shifted so that each still refers to its own mesh's
    /// vertices.
    pub fn merge(meshes: Vec<Mesh<V>>, name: String) -> (r: Mesh<V>)
        requires
            merge_fits(meshes@),
        ensures
            r.vertices@ == concat_vertices(meshes@, meshes@.len() as int),
            r.indices@ == concat_shifted_indices(meshes@, meshes@.len() as int),
            r.name == name,
    {
        let count = meshes.len();
        let ghost ms = meshes@;
        let mut rest = meshes;
        let mut vertices: Vec<V> = Vec::new();
        let mut indices: Vec<u32> = Vec::new();
        let mut k: usize = 0;
        while rest.len() > 0
            invariant
                merge_fits(ms),
                ms.len() <= usize::MAX,
                k + rest@.len() == ms.len(),
                rest@ == ms.subrange(k as int, ms.len() as int),
                vertices@ == concat_vertices(ms, k as int),
                indices@ == concat_shifted_indices(ms, k as int),
            decreases rest@.len(),
        {
            assert(k < ms.len());
            let mut mesh = rest.remove(0);
            proof {
                assert(mesh == ms[k as int]);
                lemma_concat_vertices_len(ms, k as int);
                lemma_prefix_unfold(ms, k as int + 1);
            }
            let base = #[verifier::truncate] (vertices.len() as u32);
            let ghost shifted = mesh.indices@.map_values(|x: u32| (x + merge_base(ms, k as int)) as u32);
            let mut j: usize = 0;
            let ghost indices_before = indices@;
            while j < mesh.indices.len()
                invariant
                    merge_fits(ms),
                    k < ms.len(),
                    mesh == ms[k as int],
                    base == merge_base(ms, k as int),
                    j <= mesh.indices@.len(),
                    shifted == mesh.indices@.map_values(|x: u32| (x + merge_base(ms, k as int)) as u32),
                    indices@ == indices_before + shifted.subrange(0, j as int),
                decreases mesh.indices@.len() - j,
            {
                let x = mesh.indices[j];
                assert(ms[k as int].indices@[j as int] + merge_base(ms, k as int) <= u32::MAX);
                indices.push(x + base);
                proof {
                    assert(shifted.subrange(0, j as int + 1) =~= shifted.subrange(0, j as int).push(
                        shifted[j as int],
                    ));
                }
                j += 1;
            }
            assert(shifted.subrange(0, j as int) =~= shifted);
            vertices.append(&mut mesh.vertices);
            proof {
                assert(rest@ =~= ms.subrange(k as int + 1, ms.len() as int));
            }
            k += 1;
        }
        assert(ms.subrange(k as int, ms.len() as int).len() == 0);
        Mesh { vertices, indices, name }
    }
}

/// Merging keeps indices valid: if every mesh's indices refer to its own
/// vertices and the merged mesh has at most `u32::MAX` vertices, every
/// merged index refers to a merged vertex.
pub proof fn lemma_merge_keeps_indices_in_range<V>(ms: Seq<Mesh<V>>)
    requires
        forall|k: int|
            0 <= k < ms.len() ==> indices_in_range(
                #[trigger] ms[k].indices@,
                ms[k].vertices@.len() as int,
            ),
        vertex_count_prefix(ms, ms.len() as int) <= u32::MAX,
    ensures
        merge_fits(ms),
        indices_in_range(
            concat_shifted_indices(ms, ms.len() as int),
            concat_vertices(ms, ms.len() as int).len() as int,
        ),
{
    lemma_concat_vertices_len(ms, ms.len() as int);
    assert forall|k: int, j: int|
        0 <= k < ms.len() && 0 <= j < ms[k].indices@.len() implies #[trigger] ms[k].indices@[j]
        + merge_base(ms, k) <= u32::MAX by {
        assert(indices_in_range(ms[k].indices@, ms[k].vertices@.len() as int));
        lemma_vertex_prefix_monotone(ms, k, k + 1);
        lemma_vertex_prefix_monotone(ms, k + 1, ms.len() as int);
        assert(ms[k].indices@[j] < ms[k].vertices@.len());
    }
    lemma_merged_in_range(ms, ms.len() as int);
}

proof fn lemma_merged_in_range<V>(ms: Seq<Mesh<V>>, n: int)
    requires
        0 <= n <= ms.len(),
        forall|k: int|
            0 <= k < ms.len() ==> indices_in_range(
                #[trigger] ms[k].indices@,
                ms[k].vertices@.len() as int,
            ),
        vertex_count_prefix(ms, ms.len() as int) <= u32::MAX,
    ensures
        indices_in_range(concat_shifted_indices(ms, n), vertex_count_prefix(ms, n)),
    decreases n,
{
    if n > 0 {
        lemma_merged_in_range(ms, n - 1);
        lemma_prefix_unfold(ms, n);
        lemma_vertex_prefix_monotone(ms, n - 1, n);
        lemma_vertex_prefix_monotone(ms, n, ms.len() as int);
        let prev = concat_shifted_indices(ms, n - 1);
        let base = merge_base(ms, n - 1);
        let tail = ms[n - 1].indices@.map_values(|x: u32| (x + base) as u32);
        assert(indices_in_range(ms[n - 1].indices@, ms[n - 1].vertices@.len() as int));
        assert forall|i: int| 0 <= i < prev.len() + tail.len() implies (#[trigger] (prev
            + tail)[i]) < vertex_count_prefix(ms, n) by {
            if i < prev.len() {
                assert((prev + tail)[i] == prev[i]);
            } else {
                assert((prev + tail)[i] == tail[i - prev.len()]);
                assert(ms[n - 1].indices@[i - prev.len()] < ms[n - 1].vertices@.len());
            }
        }
    }
}

// ---------------------------------------------------------------------------
// glTF index conversion
// ---------------------------------------------------------------------------

/// The triangles of `raw` with each triangle's winding reversed: (a, b, c)
/// becomes (a, c, b). A trailing incomplete triangle is dropped.
pub open spec fn spec_flip_winding(raw: Seq<u32>) -> Seq<u32> {
    Seq::new(
        (raw.len() / 3 * 3) as nat,
        |i: int|
            if i % 3 == 0 {
                raw[i]
            } else if i % 3 == 1 {
                raw[i + 1]
            } else {
                raw[i - 1]
            },
    )
}

/// Reverse the winding of each triangle (glTF is counter-clockwise, the
/// engine's pipelines expect clockwise in model space).
pub fn flip_winding(raw: &[u32]) -> (r: Vec<u32>)
    ensures
        r@ == spec_flip_winding(raw@),
{
    let mut flipped: Vec<u32> = Vec::new();
    let mut pos: usize = 0;
    let ghost full = raw@.len() / 3 * 3;
    while raw.len() - pos >= 3
        invariant
            pos <= raw@.len(),
            pos % 3 == 0,
            pos <= full,
            full == raw@.len() / 3 * 3,
            flipped@.len() == pos,
            forall|i: int| 0 <= i < flipped@.len() ==> #[trigger] flipped@[i] == spec_flip_winding(raw@)[i],
        decreases raw@.len() - pos,
    {
        let ghost before = flipped@;
        flipped.push(raw[pos]);
        flipped.push(raw[pos + 2]);
        flipped.push(raw[pos + 1]);
        proof {
            assert(pos + 3 <= full);
            assert forall|i: int| 0 <= i < flipped@.len() implies #[trigger] flipped@[i]
                == spec_flip_winding(raw@)[i] by {
                if i < before.len() {
                    assert(flipped@[i] == before[i]);
                }
            }
        }
        pos += 3;
    }
    assert(pos == full);
    assert(flipped@ =~= spec_flip_winding(raw@));
    flipped
}

/// Reversing the winding twice gives back the complete triangles.
pub proof fn lemma_flip_winding_twice(raw: Seq<u32>)
    ensures
        spec_flip_winding(spec_flip_winding(raw)) == raw.subrange(0, (raw.len() / 3 * 3) as int),
{
    let once = spec_flip_winding(raw);
    assert(once.len() / 3 * 3 == once.len());
    assert(spec_flip_winding(once) =~= raw.subrange(0, (raw.len() / 3 * 3) as int));
}

/// Reversing the winding keeps every index referring to the same vertices.
pub proof fn lemma_flip_winding_in_range(raw: Seq<u32>, vertex_count: int)
    requires
        indices_in_range(raw, vertex_count),
    ensures
        indices_in_range(spec_flip_winding(raw), vertex_count),
{
    let f = spec_flip_winding(raw);
    assert forall|i: int| 0 <= i < f.len() implies (#[trigger] f[i]) < vertex_count by {
        if i % 3 == 1 {
            assert(raw[i + 1] < vertex_count);
        } else if i % 3 == 2 {
            assert(raw[i - 1] < vertex_count);
        } else {
            assert(raw[i] < vertex_count);
        }
    }
}

/// `0, 1, ..., vertex_count - 1`: the indices of a primitive that has none.
pub fn sequential_indices(vertex_count: usize) -> (r: Vec<u32>)
    requires
        vertex_count <= u32::MAX,
    ensures
        r@.len() == vertex_count,
        forall|i: int| 0 <= i < vertex_count ==> #[trigger] r@[i] == i,
{
    let mut r: Vec<u32> = Vec::new();
    let mut i: u32 = 0;
    while (i as usize) < vertex_count
        invariant
            vertex_count <= u32::MAX,
            i <= vertex_count,
            r@.len() == i,
            forall|k: int| 0 <= k < i ==> #[trigger] r@[k] == k,
        decreases vertex_count - i,
    {
        r.push(i);
        i += 1;
    }
    r
}

/// The indices a glTF primitive is drawn with: its own indices with the
/// winding reversed, or `0..vertex_count` when it has none.
pub fn gltf_primitive_indices(raw: Option<Vec<u32>>, vertex_count: usize) -> (r: Vec<u32>)
    requires
        raw is None ==> vertex_count <= u32::MAX,
    ensures
        match raw {
            Some(v) => r@ == spec_flip_winding(v@),
            None => r@.len() == vertex_count && forall|i: int|
                0 <= i < vertex_count ==> #[trigger] r@[i] == i,
        },
{
    match raw {
        Some(v) => flip_winding(v.as_slice()),
        None => sequential_indices(vertex_count),
    }
}

/// The vertex layout of the standard 3D mesh vertex: position, normal,
/// texture coordinates, vertex color.
pub fn mesh_vertex_layout() -> (r: BufferLayout)
    ensures
        r.spec_stride() == 48,
        r.spec_elements().len() == 4,
        r.spec_elements()[0].data_type == ShaderDataType::Float3,
        r.spec_elements()[1].data_type == ShaderDataType::Float3,
        r.spec_elements()[2].data_type == ShaderDataType::Float2,
        r.spec_elements()[3].data_type == ShaderDataType::Float4,
        r.spec_elements()[0].offset == 0,
        r.spec_elements()[1].offset == 12,
        r.spec_elements()[2].offset == 24,
        r.spec_elements()[3].offset == 32,
{
    let elems = [
        BufferElement::new(ShaderDataType::Float3, "a_position"),
        BufferElement::new(ShaderDataType::Float3, "a_normal"),
        BufferElement::new(ShaderDataType::Float2, "a_uv"),
        BufferElement::new(ShaderDataType::Float4, "a_color"),
    ];
    let e = elems.as_slice();
    assert(size_prefix(e@, 4) == 48) by {
        reveal_with_fuel(size_prefix, 5);
    }
    let r = BufferLayout::new(e);
    proof {
        reveal_with_fuel(size_prefix, 5);
        assert(laid_out_from(r.spec_elements(), e@));
        assert(crate::buffer::placed_copy(r.spec_elements()[0], e@[0], size_prefix(e@, 0)));
        assert(crate::buffer::placed_copy(r.spec_elements()[1], e@[1], size_prefix(e@, 1)));
        assert(crate::buffer::placed_copy(r.spec_elements()[2], e@[2], size_prefix(e@, 2)));
        assert(crate::buffer::placed_copy(r.spec_elements()[3], e@[3], size_prefix(e@, 3)));
    }
    r
}

} // verus!
