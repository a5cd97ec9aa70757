//! Vertex attribute types and interleaved vertex buffer layouts.
use vstd::prelude::*;
use crate::vk_codes::{
    vk_format_component_bits, vk_format_component_count, vk_format_is_sfloat, vk_format_is_sint,
    FORMAT_R32G32B32A32_SFLOAT, FORMAT_R32G32B32A32_SINT, FORMAT_R32G32B32_SFLOAT,
    FORMAT_R32G32B32_SINT, FORMAT_R32G32_SFLOAT, FORMAT_R32G32_SINT, FORMAT_R32_SFLOAT,
    FORMAT_R32_SINT,
};

verus! {

/// Cross-API shader data type descriptor.
///
/// Used by [`BufferElement`] to describe the type of each vertex attribute.
/// Naming follows HLSL convention (Float3 rather than Vec3).
#[derive(Debug, Clone, Copy, PartialEq, Eq, Structural)]
pub enum ShaderDataType {
    Float,
    Float2,
    Float3,
    Float4,
    Int,
    Int2,
    Int3,
    Int4,
    Mat3,
    Mat4,
    Bool,
}

/// Number of scalar components of a shader data type.
pub open spec fn spec_component_count(t: ShaderDataType) -> u32 {
    match t {
        ShaderDataType::Float | ShaderDataType::Int | ShaderDataType::Bool => 1,
        ShaderDataType::Float2 | ShaderDataType::Int2 => 2,
        ShaderDataType::Float3 | ShaderDataType::Int3 => 3,
        ShaderDataType::Float4 | ShaderDataType::Int4 => 4,
        ShaderDataType::Mat3 => 9,
        ShaderDataType::Mat4 => 16,
    }
}

/// Size in bytes of a shader data type: every scalar component is 4 bytes.
pub open spec fn spec_type_size(t: ShaderDataType) -> u32 {
    (4 * spec_component_count(t)) as u32
}

/// Whether the type is a matrix, which needs one vertex attribute per column.
pub open spec fn is_matrix(t: ShaderDataType) -> bool {
    t is Mat3 || t is Mat4
}

/// The `VkFormat` value that a single-attribute type is uploaded as.
pub open spec fn spec_vk_format(t: ShaderDataType) -> i32 {
    match t {
        ShaderDataType::Float => FORMAT_R32_SFLOAT,
        ShaderDataType::Float2 => FORMAT_R32G32_SFLOAT,
        ShaderDataType::Float3 => FORMAT_R32G32B32_SFLOAT,
        ShaderDataType::Float4 => FORMAT_R32G32B32A32_SFLOAT,
        ShaderDataType::Int => FORMAT_R32_SINT,
        ShaderDataType::Int2 => FORMAT_R32G32_SINT,
        ShaderDataType::Int3 => FORMAT_R32G32B32_SINT,
        ShaderDataType::Int4 => FORMAT_R32G32B32A32_SINT,
        ShaderDataType::Bool => FORMAT_R32_SINT,
        ShaderDataType::Mat3 | ShaderDataType::Mat4 => 0,
    }
}

impl ShaderDataType {
    /// Size in bytes of this type.
    pub fn size(self) -> (r: u32)
        ensures
            r == spec_type_size(self),
    {
        match self {
            ShaderDataType::Float => 4,
            ShaderDataType::Float2 => 4 * 2,
            ShaderDataType::Float3 => 4 * 3,
            ShaderDataType::Float4 => 4 * 4,
            ShaderDataType::Int => 4,
            ShaderDataType::Int2 => 4 * 2,
            ShaderDataType::Int3 => 4 * 3,
            ShaderDataType::Int4 => 4 * 4,
            ShaderDataType::Mat3 => 4 * 3 * 3,
            ShaderDataType::Mat4 => 4 * 4 * 4,
            ShaderDataType::Bool => 4,
        }
    }

    /// Number of scalar components (e.g. Float3 → 3).
    pub fn component_count(self) -> (r: u32)
        ensures
            r == spec_component_count(self),
    {
        match self {
            ShaderDataType::Float | ShaderDataType::Int | ShaderDataType::Bool => 1,
            ShaderDataType::Float2 | ShaderDataType::Int2 => 2,
            ShaderDataType::Float3 | ShaderDataType::Int3 => 3,
            ShaderDataType::Float4 | ShaderDataType::Int4 => 4,
            ShaderDataType::Mat3 => 3 * 3,
            ShaderDataType::Mat4 => 4 * 4,
        }
    }

    /// The raw `VkFormat` value of the vertex attribute format for this type.
    ///
    /// Matrix types cannot be represented as a single vertex attribute (they
    /// need one attribute per column), so they are not accepted.
    pub fn to_vk_format(self) -> (r: i32)
        requires
            !is_matrix(self),
        ensures
            r == spec_vk_format(self),
    {
        match self {
            ShaderDataType::Float => FORMAT_R32_SFLOAT,
            ShaderDataType::Float2 => FORMAT_R32G32_SFLOAT,
            ShaderDataType::Float3 => FORMAT_R32G32B32_SFLOAT,
            ShaderDataType::Float4 => FORMAT_R32G32B32A32_SFLOAT,
            ShaderDataType::Int => FORMAT_R32_SINT,
            ShaderDataType::Int2 => FORMAT_R32G32_SINT,
            ShaderDataType::Int3 => FORMAT_R32G32B32_SINT,
            ShaderDataType::Int4 => FORMAT_R32G32B32A32_SINT,
            ShaderDataType::Bool => FORMAT_R32_SINT,
            ShaderDataType::Mat3 | ShaderDataType::Mat4 => 0,
        }
    }
}

/// Whether a type holds integers (booleans travel as 32-bit integers).
pub open spec fn is_integer_type(t: ShaderDataType) -> bool {
    t is Int || t is Int2 || t is Int3 || t is Int4 || t is Bool
}

/// The vertex format of a single-attribute type matches the type: one
/// 32-bit component per scalar component, signed integer exactly for the
/// integer and boolean types, and signed float exactly for the float types.
pub proof fn lemma_vk_format_matches_type(t: ShaderDataType)
    requires
        !is_matrix(t),
    ensures
        vk_format_component_count(spec_vk_format(t)) == spec_component_count(t),
        vk_format_component_bits(spec_vk_format(t)) == 32,
        vk_format_is_sint(spec_vk_format(t)) <==> is_integer_type(t),
        vk_format_is_sfloat(spec_vk_format(t)) <==> !is_integer_type(t),
{
}

/// A single element (attribute) inside a [`BufferLayout`].
#[derive(Debug, Clone)]
pub struct BufferElement {
    pub name: String,
    pub data_type: ShaderDataType,
    pub size: u32,
    pub offset: u32,
    pub normalized: bool,
}

impl BufferElement {
    /// A fresh element of the given type: its size is the type's size, its
    /// offset zero until a layout places it, and it is not normalized.
    pub fn new(data_type: ShaderDataType, name: &str) -> (r: Self)
        ensures
            r.name@ == name@,
            r.data_type == data_type,
            r.size == spec_type_size(data_type),
            r.offset == 0,
            !r.normalized,
    {
        BufferElement {
            name: name.to_owned(),
            data_type,
            size: data_type.size(),
            offset: 0,
            normalized: false,
        }
    }

    /// The same element with its `normalized` flag set to the given value.
    pub fn normalized(self, normalized: bool) -> (r: Self)
        ensures
            r.name == self.name,
            r.data_type == self.data_type,
            r.size == self.size,
            r.offset == self.offset,
            r.normalized == normalized,
    {
        let mut e = self;
        e.normalized = normalized;
        e
    }

    /// A copy of this element placed at the given byte offset.
    fn placed_at(&self, offset: u32) -> (r: Self)
        ensures
            r.name@ == self.name@,
            r.data_type == self.data_type,
            r.size == self.size,
            r.offset == offset,
            r.normalized == self.normalized,
    {
        BufferElement {
            name: self.name.clone(),
            data_type: self.data_type,
            size: self.size,
            offset,
            normalized: self.normalized,
        }
    }
}

/// `a` is `b` placed at byte offset `offset`.
pub open spec fn placed_copy(a: BufferElement, b: BufferElement, offset: int) -> bool {
    &&& a.name@ == b.name@
    &&& a.data_type == b.data_type
    &&& a.size == b.size
    &&& a.normalized == b.normalized
    &&& a.offset == offset
}

/// Sum of the sizes of the first `n` elements.
pub open spec fn size_prefix(elems: Seq<BufferElement>, n: int) -> int
    decreases n,
{
    if n <= 0 || elems.len() == 0 {
        0
    } else {
        size_prefix(elems, n - 1) + elems[n - 1].size
    }
}

/// The elements of `laid` are those of `input`, in order, each placed right
/// after the one before it.
pub open spec fn laid_out_from(laid: Seq<BufferElement>, input: Seq<BufferElement>) -> bool {
    &&& laid.len() == input.len()
    &&& forall|i: int|
        0 <= i < laid.len() ==> placed_copy(#[trigger] laid[i], input[i], size_prefix(input, i))
}

/// Sizes of `a` and `b` agree element by element.
pub open spec fn same_sizes(a: Seq<BufferElement>, b: Seq<BufferElement>) -> bool {
    a.len() == b.len() && forall|i: int| 0 <= i < a.len() ==> #[trigger] a[i].size == b[i].size
}

/// Prefix sums only depend on the sizes.
pub proof fn lemma_size_prefix_same_sizes(a: Seq<BufferElement>, b: Seq<BufferElement>, n: int)
    requires
        same_sizes(a, b),
        n <= a.len(),
    ensures
        size_prefix(a, n) == size_prefix(b, n),
    decreases n,
{
    if n > 0 && a.len() > 0 {
        lemma_size_prefix_same_sizes(a, b, n - 1);
    }
}

/// Prefix sums grow with `n`.
pub proof fn lemma_size_prefix_monotone(elems: Seq<BufferElement>, m: int, n: int)
    requires
        0 <= m <= n <= elems.len(),
    ensures
        0 <= size_prefix(elems, m) <= size_prefix(elems, n),
    decreases n,
{
    if n > m {
        lemma_size_prefix_monotone(elems, m, n - 1);
    } else if n > 0 {
        lemma_size_prefix_monotone(elems, m - 1, n - 1);
    }
}

/// One vertex input attribute: shader location, buffer binding, `VkFormat`
/// value and byte offset within a vertex.
#[derive(Debug, Clone, Copy, PartialEq, Eq, Structural)]
pub struct VertexAttribute {
    pub location: u32,
    pub binding: u32,
    pub format: i32,
    pub offset: u32,
}

/// Describes the layout of interleaved vertex data inside a vertex buffer.
///
/// Offsets and stride are computed automatically: each element starts where
/// the previous one ends, and the stride is the total size.
#[derive(Debug, Clone)]
pub struct BufferLayout {
    elements: Vec<BufferElement>,
    stride: u32,
}

impl BufferLayout {
    /// The layout's elements, in order.
    pub closed spec fn spec_elements(&self) -> Seq<BufferElement> {
        self.elements@
    }

    /// The layout's stride in bytes.
    pub closed spec fn spec_stride(&self) -> u32 {
        self.stride
    }

    /// Lay out the given elements one after another.
    ///
    /// The total size must fit in a `u32` (the offsets are `u32`).
    pub fn new(elements: &[BufferElement]) -> (r: Self)
        requires
            size_prefix(elements@, elements@.len() as int) <= u32::MAX,
        ensures
            laid_out_from(r.spec_elements(), elements@),
            r.spec_stride() == size_prefix(elements@, elements@.len() as int),
    {
        let mut copies: Vec<BufferElement> = Vec::new();
        let mut i: usize = 0;
        while i < elements.len()
            invariant
                i <= elements@.len(),
                copies@.len() == i,
                forall|k: int| 0 <= k < i ==> placed_copy(#[trigger] copies@[k], elements@[k], 0),
            decreases elements@.len() - i,
        {
            let e = elements[i].placed_at(0);
            let ghost before = copies@;
            copies.push(e);
            proof {
                assert forall|k: int| 0 <= k < i + 1 implies placed_copy(
                    #[trigger] copies@[k],
                    elements@[k],
                    0,
                ) by {
                    if k < i {
                        assert(copies@[k] == before[k]);
                    }
                }
            }
            i += 1;
        }
        let ghost copied = copies@;
        assert(same_sizes(copied, elements@)) by {
            assert forall|k: int| 0 <= k < copied.len() implies #[trigger] copied[k].size
                == elements@[k].size by {
                assert(placed_copy(copied[k], elements@[k], 0));
            }
        }
        let mut layout = BufferLayout { elements: copies, stride: 0 };
        proof {
            lemma_size_prefix_same_sizes(copied, elements@, elements@.len() as int);
        }
        layout.calculate_offsets_and_stride();
        proof {
            assert forall|k: int| 0 <= k < elements@.len() implies size_prefix(copied, k)
                == size_prefix(elements@, k) by {
                lemma_size_prefix_same_sizes(copied, elements@, k);
            }
            assert forall|k: int| 0 <= k < elements@.len() implies placed_copy(
                #[trigger] layout.elements@[k],
                elements@[k],
                size_prefix(elements@, k),
            ) by {
                assert(placed_copy(copied[k], elements@[k], 0));
                assert(placed_copy(layout.elements@[k], copied[k], size_prefix(copied, k)));
                lemma_size_prefix_same_sizes(copied, elements@, k);
            }
        }
        layout
    }

    /// The layout's stride (bytes from one vertex to the next).
    pub fn stride(&self) -> (r: u32)
        ensures
            r == self.spec_stride(),
    {
        self.stride
    }

    /// The layout's elements, in order.
    pub fn elements(&self) -> (r: &[BufferElement])
        ensures
            r@ == self.spec_elements(),
    {
        self.elements.as_slice()
    }

    /// The vertex input attributes of the layout for a vertex buffer bound at
    /// `binding`: element `i` is read at location `i` from its offset, in the
    /// format of its type. Matrix elements have no single-attribute format.
    pub fn vertex_attributes(&self, binding: u32) -> (r: Vec<VertexAttribute>)
        requires
            self.spec_elements().len() <= u32::MAX,
            forall|i: int| 0 <= i < self.spec_elements().len() ==> !is_matrix(#[trigger] self.spec_elements()[i].data_type),
        ensures
            r@.len() == self.spec_elements().len(),
            forall|i: int|
                0 <= i < r@.len() ==> #[trigger] r@[i] == (VertexAttribute {
                    location: i as u32,
                    binding,
                    format: spec_vk_format(self.spec_elements()[i].data_type),
                    offset: self.spec_elements()[i].offset,
                }),
    {
        let mut r: Vec<VertexAttribute> = Vec::new();
        let mut i: usize = 0;
        while i < self.elements.len()
            invariant
                i <= self.elements@.len(),
                self.elements@.len() <= u32::MAX,
                forall|k: int| 0 <= k < self.elements@.len() ==> !is_matrix(#[trigger] self.elements@[k].data_type),
                r@.len() == i,
                forall|k: int|
                    0 <= k < i ==> #[trigger] r@[k] == (VertexAttribute {
                        location: k as u32,
                        binding,
                        format: spec_vk_format(self.elements@[k].data_type),
                        offset: self.elements@[k].offset,
                    }),
            decreases self.elements@.len() - i,
        {
            let e = &self.elements[i];
            r.push(VertexAttribute { location: i as u32, binding, format: e.data_type.to_vk_format(), offset: e.offset });
            i += 1;
        }
        r
    }

    /// The binding description: per-vertex input `stride` bytes apart.
    pub fn binding_stride(&self, binding: u32) -> (r: (u32, u32))
        ensures
            r == (binding, self.spec_stride()),
    {
        (binding, self.stride)
    }

    /// Place every element right after the previous one and set the stride
    /// to the total size.
    pub fn calculate_offsets_and_stride(&mut self)
        requires
            size_prefix(old(self).spec_elements(), old(self).spec_elements().len() as int) <= u32::MAX,
        ensures
            laid_out_from(final(self).spec_elements(), old(self).spec_elements()),
            final(self).spec_stride() == size_prefix(
                old(self).spec_elements(),
                old(self).spec_elements().len() as int,
            ),
    {
        let ghost input = self.elements@;
        let n = self.elements.len();
        let mut placed: Vec<BufferElement> = Vec::new();
        let mut offset: u32 = 0;
        let mut i: usize = 0;
        while i < n
            invariant
                n == input.len(),
                self.elements@ == input,
                size_prefix(input, n as int) <= u32::MAX,
                i <= n,
                offset == size_prefix(input, i as int),
                placed@.len() == i,
                forall|k: int|
                    0 <= k < i ==> placed_copy(#[trigger] placed@[k], input[k], size_prefix(input, k)),
            decreases n - i,
        {
            let e = self.elements[i].placed_at(offset);
            proof {
                lemma_size_prefix_monotone(input, i as int + 1, n as int);
            }
            let ghost before = placed@;
            offset = offset + self.elements[i].size;
            placed.push(e);
            proof {
                assert forall|k: int| 0 <= k < i + 1 implies placed_copy(
                    #[trigger] placed@[k],
                    input[k],
                    size_prefix(input, k),
                ) by {
                    if k < i {
                        assert(placed@[k] == before[k]);
                    } else {
                        assert(placed@[k] == e);
                    }
                }
            }
            i += 1;
        }
        self.elements = placed;
        self.stride = offset;
    }
}

/// A laid-out buffer is packed: the first element starts at zero, each
/// element starts where the previous one ends, and every element lies
/// within the stride, the last one ending exactly at it.
pub proof fn lemma_layout_is_packed(laid: Seq<BufferElement>, input: Seq<BufferElement>, stride: int)
    requires
        laid_out_from(laid, input),
        stride == size_prefix(input, input.len() as int),
    ensures
        laid.len() > 0 ==> laid[0].offset == 0,
        forall|i: int|
            0 <= i < laid.len() - 1 ==> #[trigger] laid[i].offset + laid[i].size == laid[i
                + 1].offset,
        forall|i: int| 0 <= i < laid.len() ==> #[trigger] laid[i].offset + laid[i].size <= stride,
        laid.len() > 0 ==> laid[laid.len() - 1].offset + laid[laid.len() - 1].size == stride,
{
    assert forall|i: int| 0 <= i < laid.len() implies #[trigger] laid[i].offset + laid[i].size
        <= stride by {
        assert(placed_copy(laid[i], input[i], size_prefix(input, i)));
        lemma_size_prefix_monotone(input, i + 1, input.len() as int);
    }
    assert forall|i: int| 0 <= i < laid.len() - 1 implies #[trigger] laid[i].offset
        + laid[i].size == laid[i + 1].offset by {
        assert(placed_copy(laid[i], input[i], size_prefix(input, i)));
        assert(placed_copy(laid[i + 1], input[i + 1], size_prefix(input, i + 1)));
    }
    if laid.len() > 0 {
        assert(placed_copy(laid[0], input[0], size_prefix(input, 0)));
        let last = laid.len() - 1;
        assert(placed_copy(laid[last], input[last], size_prefix(input, last)));
    }
}

/// Every data type's size is the number of its components times four bytes.
pub proof fn lemma_size_is_four_per_component(t: ShaderDataType)
    ensures
        spec_type_size(t) == 4 * spec_component_count(t),
        spec_type_size(t) > 0,
{
}

} // verus!
