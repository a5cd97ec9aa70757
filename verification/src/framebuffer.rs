//! Offscreen framebuffer configuration: MSAA sample counts, attachment
//! formats, the order of attachments in the render pass and of their clear
//! values, resizing and pixel readback requests.
use vstd::prelude::*;
use crate::vk_codes::{
    vk_format_component_bits, vk_format_component_count, vk_format_is_sfloat, vk_format_is_sint,
    FORMAT_R16G16B16A16_SFLOAT, FORMAT_R32_SINT, SAMPLE_COUNT_1, SAMPLE_COUNT_2, SAMPLE_COUNT_4,
    SAMPLE_COUNT_8,
};

verus! {

// ---------------------------------------------------------------------------
// MsaaSamples
// ---------------------------------------------------------------------------

/// MSAA sample count for offscreen framebuffers.
#[derive(Debug, Clone, Copy, PartialEq, Eq, Structural)]
pub enum MsaaSamples {
    /// No multisampling (default).
    S1,
    /// 2x MSAA.
    S2,
    /// 4x MSAA.
    S4,
    /// 8x MSAA.
    S8,
}

/// The `VkSampleCountFlagBits` value of a sample count.
pub open spec fn spec_msaa_flag(m: MsaaSamples) -> u32 {
    match m {
        MsaaSamples::S1 => SAMPLE_COUNT_1,
        MsaaSamples::S2 => SAMPLE_COUNT_2,
        MsaaSamples::S4 => SAMPLE_COUNT_4,
        MsaaSamples::S8 => SAMPLE_COUNT_8,
    }
}

/// The highest sample count whose bit is set in `flags` (1x when none is).
pub open spec fn spec_msaa_from_flags(flags: u32) -> MsaaSamples {
    if flags & 8u32 != 0 {
        MsaaSamples::S8
    } else if flags & 4u32 != 0 {
        MsaaSamples::S4
    } else if flags & 2u32 != 0 {
        MsaaSamples::S2
    } else {
        MsaaSamples::S1
    }
}

/// The sample counts available up to a device maximum: 1x always, and each
/// higher count whose flag value is at most `max`.
pub open spec fn spec_available_up_to(max: u32) -> Seq<MsaaSamples> {
    seq![MsaaSamples::S1] + (if max >= 2 {
        seq![MsaaSamples::S2]
    } else {
        Seq::empty()
    }) + (if max >= 4 {
        seq![MsaaSamples::S4]
    } else {
        Seq::empty()
    }) + (if max >= 8 {
        seq![MsaaSamples::S8]
    } else {
        Seq::empty()
    })
}

/// Whether the flag set `max` holds the flag of `m`.
pub open spec fn msaa_supported(m: MsaaSamples, max: u32) -> bool {
    max & spec_msaa_flag(m) == spec_msaa_flag(m)
}

/// Whether a request for `m` stands on a device whose maximum is `max` (a
/// single flag or a mask): the device supports it, or it is at or below the
/// maximum.
pub open spec fn msaa_within_device(m: MsaaSamples, max: u32) -> bool {
    msaa_supported(m, max) || spec_msaa_flag(m) <= max
}

/// `m` clamped to the device: unchanged when it stands, else the highest
/// count available up to the device maximum.
pub open spec fn spec_clamp_to_device(m: MsaaSamples, max: u32) -> MsaaSamples {
    if msaa_within_device(m, max) {
        m
    } else {
        spec_available_up_to(max).last()
    }
}

/// The display name of a sample count.
pub open spec fn spec_msaa_name(m: MsaaSamples) -> Seq<char> {
    match m {
        MsaaSamples::S1 => "Off"@,
        MsaaSamples::S2 => "2x"@,
        MsaaSamples::S4 => "4x"@,
        MsaaSamples::S8 => "8x"@,
    }
}

impl Default for MsaaSamples {
    fn default() -> (r: Self)
        ensures
            r == MsaaSamples::S1,
    {
        MsaaSamples::S1
    }
}

impl MsaaSamples {
    /// All sample counts, lowest first.
    pub fn all() -> (r: [MsaaSamples; 4])
        ensures
            r@ == seq![MsaaSamples::S1, MsaaSamples::S2, MsaaSamples::S4, MsaaSamples::S8],
    {
        let r = [MsaaSamples::S1, MsaaSamples::S2, MsaaSamples::S4, MsaaSamples::S8];
        assert(r@ =~= seq![MsaaSamples::S1, MsaaSamples::S2, MsaaSamples::S4, MsaaSamples::S8]);
        r
    }

    /// The `VkSampleCountFlagBits` value of this sample count.
    pub fn to_vk(self) -> (r: u32)
        ensures
            r == spec_msaa_flag(self),
    {
        match self {
            MsaaSamples::S1 => SAMPLE_COUNT_1,
            MsaaSamples::S2 => SAMPLE_COUNT_2,
            MsaaSamples::S4 => SAMPLE_COUNT_4,
            MsaaSamples::S8 => SAMPLE_COUNT_8,
        }
    }

    /// The highest sample count whose flag is set in `flags`.
    pub fn from_vk(flags: u32) -> (r: Self)
        ensures
            r == spec_msaa_from_flags(flags),
    {
        if flags & 8u32 != 0 {
            MsaaSamples::S8
        } else if flags & 4u32 != 0 {
            MsaaSamples::S4
        } else if flags & 2u32 != 0 {
            MsaaSamples::S2
        } else {
            MsaaSamples::S1
        }
    }

    /// All sample counts up to and including the device maximum. `max` can
    /// be a single flag or a full mask.
    pub fn available_up_to(max: u32) -> (r: Vec<MsaaSamples>)
        ensures
            r@ == spec_available_up_to(max),
    {
        let mut result: Vec<MsaaSamples> = Vec::new();
        result.push(MsaaSamples::S1);
        if max >= SAMPLE_COUNT_2 {
            result.push(MsaaSamples::S2);
        }
        if max >= SAMPLE_COUNT_4 {
            result.push(MsaaSamples::S4);
        }
        if max >= SAMPLE_COUNT_8 {
            result.push(MsaaSamples::S8);
        }
        assert(result@ =~= spec_available_up_to(max));
        result
    }

    /// Clamps to what the device supports: a count the device supports, or
    /// one at or below the device maximum, stays; a higher one goes down to
    /// the highest count available up to the maximum.
    pub fn clamp_to_device(self, max: u32) -> (r: Self)
        ensures
            r == spec_clamp_to_device(self, max),
    {
        let flag = self.to_vk();
        if max & flag == flag || flag <= max {
            self
        } else {
            let available = Self::available_up_to(max);
            available[available.len() - 1]
        }
    }

    /// The display name ("Off", "2x", "4x", "8x").
    pub fn to_string(&self) -> (r: String)
        ensures
            r@ == spec_msaa_name(*self),
    {
        match self {
            MsaaSamples::S1 => "Off".to_owned(),
            MsaaSamples::S2 => "2x".to_owned(),
            MsaaSamples::S4 => "4x".to_owned(),
            MsaaSamples::S8 => "8x".to_owned(),
        }
    }
}

/// A sample count's flag reads back as the same sample count.
pub proof fn lemma_msaa_flag_round_trip(m: MsaaSamples)
    ensures
        spec_msaa_from_flags(spec_msaa_flag(m)) == m,
{
    assert(1u32 & 8u32 == 0 && 1u32 & 4u32 == 0 && 1u32 & 2u32 == 0) by (bit_vector);
    assert(2u32 & 8u32 == 0 && 2u32 & 4u32 == 0 && 2u32 & 2u32 != 0) by (bit_vector);
    assert(4u32 & 8u32 == 0 && 4u32 & 4u32 != 0) by (bit_vector);
    assert(8u32 & 8u32 != 0) by (bit_vector);
}

/// Reading a sample-count mask gives its highest set count: the flag of the
/// answer is set in the mask (or the answer is 1x and none of the 2x, 4x and
/// 8x flags is set), and no higher count's flag is set. Setting the 8x flag
/// therefore always reads as 8x, whatever else the mask holds.
pub proof fn lemma_msaa_from_flags_highest(flags: u32)
    ensures
        ({
            let r = spec_msaa_from_flags(flags);
            &&& r == MsaaSamples::S1 ==> flags & 14u32 == 0
            &&& r != MsaaSamples::S1 ==> flags & spec_msaa_flag(r) == spec_msaa_flag(r)
            &&& forall|m: MsaaSamples| #[trigger] spec_msaa_flag(m) > spec_msaa_flag(r) ==> flags
                & spec_msaa_flag(m) == 0
        }),
        spec_msaa_from_flags(flags | 8u32) == MsaaSamples::S8,
{
    assert(flags & 8u32 == 0 && flags & 4u32 == 0 && flags & 2u32 == 0 ==> flags & 14u32 == 0) by (bit_vector);
    assert(flags & 8u32 != 0 ==> flags & 8u32 == 8u32) by (bit_vector);
    assert(flags & 4u32 != 0 ==> flags & 4u32 == 4u32) by (bit_vector);
    assert(flags & 2u32 != 0 ==> flags & 2u32 == 2u32) by (bit_vector);
    assert((flags | 8u32) & 8u32 != 0) by (bit_vector);
}

/// Clamping never raises the sample count; it keeps every request at or
/// below the device maximum; and what it gives is 1x or a count at or below
/// the maximum.
pub proof fn lemma_clamp_never_raises(m: MsaaSamples, max: u32)
    ensures
        spec_msaa_flag(spec_clamp_to_device(m, max)) <= spec_msaa_flag(m),
        spec_msaa_flag(m) <= max ==> spec_clamp_to_device(m, max) == m,
        spec_clamp_to_device(m, max) == MsaaSamples::S1 || spec_msaa_flag(spec_clamp_to_device(m, max))
            <= max,
{
    assert(forall|f: u32| #![trigger (max & f)] max & f == f ==> f <= max) by (bit_vector);
    let avail = spec_available_up_to(max);
    if max >= 8 {
        assert(avail.last() == MsaaSamples::S8);
    } else if max >= 4 {
        assert(avail.last() == MsaaSamples::S4);
    } else if max >= 2 {
        assert(avail.last() == MsaaSamples::S2);
    } else {
        assert(avail.last() == MsaaSamples::S1);
    }
}

// ---------------------------------------------------------------------------
// Attachment formats
// ---------------------------------------------------------------------------

/// Logical attachment format for framebuffer specification.
#[derive(Debug, Clone, Copy, PartialEq, Eq, Structural)]
pub enum FramebufferTextureFormat {
    /// Standard RGBA color — maps to the swapchain color format.
    RGBA8,
    /// 16-bit float RGBA — for HDR scene rendering.
    RGBA16F,
    /// Signed 32-bit integer — for entity ID / picking buffer.
    RedInteger,
    /// 16-bit float RGBA for world-space normals.
    NormalMap,
    /// Depth-only — maps to the engine depth format.
    Depth,
}

/// Per-attachment specification.
#[derive(Debug, Clone, Copy, PartialEq, Eq, Structural)]
pub struct FramebufferTextureSpec {
    pub format: FramebufferTextureFormat,
}

impl From<FramebufferTextureFormat> for FramebufferTextureSpec {
    fn from(format: FramebufferTextureFormat) -> (r: Self) {
        FramebufferTextureSpec { format }
    }
}

impl vstd::std_specs::convert::FromSpecImpl<FramebufferTextureFormat> for FramebufferTextureSpec {
    open spec fn obeys_from_spec() -> bool {
        true
    }

    open spec fn from_spec(format: FramebufferTextureFormat) -> Self {
        FramebufferTextureSpec { format }
    }
}

/// Whether a format is the depth format.
pub fn is_depth_format(format: FramebufferTextureFormat) -> (r: bool)
    ensures
        r == (format is Depth),
{
    match format {
        FramebufferTextureFormat::Depth => true,
        _ => false,
    }
}

/// The `VkFormat` value that a logical format maps to, given the
/// swapchain's color format and the engine's depth format.
pub open spec fn spec_resolve_vk_format(
    format: FramebufferTextureFormat,
    color_format: i32,
    depth_format: i32,
) -> i32 {
    match format {
        FramebufferTextureFormat::RGBA8 => color_format,
        FramebufferTextureFormat::RGBA16F => FORMAT_R16G16B16A16_SFLOAT,
        FramebufferTextureFormat::RedInteger => FORMAT_R32_SINT,
        FramebufferTextureFormat::NormalMap => FORMAT_R16G16B16A16_SFLOAT,
        FramebufferTextureFormat::Depth => depth_format,
    }
}

/// Map a logical format to a `VkFormat` value.
pub fn resolve_vk_format(format: FramebufferTextureFormat, color_format: i32, depth_format: i32) -> (r: i32)
    ensures
        r == spec_resolve_vk_format(format, color_format, depth_format),
{
    match format {
        FramebufferTextureFormat::RGBA8 => color_format,
        FramebufferTextureFormat::RGBA16F => FORMAT_R16G16B16A16_SFLOAT,
        FramebufferTextureFormat::RedInteger => FORMAT_R32_SINT,
        FramebufferTextureFormat::NormalMap => FORMAT_R16G16B16A16_SFLOAT,
        FramebufferTextureFormat::Depth => depth_format,
    }
}


/// Where a resolved attachment format comes from: only RGBA8 follows the
/// swapchain color format and only Depth follows the depth format; every
/// other format is fixed whatever those two are. RGBA16F and the normal map
/// are 16-bit float RGBA, and the entity ID attachment is a single signed
/// 32-bit integer.
pub proof fn lemma_resolved_format_sources(
    format: FramebufferTextureFormat,
    color_a: i32,
    color_b: i32,
    depth_a: i32,
    depth_b: i32,
)
    ensures
        !(format is RGBA8) ==> spec_resolve_vk_format(format, color_a, depth_a) == spec_resolve_vk_format(
            format,
            color_b,
            depth_a,
        ),
        !(format is Depth) ==> spec_resolve_vk_format(format, color_a, depth_a) == spec_resolve_vk_format(
            format,
            color_a,
            depth_b,
        ),
        format is RGBA8 ==> spec_resolve_vk_format(format, color_a, depth_a) == color_a,
        format is Depth ==> spec_resolve_vk_format(format, color_a, depth_a) == depth_a,
        (format is RGBA16F || format is NormalMap) ==> {
            let f = spec_resolve_vk_format(format, color_a, depth_a);
            &&& f == FORMAT_R16G16B16A16_SFLOAT
            &&& vk_format_is_sfloat(f)
            &&& vk_format_component_count(f) == 4
            &&& vk_format_component_bits(f) == 16
        },
        format is RedInteger ==> {
            let f = spec_resolve_vk_format(format, color_a, depth_a);
            &&& vk_format_is_sint(f)
            &&& vk_format_component_count(f) == 1
            &&& vk_format_component_bits(f) == 32
        },
{
}


// ---------------------------------------------------------------------------
// Framebuffer configuration
// ---------------------------------------------------------------------------

/// Maximum allowed framebuffer dimension (~8K).
pub const MAX_FRAMEBUFFER_SIZE: u32 = 8192;

/// Maximum number of clear values (color attachments + depth).
pub const MAX_CLEAR_VALUES: usize = 8;

/// Configuration for creating an offscreen framebuffer.
pub struct FramebufferSpec {
    pub width: u32,
    pub height: u32,
    pub attachments: Vec<FramebufferTextureSpec>,
    /// MSAA sample count flag (`VK_SAMPLE_COUNT_1_BIT` = no MSAA).
    pub samples: u32,
}

/// The non-depth attachments of `specs`, in order.
pub open spec fn color_specs_of(specs: Seq<FramebufferTextureSpec>) -> Seq<FramebufferTextureSpec>
    decreases specs.len(),
{
    if specs.len() == 0 {
        Seq::empty()
    } else if specs.last().format is Depth {
        color_specs_of(specs.drop_last())
    } else {
        color_specs_of(specs.drop_last()).push(specs.last())
    }
}

/// Number of depth attachments in `specs`.
pub open spec fn depth_count(specs: Seq<FramebufferTextureSpec>) -> nat
    decreases specs.len(),
{
    if specs.len() == 0 {
        0
    } else {
        depth_count(specs.drop_last()) + (if specs.last().format is Depth {
            1nat
        } else {
            0nat
        })
    }
}

/// Whether a framebuffer dimension pair is accepted.
pub open spec fn valid_framebuffer_size(width: u32, height: u32) -> bool {
    0 < width <= MAX_FRAMEBUFFER_SIZE && 0 < height <= MAX_FRAMEBUFFER_SIZE
}

/// What clearing an attachment writes.
#[derive(Debug, Clone, Copy, PartialEq, Eq, Structural)]
pub enum ClearValueKind {
    /// The clear color supplied for the frame.
    ClearColor,
    /// Integer -1 in the red channel ("no entity" for picking).
    IntegerMinusOne,
    /// Depth 1.0, stencil 0.
    DepthOne,
}

/// An attachment's place in the render pass.
#[derive(Debug, Clone, Copy, PartialEq, Eq, Structural)]
pub enum AttachmentRole {
    /// The multisampled image of color attachment `i`.
    MsaaColor(usize),
    /// The multisampled depth image.
    MsaaDepth,
    /// The single-sampled resolve target of color attachment `i`.
    Resolve(usize),
    /// Color attachment `i` (no MSAA).
    Color(usize),
    /// The depth image (no MSAA).
    Depth,
}

/// The clear value of a color attachment of the given format.
pub open spec fn color_clear(format: FramebufferTextureFormat) -> ClearValueKind {
    match format {
        FramebufferTextureFormat::RedInteger => ClearValueKind::IntegerMinusOne,
        _ => ClearValueKind::ClearColor,
    }
}

/// The clear value that belongs to an attachment role.
pub open spec fn role_clear(role: AttachmentRole, colors: Seq<FramebufferTextureSpec>) -> ClearValueKind {
    match role {
        AttachmentRole::MsaaColor(i) => color_clear(colors[i as int].format),
        AttachmentRole::Resolve(i) => color_clear(colors[i as int].format),
        AttachmentRole::Color(i) => color_clear(colors[i as int].format),
        AttachmentRole::MsaaDepth => ClearValueKind::DepthOne,
        AttachmentRole::Depth => ClearValueKind::DepthOne,
    }
}

/// The render pass attachment order: with MSAA, the multisampled colors,
/// then the multisampled depth (if any), then the resolve colors; without
/// MSAA, the colors then the depth (if any).
pub open spec fn spec_attachment_order(n: nat, has_depth: bool, msaa: bool) -> Seq<AttachmentRole> {
    if msaa {
        Seq::new(n, |i: int| AttachmentRole::MsaaColor(i as usize)) + (if has_depth {
            seq![AttachmentRole::MsaaDepth]
        } else {
            Seq::empty()
        }) + Seq::new(n, |i: int| AttachmentRole::Resolve(i as usize))
    } else {
        Seq::new(n, |i: int| AttachmentRole::Color(i as usize)) + (if has_depth {
            seq![AttachmentRole::Depth]
        } else {
            Seq::empty()
        })
    }
}

/// The clear values of a framebuffer, in render pass attachment order.
pub open spec fn spec_clear_values(colors: Seq<FramebufferTextureSpec>, has_depth: bool, msaa: bool) -> Seq<ClearValueKind> {
    let c = colors.map_values(|s: FramebufferTextureSpec| color_clear(s.format));
    let d = if has_depth {
        seq![ClearValueKind::DepthOne]
    } else {
        Seq::empty()
    };
    if msaa {
        c + d + c
    } else {
        c + d
    }
}

/// What a resize request does.
#[derive(Debug, Clone, Copy, PartialEq, Eq, Structural)]
pub enum ResizeOutcome {
    /// Same size as now: nothing to do.
    Unchanged,
    /// Zero or above [`MAX_FRAMEBUFFER_SIZE`]: ignored.
    Rejected,
    /// The attachments must be recreated at the new size.
    Resized,
}

/// The attachment configuration and readback state of an offscreen
/// framebuffer (the GPU objects live beside it).
pub struct FramebufferState {
    width: u32,
    height: u32,
    sample_count: u32,
    color_specs: Vec<FramebufferTextureSpec>,
    depth_spec: Option<FramebufferTextureSpec>,
    pending_readback: Option<(usize, i32, i32)>,
    last_readback: i32,
}

/// Copy the non-depth attachments and the depth attachment of `specs`.
pub fn split_attachments(specs: &[FramebufferTextureSpec]) -> (r: (Vec<FramebufferTextureSpec>, Option<FramebufferTextureSpec>))
    requires
        depth_count(specs@) <= 1,
    ensures
        r.0@ == color_specs_of(specs@),
        r.1 is Some <==> depth_count(specs@) == 1,
        r.1 matches Some(d) ==> d.format is Depth,
{
    let mut colors: Vec<FramebufferTextureSpec> = Vec::new();
    let mut depth: Option<FramebufferTextureSpec> = None;
    let mut i: usize = 0;
    while i < specs.len()
        invariant
            i <= specs@.len(),
            depth_count(specs@) <= 1,
            colors@ == color_specs_of(specs@.subrange(0, i as int)),
            depth is Some <==> depth_count(specs@.subrange(0, i as int)) == 1,
            depth matches Some(d) ==> d.format is Depth,
            depth_count(specs@.subrange(0, i as int)) <= depth_count(specs@),
        decreases specs@.len() - i,
    {
        let s = specs[i];
        proof {
            let next = specs@.subrange(0, i + 1);
            assert(next.drop_last() =~= specs@.subrange(0, i as int));
            assert(next.last() == s);
            lemma_depth_count_prefix(specs@, i + 1);
        }
        if is_depth_format(s.format) {
            depth = Some(s);
        } else {
            colors.push(s);
        }
        i += 1;
    }
    assert(specs@.subrange(0, i as int) =~= specs@);
    (colors, depth)
}

proof fn lemma_depth_count_prefix(s: Seq<FramebufferTextureSpec>, n: int)
    requires
        0 <= n <= s.len(),
    ensures
        depth_count(s.subrange(0, n)) <= depth_count(s),
    decreases s.len() - n,
{
    if n < s.len() {
        lemma_depth_count_prefix(s, n + 1);
        let next = s.subrange(0, n + 1);
        assert(next.drop_last() =~= s.subrange(0, n));
    } else {
        assert(s.subrange(0, n) =~= s);
    }
}

impl FramebufferState {
    /// Current width in pixels.
    pub closed spec fn spec_width(&self) -> u32 {
        self.width
    }

    /// Current height in pixels.
    pub closed spec fn spec_height(&self) -> u32 {
        self.height
    }

    /// MSAA sample count flag.
    pub closed spec fn spec_sample_count(&self) -> u32 {
        self.sample_count
    }

    /// The color attachments, in order.
    pub closed spec fn spec_color_specs(&self) -> Seq<FramebufferTextureSpec> {
        self.color_specs@
    }

    /// Whether the framebuffer has a depth attachment (single-sampled or
    /// multisampled).
    pub closed spec fn spec_has_depth(&self) -> bool {
        self.depth_spec is Some
    }

    /// The readback request waiting for the next frame.
    pub closed spec fn spec_pending_readback(&self) -> Option<(usize, i32, i32)> {
        self.pending_readback
    }

    /// The last pixel value read back.
    pub closed spec fn spec_last_readback(&self) -> i32 {
        self.last_readback
    }

    /// Whether multisampling is on.
    pub open spec fn spec_msaa(&self) -> bool {
        self.spec_sample_count() != SAMPLE_COUNT_1
    }

    /// The configuration of a framebuffer created from `spec`: color
    /// attachments in order, the depth attachment apart, no readback yet
    /// (the hovered entity reads -1, "none").
    pub fn new(spec: &FramebufferSpec) -> (r: Self)
        requires
            valid_framebuffer_size(spec.width, spec.height),
            depth_count(spec.attachments@) <= 1,
        ensures
            r.spec_width() == spec.width,
            r.spec_height() == spec.height,
            r.spec_sample_count() == spec.samples,
            r.spec_color_specs() == color_specs_of(spec.attachments@),
            r.spec_has_depth() <==> depth_count(spec.attachments@) == 1,
            r.spec_pending_readback() is None,
            r.spec_last_readback() == -1,
    {
        let (color_specs, depth_spec) = split_attachments(spec.attachments.as_slice());
        FramebufferState {
            width: spec.width,
            height: spec.height,
            sample_count: spec.samples,
            color_specs,
            depth_spec,
            pending_readback: None,
            last_readback: -1,
        }
    }

    pub fn width(&self) -> (r: u32)
        ensures
            r == self.spec_width(),
    {
        self.width
    }

    pub fn height(&self) -> (r: u32)
        ensures
            r == self.spec_height(),
    {
        self.height
    }

    /// MSAA sample count flag (`VK_SAMPLE_COUNT_1_BIT` = no MSAA).
    pub fn sample_count(&self) -> (r: u32)
        ensures
            r == self.spec_sample_count(),
    {
        self.sample_count
    }

    /// Whether multisampling is on.
    pub fn is_msaa(&self) -> (r: bool)
        ensures
            r == self.spec_msaa(),
    {
        self.sample_count != SAMPLE_COUNT_1
    }

    /// The color attachments, in order.
    pub fn color_specs(&self) -> (r: &[FramebufferTextureSpec])
        ensures
            r@ == self.spec_color_specs(),
    {
        self.color_specs.as_slice()
    }

    /// Number of color attachments.
    pub fn color_attachment_count(&self) -> (r: usize)
        ensures
            r == self.spec_color_specs().len(),
    {
        self.color_specs.len()
    }

    /// Whether there is a single-sampled depth attachment (only without
    /// MSAA).
    pub fn has_depth_attachment(&self) -> (r: bool)
        ensures
            r == (!self.spec_msaa() && self.spec_has_depth()),
    {
        self.sample_count == SAMPLE_COUNT_1 && self.depth_spec.is_some()
    }

    /// Whether there is a multisampled depth attachment (only with MSAA).
    pub fn has_msaa_depth_attachment(&self) -> (r: bool)
        ensures
            r == (self.spec_msaa() && self.spec_has_depth()),
    {
        self.sample_count != SAMPLE_COUNT_1 && self.depth_spec.is_some()
    }

    /// Whether there is a normal map attachment (the third color
    /// attachment).
    pub fn has_normal_attachment(&self) -> (r: bool)
        ensures
            r == (self.spec_color_specs().len() >= 3),
    {
        self.color_specs.len() >= 3
    }

    /// The sample count as a number (1 = no MSAA; unknown flags count as 1).
    pub fn sample_count_u32(&self) -> (r: u32)
        ensures
            r == (if self.spec_sample_count() == 2 || self.spec_sample_count() == 4
                || self.spec_sample_count() == 8 {
                self.spec_sample_count()
            } else {
                1
            }),
    {
        if self.sample_count == SAMPLE_COUNT_2 {
            2
        } else if self.sample_count == SAMPLE_COUNT_4 {
            4
        } else if self.sample_count == SAMPLE_COUNT_8 {
            8
        } else {
            1
        }
    }

    /// Resize to `width` × `height`: nothing when the size is unchanged,
    /// ignored when a dimension is zero or above the maximum, else the new
    /// size is taken, the attachments must be recreated, and the readback
    /// state starts afresh (no pending request, hovered entity -1).
    pub fn resize(&mut self, width: u32, height: u32) -> (r: ResizeOutcome)
        ensures
            r == (if old(self).spec_width() == width && old(self).spec_height() == height {
                ResizeOutcome::Unchanged
            } else if !valid_framebuffer_size(width, height) {
                ResizeOutcome::Rejected
            } else {
                ResizeOutcome::Resized
            }),
            r is Resized ==> final(self).spec_width() == width && final(self).spec_height() == height,
            !(r is Resized) ==> final(self).spec_width() == old(self).spec_width()
                && final(self).spec_height() == old(self).spec_height(),
            final(self).spec_sample_count() == old(self).spec_sample_count(),
            final(self).spec_color_specs() == old(self).spec_color_specs(),
            final(self).spec_has_depth() == old(self).spec_has_depth(),
            r is Resized ==> final(self).spec_pending_readback() is None && final(self).spec_last_readback()
                == -1,
            !(r is Resized) ==> final(self).spec_pending_readback() == old(self).spec_pending_readback()
                && final(self).spec_last_readback() == old(self).spec_last_readback(),
    {
        if self.width == width && self.height == height {
            return ResizeOutcome::Unchanged;
        }
        if width == 0 || height == 0 || width > MAX_FRAMEBUFFER_SIZE || height > MAX_FRAMEBUFFER_SIZE {
            return ResizeOutcome::Rejected;
        }
        self.width = width;
        self.height = height;
        self.pending_readback = None;
        self.last_readback = -1;
        ResizeOutcome::Resized
    }

    /// The render pass attachment order.
    pub fn attachment_order(&self) -> (r: Vec<AttachmentRole>)
        ensures
            r@ == spec_attachment_order(
                self.spec_color_specs().len(),
                self.spec_has_depth(),
                self.spec_msaa(),
            ),
    {
        let n = self.color_specs.len();
        let msaa = self.sample_count != SAMPLE_COUNT_1;
        let mut order: Vec<AttachmentRole> = Vec::new();
        let mut i: usize = 0;
        while i < n
            invariant
                i <= n,
                n == self.color_specs@.len(),
                msaa == self.spec_msaa(),
                order@ == Seq::new(
                    i as nat,
                    |k: int|
                        if msaa {
                            AttachmentRole::MsaaColor(k as usize)
                        } else {
                            AttachmentRole::Color(k as usize)
                        },
                ),
            decreases n - i,
        {
            if msaa {
                order.push(AttachmentRole::MsaaColor(i));
            } else {
                order.push(AttachmentRole::Color(i));
            }
            proof {
                assert(order@ =~= Seq::new(
                    (i + 1) as nat,
                    |k: int|
                        if msaa {
                            AttachmentRole::MsaaColor(k as usize)
                        } else {
                            AttachmentRole::Color(k as usize)
                        },
                ));
            }
            i += 1;
        }
        let ghost first = order@;
        if self.depth_spec.is_some() {
            if msaa {
                order.push(AttachmentRole::MsaaDepth);
            } else {
                order.push(AttachmentRole::Depth);
            }
        }
        let ghost second = order@;
        if msaa {
            let mut j: usize = 0;
            while j < n
                invariant
                    j <= n,
                    n == self.color_specs@.len(),
                    msaa,
                    order@ == second + Seq::new(j as nat, |k: int| AttachmentRole::Resolve(k as usize)),
                decreases n - j,
            {
                order.push(AttachmentRole::Resolve(j));
                proof {
                    assert(order@ =~= second + Seq::new(
                        (j + 1) as nat,
                        |k: int| AttachmentRole::Resolve(k as usize),
                    ));
                }
                j += 1;
            }
            assert(first =~= Seq::new(n as nat, |k: int| AttachmentRole::MsaaColor(k as usize)));
        } else {
            assert(first =~= Seq::new(n as nat, |k: int| AttachmentRole::Color(k as usize)));
        }
        let ghost spec_order = spec_attachment_order(
            self.spec_color_specs().len(),
            self.spec_has_depth(),
            self.spec_msaa(),
        );
        assert(order@ =~= spec_order);
        order
    }

    /// The clear values in render pass attachment order: the clear color
    /// for every color attachment but the entity ID one, which clears to -1,
    /// and depth 1.0 (stencil 0) for depth.
    pub fn clear_values(&self) -> (r: Vec<ClearValueKind>)
        requires
            spec_clear_values(self.spec_color_specs(), self.spec_has_depth(), self.spec_msaa()).len()
                <= MAX_CLEAR_VALUES,
        ensures
            r@ == spec_clear_values(self.spec_color_specs(), self.spec_has_depth(), self.spec_msaa()),
    {
        let msaa = self.sample_count != SAMPLE_COUNT_1;
        let colors = self.color_clears();
        let mut values: Vec<ClearValueKind> = Vec::new();
        let mut i: usize = 0;
        while i < colors.len()
            invariant
                i <= colors@.len(),
                values@ == colors@.subrange(0, i as int),
            decreases colors@.len() - i,
        {
            values.push(colors[i]);
            proof {
                assert(colors@.subrange(0, i + 1) =~= colors@.subrange(0, i as int).push(colors@[i as int]));
            }
            i += 1;
        }
        if self.depth_spec.is_some() {
            values.push(ClearValueKind::DepthOne);
        }
        let ghost mid = values@;
        if msaa {
            let mut j: usize = 0;
            while j < colors.len()
                invariant
                    j <= colors@.len(),
                    values@ == mid + colors@.subrange(0, j as int),
                decreases colors@.len() - j,
            {
                values.push(colors[j]);
                proof {
                    assert(colors@.subrange(0, j + 1) =~= colors@.subrange(0, j as int).push(colors@[j as int]));
                }
                j += 1;
            }
        }
        proof {
            assert(colors@.subrange(0, colors@.len() as int) =~= colors@);
        }
        assert(values@ =~= spec_clear_values(self.spec_color_specs(), self.spec_has_depth(), self.spec_msaa()));
        values
    }

    /// The clear value of each color attachment, in order.
    fn color_clears(&self) -> (r: Vec<ClearValueKind>)
        ensures
            r@ == self.spec_color_specs().map_values(|s: FramebufferTextureSpec| color_clear(s.format)),
    {
        let mut r: Vec<ClearValueKind> = Vec::new();
        let mut i: usize = 0;
        while i < self.color_specs.len()
            invariant
                i <= self.color_specs@.len(),
                r@ == self.color_specs@.subrange(0, i as int).map_values(
                    |s: FramebufferTextureSpec| color_clear(s.format),
                ),
            decreases self.color_specs@.len() - i,
        {
            let k = match self.color_specs[i].format {
                FramebufferTextureFormat::RedInteger => ClearValueKind::IntegerMinusOne,
                _ => ClearValueKind::ClearColor,
            };
            r.push(k);
            proof {
                assert(r@ =~= self.color_specs@.subrange(0, i + 1).map_values(
                    |s: FramebufferTextureSpec| color_clear(s.format),
                ));
            }
            i += 1;
        }
        assert(self.color_specs@.subrange(0, i as int) =~= self.color_specs@);
        r
    }

    /// Request a pixel readback of color attachment `attachment_index` at
    /// (`x`, `y`); coordinates outside the framebuffer are ignored.
    pub fn schedule_pixel_readback(&mut self, attachment_index: usize, x: i32, y: i32)
        ensures
            final(self).spec_pending_readback() == (if 0 <= x < old(self).spec_width() && 0 <= y
                < old(self).spec_height() {
                Some((attachment_index, x, y))
            } else {
                old(self).spec_pending_readback()
            }),
            final(self).spec_width() == old(self).spec_width(),
            final(self).spec_height() == old(self).spec_height(),
            final(self).spec_sample_count() == old(self).spec_sample_count(),
            final(self).spec_color_specs() == old(self).spec_color_specs(),
            final(self).spec_has_depth() == old(self).spec_has_depth(),
            final(self).spec_last_readback() == old(self).spec_last_readback(),
    {
        if x >= 0 && y >= 0 && (x as u32) < self.width && (y as u32) < self.height {
            self.pending_readback = Some((attachment_index, x, y));
        }
    }

    /// Take the pending readback request, leaving none.
    pub fn take_pending_readback(&mut self) -> (r: Option<(usize, i32, i32)>)
        ensures
            r == old(self).spec_pending_readback(),
            final(self).spec_pending_readback() is None,
            final(self).spec_width() == old(self).spec_width(),
            final(self).spec_height() == old(self).spec_height(),
            final(self).spec_sample_count() == old(self).spec_sample_count(),
            final(self).spec_color_specs() == old(self).spec_color_specs(),
            final(self).spec_has_depth() == old(self).spec_has_depth(),
            final(self).spec_last_readback() == old(self).spec_last_readback(),
    {
        let r = self.pending_readback;
        self.pending_readback = None;
        r
    }

    /// Record the pixel value read back for the current frame slot.
    pub fn set_readback_result(&mut self, value: i32)
        ensures
            final(self).spec_last_readback() == value,
            final(self).spec_pending_readback() == old(self).spec_pending_readback(),
            final(self).spec_width() == old(self).spec_width(),
            final(self).spec_height() == old(self).spec_height(),
            final(self).spec_sample_count() == old(self).spec_sample_count(),
            final(self).spec_color_specs() == old(self).spec_color_specs(),
            final(self).spec_has_depth() == old(self).spec_has_depth(),
    {
        self.last_readback = value;
    }

    /// The last pixel value read back (-1 = no entity / background).
    pub fn hovered_entity(&self) -> (r: i32)
        ensures
            r == self.spec_last_readback(),
    {
        self.last_readback
    }
}

/// What a render pass does with an attachment's contents when it begins.
#[derive(Debug, Clone, Copy, PartialEq, Eq, Structural)]
pub enum AttachmentLoadOp {
    Clear,
    DontCare,
}

/// What a render pass does with an attachment's contents when it ends.
#[derive(Debug, Clone, Copy, PartialEq, Eq, Structural)]
pub enum AttachmentStoreOp {
    Store,
    DontCare,
}

/// The image layout an attachment is left in after the render pass.
#[derive(Debug, Clone, Copy, PartialEq, Eq, Structural)]
pub enum FinalLayout {
    /// Still a color attachment (multisampled images, resolved away).
    ColorAttachment,
    /// Read-only depth, for post-processing to sample.
    DepthStencilReadOnly,
    /// Sampled by shaders (resolved or single-sampled color).
    ShaderReadOnly,
}

/// The description of one render pass attachment (initial layout is always
/// undefined and the stencil is never loaded or stored).
#[derive(Debug, Clone, Copy, PartialEq, Eq, Structural)]
pub struct AttachmentDesc {
    pub role: AttachmentRole,
    /// `VkFormat` value.
    pub format: i32,
    /// Sample count flag.
    pub samples: u32,
    pub load_op: AttachmentLoadOp,
    pub store_op: AttachmentStoreOp,
    pub final_layout: FinalLayout,
}

/// The description of the attachment with the given role: multisampled
/// color is cleared and discarded once resolved; resolve targets are not
/// loaded and are kept for sampling; single-sampled color is cleared and
/// kept for sampling; depth is cleared and kept read-only for sampling.
pub open spec fn spec_attachment_desc(
    role: AttachmentRole,
    colors: Seq<FramebufferTextureSpec>,
    color_format: i32,
    depth_format: i32,
    samples: u32,
) -> AttachmentDesc {
    match role {
        AttachmentRole::MsaaColor(i) => AttachmentDesc {
            role,
            format: spec_resolve_vk_format(colors[i as int].format, color_format, depth_format),
            samples,
            load_op: AttachmentLoadOp::Clear,
            store_op: AttachmentStoreOp::DontCare,
            final_layout: FinalLayout::ColorAttachment,
        },
        AttachmentRole::MsaaDepth => AttachmentDesc {
            role,
            format: depth_format,
            samples,
            load_op: AttachmentLoadOp::Clear,
            store_op: AttachmentStoreOp::Store,
            final_layout: FinalLayout::DepthStencilReadOnly,
        },
        AttachmentRole::Resolve(i) => AttachmentDesc {
            role,
            format: spec_resolve_vk_format(colors[i as int].format, color_format, depth_format),
            samples: SAMPLE_COUNT_1,
            load_op: AttachmentLoadOp::DontCare,
            store_op: AttachmentStoreOp::Store,
            final_layout: FinalLayout::ShaderReadOnly,
        },
        AttachmentRole::Color(i) => AttachmentDesc {
            role,
            format: spec_resolve_vk_format(colors[i as int].format, color_format, depth_format),
            samples: SAMPLE_COUNT_1,
            load_op: AttachmentLoadOp::Clear,
            store_op: AttachmentStoreOp::Store,
            final_layout: FinalLayout::ShaderReadOnly,
        },
        AttachmentRole::Depth => AttachmentDesc {
            role,
            format: depth_format,
            samples: SAMPLE_COUNT_1,
            load_op: AttachmentLoadOp::Clear,
            store_op: AttachmentStoreOp::Store,
            final_layout: FinalLayout::DepthStencilReadOnly,
        },
    }
}

/// Whether a role refers to a color attachment that exists.
pub open spec fn role_in_range(role: AttachmentRole, n: nat) -> bool {
    match role {
        AttachmentRole::MsaaColor(i) => i < n,
        AttachmentRole::Resolve(i) => i < n,
        AttachmentRole::Color(i) => i < n,
        _ => true,
    }
}

/// The attachment indices the single subpass refers to: its color
/// attachments, its depth attachment, and (with MSAA) the resolve target of
/// each color attachment.
#[derive(Debug, Clone, PartialEq, Eq)]
pub struct SubpassRefs {
    pub color: Vec<u32>,
    pub depth: Option<u32>,
    pub resolve: Vec<u32>,
}

impl FramebufferState {
    /// The render pass attachment descriptions, in attachment order, for the
    /// given swapchain color and depth formats.
    pub fn attachment_descriptions(&self, color_format: i32, depth_format: i32) -> (r: Vec<AttachmentDesc>)
        ensures
            r@.len() == spec_attachment_order(
                self.spec_color_specs().len(),
                self.spec_has_depth(),
                self.spec_msaa(),
            ).len(),
            forall|k: int|
                0 <= k < r@.len() ==> #[trigger] r@[k] == spec_attachment_desc(
                    spec_attachment_order(self.spec_color_specs().len(), self.spec_has_depth(), self.spec_msaa())[k],
                    self.spec_color_specs(),
                    color_format,
                    depth_format,
                    self.spec_sample_count(),
                ),
    {
        let order = self.attachment_order();
        let ghost n = self.spec_color_specs().len();
        let mut descs: Vec<AttachmentDesc> = Vec::new();
        let mut k: usize = 0;
        while k < order.len()
            invariant
                k <= order@.len(),
                order@ == spec_attachment_order(n, self.spec_has_depth(), self.spec_msaa()),
                n == self.color_specs@.len(),
                descs@.len() == k,
                forall|j: int|
                    0 <= j < k ==> #[trigger] descs@[j] == spec_attachment_desc(
                        order@[j],
                        self.spec_color_specs(),
                        color_format,
                        depth_format,
                        self.spec_sample_count(),
                    ),
            decreases order@.len() - k,
        {
            let role = order[k];
            proof {
                lemma_order_roles_in_range(n, self.spec_has_depth(), self.spec_msaa(), k as int);
            }
            let d = match role {
                AttachmentRole::MsaaColor(i) => AttachmentDesc {
                    role,
                    format: resolve_vk_format(self.color_specs[i].format, color_format, depth_format),
                    samples: self.sample_count,
                    load_op: AttachmentLoadOp::Clear,
                    store_op: AttachmentStoreOp::DontCare,
                    final_layout: FinalLayout::ColorAttachment,
                },
                AttachmentRole::MsaaDepth => AttachmentDesc {
                    role,
                    format: depth_format,
                    samples: self.sample_count,
                    load_op: AttachmentLoadOp::Clear,
                    store_op: AttachmentStoreOp::Store,
                    final_layout: FinalLayout::DepthStencilReadOnly,
                },
                AttachmentRole::Resolve(i) => AttachmentDesc {
                    role,
                    format: resolve_vk_format(self.color_specs[i].format, color_format, depth_format),
                    samples: SAMPLE_COUNT_1,
                    load_op: AttachmentLoadOp::DontCare,
                    store_op: AttachmentStoreOp::Store,
                    final_layout: FinalLayout::ShaderReadOnly,
                },
                AttachmentRole::Color(i) => AttachmentDesc {
                    role,
                    format: resolve_vk_format(self.color_specs[i].format, color_format, depth_format),
                    samples: SAMPLE_COUNT_1,
                    load_op: AttachmentLoadOp::Clear,
                    store_op: AttachmentStoreOp::Store,
                    final_layout: FinalLayout::ShaderReadOnly,
                },
                AttachmentRole::Depth => AttachmentDesc {
                    role,
                    format: depth_format,
                    samples: SAMPLE_COUNT_1,
                    load_op: AttachmentLoadOp::Clear,
                    store_op: AttachmentStoreOp::Store,
                    final_layout: FinalLayout::DepthStencilReadOnly,
                },
            };
            descs.push(d);
            k += 1;
        }
        descs
    }

    /// The subpass's attachment references: color attachment `i` is
    /// attachment `i`, depth follows the color attachments, and with MSAA
    /// the resolve target of color attachment `i` follows the depth.
    pub fn subpass_references(&self) -> (r: SubpassRefs)
        requires
            2 * self.spec_color_specs().len() + 1 <= u32::MAX,
        ensures
            r.color@.len() == self.spec_color_specs().len(),
            forall|i: int| 0 <= i < r.color@.len() ==> #[trigger] r.color@[i] == i,
            r.depth == (if self.spec_has_depth() {
                Some(self.spec_color_specs().len() as u32)
            } else {
                None
            }),
            self.spec_msaa() ==> r.resolve@.len() == self.spec_color_specs().len(),
            !self.spec_msaa() ==> r.resolve@.len() == 0,
            forall|i: int|
                0 <= i < r.resolve@.len() ==> #[trigger] r.resolve@[i] == self.spec_color_specs().len() + (if self.spec_has_depth() {
                    1int
                } else {
                    0int
                }) + i,
    {
        let n = self.color_specs.len();
        let n32: u32 = n as u32;
        let mut color: Vec<u32> = Vec::new();
        let mut i: u32 = 0;
        while i < n32
            invariant
                i <= n32,
                n32 == n,
                n == self.spec_color_specs().len(),
                color@.len() == i,
                forall|k: int| 0 <= k < i ==> #[trigger] color@[k] == k,
            decreases n32 - i,
        {
            color.push(i);
            i += 1;
        }
        let depth = if self.depth_spec.is_some() {
            Some(n32)
        } else {
            None
        };
        let base: u32 = if self.depth_spec.is_some() {
            n32 + 1
        } else {
            n32
        };
        let mut resolve: Vec<u32> = Vec::new();
        if self.sample_count != SAMPLE_COUNT_1 {
            let mut j: u32 = 0;
            while j < n32
                invariant
                    j <= n32,
                    2 * n32 + 1 <= u32::MAX,
                    base == n32 + (if self.spec_has_depth() { 1int } else { 0int }),
                    resolve@.len() == j,
                    forall|k: int| 0 <= k < j ==> #[trigger] resolve@[k] == base + k,
                decreases n32 - j,
            {
                resolve.push(base + j);
                j += 1;
            }
        }
        SubpassRefs { color, depth, resolve }
    }
}

proof fn lemma_order_roles_in_range(n: nat, has_depth: bool, msaa: bool, k: int)
    requires
        0 <= k < spec_attachment_order(n, has_depth, msaa).len(),
    ensures
        role_in_range(spec_attachment_order(n, has_depth, msaa)[k], n),
{
    let d: Seq<AttachmentRole> = if has_depth {
        if msaa { seq![AttachmentRole::MsaaDepth] } else { seq![AttachmentRole::Depth] }
    } else {
        Seq::empty()
    };
    if msaa {
        let a = Seq::new(n, |i: int| AttachmentRole::MsaaColor(i as usize));
        let b = Seq::new(n, |i: int| AttachmentRole::Resolve(i as usize));
        let o = spec_attachment_order(n, has_depth, msaa);
        assert(o == a + d + b);
        if k < n {
            assert(o[k] == a[k]);
        } else if k < n + d.len() {
            assert(o[k] == d[k - n]);
        } else {
            assert(o[k] == b[k - n - d.len()]);
        }
    } else {
        let a = Seq::new(n, |i: int| AttachmentRole::Color(i as usize));
        let o = spec_attachment_order(n, has_depth, msaa);
        assert(o == a + d);
        if k < n {
            assert(o[k] == a[k]);
        } else {
            assert(o[k] == d[k - n]);
        }
    }
}

/// Every subpass reference names the attachment of the matching role: color
/// reference `i` is color attachment `i` (multisampled with MSAA), the depth
/// reference is the depth attachment, and resolve reference `i` is the
/// resolve target of color attachment `i`.
pub proof fn lemma_subpass_refs_match_roles(n: nat, has_depth: bool, msaa: bool, i: int)
    requires
        0 <= i < n,
    ensures
        spec_attachment_order(n, has_depth, msaa)[i] == (if msaa {
            AttachmentRole::MsaaColor(i as usize)
        } else {
            AttachmentRole::Color(i as usize)
        }),
        has_depth ==> spec_attachment_order(n, has_depth, msaa)[n as int] == (if msaa {
            AttachmentRole::MsaaDepth
        } else {
            AttachmentRole::Depth
        }),
        msaa ==> spec_attachment_order(n, has_depth, msaa)[n + (if has_depth { 1int } else { 0int }) + i]
            == AttachmentRole::Resolve(i as usize),
{
    let d: Seq<AttachmentRole> = if has_depth {
        if msaa { seq![AttachmentRole::MsaaDepth] } else { seq![AttachmentRole::Depth] }
    } else {
        Seq::empty()
    };
    let o = spec_attachment_order(n, has_depth, msaa);
    if msaa {
        let a = Seq::new(n, |j: int| AttachmentRole::MsaaColor(j as usize));
        let b = Seq::new(n, |j: int| AttachmentRole::Resolve(j as usize));
        assert(o == a + d + b);
        assert(o[n + d.len() + i] == b[i]);
    } else {
        let a = Seq::new(n, |j: int| AttachmentRole::Color(j as usize));
        assert(o == a + d);
    }
}

/// The clear values line up with the render pass attachments: there is one
/// per attachment, and each is the one that attachment's role calls for.
pub proof fn lemma_clear_values_match_attachments(
    colors: Seq<FramebufferTextureSpec>,
    has_depth: bool,
    msaa: bool,
)
    requires
        colors.len() <= usize::MAX,
    ensures
        ({
            let order = spec_attachment_order(colors.len(), has_depth, msaa);
            let clears = spec_clear_values(colors, has_depth, msaa);
            &&& clears.len() == order.len()
            &&& forall|k: int| 0 <= k < order.len() ==> clears[k] == role_clear(#[trigger] order[k], colors)
        }),
{
    let order = spec_attachment_order(colors.len(), has_depth, msaa);
    let clears = spec_clear_values(colors, has_depth, msaa);
    let n = colors.len() as int;
    let d: int = if has_depth { 1 } else { 0 };
    let c = colors.map_values(|s: FramebufferTextureSpec| color_clear(s.format));
    let ds = if has_depth { seq![ClearValueKind::DepthOne] } else { Seq::<ClearValueKind>::empty() };
    let cs = Seq::new(colors.len(), |i: int| AttachmentRole::Color(i as usize));
    let ms = Seq::new(colors.len(), |i: int| AttachmentRole::MsaaColor(i as usize));
    let rs = Seq::new(colors.len(), |i: int| AttachmentRole::Resolve(i as usize));
    let dm = if has_depth { seq![AttachmentRole::MsaaDepth] } else { Seq::<AttachmentRole>::empty() };
    let dd = if has_depth { seq![AttachmentRole::Depth] } else { Seq::<AttachmentRole>::empty() };
    assert forall|k: int| 0 <= k < order.len() implies clears[k] == role_clear(#[trigger] order[k], colors) by {
        if msaa {
            assert(order == ms + dm + rs);
            assert(clears == c + ds + c);
            if k < n {
                assert(order[k] == ms[k]);
                assert(clears[k] == c[k]);
            } else if k < n + d {
                assert(order[k] == dm[k - n]);
                assert(clears[k] == ds[k - n]);
            } else {
                assert(order[k] == rs[k - n - d]);
                assert(clears[k] == c[k - n - d]);
            }
        } else {
            assert(order == cs + dd);
            assert(clears == c + ds);
            if k < n {
                assert(order[k] == cs[k]);
                assert(clears[k] == c[k]);
            } else {
                assert(order[k] == dd[k - n]);
                assert(clears[k] == ds[k - n]);
            }
        }
    }
}

} // verus!
