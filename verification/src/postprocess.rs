//! Post-processing: tone-mapping modes, the bloom mip chain, which optional
//! inputs (depth, normals, MSAA depth resolve) the pipeline holds, and which
//! passes run in a frame.
use vstd::prelude::*;

verus! {

/// Tone mapping operator for HDR-to-LDR conversion.
#[derive(Debug, Clone, Copy, PartialEq, Eq, Structural)]
pub enum TonemappingMode {
    /// No tone mapping (pass-through).
    Off,
    /// ACES filmic tone curve.
    ACES,
    /// Reinhard tone mapping.
    Reinhard,
}

impl Default for TonemappingMode {
    fn default() -> (m: Self)
        ensures
            m == TonemappingMode::Off,
    {
        TonemappingMode::Off
    }
}

/// The integer the composite shader receives for each mode.
pub open spec fn spec_tonemapping_code(m: TonemappingMode) -> i32 {
    match m {
        TonemappingMode::Off => 0,
        TonemappingMode::ACES => 1,
        TonemappingMode::Reinhard => 2,
    }
}

impl TonemappingMode {
    /// Every mode, in menu order.
    pub fn all() -> (v: [TonemappingMode; 3])
        ensures
            v@ == seq![TonemappingMode::Off, TonemappingMode::ACES, TonemappingMode::Reinhard],
    {
        [TonemappingMode::Off, TonemappingMode::ACES, TonemappingMode::Reinhard]
    }

    /// Shader code of the mode: 0, 1 or 2.
    pub fn to_int(self) -> (r: i32)
        ensures
            r == spec_tonemapping_code(self),
    {
        match self {
            TonemappingMode::Off => 0,
            TonemappingMode::ACES => 1,
            TonemappingMode::Reinhard => 2,
        }
    }

    /// Display name of the mode.
    pub fn to_string(&self) -> (s: String)
        ensures
            *self == TonemappingMode::Off ==> s@ == "None"@,
            *self == TonemappingMode::ACES ==> s@ == "ACES"@,
            *self == TonemappingMode::Reinhard ==> s@ == "Reinhard"@,
    {
        match self {
            TonemappingMode::Off => String::from_str("None"),
            TonemappingMode::ACES => String::from_str("ACES"),
            TonemappingMode::Reinhard => String::from_str("Reinhard"),
        }
    }
}

/// Distinct modes are sent to the shader as distinct codes.
pub proof fn lemma_tonemapping_codes_distinct(a: TonemappingMode, b: TonemappingMode)
    requires
        a != b,
    ensures
        spec_tonemapping_code(a) != spec_tonemapping_code(b),
{
}

/// Number of bloom mip levels (each half the previous resolution).
pub const BLOOM_MIP_LEVELS: usize = 4;

/// Descriptor sets the internal pool is sized for: the bloom mips plus the
/// output, scene, contact-shadow, blur, depth, MSAA-depth, resolved-depth and
/// normal inputs.
pub const PP_DESCRIPTOR_SET_CAPACITY: u32 = 12;

/// Size of an image in pixels.
#[derive(Debug, Clone, Copy, PartialEq, Eq, Structural)]
pub struct ImageExtent {
    pub width: u32,
    pub height: u32,
}

/// One side of bloom mip `level` for a full-resolution side `full`: the first
/// level is half of the full side, each further level half of the one before,
/// never below one pixel.
pub open spec fn spec_bloom_dim(full: nat, level: nat) -> nat
    decreases level,
{
    if level == 0 {
        if full / 2 >= 1 { full / 2 } else { 1 }
    } else {
        let prev = spec_bloom_dim(full, (level - 1) as nat);
        if prev / 2 >= 1 { prev / 2 } else { 1 }
    }
}

/// `2^(level + 1)`: the divisor of bloom mip `level`.
pub open spec fn spec_bloom_divisor(level: nat) -> nat
    decreases level,
{
    if level == 0 { 2 } else { 2 * spec_bloom_divisor((level - 1) as nat) }
}

/// Bloom mip `level` is the full side divided by `2^(level + 1)`, clamped to
/// at least one pixel.
pub proof fn lemma_bloom_dim_closed_form(full: nat, level: nat)
    ensures
        spec_bloom_divisor(level) > 0,
        spec_bloom_dim(full, level) == if full / spec_bloom_divisor(level) >= 1 {
            full / spec_bloom_divisor(level)
        } else {
            1
        },
    decreases level,
{
    if level > 0 {
        let l1 = (level - 1) as nat;
        lemma_bloom_dim_closed_form(full, l1);
        let s = spec_bloom_divisor(l1);
        vstd::arithmetic::div_mod::lemma_div_denominator(full as int, s as int, 2);
        assert(s * 2 == 2 * s) by (nonlinear_arith);
    }
}

/// Each bloom level is at least one pixel and no larger than the level before.
pub proof fn lemma_bloom_dims_shrink(full: nat, level: nat)
    ensures
        spec_bloom_dim(full, level) >= 1,
        level > 0 ==> spec_bloom_dim(full, level) <= spec_bloom_dim(full, (level - 1) as nat),
        spec_bloom_dim(full, level) <= if full >= 1 { full } else { 1 },
    decreases level,
{
    if level > 0 {
        lemma_bloom_dims_shrink(full, (level - 1) as nat);
    }
}

/// The extents of the bloom mip chain for a viewport of `width` x `height`.
pub fn bloom_mip_extents(width: u32, height: u32) -> (v: Vec<ImageExtent>)
    ensures
        v.len() == BLOOM_MIP_LEVELS,
        forall|i: int|
            0 <= i < v.len() ==> (#[trigger] v@[i]).width == spec_bloom_dim(width as nat, i as nat)
                && v@[i].height == spec_bloom_dim(height as nat, i as nat),
{
    let mut v: Vec<ImageExtent> = Vec::new();
    let mut mip_w: u32 = width / 2;
    let mut mip_h: u32 = height / 2;
    let mut level: usize = 0;
    while level < BLOOM_MIP_LEVELS
        invariant
            level <= BLOOM_MIP_LEVELS,
            v.len() == level,
            forall|i: int|
                0 <= i < level ==> (#[trigger] v@[i]).width == spec_bloom_dim(width as nat, i as nat)
                    && v@[i].height == spec_bloom_dim(height as nat, i as nat),
            level == 0 ==> mip_w == width / 2 && mip_h == height / 2,
            level > 0 ==> mip_w == spec_bloom_dim(width as nat, (level - 1) as nat) / 2
                && mip_h == spec_bloom_dim(height as nat, (level - 1) as nat) / 2,
        decreases BLOOM_MIP_LEVELS - level,
    {
        if mip_w < 1 {
            mip_w = 1;
        }
        if mip_h < 1 {
            mip_h = 1;
        }
        v.push(ImageExtent { width: mip_w, height: mip_h });
        mip_w = mip_w / 2;
        mip_h = mip_h / 2;
        level = level + 1;
    }
    v
}

/// A bloom render pass: it samples `source` and writes `target`.
#[derive(Debug, Clone, Copy, PartialEq, Eq, Structural)]
pub struct BloomPass {
    pub source: ImageExtent,
    pub target: ImageExtent,
}

/// The downsample chain: the first pass reads the full-resolution scene, each
/// further pass the mip written before it.
pub fn bloom_downsample_passes(width: u32, height: u32, mips: &Vec<ImageExtent>) -> (p: Vec<BloomPass>)
    ensures
        p.len() == mips.len(),
        forall|i: int| 0 <= i < p.len() ==> (#[trigger] p@[i]).target == mips@[i],
        p.len() > 0 ==> p@[0].source == (ImageExtent { width, height }),
        forall|i: int| 0 < i < p.len() ==> (#[trigger] p@[i]).source == mips@[i - 1],
{
    let mut p: Vec<BloomPass> = Vec::new();
    let mut i: usize = 0;
    while i < mips.len()
        invariant
            i <= mips.len(),
            p.len() == i,
            forall|k: int| 0 <= k < i ==> (#[trigger] p@[k]).target == mips@[k],
            i > 0 ==> p@[0].source == (ImageExtent { width, height }),
            forall|k: int| 0 < k < i ==> (#[trigger] p@[k]).source == mips@[k - 1],
        decreases mips.len() - i,
    {
        let source = if i == 0 {
            ImageExtent { width, height }
        } else {
            mips[i - 1]
        };
        p.push(BloomPass { source, target: mips[i] });
        i = i + 1;
    }
    p
}

/// The upsample chain, from the smallest mip up: pass `k` writes mip
/// `n - 2 - k` and reads the mip below it.
pub fn bloom_upsample_passes(mips: &Vec<ImageExtent>) -> (p: Vec<BloomPass>)
    ensures
        mips.len() == 0 ==> p.len() == 0,
        mips.len() > 0 ==> p.len() == mips.len() - 1,
        forall|k: int|
            0 <= k < p.len() ==> (#[trigger] p@[k]).target == mips@[mips.len() - 2 - k]
                && p@[k].source == mips@[mips.len() - 1 - k],
{
    let mut p: Vec<BloomPass> = Vec::new();
    if mips.len() == 0 {
        return p;
    }
    let mut i: usize = mips.len() - 1;
    while i > 0
        invariant
            i < mips.len(),
            p.len() == mips.len() - 1 - i,
            forall|k: int|
                0 <= k < p.len() ==> (#[trigger] p@[k]).target == mips@[mips.len() - 2 - k]
                    && p@[k].source == mips@[mips.len() - 1 - k],
        decreases i,
    {
        p.push(BloomPass { source: mips[i], target: mips[i - 1] });
        i = i - 1;
    }
    p
}

/// The framebuffer inputs handed to the pipeline.
#[derive(Debug, Clone, Copy, PartialEq, Eq, Structural)]
pub struct InputViews {
    /// A single-sample depth view.
    pub has_scene_depth: bool,
    /// A multisampled depth view (takes precedence over the single-sample one).
    pub has_msaa_depth: bool,
    /// A G-buffer normal view.
    pub has_normal: bool,
}

/// Where contact shadows read depth from.
#[derive(Debug, Clone, Copy, PartialEq, Eq, Structural)]
pub enum DepthSource {
    /// No depth input.
    Unavailable,
    /// The single-sample depth view is sampled directly.
    Direct,
    /// MSAA depth is first resolved into a single-sample image.
    ResolvedFromMsaa,
}

/// The depth source the given inputs call for.
pub open spec fn spec_depth_source(views: InputViews) -> DepthSource {
    if views.has_msaa_depth {
        DepthSource::ResolvedFromMsaa
    } else if views.has_scene_depth {
        DepthSource::Direct
    } else {
        DepthSource::Unavailable
    }
}

/// Whether any depth view is present.
pub open spec fn spec_has_any_depth(views: InputViews) -> bool {
    views.has_scene_depth || views.has_msaa_depth
}

/// The optional resources the pipeline holds.
#[derive(Debug, Clone, Copy, PartialEq, Eq, Structural)]
pub struct PostProcessResources {
    /// The contact-shadow pipeline; built only at creation, when depth was present.
    pub contact_shadow_pipeline: bool,
    /// The contact-shadow output and blur intermediate images.
    pub contact_shadow_images: bool,
    /// The MSAA depth resolve pipeline; once built it is kept.
    pub depth_resolve_pipeline: bool,
    /// Where depth comes from.
    pub depth_source: DepthSource,
    /// Whether the normal input is bound.
    pub normal_input: bool,
}

/// Resources after creation with the given inputs.
pub open spec fn spec_initial_resources(views: InputViews) -> PostProcessResources {
    PostProcessResources {
        contact_shadow_pipeline: spec_has_any_depth(views),
        contact_shadow_images: spec_has_any_depth(views),
        depth_resolve_pipeline: views.has_msaa_depth,
        depth_source: spec_depth_source(views),
        normal_input: views.has_normal,
    }
}

/// Resources after the inputs are rebound (same size) or the pipeline is
/// resized: the contact-shadow pipeline stays as it was, its images exist
/// exactly when it does and depth is present, the resolve pipeline is built
/// when MSAA depth arrives and then kept.
pub open spec fn spec_rebound_resources(old: PostProcessResources, views: InputViews) -> PostProcessResources {
    PostProcessResources {
        contact_shadow_pipeline: old.contact_shadow_pipeline,
        contact_shadow_images: spec_has_any_depth(views) && old.contact_shadow_pipeline,
        depth_resolve_pipeline: old.depth_resolve_pipeline || views.has_msaa_depth,
        depth_source: spec_depth_source(views),
        normal_input: views.has_normal,
    }
}

/// What a call of `resize` did.
#[derive(Debug, Clone, Copy, PartialEq, Eq, Structural)]
pub enum ResizeKind {
    /// Same size: only the input bindings were redone.
    RebindOnly,
    /// New size: every intermediate image was recreated.
    Recreate,
}

/// The passes of one frame, in the order they run (composite always runs).
#[derive(Debug, Clone, Copy, PartialEq, Eq, Structural)]
pub struct PostProcessPlan {
    pub depth_resolve: bool,
    pub contact_shadows: bool,
    pub bilateral_blur: bool,
    pub bloom: bool,
    /// Whether the composite pass applies the contact-shadow factor.
    pub composite_with_shadow: bool,
}

/// The resource invariant: images only with their pipeline, a resolved depth
/// source only with the resolve pipeline.
pub open spec fn resources_consistent(r: PostProcessResources) -> bool {
    &&& r.contact_shadow_images ==> r.contact_shadow_pipeline
    &&& r.depth_source == DepthSource::ResolvedFromMsaa ==> r.depth_resolve_pipeline
    &&& r.contact_shadow_images ==> r.depth_source != DepthSource::Unavailable
}

/// Whether contact shadows run, given the setting, the per-frame light flag
/// and the resources held.
pub open spec fn spec_cs_active(enabled: bool, has_light: bool, r: PostProcessResources) -> bool {
    &&& enabled
    &&& has_light
    &&& r.contact_shadow_pipeline
    &&& r.contact_shadow_images
    &&& r.depth_source != DepthSource::Unavailable
    &&& r.normal_input
}

/// The non-GPU state of the post-processing pipeline: its size, which
/// optional resources it holds, the per-frame light flag and the integer and
/// boolean settings.
pub struct PostProcessState {
    pub width: u32,
    pub height: u32,
    pub resources: PostProcessResources,
    /// Whether a directional light was set for contact shadows this frame.
    pub has_light: bool,
    pub enabled: bool,
    pub bloom_enabled: bool,
    pub tonemapping: TonemappingMode,
    pub contact_shadows_enabled: bool,
    pub contact_shadows_step_count: i32,
    pub contact_shadows_debug: i32,
}

impl PostProcessState {
    pub open spec fn wf(&self) -> bool {
        resources_consistent(self.resources)
    }

    /// Contact shadows run when enabled, a directional light was set this
    /// frame, and the pipeline, its images, depth and normals are all present.
    pub open spec fn spec_contact_shadows_active(&self) -> bool {
        spec_cs_active(self.contact_shadows_enabled, self.has_light, self.resources)
    }

    /// The state after creation: bloom on, ACES, contact shadows off (24
    /// steps, debug view 0), no light yet.
    pub fn new(views: InputViews, width: u32, height: u32) -> (s: Self)
        ensures
            s.wf(),
            s.width == width,
            s.height == height,
            s.resources == spec_initial_resources(views),
            !s.has_light,
            s.enabled,
            s.bloom_enabled,
            s.tonemapping == TonemappingMode::ACES,
            !s.contact_shadows_enabled,
            s.contact_shadows_step_count == 24,
            s.contact_shadows_debug == 0,
    {
        let any_depth = views.has_scene_depth || views.has_msaa_depth;
        PostProcessState {
            width,
            height,
            resources: PostProcessResources {
                contact_shadow_pipeline: any_depth,
                contact_shadow_images: any_depth,
                depth_resolve_pipeline: views.has_msaa_depth,
                depth_source: depth_source_of(views),
                normal_input: views.has_normal,
            },
            has_light: false,
            enabled: true,
            bloom_enabled: true,
            tonemapping: TonemappingMode::ACES,
            contact_shadows_enabled: false,
            contact_shadows_step_count: 24,
            contact_shadows_debug: 0,
        }
    }

    /// Current pipeline dimensions.
    pub fn dimensions(&self) -> (d: (u32, u32))
        ensures
            d == (self.width, self.height),
    {
        (self.width, self.height)
    }

    /// Adopts new inputs and size: at the same size only the input bindings
    /// are redone, otherwise every intermediate image is recreated. Either way
    /// the optional resources follow `spec_rebound_resources`.
    pub fn resize(&mut self, views: InputViews, width: u32, height: u32) -> (k: ResizeKind)
        requires
            old(self).wf(),
        ensures
            final(self).wf(),
            k == (if width == old(self).width && height == old(self).height {
                ResizeKind::RebindOnly
            } else {
                ResizeKind::Recreate
            }),
            final(self).width == width,
            final(self).height == height,
            final(self).resources == spec_rebound_resources(old(self).resources, views),
            final(self).has_light == old(self).has_light,
            final(self).enabled == old(self).enabled,
            final(self).bloom_enabled == old(self).bloom_enabled,
            final(self).tonemapping == old(self).tonemapping,
            final(self).contact_shadows_enabled == old(self).contact_shadows_enabled,
            final(self).contact_shadows_step_count == old(self).contact_shadows_step_count,
            final(self).contact_shadows_debug == old(self).contact_shadows_debug,
    {
        let kind = if width == self.width && height == self.height {
            ResizeKind::RebindOnly
        } else {
            ResizeKind::Recreate
        };
        let any_depth = views.has_scene_depth || views.has_msaa_depth;
        let old_res = self.resources;
        self.resources = PostProcessResources {
            contact_shadow_pipeline: old_res.contact_shadow_pipeline,
            contact_shadow_images: any_depth && old_res.contact_shadow_pipeline,
            depth_resolve_pipeline: old_res.depth_resolve_pipeline || views.has_msaa_depth,
            depth_source: depth_source_of(views),
            normal_input: views.has_normal,
        };
        self.width = width;
        self.height = height;
        kind
    }

    /// Records that a directional light was set for contact shadows this frame.
    pub fn set_contact_shadow_light(&mut self)
        ensures
            final(self).has_light,
            final(self).width == old(self).width,
            final(self).height == old(self).height,
            final(self).resources == old(self).resources,
            final(self).wf() == old(self).wf(),
            final(self).enabled == old(self).enabled,
            final(self).bloom_enabled == old(self).bloom_enabled,
            final(self).tonemapping == old(self).tonemapping,
            final(self).contact_shadows_enabled == old(self).contact_shadows_enabled,
            final(self).contact_shadows_step_count == old(self).contact_shadows_step_count,
            final(self).contact_shadows_debug == old(self).contact_shadows_debug,
    {
        self.has_light = true;
    }

    /// Clears the per-frame light (no directional light this frame).
    pub fn clear_contact_shadow_data(&mut self)
        ensures
            !final(self).has_light,
            final(self).width == old(self).width,
            final(self).height == old(self).height,
            final(self).resources == old(self).resources,
            final(self).wf() == old(self).wf(),
            final(self).enabled == old(self).enabled,
            final(self).bloom_enabled == old(self).bloom_enabled,
            final(self).tonemapping == old(self).tonemapping,
            final(self).contact_shadows_enabled == old(self).contact_shadows_enabled,
            final(self).contact_shadows_step_count == old(self).contact_shadows_step_count,
            final(self).contact_shadows_debug == old(self).contact_shadows_debug,
    {
        self.has_light = false;
    }

    /// Whether contact shadows run this frame.
    pub fn contact_shadows_active(&self) -> (b: bool)
        ensures
            b == self.spec_contact_shadows_active(),
    {
        self.contact_shadows_enabled && self.has_light && self.resources.contact_shadow_pipeline
            && self.resources.contact_shadow_images && !matches!(
            self.resources.depth_source,
            DepthSource::Unavailable
        ) && self.resources.normal_input
    }

    /// The passes of one frame. MSAA depth is resolved first when contact
    /// shadows run on a resolved depth source; the bilateral blur follows the
    /// contact shadows except in a debug view; bloom runs when enabled; the
    /// composite applies the shadow factor exactly when contact shadows ran.
    pub fn execution_plan(&self) -> (p: PostProcessPlan)
        requires
            self.wf(),
        ensures
            p.contact_shadows == self.spec_contact_shadows_active(),
            p.depth_resolve == (self.spec_contact_shadows_active()
                && self.resources.depth_source == DepthSource::ResolvedFromMsaa),
            p.depth_resolve ==> self.resources.depth_resolve_pipeline,
            p.bilateral_blur == (self.spec_contact_shadows_active() && self.contact_shadows_debug == 0),
            p.bloom == self.bloom_enabled,
            p.composite_with_shadow == p.contact_shadows,
    {
        let active = self.contact_shadows_active();
        let resolved = matches!(self.resources.depth_source, DepthSource::ResolvedFromMsaa);
        PostProcessPlan {
            depth_resolve: active && resolved,
            contact_shadows: active,
            bilateral_blur: active && self.contact_shadows_debug == 0,
            bloom: self.bloom_enabled,
            composite_with_shadow: active,
        }
    }
}

/// The depth source for the given inputs.
pub fn depth_source_of(views: InputViews) -> (d: DepthSource)
    ensures
        d == spec_depth_source(views),
{
    if views.has_msaa_depth {
        DepthSource::ResolvedFromMsaa
    } else if views.has_scene_depth {
        DepthSource::Direct
    } else {
        DepthSource::Unavailable
    }
}

/// Rebinding the same inputs twice leaves the resources as one rebinding did.
pub proof fn lemma_rebind_idempotent(r: PostProcessResources, views: InputViews)
    ensures
        spec_rebound_resources(spec_rebound_resources(r, views), views) == spec_rebound_resources(r, views),
{
}

/// Rebinding right after creation with the same inputs changes nothing.
pub proof fn lemma_rebind_after_new_is_noop(views: InputViews)
    ensures
        spec_rebound_resources(spec_initial_resources(views), views) == spec_initial_resources(views),
{
}

/// Without depth at creation, contact shadows never become available, whatever
/// inputs later rebinds bring.
pub proof fn lemma_no_depth_at_creation_is_permanent(first: InputViews, later: InputViews)
    requires
        !spec_has_any_depth(first),
    ensures
        !spec_rebound_resources(spec_initial_resources(first), later).contact_shadow_images,
        !spec_rebound_resources(spec_initial_resources(first), later).contact_shadow_pipeline,
{
}

} // verus!
