//! Renderer-wide modes: the backend, the camera projection kind, wireframe
//! visualisation, and which cached 3D mesh pipeline a draw uses.
use vstd::prelude::*;

verus! {

/// Which rendering API the engine is using.
#[derive(Debug, Clone, Copy, PartialEq, Eq, Structural)]
pub enum RendererBackend {
    /// No rendering API.
    NoBackend,
    /// Vulkan.
    Vulkan,
}

impl RendererBackend {
    /// The backend this build renders with.
    pub fn current() -> (b: Self)
        ensures
            b == RendererBackend::Vulkan,
    {
        RendererBackend::Vulkan
    }

    /// Display name of the backend.
    pub fn to_string(&self) -> (s: String)
        ensures
            *self == RendererBackend::NoBackend ==> s@ == "None"@,
            *self == RendererBackend::Vulkan ==> s@ == "Vulkan"@,
    {
        match self {
            RendererBackend::NoBackend => String::from_str("None"),
            RendererBackend::Vulkan => String::from_str("Vulkan"),
        }
    }
}

/// Camera projection kind.
#[derive(Debug, Clone, Copy, PartialEq, Eq, Structural)]
pub enum ProjectionType {
    Perspective,
    Orthographic,
}

impl Default for ProjectionType {
    fn default() -> (p: Self)
        ensures
            p == ProjectionType::Orthographic,
    {
        ProjectionType::Orthographic
    }
}

/// The stored number of a projection kind.
pub open spec fn spec_projection_code(p: ProjectionType) -> i32 {
    match p {
        ProjectionType::Perspective => 0,
        ProjectionType::Orthographic => 1,
    }
}

/// The projection kind a stored number names, if any.
pub open spec fn spec_projection_from_code(i: i32) -> Option<ProjectionType> {
    if i == 0 {
        Some(ProjectionType::Perspective)
    } else if i == 1 {
        Some(ProjectionType::Orthographic)
    } else {
        None
    }
}

impl ProjectionType {
    /// The stored number of the kind: 0 for perspective, 1 for orthographic.
    pub fn to_int(self) -> (i: i32)
        ensures
            i == spec_projection_code(self),
    {
        match self {
            ProjectionType::Perspective => 0,
            ProjectionType::Orthographic => 1,
        }
    }

    /// The kind stored as `i`, if `i` names one.
    pub fn from_int(i: i32) -> (p: Option<Self>)
        ensures
            p == spec_projection_from_code(i),
    {
        if i == 0 {
            Some(ProjectionType::Perspective)
        } else if i == 1 {
            Some(ProjectionType::Orthographic)
        } else {
            None
        }
    }
}

/// Reading back the stored number of a kind gives the kind, and a number
/// that names a kind is that kind's number.
pub proof fn lemma_projection_code_round_trip(p: ProjectionType, i: i32)
    ensures
        spec_projection_from_code(spec_projection_code(p)) == Some(p),
        spec_projection_from_code(i) is Some ==> spec_projection_code(spec_projection_from_code(i)->0) == i,
{
}

/// How wireframe rendering is applied.
#[derive(Debug, Clone, Copy, PartialEq, Eq, Structural)]
pub enum WireframeMode {
    /// Normal filled rendering.
    Off,
    /// All geometry drawn as lines only.
    WireOnly,
    /// Geometry drawn filled, then as lines on top.
    Overlay,
}

impl Default for WireframeMode {
    fn default() -> (m: Self)
        ensures
            m == WireframeMode::Off,
    {
        WireframeMode::Off
    }
}

/// The wireframe mode and whether the current draw pass draws lines.
pub struct WireframeState {
    mode: WireframeMode,
    active: bool,
}

impl WireframeState {
    pub closed spec fn spec_mode(&self) -> WireframeMode {
        self.mode
    }

    pub closed spec fn spec_active(&self) -> bool {
        self.active
    }

    /// Filled rendering, no wireframe pass active.
    pub fn new() -> (s: Self)
        ensures
            s.spec_mode() == WireframeMode::Off,
            !s.spec_active(),
    {
        WireframeState { mode: WireframeMode::Off, active: false }
    }

    /// Sets the mode; lines are drawn from now on exactly in `WireOnly`.
    pub fn set_wireframe_mode(&mut self, mode: WireframeMode)
        ensures
            final(self).spec_mode() == mode,
            final(self).spec_active() == (mode == WireframeMode::WireOnly),
    {
        self.mode = mode;
        self.active = match mode {
            WireframeMode::WireOnly => true,
            _ => false,
        };
    }

    /// The current mode.
    pub fn wireframe_mode(&self) -> (m: WireframeMode)
        ensures
            m == self.spec_mode(),
    {
        self.mode
    }

    /// Switches line drawing on or off for the next pass (the overlay pass
    /// draws filled, then switches it on), leaving the mode alone.
    pub fn set_wireframe_active(&mut self, wireframe: bool)
        ensures
            final(self).spec_mode() == old(self).spec_mode(),
            final(self).spec_active() == wireframe,
    {
        self.active = wireframe;
    }

    /// Whether the current pass draws lines.
    pub fn wireframe_active(&self) -> (b: bool)
        ensures
            b == self.spec_active(),
    {
        self.active
    }
}

/// The render pass a 3D mesh pipeline is built for.
#[derive(Debug, Clone, Copy, PartialEq, Eq, Structural)]
pub enum MeshTarget {
    /// The offscreen scene framebuffer.
    Offscreen,
    /// The swapchain.
    Swapchain,
}

/// One of the four cached 3D mesh pipelines.
#[derive(Debug, Clone, Copy, PartialEq, Eq, Structural)]
pub struct Mesh3dVariant {
    pub target: MeshTarget,
    pub wireframe: bool,
}

/// What a request for a mesh pipeline needs.
#[derive(Debug, Clone, Copy, PartialEq, Eq, Structural)]
pub enum PipelineRequest {
    /// The variant is cached: use it.
    Cached(Mesh3dVariant),
    /// The variant must be built (then recorded with `record_built`).
    Build(Mesh3dVariant),
    /// Offscreen rendering was chosen but no offscreen render pass was set.
    MissingOffscreenPass,
}

/// Which 3D mesh pipelines are cached, which target draws use, and whether
/// an offscreen render pass is known.
pub struct Mesh3dPipelineCache {
    offscreen_fill: bool,
    offscreen_wire: bool,
    swapchain_fill: bool,
    swapchain_wire: bool,
    use_offscreen: bool,
    has_offscreen_pass: bool,
}

impl Mesh3dPipelineCache {
    /// Whether `v` is cached.
    pub closed spec fn spec_cached(&self, v: Mesh3dVariant) -> bool {
        match (v.target, v.wireframe) {
            (MeshTarget::Offscreen, false) => self.offscreen_fill,
            (MeshTarget::Offscreen, true) => self.offscreen_wire,
            (MeshTarget::Swapchain, false) => self.swapchain_fill,
            (MeshTarget::Swapchain, true) => self.swapchain_wire,
        }
    }

    pub closed spec fn spec_use_offscreen(&self) -> bool {
        self.use_offscreen
    }

    pub closed spec fn spec_has_offscreen_pass(&self) -> bool {
        self.has_offscreen_pass
    }

    /// The answer a request with line drawing `wireframe` gets.
    pub open spec fn spec_request(&self, wireframe: bool) -> PipelineRequest {
        let v = Mesh3dVariant {
            target: if self.spec_use_offscreen() { MeshTarget::Offscreen } else { MeshTarget::Swapchain },
            wireframe,
        };
        if self.spec_cached(v) {
            PipelineRequest::Cached(v)
        } else if self.spec_use_offscreen() && !self.spec_has_offscreen_pass() {
            PipelineRequest::MissingOffscreenPass
        } else {
            PipelineRequest::Build(v)
        }
    }

    /// Nothing cached, swapchain target, no offscreen pass.
    pub fn new() -> (c: Self)
        ensures
            forall|v: Mesh3dVariant| !c.spec_cached(v),
            !c.spec_use_offscreen(),
            !c.spec_has_offscreen_pass(),
    {
        Mesh3dPipelineCache {
            offscreen_fill: false,
            offscreen_wire: false,
            swapchain_fill: false,
            swapchain_wire: false,
            use_offscreen: false,
            has_offscreen_pass: false,
        }
    }

    /// Chooses the target that later draws use.
    pub fn set_use_offscreen(&mut self, use_offscreen: bool)
        ensures
            final(self).spec_use_offscreen() == use_offscreen,
            final(self).spec_has_offscreen_pass() == old(self).spec_has_offscreen_pass(),
            forall|v: Mesh3dVariant| final(self).spec_cached(v) == old(self).spec_cached(v),
    {
        self.use_offscreen = use_offscreen;
    }

    /// Records a new offscreen render pass: the cached offscreen pipelines
    /// were built for the old one and are dropped; the swapchain ones stay.
    pub fn set_offscreen_pass(&mut self)
        ensures
            final(self).spec_has_offscreen_pass(),
            final(self).spec_use_offscreen() == old(self).spec_use_offscreen(),
            forall|v: Mesh3dVariant|
                #![trigger final(self).spec_cached(v)]
                v.target == MeshTarget::Offscreen ==> !final(self).spec_cached(v),
            forall|v: Mesh3dVariant|
                #![trigger final(self).spec_cached(v)]
                v.target == MeshTarget::Swapchain ==> final(self).spec_cached(v) == old(self).spec_cached(v),
    {
        self.has_offscreen_pass = true;
        self.offscreen_fill = false;
        self.offscreen_wire = false;
    }

    /// What drawing with line drawing `wireframe` needs.
    pub fn request(&self, wireframe: bool) -> (r: PipelineRequest)
        ensures
            r == self.spec_request(wireframe),
    {
        let target = if self.use_offscreen {
            MeshTarget::Offscreen
        } else {
            MeshTarget::Swapchain
        };
        let v = Mesh3dVariant { target, wireframe };
        let cached = if self.use_offscreen {
            if wireframe {
                self.offscreen_wire
            } else {
                self.offscreen_fill
            }
        } else {
            if wireframe {
                self.swapchain_wire
            } else {
                self.swapchain_fill
            }
        };
        if cached {
            PipelineRequest::Cached(v)
        } else if self.use_offscreen && !self.has_offscreen_pass {
            PipelineRequest::MissingOffscreenPass
        } else {
            PipelineRequest::Build(v)
        }
    }

    /// Records that `v` was built and cached.
    pub fn record_built(&mut self, v: Mesh3dVariant)
        ensures
            final(self).spec_cached(v),
            forall|w: Mesh3dVariant| #![trigger final(self).spec_cached(w)]
                w != v ==> final(self).spec_cached(w) == old(self).spec_cached(w),
            final(self).spec_use_offscreen() == old(self).spec_use_offscreen(),
            final(self).spec_has_offscreen_pass() == old(self).spec_has_offscreen_pass(),
    {
        match (v.target, v.wireframe) {
            (MeshTarget::Offscreen, false) => self.offscreen_fill = true,
            (MeshTarget::Offscreen, true) => self.offscreen_wire = true,
            (MeshTarget::Swapchain, false) => self.swapchain_fill = true,
            (MeshTarget::Swapchain, true) => self.swapchain_wire = true,
        }
    }
}

/// A pipeline that was built and recorded is served from the cache on the
/// next request with the same target and line setting.
pub proof fn lemma_built_pipeline_is_reused(c: Mesh3dPipelineCache, after: Mesh3dPipelineCache, wireframe: bool)
    requires
        after.spec_use_offscreen() == c.spec_use_offscreen(),
        after.spec_has_offscreen_pass() == c.spec_has_offscreen_pass(),
        c.spec_request(wireframe) is Build,
        after.spec_cached(c.spec_request(wireframe)->Build_0),
    ensures
        after.spec_request(wireframe) == PipelineRequest::Cached(c.spec_request(wireframe)->Build_0),
{
}

} // verus!
