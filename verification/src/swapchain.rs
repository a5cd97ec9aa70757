//! Swapchain configuration decisions: present mode fallbacks, surface
//! format, extent, image count, depth format, and frames in flight.
use vstd::prelude::*;
use crate::vk_codes::{
    COLOR_SPACE_SRGB_NONLINEAR, FORMAT_B8G8R8A8_SRGB, FORMAT_D24_UNORM_S8_UINT, FORMAT_D32_SFLOAT,
    FORMAT_D32_SFLOAT_S8_UINT, FORMAT_FEATURE_DEPTH_STENCIL_ATTACHMENT, PRESENT_MODE_FIFO,
    PRESENT_MODE_IMMEDIATE, PRESENT_MODE_MAILBOX,
};

verus! {

/// Maximum number of frames that can be in flight simultaneously.
pub const MAX_FRAMES_IN_FLIGHT: usize = 2;

/// Maximum number of viewports (offscreen framebuffers) rendered per frame.
pub const MAX_VIEWPORTS: usize = 4;

// ---------------------------------------------------------------------------
// PresentMode
// ---------------------------------------------------------------------------

/// Desired presentation mode for the swapchain.
#[derive(Debug, Clone, Copy, PartialEq, Eq, Structural)]
pub enum PresentMode {
    /// VSync — guaranteed available on all drivers.
    Fifo,
    /// Triple-buffered, no vsync. Falls back to Immediate, then Fifo.
    Mailbox,
    /// Immediate (tearing allowed). Falls back to Mailbox, then Fifo.
    Immediate,
}

impl Default for PresentMode {
    fn default() -> (r: Self)
        ensures
            r == PresentMode::Fifo,
    {
        PresentMode::Fifo
    }
}

/// The display name of a present mode.
pub open spec fn spec_present_mode_name(m: PresentMode) -> Seq<char> {
    match m {
        PresentMode::Fifo => "Fifo (VSync)"@,
        PresentMode::Mailbox => "Mailbox (Triple-buffered)"@,
        PresentMode::Immediate => "Immediate (No VSync)"@,
    }
}

impl PresentMode {
    /// The display name.
    pub fn to_string(&self) -> (r: String)
        ensures
            r@ == spec_present_mode_name(*self),
    {
        match self {
            PresentMode::Fifo => "Fifo (VSync)".to_owned(),
            PresentMode::Mailbox => "Mailbox (Triple-buffered)".to_owned(),
            PresentMode::Immediate => "Immediate (No VSync)".to_owned(),
        }
    }
}

/// The `VkPresentModeKHR` used for a desired mode given the modes the
/// surface offers: FIFO as asked; Mailbox, else Immediate, else FIFO; or
/// Immediate, else Mailbox, else FIFO.
pub open spec fn spec_resolve_present_mode(desired: PresentMode, available: Seq<i32>) -> i32 {
    match desired {
        PresentMode::Fifo => PRESENT_MODE_FIFO,
        PresentMode::Mailbox => if available.contains(PRESENT_MODE_MAILBOX) {
            PRESENT_MODE_MAILBOX
        } else if available.contains(PRESENT_MODE_IMMEDIATE) {
            PRESENT_MODE_IMMEDIATE
        } else {
            PRESENT_MODE_FIFO
        },
        PresentMode::Immediate => if available.contains(PRESENT_MODE_IMMEDIATE) {
            PRESENT_MODE_IMMEDIATE
        } else if available.contains(PRESENT_MODE_MAILBOX) {
            PRESENT_MODE_MAILBOX
        } else {
            PRESENT_MODE_FIFO
        },
    }
}

/// Whether `v` occurs in `s`.
fn contains_i32(s: &[i32], v: i32) -> (r: bool)
    ensures
        r == s@.contains(v),
{
    let mut i: usize = 0;
    while i < s.len()
        invariant
            i <= s@.len(),
            forall|k: int| 0 <= k < i ==> s@[k] != v,
        decreases s@.len() - i,
    {
        if s[i] == v {
            assert(s@[i as int] == v);
            return true;
        }
        i += 1;
    }
    false
}

/// Pick the present mode for a desired mode among the available ones.
pub fn resolve_present_mode(desired: PresentMode, available: &[i32]) -> (r: i32)
    ensures
        r == spec_resolve_present_mode(desired, available@),
{
    match desired {
        PresentMode::Fifo => PRESENT_MODE_FIFO,
        PresentMode::Mailbox => {
            if contains_i32(available, PRESENT_MODE_MAILBOX) {
                PRESENT_MODE_MAILBOX
            } else if contains_i32(available, PRESENT_MODE_IMMEDIATE) {
                PRESENT_MODE_IMMEDIATE
            } else {
                PRESENT_MODE_FIFO
            }
        },
        PresentMode::Immediate => {
            if contains_i32(available, PRESENT_MODE_IMMEDIATE) {
                PRESENT_MODE_IMMEDIATE
            } else if contains_i32(available, PRESENT_MODE_MAILBOX) {
                PRESENT_MODE_MAILBOX
            } else {
                PRESENT_MODE_FIFO
            }
        },
    }
}

/// A request is honoured whenever the surface offers it: FIFO is always
/// used as asked, Mailbox whenever MAILBOX is offered, Immediate whenever
/// IMMEDIATE is offered. Only an absent request falls back, and then to the
/// other low-latency mode when that is offered, else to FIFO.
pub proof fn lemma_present_mode_honours_request(desired: PresentMode, available: Seq<i32>)
    ensures
        ({
            let r = spec_resolve_present_mode(desired, available);
            &&& desired is Fifo ==> r == PRESENT_MODE_FIFO
            &&& desired is Mailbox && available.contains(PRESENT_MODE_MAILBOX) ==> r == PRESENT_MODE_MAILBOX
            &&& desired is Immediate && available.contains(PRESENT_MODE_IMMEDIATE) ==> r
                == PRESENT_MODE_IMMEDIATE
            &&& desired is Mailbox && !available.contains(PRESENT_MODE_MAILBOX) ==> r
                == if available.contains(PRESENT_MODE_IMMEDIATE) {
                PRESENT_MODE_IMMEDIATE
            } else {
                PRESENT_MODE_FIFO
            }
            &&& desired is Immediate && !available.contains(PRESENT_MODE_IMMEDIATE) ==> r
                == if available.contains(PRESENT_MODE_MAILBOX) {
                PRESENT_MODE_MAILBOX
            } else {
                PRESENT_MODE_FIFO
            }
        }),
{
}

/// The resolved present mode is always one the surface offers, or FIFO,
/// which every surface supports.
pub proof fn lemma_present_mode_available(desired: PresentMode, available: Seq<i32>)
    ensures
        spec_resolve_present_mode(desired, available) == PRESENT_MODE_FIFO || available.contains(
            spec_resolve_present_mode(desired, available),
        ),
{
}

// ---------------------------------------------------------------------------
// Surface format, extent, image count
// ---------------------------------------------------------------------------

/// A surface format: `VkFormat` and `VkColorSpaceKHR` values.
#[derive(Debug, Clone, Copy, PartialEq, Eq, Structural)]
pub struct SurfaceFormat {
    pub format: i32,
    pub color_space: i32,
}

/// The preferred surface format: 8-bit BGRA sRGB with the sRGB non-linear
/// color space.
pub open spec fn is_preferred_format(f: SurfaceFormat) -> bool {
    f.format == FORMAT_B8G8R8A8_SRGB && f.color_space == COLOR_SPACE_SRGB_NONLINEAR
}

/// The first preferred format offered, else the first format offered.
pub fn choose_surface_format(formats: &[SurfaceFormat]) -> (r: SurfaceFormat)
    requires
        formats@.len() > 0,
    ensures
        (exists|i: int| 0 <= i < formats@.len() && is_preferred_format(formats@[i])) ==> {
            &&& is_preferred_format(r)
            &&& exists|i: int|
                0 <= i < formats@.len() && formats@[i] == r && forall|j: int|
                    0 <= j < i ==> !is_preferred_format(#[trigger] formats@[j])
        },
        !(exists|i: int| 0 <= i < formats@.len() && is_preferred_format(formats@[i])) ==> r
            == formats@[0],
{
    let mut i: usize = 0;
    while i < formats.len()
        invariant
            i <= formats@.len(),
            forall|j: int| 0 <= j < i ==> !is_preferred_format(#[trigger] formats@[j]),
        decreases formats@.len() - i,
    {
        let f = formats[i];
        if f.format == FORMAT_B8G8R8A8_SRGB && f.color_space == COLOR_SPACE_SRGB_NONLINEAR {
            return f;
        }
        i += 1;
    }
    formats[0]
}

/// `v` limited to `[lo, hi]`.
pub open spec fn spec_clamp(v: u32, lo: u32, hi: u32) -> u32 {
    if v < lo {
        lo
    } else if v > hi {
        hi
    } else {
        v
    }
}

/// The swapchain extent: the window size clamped to the surface's limits.
pub fn clamp_extent(width: u32, height: u32, min: (u32, u32), max: (u32, u32)) -> (r: (u32, u32))
    requires
        min.0 <= max.0,
        min.1 <= max.1,
    ensures
        r == (spec_clamp(width, min.0, max.0), spec_clamp(height, min.1, max.1)),
{
    let w = if width < min.0 {
        min.0
    } else if width > max.0 {
        max.0
    } else {
        width
    };
    let h = if height < min.1 {
        min.1
    } else if height > max.1 {
        max.1
    } else {
        height
    };
    (w, h)
}

/// Images to ask for: one more than the minimum, but no more than the
/// maximum when the surface has one (0 means no maximum).
pub fn swapchain_image_count(min_image_count: u32, max_image_count: u32) -> (r: u32)
    requires
        min_image_count < u32::MAX,
    ensures
        r == (if max_image_count > 0 && min_image_count + 1 > max_image_count {
            max_image_count
        } else {
            (min_image_count + 1) as u32
        }),
{
    let mut image_count = min_image_count + 1;
    if max_image_count > 0 && image_count > max_image_count {
        image_count = max_image_count;
    }
    image_count
}

// ---------------------------------------------------------------------------
// Depth format
// ---------------------------------------------------------------------------

/// The depth formats tried, in order of preference.
pub open spec fn depth_candidates() -> Seq<i32> {
    seq![FORMAT_D32_SFLOAT, FORMAT_D32_SFLOAT_S8_UINT, FORMAT_D24_UNORM_S8_UINT]
}

/// The depth formats tried, in order of preference.
pub fn depth_format_candidates() -> (r: [i32; 3])
    ensures
        r@ == depth_candidates(),
{
    let r = [FORMAT_D32_SFLOAT, FORMAT_D32_SFLOAT_S8_UINT, FORMAT_D24_UNORM_S8_UINT];
    assert(r@ =~= depth_candidates());
    r
}

/// Whether optimal-tiling features allow depth/stencil attachments.
pub open spec fn supports_depth(features: u32) -> bool {
    features & FORMAT_FEATURE_DEPTH_STENCIL_ATTACHMENT == FORMAT_FEATURE_DEPTH_STENCIL_ATTACHMENT
}

/// The first candidate depth format whose optimal-tiling features (given
/// in candidate order) allow depth/stencil attachments, if any.
pub fn choose_depth_format(features: [u32; 3]) -> (r: Option<i32>)
    ensures
        r == (if supports_depth(features@[0]) {
            Some(depth_candidates()[0])
        } else if supports_depth(features@[1]) {
            Some(depth_candidates()[1])
        } else if supports_depth(features@[2]) {
            Some(depth_candidates()[2])
        } else {
            None
        }),
{
    let candidates = depth_format_candidates();
    let mut i: usize = 0;
    while i < 3
        invariant
            i <= 3,
            candidates@ == depth_candidates(),
            forall|k: int| 0 <= k < i ==> !supports_depth(#[trigger] features@[k]),
        decreases 3 - i,
    {
        if features[i] & FORMAT_FEATURE_DEPTH_STENCIL_ATTACHMENT == FORMAT_FEATURE_DEPTH_STENCIL_ATTACHMENT {
            return Some(candidates[i]);
        }
        i += 1;
    }
    None
}

// ---------------------------------------------------------------------------
// Frames in flight
// ---------------------------------------------------------------------------

/// The frame-in-flight slot being recorded.
pub struct FrameCounter {
    current: usize,
}

impl FrameCounter {
    /// The current slot.
    pub closed spec fn spec_current(&self) -> usize {
        self.current
    }

    /// Starts at slot 0.
    pub fn new() -> (r: Self)
        ensures
            r.spec_current() == 0,
    {
        FrameCounter { current: 0 }
    }

    /// The current slot.
    pub fn current_frame(&self) -> (r: usize)
        ensures
            r == self.spec_current(),
    {
        self.current
    }

    /// Move to the next slot, wrapping after the last.
    pub fn advance_frame(&mut self)
        requires
            old(self).spec_current() < MAX_FRAMES_IN_FLIGHT,
        ensures
            final(self).spec_current() == (old(self).spec_current() + 1) % (MAX_FRAMES_IN_FLIGHT as int),
            final(self).spec_current() < MAX_FRAMES_IN_FLIGHT,
    {
        self.current = (self.current + 1) % MAX_FRAMES_IN_FLIGHT;
    }
}

/// Advancing through all frames in flight returns to the same slot.
pub proof fn lemma_frames_cycle(c: int)
    requires
        0 <= c < MAX_FRAMES_IN_FLIGHT,
    ensures
        ((c + 1) % (MAX_FRAMES_IN_FLIGHT as int) + 1) % (MAX_FRAMES_IN_FLIGHT as int) == c,
{
}

/// The uniform buffer slot of a (frame, viewport) pair: frames are the
/// outer index, viewports the inner.
pub open spec fn spec_ubo_slot(frame: int, viewport: int) -> int {
    frame * MAX_VIEWPORTS + viewport
}

/// The uniform buffer slot of a (frame, viewport) pair.
pub fn ubo_slot(current_frame: usize, viewport_index: usize) -> (r: usize)
    requires
        current_frame < MAX_FRAMES_IN_FLIGHT,
        viewport_index < MAX_VIEWPORTS,
    ensures
        r == spec_ubo_slot(current_frame as int, viewport_index as int),
        r < MAX_FRAMES_IN_FLIGHT * MAX_VIEWPORTS,
{
    current_frame * MAX_VIEWPORTS + viewport_index
}

/// Distinct (frame, viewport) pairs use distinct uniform buffer slots.
pub proof fn lemma_ubo_slots_distinct(f1: int, v1: int, f2: int, v2: int)
    requires
        0 <= f1 < MAX_FRAMES_IN_FLIGHT,
        0 <= f2 < MAX_FRAMES_IN_FLIGHT,
        0 <= v1 < MAX_VIEWPORTS,
        0 <= v2 < MAX_VIEWPORTS,
        spec_ubo_slot(f1, v1) == spec_ubo_slot(f2, v2),
    ensures
        f1 == f2 && v1 == v2,
{
}

} // verus!
