//! Image-based lighting: the sizes of the preprocessed cubemaps, the compute
//! dispatches of the preprocessing chain, the mip blit chain of a cubemap and
//! which textures are bound before and after an environment is loaded.
use vstd::prelude::*;

verus! {

/// Side of the environment cubemap produced from the equirectangular image.
pub const ENV_CUBEMAP_SIZE: u32 = 1024;

/// Side of the diffuse irradiance cubemap.
pub const IRRADIANCE_SIZE: u32 = 64;

/// Side of mip 0 of the pre-filtered specular cubemap.
pub const PREFILTER_SIZE: u32 = 1024;

/// Mip levels of the pre-filtered cubemap (roughness 0 at mip 0 to 1 at the last).
pub const PREFILTER_MIP_LEVELS: u32 = 9;

/// Side of the BRDF integration lookup table.
pub const BRDF_LUT_SIZE: u32 = 256;

/// Faces of a cubemap.
pub const CUBEMAP_FACES: u32 = 6;

/// Samples the pre-filter shader takes per texel, at every mip.
pub const PREFILTER_SAMPLE_COUNT: i32 = 1024;

/// Work-group side of the equirect-to-cube and pre-filter shaders.
pub const LARGE_GROUP: u32 = 16;

/// Work-group side of the irradiance shader.
pub const SMALL_GROUP: u32 = 8;

/// Highest pre-filter mip level, for the roughness LOD in the shader.
pub fn max_prefilter_mip() -> (m: i32)
    ensures
        m == PREFILTER_MIP_LEVELS - 1,
{
    (PREFILTER_MIP_LEVELS - 1) as i32
}

/// Number of work groups that cover `size` texels with groups of `group`.
pub open spec fn spec_group_count(size: nat, group: nat) -> nat
    recommends
        group > 0,
{
    ((size + group - 1) / group as int) as nat
}

/// Work groups along one side: `size` divided by `group`, rounded up.
pub fn group_count(size: u32, group: u32) -> (g: u32)
    requires
        group > 0,
        size + group - 1 <= u32::MAX,
    ensures
        g == spec_group_count(size as nat, group as nat),
        g * group >= size,
        size > 0 ==> (g - 1) * group < size,
{
    let g = (size + (group - 1)) / group;
    assert(g * group >= size && (size > 0 ==> (g - 1) * group < size)) by (nonlinear_arith)
        requires
            g == (size + group - 1) / (group as int),
            group > 0,
    ;
    g
}

/// Side of pre-filter mip `mip`: the base side halved `mip` times, at least 1.
pub open spec fn spec_prefilter_mip_size(mip: nat) -> nat
    decreases mip,
{
    if mip == 0 {
        PREFILTER_SIZE as nat
    } else {
        let prev = spec_prefilter_mip_size((mip - 1) as nat);
        if prev / 2 >= 1 { prev / 2 } else { 1 }
    }
}

/// The pre-filter mips shrink from the base side and never reach zero.
pub proof fn lemma_prefilter_sizes_bounded(mip: nat)
    ensures
        1 <= spec_prefilter_mip_size(mip) <= PREFILTER_SIZE,
    decreases mip,
{
    if mip > 0 {
        lemma_prefilter_sizes_bounded((mip - 1) as nat);
    }
}

/// Side of pre-filter mip `mip`.
pub fn prefilter_mip_size(mip: u32) -> (s: u32)
    requires
        mip < PREFILTER_MIP_LEVELS,
    ensures
        s == spec_prefilter_mip_size(mip as nat),
{
    let mut s: u32 = PREFILTER_SIZE;
    let mut i: u32 = 0;
    while i < mip
        invariant
            i <= mip,
            s == spec_prefilter_mip_size(i as nat),
        decreases mip - i,
    {
        s = if s / 2 >= 1 { s / 2 } else { 1 };
        i = i + 1;
    }
    s
}

/// The compute shader of a preprocessing dispatch.
#[derive(Debug, Clone, Copy, PartialEq, Eq, Structural)]
pub enum IblStage {
    /// Equirectangular image to environment cubemap.
    EquirectToCube,
    /// Diffuse irradiance convolution.
    Irradiance,
    /// Specular pre-filter of one mip.
    Prefilter,
}

/// One compute dispatch of the preprocessing chain: `groups` x `groups` x 1
/// work groups writing `face` of mip `mip`, which is `face_size` texels wide.
#[derive(Debug, Clone, Copy, PartialEq, Eq, Structural)]
pub struct IblDispatch {
    pub stage: IblStage,
    pub face: u32,
    pub mip: u32,
    pub face_size: u32,
    pub groups: u32,
    pub sample_count: i32,
}

/// Dispatch `k` of the chain: six equirect-to-cube faces, six irradiance
/// faces, then each pre-filter mip's six faces.
pub open spec fn spec_ibl_dispatch(k: int) -> IblDispatch {
    if k < CUBEMAP_FACES {
        IblDispatch {
            stage: IblStage::EquirectToCube,
            face: k as u32,
            mip: 0,
            face_size: ENV_CUBEMAP_SIZE,
            groups: spec_group_count(ENV_CUBEMAP_SIZE as nat, LARGE_GROUP as nat) as u32,
            sample_count: 0,
        }
    } else if k < 2 * CUBEMAP_FACES {
        IblDispatch {
            stage: IblStage::Irradiance,
            face: (k - CUBEMAP_FACES) as u32,
            mip: 0,
            face_size: IRRADIANCE_SIZE,
            groups: spec_group_count(IRRADIANCE_SIZE as nat, SMALL_GROUP as nat) as u32,
            sample_count: 0,
        }
    } else {
        let j = k - 2 * CUBEMAP_FACES;
        let mip = (j / CUBEMAP_FACES as int) as nat;
        IblDispatch {
            stage: IblStage::Prefilter,
            face: (j % CUBEMAP_FACES as int) as u32,
            mip: mip as u32,
            face_size: spec_prefilter_mip_size(mip) as u32,
            groups: spec_group_count(spec_prefilter_mip_size(mip), LARGE_GROUP as nat) as u32,
            sample_count: PREFILTER_SAMPLE_COUNT,
        }
    }
}

/// Number of dispatches in the chain.
pub open spec fn spec_ibl_dispatch_count() -> nat {
    (2 * CUBEMAP_FACES + PREFILTER_MIP_LEVELS * CUBEMAP_FACES) as nat
}

/// The dispatches of the preprocessing chain, in the order they are recorded.
pub fn ibl_dispatch_plan() -> (v: Vec<IblDispatch>)
    ensures
        v.len() == spec_ibl_dispatch_count(),
        forall|k: int| 0 <= k < v.len() ==> #[trigger] v@[k] == spec_ibl_dispatch(k),
{
    let mut v: Vec<IblDispatch> = Vec::new();
    let big_groups = group_count(ENV_CUBEMAP_SIZE, LARGE_GROUP);
    let mut face: u32 = 0;
    while face < CUBEMAP_FACES
        invariant
            face <= CUBEMAP_FACES,
            v.len() == face,
            big_groups == spec_group_count(ENV_CUBEMAP_SIZE as nat, LARGE_GROUP as nat),
            forall|k: int| 0 <= k < v.len() ==> #[trigger] v@[k] == spec_ibl_dispatch(k),
        decreases CUBEMAP_FACES - face,
    {
        v.push(IblDispatch {
            stage: IblStage::EquirectToCube,
            face,
            mip: 0,
            face_size: ENV_CUBEMAP_SIZE,
            groups: big_groups,
            sample_count: 0,
        });
        face = face + 1;
    }
    let irr_groups = group_count(IRRADIANCE_SIZE, SMALL_GROUP);
    face = 0;
    while face < CUBEMAP_FACES
        invariant
            face <= CUBEMAP_FACES,
            v.len() == CUBEMAP_FACES + face,
            irr_groups == spec_group_count(IRRADIANCE_SIZE as nat, SMALL_GROUP as nat),
            forall|k: int| 0 <= k < v.len() ==> #[trigger] v@[k] == spec_ibl_dispatch(k),
        decreases CUBEMAP_FACES - face,
    {
        v.push(IblDispatch {
            stage: IblStage::Irradiance,
            face,
            mip: 0,
            face_size: IRRADIANCE_SIZE,
            groups: irr_groups,
            sample_count: 0,
        });
        face = face + 1;
    }
    let mut mip: u32 = 0;
    while mip < PREFILTER_MIP_LEVELS
        invariant
            mip <= PREFILTER_MIP_LEVELS,
            v.len() == 2 * CUBEMAP_FACES + mip * CUBEMAP_FACES,
            forall|k: int| 0 <= k < v.len() ==> #[trigger] v@[k] == spec_ibl_dispatch(k),
        decreases PREFILTER_MIP_LEVELS - mip,
    {
        let size = prefilter_mip_size(mip);
        proof {
            lemma_prefilter_sizes_bounded(mip as nat);
        }
        let groups = group_count(size, LARGE_GROUP);
        let mut f: u32 = 0;
        while f < CUBEMAP_FACES
            invariant
                f <= CUBEMAP_FACES,
                mip < PREFILTER_MIP_LEVELS,
                v.len() == 2 * CUBEMAP_FACES + mip * CUBEMAP_FACES + f,
                size == spec_prefilter_mip_size(mip as nat),
                groups == spec_group_count(size as nat, LARGE_GROUP as nat),
                forall|k: int| 0 <= k < v.len() ==> #[trigger] v@[k] == spec_ibl_dispatch(k),
            decreases CUBEMAP_FACES - f,
        {
            let ghost k: int = v.len() as int;
            proof {
                let j = k - 2 * CUBEMAP_FACES;
                assert(j == mip * CUBEMAP_FACES + f);
                assert(j / (CUBEMAP_FACES as int) == mip as int) by (nonlinear_arith)
                    requires
                        j == mip * 6 + f,
                        0 <= f < 6,
                ;
                assert(j % (CUBEMAP_FACES as int) == f as int) by (nonlinear_arith)
                    requires
                        j == mip * 6 + f,
                        0 <= f < 6,
                ;
            }
            v.push(IblDispatch {
                stage: IblStage::Prefilter,
                face: f,
                mip,
                face_size: size,
                groups,
                sample_count: PREFILTER_SAMPLE_COUNT,
            });
            assert(v@[k] == spec_ibl_dispatch(k));
            f = f + 1;
        }
        mip = mip + 1;
    }
    v
}

/// One step of a cubemap's mip chain: mip `dst_mip` (side `dst_size`) is
/// blitted from mip `src_mip` (side `src_size`) on every face.
#[derive(Debug, Clone, Copy, PartialEq, Eq, Structural)]
pub struct MipBlit {
    pub src_mip: u32,
    pub dst_mip: u32,
    pub src_size: u32,
    pub dst_size: u32,
}

/// Side of mip `level` of a chain whose mip 0 is `base` wide.
pub open spec fn spec_mip_side(base: nat, level: nat) -> nat
    decreases level,
{
    if level == 0 {
        base
    } else {
        let prev = spec_mip_side(base, (level - 1) as nat);
        if prev / 2 >= 1 { prev / 2 } else { 1 }
    }
}

/// The blits that fill mips 1 to `mip_levels - 1` of a cubemap whose mip 0
/// is `base` wide; none for a single-level cubemap.
pub fn cubemap_mip_blits(base: u32, mip_levels: u32) -> (v: Vec<MipBlit>)
    ensures
        mip_levels <= 1 ==> v.len() == 0,
        mip_levels > 1 ==> v.len() == mip_levels - 1,
        forall|k: int|
            0 <= k < v.len() ==> #[trigger] v@[k] == (MipBlit {
                src_mip: k as u32,
                dst_mip: (k + 1) as u32,
                src_size: spec_mip_side(base as nat, k as nat) as u32,
                dst_size: spec_mip_side(base as nat, (k + 1) as nat) as u32,
            }),
{
    let mut v: Vec<MipBlit> = Vec::new();
    if mip_levels <= 1 {
        return v;
    }
    let mut width: u32 = base;
    let mut i: u32 = 1;
    while i < mip_levels
        invariant
            1 <= i <= mip_levels,
            v.len() == i - 1,
            width == spec_mip_side(base as nat, (i - 1) as nat),
            forall|k: int|
                0 <= k < v.len() ==> #[trigger] v@[k] == (MipBlit {
                    src_mip: k as u32,
                    dst_mip: (k + 1) as u32,
                    src_size: spec_mip_side(base as nat, k as nat) as u32,
                    dst_size: spec_mip_side(base as nat, (k + 1) as nat) as u32,
                }),
        decreases mip_levels - i,
    {
        let next: u32 = if width / 2 >= 1 { width / 2 } else { 1 };
        v.push(MipBlit { src_mip: i - 1, dst_mip: i, src_size: width, dst_size: next });
        width = next;
        i = i + 1;
    }
    v
}

/// Each blit reads the mip the blit before it wrote.
pub proof fn lemma_mip_blits_chain(base: nat, k: nat)
    ensures
        spec_mip_side(base, k + 1) == if spec_mip_side(base, k) / 2 >= 1 {
            spec_mip_side(base, k) / 2
        } else {
            1
        },
        k > 0 ==> spec_mip_side(base, k) >= 1,
    decreases k,
{
    if k > 0 {
        lemma_mip_blits_chain(base, (k - 1) as nat);
    }
}

/// Which set of IBL textures is bound.
#[derive(Debug, Clone, Copy, PartialEq, Eq, Structural)]
pub enum IblSource {
    /// The 1x1 black fallback cubemap.
    Fallback,
    /// The cubemaps preprocessed from the loaded environment.
    Loaded,
}

/// Whether an environment map has been loaded into the IBL cubemaps.
pub struct EnvironmentMapState {
    has_environment: bool,
}

impl EnvironmentMapState {
    pub closed spec fn spec_has_environment(&self) -> bool {
        self.has_environment
    }

    /// No environment yet: the fallback is bound.
    pub fn new() -> (s: Self)
        ensures
            !s.spec_has_environment(),
    {
        EnvironmentMapState { has_environment: false }
    }

    /// Whether a real environment map is loaded.
    pub fn has_environment(&self) -> (b: bool)
        ensures
            b == self.spec_has_environment(),
    {
        self.has_environment
    }

    /// Records that the preprocessing chain of a loaded environment completed.
    pub fn mark_loaded(&mut self)
        ensures
            final(self).spec_has_environment(),
    {
        self.has_environment = true;
    }

    /// The textures to bind for the environment, irradiance and pre-filtered maps.
    pub fn active_source(&self) -> (s: IblSource)
        ensures
            s == (if self.spec_has_environment() { IblSource::Loaded } else { IblSource::Fallback }),
    {
        if self.has_environment {
            IblSource::Loaded
        } else {
            IblSource::Fallback
        }
    }
}

} // verus!
