//! The integer part of the lighting uniform block: how many point lights are
//! uploaded, the light and shadow flags, and the packed IBL settings.
use vstd::prelude::*;

verus! {

/// Maximum number of point lights the shader supports.
pub const MAX_POINT_LIGHTS: usize = 16;

/// Number of shadow map cascades for the directional light.
pub const NUM_SHADOW_CASCADES: usize = 4;

/// Bytes of the lighting uniform block (std140): two directional vec4s,
/// two vec4s per point light, ambient, camera and counts, the cascade
/// matrices, split depths, texel sizes and shadow settings.
pub const LIGHT_GPU_DATA_SIZE: usize = 896;

/// The uniform block size is the sum of its members.
pub proof fn lemma_light_gpu_data_size()
    ensures
        LIGHT_GPU_DATA_SIZE == 2 * 16 + MAX_POINT_LIGHTS * 2 * 16 + 3 * 16 + NUM_SHADOW_CASCADES * 64
            + 16 + 16 + 16,
{
}

/// How many point lights are uploaded: all of them, up to the shader's limit.
pub open spec fn spec_point_light_upload_count(len: nat) -> nat {
    if len < MAX_POINT_LIGHTS { len } else { MAX_POINT_LIGHTS as nat }
}

/// Number of point lights uploaded out of `len` in the environment.
pub fn point_light_upload_count(len: usize) -> (n: usize)
    ensures
        n == spec_point_light_upload_count(len as nat),
        n <= MAX_POINT_LIGHTS,
        n <= len,
{
    if len < MAX_POINT_LIGHTS {
        len
    } else {
        MAX_POINT_LIGHTS
    }
}

/// The `counts` vector of the uniform block: point lights uploaded, whether
/// a directional light is present, whether cascaded shadows are on, and the
/// cascade debug view (always 0 here).
pub fn light_counts(point_light_len: usize, has_directional: bool, has_shadow: bool) -> (c: [i32; 4])
    ensures
        c[0] == spec_point_light_upload_count(point_light_len as nat),
        c[1] == (if has_directional { 1i32 } else { 0i32 }),
        c[2] == (if has_shadow { 1i32 } else { 0i32 }),
        c[3] == 0,
{
    let n = point_light_upload_count(point_light_len);
    let dir: i32 = if has_directional { 1 } else { 0 };
    let shadow: i32 = if has_shadow { 1 } else { 0 };
    [n as i32, dir, shadow, 0]
}

/// The two's-complement reading of a 32-bit pattern as `i32`.
pub open spec fn spec_bits_as_i32(bits: u32) -> i32 {
    if bits < 0x8000_0000 { bits as i32 } else { (bits - 0x1_0000_0000) as i32 }
}

/// Reinterprets a 32-bit pattern as `i32` (the shader reads it back with
/// `intBitsToFloat`).
pub fn bits_as_i32(bits: u32) -> (r: i32)
    ensures
        r == spec_bits_as_i32(bits),
{
    if bits < 0x8000_0000 {
        bits as i32
    } else {
        let low: u32 = bits - 0x8000_0000;
        let r: i32 = (low as i32) - 0x4000_0000 - 0x4000_0000;
        r
    }
}

/// Reading a pattern as `i32` loses nothing: distinct patterns give distinct
/// integers.
pub proof fn lemma_bits_as_i32_injective(a: u32, b: u32)
    requires
        spec_bits_as_i32(a) == spec_bits_as_i32(b),
    ensures
        a == b,
{
}

/// The `shadow_settings` vector of the uniform block: quality 0, and when
/// image-based lighting is on, the flag 1, the bit pattern of the IBL
/// intensity and the highest pre-filter mip; zeros otherwise.
pub fn shadow_settings(has_ibl: bool, ibl_intensity_bits: u32, max_prefilter_mip: i32) -> (s: [i32; 4])
    ensures
        s[0] == 0,
        has_ibl ==> s[1] == 1 && s[2] == spec_bits_as_i32(ibl_intensity_bits) && s[3] == max_prefilter_mip,
        !has_ibl ==> s[1] == 0 && s[2] == 0 && s[3] == 0,
{
    if has_ibl {
        [0, 1, bits_as_i32(ibl_intensity_bits), max_prefilter_mip]
    } else {
        [0, 0, 0, 0]
    }
}

/// Which entry of the uniform block's point-light arrays light `i` of the
/// environment is written to, if any: the first `MAX_POINT_LIGHTS` lights in
/// order, the rest dropped.
pub fn point_light_slot(i: usize, len: usize) -> (r: Option<usize>)
    requires
        i < len,
    ensures
        i < MAX_POINT_LIGHTS ==> r == Some(i),
        i >= MAX_POINT_LIGHTS ==> r.is_none(),
        r.is_some() ==> r.unwrap() < spec_point_light_upload_count(len as nat),
{
    if i < MAX_POINT_LIGHTS {
        Some(i)
    } else {
        None
    }
}

} // verus!
