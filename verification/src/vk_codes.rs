//! Raw Vulkan enumerant values used by the renderer's format and mode
//! decisions. The values are those of the Vulkan registry (`VkFormat`,
//! `VkSampleCountFlagBits`, `VkPresentModeKHR`, ...).
use vstd::prelude::*;

verus! {

/// `VK_FORMAT_B8G8R8A8_SRGB`
pub const FORMAT_B8G8R8A8_SRGB: i32 = 50;
/// `VK_FORMAT_R16G16B16A16_SFLOAT`
pub const FORMAT_R16G16B16A16_SFLOAT: i32 = 97;
/// `VK_FORMAT_R32_SINT`
pub const FORMAT_R32_SINT: i32 = 99;
/// `VK_FORMAT_R32_SFLOAT`
pub const FORMAT_R32_SFLOAT: i32 = 100;
/// `VK_FORMAT_R32G32_SINT`
pub const FORMAT_R32G32_SINT: i32 = 102;
/// `VK_FORMAT_R32G32_SFLOAT`
pub const FORMAT_R32G32_SFLOAT: i32 = 103;
/// `VK_FORMAT_R32G32B32_SINT`
pub const FORMAT_R32G32B32_SINT: i32 = 105;
/// `VK_FORMAT_R32G32B32_SFLOAT`
pub const FORMAT_R32G32B32_SFLOAT: i32 = 106;
/// `VK_FORMAT_R32G32B32A32_SINT`
pub const FORMAT_R32G32B32A32_SINT: i32 = 108;
/// `VK_FORMAT_R32G32B32A32_SFLOAT`
pub const FORMAT_R32G32B32A32_SFLOAT: i32 = 109;
/// `VK_FORMAT_D32_SFLOAT`
pub const FORMAT_D32_SFLOAT: i32 = 126;
/// `VK_FORMAT_D24_UNORM_S8_UINT`
pub const FORMAT_D24_UNORM_S8_UINT: i32 = 129;
/// `VK_FORMAT_D32_SFLOAT_S8_UINT`
pub const FORMAT_D32_SFLOAT_S8_UINT: i32 = 130;

/// `VK_COLOR_SPACE_SRGB_NONLINEAR_KHR`
pub const COLOR_SPACE_SRGB_NONLINEAR: i32 = 0;

/// `VK_SAMPLE_COUNT_1_BIT`
pub const SAMPLE_COUNT_1: u32 = 1;
/// `VK_SAMPLE_COUNT_2_BIT`
pub const SAMPLE_COUNT_2: u32 = 2;
/// `VK_SAMPLE_COUNT_4_BIT`
pub const SAMPLE_COUNT_4: u32 = 4;
/// `VK_SAMPLE_COUNT_8_BIT`
pub const SAMPLE_COUNT_8: u32 = 8;

/// `VK_PRESENT_MODE_IMMEDIATE_KHR`
pub const PRESENT_MODE_IMMEDIATE: i32 = 0;
/// `VK_PRESENT_MODE_MAILBOX_KHR`
pub const PRESENT_MODE_MAILBOX: i32 = 1;
/// `VK_PRESENT_MODE_FIFO_KHR`
pub const PRESENT_MODE_FIFO: i32 = 2;

/// Number of components (channels) of the formats above, as the Vulkan
/// registry defines them; 0 for the depth formats and unknown values.
pub open spec fn vk_format_component_count(f: i32) -> nat {
    if f == 99 || f == 100 {
        1
    } else if f == 102 || f == 103 {
        2
    } else if f == 105 || f == 106 {
        3
    } else if f == 108 || f == 109 || f == 97 || f == 50 {
        4
    } else {
        0
    }
}

/// Bits per component of the color formats above (0 otherwise).
pub open spec fn vk_format_component_bits(f: i32) -> nat {
    if 99 <= f <= 109 {
        32
    } else if f == 97 {
        16
    } else if f == 50 {
        8
    } else {
        0
    }
}

/// Whether `f` is one of the signed-integer (`_SINT`) formats above.
pub open spec fn vk_format_is_sint(f: i32) -> bool {
    f == 99 || f == 102 || f == 105 || f == 108
}

/// Whether `f` is one of the signed-float (`_SFLOAT`) color formats above.
pub open spec fn vk_format_is_sfloat(f: i32) -> bool {
    f == 97 || f == 100 || f == 103 || f == 106 || f == 109
}

/// `VK_FORMAT_FEATURE_DEPTH_STENCIL_ATTACHMENT_BIT`
pub const FORMAT_FEATURE_DEPTH_STENCIL_ATTACHMENT: u32 = 0x200;

} // verus!
