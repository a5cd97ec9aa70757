//! Verified core of the gg_engine renderer: vertex buffer layouts, material
//! and attachment bookkeeping, batch and allocation planning, index
//! generation and shader source splitting.

pub mod vk_codes;
pub mod buffer;
pub mod material;
pub mod particles;
pub mod mesh;
pub mod shader_source;
pub mod framebuffer;
pub mod renderer2d;
pub mod swapchain;
pub mod postprocess;
pub mod ibl;
pub mod bone_palette;
pub mod lighting;
pub mod render_state;
pub mod shader_library;
pub mod font;
pub mod skeleton;
pub mod text_layout;
