use gg_engine::buffer::{BufferElement, BufferLayout, ShaderDataType};
use gg_engine::vk_codes;

#[test]
fn shader_data_type_sizes() {
    assert_eq!(ShaderDataType::Float.size(), 4);
    assert_eq!(ShaderDataType::Float2.size(), 8);
    assert_eq!(ShaderDataType::Float3.size(), 12);
    assert_eq!(ShaderDataType::Float4.size(), 16);
    assert_eq!(ShaderDataType::Int.size(), 4);
    assert_eq!(ShaderDataType::Int4.size(), 16);
    assert_eq!(ShaderDataType::Mat3.size(), 36);
    assert_eq!(ShaderDataType::Mat4.size(), 64);
    assert_eq!(ShaderDataType::Bool.size(), 4);
}

#[test]
fn shader_data_type_component_counts() {
    assert_eq!(ShaderDataType::Float.component_count(), 1);
    assert_eq!(ShaderDataType::Float3.component_count(), 3);
    assert_eq!(ShaderDataType::Int2.component_count(), 2);
    assert_eq!(ShaderDataType::Mat3.component_count(), 9);
    assert_eq!(ShaderDataType::Mat4.component_count(), 16);
    assert_eq!(ShaderDataType::Bool.component_count(), 1);
}

#[test]
fn shader_data_type_vk_formats() {
    assert_eq!(ShaderDataType::Float.to_vk_format(), vk_codes::FORMAT_R32_SFLOAT);
    assert_eq!(ShaderDataType::Float2.to_vk_format(), vk_codes::FORMAT_R32G32_SFLOAT);
    assert_eq!(ShaderDataType::Float3.to_vk_format(), vk_codes::FORMAT_R32G32B32_SFLOAT);
    assert_eq!(ShaderDataType::Float4.to_vk_format(), vk_codes::FORMAT_R32G32B32A32_SFLOAT);
    assert_eq!(ShaderDataType::Int3.to_vk_format(), vk_codes::FORMAT_R32G32B32_SINT);
    assert_eq!(ShaderDataType::Bool.to_vk_format(), vk_codes::FORMAT_R32_SINT);
}

#[test]
fn buffer_element_defaults() {
    let e = BufferElement::new(ShaderDataType::Float3, "a_Position");
    assert_eq!(e.name, "a_Position");
    assert_eq!(e.size, 12);
    assert_eq!(e.offset, 0);
    assert!(!e.normalized);
    let n = BufferElement::new(ShaderDataType::Float4, "a_Color").normalized(true);
    assert!(n.normalized);
    assert_eq!(n.size, 16);
}

#[test]
fn buffer_layout_offsets_and_stride() {
    let layout = BufferLayout::new(&[
        BufferElement::new(ShaderDataType::Float3, "a_Position"),
        BufferElement::new(ShaderDataType::Float4, "a_Color"),
        BufferElement::new(ShaderDataType::Float2, "a_TexCoord"),
        BufferElement::new(ShaderDataType::Int, "a_EntityID"),
    ]);
    assert_eq!(layout.stride(), 40);
    let offsets: Vec<u32> = layout.elements().iter().map(|e| e.offset).collect();
    assert_eq!(offsets, vec![0, 12, 28, 36]);
    assert_eq!(layout.elements()[1].name, "a_Color");
}

#[test]
fn buffer_layout_empty() {
    let layout = BufferLayout::new(&[]);
    assert_eq!(layout.stride(), 0);
    assert!(layout.elements().is_empty());
}

#[test]
fn buffer_layout_recalculation_is_stable() {
    let mut layout = BufferLayout::new(&[
        BufferElement::new(ShaderDataType::Mat4, "a_Transform"),
        BufferElement::new(ShaderDataType::Float, "a_Thickness"),
    ]);
    layout.calculate_offsets_and_stride();
    assert_eq!(layout.stride(), 68);
    assert_eq!(layout.elements()[0].offset, 0);
    assert_eq!(layout.elements()[1].offset, 64);
}
