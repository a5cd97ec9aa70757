use gg_engine::shader_library::ShaderLibrary;
use gg_engine::shader_source::{extract_compute_source, split_glsl_source, spirv_words, GlslSourceError};

#[test]
fn split_vertex_and_fragment() {
    let src = "// preamble\n#type vertex\n#version 450\nvoid main() {}\n  #type fragment  \n#version 450\nvoid main() { }\n";
    let (v, f) = split_glsl_source(src).unwrap();
    assert_eq!(v, "#version 450\nvoid main() {}");
    assert_eq!(f, "#version 450\nvoid main() { }");
}

#[test]
fn split_handles_crlf_and_repeated_sections() {
    let src = "#type fragment\r\nA\r\n#type vertex\r\nB\r\n#type fragment\r\nC";
    let (v, f) = split_glsl_source(src).unwrap();
    assert_eq!(v, "B");
    assert_eq!(f, "A\nC");
}

#[test]
fn split_reports_missing_stages() {
    assert_eq!(split_glsl_source("#type fragment\nx"), Err(GlslSourceError::MissingVertex));
    assert_eq!(split_glsl_source("#type vertex\nx"), Err(GlslSourceError::MissingFragment));
    assert_eq!(split_glsl_source(""), Err(GlslSourceError::MissingVertex));
}

#[test]
fn compute_source_after_marker() {
    let src = "header\n#type compute\n#version 450\nlayout(local_size_x = 256) in;\n";
    assert_eq!(extract_compute_source(src).unwrap(), "#version 450\nlayout(local_size_x = 256) in;");
    assert_eq!(extract_compute_source("#type compute\n"), Err(GlslSourceError::EmptyCompute));
    assert_eq!(extract_compute_source("no marker"), Err(GlslSourceError::EmptyCompute));
}

#[test]
fn spirv_words_are_little_endian() {
    let bytes = [0x03u8, 0x02, 0x23, 0x07, 0x00, 0x00, 0x01, 0x00, 0xFF];
    assert_eq!(spirv_words(&bytes), vec![0x0723_0203, 0x0001_0000]);
    assert!(spirv_words(&[1, 2, 3]).is_empty());
}

#[test]
fn shader_library_add_get_contains() {
    let mut lib: ShaderLibrary<u32> = ShaderLibrary::new();
    assert!(!lib.contains("mesh3d"));
    lib.add("mesh3d", 1);
    lib.add("batch", 2);
    assert!(lib.contains("mesh3d"));
    assert_eq!(lib.get("batch"), Some(&2));
    assert_eq!(lib.get("missing"), None);
    lib.add("mesh3d", 3);
    assert_eq!(lib.get("mesh3d"), Some(&3));
    assert_eq!(lib.get("batch"), Some(&2));
}
