use gg_engine::bone_palette::{bone_byte_range, BonePaletteSystem, ByteRange, BONE_SSBO_SIZE, MAX_SKINNED_BONES_PER_FRAME};
use gg_engine::lighting::{
    bits_as_i32, light_counts, point_light_slot, point_light_upload_count, shadow_settings, LIGHT_GPU_DATA_SIZE,
    MAX_POINT_LIGHTS,
};

#[test]
fn bone_writes_are_consecutive() {
    let mut palette = BonePaletteSystem::new();
    assert_eq!(palette.write_bones(10), Some(0));
    assert_eq!(palette.write_bones(0), Some(0));
    assert_eq!(palette.write_bones(5), Some(10));
    assert_eq!(palette.current_offset(), 15);
    palette.begin_frame();
    assert_eq!(palette.current_offset(), 0);
    assert_eq!(palette.write_bones(3), Some(0));
}

#[test]
fn bone_palette_overflow_is_refused() {
    let mut palette = BonePaletteSystem::new();
    assert_eq!(palette.write_bones(MAX_SKINNED_BONES_PER_FRAME - 1), Some(0));
    assert_eq!(palette.write_bones(2), None);
    assert_eq!(palette.current_offset(), MAX_SKINNED_BONES_PER_FRAME - 1);
    assert_eq!(palette.write_bones(1), Some(4095));
    assert_eq!(palette.write_bones(1), None);
}

#[test]
fn bone_byte_ranges() {
    assert_eq!(bone_byte_range(10, 5), ByteRange { start: 640, len: 320 });
    assert_eq!(BONE_SSBO_SIZE, 262144);
}

#[test]
fn light_gpu_data_size() {
    assert_eq!(LIGHT_GPU_DATA_SIZE, 896);
}

#[test]
fn light_environment_to_gpu_no_lights() {
    let counts = light_counts(0, false, false);
    assert_eq!(counts[0], 0);
    assert_eq!(counts[1], 0);
}

#[test]
fn light_environment_clamps_point_lights() {
    let counts = light_counts(20, false, false);
    assert_eq!(counts[0], MAX_POINT_LIGHTS as i32);
}

#[test]
fn light_counts_flags() {
    assert_eq!(light_counts(1, true, true), [1, 1, 1, 0]);
    assert_eq!(point_light_upload_count(16), 16);
    assert_eq!(point_light_upload_count(3), 3);
    assert_eq!(point_light_slot(2, 20), Some(2));
    assert_eq!(point_light_slot(16, 20), None);
}

#[test]
fn ibl_settings_packing() {
    let bits = 1.5f32.to_bits();
    assert_eq!(shadow_settings(true, bits, 8), [0, 1, bits as i32, 8]);
    assert_eq!(shadow_settings(false, bits, 8), [0, 0, 0, 0]);
    assert_eq!(bits_as_i32(0xFFFF_FFFF), -1);
    assert_eq!(bits_as_i32(0x8000_0000), i32::MIN);
    assert_eq!(bits_as_i32(7), 7);
    assert_eq!(f32::from_bits(bits_as_i32(bits) as u32), 1.5);
}
