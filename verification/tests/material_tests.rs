use gg_engine::material::{BlendMode, MaterialLibrary};

#[test]
fn blend_mode_round_trip() {
    for mode in [BlendMode::Opaque, BlendMode::AlphaBlend, BlendMode::Additive] {
        assert_eq!(BlendMode::parse_str(mode.as_str()), mode);
    }
}

#[test]
fn blend_mode_parse_unknown_defaults_to_opaque() {
    assert_eq!(BlendMode::parse_str("Unknown"), BlendMode::Opaque);
    assert_eq!(BlendMode::parse_str(""), BlendMode::Opaque);
}

#[test]
fn blend_mode_display() {
    assert_eq!(BlendMode::Opaque.to_string(), "Opaque");
    assert_eq!(BlendMode::AlphaBlend.to_string(), "AlphaBlend");
    assert_eq!(BlendMode::Additive.to_string(), "Additive");
}

#[test]
fn blend_mode_default_is_opaque() {
    assert_eq!(BlendMode::default(), BlendMode::Opaque);
}

#[test]
fn blend_mode_parse_is_case_sensitive() {
    assert_eq!(BlendMode::parse_str("additive"), BlendMode::Opaque);
    assert_eq!(BlendMode::parse_str("AlphaBlend "), BlendMode::Opaque);
    assert_eq!(BlendMode::parse_str("Additive"), BlendMode::Additive);
}

#[test]
fn material_library_starts_with_default() {
    let lib = MaterialLibrary::new(7, "white");
    assert_eq!(lib.default_handle(), 7);
    assert_eq!(lib.len(), 1);
    assert!(!lib.is_empty());
    assert_eq!(lib.get(7), Some(&"white"));
    assert!(lib.contains(7));
    assert!(!lib.contains(8));
}

#[test]
fn material_library_insert_get_remove() {
    let mut lib = MaterialLibrary::new(1, "default");
    lib.insert(2, "red");
    lib.insert(3, "blue");
    assert_eq!(lib.len(), 3);
    assert_eq!(lib.get(2), Some(&"red"));
    lib.insert(2, "green");
    assert_eq!(lib.get(2), Some(&"green"));
    assert_eq!(lib.len(), 3);
    assert_eq!(lib.remove(2), Some("green"));
    assert_eq!(lib.get(2), None);
    assert_eq!(lib.remove(2), None);
    assert_eq!(lib.len(), 2);
}

#[test]
fn material_library_default_cannot_be_removed() {
    let mut lib = MaterialLibrary::new(5, "default");
    assert_eq!(lib.remove(5), None);
    assert_eq!(lib.len(), 1);
    assert_eq!(lib.get(5), Some(&"default"));
}

#[test]
fn material_library_unknown_handle_falls_back_to_default() {
    let mut lib = MaterialLibrary::new(5, "default");
    lib.insert(9, "metal");
    assert_eq!(*lib.material_for(9), "metal");
    assert_eq!(*lib.material_for(42), "default");
}

#[test]
fn material_push_block_layout() {
    let bits: [u32; 10] = [1, 2, 3, 4, 5, 6, 7, 8, 9, 10];
    let w = gg_engine::material::material_push_words(bits, Some(17));
    assert_eq!(w, [1, 2, 3, 4, 5, 6, 7, 8, 9, 10, 0, 17]);
    let none = gg_engine::material::material_push_words(bits, None);
    assert_eq!(none[11] as i32, -1);
}

#[test]
fn material_library_create_update_and_handles() {
    let mut lib = MaterialLibrary::new(1, "default");
    assert_eq!(lib.create(40, "new"), 40);
    assert_eq!(lib.get(40), Some(&"new"));
    assert!(lib.update(40, "renamed"));
    assert_eq!(lib.get(40), Some(&"renamed"));
    assert!(!lib.update(77, "absent"));
    assert!(!lib.contains(77));
    let mut handles = lib.handles();
    handles.sort();
    assert_eq!(handles, vec![1, 40]);
    assert_eq!(lib.remove(40), Some("renamed"));
    assert_eq!(lib.len(), 1);
}
