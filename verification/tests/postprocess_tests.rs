use gg_engine::postprocess::{
    bloom_downsample_passes, bloom_mip_extents, bloom_upsample_passes, BloomPass, DepthSource, ImageExtent,
    InputViews, PostProcessState, ResizeKind, TonemappingMode, BLOOM_MIP_LEVELS,
};

fn ext(width: u32, height: u32) -> ImageExtent {
    ImageExtent { width, height }
}

#[test]
fn tonemapping_codes_and_names() {
    assert_eq!(TonemappingMode::all(), [TonemappingMode::Off, TonemappingMode::ACES, TonemappingMode::Reinhard]);
    assert_eq!(TonemappingMode::Off.to_int(), 0);
    assert_eq!(TonemappingMode::ACES.to_int(), 1);
    assert_eq!(TonemappingMode::Reinhard.to_int(), 2);
    assert_eq!(TonemappingMode::Off.to_string(), "None");
    assert_eq!(TonemappingMode::ACES.to_string(), "ACES");
    assert_eq!(TonemappingMode::Reinhard.to_string(), "Reinhard");
    assert_eq!(TonemappingMode::default(), TonemappingMode::Off);
}

#[test]
fn bloom_chain_halves_each_level() {
    let mips = bloom_mip_extents(1920, 1080);
    assert_eq!(mips.len(), BLOOM_MIP_LEVELS);
    assert_eq!(mips, vec![ext(960, 540), ext(480, 270), ext(240, 135), ext(120, 67)]);
}

#[test]
fn bloom_chain_never_below_one_pixel() {
    assert_eq!(bloom_mip_extents(5, 1), vec![ext(2, 1), ext(1, 1), ext(1, 1), ext(1, 1)]);
    assert_eq!(bloom_mip_extents(0, 0), vec![ext(1, 1); 4]);
}

#[test]
fn bloom_passes_read_previous_level() {
    let mips = bloom_mip_extents(64, 32);
    let down = bloom_downsample_passes(64, 32, &mips);
    assert_eq!(down[0], BloomPass { source: ext(64, 32), target: ext(32, 16) });
    assert_eq!(down[3], BloomPass { source: ext(8, 4), target: ext(4, 2) });
    let up = bloom_upsample_passes(&mips);
    assert_eq!(
        up,
        vec![
            BloomPass { source: ext(4, 2), target: ext(8, 4) },
            BloomPass { source: ext(8, 4), target: ext(16, 8) },
            BloomPass { source: ext(16, 8), target: ext(32, 16) },
        ]
    );
}

#[test]
fn creation_picks_depth_source() {
    let msaa = PostProcessState::new(InputViews { has_scene_depth: true, has_msaa_depth: true, has_normal: true }, 800, 600);
    assert_eq!(msaa.resources.depth_source, DepthSource::ResolvedFromMsaa);
    assert!(msaa.resources.depth_resolve_pipeline);
    assert!(msaa.resources.contact_shadow_images);
    let direct = PostProcessState::new(InputViews { has_scene_depth: true, has_msaa_depth: false, has_normal: false }, 800, 600);
    assert_eq!(direct.resources.depth_source, DepthSource::Direct);
    assert!(!direct.resources.depth_resolve_pipeline);
    let none = PostProcessState::new(InputViews { has_scene_depth: false, has_msaa_depth: false, has_normal: true }, 800, 600);
    assert_eq!(none.resources.depth_source, DepthSource::Unavailable);
    assert!(!none.resources.contact_shadow_pipeline);
    assert!(none.bloom_enabled);
    assert_eq!(none.tonemapping, TonemappingMode::ACES);
    assert_eq!(none.contact_shadows_step_count, 24);
}

#[test]
fn execution_plan_follows_settings() {
    let views = InputViews { has_scene_depth: false, has_msaa_depth: true, has_normal: true };
    let mut pp = PostProcessState::new(views, 800, 600);
    let plan = pp.execution_plan();
    assert!(!plan.contact_shadows && !plan.depth_resolve && !plan.bilateral_blur);
    assert!(plan.bloom && !plan.composite_with_shadow);
    pp.contact_shadows_enabled = true;
    pp.set_contact_shadow_light();
    let plan = pp.execution_plan();
    assert!(plan.contact_shadows && plan.depth_resolve && plan.bilateral_blur && plan.composite_with_shadow);
    pp.contact_shadows_debug = 2;
    pp.bloom_enabled = false;
    let plan = pp.execution_plan();
    assert!(plan.contact_shadows && !plan.bilateral_blur && !plan.bloom);
    pp.clear_contact_shadow_data();
    assert!(!pp.contact_shadows_active());
}

#[test]
fn resize_rebinds_or_recreates() {
    let mut pp = PostProcessState::new(InputViews { has_scene_depth: true, has_msaa_depth: false, has_normal: true }, 800, 600);
    let msaa = InputViews { has_scene_depth: false, has_msaa_depth: true, has_normal: true };
    assert_eq!(pp.resize(msaa, 800, 600), ResizeKind::RebindOnly);
    assert_eq!(pp.resources.depth_source, DepthSource::ResolvedFromMsaa);
    assert!(pp.resources.depth_resolve_pipeline);
    let plain = InputViews { has_scene_depth: false, has_msaa_depth: false, has_normal: false };
    assert_eq!(pp.resize(plain, 1024, 768), ResizeKind::Recreate);
    assert_eq!(pp.dimensions(), (1024, 768));
    assert!(!pp.resources.contact_shadow_images);
    assert!(pp.resources.depth_resolve_pipeline);
    assert!(pp.resources.contact_shadow_pipeline);
}

#[test]
fn contact_shadows_need_depth_at_creation() {
    let mut pp = PostProcessState::new(InputViews { has_scene_depth: false, has_msaa_depth: false, has_normal: true }, 640, 480);
    pp.resize(InputViews { has_scene_depth: true, has_msaa_depth: false, has_normal: true }, 640, 480);
    pp.contact_shadows_enabled = true;
    pp.set_contact_shadow_light();
    assert!(!pp.contact_shadows_active());
}
