use gg_engine::text_layout::{text_steps, TextStep};
use gg_engine::render_state::{
    Mesh3dPipelineCache, Mesh3dVariant, MeshTarget, PipelineRequest, ProjectionType, RendererBackend, WireframeMode,
    WireframeState,
};

#[test]
fn backend_is_vulkan() {
    assert_eq!(RendererBackend::current(), RendererBackend::Vulkan);
    assert_eq!(RendererBackend::Vulkan.to_string(), "Vulkan");
    assert_eq!(RendererBackend::NoBackend.to_string(), "None");
}

#[test]
fn projection_type_codes() {
    assert_eq!(ProjectionType::default(), ProjectionType::Orthographic);
    assert_eq!(ProjectionType::Perspective.to_int(), 0);
    assert_eq!(ProjectionType::Orthographic.to_int(), 1);
    assert_eq!(ProjectionType::from_int(0), Some(ProjectionType::Perspective));
    assert_eq!(ProjectionType::from_int(1), Some(ProjectionType::Orthographic));
    assert_eq!(ProjectionType::from_int(2), None);
}

#[test]
fn wireframe_modes() {
    let mut w = WireframeState::new();
    assert_eq!(w.wireframe_mode(), WireframeMode::Off);
    assert!(!w.wireframe_active());
    w.set_wireframe_mode(WireframeMode::WireOnly);
    assert!(w.wireframe_active());
    w.set_wireframe_mode(WireframeMode::Overlay);
    assert!(!w.wireframe_active());
    w.set_wireframe_active(true);
    assert!(w.wireframe_active());
    assert_eq!(w.wireframe_mode(), WireframeMode::Overlay);
    assert_eq!(WireframeMode::default(), WireframeMode::Off);
}

#[test]
fn mesh_pipeline_cache_lifecycle() {
    let mut cache = Mesh3dPipelineCache::new();
    let swap_fill = Mesh3dVariant { target: MeshTarget::Swapchain, wireframe: false };
    assert_eq!(cache.request(false), PipelineRequest::Build(swap_fill));
    cache.record_built(swap_fill);
    assert_eq!(cache.request(false), PipelineRequest::Cached(swap_fill));
    cache.set_use_offscreen(true);
    assert_eq!(cache.request(true), PipelineRequest::MissingOffscreenPass);
    cache.set_offscreen_pass();
    let off_wire = Mesh3dVariant { target: MeshTarget::Offscreen, wireframe: true };
    assert_eq!(cache.request(true), PipelineRequest::Build(off_wire));
    cache.record_built(off_wire);
    assert_eq!(cache.request(true), PipelineRequest::Cached(off_wire));
    cache.set_offscreen_pass();
    assert_eq!(cache.request(true), PipelineRequest::Build(off_wire));
    cache.set_use_offscreen(false);
    assert_eq!(cache.request(false), PipelineRequest::Cached(swap_fill));
}

#[test]
fn text_steps_fallback_tab_and_kerning_pairs() {
    let glyphs = ['A', 'B', ' ', '?'];
    let text: Vec<char> = "AB\r\n\tZ".chars().collect();
    assert_eq!(
        text_steps(&text, &glyphs),
        vec![
            TextStep::Glyph { glyph: 'A', left: 'A', right: Some('B') },
            TextStep::Glyph { glyph: 'B', left: 'B', right: Some('\r') },
            TextStep::NewLine,
            TextStep::Tab,
            TextStep::Glyph { glyph: '?', left: 'Z', right: None },
        ]
    );
    let bare = ['A'];
    let text: Vec<char> = "A\tZ".chars().collect();
    assert_eq!(text_steps(&text, &bare), vec![TextStep::Glyph { glyph: 'A', left: 'A', right: Some('\t') }]);
}
