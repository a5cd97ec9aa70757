use gg_engine::framebuffer::{
    AttachmentDesc, AttachmentLoadOp, AttachmentStoreOp, FinalLayout, SubpassRefs,
    is_depth_format, resolve_vk_format, AttachmentRole, ClearValueKind, FramebufferSpec, FramebufferState,
    FramebufferTextureFormat, FramebufferTextureSpec, MsaaSamples, ResizeOutcome,
};
use gg_engine::vk_codes;

fn spec(formats: &[FramebufferTextureFormat], samples: u32) -> FramebufferSpec {
    FramebufferSpec {
        width: 1280,
        height: 720,
        attachments: formats.iter().map(|f| FramebufferTextureSpec::from(*f)).collect(),
        samples,
    }
}

#[test]
fn msaa_flags_round_trip() {
    for m in MsaaSamples::all() {
        assert_eq!(MsaaSamples::from_vk(m.to_vk()), m);
    }
    assert_eq!(MsaaSamples::S4.to_vk(), 4);
    assert_eq!(MsaaSamples::from_vk(64), MsaaSamples::S1);
    assert_eq!(MsaaSamples::default(), MsaaSamples::S1);
}

#[test]
fn msaa_names() {
    assert_eq!(MsaaSamples::S1.to_string(), "Off");
    assert_eq!(MsaaSamples::S2.to_string(), "2x");
    assert_eq!(MsaaSamples::S4.to_string(), "4x");
    assert_eq!(MsaaSamples::S8.to_string(), "8x");
}

#[test]
fn msaa_available_and_clamped() {
    let avail = MsaaSamples::available_up_to(vk_codes::SAMPLE_COUNT_1 | vk_codes::SAMPLE_COUNT_2 | vk_codes::SAMPLE_COUNT_4);
    assert_eq!(avail, vec![MsaaSamples::S1, MsaaSamples::S2, MsaaSamples::S4]);
    assert_eq!(MsaaSamples::S8.clamp_to_device(7), MsaaSamples::S4);
    assert_eq!(MsaaSamples::S2.clamp_to_device(7), MsaaSamples::S2);
    assert_eq!(MsaaSamples::S8.clamp_to_device(1), MsaaSamples::S1);
}

#[test]
fn depth_format_detection_and_resolution() {
    assert!(is_depth_format(FramebufferTextureFormat::Depth));
    assert!(!is_depth_format(FramebufferTextureFormat::RGBA8));
    assert_eq!(resolve_vk_format(FramebufferTextureFormat::RGBA8, 44, 126), 44);
    assert_eq!(resolve_vk_format(FramebufferTextureFormat::Depth, 44, 126), 126);
    assert_eq!(resolve_vk_format(FramebufferTextureFormat::RedInteger, 44, 126), vk_codes::FORMAT_R32_SINT);
    assert_eq!(resolve_vk_format(FramebufferTextureFormat::RGBA16F, 44, 126), vk_codes::FORMAT_R16G16B16A16_SFLOAT);
}

#[test]
fn framebuffer_attachments_without_msaa() {
    let fb = FramebufferState::new(&spec(
        &[FramebufferTextureFormat::RGBA8, FramebufferTextureFormat::RedInteger, FramebufferTextureFormat::Depth],
        1,
    ));
    assert_eq!(fb.width(), 1280);
    assert_eq!(fb.height(), 720);
    assert_eq!(fb.color_attachment_count(), 2);
    assert!(fb.has_depth_attachment());
    assert!(!fb.is_msaa());
    assert!(!fb.has_msaa_depth_attachment());
    assert_eq!(fb.attachment_order(), vec![AttachmentRole::Color(0), AttachmentRole::Color(1), AttachmentRole::Depth]);
    assert_eq!(
        fb.clear_values(),
        vec![ClearValueKind::ClearColor, ClearValueKind::IntegerMinusOne, ClearValueKind::DepthOne]
    );
}

#[test]
fn framebuffer_attachments_with_msaa() {
    let fb = FramebufferState::new(&spec(
        &[
            FramebufferTextureFormat::RGBA16F,
            FramebufferTextureFormat::RedInteger,
            FramebufferTextureFormat::NormalMap,
            FramebufferTextureFormat::Depth,
        ],
        4,
    ));
    assert!(fb.is_msaa());
    assert!(fb.has_msaa_depth_attachment());
    assert!(fb.has_normal_attachment());
    assert_eq!(fb.sample_count_u32(), 4);
    assert_eq!(
        fb.attachment_order(),
        vec![
            AttachmentRole::MsaaColor(0),
            AttachmentRole::MsaaColor(1),
            AttachmentRole::MsaaColor(2),
            AttachmentRole::MsaaDepth,
            AttachmentRole::Resolve(0),
            AttachmentRole::Resolve(1),
            AttachmentRole::Resolve(2),
        ]
    );
    assert_eq!(
        fb.clear_values(),
        vec![
            ClearValueKind::ClearColor,
            ClearValueKind::IntegerMinusOne,
            ClearValueKind::ClearColor,
            ClearValueKind::DepthOne,
            ClearValueKind::ClearColor,
            ClearValueKind::IntegerMinusOne,
            ClearValueKind::ClearColor,
        ]
    );
}

#[test]
fn framebuffer_resize_outcomes() {
    let mut fb = FramebufferState::new(&spec(&[FramebufferTextureFormat::RGBA8], 1));
    assert_eq!(fb.resize(1280, 720), ResizeOutcome::Unchanged);
    assert_eq!(fb.resize(0, 720), ResizeOutcome::Rejected);
    assert_eq!(fb.resize(9000, 720), ResizeOutcome::Rejected);
    assert_eq!(fb.width(), 1280);
    assert_eq!(fb.resize(800, 600), ResizeOutcome::Resized);
    assert_eq!((fb.width(), fb.height()), (800, 600));
}

#[test]
fn framebuffer_pixel_readback() {
    let mut fb = FramebufferState::new(&spec(&[FramebufferTextureFormat::RGBA8, FramebufferTextureFormat::RedInteger], 1));
    assert_eq!(fb.hovered_entity(), -1);
    fb.schedule_pixel_readback(1, 5000, 10);
    assert_eq!(fb.take_pending_readback(), None);
    fb.schedule_pixel_readback(1, 100, 200);
    assert_eq!(fb.take_pending_readback(), Some((1, 100, 200)));
    assert_eq!(fb.take_pending_readback(), None);
    fb.set_readback_result(42);
    assert_eq!(fb.hovered_entity(), 42);
}

#[test]
fn framebuffer_resize_clears_readback() {
    let mut fb = FramebufferState::new(&spec(&[FramebufferTextureFormat::RGBA8, FramebufferTextureFormat::RedInteger], 1));
    fb.set_readback_result(7);
    fb.schedule_pixel_readback(1, 10, 10);
    // A rejected resize keeps the readback state.
    assert_eq!(fb.resize(0, 10), ResizeOutcome::Rejected);
    assert_eq!(fb.hovered_entity(), 7);
    // A real resize starts it afresh.
    assert_eq!(fb.resize(640, 480), ResizeOutcome::Resized);
    assert_eq!(fb.hovered_entity(), -1);
    assert_eq!(fb.take_pending_readback(), None);
}

#[test]
fn render_pass_descriptions_with_msaa() {
    let fb = FramebufferState::new(&spec(&[FramebufferTextureFormat::RGBA8, FramebufferTextureFormat::Depth], 4));
    let d = fb.attachment_descriptions(50, 126);
    assert_eq!(
        d,
        vec![
            AttachmentDesc {
                role: AttachmentRole::MsaaColor(0),
                format: 50,
                samples: 4,
                load_op: AttachmentLoadOp::Clear,
                store_op: AttachmentStoreOp::DontCare,
                final_layout: FinalLayout::ColorAttachment,
            },
            AttachmentDesc {
                role: AttachmentRole::MsaaDepth,
                format: 126,
                samples: 4,
                load_op: AttachmentLoadOp::Clear,
                store_op: AttachmentStoreOp::Store,
                final_layout: FinalLayout::DepthStencilReadOnly,
            },
            AttachmentDesc {
                role: AttachmentRole::Resolve(0),
                format: 50,
                samples: 1,
                load_op: AttachmentLoadOp::DontCare,
                store_op: AttachmentStoreOp::Store,
                final_layout: FinalLayout::ShaderReadOnly,
            },
        ]
    );
    assert_eq!(fb.subpass_references(), SubpassRefs { color: vec![0], depth: Some(1), resolve: vec![2] });
}

#[test]
fn render_pass_descriptions_without_msaa() {
    let fb = FramebufferState::new(&spec(&[FramebufferTextureFormat::RGBA8, FramebufferTextureFormat::RedInteger], 1));
    let d = fb.attachment_descriptions(50, 126);
    assert_eq!(d.len(), 2);
    assert_eq!(d[1].format, vk_codes::FORMAT_R32_SINT);
    assert_eq!(d[1].load_op, AttachmentLoadOp::Clear);
    assert_eq!(d[1].store_op, AttachmentStoreOp::Store);
    assert_eq!(d[1].final_layout, FinalLayout::ShaderReadOnly);
    assert_eq!(fb.subpass_references(), SubpassRefs { color: vec![0, 1], depth: None, resolve: vec![] });
}

#[test]
fn clamp_to_single_flag_maximum_never_raises() {
    // A device maximum given as the single 4x flag.
    assert_eq!(MsaaSamples::S1.clamp_to_device(4), MsaaSamples::S1);
    assert_eq!(MsaaSamples::S2.clamp_to_device(4), MsaaSamples::S2);
    assert_eq!(MsaaSamples::S4.clamp_to_device(4), MsaaSamples::S4);
    assert_eq!(MsaaSamples::S8.clamp_to_device(4), MsaaSamples::S4);
}
