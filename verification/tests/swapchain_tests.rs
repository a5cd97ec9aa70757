use gg_engine::swapchain::{
    choose_depth_format, choose_surface_format, clamp_extent, depth_format_candidates, resolve_present_mode,
    swapchain_image_count, ubo_slot, FrameCounter, PresentMode, SurfaceFormat, MAX_FRAMES_IN_FLIGHT,
};
use gg_engine::vk_codes::{
    COLOR_SPACE_SRGB_NONLINEAR, FORMAT_B8G8R8A8_SRGB, FORMAT_D24_UNORM_S8_UINT, FORMAT_D32_SFLOAT,
    FORMAT_D32_SFLOAT_S8_UINT, FORMAT_FEATURE_DEPTH_STENCIL_ATTACHMENT, PRESENT_MODE_FIFO,
    PRESENT_MODE_IMMEDIATE, PRESENT_MODE_MAILBOX,
};

#[test]
fn present_mode_fallbacks() {
    let all = [PRESENT_MODE_FIFO, PRESENT_MODE_MAILBOX, PRESENT_MODE_IMMEDIATE];
    assert_eq!(resolve_present_mode(PresentMode::Mailbox, &all), PRESENT_MODE_MAILBOX);
    assert_eq!(resolve_present_mode(PresentMode::Mailbox, &[PRESENT_MODE_FIFO, PRESENT_MODE_IMMEDIATE]), PRESENT_MODE_IMMEDIATE);
    assert_eq!(resolve_present_mode(PresentMode::Immediate, &[PRESENT_MODE_FIFO, PRESENT_MODE_MAILBOX]), PRESENT_MODE_MAILBOX);
    assert_eq!(resolve_present_mode(PresentMode::Immediate, &[PRESENT_MODE_FIFO]), PRESENT_MODE_FIFO);
    assert_eq!(resolve_present_mode(PresentMode::Fifo, &all), PRESENT_MODE_FIFO);
    assert_eq!(PresentMode::default(), PresentMode::Fifo);
}

#[test]
fn present_mode_names() {
    assert_eq!(PresentMode::Fifo.to_string(), "Fifo (VSync)");
    assert_eq!(PresentMode::Mailbox.to_string(), "Mailbox (Triple-buffered)");
    assert_eq!(PresentMode::Immediate.to_string(), "Immediate (No VSync)");
}

#[test]
fn surface_format_preference() {
    let other = SurfaceFormat { format: 44, color_space: 0 };
    let preferred = SurfaceFormat { format: FORMAT_B8G8R8A8_SRGB, color_space: COLOR_SPACE_SRGB_NONLINEAR };
    assert_eq!(choose_surface_format(&[other, preferred]), preferred);
    assert_eq!(choose_surface_format(&[other]), other);
}

#[test]
fn extent_and_image_count() {
    assert_eq!(clamp_extent(5000, 10, (1, 100), (4096, 4096)), (4096, 100));
    assert_eq!(clamp_extent(800, 600, (1, 1), (4096, 4096)), (800, 600));
    assert_eq!(swapchain_image_count(2, 0), 3);
    assert_eq!(swapchain_image_count(2, 8), 3);
    assert_eq!(swapchain_image_count(3, 3), 3);
}

#[test]
fn depth_format_choice() {
    assert_eq!(depth_format_candidates(), [FORMAT_D32_SFLOAT, FORMAT_D32_SFLOAT_S8_UINT, FORMAT_D24_UNORM_S8_UINT]);
    let yes = FORMAT_FEATURE_DEPTH_STENCIL_ATTACHMENT;
    assert_eq!(choose_depth_format([yes, yes, yes]), Some(FORMAT_D32_SFLOAT));
    assert_eq!(choose_depth_format([0, 0, yes | 1]), Some(FORMAT_D24_UNORM_S8_UINT));
    assert_eq!(choose_depth_format([0, 0, 0]), None);
}

#[test]
fn frames_cycle_and_slots() {
    let mut fc = FrameCounter::new();
    assert_eq!(fc.current_frame(), 0);
    fc.advance_frame();
    assert_eq!(fc.current_frame(), 1);
    fc.advance_frame();
    assert_eq!(fc.current_frame(), 0);
    assert_eq!(ubo_slot(1, 2), 6);
    assert_eq!(ubo_slot(0, 3), 3);
    assert_eq!(MAX_FRAMES_IN_FLIGHT, 2);
}
