use tomoe::backend::BackendType;
use tomoe::grabs::grab_check;
use tomoe::config::OutputConfig;
use tomoe::geometry::Transform;
use tomoe::output::{
    connector_name, mode_refresh, output_enabled, output_transform, parse_transform,
    select_mode, select_output_mode, ModeInfo,
};
use tomoe::redraw::on_session_activated;
use tomoe::cursor::{create_fallback_cursor, CURSOR_BYTES, DEFAULT_CURSOR_SIZE};
use tomoe::geometry::{Point, Size};
use tomoe::grabs::{has_bottom, has_left, has_right, has_top, ResizeEdge, ResizeGrab};
use tomoe::redraw::{
    after_initial_frame, after_render, on_vblank, queue_redraw, FrameSubmission, RedrawState,
    SurfaceFrame, VBlankStep,
};

#[test]
fn backend_detection() {
    assert_eq!(BackendType::auto_detect(true, false), BackendType::Winit);
    assert_eq!(BackendType::auto_detect(false, true), BackendType::Winit);
    assert_eq!(BackendType::auto_detect(false, false), BackendType::Udev);
}

#[test]
fn queue_redraw_renders_only_when_idle() {
    assert_eq!(queue_redraw(RedrawState::Idle), (RedrawState::Queued, true));
    assert_eq!(queue_redraw(RedrawState::Queued), (RedrawState::Queued, false));
    assert_eq!(queue_redraw(RedrawState::WaitingForVBlank), (RedrawState::Queued, false));
    // Twice is once.
    let (s, _) = queue_redraw(RedrawState::Idle);
    assert_eq!(queue_redraw(s), (RedrawState::Queued, false));
}

#[test]
fn vblank_keeps_the_loop_running() {
    for s in [RedrawState::Idle, RedrawState::Queued, RedrawState::WaitingForVBlank] {
        assert_eq!(
            on_vblank(true, false, Some(s)),
            VBlankStep { startup_complete: true, redraw_state: Some(RedrawState::Queued), render: true }
        );
    }
    assert_eq!(
        on_vblank(false, false, Some(RedrawState::WaitingForVBlank)),
        VBlankStep {
            startup_complete: false,
            redraw_state: Some(RedrawState::WaitingForVBlank),
            render: false
        }
    );
    assert_eq!(
        on_vblank(true, false, None),
        VBlankStep { startup_complete: true, redraw_state: None, render: false }
    );
}

#[test]
fn render_outcomes() {
    let first = SurfaceFrame { needs_initial_frame: true, redraw_state: RedrawState::Queued };
    assert_eq!(
        after_render(first, &FrameSubmission::Queued),
        (SurfaceFrame { needs_initial_frame: false, redraw_state: RedrawState::WaitingForVBlank }, false)
    );
    assert_eq!(
        after_render(first, &FrameSubmission::RenderFailed),
        (SurfaceFrame { needs_initial_frame: true, redraw_state: RedrawState::Idle }, true)
    );
    assert_eq!(
        after_render(
            first,
            &FrameSubmission::QueueFailed { message: "Swap failed: AlreadySwapped".to_string() }
        ),
        (SurfaceFrame { needs_initial_frame: true, redraw_state: RedrawState::WaitingForVBlank }, false)
    );
    assert_eq!(
        after_render(first, &FrameSubmission::QueueFailed { message: "device lost".to_string() }),
        (first, true)
    );
    let later = SurfaceFrame { needs_initial_frame: false, redraw_state: RedrawState::Queued };
    assert_eq!(after_render(later, &FrameSubmission::RenderFailed).1, false);
    assert_eq!(
        after_render(later, &FrameSubmission::QueueFailed { message: "busy".to_string() }),
        (later, false)
    );
    assert_eq!(
        after_initial_frame(first, true),
        SurfaceFrame { needs_initial_frame: false, redraw_state: RedrawState::WaitingForVBlank }
    );
    assert_eq!(after_initial_frame(first, false), first);
}

#[test]
fn resize_edges() {
    assert!(has_left(ResizeEdge::TopLeft) && has_top(ResizeEdge::TopLeft));
    assert!(!has_right(ResizeEdge::TopLeft) && !has_bottom(ResizeEdge::TopLeft));
    assert!(has_right(ResizeEdge::BottomRight) && has_bottom(ResizeEdge::BottomRight));
    assert!(!has_left(ResizeEdge::NoEdge) && !has_top(ResizeEdge::NoEdge));
    assert!(has_bottom(ResizeEdge::Bottom) && !has_left(ResizeEdge::Bottom));
}

#[test]
fn resize_from_top_left() {
    let mut g = ResizeGrab::new(
        ResizeEdge::TopLeft,
        Point { x: 100, y: 100 },
        Size { w: 400, h: 300 },
    );
    assert_eq!(g.motion(Point { x: 50, y: -20 }), Some(Size { w: 350, h: 320 }));
    assert_eq!(g.motion(Point { x: 50, y: -20 }), None);
    assert_eq!(g.motion(Point { x: 1000, y: 1000 }), Some(Size { w: 1, h: 1 }));
    let final_size = Size { w: 350, h: 320 };
    let at = g.finish_location(Point { x: 100, y: 100 }, final_size);
    assert_eq!(at, Point { x: 150, y: 80 });
    // The right and bottom edges stay where they were.
    assert_eq!(at.x + final_size.w, 500);
    assert_eq!(at.y + final_size.h, 400);
}

#[test]
fn resize_from_right_keeps_location() {
    let g = ResizeGrab::new(ResizeEdge::Right, Point { x: 10, y: 20 }, Size { w: 400, h: 300 });
    assert_eq!(g.resized_size(Point { x: 25, y: 99 }), Size { w: 425, h: 300 });
    assert_eq!(g.finish_location(Point { x: 12, y: 22 }, Size { w: 425, h: 300 }), Point { x: 12, y: 22 });
}

#[test]
fn fallback_cursor_image() {
    let data = create_fallback_cursor();
    assert_eq!(DEFAULT_CURSOR_SIZE, 24);
    assert_eq!(data.len(), CURSOR_BYTES);
    let px = |x: usize, y: usize| -> [u8; 4] {
        let i = (y * 24 + x) * 4;
        [data[i], data[i + 1], data[i + 2], data[i + 3]]
    };
    assert_eq!(px(0, 0), [255, 255, 255, 255]);
    assert_eq!(px(5, 10), [255, 255, 255, 255]);
    assert_eq!(px(0, 18), [0, 0, 0, 255]);
    assert_eq!(px(10, 10), [255, 255, 255, 255]);
    assert_eq!(px(11, 10), [0, 0, 0, 0]);
    assert_eq!(px(1, 0), [0, 0, 0, 0]);
    assert_eq!(px(23, 23), [0, 0, 0, 0]);
    let white = (0..576).filter(|p| data[p * 4 + 3] == 255 && data[p * 4] == 255).count();
    assert_eq!(white, 115);
}

#[test]
fn session_activation_forces_a_first_frame() {
    let waiting = SurfaceFrame { needs_initial_frame: false, redraw_state: RedrawState::WaitingForVBlank };
    assert_eq!(
        on_session_activated(waiting),
        (SurfaceFrame { needs_initial_frame: true, redraw_state: RedrawState::Queued }, false)
    );
    let idle = SurfaceFrame { needs_initial_frame: false, redraw_state: RedrawState::Idle };
    assert_eq!(
        on_session_activated(idle),
        (SurfaceFrame { needs_initial_frame: true, redraw_state: RedrawState::Queued }, true)
    );
}

#[test]
fn connector_modes_and_names() {
    let m = |w: u16, pref: bool| ModeInfo { width: w, height: 1080, vrefresh: 60, preferred: pref };
    assert_eq!(select_mode(&vec![]), None);
    assert_eq!(select_mode(&vec![m(1280, false), m(1920, true), m(2560, true)]), Some(1));
    assert_eq!(select_mode(&vec![m(1280, false), m(1920, false)]), Some(0));
    assert_eq!(mode_refresh(60), 60000);
    assert_eq!(mode_refresh(144), 144000);
    assert_eq!(connector_name("HDMI-A", 1), "HDMI-A-1");
    assert_eq!(connector_name("eDP", 12), "eDP-12");
}

#[test]
fn grab_checks() {
    assert!(grab_check(true, true, true, None));
    assert!(grab_check(false, true, true, Some(true)));
    assert!(!grab_check(false, false, true, None));
    assert!(!grab_check(true, true, false, None));
    assert!(!grab_check(true, true, true, Some(false)));
}

fn output_config(name: &str, mode: Option<&str>, transform: Option<&str>, enabled: bool) -> OutputConfig {
    OutputConfig {
        name: name.to_string(),
        x: None,
        y: None,
        scale: None,
        transform: transform.map(|t| t.to_string()),
        mode: mode.map(|m| m.to_string()),
        enabled,
    }
}

#[test]
fn configured_mode_is_chosen_by_name() {
    let m = |w: u16, h: u16, r: u32, pref: bool| ModeInfo { width: w, height: h, vrefresh: r, preferred: pref };
    let modes = vec![m(2560, 1440, 60, true), m(1920, 1080, 144, false), m(1920, 1080, 60, false)];
    let name = "DP-1".to_string();
    let pick = |mode: Option<&str>| select_output_mode(&modes, &vec![output_config("DP-1", mode, None, true)], &name);
    assert_eq!(pick(Some("1920x1080@60")), Some(2));
    assert_eq!(pick(Some("1920x1080")), Some(1));
    assert_eq!(pick(Some("1920x1080@144")), Some(1));
    // "preferred", a mode not offered, or no request: the default choice.
    assert_eq!(pick(Some("preferred")), Some(0));
    assert_eq!(pick(Some("800x600")), Some(0));
    assert_eq!(pick(None), Some(0));
    // A configuration for another output asks nothing of this one.
    let other = vec![output_config("HDMI-A-1", Some("1920x1080@60"), None, true)];
    assert_eq!(select_output_mode(&modes, &other, &name), Some(0));
    assert_eq!(select_output_mode(&vec![], &other, &name), None);
}

#[test]
fn configured_transform_and_enabled() {
    assert_eq!(parse_transform(&"normal".to_string()), Some(Transform::Normal));
    assert_eq!(parse_transform(&"90".to_string()), Some(Transform::Rotate90));
    assert_eq!(parse_transform(&"flipped-270".to_string()), Some(Transform::Flipped270));
    assert_eq!(parse_transform(&"sideways".to_string()), None);
    let name = "eDP-1".to_string();
    let configs = vec![
        output_config("eDP-1", None, Some("270"), false),
        output_config("eDP-1", None, Some("90"), true),
    ];
    assert_eq!(output_transform(&configs, &name), Transform::Rotate270);
    assert!(!output_enabled(&configs, &name));
    let odd = vec![output_config("eDP-1", None, Some("upside-down"), true)];
    assert_eq!(output_transform(&odd, &name), Transform::Normal);
    assert!(output_enabled(&odd, &name));
    assert_eq!(output_transform(&vec![], &name), Transform::Normal);
    assert!(output_enabled(&vec![], &name));
}
