use tomoe::geometry::{Point, Rect, Size, Transform};
use tomoe::layout::Layout;
use tomoe::monitor::Monitor;
use tomoe::output::{calculate_output_position, compute_working_area, output_size, OutputInfo};
use tomoe::config::OutputConfig;
use tomoe::tiling::{Configure, WidthRatio, WindowId};
use tomoe::workspace::{Workspace, WorkspaceId, WorkspaceIdCounter};

fn half() -> WidthRatio {
    WidthRatio { num: 1, den: 2 }
}

fn output(name: &str, w: i32, h: i32) -> OutputInfo {
    OutputInfo {
        name: name.to_string(),
        mode_size: Size { w, h },
        transform: Transform::Normal,
        working_area: Rect { loc: Point { x: 0, y: 0 }, size: Size { w, h } },
    }
}

#[test]
fn workspace_ids_count_up_from_one() {
    let mut ids = WorkspaceIdCounter::new();
    let a = WorkspaceId::next(&mut ids);
    let b = WorkspaceId::next(&mut ids);
    assert_eq!(a.get(), 1);
    assert_eq!(b.get(), 2);
    assert!(!ids.is_exhausted());
}

#[test]
fn workspace_windows() {
    let mut ids = WorkspaceIdCounter::new();
    let out = output("eDP-1", 1000, 800);
    let mut ws = Workspace::new(&out, 8, 8, half(), &mut ids);
    assert!(ws.is_empty());
    assert_eq!(ws.name(), None);
    let c = ws.add_window(WindowId(5));
    assert_eq!(c, Configure { window: WindowId(5), size: Size { w: 500, h: 784 } });
    assert_eq!(ws.focused_window(), Some(WindowId(5)));
    assert!(ws.contains(&WindowId(5)));
    assert!(ws.remove_window(&WindowId(5)));
    assert!(ws.is_empty());
    let named = Workspace::new_named("web".to_string(), &out, 8, 8, half(), &mut ids);
    assert_eq!(named.name(), Some("web"));
    assert_eq!(named.id().get(), 2);
}

#[test]
fn monitor_switch_and_back() {
    let mut ids = WorkspaceIdCounter::new();
    let mut m = Monitor::new(output("eDP-1", 1000, 800), 8, 8, half(), &mut ids);
    assert_eq!(m.workspace_count(), 1);
    let id2 = m.create_workspace(false, &mut ids);
    assert_eq!(id2.get(), 2);
    assert_eq!(m.active_workspace_idx(), 0);
    assert!(m.switch_to_workspace(1));
    assert_eq!(m.active_workspace().id(), id2);
    assert!(!m.switch_to_workspace(1));
    assert!(!m.switch_to_workspace(5));
    assert!(m.switch_to_previous());
    assert_eq!(m.active_workspace_idx(), 0);
    assert!(m.switch_to_previous());
    assert_eq!(m.active_workspace_idx(), 1);
}

#[test]
fn monitor_next_prev_wrap() {
    let mut ids = WorkspaceIdCounter::new();
    let mut m = Monitor::new(output("eDP-1", 1000, 800), 8, 8, half(), &mut ids);
    assert!(!m.switch_to_next_workspace());
    m.create_workspace(false, &mut ids);
    m.create_workspace(false, &mut ids);
    assert!(m.switch_to_prev_workspace());
    assert_eq!(m.active_workspace_idx(), 2);
    assert!(m.switch_to_next_workspace());
    assert_eq!(m.active_workspace_idx(), 0);
}

#[test]
fn monitor_move_window_and_cleanup() {
    let mut ids = WorkspaceIdCounter::new();
    let mut m = Monitor::new(output("eDP-1", 1000, 800), 8, 8, half(), &mut ids);
    m.create_workspace(false, &mut ids);
    m.create_workspace(false, &mut ids);
    m.add_window(WindowId(1));
    m.add_window(WindowId(2));
    let c = m.move_window_to_workspace(&WindowId(1), 2);
    assert_eq!(c, Some(Configure { window: WindowId(1), size: Size { w: 500, h: 784 } }));
    assert_eq!(m.find_window(&WindowId(1)).map(|p| p.0), Some(2));
    assert_eq!(m.workspace(2).unwrap().focused_window(), Some(WindowId(1)));
    assert_eq!(m.workspace(0).unwrap().window_count(), 1);
    assert_eq!(m.find_window(&WindowId(2)).map(|p| p.0), Some(0));
    assert_eq!(m.move_window_to_workspace(&WindowId(9), 1), None);
    m.cleanup_empty_workspaces();
    assert_eq!(m.workspace_count(), 2);
    assert_eq!(m.active_workspace_idx(), 0);
    assert!(!m.remove_workspace(1));
    assert_eq!(m.focused_window(), Some(WindowId(2)));
}

#[test]
fn monitor_remove_empty_workspace() {
    let mut ids = WorkspaceIdCounter::new();
    let mut m = Monitor::new(output("eDP-1", 1000, 800), 8, 8, half(), &mut ids);
    assert!(!m.remove_workspace(0));
    m.create_workspace(true, &mut ids);
    assert_eq!(m.active_workspace_idx(), 1);
    assert!(m.remove_workspace(0));
    assert_eq!(m.workspace_count(), 1);
    assert_eq!(m.active_workspace_idx(), 0);
    assert_eq!(m.active_workspace().id().get(), 2);
}

#[test]
fn layout_outputs_and_windows() {
    let mut l = Layout::new(8, 8, half());
    assert_eq!(l.add_window(WindowId(1)), None);
    l.add_output(output("eDP-1", 1000, 800));
    l.add_output(output("HDMI-A-1", 1920, 1080));
    assert_eq!(l.monitors().len(), 2);
    assert_eq!(l.active_monitor().unwrap().output().name, "eDP-1");
    assert_eq!(
        l.add_window(WindowId(1)),
        Some(Configure { window: WindowId(1), size: Size { w: 500, h: 784 } })
    );
    let hdmi = output("HDMI-A-1", 1920, 1080);
    assert_eq!(
        l.add_window_to_output(WindowId(2), &hdmi),
        Some(Configure { window: WindowId(2), size: Size { w: 960, h: 1064 } })
    );
    assert_eq!(l.find_window(&WindowId(2)).map(|p| p.1), Some(0));
    assert_eq!(l.focused_window(), Some(WindowId(1)));
    l.focus_window(&WindowId(2));
    assert_eq!(l.active_monitor().unwrap().output().name, "HDMI-A-1");
    let orphans = l.remove_output(&hdmi);
    assert_eq!(orphans, vec![WindowId(2)]);
    assert_eq!(l.active_monitor().unwrap().output().name, "eDP-1");
    assert!(l.remove_window(&WindowId(1)));
    assert!(!l.remove_window(&WindowId(1)));
}

#[test]
fn layout_workspaces() {
    let mut l = Layout::new(8, 8, half());
    let out = output("eDP-1", 1000, 800);
    l.add_output(out.clone());
    l.add_window(WindowId(1));
    let id = l.create_workspace(true).unwrap();
    assert_eq!(id.get(), 2);
    assert_eq!(l.active_workspace_idx(&out), Some(1));
    assert_eq!(l.workspace_count(&out), Some(2));
    assert!(l.switch_to_workspace(0));
    assert_eq!(
        l.move_focused_to_workspace(1),
        Some(Configure { window: WindowId(1), size: Size { w: 500, h: 784 } })
    );
    assert_eq!(l.focused_window(), None);
    assert!(l.switch_to_next_workspace());
    assert_eq!(l.focused_window(), Some(WindowId(1)));
    assert_eq!(
        l.reconfigure_all(),
        vec![Configure { window: WindowId(1), size: Size { w: 500, h: 784 } }]
    );
}

#[test]
fn layout_working_areas_follow_outputs() {
    let mut l = Layout::new(8, 8, half());
    l.add_output(output("eDP-1", 1000, 800));
    l.add_window(WindowId(1));
    let mut with_bar = output("eDP-1", 1000, 800);
    with_bar.working_area = Rect { loc: Point { x: 0, y: 30 }, size: Size { w: 1000, h: 770 } };
    l.update_working_areas(&vec![with_bar]);
    assert_eq!(
        l.reconfigure_all(),
        vec![Configure { window: WindowId(1), size: Size { w: 500, h: 754 } }]
    );
}

#[test]
fn output_helpers() {
    let mut o = output("DP-1", 1920, 1080);
    assert_eq!(output_size(&o), Size { w: 1920, h: 1080 });
    o.transform = Transform::Rotate90;
    assert_eq!(output_size(&o), Size { w: 1080, h: 1920 });
    assert_eq!(compute_working_area(&o), Some(o.working_area));
}

#[test]
fn output_position_from_config_or_to_the_right() {
    let configs = vec![OutputConfig {
        name: "HDMI-A-1".to_string(),
        x: Some(-1920),
        y: Some(0),
        scale: None,
        transform: None,
        mode: None,
        enabled: true,
    }];
    let placed = vec![
        Rect { loc: Point { x: 0, y: 0 }, size: Size { w: 1920, h: 1080 } },
        Rect { loc: Point { x: 1920, y: 0 }, size: Size { w: 1280, h: 1024 } },
    ];
    assert_eq!(
        calculate_output_position(&configs, &"HDMI-A-1".to_string(), &placed),
        Point { x: -1920, y: 0 }
    );
    assert_eq!(
        calculate_output_position(&configs, &"DP-2".to_string(), &placed),
        Point { x: 3200, y: 0 }
    );
    assert_eq!(calculate_output_position(&configs, &"DP-2".to_string(), &vec![]), Point { x: 0, y: 0 });
    let only_x = vec![OutputConfig {
        name: "HDMI-A-1".to_string(),
        x: Some(100),
        y: None,
        scale: None,
        transform: None,
        mode: None,
        enabled: true,
    }];
    assert_eq!(
        calculate_output_position(&only_x, &"HDMI-A-1".to_string(), &vec![]),
        Point { x: 100, y: 0 }
    );
    let only_y = vec![OutputConfig {
        name: "HDMI-A-1".to_string(),
        x: None,
        y: Some(40),
        scale: None,
        transform: None,
        mode: None,
        enabled: true,
    }];
    assert_eq!(
        calculate_output_position(&only_y, &"HDMI-A-1".to_string(), &placed),
        Point { x: 3200, y: 40 }
    );
}

#[test]
fn orphaned_windows_move_to_the_primary_monitor() {
    let mut l = Layout::new(8, 8, half());
    l.add_output(output("eDP-1", 1000, 800));
    l.add_output(output("HDMI-A-1", 1920, 1080));
    l.add_output(output("DP-1", 1920, 1080));
    let hdmi = output("HDMI-A-1", 1920, 1080);
    let dp = output("DP-1", 1920, 1080);
    l.add_window(WindowId(1));
    l.add_window_to_output(WindowId(2), &hdmi);
    l.add_window_to_output(WindowId(3), &hdmi);
    l.set_active_monitor(&dp);
    let orphans = l.remove_output(&hdmi);
    assert_eq!(orphans, vec![WindowId(2), WindowId(3)]);
    let configures = l.add_windows(&orphans);
    assert_eq!(
        configures,
        vec![
            Configure { window: WindowId(2), size: Size { w: 500, h: 784 } },
            Configure { window: WindowId(3), size: Size { w: 500, h: 784 } },
        ]
    );
    assert_eq!(l.primary_monitor().unwrap().output().name, "eDP-1");
    assert_eq!(l.primary_monitor().unwrap().active_workspace().windows(), &[WindowId(1), WindowId(2), WindowId(3)]);
    assert!(l.active_monitor().unwrap().active_workspace().windows().is_empty());
    let mut empty = Layout::new(8, 8, half());
    assert!(empty.add_windows(&vec![WindowId(4)]).is_empty());
}
