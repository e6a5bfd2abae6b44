use tomoe::actions::{
    binding_keysym, command_words, handle_keybind_action, keysym_to_key_name, toggle_fullscreen, CommandError,
    FullscreenChange, KeyEffect, PendingSize,
};
use tomoe::config::KeyAction;
use tomoe::geometry::{Point, Rect, Size, Transform};
use tomoe::layout::Layout;
use tomoe::output::OutputInfo;
use tomoe::tiling::{Configure, TilingLayout, WidthRatio, WindowId};

fn half() -> WidthRatio {
    WidthRatio { num: 1, den: 2 }
}

fn setup() -> (TilingLayout, Layout) {
    let mut t = TilingLayout::new(8, 8, half());
    t.set_output_size(Size { w: 1000, h: 800 });
    let mut l = Layout::new(8, 8, half());
    l.add_output(OutputInfo {
        name: "eDP-1".to_string(),
        mode_size: Size { w: 1000, h: 800 },
        transform: Transform::Normal,
        working_area: Rect { loc: Point { x: 0, y: 0 }, size: Size { w: 1000, h: 800 } },
    });
    (t, l)
}

#[test]
fn key_names() {
    assert_eq!(keysym_to_key_name(0xff0d, Some('\r'), "unused"), "Return");
    assert_eq!(keysym_to_key_name(0x20, Some(' '), "unused"), "space");
    assert_eq!(keysym_to_key_name(0xff55, None, "Prior"), "Page_Up");
    assert_eq!(keysym_to_key_name(0xffc9, None, "unused"), "F12");
    assert_eq!(keysym_to_key_name(0x74, Some('t'), "keysym_t"), "t");
    assert_eq!(keysym_to_key_name(0x31, Some('1'), "keysym_1"), "1");
    assert_eq!(keysym_to_key_name(0xffe3, None, "Control_L"), "Control_L");
}

#[test]
fn shifted_digit_is_looked_up_by_its_own_key() {
    // Shift+1 gives '!' (0x21); the binding is looked up by the key's '1'.
    let sym = binding_keysym(0x21, Some(0x31));
    assert_eq!(sym, 0x31);
    assert_eq!(keysym_to_key_name(sym, Some('1'), "unused"), "1");
    assert_eq!(binding_keysym(0x21, None), 0x21);
}

#[test]
fn command_words_split_at_white_space() {
    let words = command_words("  wofi   --show\tdrun ").unwrap();
    assert_eq!(words, vec!["wofi".to_string(), "--show".to_string(), "drun".to_string()]);
    assert_eq!(command_words("alacritty").unwrap(), vec!["alacritty".to_string()]);
    assert_eq!(command_words("   ").unwrap_err(), CommandError::Empty);
    assert_eq!(command_words("").unwrap_err().message(), "Empty command");
}

#[test]
fn spawn_quit_and_empty_focus() {
    let (mut t, mut l) = setup();
    match handle_keybind_action(&mut t, &mut l, &KeyAction::Spawn { command: "foot".to_string() }) {
        KeyEffect::Spawn { command } => assert_eq!(command, "foot"),
        other => panic!("unexpected {:?}", other),
    }
    assert!(matches!(handle_keybind_action(&mut t, &mut l, &KeyAction::Quit), KeyEffect::Quit));
    assert!(matches!(handle_keybind_action(&mut t, &mut l, &KeyAction::Close), KeyEffect::Nothing));
    assert!(matches!(
        handle_keybind_action(&mut t, &mut l, &KeyAction::Fullscreen),
        KeyEffect::Nothing
    ));
}

#[test]
fn close_and_fullscreen_name_the_focused_window() {
    let (mut t, mut l) = setup();
    t.add_window(WindowId(1));
    t.add_window(WindowId(2));
    assert!(matches!(
        handle_keybind_action(&mut t, &mut l, &KeyAction::Close),
        KeyEffect::Close { window: WindowId(2) }
    ));
    assert!(matches!(
        handle_keybind_action(&mut t, &mut l, &KeyAction::Fullscreen),
        KeyEffect::ToggleFullscreen { window: WindowId(2) }
    ));
}

#[test]
fn focus_and_scroll_actions_move_the_tiling() {
    let (mut t, mut l) = setup();
    for i in 1..=3 {
        t.add_window(WindowId(i));
    }
    assert!(matches!(
        handle_keybind_action(&mut t, &mut l, &KeyAction::FocusPrev),
        KeyEffect::FocusChanged
    ));
    assert_eq!(t.focused_window(), Some(WindowId(2)));
    assert!(matches!(
        handle_keybind_action(&mut t, &mut l, &KeyAction::FocusNext),
        KeyEffect::FocusChanged
    ));
    assert_eq!(t.focused_window(), Some(WindowId(3)));
    handle_keybind_action(&mut t, &mut l, &KeyAction::FocusPrev);
    assert!(matches!(
        handle_keybind_action(&mut t, &mut l, &KeyAction::ScrollLeft),
        KeyEffect::Scrolled
    ));
    assert_eq!(t.calculate_positions()[0], (WindowId(1), Point { x: -250, y: 8 }));
    handle_keybind_action(&mut t, &mut l, &KeyAction::ScrollRight);
    assert_eq!(t.calculate_positions()[0], (WindowId(1), Point { x: -500, y: 8 }));
}

#[test]
fn workspace_actions() {
    let (mut t, mut l) = setup();
    l.add_window(WindowId(1));
    // Only one workspace: switching does nothing.
    assert!(matches!(
        handle_keybind_action(&mut t, &mut l, &KeyAction::NextWorkspace),
        KeyEffect::Nothing
    ));
    match handle_keybind_action(&mut t, &mut l, &KeyAction::NewWorkspace) {
        KeyEffect::Reconfigure { configures } => assert_eq!(
            configures,
            vec![Configure { window: WindowId(1), size: Size { w: 500, h: 784 } }]
        ),
        other => panic!("unexpected {:?}", other),
    }
    assert_eq!(l.active_monitor().unwrap().active_workspace_idx(), 1);
    // Workspace numbers count from 1; 0 names no workspace.
    assert!(matches!(
        handle_keybind_action(&mut t, &mut l, &KeyAction::SwitchToWorkspace { workspace: 0 }),
        KeyEffect::Nothing
    ));
    assert_eq!(l.active_monitor().unwrap().active_workspace_idx(), 1);
    assert!(matches!(
        handle_keybind_action(&mut t, &mut l, &KeyAction::MoveToWorkspace { workspace: 0 }),
        KeyEffect::Nothing
    ));
    assert!(matches!(
        handle_keybind_action(&mut t, &mut l, &KeyAction::SwitchToWorkspace { workspace: 1 }),
        KeyEffect::Reconfigure { .. }
    ));
    assert_eq!(l.active_monitor().unwrap().active_workspace_idx(), 0);
    assert!(matches!(
        handle_keybind_action(&mut t, &mut l, &KeyAction::SwitchToWorkspace { workspace: 0 }),
        KeyEffect::Nothing
    ));
    assert!(matches!(
        handle_keybind_action(&mut t, &mut l, &KeyAction::MoveToWorkspace { workspace: 2 }),
        KeyEffect::Reconfigure { .. }
    ));
    assert_eq!(l.focused_window(), None);
    assert!(matches!(
        handle_keybind_action(&mut t, &mut l, &KeyAction::MoveToWorkspace { workspace: 7 }),
        KeyEffect::Nothing
    ));
    assert!(matches!(
        handle_keybind_action(&mut t, &mut l, &KeyAction::PrevWorkspace),
        KeyEffect::Reconfigure { .. }
    ));
    assert_eq!(l.focused_window(), Some(WindowId(1)));
}

#[test]
fn workspace_actions_without_monitor_do_nothing() {
    let mut t = TilingLayout::new(8, 8, half());
    let mut l = Layout::new(8, 8, half());
    assert!(matches!(
        handle_keybind_action(&mut t, &mut l, &KeyAction::NewWorkspace),
        KeyEffect::Nothing
    ));
    assert!(matches!(
        handle_keybind_action(&mut t, &mut l, &KeyAction::SwitchToWorkspace { workspace: 2 }),
        KeyEffect::Nothing
    ));
}

#[test]
fn fullscreen_toggle() {
    let screen = Size { w: 1920, h: 1080 };
    let on = toggle_fullscreen(false, Some(screen));
    assert_eq!(on, FullscreenChange { fullscreen: true, size: PendingSize::Change(Some(screen)) });
    assert_eq!(toggle_fullscreen(false, None), FullscreenChange { fullscreen: true, size: PendingSize::Keep });
    let off = toggle_fullscreen(on.fullscreen, Some(screen));
    assert_eq!(off, FullscreenChange { fullscreen: false, size: PendingSize::Change(None) });
}
