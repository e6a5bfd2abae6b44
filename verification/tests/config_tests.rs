use tomoe::config::{
    default_gap, default_margin, default_repeat_delay, default_repeat_rate, default_true,
    default_window_width, find_keybind_action, insert_keybind, Config, Decimal, KeyAction,
    Keybind, Modifiers, OutputConfig, ParsedKeybind,
};

#[test]
fn test_parse_keybind() {
    let kb = ParsedKeybind::parse("Super+Ctrl+t").unwrap();
    assert!(kb.modifiers.logo);
    assert!(kb.modifiers.ctrl);
    assert!(!kb.modifiers.alt);
    assert!(!kb.modifiers.shift);
    assert_eq!(kb.key, "t");

    let kb2 = ParsedKeybind::parse("Super+Ctrl+Shift+Return").unwrap();
    assert!(kb2.modifiers.logo);
    assert!(kb2.modifiers.ctrl);
    assert!(kb2.modifiers.shift);
    assert_eq!(kb2.key, "Return");
}

#[test]
fn parse_modifier_names_ignore_case_and_aliases() {
    let kb = ParsedKeybind::parse("LOGO+control+Mod1+shift+x").unwrap();
    assert!(kb.modifiers.logo && kb.modifiers.ctrl && kb.modifiers.alt && kb.modifiers.shift);
    assert_eq!(kb.key, "x");
    let kb = ParsedKeybind::parse("meta+MOD4+a").unwrap();
    assert!(kb.modifiers.logo);
    assert!(!kb.modifiers.ctrl && !kb.modifiers.alt && !kb.modifiers.shift);
}

#[test]
fn parse_ignores_modifier_order_and_repetition() {
    assert_eq!(ParsedKeybind::parse("Ctrl+Super+t"), ParsedKeybind::parse("Super+Ctrl+t"));
    assert_eq!(ParsedKeybind::parse("alt+Alt+x"), ParsedKeybind::parse("Alt+x"));
    let kb = ParsedKeybind::parse("Shift+k").unwrap();
    assert_eq!(kb.modifiers, Modifiers { ctrl: false, alt: false, shift: true, logo: false });
    assert_eq!(kb.key, "k");
}

#[test]
fn parse_unknown_modifier_joins_rest_into_key() {
    let kb = ParsedKeybind::parse("Ctrl+Foo+Bar").unwrap();
    assert!(kb.modifiers.ctrl);
    assert_eq!(kb.key, "Foo+Bar");
}

#[test]
fn parse_key_alone_and_empty() {
    let kb = ParsedKeybind::parse("F1").unwrap();
    assert_eq!(kb.modifiers, Modifiers { ctrl: false, alt: false, shift: false, logo: false });
    assert_eq!(kb.key, "F1");
    assert!(ParsedKeybind::parse("").is_none());
    assert!(ParsedKeybind::parse("Super+").is_none());
}

#[test]
fn default_values() {
    assert_eq!(default_repeat_delay(), 200);
    assert_eq!(default_repeat_rate(), 25);
    assert_eq!(default_gap(), 8);
    assert_eq!(default_margin(), 8);
    assert!(default_true());
    assert_eq!(default_window_width(), Decimal { digits: 5, scale: 1 });
}

#[test]
fn default_config_keybinds() {
    let c = Config::default();
    assert_eq!(c.general.gap, 8);
    assert_eq!(c.general.margin, 8);
    assert_eq!(c.keyboard.repeat_delay, 200);
    assert_eq!(c.keyboard.repeat_rate, 25);
    assert!(c.keyboard.layout.is_none());
    assert!(c.tiling.scrolling);
    assert!(c.outputs.is_empty());
    assert!(c.on_start.is_empty());
    assert_eq!(c.keybinds.len(), 31);
    assert_eq!(c.keybinds[0].keys, "Super+Ctrl+Return");
    assert_eq!(c.keybinds[13].keys, "Super+Ctrl+4");
    assert_eq!(c.keybinds[13].action, KeyAction::SwitchToWorkspace { workspace: 4 });
    assert_eq!(c.keybinds[27].keys, "Super+Ctrl+Shift+9");
    assert_eq!(c.keybinds[27].action, KeyAction::MoveToWorkspace { workspace: 9 });
    assert_eq!(c.keybinds[30].action, KeyAction::NewWorkspace);
}

#[test]
fn keybind_lookup_matches_modifiers_exactly_and_key_ignoring_case() {
    let c = Config::default();
    let super_ctrl = Modifiers { ctrl: true, alt: false, shift: false, logo: true };
    assert_eq!(
        find_keybind_action(&c.keybinds, super_ctrl, "RETURN"),
        Some(KeyAction::Spawn { command: "alacritty".to_string() })
    );
    assert_eq!(find_keybind_action(&c.keybinds, super_ctrl, "q"), Some(KeyAction::Close));
    let only_ctrl = Modifiers { ctrl: true, alt: false, shift: false, logo: false };
    assert_eq!(find_keybind_action(&c.keybinds, only_ctrl, "q"), None);
    let with_shift = Modifiers { ctrl: true, alt: false, shift: true, logo: true };
    assert_eq!(
        find_keybind_action(&c.keybinds, with_shift, "3"),
        Some(KeyAction::MoveToWorkspace { workspace: 3 })
    );
    assert_eq!(find_keybind_action(&c.keybinds, super_ctrl, "z"), None);
}

#[test]
fn default_keybinds_name_each_key_once() {
    let c = Config::default();
    let mut keys: Vec<&str> = c.keybinds.iter().map(|b| b.keys.as_str()).collect();
    keys.sort();
    keys.dedup();
    assert_eq!(keys.len(), 31);
}

#[test]
fn insert_keybind_replaces_or_appends() {
    let mut binds: Vec<Keybind> = Vec::new();
    insert_keybind(&mut binds, "Alt+x".to_string(), KeyAction::Quit);
    insert_keybind(&mut binds, "Alt+y".to_string(), KeyAction::Close);
    assert_eq!(binds.len(), 2);
    insert_keybind(&mut binds, "Alt+x".to_string(), KeyAction::FocusNext);
    assert_eq!(binds.len(), 2);
    assert_eq!(binds[0].keys, "Alt+x");
    assert_eq!(binds[0].action, KeyAction::FocusNext);
    assert_eq!(binds[1].keys, "Alt+y");
    assert_eq!(binds[1].action, KeyAction::Close);
    // Key strings are compared exactly, not by what they denote.
    insert_keybind(&mut binds, "alt+X".to_string(), KeyAction::Quit);
    assert_eq!(binds.len(), 3);
    assert_eq!(binds[2].keys, "alt+X");
}

#[test]
fn first_binding_wins() {
    let binds = vec![
        Keybind { keys: "Alt+x".to_string(), action: KeyAction::Quit },
        Keybind { keys: "alt+X".to_string(), action: KeyAction::Close },
    ];
    let alt = Modifiers { ctrl: false, alt: true, shift: false, logo: false };
    assert_eq!(find_keybind_action(&binds, alt, "x"), Some(KeyAction::Quit));
}

#[test]
fn decimal_ratio() {
    let r = Decimal { digits: 75, scale: 2 }.to_ratio();
    assert_eq!(r.num, 75);
    assert_eq!(r.den, 100);
}

#[test]
fn output_config_default_is_enabled() {
    let o = OutputConfig::default();
    assert!(o.enabled);
    assert!(o.name.is_empty());
    assert!(o.x.is_none() && o.y.is_none() && o.scale.is_none());
}
