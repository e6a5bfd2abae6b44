use tomoe::config::{Config, Decimal, KeyAction, Keybind, OutputConfig};
use tomoe::text::{contains_text, decimal_to_text, i64_to_text, split_whitespace, u64_to_text};

#[test]
fn number_text() {
    assert_eq!(u64_to_text(0), "0");
    assert_eq!(u64_to_text(18446744073709551615), "18446744073709551615");
    assert_eq!(i64_to_text(-42), "-42");
    assert_eq!(i64_to_text(i64::MIN), "-9223372036854775808");
}

#[test]
fn decimal_text_like_float_display() {
    assert_eq!(decimal_to_text(5, 1), "0.5");
    assert_eq!(decimal_to_text(15, 1), "1.5");
    assert_eq!(decimal_to_text(10, 1), "1");
    assert_eq!(decimal_to_text(125, 2), "1.25");
    assert_eq!(decimal_to_text(7, 0), "7");
    assert_eq!(decimal_to_text(0, 3), "0");
}

#[test]
fn split_and_search() {
    assert_eq!(split_whitespace(" a  bc\n"), vec!["a".to_string(), "bc".to_string()]);
    assert!(split_whitespace(" \t ").is_empty());
    assert!(contains_text("xx AlreadySwapped yy", "AlreadySwapped"));
    assert!(!contains_text("Already Swapped", "AlreadySwapped"));
    assert!(contains_text("abc", ""));
    assert!(!contains_text("ab", "abc"));
}

#[test]
fn default_config_text() {
    let text = Config::default().to_toml_with_comments();
    assert!(text.starts_with("# Tomoe Window Manager Configuration\n"));
    assert!(text.contains("on_start = []\n\n# General settings\n[general]\n"));
    assert!(text.contains("gap = 8\n# Outer margin around the workspace\nmargin = 8\n"));
    assert!(text.contains("# layout = \"us\"\n"));
    assert!(text.contains("repeat_delay = 200\n# Key repeat rate in milliseconds\nrepeat_rate = 25\n\n"));
    assert!(text.contains("default_window_width = 0.5\n"));
    assert!(text.contains("scrolling = true\n\n"));
    assert!(text.contains(
        "\"Super+Ctrl+d\" = { action = \"spawn\", command = \"wofi --show drun\" }\n"
    ));
    assert!(text.contains("\"Super+Ctrl+3\" = { action = \"switch_to_workspace\", workspace = 3 }\n"));
    assert!(text.ends_with("\"Super+Ctrl+n\" = { action = \"new_workspace\" }\n"));
}

#[test]
fn config_text_with_outputs_and_startup_commands() {
    let mut c = Config::default();
    c.on_start = vec!["waybar".to_string(), "say \"hi\"".to_string()];
    c.keyboard.layout = Some("us,de".to_string());
    c.outputs = vec![OutputConfig {
        name: "eDP-1".to_string(),
        x: Some(0),
        y: Some(-10),
        scale: Some(Decimal { digits: 15, scale: 1 }),
        transform: None,
        mode: Some("1920x1080@60".to_string()),
        enabled: false,
    }];
    c.keybinds = vec![Keybind { keys: "Alt+q".to_string(), action: KeyAction::Quit }];
    let text = c.to_toml_with_comments();
    assert!(text.contains("on_start = [\"waybar\", \"say \\\"hi\\\"\"]\n\n"));
    assert!(text.contains("layout = \"us,de\"\n"));
    assert!(!text.contains("rules = "));
    let mut k = Config::default();
    k.keyboard.rules = Some("evdev".to_string());
    k.keyboard.model = Some("pc105".to_string());
    let saved = k.to_toml_with_comments();
    assert!(saved.contains("options = \"grp:alt_shift_toggle\"\nrules = \"evdev\"\nmodel = \"pc105\"\n# Key repeat delay"));
    assert!(text.contains(
        "[[outputs]]\nname = \"eDP-1\"\nx = 0\ny = -10\nscale = 1.5\nmode = \"1920x1080@60\"\nenabled = false\n\n"
    ));
    assert!(text.ends_with("[keybinds]\n\"Alt+q\" = { action = \"quit\" }\n"));
}
