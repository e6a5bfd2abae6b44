//! The commented TOML text that a configuration is saved as.
use vstd::prelude::*;

use crate::config::{Config, Decimal, KeyAction, Keybind, OutputConfig};
use vstd::seq_lib::lemma_concat_associative;
use crate::text::{decimal_text, decimal_to_text, i64_to_text, int_text, nat_text, u64_to_text};

verus! {

pub const HEADER: &'static str = "# Tomoe Window Manager Configuration\n# ==================================\n\n# Commands to run on startup\n# Example: on_start = [\"waybar\", \"mako\"]\n";

pub const ON_START_EMPTY: &'static str = "on_start = []\n\n";

pub const ON_START_PREFIX: &'static str = "on_start = ";

pub const BLANK_LINE: &'static str = "\n\n";

pub const NEWLINE: &'static str = "\n";

pub const GENERAL_HEAD: &'static str = "# General settings\n[general]\n# Gap between windows in pixels\ngap = ";

pub const MARGIN_HEAD: &'static str = "\n# Outer margin around the workspace\nmargin = ";

pub const KEYBOARD_HEAD: &'static str = "\n\n# Keyboard/input configuration\n# All fields are optional - empty values use system defaults\n[keyboard]\n# XKB layout(s), comma-separated for multiple (e.g., \"us,de,fr\")\n";

pub const LAYOUT_KEY: &'static str = "layout = \"";

pub const LAYOUT_ABSENT: &'static str = "# layout = \"us\"\n";

pub const VARIANT_HEAD: &'static str = "# XKB variant(s), comma-separated to match layouts\n";

pub const VARIANT_KEY: &'static str = "variant = \"";

pub const VARIANT_ABSENT: &'static str = "# variant = \"dvorak\"\n";

pub const OPTIONS_HEAD: &'static str = "# XKB options for layout switching, etc.\n# Common options:\n#   grp:alt_shift_toggle  - Alt+Shift to switch layouts\n#   grp:ctrl_shift_toggle - Ctrl+Shift to switch layouts\n#   grp:win_space_toggle  - Super+Space to switch layouts\n#   ctrl:nocaps           - Caps Lock as Ctrl\n";

pub const OPTIONS_KEY: &'static str = "options = \"";

pub const OPTIONS_ABSENT: &'static str = "# options = \"grp:alt_shift_toggle\"\n";

pub const QUOTE_LINE_END: &'static str = "\"\n";

/// The XKB rules line, written only when rules are set.
pub const RULES_KEY: &'static str = "rules = \"";

/// The XKB model line, written only when a model is set.
pub const MODEL_KEY: &'static str = "model = \"";

/// What stands for a line that is left out.
pub const NO_LINE: &'static str = "";

pub const REPEAT_DELAY_HEAD: &'static str = "# Key repeat delay in milliseconds\nrepeat_delay = ";

pub const REPEAT_RATE_HEAD: &'static str = "\n# Key repeat rate in milliseconds\nrepeat_rate = ";

pub const TILING_HEAD: &'static str = "\n\n# Tiling configuration\n[tiling]\n# Default window width as percentage of screen (0.0 - 1.0)\ndefault_window_width = ";

pub const SCROLLING_HEAD: &'static str = "\n# Enable scrolling tiling (niri-style horizontal scrolling)\nscrolling = ";

pub const OUTPUTS_HEAD: &'static str = "\n\n# Output/monitor configuration (optional)\n# If not specified, outputs are auto-detected and auto-arranged left-to-right\n# Example:\n# [[outputs]]\n# name = \"HDMI-A-1\"\n# x = 0\n# y = 0\n# scale = 1.0\n# mode = \"1920x1080@60\"\n#\n# [[outputs]]\n# name = \"eDP-1\"\n# x = 1920\n# y = 0\n# scale = 1.5\n\n";

pub const OUTPUT_NAME: &'static str = "[[outputs]]\nname = \"";

pub const OUTPUT_X: &'static str = "x = ";

pub const OUTPUT_Y: &'static str = "y = ";

pub const OUTPUT_SCALE: &'static str = "scale = ";

pub const OUTPUT_TRANSFORM: &'static str = "transform = \"";

pub const OUTPUT_MODE: &'static str = "mode = \"";

pub const OUTPUT_ENABLED: &'static str = "enabled = ";

pub const KEYBINDS_HEAD: &'static str = "# Keybindings\n# Format: \"Modifier+Key\" = { action = \"action_name\", ... }\n# Available modifiers: Super, Ctrl, Alt, Shift\n# Available actions:\n#   - spawn: { action = \"spawn\", command = \"program\" }\n#   - close: { action = \"close\" }\n#   - focus_next: { action = \"focus_next\" }\n#   - focus_prev: { action = \"focus_prev\" }\n#   - scroll_left: { action = \"scroll_left\" }\n#   - scroll_right: { action = \"scroll_right\" }\n#   - fullscreen: { action = \"fullscreen\" }\n#   - quit: { action = \"quit\" }\n#   - switch_to_workspace: { action = \"switch_to_workspace\", workspace = 1 }\n#   - next_workspace: { action = \"next_workspace\" }\n#   - prev_workspace: { action = \"prev_workspace\" }\n#   - move_to_workspace: { action = \"move_to_workspace\", workspace = 1 }\n#   - new_workspace: { action = \"new_workspace\" }\n#\n# Note: Using Super+Ctrl as base modifier for nested compositor compatibility\n[keybinds]\n";

pub const QUOTE: &'static str = "\"";

pub const KEY_SEPARATOR: &'static str = "\" = ";

pub const SPAWN_HEAD: &'static str = "{ action = \"spawn\", command = \"";

pub const SPAWN_TAIL: &'static str = "\" }";

pub const CLOSE: &'static str = "{ action = \"close\" }";

pub const FOCUS_NEXT: &'static str = "{ action = \"focus_next\" }";

pub const FOCUS_PREV: &'static str = "{ action = \"focus_prev\" }";

pub const SCROLL_LEFT: &'static str = "{ action = \"scroll_left\" }";

pub const SCROLL_RIGHT: &'static str = "{ action = \"scroll_right\" }";

pub const FULLSCREEN: &'static str = "{ action = \"fullscreen\" }";

pub const QUIT: &'static str = "{ action = \"quit\" }";

pub const SWITCH_HEAD: &'static str = "{ action = \"switch_to_workspace\", workspace = ";

pub const NEXT_WORKSPACE: &'static str = "{ action = \"next_workspace\" }";

pub const PREV_WORKSPACE: &'static str = "{ action = \"prev_workspace\" }";

pub const MOVE_HEAD: &'static str = "{ action = \"move_to_workspace\", workspace = ";

pub const NEW_WORKSPACE: &'static str = "{ action = \"new_workspace\" }";

pub const BRACE_TAIL: &'static str = " }";

pub const LIST_OPEN: &'static str = "[";

pub const LIST_CLOSE: &'static str = "]";

pub const LIST_SEPARATOR: &'static str = ", ";

pub const TRUE_TEXT: &'static str = "true";

pub const FALSE_TEXT: &'static str = "false";

/// Names the text that `Debug` writes for a string: the string in double
/// quotes, with quotes, backslashes and special characters escaped.
pub uninterp spec fn debug_text(s: Seq<char>) -> Seq<char>;

/// The `Debug` text of a string (a call of `format!("{:?}", ..)`).  The
/// contract claims only that the text is a function of the string's
/// characters (named `debug_text`); what that text is (the characters in
/// double quotes, escaped as `char::escape_debug` escapes them, which rests
/// on Unicode tables) is left unsaid.
#[verifier::external_body]
fn debug_string(s: &String) -> (r: String)
    ensures
        r@ == debug_text(s@),
{
    format!("{:?}", s)
}

pub open spec fn bool_text(b: bool) -> Seq<char> {
    if b {
        TRUE_TEXT@
    } else {
        FALSE_TEXT@
    }
}

/// The items of a list, separated by ", ".
pub open spec fn joined(items: Seq<Seq<char>>) -> Seq<char>
    decreases items.len(),
{
    if items.len() == 0 {
        Seq::empty()
    } else if items.len() == 1 {
        items[0]
    } else {
        joined(items.drop_last()) + LIST_SEPARATOR@ + items.last()
    }
}

/// How `Debug` writes a list whose items it writes as `items`.
pub open spec fn list_text(items: Seq<Seq<char>>) -> Seq<char> {
    LIST_OPEN@ + joined(items) + LIST_CLOSE@
}

/// A `key = "value"` line when the value is there, `absent` otherwise.
pub open spec fn string_line(value: Option<String>, key: Seq<char>, absent: Seq<char>) -> Seq<
    char,
> {
    match value {
        Some(v) => key + v@ + QUOTE_LINE_END@,
        None => absent,
    }
}

pub open spec fn decimal_value_text(d: Decimal) -> Seq<char> {
    decimal_text(d.digits as nat, d.scale as nat)
}

/// A `key = value` line for an integer that may be absent.
pub open spec fn int_line(value: Option<i32>, key: Seq<char>) -> Seq<char> {
    match value {
        Some(v) => key + int_text(v as int) + NEWLINE@,
        None => Seq::empty(),
    }
}

/// The `scale = ..` line of an output, when its scale is set.
pub open spec fn scale_line(value: Option<Decimal>) -> Seq<char> {
    match value {
        Some(s) => OUTPUT_SCALE@ + decimal_value_text(s) + NEWLINE@,
        None => Seq::empty(),
    }
}

/// The `[[outputs]]` table of one output.
pub open spec fn output_text(o: OutputConfig) -> Seq<char> {
    OUTPUT_NAME@ + o.name@ + QUOTE_LINE_END@ + int_line(o.x, OUTPUT_X@) + int_line(o.y, OUTPUT_Y@)
        + scale_line(o.scale) + string_line(o.transform, OUTPUT_TRANSFORM@, Seq::empty())
        + string_line(o.mode, OUTPUT_MODE@, Seq::empty()) + OUTPUT_ENABLED@ + bool_text(o.enabled)
        + BLANK_LINE@
}

pub open spec fn outputs_text(s: Seq<OutputConfig>) -> Seq<char>
    decreases s.len(),
{
    if s.len() == 0 {
        Seq::empty()
    } else {
        outputs_text(s.drop_last()) + output_text(s.last())
    }
}

/// The inline table that names an action.
pub open spec fn action_text(a: KeyAction) -> Seq<char> {
    match a {
        KeyAction::Spawn { command } => SPAWN_HEAD@ + command@ + SPAWN_TAIL@,
        KeyAction::Close => CLOSE@,
        KeyAction::FocusNext => FOCUS_NEXT@,
        KeyAction::FocusPrev => FOCUS_PREV@,
        KeyAction::ScrollLeft => SCROLL_LEFT@,
        KeyAction::ScrollRight => SCROLL_RIGHT@,
        KeyAction::Fullscreen => FULLSCREEN@,
        KeyAction::Quit => QUIT@,
        KeyAction::SwitchToWorkspace { workspace } => SWITCH_HEAD@ + nat_text(workspace as nat)
            + BRACE_TAIL@,
        KeyAction::NextWorkspace => NEXT_WORKSPACE@,
        KeyAction::PrevWorkspace => PREV_WORKSPACE@,
        KeyAction::MoveToWorkspace { workspace } => MOVE_HEAD@ + nat_text(workspace as nat)
            + BRACE_TAIL@,
        KeyAction::NewWorkspace => NEW_WORKSPACE@,
    }
}

/// The action that the tag `tag` names in the configuration file, for the
/// actions without fields (the variant names in snake case).
pub open spec fn unit_action_named(tag: Seq<char>) -> Option<KeyAction> {
    if tag == "close"@ {
        Some(KeyAction::Close)
    } else if tag == "focus_next"@ {
        Some(KeyAction::FocusNext)
    } else if tag == "focus_prev"@ {
        Some(KeyAction::FocusPrev)
    } else if tag == "scroll_left"@ {
        Some(KeyAction::ScrollLeft)
    } else if tag == "scroll_right"@ {
        Some(KeyAction::ScrollRight)
    } else if tag == "fullscreen"@ {
        Some(KeyAction::Fullscreen)
    } else if tag == "quit"@ {
        Some(KeyAction::Quit)
    } else if tag == "next_workspace"@ {
        Some(KeyAction::NextWorkspace)
    } else if tag == "prev_workspace"@ {
        Some(KeyAction::PrevWorkspace)
    } else if tag == "new_workspace"@ {
        Some(KeyAction::NewWorkspace)
    } else {
        None
    }
}

/// The text written for an action names that very action: an action
/// without fields is written `{ action = "<tag>" }` with the tag that
/// names it, and the others with their own tag and their field.
pub proof fn lemma_action_text_names_action(a: KeyAction)
    ensures
        match a {
            KeyAction::Spawn { command } => action_text(a) == "{ action = \"spawn\", command = \""@
                + command@ + "\" }"@,
            KeyAction::SwitchToWorkspace { workspace } => action_text(a)
                == "{ action = \"switch_to_workspace\", workspace = "@ + nat_text(workspace as nat)
                + " }"@,
            KeyAction::MoveToWorkspace { workspace } => action_text(a)
                == "{ action = \"move_to_workspace\", workspace = "@ + nat_text(workspace as nat)
                + " }"@,
            _ => exists|tag: Seq<char>|
                action_text(a) == "{ action = \""@ + tag + "\" }"@ && #[trigger] unit_action_named(tag)
                    == Some(a),
        },
{
    reveal_strlit("{ action = \"");
    reveal_strlit("\" }");
    reveal_strlit("close");
    reveal_strlit("focus_next");
    reveal_strlit("focus_prev");
    reveal_strlit("scroll_left");
    reveal_strlit("scroll_right");
    reveal_strlit("fullscreen");
    reveal_strlit("quit");
    reveal_strlit("next_workspace");
    reveal_strlit("prev_workspace");
    reveal_strlit("new_workspace");
    let head = "{ action = \""@;
    let tail = "\" }"@;
    match a {
        KeyAction::Spawn { command } => {
            reveal_strlit("{ action = \"spawn\", command = \"");
        },
        KeyAction::SwitchToWorkspace { workspace } => {
            reveal_strlit("{ action = \"switch_to_workspace\", workspace = ");
            reveal_strlit(" }");
        },
        KeyAction::MoveToWorkspace { workspace } => {
            reveal_strlit("{ action = \"move_to_workspace\", workspace = ");
            reveal_strlit(" }");
        },
        KeyAction::Close => {
            reveal_strlit("{ action = \"close\" }");
            assert(action_text(a) =~= head + "close"@ + tail);
            assert(unit_action_named("close"@) == Some(a));
        },
        KeyAction::FocusNext => {
            reveal_strlit("{ action = \"focus_next\" }");
            assert(action_text(a) =~= head + "focus_next"@ + tail);
            assert("focus_next"@.len() != "close"@.len());
            assert(unit_action_named("focus_next"@) == Some(a));
        },
        KeyAction::FocusPrev => {
            reveal_strlit("{ action = \"focus_prev\" }");
            assert(action_text(a) =~= head + "focus_prev"@ + tail);
            assert("focus_prev"@.len() != "close"@.len());
            assert("focus_prev"@[6] != "focus_next"@[6]);
            assert(unit_action_named("focus_prev"@) == Some(a));
        },
        KeyAction::ScrollLeft => {
            reveal_strlit("{ action = \"scroll_left\" }");
            assert(action_text(a) =~= head + "scroll_left"@ + tail);
            assert("scroll_left"@.len() != "close"@.len());
            assert("scroll_left"@.len() != "focus_next"@.len());
            assert("scroll_left"@.len() != "focus_prev"@.len());
            assert(unit_action_named("scroll_left"@) == Some(a));
        },
        KeyAction::ScrollRight => {
            reveal_strlit("{ action = \"scroll_right\" }");
            assert(action_text(a) =~= head + "scroll_right"@ + tail);
            assert("scroll_right"@.len() != "close"@.len());
            assert("scroll_right"@.len() != "focus_next"@.len());
            assert("scroll_right"@.len() != "focus_prev"@.len());
            assert("scroll_right"@.len() != "scroll_left"@.len());
            assert(unit_action_named("scroll_right"@) == Some(a));
        },
        KeyAction::Fullscreen => {
            reveal_strlit("{ action = \"fullscreen\" }");
            assert(action_text(a) =~= head + "fullscreen"@ + tail);
            assert("fullscreen"@.len() != "close"@.len());
            assert("fullscreen"@[1] != "focus_next"@[1]);
            assert("fullscreen"@[1] != "focus_prev"@[1]);
            assert("fullscreen"@.len() != "scroll_left"@.len());
            assert("fullscreen"@.len() != "scroll_right"@.len());
            assert(unit_action_named("fullscreen"@) == Some(a));
        },
        KeyAction::Quit => {
            reveal_strlit("{ action = \"quit\" }");
            assert(action_text(a) =~= head + "quit"@ + tail);
            assert("quit"@.len() != "close"@.len());
            assert("quit"@.len() != "focus_next"@.len());
            assert("quit"@.len() != "focus_prev"@.len());
            assert("quit"@.len() != "scroll_left"@.len());
            assert("quit"@.len() != "scroll_right"@.len());
            assert("quit"@.len() != "fullscreen"@.len());
            assert(unit_action_named("quit"@) == Some(a));
        },
        KeyAction::NextWorkspace => {
            reveal_strlit("{ action = \"next_workspace\" }");
            assert(action_text(a) =~= head + "next_workspace"@ + tail);
            assert("next_workspace"@.len() != "close"@.len());
            assert("next_workspace"@.len() != "focus_next"@.len());
            assert("next_workspace"@.len() != "focus_prev"@.len());
            assert("next_workspace"@.len() != "scroll_left"@.len());
            assert("next_workspace"@.len() != "scroll_right"@.len());
            assert("next_workspace"@.len() != "fullscreen"@.len());
            assert("next_workspace"@.len() != "quit"@.len());
            assert(unit_action_named("next_workspace"@) == Some(a));
        },
        KeyAction::PrevWorkspace => {
            reveal_strlit("{ action = \"prev_workspace\" }");
            assert(action_text(a) =~= head + "prev_workspace"@ + tail);
            assert("prev_workspace"@.len() != "close"@.len());
            assert("prev_workspace"@.len() != "focus_next"@.len());
            assert("prev_workspace"@.len() != "focus_prev"@.len());
            assert("prev_workspace"@.len() != "scroll_left"@.len());
            assert("prev_workspace"@.len() != "scroll_right"@.len());
            assert("prev_workspace"@.len() != "fullscreen"@.len());
            assert("prev_workspace"@.len() != "quit"@.len());
            assert("prev_workspace"@[0] != "next_workspace"@[0]);
            assert(unit_action_named("prev_workspace"@) == Some(a));
        },
        KeyAction::NewWorkspace => {
            reveal_strlit("{ action = \"new_workspace\" }");
            assert(action_text(a) =~= head + "new_workspace"@ + tail);
            assert("new_workspace"@.len() != "close"@.len());
            assert("new_workspace"@.len() != "focus_next"@.len());
            assert("new_workspace"@.len() != "focus_prev"@.len());
            assert("new_workspace"@.len() != "scroll_left"@.len());
            assert("new_workspace"@.len() != "scroll_right"@.len());
            assert("new_workspace"@.len() != "fullscreen"@.len());
            assert("new_workspace"@.len() != "quit"@.len());
            assert("new_workspace"@.len() != "next_workspace"@.len());
            assert("new_workspace"@.len() != "prev_workspace"@.len());
            assert(unit_action_named("new_workspace"@) == Some(a));
        },
    }
}

pub open spec fn keybind_text(b: Keybind) -> Seq<char> {
    QUOTE@ + b.keys@ + KEY_SEPARATOR@ + action_text(b.action) + NEWLINE@
}

pub open spec fn keybinds_text(s: Seq<Keybind>) -> Seq<char>
    decreases s.len(),
{
    if s.len() == 0 {
        Seq::empty()
    } else {
        keybinds_text(s.drop_last()) + keybind_text(s.last())
    }
}

/// The `on_start` line, with the startup commands that `Debug` writes as `quoted`.
pub open spec fn on_start_text(c: Config, quoted: Seq<Seq<char>>) -> Seq<char> {
    if c.on_start@.len() == 0 {
        ON_START_EMPTY@
    } else {
        ON_START_PREFIX@ + list_text(quoted) + BLANK_LINE@
    }
}

/// The saved text of configuration `c`, whose startup commands `Debug`
/// writes as `quoted`.
pub open spec fn config_text(c: Config, quoted: Seq<Seq<char>>) -> Seq<char> {
    HEADER@ + on_start_text(c, quoted) + GENERAL_HEAD@ + int_text(c.general.gap as int) + MARGIN_HEAD@ + int_text(
        c.general.margin as int,
    ) + KEYBOARD_HEAD@ + string_line(c.keyboard.layout, LAYOUT_KEY@, LAYOUT_ABSENT@)
        + VARIANT_HEAD@ + string_line(c.keyboard.variant, VARIANT_KEY@, VARIANT_ABSENT@)
        + OPTIONS_HEAD@ + string_line(c.keyboard.options, OPTIONS_KEY@, OPTIONS_ABSENT@)
        + string_line(c.keyboard.rules, RULES_KEY@, NO_LINE@) + string_line(
        c.keyboard.model,
        MODEL_KEY@,
        NO_LINE@,
    ) + REPEAT_DELAY_HEAD@ + int_text(c.keyboard.repeat_delay as int) + REPEAT_RATE_HEAD@
        + int_text(c.keyboard.repeat_rate as int) + TILING_HEAD@ + decimal_value_text(
        c.tiling.default_window_width,
    ) + SCROLLING_HEAD@ + bool_text(c.tiling.scrolling) + OUTPUTS_HEAD@ + outputs_text(
        c.outputs@,
    ) + KEYBINDS_HEAD@ + keybinds_text(c.keybinds@)
}

/// Whether a configuration's decimals can be written (their scale is in range).
pub open spec fn decimals_valid(c: Config) -> bool {
    &&& c.tiling.default_window_width.valid()
    &&& forall|i: int|
        0 <= i < c.outputs@.len() ==> ((#[trigger] c.outputs@[i]).scale matches Some(s)
            ==> s.valid())
}

fn push_bool(out: &mut String, b: bool)
    ensures
        final(out)@ == old(out)@ + bool_text(b),
{
    if b {
        out.append(TRUE_TEXT);
    } else {
        out.append(FALSE_TEXT);
    }
}

fn push_int(out: &mut String, v: i32)
    ensures
        final(out)@ == old(out)@ + int_text(v as int),
{
    let t = i64_to_text(v as i64);
    out.append(t.as_str());
}

fn push_decimal(out: &mut String, d: Decimal)
    requires
        d.valid(),
    ensures
        final(out)@ == old(out)@ + decimal_value_text(d),
{
    let t = decimal_to_text(d.digits, d.scale);
    out.append(t.as_str());
}

fn push_string_line(out: &mut String, value: &Option<String>, key: &str, absent: &str)
    ensures
        final(out)@ == old(out)@ + string_line(*value, key@, absent@),
{
    match value {
        Some(v) => {
            out.append(key);
            out.append(v.as_str());
            out.append(QUOTE_LINE_END);
        },
        None => {
            out.append(absent);
        },
    }
}

fn push_int_line(out: &mut String, value: Option<i32>, key: &str)
    ensures
        final(out)@ == old(out)@ + int_line(value, key@),
{
    if let Some(v) = value {
        out.append(key);
        push_int(out, v);
        out.append(NEWLINE);
    } else {
        assert(old(out)@ + Seq::<char>::empty() =~= old(out)@);
    }
}

fn push_scale_line(out: &mut String, value: Option<Decimal>)
    requires
        value matches Some(s) ==> s.valid(),
    ensures
        final(out)@ == old(out)@ + scale_line(value),
{
    if let Some(s) = value {
        out.append(OUTPUT_SCALE);
        push_decimal(out, s);
        out.append(NEWLINE);
    } else {
        assert(old(out)@ + Seq::<char>::empty() =~= old(out)@);
    }
}

fn push_output(out: &mut String, o: &OutputConfig)
    requires
        o.scale matches Some(s) ==> s.valid(),
    ensures
        final(out)@ == old(out)@ + output_text(*o),
{
    let ghost start = old(out)@;
    out.append(OUTPUT_NAME);
    let ghost mut acc = OUTPUT_NAME@;
    out.append(o.name.as_str());
    proof {
        lemma_concat_associative(start, acc, o.name@);
        acc = acc + o.name@;
    }
    out.append(QUOTE_LINE_END);
    proof {
        lemma_concat_associative(start, acc, QUOTE_LINE_END@);
        acc = acc + QUOTE_LINE_END@;
    }
    push_int_line(out, o.x, OUTPUT_X);
    proof {
        lemma_concat_associative(start, acc, int_line(o.x, OUTPUT_X@));
        acc = acc + int_line(o.x, OUTPUT_X@);
    }
    push_int_line(out, o.y, OUTPUT_Y);
    proof {
        lemma_concat_associative(start, acc, int_line(o.y, OUTPUT_Y@));
        acc = acc + int_line(o.y, OUTPUT_Y@);
    }
    push_scale_line(out, o.scale);
    proof {
        lemma_concat_associative(start, acc, scale_line(o.scale));
        acc = acc + scale_line(o.scale);
    }
    push_string_line(out, &o.transform, OUTPUT_TRANSFORM, "");
    proof {
        reveal_strlit("");
        let piece = string_line(o.transform, OUTPUT_TRANSFORM@, Seq::empty());
        assert(""@ =~= Seq::<char>::empty());
        lemma_concat_associative(start, acc, piece);
        acc = acc + piece;
    }
    push_string_line(out, &o.mode, OUTPUT_MODE, "");
    proof {
        reveal_strlit("");
        let piece = string_line(o.mode, OUTPUT_MODE@, Seq::empty());
        assert(""@ =~= Seq::<char>::empty());
        lemma_concat_associative(start, acc, piece);
        acc = acc + piece;
    }
    out.append(OUTPUT_ENABLED);
    proof {
        lemma_concat_associative(start, acc, OUTPUT_ENABLED@);
        acc = acc + OUTPUT_ENABLED@;
    }
    push_bool(out, o.enabled);
    proof {
        lemma_concat_associative(start, acc, bool_text(o.enabled));
        acc = acc + bool_text(o.enabled);
    }
    out.append(BLANK_LINE);
    proof {
        lemma_concat_associative(start, acc, BLANK_LINE@);
        acc = acc + BLANK_LINE@;
    }
}

fn push_action(out: &mut String, a: &KeyAction)
    ensures
        final(out)@ == old(out)@ + action_text(*a),
{
    match a {
        KeyAction::Spawn { command } => {
            out.append(SPAWN_HEAD);
            out.append(command.as_str());
            out.append(SPAWN_TAIL);
        },
        KeyAction::Close => out.append(CLOSE),
        KeyAction::FocusNext => out.append(FOCUS_NEXT),
        KeyAction::FocusPrev => out.append(FOCUS_PREV),
        KeyAction::ScrollLeft => out.append(SCROLL_LEFT),
        KeyAction::ScrollRight => out.append(SCROLL_RIGHT),
        KeyAction::Fullscreen => out.append(FULLSCREEN),
        KeyAction::Quit => out.append(QUIT),
        KeyAction::SwitchToWorkspace { workspace } => {
            out.append(SWITCH_HEAD);
            let t = u64_to_text(*workspace as u64);
            out.append(t.as_str());
            out.append(BRACE_TAIL);
        },
        KeyAction::NextWorkspace => out.append(NEXT_WORKSPACE),
        KeyAction::PrevWorkspace => out.append(PREV_WORKSPACE),
        KeyAction::MoveToWorkspace { workspace } => {
            out.append(MOVE_HEAD);
            let t = u64_to_text(*workspace as u64);
            out.append(t.as_str());
            out.append(BRACE_TAIL);
        },
        KeyAction::NewWorkspace => out.append(NEW_WORKSPACE),
    }
}

fn push_keybind(out: &mut String, b: &Keybind)
    ensures
        final(out)@ == old(out)@ + keybind_text(*b),
{
    let ghost start = old(out)@;
    out.append(QUOTE);
    out.append(b.keys.as_str());
    proof {
        lemma_concat_associative(start, QUOTE@, b.keys@);
    }
    out.append(KEY_SEPARATOR);
    proof {
        lemma_concat_associative(start, QUOTE@ + b.keys@, KEY_SEPARATOR@);
    }
    push_action(out, &b.action);
    proof {
        lemma_concat_associative(start, QUOTE@ + b.keys@ + KEY_SEPARATOR@, action_text(b.action));
    }
    out.append(NEWLINE);
    proof {
        lemma_concat_associative(
            start,
            QUOTE@ + b.keys@ + KEY_SEPARATOR@ + action_text(b.action),
            NEWLINE@,
        );
    }
}

/// The list `items` as `Debug` writes a list of strings, given the `Debug`
/// text of each item.
pub fn list_to_text(items: &Vec<String>) -> (r: String)
    ensures
        r@ == list_text(items@.map_values(|s: String| s@)),
{
    let ghost views = items@.map_values(|s: String| s@);
    let mut out = String::from_str(LIST_OPEN);
    let mut i: usize = 0;
    while i < items.len()
        invariant
            0 <= i <= items@.len(),
            views == items@.map_values(|s: String| s@),
            out@ == LIST_OPEN@ + joined(views.take(i as int)),
        decreases items@.len() - i,
    {
        let ghost t = views.take(i + 1);
        assert(t.drop_last() =~= views.take(i as int));
        assert(t.last() == items@[i as int]@);
        if i > 0 {
            out.append(LIST_SEPARATOR);
        } else {
            assert(views.take(0) =~= Seq::<Seq<char>>::empty());
        }
        out.append(items[i].as_str());
        i = i + 1;
    }
    assert(views.take(items@.len() as int) =~= views);
    out.append(LIST_CLOSE);
    out
}

impl Config {
    /// Generate the TOML text of this configuration, with helpful comments,
    /// given the `Debug` text of each startup command.
    pub fn render_toml(&self, quoted_on_start: &Vec<String>) -> (r: String)
        requires
            decimals_valid(*self),
        ensures
            r@ == config_text(*self, quoted_on_start@.map_values(|s: String| s@)),
    {
        let mut output = String::from_str(HEADER);
        // Root-level settings (before any section headers)
        if self.on_start.len() == 0 {
            output.append(ON_START_EMPTY);
        } else {
            output.append(ON_START_PREFIX);
            let list = list_to_text(quoted_on_start);
            output.append(list.as_str());
            output.append(BLANK_LINE);
            proof {
                lemma_concat_associative(HEADER@, ON_START_PREFIX@, list@);
                lemma_concat_associative(HEADER@, ON_START_PREFIX@ + list@, BLANK_LINE@);
            }
        }
        output.append(GENERAL_HEAD);
        push_int(&mut output, self.general.gap);
        output.append(MARGIN_HEAD);
        push_int(&mut output, self.general.margin);
        output.append(KEYBOARD_HEAD);
        push_string_line(&mut output, &self.keyboard.layout, LAYOUT_KEY, LAYOUT_ABSENT);
        output.append(VARIANT_HEAD);
        push_string_line(&mut output, &self.keyboard.variant, VARIANT_KEY, VARIANT_ABSENT);
        output.append(OPTIONS_HEAD);
        push_string_line(&mut output, &self.keyboard.options, OPTIONS_KEY, OPTIONS_ABSENT);
        push_string_line(&mut output, &self.keyboard.rules, RULES_KEY, NO_LINE);
        push_string_line(&mut output, &self.keyboard.model, MODEL_KEY, NO_LINE);
        output.append(REPEAT_DELAY_HEAD);
        push_int(&mut output, self.keyboard.repeat_delay);
        output.append(REPEAT_RATE_HEAD);
        push_int(&mut output, self.keyboard.repeat_rate);
        output.append(TILING_HEAD);
        push_decimal(&mut output, self.tiling.default_window_width);
        output.append(SCROLLING_HEAD);
        push_bool(&mut output, self.tiling.scrolling);
        output.append(OUTPUTS_HEAD);
        let ghost before_outputs = output@;
        assert(before_outputs + outputs_text(self.outputs@.take(0)) =~= before_outputs);
        let mut i: usize = 0;
        while i < self.outputs.len()
            invariant
                0 <= i <= self.outputs@.len(),
                decimals_valid(*self),
                output@ == before_outputs + outputs_text(self.outputs@.take(i as int)),
            decreases self.outputs@.len() - i,
        {
            assert(self.outputs@[i as int].scale matches Some(s) ==> s.valid());
            push_output(&mut output, &self.outputs[i]);
            proof {
                lemma_concat_associative(
                    before_outputs,
                    outputs_text(self.outputs@.take(i as int)),
                    output_text(self.outputs@[i as int]),
                );
                let t = self.outputs@.take(i + 1);
                assert(t.drop_last() =~= self.outputs@.take(i as int));
                assert(t.last() == self.outputs@[i as int]);
            }
            i = i + 1;
        }
        assert(self.outputs@.take(self.outputs@.len() as int) =~= self.outputs@);
        output.append(KEYBINDS_HEAD);
        let ghost before_binds = output@;
        assert(before_binds + keybinds_text(self.keybinds@.take(0)) =~= before_binds);
        let mut k: usize = 0;
        while k < self.keybinds.len()
            invariant
                0 <= k <= self.keybinds@.len(),
                output@ == before_binds + keybinds_text(self.keybinds@.take(k as int)),
            decreases self.keybinds@.len() - k,
        {
            push_keybind(&mut output, &self.keybinds[k]);
            proof {
                lemma_concat_associative(
                    before_binds,
                    keybinds_text(self.keybinds@.take(k as int)),
                    keybind_text(self.keybinds@[k as int]),
                );
                let t = self.keybinds@.take(k + 1);
                assert(t.drop_last() =~= self.keybinds@.take(k as int));
                assert(t.last() == self.keybinds@[k as int]);
            }
            k = k + 1;
        }
        assert(self.keybinds@.take(self.keybinds@.len() as int) =~= self.keybinds@);
        output
    }

    /// Generate the TOML text of this configuration, with helpful comments.
    pub fn to_toml_with_comments(&self) -> (r: String)
        requires
            decimals_valid(*self),
        ensures
            r@ == config_text(*self, self.on_start@.map_values(|s: String| debug_text(s@))),
    {
        let mut quoted: Vec<String> = Vec::new();
        let mut i: usize = 0;
        while i < self.on_start.len()
            invariant
                0 <= i <= self.on_start@.len(),
                quoted@.len() == i,
                forall|k: int| 0 <= k < i ==> (#[trigger] quoted@[k])@ == debug_text(self.on_start@[k]@),
            decreases self.on_start@.len() - i,
        {
            quoted.push(debug_string(&self.on_start[i]));
            i = i + 1;
        }
        proof {
            assert(quoted@.map_values(|s: String| s@) =~= self.on_start@.map_values(
                |s: String| debug_text(s@),
            ));
        }
        self.render_toml(&quoted)
    }
}

} // verus!
