//! What a bound key does: key names for keysyms, and the window-management
//! step that each keybinding action takes.
//!
//! The compositor reads key events and performs the outward effects (spawning
//! a process, asking a client to close, moving keyboard focus); the decisions
//! are taken here, on the tiling layout and the workspace layout.
use vstd::prelude::*;

use crate::config::KeyAction;
use crate::geometry::Size;
use crate::layout::{all_monitor_configures, Layout, LayoutModel};
use crate::monitor::MonitorModel;
use crate::text::{split_whitespace, words_from};
use crate::tiling::{Configure, TilingLayout, TilingModel, WindowId};
use crate::workspace::WorkspaceId;

verus! {

/// Wrapper for winit input events
pub struct WinitInputEvent<I>(pub I);

/// The name a keybinding uses for the keysym `sym`, for the keys that have
/// a fixed name.
pub open spec fn named_key(sym: u32) -> Option<Seq<char>> {
    match sym {
        0xff0d => Some("Return"@),
        0xff1b => Some("Escape"@),
        0xff08 => Some("BackSpace"@),
        0xff09 => Some("Tab"@),
        0x20 => Some("space"@),
        0xff51 => Some("Left"@),
        0xff53 => Some("Right"@),
        0xff52 => Some("Up"@),
        0xff54 => Some("Down"@),
        0xff50 => Some("Home"@),
        0xff57 => Some("End"@),
        0xff55 => Some("Page_Up"@),
        0xff56 => Some("Page_Down"@),
        0xffff => Some("Delete"@),
        0xff63 => Some("Insert"@),
        0xffbe => Some("F1"@),
        0xffbf => Some("F2"@),
        0xffc0 => Some("F3"@),
        0xffc1 => Some("F4"@),
        0xffc2 => Some("F5"@),
        0xffc3 => Some("F6"@),
        0xffc4 => Some("F7"@),
        0xffc5 => Some("F8"@),
        0xffc6 => Some("F9"@),
        0xffc7 => Some("F10"@),
        0xffc8 => Some("F11"@),
        0xffc9 => Some("F12"@),
        _ => None,
    }
}

/// The keysym that X names `name`, for the names of the keys that have a
/// fixed name in keybindings (X's keysym names, by length, then by name).
pub open spec fn keysym_of_name(name: Seq<char>) -> Option<u32> {
    if name.len() == 2 {
        if name == "F1"@ {
            Some(0xffbe)
        } else if name == "F2"@ {
            Some(0xffbf)
        } else if name == "F3"@ {
            Some(0xffc0)
        } else if name == "F4"@ {
            Some(0xffc1)
        } else if name == "F5"@ {
            Some(0xffc2)
        } else if name == "F6"@ {
            Some(0xffc3)
        } else if name == "F7"@ {
            Some(0xffc4)
        } else if name == "F8"@ {
            Some(0xffc5)
        } else if name == "F9"@ {
            Some(0xffc6)
        } else if name == "Up"@ {
            Some(0xff52)
        } else {
            None
        }
    } else if name.len() == 3 {
        if name == "End"@ {
            Some(0xff57)
        } else if name == "F10"@ {
            Some(0xffc7)
        } else if name == "F11"@ {
            Some(0xffc8)
        } else if name == "F12"@ {
            Some(0xffc9)
        } else if name == "Tab"@ {
            Some(0xff09)
        } else {
            None
        }
    } else if name.len() == 4 {
        if name == "Down"@ {
            Some(0xff54)
        } else if name == "Home"@ {
            Some(0xff50)
        } else if name == "Left"@ {
            Some(0xff51)
        } else {
            None
        }
    } else if name.len() == 5 {
        if name == "Right"@ {
            Some(0xff53)
        } else if name == "space"@ {
            Some(0x20)
        } else {
            None
        }
    } else if name.len() == 6 {
        if name == "Delete"@ {
            Some(0xffff)
        } else if name == "Escape"@ {
            Some(0xff1b)
        } else if name == "Insert"@ {
            Some(0xff63)
        } else if name == "Return"@ {
            Some(0xff0d)
        } else {
            None
        }
    } else if name.len() == 7 {
        if name == "Page_Up"@ {
            Some(0xff55)
        } else {
            None
        }
    } else if name.len() == 9 {
        if name == "BackSpace"@ {
            Some(0xff08)
        } else if name == "Page_Down"@ {
            Some(0xff56)
        } else {
            None
        }
    } else {
        None
    }
}

/// Each fixed key name is the X name of that very keysym: looking the name
/// up again gives back the keysym (so no two keys share a name, and the
/// arrow keys are not crossed).
pub proof fn lemma_key_name_round_trip(sym: u32)
    ensures
        named_key(sym) matches Some(n) ==> keysym_of_name(n) == Some(sym),
{
    reveal_strlit("BackSpace");
    reveal_strlit("Delete");
    reveal_strlit("Down");
    reveal_strlit("End");
    reveal_strlit("Escape");
    reveal_strlit("F1");
    reveal_strlit("F10");
    reveal_strlit("F11");
    reveal_strlit("F12");
    reveal_strlit("F2");
    reveal_strlit("F3");
    reveal_strlit("F4");
    reveal_strlit("F5");
    reveal_strlit("F6");
    reveal_strlit("F7");
    reveal_strlit("F8");
    reveal_strlit("F9");
    reveal_strlit("Home");
    reveal_strlit("Insert");
    reveal_strlit("Left");
    reveal_strlit("Page_Down");
    reveal_strlit("Page_Up");
    reveal_strlit("Return");
    reveal_strlit("Right");
    reveal_strlit("Tab");
    reveal_strlit("Up");
    reveal_strlit("space");
    if sym == 0xff08 {
        assert(keysym_of_name("BackSpace"@) == Some(0xff08u32));
    }
    if sym == 0xffff {
        assert(keysym_of_name("Delete"@) == Some(0xffffu32));
    }
    if sym == 0xff54 {
        assert(keysym_of_name("Down"@) == Some(0xff54u32));
    }
    if sym == 0xff57 {
        assert(keysym_of_name("End"@) == Some(0xff57u32));
    }
    if sym == 0xff1b {
        assert("Escape"@[0] != "Delete"@[0]);
        assert(keysym_of_name("Escape"@) == Some(0xff1bu32));
    }
    if sym == 0xffbe {
        assert(keysym_of_name("F1"@) == Some(0xffbeu32));
    }
    if sym == 0xffc7 {
        assert("F10"@[0] != "End"@[0]);
        assert(keysym_of_name("F10"@) == Some(0xffc7u32));
    }
    if sym == 0xffc8 {
        assert("F11"@[0] != "End"@[0]);
        assert("F11"@[2] != "F10"@[2]);
        assert(keysym_of_name("F11"@) == Some(0xffc8u32));
    }
    if sym == 0xffc9 {
        assert("F12"@[0] != "End"@[0]);
        assert("F12"@[2] != "F10"@[2]);
        assert("F12"@[2] != "F11"@[2]);
        assert(keysym_of_name("F12"@) == Some(0xffc9u32));
    }
    if sym == 0xffbf {
        assert("F2"@[1] != "F1"@[1]);
        assert(keysym_of_name("F2"@) == Some(0xffbfu32));
    }
    if sym == 0xffc0 {
        assert("F3"@[1] != "F1"@[1]);
        assert("F3"@[1] != "F2"@[1]);
        assert(keysym_of_name("F3"@) == Some(0xffc0u32));
    }
    if sym == 0xffc1 {
        assert("F4"@[1] != "F1"@[1]);
        assert("F4"@[1] != "F2"@[1]);
        assert("F4"@[1] != "F3"@[1]);
        assert(keysym_of_name("F4"@) == Some(0xffc1u32));
    }
    if sym == 0xffc2 {
        assert("F5"@[1] != "F1"@[1]);
        assert("F5"@[1] != "F2"@[1]);
        assert("F5"@[1] != "F3"@[1]);
        assert("F5"@[1] != "F4"@[1]);
        assert(keysym_of_name("F5"@) == Some(0xffc2u32));
    }
    if sym == 0xffc3 {
        assert("F6"@[1] != "F1"@[1]);
        assert("F6"@[1] != "F2"@[1]);
        assert("F6"@[1] != "F3"@[1]);
        assert("F6"@[1] != "F4"@[1]);
        assert("F6"@[1] != "F5"@[1]);
        assert(keysym_of_name("F6"@) == Some(0xffc3u32));
    }
    if sym == 0xffc4 {
        assert("F7"@[1] != "F1"@[1]);
        assert("F7"@[1] != "F2"@[1]);
        assert("F7"@[1] != "F3"@[1]);
        assert("F7"@[1] != "F4"@[1]);
        assert("F7"@[1] != "F5"@[1]);
        assert("F7"@[1] != "F6"@[1]);
        assert(keysym_of_name("F7"@) == Some(0xffc4u32));
    }
    if sym == 0xffc5 {
        assert("F8"@[1] != "F1"@[1]);
        assert("F8"@[1] != "F2"@[1]);
        assert("F8"@[1] != "F3"@[1]);
        assert("F8"@[1] != "F4"@[1]);
        assert("F8"@[1] != "F5"@[1]);
        assert("F8"@[1] != "F6"@[1]);
        assert("F8"@[1] != "F7"@[1]);
        assert(keysym_of_name("F8"@) == Some(0xffc5u32));
    }
    if sym == 0xffc6 {
        assert("F9"@[1] != "F1"@[1]);
        assert("F9"@[1] != "F2"@[1]);
        assert("F9"@[1] != "F3"@[1]);
        assert("F9"@[1] != "F4"@[1]);
        assert("F9"@[1] != "F5"@[1]);
        assert("F9"@[1] != "F6"@[1]);
        assert("F9"@[1] != "F7"@[1]);
        assert("F9"@[1] != "F8"@[1]);
        assert(keysym_of_name("F9"@) == Some(0xffc6u32));
    }
    if sym == 0xff50 {
        assert("Home"@[0] != "Down"@[0]);
        assert(keysym_of_name("Home"@) == Some(0xff50u32));
    }
    if sym == 0xff63 {
        assert("Insert"@[0] != "Delete"@[0]);
        assert("Insert"@[0] != "Escape"@[0]);
        assert(keysym_of_name("Insert"@) == Some(0xff63u32));
    }
    if sym == 0xff51 {
        assert("Left"@[0] != "Down"@[0]);
        assert("Left"@[0] != "Home"@[0]);
        assert(keysym_of_name("Left"@) == Some(0xff51u32));
    }
    if sym == 0xff56 {
        assert("Page_Down"@[0] != "BackSpace"@[0]);
        assert(keysym_of_name("Page_Down"@) == Some(0xff56u32));
    }
    if sym == 0xff55 {
        assert(keysym_of_name("Page_Up"@) == Some(0xff55u32));
    }
    if sym == 0xff0d {
        assert("Return"@[0] != "Delete"@[0]);
        assert("Return"@[0] != "Escape"@[0]);
        assert("Return"@[0] != "Insert"@[0]);
        assert(keysym_of_name("Return"@) == Some(0xff0du32));
    }
    if sym == 0xff53 {
        assert(keysym_of_name("Right"@) == Some(0xff53u32));
    }
    if sym == 0xff09 {
        assert("Tab"@[0] != "End"@[0]);
        assert("Tab"@[0] != "F10"@[0]);
        assert("Tab"@[0] != "F11"@[0]);
        assert("Tab"@[0] != "F12"@[0]);
        assert(keysym_of_name("Tab"@) == Some(0xff09u32));
    }
    if sym == 0xff52 {
        assert("Up"@[0] != "F1"@[0]);
        assert("Up"@[0] != "F2"@[0]);
        assert("Up"@[0] != "F3"@[0]);
        assert("Up"@[0] != "F4"@[0]);
        assert("Up"@[0] != "F5"@[0]);
        assert("Up"@[0] != "F6"@[0]);
        assert("Up"@[0] != "F7"@[0]);
        assert("Up"@[0] != "F8"@[0]);
        assert("Up"@[0] != "F9"@[0]);
        assert(keysym_of_name("Up"@) == Some(0xff52u32));
    }
    if sym == 0x20 {
        assert("space"@[0] != "Right"@[0]);
        assert(keysym_of_name("space"@) == Some(0x20u32));
    }
}

/// The text of a single character (a call of `char::to_string`); the
/// contract claims that it holds exactly that character.
#[verifier::external_body]
fn char_to_string(c: char) -> (r: String)
    ensures
        r@ == seq![c],
{
    c.to_string()
}

/// The fixed name of keysym `sym`, if it has one.
fn fixed_key_name(sym: u32) -> (r: Option<&'static str>)
    ensures
        match named_key(sym) {
            Some(n) => r matches Some(s) && s@ == n,
            None => r is None,
        },
{
    match sym {
        0xff0d => Some("Return"),
        0xff1b => Some("Escape"),
        0xff08 => Some("BackSpace"),
        0xff09 => Some("Tab"),
        0x20 => Some("space"),
        0xff51 => Some("Left"),
        0xff53 => Some("Right"),
        0xff52 => Some("Up"),
        0xff54 => Some("Down"),
        0xff50 => Some("Home"),
        0xff57 => Some("End"),
        0xff55 => Some("Page_Up"),
        0xff56 => Some("Page_Down"),
        0xffff => Some("Delete"),
        0xff63 => Some("Insert"),
        0xffbe => Some("F1"),
        0xffbf => Some("F2"),
        0xffc0 => Some("F3"),
        0xffc1 => Some("F4"),
        0xffc2 => Some("F5"),
        0xffc3 => Some("F6"),
        0xffc4 => Some("F7"),
        0xffc5 => Some("F8"),
        0xffc6 => Some("F9"),
        0xffc7 => Some("F10"),
        0xffc8 => Some("F11"),
        0xffc9 => Some("F12"),
        _ => None,
    }
}

/// Convert a keysym to a key name string: the fixed name of the keys that
/// have one, else the character the key produces (`key_char`), else
/// `fallback` (the keysym's own name).
pub fn keysym_to_key_name(sym: u32, key_char: Option<char>, fallback: &str) -> (r: String)
    ensures
        r@ == (match named_key(sym) {
            Some(n) => n,
            None => match key_char {
                Some(c) => seq![c],
                None => fallback@,
            },
        }),
{
    match fixed_key_name(sym) {
        Some(name) => String::from_str(name),
        None => match key_char {
            Some(ch) => char_to_string(ch),
            None => String::from_str(fallback),
        },
    }
}

/// The keysym a keybinding is looked up by: the one the key gives with no
/// modifier applied, so that Shift+1 is looked up as "1" and not as "!";
/// the keysym after modifiers only when the key has no unmodified one.
pub fn binding_keysym(modified: u32, unmodified: Option<u32>) -> (r: u32)
    ensures
        r == (match unmodified {
            Some(u) => u,
            None => modified,
        }),
{
    match unmodified {
        Some(u) => u,
        None => modified,
    }
}

/// What the compositor is to do after a keybinding action was handled.
#[derive(Debug)]
pub enum KeyEffect {
    /// Run this command line.
    Spawn { command: String },
    /// Ask this window (the focused one) to close.
    Close { window: WindowId },
    /// Keyboard focus and window positions are to follow the tiling layout.
    FocusChanged,
    /// Window positions are to follow the tiling layout.
    Scrolled,
    /// Toggle fullscreen on this window (the focused one).
    ToggleFullscreen { window: WindowId },
    /// Stop the compositor.
    Quit,
    /// Send each window the size it is to have.
    Reconfigure { configures: Vec<Configure> },
    /// Nothing to do.
    Nothing,
}

/// The workspace index (from 0) of a user-facing workspace number (from 1;
/// the number 0 names no workspace).
pub open spec fn workspace_index(workspace: usize) -> int {
    workspace - 1
}

/// The tiling layout after `action`.
pub open spec fn tiling_after(t: TilingModel, action: KeyAction) -> TilingModel {
    match action {
        KeyAction::FocusNext => if t.windows.len() == 0 {
            t
        } else {
            t.with_focus(t.next_focus()).scrolled_to_focus()
        },
        KeyAction::FocusPrev => if t.windows.len() == 0 {
            t
        } else {
            t.with_focus(t.prev_focus()).scrolled_to_focus()
        },
        KeyAction::ScrollLeft => TilingModel { scroll: t.scroll_left_target(), ..t }.scrolled_to_focus(),
        KeyAction::ScrollRight => TilingModel {
            scroll: t.scroll_right_target(),
            ..t
        }.scrolled_to_focus(),
        _ => t,
    }
}

/// `after` is `before` once its active monitor has tried to switch to its
/// workspace at `target`; `switched` says whether it did.
pub open spec fn switch_step(
    before: LayoutModel,
    after: LayoutModel,
    target: int,
    switched: bool,
) -> bool {
    &&& before.active is None ==> !switched && after == before
    &&& before.active_index() matches Some(i) ==> {
        let m = before.monitors[i]@;
        &&& after == before.with_monitor(i, after.monitors[i])
        &&& switched == m.can_switch(target)
        &&& switched ==> after.monitors[i]@ == m.switched(target)
        &&& !switched ==> after.monitors[i]@ == m
    }
}

/// The active monitor of `l` (meaningful when there is one).
pub open spec fn active_monitor_of(l: LayoutModel) -> MonitorModel {
    l.monitors[l.active_index()->0]@
}

/// `after` is `before` once the focused window of the active monitor was
/// moved to its workspace at `target`, or, when `moved` is false (no
/// monitor, no focused window, no such workspace), unchanged.
pub open spec fn move_step(before: LayoutModel, after: LayoutModel, target: int, moved: bool) -> bool {
    &&& before.active is None ==> !moved && after == before
    &&& before.active_index() matches Some(i) ==> {
        let m = before.monitors[i]@;
        let ws = m.active_workspace()@;
        &&& moved == (ws.tiling.focus is Some && 0 <= target < m.workspaces.len())
        &&& !moved ==> after == before
        &&& moved ==> {
            let w = ws.tiling.windows[ws.tiling.focus->0];
            &&& after == before.with_monitor(i, after.monitors[i])
            &&& m.moved_window(after.monitors[i]@, w, target)
        }
    }
}

/// `after` is `before` once a new, empty workspace was added after the
/// others on the active monitor and made active; `created` says whether
/// there was a monitor to add it to.
pub open spec fn create_step(before: LayoutModel, after: LayoutModel, created: bool) -> bool {
    &&& before.active is None ==> !created && after == before
    &&& before.active_index() matches Some(i) ==> {
        let m = before.monitors[i]@;
        let n = after.monitors[i]@;
        &&& created
        &&& after == (LayoutModel { next_id: (before.next_id + 1) as u64, ..before }).with_monitor(
            i,
            after.monitors[i],
        )
        &&& n.workspaces.len() == m.workspaces.len() + 1
        &&& n.workspaces.drop_last() == m.workspaces
        &&& n.workspaces.last()@.id.spec_get() == before.next_id
        &&& n.workspaces.last()@.name is None
        &&& n.workspaces.last()@.is_initial(m.output, m.gap, m.margin, m.ratio)
        &&& n == (MonitorModel { workspaces: n.workspaces, ..m }).switched(
            m.workspaces.len() as int,
        )
    }
}

/// The effect reported for a workspace action that changed the layout
/// (`changed`) or not: every window is to be configured afresh.
pub open spec fn reconfigure_effect(r: KeyEffect, changed: bool, after: LayoutModel) -> bool {
    &&& changed ==> (r matches KeyEffect::Reconfigure { configures } && configures@
        == all_monitor_configures(after.monitors))
    &&& !changed ==> r is Nothing
}

/// Report the reconfiguration after a workspace action, if it changed anything.
fn reconfigure_if(layout: &Layout, changed: bool) -> (r: KeyEffect)
    requires
        layout@.wf(),
    ensures
        reconfigure_effect(r, changed, layout@),
{
    if changed {
        KeyEffect::Reconfigure { configures: layout.reconfigure_all() }
    } else {
        KeyEffect::Nothing
    }
}

/// Handle a keybind action: take its step on the tiling layout or on the
/// workspace layout, and say what the compositor is to do next.
///
/// Workspace numbers are counted from 1; the number 0 names no workspace,
/// so an action on it does nothing.  A workspace action that has nothing to
/// act on does nothing, and so does creating a workspace once every
/// workspace ID has been handed out.
pub fn handle_keybind_action(tiling: &mut TilingLayout, layout: &mut Layout, action: &KeyAction) -> (r:
    KeyEffect)
    requires
        old(tiling)@.wf(),
        old(layout)@.wf(),
    ensures
        final(tiling)@.wf(),
        final(layout)@.wf(),
        final(tiling)@ == tiling_after(old(tiling)@, *action),
        match *action {
            KeyAction::Spawn { command } => (r matches KeyEffect::Spawn { command: c } && c@
                == command@) && final(layout)@ == old(layout)@,
            KeyAction::Close => final(layout)@ == old(layout)@ && match old(tiling)@.focus {
                Some(f) => r == (KeyEffect::Close { window: old(tiling)@.windows[f] }),
                None => r is Nothing,
            },
            KeyAction::FocusNext | KeyAction::FocusPrev => r is FocusChanged && final(layout)@
                == old(layout)@,
            KeyAction::ScrollLeft | KeyAction::ScrollRight => r is Scrolled && final(layout)@
                == old(layout)@,
            KeyAction::Fullscreen => final(layout)@ == old(layout)@ && match old(tiling)@.focus {
                Some(f) => r == (KeyEffect::ToggleFullscreen { window: old(tiling)@.windows[f] }),
                None => r is Nothing,
            },
            KeyAction::Quit => r is Quit && final(layout)@ == old(layout)@,
            KeyAction::SwitchToWorkspace { workspace } => if workspace == 0 {
                r is Nothing && final(layout)@ == old(layout)@
            } else {
                switch_step(
                    old(layout)@,
                    final(layout)@,
                    workspace_index(workspace),
                    r is Reconfigure,
                ) && reconfigure_effect(r, r is Reconfigure, final(layout)@)
            },
            KeyAction::NextWorkspace => switch_step(
                old(layout)@,
                final(layout)@,
                active_monitor_of(old(layout)@).next_index(),
                r is Reconfigure,
            ) && reconfigure_effect(r, r is Reconfigure, final(layout)@),
            KeyAction::PrevWorkspace => switch_step(
                old(layout)@,
                final(layout)@,
                active_monitor_of(old(layout)@).prev_index(),
                r is Reconfigure,
            ) && reconfigure_effect(r, r is Reconfigure, final(layout)@),
            KeyAction::MoveToWorkspace { workspace } => if workspace == 0 {
                r is Nothing && final(layout)@ == old(layout)@
            } else {
                move_step(old(layout)@, final(layout)@, workspace_index(workspace), r is Reconfigure)
                    && reconfigure_effect(r, r is Reconfigure, final(layout)@)
            },
            KeyAction::NewWorkspace => if old(layout)@.next_id < u64::MAX {
                create_step(old(layout)@, final(layout)@, r is Reconfigure) && reconfigure_effect(
                    r,
                    r is Reconfigure,
                    final(layout)@,
                )
            } else {
                r is Nothing && final(layout)@ == old(layout)@
            },
        },
{
    match action {
        KeyAction::Spawn { command } => KeyEffect::Spawn { command: command.clone() },
        KeyAction::Close => match tiling.focused_window() {
            Some(window) => KeyEffect::Close { window },
            None => KeyEffect::Nothing,
        },
        KeyAction::FocusNext => {
            tiling.focus_next();
            KeyEffect::FocusChanged
        },
        KeyAction::FocusPrev => {
            tiling.focus_prev();
            KeyEffect::FocusChanged
        },
        KeyAction::ScrollLeft => {
            tiling.scroll_left();
            KeyEffect::Scrolled
        },
        KeyAction::ScrollRight => {
            tiling.scroll_right();
            KeyEffect::Scrolled
        },
        KeyAction::Fullscreen => match tiling.focused_window() {
            Some(window) => KeyEffect::ToggleFullscreen { window },
            None => KeyEffect::Nothing,
        },
        KeyAction::Quit => KeyEffect::Quit,
        KeyAction::SwitchToWorkspace { workspace } => {
            // User-facing workspaces are 1-indexed, internal are 0-indexed
            if *workspace == 0 {
                return KeyEffect::Nothing;
            }
            let idx: usize = *workspace - 1;
            let switched = layout.switch_to_workspace(idx);
            reconfigure_if(layout, switched)
        },
        KeyAction::NextWorkspace => {
            let switched = layout.switch_to_next_workspace();
            reconfigure_if(layout, switched)
        },
        KeyAction::PrevWorkspace => {
            let switched = layout.switch_to_prev_workspace();
            reconfigure_if(layout, switched)
        },
        KeyAction::MoveToWorkspace { workspace } => {
            // User-facing workspaces are 1-indexed, internal are 0-indexed
            if *workspace == 0 {
                return KeyEffect::Nothing;
            }
            let idx: usize = *workspace - 1;
            let moved = layout.move_focused_to_workspace(idx);
            reconfigure_if(layout, moved.is_some())
        },
        KeyAction::NewWorkspace => {
            if !layout.has_workspace_ids() {
                return KeyEffect::Nothing;
            }
            let created = layout.create_workspace(true);
            reconfigure_if(layout, created.is_some())
        },
    }
}

/// Why a command line cannot be run.
#[derive(Debug, Clone, Copy, PartialEq, Eq, Structural)]
pub enum CommandError {
    /// The command line holds no word.
    Empty,
}

impl CommandError {
    /// The message reported for this error.
    pub fn message(&self) -> (r: &'static str)
        ensures
            r@ == "Empty command"@,
    {
        "Empty command"
    }
}

/// The program and arguments of a command line: its words, split at white
/// space; an error when there is none.
pub fn command_words(command: &str) -> (r: Result<Vec<String>, CommandError>)
    ensures
        words_from(command@, 0).len() == 0 <==> r is Err,
        r matches Ok(words) ==> words@.len() == words_from(command@, 0).len() && forall|k: int|
            0 <= k < words@.len() ==> (#[trigger] words@[k])@ == words_from(command@, 0)[k],
{
    let parts = split_whitespace(command);
    if parts.len() == 0 {
        return Err(CommandError::Empty);
    }
    Ok(parts)
}

/// What a fullscreen toggle does to a window's pending size.
#[derive(Debug, Clone, Copy, PartialEq, Eq, Structural)]
pub enum PendingSize {
    /// Leave the pending size as it is.
    Keep,
    /// Set the pending size to this (`None`: let the client choose).
    Change(Option<Size>),
}

/// The pending state a fullscreen toggle gives a window.
#[derive(Debug, Clone, Copy, PartialEq, Eq, Structural)]
pub struct FullscreenChange {
    /// Whether the window is to be fullscreen.
    pub fullscreen: bool,
    pub size: PendingSize,
}

/// Toggling fullscreen: a fullscreen window leaves fullscreen and lets its
/// client choose its size; another window becomes fullscreen at the size
/// of the output (`output_size`, when there is an output).
pub open spec fn spec_toggle_fullscreen(is_fullscreen: bool, output_size: Option<Size>)
    -> FullscreenChange {
    if is_fullscreen {
        FullscreenChange { fullscreen: false, size: PendingSize::Change(None) }
    } else {
        FullscreenChange {
            fullscreen: true,
            size: match output_size {
                Some(s) => PendingSize::Change(Some(s)),
                None => PendingSize::Keep,
            },
        }
    }
}

/// Toggle fullscreen on a window that is fullscreen (`is_fullscreen`) or
/// not, on an output of size `output_size`.
pub fn toggle_fullscreen(is_fullscreen: bool, output_size: Option<Size>) -> (r: FullscreenChange)
    ensures
        r == spec_toggle_fullscreen(is_fullscreen, output_size),
{
    if is_fullscreen {
        FullscreenChange { fullscreen: false, size: PendingSize::Change(None) }
    } else {
        FullscreenChange {
            fullscreen: true,
            size: match output_size {
                Some(s) => PendingSize::Change(Some(s)),
                None => PendingSize::Keep,
            },
        }
    }
}

/// Toggling fullscreen twice gives the window its first fullscreen state
/// back; each toggle flips it.
pub proof fn lemma_toggle_fullscreen_twice(is_fullscreen: bool, output_size: Option<Size>)
    ensures
        spec_toggle_fullscreen(is_fullscreen, output_size).fullscreen == !is_fullscreen,
        spec_toggle_fullscreen(
            spec_toggle_fullscreen(is_fullscreen, output_size).fullscreen,
            output_size,
        ).fullscreen == is_fullscreen,
{
}

} // verus!
