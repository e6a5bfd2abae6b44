//! Tomoe: the window-management core of a scrolling tiling Wayland compositor.
//!
//! The modules here hold the layout logic (scrolling tiling, workspaces,
//! monitors), keybinding parsing, the configuration and its saved text, the
//! keybinding actions, the frame-scheduling state machine of the DRM
//! backend, interactive-resize geometry and the fallback cursor image.
//! Everything that talks to the display server lives outside this crate and
//! hands plain values in and out.

pub mod geometry;
pub mod text;
pub mod tiling;
pub mod output;
pub mod workspace;
pub mod monitor;
pub mod layout;
pub mod config;
pub mod config_file;
pub mod actions;
pub mod redraw;
pub mod grabs;
pub mod cursor;
pub mod backend;

pub use geometry::{Point, Rect, Size, Transform};
