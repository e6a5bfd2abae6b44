//! Choosing the display backend.
use vstd::prelude::*;

verus! {

/// Backend type selection
#[derive(Debug, Clone, Copy, PartialEq, Eq, Structural)]
pub enum BackendType {
    /// Winit backend - runs nested inside another Wayland or X11 compositor
    Winit,
    /// Udev/DRM backend - runs natively from a TTY
    Udev,
}

impl BackendType {
    /// Pick the backend from what the environment shows: whether
    /// `WAYLAND_DISPLAY` and whether `DISPLAY` is set.
    ///
    /// - If either is set, use Winit (nested mode)
    /// - Otherwise, use Udev (native DRM mode)
    pub fn auto_detect(wayland_display_set: bool, display_set: bool) -> (r: BackendType)
        ensures
            r == (if wayland_display_set || display_set {
                BackendType::Winit
            } else {
                BackendType::Udev
            }),
    {
        if wayland_display_set || display_set {
            BackendType::Winit
        } else {
            BackendType::Udev
        }
    }
}

} // verus!
