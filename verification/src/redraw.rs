//! Frame scheduling for outputs driven by DRM page flips.
//!
//! Each output surface renders at most one frame per vertical blank: a frame
//! is rendered only when no frame of that surface is waiting to be shown,
//! and a redraw asked for meanwhile is remembered until the next blank.
use vstd::prelude::*;

use crate::text::{contains_spec, contains_text};

verus! {

/// State machine for tracking frame rendering
#[derive(Debug, Clone, Copy, PartialEq, Eq, Structural)]
pub enum RedrawState {
    /// Idle - no frame pending, can render a new frame
    Idle,
    /// A redraw was requested but we're waiting for VBlank
    Queued,
    /// A frame has been submitted and we're waiting for VBlank
    WaitingForVBlank,
}

/// The frame-scheduling part of an output surface.
#[derive(Debug, Clone, Copy, PartialEq, Eq, Structural)]
pub struct SurfaceFrame {
    /// Whether the next frame must reach the screen (first frame, or after a
    /// VT switch); failing it stops the compositor.
    pub needs_initial_frame: bool,
    /// Where the surface stands in its render / page-flip cycle.
    pub redraw_state: RedrawState,
}

/// What a vertical blank does to the backend and to the surface it is for.
#[derive(Debug, Clone, Copy, PartialEq, Eq, Structural)]
pub struct VBlankStep {
    /// Whether the display is known to work (a blank has been seen).
    pub startup_complete: bool,
    /// The surface's new state (`None` when the surface is unknown).
    pub redraw_state: Option<RedrawState>,
    /// Whether the surface is to render its next frame now.
    pub render: bool,
}

/// How rendering and queueing a frame went.
#[derive(Debug, PartialEq, Eq)]
pub enum FrameSubmission {
    /// The frame could not be rendered.
    RenderFailed,
    /// The frame was rendered and queued for the next page flip.
    Queued,
    /// The frame was rendered but queueing it failed with this message.
    QueueFailed { message: String },
}

/// The state after a redraw request: `Queued` in every case, and a render
/// right away only when nothing was pending.
pub open spec fn spec_queue_redraw(state: RedrawState) -> (RedrawState, bool) {
    (RedrawState::Queued, state == RedrawState::Idle)
}

/// The step a vertical blank takes: nothing while the session is inactive;
/// otherwise the display counts as working, and a known surface goes back
/// to `Queued` and renders its next frame, to keep the blank loop running.
pub open spec fn spec_on_vblank(
    session_active: bool,
    startup_complete: bool,
    surface: Option<RedrawState>,
) -> VBlankStep {
    if !session_active {
        VBlankStep { startup_complete, redraw_state: surface, render: false }
    } else {
        match surface {
            Some(_) => VBlankStep {
                startup_complete: true,
                redraw_state: Some(RedrawState::Queued),
                render: true,
            },
            None => VBlankStep { startup_complete: true, redraw_state: None, render: false },
        }
    }
}

/// The error text by which a queueing failure says a frame is already
/// swapped in, which is no real error.
pub const ALREADY_SWAPPED: &'static str = "AlreadySwapped";

/// The surface state after a render attempt, and whether the compositor is
/// to stop (a forced first frame that did not reach the screen).
pub open spec fn spec_after_render(surface: SurfaceFrame, submission: FrameSubmission) -> (
    SurfaceFrame,
    bool,
) {
    match submission {
        FrameSubmission::RenderFailed => (
            SurfaceFrame { redraw_state: RedrawState::Idle, ..surface },
            surface.needs_initial_frame,
        ),
        FrameSubmission::Queued => (
            SurfaceFrame {
                needs_initial_frame: false,
                redraw_state: RedrawState::WaitingForVBlank,
            },
            false,
        ),
        FrameSubmission::QueueFailed { message } => if contains_spec(
            message@,
            ALREADY_SWAPPED@,
        ) {
            (SurfaceFrame { redraw_state: RedrawState::WaitingForVBlank, ..surface }, false)
        } else {
            (surface, surface.needs_initial_frame)
        },
    }
}

/// Queue a redraw for a surface in `state`: it is marked `Queued`, and the
/// result says whether to render right away (only when it was idle; a
/// pending frame is never interrupted).
pub fn queue_redraw(state: RedrawState) -> (r: (RedrawState, bool))
    ensures
        r == spec_queue_redraw(state),
{
    match state {
        RedrawState::Idle => (RedrawState::Queued, true),
        RedrawState::Queued => (RedrawState::Queued, false),
        RedrawState::WaitingForVBlank => (RedrawState::Queued, false),
    }
}

/// Handle a vertical blank for a surface whose state is `surface` (`None`
/// when its device or surface is unknown).
pub fn on_vblank(session_active: bool, startup_complete: bool, surface: Option<RedrawState>) -> (r:
    VBlankStep)
    ensures
        r == spec_on_vblank(session_active, startup_complete, surface),
{
    if !session_active {
        return VBlankStep { startup_complete, redraw_state: surface, render: false };
    }
    match surface {
        Some(state) => {
            let next = match state {
                // Normal case: the frame was displayed; keep rendering to
                // maintain the blank loop.
                RedrawState::WaitingForVBlank => RedrawState::Queued,
                // A redraw was queued while waiting: render now.
                RedrawState::Queued => RedrawState::Queued,
                // Not expected here, handled gracefully.
                RedrawState::Idle => RedrawState::Queued,
            };
            VBlankStep { startup_complete: true, redraw_state: Some(next), render: true }
        },
        None => VBlankStep { startup_complete: true, redraw_state: None, render: false },
    }
}

/// The surface state after a render attempt that went as `submission`
/// says, and whether the compositor is to stop.
pub fn after_render(surface: SurfaceFrame, submission: &FrameSubmission) -> (r: (
    SurfaceFrame,
    bool,
))
    ensures
        r == spec_after_render(surface, *submission),
{
    match submission {
        FrameSubmission::RenderFailed => {
            // Go back to idle so that the next request retries.
            (SurfaceFrame { redraw_state: RedrawState::Idle, ..surface }, surface.needs_initial_frame)
        },
        FrameSubmission::Queued => (
            SurfaceFrame { needs_initial_frame: false, redraw_state: RedrawState::WaitingForVBlank },
            false,
        ),
        FrameSubmission::QueueFailed { message } => {
            if contains_text(message.as_str(), ALREADY_SWAPPED) {
                // A frame is already pending: we are waiting for its blank.
                (SurfaceFrame { redraw_state: RedrawState::WaitingForVBlank, ..surface }, false)
            } else {
                (surface, surface.needs_initial_frame)
            }
        },
    }
}

/// The surface state after its first frame was rendered and queued (`true`)
/// or not: only a queued frame changes it.
pub fn after_initial_frame(surface: SurfaceFrame, queued: bool) -> (r: SurfaceFrame)
    ensures
        queued ==> r == (SurfaceFrame {
            needs_initial_frame: false,
            redraw_state: RedrawState::WaitingForVBlank,
        }),
        !queued ==> r == surface,
{
    if queued {
        SurfaceFrame { needs_initial_frame: false, redraw_state: RedrawState::WaitingForVBlank }
    } else {
        surface
    }
}

/// When the session becomes active again (VT switch back): every surface
/// must show its next frame (as a first frame) and gets a redraw request;
/// the result is its new state and whether to render right away.
pub fn on_session_activated(surface: SurfaceFrame) -> (r: (SurfaceFrame, bool))
    ensures
        r.0 == (SurfaceFrame {
            needs_initial_frame: true,
            redraw_state: spec_queue_redraw(surface.redraw_state).0,
        }),
        r.1 == spec_queue_redraw(surface.redraw_state).1,
{
    let (redraw_state, render) = queue_redraw(surface.redraw_state);
    (SurfaceFrame { needs_initial_frame: true, redraw_state }, render)
}

/// Asking for a redraw twice is asking once: the second request changes
/// nothing and renders nothing.
pub proof fn lemma_queue_redraw_idempotent(state: RedrawState)
    ensures
        spec_queue_redraw(spec_queue_redraw(state).0) == (spec_queue_redraw(state).0, false),
{
}

/// At most one frame per surface is in flight: a redraw request renders
/// only from `Idle`, so never while a frame waits for its blank.
pub proof fn lemma_no_render_while_waiting(state: RedrawState)
    ensures
        spec_queue_redraw(state).1 ==> state == RedrawState::Idle,
        spec_queue_redraw(RedrawState::WaitingForVBlank).1 == false,
{
}

/// A frame that reached the queue leaves the surface waiting for its blank,
/// and the blank that follows (in an active session) renders the next frame.
pub proof fn lemma_queued_frame_then_vblank_renders(surface: SurfaceFrame, startup_complete: bool)
    ensures
        ({
            let after = spec_after_render(surface, FrameSubmission::Queued).0;
            let step = spec_on_vblank(true, startup_complete, Some(after.redraw_state));
            &&& after.redraw_state == RedrawState::WaitingForVBlank
            &&& !after.needs_initial_frame
            &&& step.render
            &&& step.redraw_state == Some(RedrawState::Queued)
            &&& step.startup_complete
        }),
{
}

} // verus!
