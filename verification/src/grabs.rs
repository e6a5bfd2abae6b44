//! Geometry of interactive window resizing.
use vstd::prelude::*;

use crate::geometry::{Point, Size};

verus! {

/// The edge or corner of a window that an interactive resize drags.
#[derive(Debug, Clone, Copy, PartialEq, Eq, Structural)]
pub enum ResizeEdge {
    NoEdge,
    Top,
    Bottom,
    Left,
    TopLeft,
    BottomLeft,
    Right,
    TopRight,
    BottomRight,
}

impl ResizeEdge {
    pub open spec fn spec_has_left(self) -> bool {
        self is Left || self is TopLeft || self is BottomLeft
    }

    pub open spec fn spec_has_right(self) -> bool {
        self is Right || self is TopRight || self is BottomRight
    }

    pub open spec fn spec_has_top(self) -> bool {
        self is Top || self is TopLeft || self is TopRight
    }

    pub open spec fn spec_has_bottom(self) -> bool {
        self is Bottom || self is BottomLeft || self is BottomRight
    }
}

/// Check if resize edge includes left
pub fn has_left(edges: ResizeEdge) -> (r: bool)
    ensures
        r == edges.spec_has_left(),
{
    matches!(edges, ResizeEdge::Left | ResizeEdge::TopLeft | ResizeEdge::BottomLeft)
}

/// Check if resize edge includes right
pub fn has_right(edges: ResizeEdge) -> (r: bool)
    ensures
        r == edges.spec_has_right(),
{
    matches!(edges, ResizeEdge::Right | ResizeEdge::TopRight | ResizeEdge::BottomRight)
}

/// Check if resize edge includes top
pub fn has_top(edges: ResizeEdge) -> (r: bool)
    ensures
        r == edges.spec_has_top(),
{
    matches!(edges, ResizeEdge::Top | ResizeEdge::TopLeft | ResizeEdge::TopRight)
}

/// Check if resize edge includes bottom
pub fn has_bottom(edges: ResizeEdge) -> (r: bool)
    ensures
        r == edges.spec_has_bottom(),
{
    matches!(edges, ResizeEdge::Bottom | ResizeEdge::BottomLeft | ResizeEdge::BottomRight)
}

pub open spec fn max1(v: int) -> int {
    if v > 1 {
        v
    } else {
        1
    }
}

pub open spec fn in_i32(v: int) -> bool {
    i32::MIN <= v <= i32::MAX
}

/// State of an interactive resize: which edges move, where the window was
/// and how big when the grab began, and the size last sent to it.
#[derive(Debug, Clone, Copy, PartialEq, Eq, Structural)]
pub struct ResizeGrab {
    pub edges: ResizeEdge,
    pub initial_window_location: Point,
    pub initial_window_size: Size,
    pub last_window_size: Size,
}

impl ResizeGrab {
    /// The width for a pointer that moved `dx` since the grab began: the
    /// dragged side moves with the pointer, and the width stays at least 1.
    pub open spec fn spec_width(self, dx: int) -> int {
        if self.edges.spec_has_left() {
            max1(self.initial_window_size.w - dx)
        } else if self.edges.spec_has_right() {
            max1(self.initial_window_size.w + dx)
        } else {
            self.initial_window_size.w as int
        }
    }

    /// The height for a pointer that moved `dy` since the grab began.
    pub open spec fn spec_height(self, dy: int) -> int {
        if self.edges.spec_has_top() {
            max1(self.initial_window_size.h - dy)
        } else if self.edges.spec_has_bottom() {
            max1(self.initial_window_size.h + dy)
        } else {
            self.initial_window_size.h as int
        }
    }

    /// Whether the sizes for pointer motion `delta` fit in `i32`.
    pub open spec fn motion_in_range(self, delta: Point) -> bool {
        &&& in_i32(self.initial_window_size.w - delta.x)
        &&& in_i32(self.initial_window_size.w + delta.x)
        &&& in_i32(self.initial_window_size.h - delta.y)
        &&& in_i32(self.initial_window_size.h + delta.y)
    }

    pub open spec fn spec_resized_size(self, delta: Point) -> Size {
        Size { w: self.spec_width(delta.x as int) as i32, h: self.spec_height(delta.y as int) as i32 }
    }

    /// A dragged edge follows the pointer: dragging the bottom edge by `dy`
    /// changes the height by `dy`, the top edge by `-dy`, the right edge
    /// changes the width by `dx` and the left edge by `-dx` (as long as the
    /// size stays at least 1); a side whose edges are not dragged keeps its
    /// size.
    pub proof fn lemma_edges_follow_pointer(self, delta: Point)
        requires
            self.motion_in_range(delta),
        ensures
            (self.edges is Bottom || self.edges is BottomLeft || self.edges is BottomRight)
                && self.initial_window_size.h + delta.y >= 1 ==> self.spec_resized_size(delta).h
                == self.initial_window_size.h + delta.y,
            (self.edges is Top || self.edges is TopLeft || self.edges is TopRight)
                && self.initial_window_size.h - delta.y >= 1 ==> self.spec_resized_size(delta).h
                == self.initial_window_size.h - delta.y,
            (self.edges is Right || self.edges is TopRight || self.edges is BottomRight)
                && self.initial_window_size.w + delta.x >= 1 ==> self.spec_resized_size(delta).w
                == self.initial_window_size.w + delta.x,
            (self.edges is Left || self.edges is TopLeft || self.edges is BottomLeft)
                && self.initial_window_size.w - delta.x >= 1 ==> self.spec_resized_size(delta).w
                == self.initial_window_size.w - delta.x,
            (self.edges is NoEdge || self.edges is Left || self.edges is Right)
                ==> self.spec_resized_size(delta).h == self.initial_window_size.h,
            (self.edges is NoEdge || self.edges is Top || self.edges is Bottom)
                ==> self.spec_resized_size(delta).w == self.initial_window_size.w,
            self.spec_resized_size(delta).w >= 1 || self.spec_resized_size(delta).w
                == self.initial_window_size.w,
            self.spec_resized_size(delta).h >= 1 || self.spec_resized_size(delta).h
                == self.initial_window_size.h,
    {
    }

    /// Where the window goes when the resize ends with the window at
    /// `current` and `final_size` big: a dragged left or top edge moves the
    /// window so that the opposite edge stays where it was.
    pub open spec fn spec_finish_location(self, current: Point, final_size: Size) -> Point {
        Point {
            x: if self.edges.spec_has_left() {
                (self.initial_window_location.x + (self.initial_window_size.w - final_size.w)) as i32
            } else {
                current.x
            },
            y: if self.edges.spec_has_top() {
                (self.initial_window_location.y + (self.initial_window_size.h - final_size.h)) as i32
            } else {
                current.y
            },
        }
    }

    /// Whether the location at the end of a resize fits in `i32`.
    pub open spec fn finish_in_range(self, final_size: Size) -> bool {
        &&& in_i32(self.initial_window_size.w - final_size.w)
        &&& in_i32(self.initial_window_location.x + (self.initial_window_size.w - final_size.w))
        &&& in_i32(self.initial_window_size.h - final_size.h)
        &&& in_i32(self.initial_window_location.y + (self.initial_window_size.h - final_size.h))
    }

    /// Begin resizing a window at `location` of `size`, dragging `edges`.
    pub fn new(edges: ResizeEdge, location: Point, size: Size) -> (r: ResizeGrab)
        ensures
            r == (ResizeGrab {
                edges,
                initial_window_location: location,
                initial_window_size: size,
                last_window_size: size,
            }),
    {
        ResizeGrab {
            edges,
            initial_window_location: location,
            initial_window_size: size,
            last_window_size: size,
        }
    }

    /// The window size for a pointer that moved `delta` (rounded to whole
    /// pixels) since the grab began.
    pub fn resized_size(&self, delta: Point) -> (r: Size)
        requires
            self.motion_in_range(delta),
        ensures
            r == self.spec_resized_size(delta),
            (self.edges is Bottom || self.edges is BottomLeft || self.edges is BottomRight)
                && self.initial_window_size.h + delta.y >= 1 ==> r.h == self.initial_window_size.h
                + delta.y,
            (self.edges is Top || self.edges is TopLeft || self.edges is TopRight)
                && self.initial_window_size.h - delta.y >= 1 ==> r.h == self.initial_window_size.h
                - delta.y,
            (self.edges is Right || self.edges is TopRight || self.edges is BottomRight)
                && self.initial_window_size.w + delta.x >= 1 ==> r.w == self.initial_window_size.w
                + delta.x,
            (self.edges is Left || self.edges is TopLeft || self.edges is BottomLeft)
                && self.initial_window_size.w - delta.x >= 1 ==> r.w == self.initial_window_size.w
                - delta.x,
    {
        proof {
            self.lemma_edges_follow_pointer(delta);
        }
        let mut new_window_width: i32 = self.initial_window_size.w;
        let mut new_window_height: i32 = self.initial_window_size.h;
        if has_left(self.edges) {
            let w: i32 = self.initial_window_size.w - delta.x;
            new_window_width = if w > 1 {
                w
            } else {
                1
            };
        } else if has_right(self.edges) {
            let w: i32 = self.initial_window_size.w + delta.x;
            new_window_width = if w > 1 {
                w
            } else {
                1
            };
        }
        if has_top(self.edges) {
            let h: i32 = self.initial_window_size.h - delta.y;
            new_window_height = if h > 1 {
                h
            } else {
                1
            };
        } else if has_bottom(self.edges) {
            let h: i32 = self.initial_window_size.h + delta.y;
            new_window_height = if h > 1 {
                h
            } else {
                1
            };
        }
        Size { w: new_window_width, h: new_window_height }
    }

    /// Pointer motion by `delta` since the grab began: the size to send to
    /// the window, when it differs from the size last sent (which it then
    /// becomes).
    pub fn motion(&mut self, delta: Point) -> (r: Option<Size>)
        requires
            old(self).motion_in_range(delta),
        ensures
            ({
                let size = old(self).spec_resized_size(delta);
                &&& size != old(self).last_window_size ==> r == Some(size)
                &&& size == old(self).last_window_size ==> r is None
                &&& *final(self) == (ResizeGrab { last_window_size: size, ..*old(self) })
            }),
    {
        let new_size = self.resized_size(delta);
        if new_size != self.last_window_size {
            self.last_window_size = new_size;
            Some(new_size)
        } else {
            None
        }
    }

    /// Where to put the window when the resize ends, given where it is and
    /// its final size.
    pub fn finish_location(&self, current: Point, final_size: Size) -> (r: Point)
        requires
            self.finish_in_range(final_size),
        ensures
            r == self.spec_finish_location(current, final_size),
    {
        let mut new_location = current;
        if has_left(self.edges) {
            new_location.x = self.initial_window_location.x + (self.initial_window_size.w
                - final_size.w);
        }
        if has_top(self.edges) {
            new_location.y = self.initial_window_location.y + (self.initial_window_size.h
                - final_size.h);
        }
        new_location
    }
}

/// Whether a client's move or resize request may start a pointer grab
/// from the seat's current one: the pointer must be grabbed (for the
/// request's serial, or at all), the grab must have start data, and when
/// that names a focused surface (`focus_same_client` is `Some`), it must
/// belong to the requesting client.
pub fn grab_check(
    has_grab_for_serial: bool,
    is_grabbed: bool,
    has_start_data: bool,
    focus_same_client: Option<bool>,
) -> (r: bool)
    ensures
        r == ((has_grab_for_serial || is_grabbed) && has_start_data && focus_same_client != Some(
            false,
        )),
{
    if !has_grab_for_serial && !is_grabbed {
        return false;
    }
    if !has_start_data {
        return false;
    }
    match focus_same_client {
        Some(false) => false,
        _ => true,
    }
}

/// A resize never makes a dragged side shorter than one pixel, and leaves
/// the sides it does not drag as they were.
pub proof fn lemma_resized_size_bounds(g: ResizeGrab, delta: Point)
    requires
        g.motion_in_range(delta),
    ensures
        (g.edges.spec_has_left() || g.edges.spec_has_right()) ==> g.spec_resized_size(delta).w >= 1,
        (g.edges.spec_has_top() || g.edges.spec_has_bottom()) ==> g.spec_resized_size(delta).h >= 1,
        !(g.edges.spec_has_left() || g.edges.spec_has_right()) ==> g.spec_resized_size(delta).w
            == g.initial_window_size.w,
        !(g.edges.spec_has_top() || g.edges.spec_has_bottom()) ==> g.spec_resized_size(delta).h
            == g.initial_window_size.h,
{
}

/// Dragging the left (top) edge keeps the right (bottom) edge of the window
/// where it was when the grab began.
pub proof fn lemma_finish_keeps_opposite_edge(g: ResizeGrab, current: Point, final_size: Size)
    requires
        g.finish_in_range(final_size),
    ensures
        g.edges.spec_has_left() ==> g.spec_finish_location(current, final_size).x + final_size.w
            == g.initial_window_location.x + g.initial_window_size.w,
        g.edges.spec_has_top() ==> g.spec_finish_location(current, final_size).y + final_size.h
            == g.initial_window_location.y + g.initial_window_size.h,
        !g.edges.spec_has_left() ==> g.spec_finish_location(current, final_size).x == current.x,
        !g.edges.spec_has_top() ==> g.spec_finish_location(current, final_size).y == current.y,
{
}

/// Repeating the same pointer motion sends no second configure.
pub proof fn lemma_motion_repeat_is_silent(g: ResizeGrab, delta: Point)
    requires
        g.motion_in_range(delta),
    ensures
        ({
            let g2 = ResizeGrab { last_window_size: g.spec_resized_size(delta), ..g };
            &&& g2.motion_in_range(delta)
            &&& g2.spec_resized_size(delta) == g2.last_window_size
        }),
{
}

} // verus!
