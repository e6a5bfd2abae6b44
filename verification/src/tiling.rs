//! Scrolling tiling layout.
//!
//! Windows are arranged horizontally in a row, and the view can be scrolled
//! left/right to show different windows. Focusing a window scrolls the view
//! so that the focused window is visible.
use vstd::prelude::*;

use crate::geometry::{Point, Rect, Size};

verus! {

/// A bound on the scroll offset, 2^97. No operation goes past it: a row
/// holds fewer than 2^64 windows, and window widths, gaps and margins are
/// `i32`s, so the longest row scrolls by less. The offset, a window's place
/// in the row and the positions built from them are computed as `i128`s,
/// which hold them with room to spare.
pub open spec fn scroll_limit() -> int {
    158456325028528675187087900672
}

/// Identifies a window; the compositor gives each toplevel its own.
#[derive(Debug, Clone, Copy, PartialEq, Eq, Structural, Hash)]
pub struct WindowId(pub u64);

/// The default window width, as the fraction `num / den` of the width of
/// the area (the screen width, for a layout that spans its output).
#[derive(Debug, Clone, Copy, PartialEq, Eq, Structural)]
pub struct WidthRatio {
    pub num: u64,
    pub den: u64,
}

impl WidthRatio {
    /// A ratio is a fraction: its denominator is not zero.
    pub open spec fn valid(self) -> bool {
        0 < self.den
    }

    /// Whether the denominator is not zero.
    pub fn is_valid(&self) -> (r: bool)
        ensures
            r == self.valid(),
    {
        0 < self.den
    }
}

/// A size the compositor must send to a window in a configure event.
#[derive(Debug, Clone, Copy, PartialEq, Eq, Structural)]
pub struct Configure {
    pub window: WindowId,
    pub size: Size,
}

/// `v` as an `i32`, saturating at the ends of its range, as a cast from a
/// float to an integer does.
pub open spec fn sat_i32(v: int) -> int {
    clamp_int(v, i32::MIN as int, i32::MAX as int)
}

/// Division that rounds toward zero, as a cast from a float to an integer does.
pub open spec fn trunc_div(a: int, d: int) -> int {
    if a >= 0 {
        a / d
    } else {
        -((-a) / d)
    }
}

pub open spec fn clamp_int(v: int, lo: int, hi: int) -> int {
    if v < lo {
        lo
    } else if v > hi {
        hi
    } else {
        v
    }
}

pub open spec fn max_int(a: int, b: int) -> int {
    if a >= b {
        a
    } else {
        b
    }
}

pub open spec fn min_int(a: int, b: int) -> int {
    if a <= b {
        a
    } else {
        b
    }
}

/// The first index at which `w` occurs in `s` (meaningful when `s` contains `w`).
pub open spec fn first_index(s: Seq<WindowId>, w: WindowId) -> int {
    choose|i: int| 0 <= i < s.len() && s[i] == w && forall|j: int| 0 <= j < i ==> s[j] != w
}

/// The mathematical state of a tiling layout.
pub ghost struct TilingModel {
    /// Windows from left to right.
    pub windows: Seq<WindowId>,
    /// Index of the focused window.
    pub focus: Option<int>,
    /// How far the row is scrolled to the right.
    pub scroll: int,
    pub gap: int,
    pub margin: int,
    pub ratio: WidthRatio,
    /// Size of the area the windows are laid out in.
    pub size: Size,
    /// Top-left corner of that area.
    pub origin: Point,
}

impl TilingModel {
    pub open spec fn wf(self) -> bool {
        &&& self.windows.len() <= usize::MAX
        &&& (self.focus is None <==> self.windows.len() == 0)
        &&& (self.focus matches Some(i) ==> 0 <= i < self.windows.len())
        &&& 0 <= self.size.w
        &&& 0 <= self.size.h
        &&& i32::MIN <= self.gap <= i32::MAX
        &&& i32::MIN <= self.margin <= i32::MAX
        &&& self.ratio.valid()
        &&& 0 <= self.scroll <= scroll_limit()
    }

    /// Width of the visible part of the row: the width of the area once
    /// both margins are taken off.
    pub open spec fn available_width(self) -> int {
        self.size.w - 2 * self.margin
    }

    /// Width of every window: the configured share of the width of the
    /// area (the screen width, for a layout that spans its output), as an
    /// `i32`.
    pub open spec fn window_width(self) -> int {
        sat_i32(trunc_div(self.size.w * self.ratio.num, self.ratio.den as int))
    }

    pub open spec fn window_height(self) -> int {
        self.size.h - 2 * self.margin
    }

    /// Distance between the left edges of two neighbouring windows.
    pub open spec fn stride(self) -> int {
        self.window_width() + self.gap
    }

    /// Left edge of window `k` in the unscrolled row.
    pub open spec fn window_start(self, k: int) -> int {
        k * self.stride()
    }

    pub open spec fn max_scroll(self) -> int {
        let n = self.windows.len() as int;
        if n == 0 {
            0
        } else {
            max_int(
                0,
                n * self.window_width() + (n - 1) * self.gap - self.available_width(),
            )
        }
    }

    /// The scroll offset after making window `idx` visible.
    pub open spec fn scroll_for(self, idx: int) -> int {
        let start = self.window_start(idx);
        let end = start + self.window_width();
        let s = if start < self.scroll {
            start
        } else if end > self.scroll + self.available_width() {
            end - self.available_width()
        } else {
            self.scroll
        };
        clamp_int(s, 0, self.max_scroll())
    }

    /// The state once the view is scrolled to show the focused window.
    pub open spec fn scrolled_to_focus(self) -> TilingModel {
        match self.focus {
            Some(i) => TilingModel { scroll: self.scroll_for(i), ..self },
            None => self,
        }
    }

    /// Horizontal position of window `k` on screen.
    pub open spec fn position_x(self, k: int) -> int {
        self.origin.x + self.margin - self.scroll + k * self.stride()
    }

    /// Vertical position of every window on screen.
    pub open spec fn position_y(self) -> int {
        self.origin.y + self.margin
    }

    /// Whether window `k` lies wholly inside the visible part of the row.
    pub open spec fn is_visible(self, k: int) -> bool {
        &&& self.scroll <= self.window_start(k)
        &&& self.window_start(k) + self.window_width() <= self.scroll
            + self.available_width()
    }

    /// The focused window lies wholly in view, whenever a window fits in the
    /// visible width and windows do not overlap.
    pub open spec fn shows_focus(self) -> bool {
        (self.focus is Some && self.window_width() <= self.available_width() && self.stride()
            >= 0) ==> self.is_visible(self.focus->0)
    }

    /// The state right after `w` is added.
    pub open spec fn after_add(self, w: WindowId) -> TilingModel {
        TilingModel {
            windows: self.windows.push(w),
            focus: Some(self.windows.len() as int),
            ..self
        }.scrolled_to_focus()
    }

    /// The state after each window of `ws` was added, in order.
    pub open spec fn after_adds(self, ws: Seq<WindowId>) -> TilingModel
        decreases ws.len(),
    {
        if ws.len() == 0 {
            self
        } else {
            self.after_adds(ws.drop_last()).after_add(ws.last())
        }
    }

    /// Focus once window `idx` is taken out.
    pub open spec fn focus_after_remove(self, idx: int) -> Option<int> {
        let n = self.windows.len() - 1;
        if n == 0 {
            None
        } else {
            match self.focus {
                Some(f) => if f >= n {
                    Some(n - 1)
                } else if idx < f {
                    Some(f - 1)
                } else {
                    Some(f)
                },
                None => None,
            }
        }
    }

    /// The state right after window `idx` is taken out.
    pub open spec fn after_remove(self, idx: int) -> TilingModel {
        TilingModel {
            windows: self.windows.remove(idx),
            focus: self.focus_after_remove(idx),
            ..self
        }.scrolled_to_focus()
    }

    /// Focus after moving it one window to the right, wrapping around.
    pub open spec fn next_focus(self) -> Option<int> {
        if self.windows.len() == 0 {
            self.focus
        } else {
            match self.focus {
                Some(i) => if i + 1 < self.windows.len() {
                    Some(i + 1)
                } else {
                    Some(0)
                },
                None => Some(0),
            }
        }
    }

    /// Focus after moving it one window to the left, wrapping around.
    pub open spec fn prev_focus(self) -> Option<int> {
        if self.windows.len() == 0 {
            self.focus
        } else {
            match self.focus {
                Some(i) => if i == 0 {
                    Some(self.windows.len() - 1)
                } else {
                    Some(i - 1)
                },
                None => Some(0),
            }
        }
    }

    pub open spec fn with_focus(self, f: Option<int>) -> TilingModel {
        TilingModel { focus: f, ..self }
    }

    /// Scroll offset that `scroll_left` sets.
    pub open spec fn scroll_left_target(self) -> int {
        max_int(self.scroll - trunc_div(self.window_width(), 2), 0)
    }

    /// Scroll offset that `scroll_right` sets.
    pub open spec fn scroll_right_target(self) -> int {
        min_int(self.scroll + trunc_div(self.window_width(), 2), self.max_scroll())
    }
}

/// Bounds on the derived widths of a well-formed layout.
pub proof fn lemma_width_bounds(m: TilingModel)
    requires
        m.wf(),
    ensures
        -8589934592 <= m.available_width() <= 8589934592,
        0 <= m.window_width() <= i32::MAX,
        m.window_width() == sat_i32((m.size.w * m.ratio.num) / (m.ratio.den as int)),
        -8589934592 <= m.window_height() <= 8589934592,
        -8589934592 <= m.stride() <= 8589934592,
{
    assert(0 <= m.size.w * m.ratio.num) by (nonlinear_arith)
        requires
            0 <= m.size.w,
            0 <= m.ratio.num,
    ;
    assert(0 <= (m.size.w * m.ratio.num) / (m.ratio.den as int)) by (nonlinear_arith)
        requires
            0 <= m.size.w * m.ratio.num,
            0 < m.ratio.den,
    ;
}

/// Bounds on `k * stride` for indices up to the most windows a row holds.
proof fn lemma_start_bounds(k: int, stride: int)
    requires
        0 <= k <= 18446744073709551616,
        -8589934592 <= stride <= 8589934592,
    ensures
        -scroll_limit() <= k * stride <= scroll_limit(),
        (k + 1) * stride == k * stride + stride,
{
    assert(-158456325028528675187087900672 <= k * stride <= 158456325028528675187087900672)
        by (nonlinear_arith)
        requires
            0 <= k <= 18446744073709551616,
            -8589934592 <= stride <= 8589934592,
    ;
    assert((k + 1) * stride == k * stride + stride) by (nonlinear_arith);
}

/// Bounds on the scroll range of a well-formed layout.
proof fn lemma_max_scroll_bounds(m: TilingModel)
    requires
        m.wf(),
    ensures
        0 <= m.max_scroll() <= scroll_limit(),
{
    lemma_width_bounds(m);
    let n = m.windows.len() as int;
    if n > 0 {
        let ww = m.window_width();
        let g = m.gap;
        assert(0 <= n * ww <= 39614081257132168796771975168) by (nonlinear_arith)
            requires
                0 <= n <= 18446744073709551616,
                0 <= ww <= 2147483648,
        ;
        assert(-39614081257132168796771975168 <= (n - 1) * g <= 39614081257132168796771975168)
            by (nonlinear_arith)
            requires
                0 <= n - 1 <= 18446744073709551616,
                -2147483648 <= g <= 2147483648,
        ;
    }
}

/// Focusing a window and scrolling to it keeps the layout well formed.
pub proof fn lemma_scrolled_wf(m: TilingModel)
    requires
        m.wf(),
    ensures
        m.scrolled_to_focus().wf(),
        m.focus is Some ==> 0 <= m.scrolled_to_focus().scroll <= m.max_scroll(),
{
    lemma_max_scroll_bounds(m);
}

/// After the view is scrolled to the focused window, that window is wholly
/// visible, provided that a window fits in the visible width and windows do
/// not overlap (window width plus gap is not negative).
pub proof fn lemma_focused_window_visible(m: TilingModel)
    requires
        m.wf(),
        m.focus is Some,
        m.window_width() <= m.available_width(),
        m.stride() >= 0,
    ensures
        m.scrolled_to_focus().is_visible(m.focus->0),
{
    lemma_width_bounds(m);
    let i = m.focus->0;
    let n = m.windows.len() as int;
    let ww = m.window_width();
    let g = m.gap;
    let st = m.stride();
    let avail = m.available_width();
    let start = i * st;
    assert(start >= 0) by (nonlinear_arith)
        requires
            start == i * st,
            i >= 0,
            st >= 0,
    ;
    // The row is at least as long as the end of the focused window.
    let total = n * ww + (n - 1) * g;
    assert(total - (start + ww) == (n - 1 - i) * st) by (nonlinear_arith)
        requires
            total == n * ww + (n - 1) * g,
            start == i * st,
            st == ww + g,
    ;
    assert((n - 1 - i) * st >= 0) by (nonlinear_arith)
        requires
            n - 1 - i >= 0,
            st >= 0,
    ;
}

/// The focused window stays wholly visible when the view is scrolled left
/// or right (under the same conditions as `lemma_focused_window_visible`).
pub proof fn lemma_scroll_keeps_focus_visible(m: TilingModel)
    requires
        m.wf(),
        m.focus is Some,
        m.window_width() <= m.available_width(),
        m.stride() >= 0,
    ensures
        (TilingModel { scroll: m.scroll_left_target(), ..m }).scrolled_to_focus().is_visible(
            m.focus->0,
        ),
        (TilingModel { scroll: m.scroll_right_target(), ..m }).scrolled_to_focus().is_visible(
            m.focus->0,
        ),
{
    lemma_width_bounds(m);
    lemma_max_scroll_bounds(m);
    lemma_focused_window_visible(TilingModel { scroll: m.scroll_left_target(), ..m });
    lemma_focused_window_visible(TilingModel { scroll: m.scroll_right_target(), ..m });
}

/// Windows sit in one row, left to right in their order, all at the same
/// height: each starts one window width plus the gap after the one before.
pub proof fn lemma_positions_in_row(m: TilingModel, k: int, j: int)
    requires
        0 <= k <= j < m.windows.len(),
    ensures
        m.position_x(j) - m.position_x(k) == (j - k) * m.stride(),
        m.position_x(k + 1) - m.position_x(k) == m.window_width() + m.gap,
{
    assert(m.position_x(j) - m.position_x(k) == (j - k) * m.stride()) by (nonlinear_arith)
        requires
            m.position_x(j) == m.origin.x + m.margin - m.scroll + j * m.stride(),
            m.position_x(k) == m.origin.x + m.margin - m.scroll + k * m.stride(),
    ;
    assert(m.position_x(k + 1) - m.position_x(k) == m.stride()) by (nonlinear_arith)
        requires
            m.position_x(k + 1) == m.origin.x + m.margin - m.scroll + (k + 1) * m.stride(),
            m.position_x(k) == m.origin.x + m.margin - m.scroll + k * m.stride(),
    ;
}

/// Adding windows one after another appends them to the row and changes
/// none of the layout settings, so each is configured alike.
pub proof fn lemma_after_adds(m: TilingModel, ws: Seq<WindowId>)
    ensures
        m.after_adds(ws).windows == m.windows + ws,
        m.after_adds(ws).size == m.size,
        m.after_adds(ws).origin == m.origin,
        m.after_adds(ws).gap == m.gap,
        m.after_adds(ws).margin == m.margin,
        m.after_adds(ws).ratio == m.ratio,
        forall|w: WindowId| #[trigger] m.after_adds(ws).configure_for(w) == m.configure_for(w),
    decreases ws.len(),
{
    if ws.len() > 0 {
        lemma_after_adds(m, ws.drop_last());
        assert(m.windows + ws =~= (m.windows + ws.drop_last()).push(ws.last()));
    } else {
        assert(m.windows + ws =~= m.windows);
    }
}

/// Moving the focus right and then left returns it to where it was.
pub proof fn lemma_next_then_prev(m: TilingModel)
    requires
        m.wf(),
    ensures
        m.with_focus(m.next_focus()).prev_focus() == m.focus,
        m.with_focus(m.prev_focus()).next_focus() == m.focus,
{
}

/// Removing a window other than the focused one keeps the same window
/// focused, and the windows that stay keep their order.
pub proof fn lemma_remove_keeps_focused_window(m: TilingModel, w: WindowId)
    requires
        m.wf(),
        m.windows.contains(w),
        m.focus is Some,
        m.windows[m.focus->0] != w,
    ensures
        ({
            let a = m.after_remove(first_index(m.windows, w));
            &&& a.focus is Some
            &&& 0 <= a.focus->0 < a.windows.len()
            &&& a.windows[a.focus->0] == m.windows[m.focus->0]
            &&& a.windows.len() == m.windows.len() - 1
        }),
{
    lemma_first_index_exists(m.windows, w);
    let idx = first_index(m.windows, w);
    let f = m.focus->0;
    assert(idx != f);
    let r = m.windows.remove(idx);
    if idx < f {
        assert(r[f - 1] == m.windows[f]);
    } else {
        assert(r[f] == m.windows[f]);
    }
}

/// Adding a window that the layout does not hold and removing it again gives
/// back the same row of windows.
pub proof fn lemma_add_then_remove(m: TilingModel, w: WindowId)
    requires
        m.wf(),
        !m.windows.contains(w),
        m.windows.len() < usize::MAX,
    ensures
        m.after_add(w).windows.contains(w),
        m.after_add(w).after_remove(first_index(m.after_add(w).windows, w)).windows
            =~= m.windows,
{
    let s = m.after_add(w).windows;
    assert(s[m.windows.len() as int] == w);
    let n = m.windows.len() as int;
    assert(forall|j: int| 0 <= j < n ==> s[j] != w) by {
        assert forall|j: int| 0 <= j < n implies s[j] != w by {
            assert(s[j] == m.windows[j]);
        }
    }
    lemma_first_index(s, w, n);
}

/// Lemma: an element that occurs has a first occurrence.
pub proof fn lemma_first_index_exists(s: Seq<WindowId>, w: WindowId)
    requires
        s.contains(w),
    ensures
        0 <= first_index(s, w) < s.len(),
        s[first_index(s, w)] == w,
        forall|j: int| 0 <= j < first_index(s, w) ==> s[j] != w,
{
    let k = choose|k: int| 0 <= k < s.len() && s[k] == w;
    lemma_first_index_from(s, w, k);
}

proof fn lemma_first_index_from(s: Seq<WindowId>, w: WindowId, k: int)
    requires
        0 <= k < s.len(),
        s[k] == w,
    ensures
        0 <= first_index(s, w) < s.len(),
        s[first_index(s, w)] == w,
        forall|j: int| 0 <= j < first_index(s, w) ==> s[j] != w,
    decreases k,
{
    if exists|j: int| 0 <= j < k && s[j] == w {
        let j = choose|j: int| 0 <= j < k && s[j] == w;
        lemma_first_index_from(s, w, j);
    } else {
        lemma_first_index(s, w, k);
    }
}

/// The first index of an element is the one before which it never occurs.
pub proof fn lemma_first_index(s: Seq<WindowId>, w: WindowId, i: int)
    requires
        0 <= i < s.len(),
        s[i] == w,
        forall|j: int| 0 <= j < i ==> s[j] != w,
    ensures
        first_index(s, w) == i,
{
    let k = first_index(s, w);
    assert(0 <= k < s.len() && s[k] == w && forall|j: int| 0 <= j < k ==> s[j] != w);
    if k < i {
        assert(s[k] != w);
    } else if k > i {
        assert(s[i] != w);
    }
}

/// `v` as an `i32`, saturated at the ends of its range.
fn saturate(v: i128) -> (r: i32)
    ensures
        r == sat_i32(v as int),
{
    if v > 2147483647 {
        2147483647
    } else if v < -2147483648 {
        -2147483648
    } else {
        v as i32
    }
}

/// Manages the scrolling tiling layout.
#[derive(Debug)]
pub struct TilingLayout {
    /// All windows in order (left to right)
    windows: Vec<WindowId>,
    /// Index of the focused window
    focus_index: Option<usize>,
    /// Current scroll offset (positive = scrolled right, showing windows on the left)
    scroll_offset: i128,
    /// Gap between windows
    gap: i32,
    /// Outer margin
    margin: i32,
    /// Default window width as a fraction of the width of the area
    width_ratio: WidthRatio,
    /// Size of the area windows are laid out in
    output_size: Size,
    /// Top-left corner of that area
    origin: Point,
}

impl View for TilingLayout {
    type V = TilingModel;

    closed spec fn view(&self) -> TilingModel {
        TilingModel {
            windows: self.windows@,
            focus: match self.focus_index {
                Some(i) => Some(i as int),
                None => None,
            },
            scroll: self.scroll_offset as int,
            gap: self.gap as int,
            margin: self.margin as int,
            ratio: self.width_ratio,
            size: self.output_size,
            origin: self.origin,
        }
    }
}

/// Whether gap, margin and ratio make a layout: the ratio is a fraction.
/// (Gap and margin may be any `i32`.)
pub open spec fn valid_params(gap: i32, margin: i32, ratio: WidthRatio) -> bool {
    ratio.valid()
}

/// Whether a size can be laid out in: it is not negative.
pub open spec fn valid_size(size: Size) -> bool {
    0 <= size.w && 0 <= size.h
}

/// Whether a working area can be laid out in: its size is not negative.
pub open spec fn valid_area(area: Rect) -> bool {
    valid_size(area.size)
}

/// Checks `valid_params`.
pub fn params_are_valid(gap: i32, margin: i32, ratio: WidthRatio) -> (r: bool)
    ensures
        r == valid_params(gap, margin, ratio),
{
    ratio.is_valid()
}

/// Checks `valid_size`.
pub fn size_is_valid(size: Size) -> (r: bool)
    ensures
        r == valid_size(size),
{
    0 <= size.w && 0 <= size.h
}

/// Checks `valid_area`.
pub fn area_is_valid(area: Rect) -> (r: bool)
    ensures
        r == valid_area(area),
{
    0 <= area.size.w && 0 <= area.size.h
}

impl TilingModel {
    /// The state of a new layout.
    pub open spec fn initial(gap: i32, margin: i32, ratio: WidthRatio) -> TilingModel {
        TilingModel {
            windows: Seq::empty(),
            focus: None,
            scroll: 0,
            gap: gap as int,
            margin: margin as int,
            ratio,
            size: Size { w: 1920, h: 1080 },
            origin: Point { x: 0, y: 0 },
        }
    }

    /// The configure request that every window of the layout gets.
    pub open spec fn configure_for(self, w: WindowId) -> Configure {
        Configure {
            window: w,
            size: Size { w: self.window_width() as i32, h: sat_i32(self.window_height()) as i32 },
        }
    }
}

impl TilingLayout {
    pub fn new(gap: i32, margin: i32, width_ratio: WidthRatio) -> (r: Self)
        requires
            valid_params(gap, margin, width_ratio),
        ensures
            r@ == TilingModel::initial(gap, margin, width_ratio),
            r@.wf(),
    {
        TilingLayout {
            windows: Vec::new(),
            focus_index: None,
            scroll_offset: 0,
            gap,
            margin,
            width_ratio,
            output_size: Size { w: 1920, h: 1080 },  // Default, updated when output is known
            origin: Point { x: 0, y: 0 },
        }
    }

    /// Set the output size for layout calculations
    pub fn set_output_size(&mut self, size: Size)
        requires
            old(self)@.wf(),
            valid_size(size),
        ensures
            final(self)@ == (TilingModel { size, ..old(self)@ }),
            final(self)@.wf(),
    {
        self.output_size = size;
    }

    /// Lay windows out in `area`: its corner becomes the origin of the row and
    /// its size the size the layout works with.
    pub fn set_available_area(&mut self, area: Rect)
        requires
            old(self)@.wf(),
            valid_area(area),
        ensures
            final(self)@ == (TilingModel { size: area.size, origin: area.loc, ..old(self)@ }),
            final(self)@.wf(),
    {
        self.output_size = area.size;
        self.origin = area.loc;
    }

    /// Width left for windows once both margins are taken off.
    fn available_width(&self) -> (r: i64)
        requires
            self@.wf(),
        ensures
            r == self@.available_width(),
    {
        self.output_size.w as i64 - 2 * (self.margin as i64)
    }

    /// Calculate the default window width: the share of the area's width,
    /// saturated to an `i32`.
    fn calculate_window_width(&self) -> (r: i32)
        requires
            self@.wf(),
        ensures
            r == self@.window_width(),
    {
        proof {
            lemma_width_bounds(self@);
        }
        let num: u128 = self.width_ratio.num as u128;
        let den: u128 = self.width_ratio.den as u128;
        let a: u128 = self.output_size.w as u128;
        assert(a * num <= 2147483647 * 18446744073709551615) by (nonlinear_arith)
            requires
                a <= 2147483647,
                num <= 18446744073709551615,
        ;
        let q: u128 = a * num / den;
        if q > 2147483647 {
            2147483647
        } else {
            q as i32
        }
    }

    fn calculate_window_height(&self) -> (r: i64)
        requires
            self@.wf(),
        ensures
            r == self@.window_height(),
    {
        self.output_size.h as i64 - 2 * (self.margin as i64)
    }

    /// The size every window of the layout is configured with.
    pub fn window_size(&self) -> (r: Size)
        requires
            self@.wf(),
        ensures
            r.w == self@.window_width(),
            r.h == sat_i32(self@.window_height()),
    {
        let h: i64 = self.calculate_window_height();
        let hs: i32 = if h > 2147483647 {
            2147483647
        } else if h < -2147483648 {
            -2147483648
        } else {
            h as i32
        };
        Size { w: self.calculate_window_width(), h: hs }
    }

    /// Calculate the maximum scroll offset
    fn calculate_max_scroll(&self) -> (r: i128)
        requires
            self@.wf(),
        ensures
            r == self@.max_scroll(),
    {
        if self.windows.len() == 0 {
            return 0;
        }
        proof {
            lemma_max_scroll_bounds(self@);
            lemma_width_bounds(self@);
        }
        let window_width: i128 = self.calculate_window_width() as i128;
        let n: i128 = self.windows.len() as i128;
        let g: i128 = self.gap as i128;
        proof {
            assert(0 <= n * window_width <= 39614081257132168796771975168) by (nonlinear_arith)
                requires
                    0 <= n <= 18446744073709551616,
                    0 <= window_width <= 2147483648,
            ;
            assert(-39614081257132168796771975168 <= (n - 1) * g <= 39614081257132168796771975168)
                by (nonlinear_arith)
                requires
                    0 <= n - 1 <= 18446744073709551616,
                    -2147483648 <= g <= 2147483648,
            ;
        }
        let total_width: i128 = n * window_width + (n - 1) * g;
        let visible_width: i128 = self.available_width() as i128;
        let d: i128 = total_width - visible_width;
        if d > 0 {
            d
        } else {
            0
        }
    }

    /// Scroll to ensure the focused window is visible
    fn scroll_to_focused(&mut self)
        requires
            old(self)@.wf(),
        ensures
            final(self)@ == old(self)@.scrolled_to_focus(),
            final(self)@.wf(),
            final(self)@.shows_focus(),
    {
        proof {
            lemma_scrolled_wf(self@);
            if self@.focus is Some && self@.window_width() <= self@.available_width()
                && self@.stride() >= 0 {
                lemma_focused_window_visible(self@);
            }
        }
        let focus_idx: usize = match self.focus_index {
            Some(i) => i,
            None => {
                return;
            },
        };
        proof {
            lemma_width_bounds(self@);
            lemma_start_bounds(focus_idx as int, self@.stride());
            lemma_max_scroll_bounds(self@);
        }
        let window_width: i128 = self.calculate_window_width() as i128;
        let visible_width: i128 = self.available_width() as i128;
        let stride: i128 = window_width + self.gap as i128;
        // Calculate the focused window's position (without scroll)
        let window_start: i128 = focus_idx as i128 * stride;
        let window_end: i128 = window_start + window_width;
        // Adjust scroll to ensure the window is visible
        let mut s: i128 = self.scroll_offset;
        if window_start < s {
            // Window is off the left edge, scroll left
            s = window_start;
        } else if window_end > s + visible_width {
            // Window is off the right edge, scroll right
            s = window_end - visible_width;
        }
        // Clamp scroll offset
        let max_scroll: i128 = self.calculate_max_scroll();
        if s < 0 {
            s = 0;
        } else if s > max_scroll {
            s = max_scroll;
        }
        self.scroll_offset = s;
    }

    /// Add a new window to the layout (appends to the right), focus it and
    /// scroll to it; returns the size the window is to be configured with.
    pub fn add_window(&mut self, window: WindowId) -> (r: Configure)
        requires
            old(self)@.wf(),
        ensures
            final(self)@ == old(self)@.after_add(window),
            final(self)@.wf(),
            final(self)@.shows_focus(),
            r == old(self)@.configure_for(window),
    {
        proof {
            lemma_width_bounds(self@);
        }
        // Configure the window size
        let size: Size = self.window_size();
        self.windows.push(window);
        // Focus the new window
        self.focus_index = Some(self.windows.len() - 1);
        proof {
            assert(self@ == TilingModel {
                windows: old(self)@.windows.push(window),
                focus: Some(old(self)@.windows.len() as int),
                ..old(self)@
            });
        }
        // Scroll to show the new window
        self.scroll_to_focused();
        Configure { window, size }
    }

    /// Index of the first occurrence of `window`.
    fn position(&self, window: &WindowId) -> (r: Option<usize>)
        ensures
            r is None <==> !self@.windows.contains(*window),
            r matches Some(i) ==> i == first_index(self@.windows, *window) && i
                < self@.windows.len(),
    {
        let mut i: usize = 0;
        while i < self.windows.len()
            invariant
                0 <= i <= self.windows@.len(),
                self@.windows == self.windows@,
                forall|j: int| 0 <= j < i ==> self.windows@[j] != *window,
            decreases self.windows@.len() - i,
        {
            if self.windows[i] == *window {
                proof {
                    lemma_first_index(self@.windows, *window, i as int);
                }
                return Some(i);
            }
            i = i + 1;
        }
        proof {
            if self@.windows.contains(*window) {
                let k = choose|k: int| 0 <= k < self@.windows.len() && self@.windows[k] == *window;
                assert(self.windows@[k] != *window);
            }
        }
        None
    }

    /// Remove a window from the layout
    #[verifier::spinoff_prover]
    #[verifier::rlimit(40)]
    pub fn remove_window(&mut self, window: &WindowId) -> (r: bool)
        requires
            old(self)@.wf(),
        ensures
            r == old(self)@.windows.contains(*window),
            r ==> final(self)@ == old(self)@.after_remove(
                first_index(old(self)@.windows, *window),
            ),
            !r ==> final(self)@ == old(self)@,
            r ==> final(self)@.shows_focus(),
            r && old(self)@.focus is Some && old(self)@.windows[old(self)@.focus->0] != *window
                ==> final(self)@.focus is Some && final(self)@.windows[final(self)@.focus->0]
                == old(self)@.windows[old(self)@.focus->0],
            final(self)@.wf(),
    {
        match self.position(window) {
            Some(idx) => {
                self.windows.remove(idx);
                // Adjust focus index
                if self.windows.len() == 0 {
                    self.focus_index = None;
                } else if let Some(focus_idx) = self.focus_index {
                    if focus_idx >= self.windows.len() {
                        self.focus_index = Some(self.windows.len() - 1);
                    } else if idx < focus_idx {
                        self.focus_index = Some(focus_idx - 1);
                    }
                }
                proof {
                    let m = TilingModel {
                        windows: old(self)@.windows.remove(idx as int),
                        focus: old(self)@.focus_after_remove(idx as int),
                        ..old(self)@
                    };
                    assert(self@ == m);
                    if old(self)@.focus is Some && old(self)@.windows[old(self)@.focus->0]
                        != *window {
                        lemma_remove_keeps_focused_window(old(self)@, *window);
                    }
                }
                self.scroll_to_focused();
                true
            },
            None => false,
        }
    }

    /// Get the currently focused window
    pub fn focused_window(&self) -> (r: Option<WindowId>)
        requires
            self@.wf(),
        ensures
            r == (match self@.focus {
                Some(i) => Some(self@.windows[i]),
                None => None,
            }),
    {
        match self.focus_index {
            Some(idx) => Some(self.windows[idx]),
            None => None,
        }
    }

    /// Focus the next window (to the right)
    pub fn focus_next(&mut self)
        requires
            old(self)@.wf(),
        ensures
            old(self)@.windows.len() == 0 ==> final(self)@ == old(self)@,
            old(self)@.windows.len() > 0 ==> final(self)@ == old(self)@.with_focus(
                old(self)@.next_focus(),
            ).scrolled_to_focus(),
            final(self)@.wf(),
            final(self)@.shows_focus(),
    {
        if self.windows.len() == 0 {
            return;
        }
        let next: usize = match self.focus_index {
            Some(idx) => if idx + 1 < self.windows.len() {
                idx + 1
            } else {
                0  // Wrap around

            },
            None => 0,
        };
        self.focus_index = Some(next);
        proof {
            assert(self@ == old(self)@.with_focus(old(self)@.next_focus()));
        }
        self.scroll_to_focused();
    }

    /// Focus the previous window (to the left)
    pub fn focus_prev(&mut self)
        requires
            old(self)@.wf(),
        ensures
            old(self)@.windows.len() == 0 ==> final(self)@ == old(self)@,
            old(self)@.windows.len() > 0 ==> final(self)@ == old(self)@.with_focus(
                old(self)@.prev_focus(),
            ).scrolled_to_focus(),
            final(self)@.wf(),
            final(self)@.shows_focus(),
    {
        if self.windows.len() == 0 {
            return;
        }
        let prev: usize = match self.focus_index {
            Some(idx) => if idx == 0 {
                self.windows.len() - 1  // Wrap around

            } else {
                idx - 1
            },
            None => 0,
        };
        self.focus_index = Some(prev);
        proof {
            assert(self@ == old(self)@.with_focus(old(self)@.prev_focus()));
        }
        self.scroll_to_focused();
    }

    /// Focus a specific window
    pub fn focus_window(&mut self, window: &WindowId)
        requires
            old(self)@.wf(),
        ensures
            old(self)@.windows.contains(*window) ==> final(self)@ == old(self)@.with_focus(
                Some(first_index(old(self)@.windows, *window)),
            ).scrolled_to_focus(),
            !old(self)@.windows.contains(*window) ==> final(self)@ == old(self)@,
            old(self)@.windows.contains(*window) ==> final(self)@.shows_focus(),
            final(self)@.wf(),
    {
        if let Some(idx) = self.position(window) {
            self.focus_index = Some(idx);
            proof {
                assert(self@ == old(self)@.with_focus(Some(idx as int)));
            }
            self.scroll_to_focused();
        }
    }

    /// Scroll the view left (show more windows on the left), by half a
    /// window width and not past the start of the row; the view then moves
    /// back as far as needed to keep the focused window visible.
    pub fn scroll_left(&mut self)
        requires
            old(self)@.wf(),
        ensures
            final(self)@ == (TilingModel {
                scroll: old(self)@.scroll_left_target(),
                ..old(self)@
            }).scrolled_to_focus(),
            final(self)@.wf(),
            final(self)@.shows_focus(),
    {
        proof {
            lemma_width_bounds(self@);
        }
        let window_width: i32 = self.calculate_window_width();
        let half: i128 = (window_width / 2) as i128;
        let s: i128 = self.scroll_offset - half;
        self.scroll_offset = if s > 0 {
            s
        } else {
            0
        };
        self.scroll_to_focused();
    }

    /// Scroll the view right (show more windows on the right), by half a
    /// window width and not past the end of the row; the view then moves
    /// back as far as needed to keep the focused window visible.
    pub fn scroll_right(&mut self)
        requires
            old(self)@.wf(),
        ensures
            final(self)@ == (TilingModel {
                scroll: old(self)@.scroll_right_target(),
                ..old(self)@
            }).scrolled_to_focus(),
            final(self)@.wf(),
            final(self)@.shows_focus(),
    {
        proof {
            lemma_width_bounds(self@);
            lemma_max_scroll_bounds(self@);
        }
        let window_width: i32 = self.calculate_window_width();
        let max_scroll: i128 = self.calculate_max_scroll();
        let half: i128 = (window_width / 2) as i128;
        let s: i128 = self.scroll_offset + half;
        self.scroll_offset = if s < max_scroll {
            s
        } else {
            max_scroll
        };
        self.scroll_to_focused();
    }

    /// Calculate window positions and return them, as (window, position) pairs
    /// from left to right; a coordinate beyond the range of an `i32` is
    /// saturated to its end.
    pub fn calculate_positions(&self) -> (r: Vec<(WindowId, Point)>)
        requires
            self@.wf(),
        ensures
            r@.len() == self@.windows.len(),
            forall|k: int|
                0 <= k < r@.len() ==> {
                    &&& (#[trigger] r@[k]).0 == self@.windows[k]
                    &&& r@[k].1.x == sat_i32(self@.position_x(k))
                    &&& r@[k].1.y == sat_i32(self@.position_y())
                },
    {
        proof {
            lemma_width_bounds(self@);
        }
        let mut positions: Vec<(WindowId, Point)> = Vec::new();
        let window_width: i128 = self.calculate_window_width() as i128;
        let stride: i128 = window_width + self.gap as i128;
        let base: i128 = self.origin.x as i128 + self.margin as i128 - self.scroll_offset;
        let y: i32 = saturate(self.origin.y as i128 + self.margin as i128);
        let mut x: i128 = base;
        let mut k: usize = 0;
        while k < self.windows.len()
            invariant
                self@.wf(),
                0 <= k <= self.windows@.len(),
                self.windows@ == self@.windows,
                self@.windows.len() <= usize::MAX,
                stride == self@.stride(),
                base == self@.origin.x + self@.margin - self@.scroll,
                y == sat_i32(self@.position_y()),
                x == base + k * stride,
                -8589934592 <= stride <= 8589934592,
                -158456325028528675187087900672 - 8589934592 <= base <= 8589934592,
                positions@.len() == k,
                forall|j: int|
                    0 <= j < k ==> {
                        &&& (#[trigger] positions@[j]).0 == self@.windows[j]
                        &&& positions@[j].1.x == sat_i32(self@.position_x(j))
                        &&& positions@[j].1.y == sat_i32(self@.position_y())
                    },
            decreases self.windows@.len() - k,
        {
            proof {
                lemma_start_bounds(k as int, stride as int);
                lemma_start_bounds((k + 1) as int, stride as int);
            }
            positions.push((self.windows[k], Point { x: saturate(x), y }));
            x = x + stride;
            k = k + 1;
        }
        positions
    }

    /// Get all windows
    pub fn windows(&self) -> (r: &[WindowId])
        ensures
            r@ == self@.windows,
    {
        self.windows.as_slice()
    }

    /// Check if a window is in the layout
    pub fn contains(&self, window: &WindowId) -> (r: bool)
        ensures
            r == self@.windows.contains(*window),
    {
        self.position(window).is_some()
    }

    /// Get window count
    pub fn window_count(&self) -> (r: usize)
        ensures
            r == self@.windows.len(),
    {
        self.windows.len()
    }

    /// The configure requests that reconfigure every window with the current
    /// layout settings, in window order.
    pub fn reconfigure_all(&self) -> (r: Vec<Configure>)
        requires
            self@.wf(),
        ensures
            r@.len() == self@.windows.len(),
            forall|k: int| 0 <= k < r@.len() ==> #[trigger] r@[k] == self@.configure_for(self@.windows[k]),
    {
        let size: Size = self.window_size();
        let mut out: Vec<Configure> = Vec::new();
        let mut k: usize = 0;
        while k < self.windows.len()
            invariant
                0 <= k <= self.windows@.len(),
                self.windows@ == self@.windows,
                self@.wf(),
                size.w == self@.window_width(),
                size.h == sat_i32(self@.window_height()),
                out@.len() == k,
                forall|j: int| 0 <= j < k ==> #[trigger] out@[j] == self@.configure_for(self@.windows[j]),
            decreases self.windows@.len() - k,
        {
            out.push(Configure { window: self.windows[k], size });
            k = k + 1;
        }
        out
    }
}

} // verus!
