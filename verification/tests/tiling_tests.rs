use tomoe::geometry::{Point, Rect, Size};
use tomoe::tiling::{Configure, TilingLayout, WidthRatio, WindowId};

fn half() -> WidthRatio {
    WidthRatio { num: 1, den: 2 }
}

fn layout_1000() -> TilingLayout {
    let mut t = TilingLayout::new(8, 8, half());
    t.set_output_size(Size { w: 1000, h: 800 });
    t
}

#[test]
fn window_width_is_a_share_of_the_screen_width() {
    // The default output size is 1920x1080: half of it is 960 pixels.
    let t = TilingLayout::new(8, 8, half());
    assert_eq!(t.window_size(), Size { w: 960, h: 1064 });
}

#[test]
fn add_window_configures_half_width() {
    let mut t = layout_1000();
    let c = t.add_window(WindowId(1));
    assert_eq!(c, Configure { window: WindowId(1), size: Size { w: 500, h: 784 } });
    assert_eq!(t.window_size(), Size { w: 500, h: 784 });
    assert_eq!(t.focused_window(), Some(WindowId(1)));
    assert_eq!(t.calculate_positions(), vec![(WindowId(1), Point { x: 8, y: 8 })]);
}

#[test]
fn new_window_is_focused_and_scrolled_into_view() {
    let mut t = layout_1000();
    t.add_window(WindowId(1));
    t.add_window(WindowId(2));
    assert_eq!(t.focused_window(), Some(WindowId(2)));
    assert_eq!(
        t.calculate_positions(),
        vec![(WindowId(1), Point { x: -16, y: 8 }), (WindowId(2), Point { x: 492, y: 8 })]
    );
    t.add_window(WindowId(3));
    assert_eq!(
        t.calculate_positions(),
        vec![
            (WindowId(1), Point { x: -524, y: 8 }),
            (WindowId(2), Point { x: -16, y: 8 }),
            (WindowId(3), Point { x: 492, y: 8 }),
        ]
    );
}

#[test]
fn focus_next_then_prev_returns() {
    let mut t = layout_1000();
    for i in 1..=3 {
        t.add_window(WindowId(i));
    }
    t.focus_prev();
    assert_eq!(t.focused_window(), Some(WindowId(2)));
    assert_eq!(t.calculate_positions()[1], (WindowId(2), Point { x: 8, y: 8 }));
    t.focus_next();
    assert_eq!(t.focused_window(), Some(WindowId(3)));
    t.focus_prev();
    assert_eq!(t.focused_window(), Some(WindowId(2)));
}

#[test]
fn focus_wraps_around() {
    let mut t = layout_1000();
    t.add_window(WindowId(1));
    t.add_window(WindowId(2));
    t.focus_next();
    assert_eq!(t.focused_window(), Some(WindowId(1)));
    t.focus_prev();
    assert_eq!(t.focused_window(), Some(WindowId(2)));
}

#[test]
fn scroll_left_and_right_keep_the_focused_window_visible() {
    let mut t = layout_1000();
    for i in 1..=3 {
        t.add_window(WindowId(i));
    }
    t.focus_prev();
    // Scrolled to 508 with the middle window focused; half a window is 250.
    t.scroll_left();
    assert_eq!(t.calculate_positions()[0], (WindowId(1), Point { x: -250, y: 8 }));
    // Scrolling further would hide the focused window's right edge.
    t.scroll_left();
    assert_eq!(t.calculate_positions()[0], (WindowId(1), Point { x: -16, y: 8 }));
    t.scroll_right();
    assert_eq!(t.calculate_positions()[0], (WindowId(1), Point { x: -266, y: 8 }));
    // Scrolling further would hide the focused window's left edge.
    t.scroll_right();
    assert_eq!(t.calculate_positions()[1], (WindowId(2), Point { x: 8, y: 8 }));
}

#[test]
fn scroll_right_with_first_window_focused_keeps_it_visible() {
    let mut t = TilingLayout::new(8, 8, half());
    for i in 0..3 {
        t.add_window(WindowId(i));
    }
    t.focus_window(&WindowId(0));
    t.scroll_right();
    let (id, p) = t.calculate_positions()[0];
    assert_eq!(id, WindowId(0));
    assert!(8 <= p.x && p.x + 960 <= 1912);
}

#[test]
fn add_then_remove_restores_windows() {
    let mut t = layout_1000();
    t.add_window(WindowId(1));
    t.add_window(WindowId(2));
    assert!(t.remove_window(&WindowId(2)));
    assert_eq!(t.windows(), &[WindowId(1)]);
    assert_eq!(t.focused_window(), Some(WindowId(1)));
    assert!(!t.remove_window(&WindowId(9)));
    assert!(t.remove_window(&WindowId(1)));
    assert_eq!(t.focused_window(), None);
    assert_eq!(t.window_count(), 0);
}

#[test]
fn focus_window_and_contains() {
    let mut t = layout_1000();
    for i in 1..=3 {
        t.add_window(WindowId(i));
    }
    assert!(t.contains(&WindowId(2)));
    assert!(!t.contains(&WindowId(4)));
    t.focus_window(&WindowId(1));
    assert_eq!(t.focused_window(), Some(WindowId(1)));
    assert_eq!(t.calculate_positions()[0], (WindowId(1), Point { x: 8, y: 8 }));
}

#[test]
fn available_area_moves_origin() {
    let mut t = layout_1000();
    t.set_available_area(Rect { loc: Point { x: 0, y: 30 }, size: Size { w: 1000, h: 770 } });
    let c = t.add_window(WindowId(7));
    assert_eq!(c.size, Size { w: 500, h: 754 });
    assert_eq!(t.calculate_positions(), vec![(WindowId(7), Point { x: 8, y: 38 })]);
    let all = t.reconfigure_all();
    assert_eq!(all, vec![Configure { window: WindowId(7), size: Size { w: 500, h: 754 } }]);
}

#[test]
fn any_configured_values_are_laid_out() {
    // A ratio above one makes windows wider than the screen.
    let mut t = TilingLayout::new(0, 0, WidthRatio { num: 3, den: 2 });
    t.set_output_size(Size { w: 1000, h: 800 });
    assert_eq!(t.window_size(), Size { w: 1500, h: 800 });
    // A share beyond the range of an i32 saturates.
    let mut wide = TilingLayout::new(0, 0, WidthRatio { num: u64::MAX, den: 1 });
    wide.set_output_size(Size { w: 1000, h: 800 });
    assert_eq!(wide.window_size().w, i32::MAX);
    // Large gaps and margins are taken as given; a height beyond an i32 saturates.
    let mut far = TilingLayout::new(1_000_000, -2_000_000_000, half());
    far.set_output_size(Size { w: 1000, h: 800 });
    assert_eq!(far.window_size(), Size { w: 500, h: i32::MAX });
    far.add_window(WindowId(1));
    far.add_window(WindowId(2));
    let p = far.calculate_positions();
    assert_eq!(p[0].1.y, -2_000_000_000);
}

#[test]
fn a_row_takes_any_number_of_windows() {
    let mut t = layout_1000();
    for k in 0..5000u64 {
        t.add_window(WindowId(k));
    }
    assert_eq!(t.window_count(), 5000);
    assert_eq!(t.focused_window(), Some(WindowId(4999)));
    let p = t.calculate_positions();
    // The focused (last) window is in view.
    assert_eq!(p[4999].1.x, 8 + 1000 - 16 - 500);
}
