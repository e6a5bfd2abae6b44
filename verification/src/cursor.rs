//! The built-in cursor image, used when no cursor theme is loaded.
use vstd::prelude::*;

verus! {

/// Default cursor size
pub const DEFAULT_CURSOR_SIZE: u32 = 24;

/// Number of bytes of the fallback cursor image (24 x 24 pixels, 4 bytes each).
pub const CURSOR_BYTES: usize = 2304;

/// Whether pixel (x, y) of the fallback cursor is white: a triangle whose
/// tip is at the top-left corner.
pub open spec fn is_fill(x: int, y: int) -> bool {
    x <= y && x + y <= 20 && y < 18
}

/// Whether pixel (x, y) of the fallback cursor is black: the outline round
/// the white triangle.
pub open spec fn is_outline(x: int, y: int) -> bool {
    !is_fill(x, y) && x <= y + 1 && x + y <= 21 && y < 19 && (x == 0 || y == x || x + y == 20)
}

/// Channel `c` (blue, green, red, alpha) of pixel (x, y) of the fallback
/// cursor: opaque white on the triangle, opaque black on its outline,
/// transparent elsewhere.
pub open spec fn pixel_channel(x: int, y: int, c: int) -> u8 {
    if is_fill(x, y) {
        255
    } else if is_outline(x, y) {
        if c == 3 {
            255
        } else {
            0
        }
    } else {
        0
    }
}

/// Byte `i` of the fallback cursor image: pixels row by row, each as four
/// bytes B, G, R, A.
pub open spec fn cursor_byte(i: int) -> u8 {
    pixel_channel((i / 4) % 24, (i / 4) / 24, i % 4)
}

proof fn lemma_byte_of_pixel(x: int, y: int, c: int)
    requires
        0 <= x < 24,
        0 <= y < 24,
        0 <= c < 4,
    ensures
        cursor_byte((y * 24 + x) * 4 + c) == pixel_channel(x, y, c),
        0 <= (y * 24 + x) * 4 + c < 2304,
{
    let i = (y * 24 + x) * 4 + c;
    assert(i / 4 == y * 24 + x && i % 4 == c) by (nonlinear_arith)
        requires
            i == (y * 24 + x) * 4 + c,
            0 <= c < 4,
            0 <= x < 24,
            0 <= y < 24,
    ;
    assert((y * 24 + x) % 24 == x && (y * 24 + x) / 24 == y) by (nonlinear_arith)
        requires
            0 <= x < 24,
            0 <= y,
    ;
    assert(0 <= i < 2304) by (nonlinear_arith)
        requires
            i == (y * 24 + x) * 4 + c,
            0 <= c < 4,
            0 <= x < 24,
            0 <= y < 24,
    ;
}

/// A simple fallback cursor (white arrow shape)
/// This is a 24x24 ARGB cursor
pub fn create_fallback_cursor() -> (r: Vec<u8>)
    ensures
        r@.len() == CURSOR_BYTES,
        forall|i: int| 0 <= i < CURSOR_BYTES ==> r@[i] == cursor_byte(i),
{
    let size: usize = 24;
    let mut data: Vec<u8> = Vec::new();
    let mut y: usize = 0;
    while y < size
        invariant
            size == 24,
            0 <= y <= 24,
            data@.len() == y * 96,
            forall|i: int| 0 <= i < data@.len() ==> data@[i] == cursor_byte(i),
        decreases 24 - y,
    {
        let mut x: usize = 0;
        while x < size
            invariant
                size == 24,
                0 <= y < 24,
                0 <= x <= 24,
                data@.len() == (y * 24 + x) * 4,
                forall|i: int| 0 <= i < data@.len() ==> data@[i] == cursor_byte(i),
            decreases 24 - x,
        {
            let xi: i32 = x as i32;
            let yi: i32 = y as i32;
            let mut px: [u8; 4] = [0, 0, 0, 0];
            // Simple triangular cursor: x <= y and x + y <= 20
            if xi <= yi && xi + yi <= 20 && yi < 18 {
                // White fill
                px = [255, 255, 255, 255];
            } else if xi <= yi + 1 && xi + yi <= 21 && yi < 19 && (xi == 0 || yi == xi || xi + yi
                == 20) {
                // Black outline
                px = [0, 0, 0, 255];
            }
            let mut c: usize = 0;
            while c < 4
                invariant
                    0 <= y < 24,
                    0 <= x < 24,
                    0 <= c <= 4,
                    xi == x,
                    yi == y,
                    forall|k: int| 0 <= k < 4 ==> px@[k] == pixel_channel(x as int, y as int, k),
                    data@.len() == (y * 24 + x) * 4 + c,
                    forall|i: int| 0 <= i < data@.len() ==> data@[i] == cursor_byte(i),
                decreases 4 - c,
            {
                proof {
                    lemma_byte_of_pixel(x as int, y as int, c as int);
                }
                data.push(px[c]);
                c = c + 1;
            }
            x = x + 1;
        }
        y = y + 1;
    }
    data
}

} // verus!
