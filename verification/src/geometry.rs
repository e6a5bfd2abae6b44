use vstd::prelude::*;

verus! {

/// A size in logical pixels.
#[derive(Debug, Clone, Copy, PartialEq, Eq, Structural)]
pub struct Size {
    pub w: i32,
    pub h: i32,
}

/// A point in logical pixels.
#[derive(Debug, Clone, Copy, PartialEq, Eq, Structural)]
pub struct Point {
    pub x: i32,
    pub y: i32,
}

/// An axis-aligned rectangle: its top-left corner and its size.
#[derive(Debug, Clone, Copy, PartialEq, Eq, Structural)]
pub struct Rect {
    pub loc: Point,
    pub size: Size,
}

/// The rotations and reflections an output can be displayed with.
#[derive(Debug, Clone, Copy, PartialEq, Eq, Structural)]
pub enum Transform {
    Normal,
    Rotate90,
    Rotate180,
    Rotate270,
    Flipped,
    Flipped90,
    Flipped180,
    Flipped270,
}

impl Transform {
    /// Whether the transform turns the output by a quarter turn, so that
    /// width and height trade places.
    pub open spec fn swaps_axes(self) -> bool {
        self is Rotate90 || self is Rotate270 || self is Flipped90 || self is Flipped270
    }

    pub open spec fn spec_transform_size(self, size: Size) -> Size {
        if self.swaps_axes() {
            Size { w: size.h, h: size.w }
        } else {
            size
        }
    }

    /// The size a mode of `size` takes on screen once this transform is applied.
    pub fn transform_size(self, size: Size) -> (r: Size)
        ensures
            r == self.spec_transform_size(size),
    {
        match self {
            Transform::Rotate90 | Transform::Rotate270 | Transform::Flipped90
            | Transform::Flipped270 => Size { w: size.h, h: size.w },
            _ => size,
        }
    }
}

impl Rect {
    pub open spec fn spec_contains(self, p: Point) -> bool {
        &&& self.loc.x <= p.x
        &&& self.loc.y <= p.y
        &&& p.x < self.loc.x + self.size.w
        &&& p.y < self.loc.y + self.size.h
    }

    /// Whether the point lies inside the rectangle (the right and bottom edges
    /// are outside).
    pub fn contains(&self, p: Point) -> (r: bool)
        ensures
            r == self.spec_contains(p),
    {
        let x = p.x as i64;
        let y = p.y as i64;
        (self.loc.x as i64) <= x && (self.loc.y as i64) <= y
            && x < self.loc.x as i64 + self.size.w as i64
            && y < self.loc.y as i64 + self.size.h as i64
    }
}

} // verus!
