//! Where in the frame of the window a point lies.

use vstd::prelude::*;

verus! {

/// The height of the title bar.
pub const TITLEBAR_HEIGHT: i32 = 80;

/// A point of the screen.
#[derive(Debug, Clone, Copy, PartialEq, Eq, Structural)]
pub struct Point {
    pub x: i32,
    pub y: i32,
}

/// The rectangle of the window on the screen.
#[derive(Debug, Clone, Copy, PartialEq, Eq, Structural)]
pub struct WindowRect {
    pub left: i32,
    pub top: i32,
    pub right: i32,
    pub bottom: i32,
}

/// The part of the title bar that tabs cover, in halves of the units of
/// the window and counted from its corner: it stands for the button that
/// maximizes the window.
#[derive(Debug, Clone, Copy, PartialEq, Eq, Structural)]
pub struct CoveredArea {
    pub left: i32,
    pub right: i32,
    pub bottom: i32,
}

/// What a point of the frame stands for.
#[derive(Debug, Clone, Copy, PartialEq, Eq, Structural)]
pub enum Hit {
    Nowhere,
    MaxButton,
    Left,
    Right,
    Top,
    TopLeft,
    TopRight,
    Bottom,
    BottomLeft,
    BottomRight,
}

impl Hit {
    /// The number by which the window system knows the hit.
    pub open spec fn number(self) -> int {
        match self {
            Hit::Nowhere => 0,
            Hit::MaxButton => 9,
            Hit::Left => 10,
            Hit::Right => 11,
            Hit::Top => 12,
            Hit::TopLeft => 13,
            Hit::TopRight => 14,
            Hit::Bottom => 15,
            Hit::BottomLeft => 16,
            Hit::BottomRight => 17,
        }
    }

    /// The number by which the window system knows the hit.
    pub fn code(self) -> (r: isize)
        ensures
            r == self.number(),
    {
        match self {
            Hit::Nowhere => 0,
            Hit::MaxButton => 9,
            Hit::Left => 10,
            Hit::Right => 11,
            Hit::Top => 12,
            Hit::TopLeft => 13,
            Hit::TopRight => 14,
            Hit::Bottom => 15,
            Hit::BottomLeft => 16,
            Hit::BottomRight => 17,
        }
    }
}

/// Whether a point lies on the covered part of the title bar: the area is
/// taken at twice its size from the left corner of the window, and starts
/// 5 below its top.
pub open spec fn on_covered(cursor: Point, window: WindowRect, area: CoveredArea) -> bool {
    &&& window.left + area.left * 2 <= cursor.x <= window.left + area.right * 2
    &&& window.top + 5 <= cursor.y <= window.top + area.bottom * 2
}

/// The row of the frame in which a point lies: 0 for the upper edge, the
/// first 5 of the title bar; 2 for the lower edge, the last 10 of the
/// window; 1 for what lies between, the rest of the title bar included.
pub open spec fn row_of(cursor: Point, window: WindowRect) -> int {
    if window.top <= cursor.y < window.top + TITLEBAR_HEIGHT {
        if cursor.y < window.top + 5 {
            0
        } else {
            1
        }
    } else if window.bottom - 10 <= cursor.y < window.bottom {
        2
    } else {
        1
    }
}

/// The column of the frame in which a point lies: 0 for the left edge, the
/// first 10 of the window; 2 for the right edge, the last 10; 1 for what
/// lies between.
pub open spec fn col_of(cursor: Point, window: WindowRect) -> int {
    if window.left <= cursor.x < window.left + 10 {
        0
    } else if window.right - 10 <= cursor.x < window.right {
        2
    } else {
        1
    }
}

/// The hit of a row and a column of the frame.
pub open spec fn hit_at(row: int, col: int) -> Hit {
    if row == 0 {
        if col == 0 {
            Hit::TopLeft
        } else if col == 1 {
            Hit::Top
        } else {
            Hit::TopRight
        }
    } else if row == 1 {
        if col == 0 {
            Hit::Left
        } else if col == 1 {
            Hit::Nowhere
        } else {
            Hit::Right
        }
    } else {
        if col == 0 {
            Hit::BottomLeft
        } else if col == 1 {
            Hit::Bottom
        } else {
            Hit::BottomRight
        }
    }
}

/// What a point stands for: the button that maximizes the window where it
/// lies on the covered part of the title bar, and else the edge or corner
/// of the frame in whose row and column it lies.
pub open spec fn hit_of(cursor: Point, window: WindowRect, covered: Option<CoveredArea>) -> Hit {
    match covered {
        Some(area) if on_covered(cursor, window, area) => Hit::MaxButton,
        _ => hit_at(row_of(cursor, window), col_of(cursor, window)),
    }
}

/// The point that a message of the window system carries: its low 16 bits
/// are the x coordinate, the 16 bits above them the y coordinate.
pub fn cursor_of(lparam: isize) -> (r: Point)
    ensures
        r.x == (lparam as i32) & 0xffff,
        r.y == ((lparam as i32) >> 16) & 0xffff,
{
    let low: i32 = #[verifier::truncate] (lparam as i32);
    Point { x: low & 0xffff, y: (low >> 16) & 0xffff }
}

/// What a point stands for.
pub fn hit_test_nca(cursor: Point, window: WindowRect, covered: Option<CoveredArea>) -> (r: Hit)
    ensures
        r == hit_of(cursor, window, covered),
{
    let x: i64 = cursor.x as i64;
    let y: i64 = cursor.y as i64;
    let left: i64 = window.left as i64;
    let top: i64 = window.top as i64;
    let right: i64 = window.right as i64;
    let bottom: i64 = window.bottom as i64;
    // Whether we are on the title bar where tabs cover it
    match covered {
        Some(area) => {
            if x >= left + area.left as i64 * 2 && x <= left + area.right as i64 * 2 && y >= top + 5
                && y <= top + area.bottom as i64 * 2 {
                return Hit::MaxButton;
            }
        },
        None => {},
    }
    // Determine if the point is at the top or bottom of the window.
    let row: u8 = if y >= top && y < top + TITLEBAR_HEIGHT as i64 {
        if y < top + 5 {
            0
        } else {
            1
        }
    } else if y < bottom && y >= bottom - 10 {
        2
    } else {
        1
    };
    // Determine if the point is at the left or right of the window.
    let col: u8 = if x >= left && x < left + 10 {
        0
    } else if x < right && x >= right - 10 {
        2
    } else {
        1
    };
    match (row, col) {
        (0, 0) => Hit::TopLeft,
        (0, 1) => Hit::Top,
        (0, _) => Hit::TopRight,
        (1, 0) => Hit::Left,
        (1, 1) => Hit::Nowhere,
        (1, _) => Hit::Right,
        (_, 0) => Hit::BottomLeft,
        (_, 1) => Hit::Bottom,
        (_, _) => Hit::BottomRight,
    }
}

} // verus!
