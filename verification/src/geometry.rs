//! Rectangles of terminal cells, and colors.

use vstd::prelude::*;

verus! {

/// `n`, or the largest coordinate where `n` is larger.
pub open spec fn capped(n: int) -> u16 {
    if n <= u16::MAX {
        n as u16
    } else {
        u16::MAX
    }
}

/// A rectangle of terminal cells.
#[derive(Debug, Clone, Copy, PartialEq, Eq, Structural)]
pub struct Rect {
    pub x: u16,
    pub y: u16,
    pub width: u16,
    pub height: u16,
}

impl Rect {
    /// Both far edges fit the coordinate type.
    pub open spec fn fits(self) -> bool {
        self.x + self.width <= u16::MAX && self.y + self.height <= u16::MAX
    }

    /// Whether the cell at (`col`, `row`) lies inside.
    pub open spec fn covers(self, col: int, row: int) -> bool {
        self.x <= col < self.x + self.width && self.y <= row < self.y + self.height
    }

    /// The rectangle at (`x`, `y`), cut off where a far edge would leave the
    /// coordinate type.
    pub fn new(x: u16, y: u16, width: u16, height: u16) -> (r: Rect)
        ensures
            r.x == x,
            r.y == y,
            r.width == if x + width <= u16::MAX { width as int } else { u16::MAX - x },
            r.height == if y + height <= u16::MAX { height as int } else { u16::MAX - y },
            r.fits(),
    {
        let max_width = u16::MAX - x;
        let max_height = u16::MAX - y;
        Rect {
            x,
            y,
            width: if width > max_width {
                max_width
            } else {
                width
            },
            height: if height > max_height {
                max_height
            } else {
                height
            },
        }
    }

    /// The first row below the rectangle.
    pub fn bottom(&self) -> (b: u16)
        ensures
            b == if self.y + self.height <= u16::MAX { self.y + self.height } else { u16::MAX as int },
    {
        self.y.saturating_add(self.height)
    }

    /// What is left inside margins of `horizontal` columns and `vertical` rows
    /// on either side; the rectangle without area at the origin where the
    /// margins take up more than there is.
    pub open spec fn shrunk(self, horizontal: int, vertical: int) -> Rect {
        if self.width < 2 * horizontal || self.height < 2 * vertical {
            Rect { x: 0, y: 0, width: 0, height: 0 }
        } else {
            Rect {
                x: capped(self.x + horizontal),
                y: capped(self.y + vertical),
                width: (self.width - 2 * horizontal) as u16,
                height: (self.height - 2 * vertical) as u16,
            }
        }
    }

    /// The part of the rectangle inside a border of `horizontal` columns and
    /// `vertical` rows.
    pub fn inner(&self, horizontal: u16, vertical: u16) -> (r: Rect)
        requires
            horizontal <= u16::MAX / 2,
            vertical <= u16::MAX / 2,
        ensures
            r == self.shrunk(horizontal as int, vertical as int),
            self.fits() ==> r.fits(),
    {
        if self.width < 2 * horizontal || self.height < 2 * vertical {
            Rect { x: 0, y: 0, width: 0, height: 0 }
        } else {
            Rect {
                x: self.x.saturating_add(horizontal),
                y: self.y.saturating_add(vertical),
                width: self.width - 2 * horizontal,
                height: self.height - 2 * vertical,
            }
        }
    }

    /// Whether the cell at (`col`, `row`) lies inside.
    pub fn contains(&self, col: u16, row: u16) -> (b: bool)
        ensures
            b == self.covers(col as int, row as int),
    {
        col >= self.x && col - self.x < self.width && row >= self.y && row - self.y < self.height
    }
}

/// A terminal color.
#[derive(Debug, Clone, Copy, PartialEq, Eq, Structural)]
pub enum Color {
    /// The terminal's default.
    Reset,
    Black,
    Red,
    Green,
    Yellow,
    Blue,
    Magenta,
    Cyan,
    Gray,
    DarkGray,
    LightRed,
    LightGreen,
    LightYellow,
    LightBlue,
    LightMagenta,
    LightCyan,
    White,
    Rgb(u8, u8, u8),
    /// A color of the terminal's palette.
    Indexed(u8),
}

} // verus!
