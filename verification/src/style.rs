use vstd::prelude::*;
use crate::MAX_CELL;

verus! {

/// A dimension request: a fixed number of cells, or a fraction
/// (numerator, denominator) of the space remaining in the parent
/// along that axis.
#[derive(Copy, Clone, Debug, PartialEq, Eq, Structural)]
pub enum Length {
    Absolute(u64),
    Relative(u64, u64),
}

/// Per-edge padding, in cells, applied independently on each axis.
#[derive(Copy, Clone, Debug, PartialEq, Eq, Structural)]
pub struct Padding {
    pub x_start: u64,
    pub x_end: u64,
    pub y_start: u64,
    pub y_end: u64,
}

/// Author-set layout intent for one widget.
#[derive(Copy, Clone, Debug, PartialEq, Eq, Structural)]
pub struct StyleSheet {
    pub width: Length,
    pub height: Length,
    pub padding: Padding,
}

/// A length that the layout pass can resolve without overflowing:
/// absolute extents stay within `MAX_CELL`, and a relative length is a
/// true fraction (numerator at most the denominator) with a positive,
/// bounded denominator.
pub open spec fn length_wf(l: Length) -> bool {
    match l {
        Length::Absolute(n) => n <= MAX_CELL,
        Length::Relative(num, den) => 1 <= den <= MAX_CELL && num <= den,
    }
}

pub open spec fn padding_wf(p: Padding) -> bool {
    &&& p.x_start <= MAX_CELL
    &&& p.x_end <= MAX_CELL
    &&& p.y_start <= MAX_CELL
    &&& p.y_end <= MAX_CELL
}

pub open spec fn style_wf(s: StyleSheet) -> bool {
    length_wf(s.width) && length_wf(s.height) && padding_wf(s.padding)
}

impl Default for StyleSheet {
    /// A quarter of the remaining space on each axis, with one cell of
    /// start padding on both axes.
    fn default() -> (r: Self)
        ensures
            r == (StyleSheet {
                width: Length::Relative(1, 4),
                height: Length::Relative(1, 4),
                padding: Padding { x_start: 1, x_end: 0, y_start: 1, y_end: 0 },
            }),
            style_wf(r),
    {
        StyleSheet {
            width: Length::Relative(1, 4),
            height: Length::Relative(1, 4),
            padding: Padding { x_start: 1, x_end: 0, y_start: 1, y_end: 0 },
        }
    }
}

} // verus!
