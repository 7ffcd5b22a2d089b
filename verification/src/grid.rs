//! The lines of the grid: which of them are drawn around the camera, and how
//! strongly each one.
//!
//! Lines are numbered from the axis, which is line 0. Where line `i` lies depends
//! on the zoom level and is for the caller to work out; which lines there are does
//! not.
use vstd::prelude::*;
use crate::scalar::Scalar;

verus! {

/// How many lines are drawn on each side of the camera.
pub const REACH: i32 = 80;

/// Every line with a number that this divides is a major line.
pub const MAJOR_EVERY: i32 = 5;

/// How strongly a line is drawn.
#[derive(Clone, Copy, Debug, PartialEq, Eq, Structural)]
pub enum LineWeight {
    /// The axis itself, drawn solid.
    Axis,
    /// Every fifth line: drawn darker, and labelled.
    Major,
    /// The lines in between.
    Minor,
}

impl LineWeight {
    /// Whether a line of this weight carries a label: the major lines do.
    pub fn has_label(self) -> (labelled: bool)
        ensures
            labelled == (self == LineWeight::Major),
    {
        match self {
            LineWeight::Major => true,
            LineWeight::Axis => false,
            LineWeight::Minor => false,
        }
    }
}

/// One line of the grid.
#[derive(Clone, Copy, Debug, PartialEq, Eq, Structural)]
pub struct GridLine {
    /// The line's number, counted from the axis.
    pub index: i32,
    pub weight: LineWeight,
}

/// The weight of line `index`.
pub open spec fn weight_of(index: int) -> LineWeight {
    if index == 0 {
        LineWeight::Axis
    } else if index % (MAJOR_EVERY as int) == 0 {
        LineWeight::Major
    } else {
        LineWeight::Minor
    }
}

/// Line `index` with its weight.
pub open spec fn line_at(index: int) -> GridLine {
    GridLine { index: index as i32, weight: weight_of(index) }
}

/// The weight of line `index`.
pub fn line_weight(index: i32) -> (weight: LineWeight)
    ensures
        weight == weight_of(index as int),
{
    if index == 0 {
        LineWeight::Axis
    } else {
        let wide: i64 = index as i64;
        let size: i64 = if wide < 0 {
            -wide
        } else {
            wide
        };
        if size % (MAJOR_EVERY as i64) == 0 {
            LineWeight::Major
        } else {
            LineWeight::Minor
        }
    }
}

/// The lines drawn when the camera stands over line `offset`: the 160 lines from
/// `offset - 80` up to, but not including, `offset + 80`, in rising order.
pub open spec fn lines_around(offset: int) -> Seq<GridLine> {
    Seq::new((2 * REACH) as nat, |k: int| line_at(offset - REACH + k))
}

/// Whether all the lines around `offset` have numbers within the range of `i32`.
pub open spec fn in_reach(offset: int) -> bool {
    i32::MIN + REACH <= offset <= i32::MAX - REACH
}

/// The lines drawn when the camera stands over line `offset`.
pub fn grid_lines(offset: i32) -> (lines: Vec<GridLine>)
    requires
        in_reach(offset as int),
    ensures
        lines@ == lines_around(offset as int),
{
    let bound_l: i32 = offset - REACH;
    let bound_r: i32 = offset + REACH;
    let mut lines: Vec<GridLine> = Vec::new();
    let mut i: i32 = bound_l;
    while i < bound_r
        invariant
            bound_l == offset - REACH,
            bound_r == offset + REACH,
            bound_l <= i <= bound_r,
            lines@.len() == i - bound_l,
            forall|k: int| 0 <= k < lines@.len() ==> lines@[k] == line_at(bound_l + k),
        decreases bound_r - i,
    {
        lines.push(GridLine { index: i, weight: line_weight(i) });
        i = i + 1;
    }
    assert(lines@ =~= lines_around(offset as int));
    lines
}

/// The lines drawn around a camera. `offset` is where the camera stands along the
/// axis that the lines cross, counted in lines; it is cut to a whole number as a
/// cast cuts it. `None` where line numbers that far out do not fit in an `i32`.
pub fn get_instances(offset: Scalar) -> (lines: Option<Vec<GridLine>>)
    ensures
        match lines {
            Some(lines) => in_reach(offset.to_i32_spec() as int) && lines@ == lines_around(
                offset.to_i32_spec() as int,
            ),
            None => !in_reach(offset.to_i32_spec() as int),
        },
{
    let whole: i32 = offset.to_i32();
    if i32::MIN + REACH <= whole && whole <= i32::MAX - REACH {
        Some(grid_lines(whole))
    } else {
        None
    }
}

} // verus!
