//! The curves on show: a list of lines, each known by its place in the list.
use vstd::prelude::*;
use crate::geometry::Line;

verus! {

/// The lines that are drawn. A line's label is its place in `lines`.
pub struct EquationPipeline<S, V> {
    pub lines: Vec<Line<S, V>>,
}

impl<S, V> EquationPipeline<S, V> {
    /// Whether every line's indices are those of a mesh over its vertices. A
    /// pipeline starts out so and stays so under its own methods.
    pub open spec fn well_formed(self) -> bool {
        forall|i: int| 0 <= i < self.lines@.len() ==> (#[trigger] self.lines@[i]).well_formed()
    }

    /// A pipeline with no lines.
    pub fn new() -> (pipeline: Self)
        ensures
            pipeline.lines@.len() == 0,
            pipeline.well_formed(),
    {
        EquationPipeline { lines: Vec::new() }
    }

    /// Adds a line without a mesh at the end of the list and says that it did.
    /// The line's label is the place it gets there; `label` is not looked at.
    pub fn add_line(&mut self, label: u32, coeffs: Vec<S>, width: S) -> (added: bool)
        ensures
            added,
            final(self).lines@.len() == old(self).lines@.len() + 1,
            final(self).lines@.drop_last() == old(self).lines@,
            final(self).lines@.last().coeffs == coeffs,
            final(self).lines@.last().width == width,
            final(self).lines@.last().vertices@.len() == 0,
            final(self).lines@.last().indices@.len() == 0,
            final(self).lines@.last().well_formed(),
            old(self).well_formed() ==> final(self).well_formed(),
    {
        let line = Line::new(coeffs, width);
        self.lines.push(line);
        assert(self.lines@.drop_last() =~= old(self).lines@);
        assert(forall|i: int|
            0 <= i < old(self).lines@.len() ==> self.lines@[i] == self.lines@.drop_last()[i]);
        true
    }

    /// Gives line `label` new coefficients, which the next mesh built is drawn
    /// from, and says whether there is such a line. Nothing else changes, and
    /// nothing at all where there is none.
    pub fn update_line(&mut self, label: u32, coeffs: Vec<S>) -> (updated: bool)
        ensures
            updated == (label < old(self).lines@.len()),
            updated ==> final(self).lines@ == old(self).lines@.update(
                label as int,
                (Line { coeffs, ..old(self).lines@[label as int] }),
            ),
            !updated ==> *final(self) == *old(self),
            old(self).well_formed() ==> final(self).well_formed(),
    {
        let at: usize = label as usize;
        if at < self.lines.len() {
            self.lines[at].coeffs = coeffs;
            assert(self.lines@ =~= old(self).lines@.update(
                label as int,
                (Line { coeffs, ..old(self).lines@[label as int] }),
            ));
            true
        } else {
            false
        }
    }
}

impl<S: Copy, V> EquationPipeline<S, V> {
    /// Gives every line the width `width` and builds its mesh anew for the range
    /// from `x_min` to `x_max`, with its vertices as `square_points` gives them.
    pub fn update_equations<F: Fn(&Vec<S>, &S, i32, bool) -> (V, V)>(
        &mut self,
        width: S,
        x_min: i32,
        x_max: i32,
        square_points: &F,
    )
        requires
            forall|coeffs: &Vec<S>, width: &S, num: i32, initial: bool|
                square_points.requires((coeffs, width, num, initial)),
        ensures
            final(self).lines@.len() == old(self).lines@.len(),
            forall|i: int|
                0 <= i < old(self).lines@.len() ==> {
                    let line = #[trigger] final(self).lines@[i];
                    &&& line.coeffs == old(self).lines@[i].coeffs
                    &&& line.width == width
                    &&& line.is_ribbon(x_min as int, x_max as int, *square_points)
                    &&& line.well_formed()
                },
            final(self).well_formed(),
    {
        let mut i: usize = 0;
        while i < self.lines.len()
            invariant
                i <= self.lines@.len(),
                self.lines@.len() == old(self).lines@.len(),
                forall|coeffs: &Vec<S>, width: &S, num: i32, initial: bool|
                    square_points.requires((coeffs, width, num, initial)),
                forall|k: int|
                    0 <= k < i ==> {
                        let line = #[trigger] self.lines@[k];
                        &&& line.coeffs == old(self).lines@[k].coeffs
                        &&& line.width == width
                        &&& line.is_ribbon(x_min as int, x_max as int, *square_points)
                        &&& line.well_formed()
                    },
                forall|k: int| i <= k < self.lines@.len() ==> self.lines@[k] == old(self).lines@[k],
            decreases self.lines@.len() - i,
        {
            let line = &mut self.lines[i];
            line.width = width;
            line.make_polynomial(x_min, x_max, square_points);
            i = i + 1;
        }
    }
}

} // verus!
