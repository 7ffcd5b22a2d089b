//! Shapes as meshes: colours, the ribbon of a curve and the fan of a disc.
//!
//! A mesh is a list of vertices and a list of indices into it, three to a
//! triangle. This module lays meshes out. Where a vertex lies is worked out by the
//! caller, in a function that each constructor takes and calls once per vertex.
use vstd::prelude::*;
use vstd::arithmetic::mul::*;
use vstd::arithmetic::div_mod::*;

verus! {

/// A colour by its red, green, blue and alpha parts.
pub struct Color<T> {
    pub r: T,
    pub g: T,
    pub b: T,
    pub a: T,
}

impl<T: Copy> Color<T> {
    /// The four parts in the order red, green, blue, alpha.
    pub fn to_raw(&self) -> (raw: [T; 4])
        ensures
            raw@ == seq![self.r, self.g, self.b, self.a],
    {
        let raw = [self.r, self.g, self.b, self.a];
        assert(raw@ =~= seq![self.r, self.g, self.b, self.a]);
        raw
    }
}

/// Whether `indices` are those of a mesh of triangles over `vertices` vertices:
/// three to a triangle, each the place of a vertex.
pub open spec fn is_mesh(vertices: nat, indices: Seq<u16>) -> bool {
    &&& indices.len() % 3 == 0
    &&& forall|k: int| 0 <= k < indices.len() ==> #[trigger] indices[k] < vertices
}

/// Sample positions are counted in steps of one `UNIT`th: sample `num` lies at
/// `x = num / UNIT`.
pub const UNIT: i32 = 20;

/// The number of segments that a curve is cut into across the visible range, about.
pub const SEGMENTS: i32 = 40;

/// No range gives more samples than this.
pub const MAX_SAMPLES: usize = 800;

/// `v`, kept within the range of `i32`.
pub open spec fn saturate(v: int) -> int {
    if v < i32::MIN {
        i32::MIN as int
    } else if v > i32::MAX {
        i32::MAX as int
    } else {
        v
    }
}

/// The size of a number.
pub open spec fn magnitude(v: int) -> int {
    if v < 0 {
        -v
    } else {
        v
    }
}

/// The width that a range is counted as: the sizes of its two ends added, and kept
/// within the range of `i32`.
pub open spec fn span(x_min: int, x_max: int) -> int {
    saturate(magnitude(x_max) + magnitude(x_min))
}

/// The distance between samples, in units of one `UNIT`th: a `SEGMENTS`th of the
/// span, rounded up. The wider the range, the further apart the samples.
pub open spec fn step_size(x_min: int, x_max: int) -> int {
    (span(x_min, x_max) + SEGMENTS - 1) / (SEGMENTS as int)
}

/// The first sample of a range.
pub open spec fn first_sample(x_min: int) -> int {
    saturate(UNIT * x_min)
}

/// Where the samples of a range end: every sample lies below this.
pub open spec fn end_sample(x_max: int) -> int {
    saturate(UNIT * x_max)
}

/// How many samples a range has: those of `first_sample`, `first_sample + step`,
/// and so on that lie below `end_sample`.
pub open spec fn sample_count(x_min: int, x_max: int) -> int {
    let length = end_sample(x_max) - first_sample(x_min);
    let step = step_size(x_min, x_max);
    if length <= 0 {
        0
    } else {
        (length + step - 1) / step
    }
}

/// Sample `i` of a range.
pub open spec fn sample(x_min: int, x_max: int, i: int) -> int {
    first_sample(x_min) + i * step_size(x_min, x_max)
}

/// A range with a sample in it has a step of at least one, and at most
/// `MAX_SAMPLES` samples.
pub proof fn lemma_sample_count(x_min: i32, x_max: i32)
    ensures
        0 <= sample_count(x_min as int, x_max as int) <= MAX_SAMPLES,
        sample_count(x_min as int, x_max as int) > 0 ==> step_size(x_min as int, x_max as int) >= 1,
        end_sample(x_max as int) - first_sample(x_min as int) <= MAX_SAMPLES * step_size(
            x_min as int,
            x_max as int,
        ),
{
    let length = end_sample(x_max as int) - first_sample(x_min as int);
    let step = step_size(x_min as int, x_max as int);
    let width = span(x_min as int, x_max as int);
    assert(width <= SEGMENTS * step);
    if length > 0 {
        assert(x_min < x_max);
        assert(width >= 1);
        assert(step >= 1);
        assert(length <= MAX_SAMPLES * step);
        let count = (length + step - 1) / step;
        lemma_fundamental_div_mod(length + step - 1, step);
        lemma_mod_bound(length + step - 1, step);
        assert(step * count <= length + step - 1);
        assert(count >= 0) by {
            lemma_div_pos_is_pos(length + step - 1, step);
        }
        assert(count <= MAX_SAMPLES) by {
            if count > MAX_SAMPLES {
                lemma_mul_inequality(MAX_SAMPLES as int + 1, count, step);
                lemma_mul_is_commutative(step, count);
                assert((MAX_SAMPLES + 1) * step == MAX_SAMPLES * step + step) by (nonlinear_arith);
            }
        }
    }
}

/// The distance between the samples of a range.
pub fn sample_step(x_min: i32, x_max: i32) -> (step: i32)
    ensures
        step == step_size(x_min as int, x_max as int),
{
    let high: i64 = if x_max < 0 {
        -(x_max as i64)
    } else {
        x_max as i64
    };
    let low: i64 = if x_min < 0 {
        -(x_min as i64)
    } else {
        x_min as i64
    };
    let sum: i64 = high + low;
    let width: i64 = if sum > 0x7FFF_FFFF {
        0x7FFF_FFFF
    } else {
        sum
    };
    ((width + 39) / 40) as i32
}

/// `UNIT * x`, kept within the range of `i32`.
fn scale(x: i32) -> (num: i32)
    ensures
        num == saturate(UNIT * x),
{
    let wide: i64 = 20 * (x as i64);
    if wide < -0x8000_0000 {
        i32::MIN
    } else if wide > 0x7FFF_FFFF {
        i32::MAX
    } else {
        wide as i32
    }
}

/// The samples of the range from `x_min` to `x_max`, in rising order. A range that
/// ends at or before its start has none.
pub fn sample_points(x_min: i32, x_max: i32) -> (samples: Vec<i32>)
    ensures
        samples@.len() == sample_count(x_min as int, x_max as int),
        samples@.len() <= MAX_SAMPLES,
        forall|i: int|
            0 <= i < samples@.len() ==> samples@[i] == sample(x_min as int, x_max as int, i),
{
    let first: i32 = scale(x_min);
    let end: i32 = scale(x_max);
    let step: i32 = sample_step(x_min, x_max);
    let mut samples: Vec<i32> = Vec::new();
    proof {
        lemma_sample_count(x_min, x_max);
    }
    if end <= first {
        return samples;
    }
    let ghost length: int = end - first;
    let ghost count: int = sample_count(x_min as int, x_max as int);
    proof {
        lemma_fundamental_div_mod(length + step - 1, step as int);
        lemma_mod_bound(length + step - 1, step as int);
        assert(count >= 1) by (nonlinear_arith)
            requires
                step >= 1,
                length >= 1,
                length <= step * count,
        ;
        lemma_mul_basics(step as int);
    }
    let mut num: i64 = first as i64;
    while num < end as i64
        invariant
            first < end,
            step >= 1,
            length == end - first,
            count == (length + step - 1) / (step as int),
            step * count <= length + step - 1,
            length <= step * count,
            count <= MAX_SAMPLES,
            step == step_size(x_min as int, x_max as int),
            first == first_sample(x_min as int),
            0 <= samples@.len() <= count,
            num == first + samples@.len() * step,
            samples@.len() < count <==> num < end,
            forall|i: int|
                0 <= i < samples@.len() ==> samples@[i] == sample(x_min as int, x_max as int, i),
        decreases count - samples@.len(),
    {
        let ghost taken: int = samples@.len() as int;
        samples.push(num as i32);
        num = num + step as i64;
        proof {
            assert((taken + 1) * step == taken * step + step) by (nonlinear_arith);
            if taken + 1 < count {
                lemma_mul_inequality(taken + 2, count, step as int);
                lemma_mul_is_commutative(step as int, count);
                assert((taken + 2) * step == (taken + 1) * step + step) by (nonlinear_arith);
            } else {
                lemma_mul_is_commutative(step as int, count);
            }
        }
    }
    samples
}

/// Whether `total` is the value at `x` of the polynomial with the coefficients
/// `coeffs`, that of the lowest power first: the terms added up one after the
/// other from `zero`, where `term` gives the value of a coefficient times `x` to a
/// power and `combine` adds two values.
pub open spec fn evaluates_to<S, F: Fn(S, S, usize) -> S, G: Fn(S, S) -> S>(
    x: S,
    coeffs: Seq<S>,
    total: S,
    zero: S,
    term: F,
    combine: G,
) -> bool
    decreases coeffs.len(),
{
    if coeffs.len() == 0 {
        total == zero
    } else {
        exists|before: S, part: S|
            evaluates_to(x, coeffs.drop_last(), before, zero, term, combine) && term.ensures(
                (coeffs.last(), x, (coeffs.len() - 1) as usize),
                part,
            ) && #[trigger] combine.ensures((before, part), total)
    }
}

/// The value at `x` of the polynomial with the coefficients `coeffs`, that of the
/// lowest power first. A polynomial without coefficients is `zero` everywhere.
pub fn polynomial_equation<S: Copy, F: Fn(S, S, usize) -> S, G: Fn(S, S) -> S>(
    x: S,
    coeffs: &[S],
    zero: S,
    term: F,
    combine: G,
) -> (y: S)
    requires
        forall|coeff: S, x: S, power: usize| term.requires((coeff, x, power)),
        forall|a: S, b: S| combine.requires((a, b)),
    ensures
        evaluates_to(x, coeffs@, y, zero, term, combine),
        coeffs@.len() == 0 ==> y == zero,
{
    let mut y: S = zero;
    let mut i: usize = 0;
    proof {
        assert(coeffs@.take(0).len() == 0);
    }
    while i < coeffs.len()
        invariant
            i <= coeffs@.len(),
            forall|coeff: S, x: S, power: usize| term.requires((coeff, x, power)),
            forall|a: S, b: S| combine.requires((a, b)),
            evaluates_to(x, coeffs@.take(i as int), y, zero, term, combine),
        decreases coeffs@.len() - i,
    {
        let ghost before = y;
        let part = term(coeffs[i], x, i);
        y = combine(y, part);
        proof {
            let seen = coeffs@.take(i + 1);
            assert(seen.drop_last() =~= coeffs@.take(i as int));
            assert(seen.last() == coeffs@[i as int]);
            assert(evaluates_to(x, seen.drop_last(), before, zero, term, combine));
            assert(combine.ensures((before, part), y));
        }
        i = i + 1;
    }
    proof {
        assert(coeffs@.take(coeffs@.len() as int) =~= coeffs@);
    }
    y
}

/// The line with the coefficients `zero` and `one` has the value `x` at `x`, up
/// to `same`, the sense in which two numbers are equal.
///
/// `same` has to be symmetric and transitive; it need not hold of a value and
/// itself. The law holds of any arithmetic in which zero times anything is zero,
/// one times `x` to the first power is `x`, and zero added to a value that is
/// the same as itself leaves it as it is, each up to `same`. Where `same` is
/// plain equality these are laws of exact arithmetic. Where numbers are in
/// floating point and `same` is their equality, which takes the two zeros for
/// equal and a NaN for unequal to itself, they hold of every `x` that is a
/// number.
pub proof fn lemma_identity_line<S, F: Fn(S, S, usize) -> S, G: Fn(S, S) -> S>(
    x: S,
    total: S,
    zero: S,
    one: S,
    term: F,
    combine: G,
    same: spec_fn(S, S) -> bool,
)
    requires
        evaluates_to(x, seq![zero, one], total, zero, term, combine),
        same(zero, zero),
        forall|a: S, b: S| #[trigger] same(a, b) ==> same(b, a),
        forall|a: S, b: S, c: S| #![trigger same(a, b), same(b, c)] same(a, b) && same(b, c) ==> same(a, c),
        forall|part: S| term.ensures((zero, x, 0), part) ==> same(part, zero),
        forall|part: S| term.ensures((one, x, 1), part) ==> same(part, x),
        forall|start: S, value: S, sum: S|
            same(start, zero) && same(value, value) && #[trigger] combine.ensures(
                (start, value),
                sum,
            ) ==> same(sum, value),
    ensures
        same(total, x),
{
    let line = seq![zero, one];
    let constant = line.drop_last();
    assert(constant.drop_last().len() == 0);
    let (middle, slope) = choose|middle: S, slope: S|
        evaluates_to(x, constant, middle, zero, term, combine) && term.ensures(
            (line.last(), x, (line.len() - 1) as usize),
            slope,
        ) && #[trigger] combine.ensures((middle, slope), total);
    let (start, level) = choose|start: S, level: S|
        evaluates_to(x, constant.drop_last(), start, zero, term, combine) && term.ensures(
            (constant.last(), x, (constant.len() - 1) as usize),
            level,
        ) && #[trigger] combine.ensures((start, level), middle);
    assert(start == zero);
    assert(same(level, zero));
    assert(same(zero, level));
    assert(same(level, level));
    assert(same(middle, level));
    assert(same(middle, zero));
    assert(same(slope, x));
    assert(same(x, slope));
    assert(same(slope, slope));
    assert(same(total, slope));
}

/// The two triangles that join the vertex pair at `offset` to the pair after it.
pub open spec fn quad(offset: int) -> Seq<u16> {
    seq![
        offset as u16,
        (offset + 1) as u16,
        (offset + 3) as u16,
        (offset + 2) as u16,
        offset as u16,
        (offset + 3) as u16,
    ]
}

/// The indices of a ribbon of `quads` quads between `quads + 1` pairs of
/// vertices, where pair `i` sits at `2 * i` and `2 * i + 1`: one quad after the
/// other, from the first pair on.
pub open spec fn ribbon_indices(quads: nat) -> Seq<u16>
    decreases quads,
{
    if quads == 0 {
        Seq::empty()
    } else {
        ribbon_indices((quads - 1) as nat) + quad(2 * (quads - 1))
    }
}

/// A ribbon of up to `MAX_SAMPLES` quads has six indices to the quad, each of them
/// that of one of its `2 * quads + 2` vertices.
pub proof fn lemma_ribbon_indices(quads: nat)
    requires
        quads <= MAX_SAMPLES,
    ensures
        ribbon_indices(quads).len() == 6 * quads,
        forall|k: int|
            0 <= k < ribbon_indices(quads).len() ==> #[trigger] ribbon_indices(quads)[k] < 2
                * quads + 2,
    decreases quads,
{
    if quads > 0 {
        lemma_ribbon_indices((quads - 1) as nat);
    }
}

/// A curve drawn as a ribbon: a strip of triangles of even width along it.
///
/// `S` is the type of numbers and `V` that of vertices. The ribbon has one pair of
/// vertices at the start of the curve and one more after every sample, each pair
/// to the two sides of the curve, and one quad between every two pairs in a row.
pub struct Line<S, V> {
    /// Half the width of the ribbon.
    pub width: S,
    /// The coefficients of the polynomial, that of the lowest power first.
    pub coeffs: Vec<S>,
    pub vertices: Vec<V>,
    pub indices: Vec<u16>,
}

impl<S, V> Line<S, V> {
    /// Whether the mesh is the ribbon of the range from `x_min` to `x_max`, with
    /// its vertices as `square_points` gives them: for the line's coefficients and
    /// width and a sample, the pair of vertices to the two sides of the curve, at
    /// the start of that sample's segment (`true`) or at its end (`false`).
    pub open spec fn is_ribbon<F: Fn(&Vec<S>, &S, i32, bool) -> (V, V)>(
        self,
        x_min: int,
        x_max: int,
        square_points: F,
    ) -> bool {
        let count = sample_count(x_min, x_max);
        &&& self.vertices@.len() == if count == 0 {
            0
        } else {
            2 * count + 2
        }
        &&& count > 0 ==> square_points.ensures(
            (&self.coeffs, &self.width, sample(x_min, x_max, 0) as i32, true),
            (self.vertices@[0], self.vertices@[1]),
        )
        &&& forall|i: int|
            0 <= i < count ==> square_points.ensures(
                (&self.coeffs, &self.width, #[trigger] sample(x_min, x_max, i) as i32, false),
                (self.vertices@[2 * i + 2], self.vertices@[2 * i + 3]),
            )
        &&& self.indices@ == ribbon_indices(count as nat)
    }

    /// Whether the line's indices are those of a mesh over its vertices.
    pub open spec fn well_formed(self) -> bool {
        is_mesh(self.vertices@.len(), self.indices@)
    }

    /// A line with its coefficients and width, and no mesh yet.
    pub fn new(coeffs: Vec<S>, width: S) -> (line: Self)
        ensures
            line.coeffs == coeffs,
            line.width == width,
            line.vertices@.len() == 0,
            line.indices@.len() == 0,
            line.well_formed(),
    {
        Line { width, coeffs, vertices: Vec::new(), indices: Vec::new() }
    }

    /// Appends the two triangles of the quad whose first vertex pair sits at
    /// `offset`.
    fn next(indices: &mut Vec<u16>, offset: u16)
        requires
            offset <= 2 * MAX_SAMPLES,
        ensures
            final(indices)@ == old(indices)@ + quad(offset as int),
    {
        indices.push(offset);
        indices.push(offset + 1);
        indices.push(offset + 3);
        indices.push(offset + 2);
        indices.push(offset);
        indices.push(offset + 3);
        assert(indices@ =~= old(indices)@ + quad(offset as int));
    }

    /// Builds the mesh anew for the range from `x_min` to `x_max`, asking
    /// `square_points` for each pair of vertices. What the mesh held before is
    /// dropped; coefficients and width stay.
    pub fn make_polynomial<F: Fn(&Vec<S>, &S, i32, bool) -> (V, V)>(
        &mut self,
        x_min: i32,
        x_max: i32,
        square_points: F,
    )
        requires
            forall|coeffs: &Vec<S>, width: &S, num: i32, initial: bool|
                square_points.requires((coeffs, width, num, initial)),
        ensures
            final(self).coeffs == old(self).coeffs,
            final(self).width == old(self).width,
            final(self).is_ribbon(x_min as int, x_max as int, square_points),
            final(self).well_formed(),
    {
        let samples = sample_points(x_min, x_max);
        proof {
            lemma_ribbon_indices(samples@.len());
        }
        let mut vertices: Vec<V> = Vec::new();
        let mut indices: Vec<u16> = Vec::new();
        let mut i: usize = 0;
        while i < samples.len()
            invariant
                i <= samples@.len() <= MAX_SAMPLES,
                samples@.len() == sample_count(x_min as int, x_max as int),
                forall|k: int|
                    0 <= k < samples@.len() ==> samples@[k] == sample(
                        x_min as int,
                        x_max as int,
                        k,
                    ),
                forall|coeffs: &Vec<S>, width: &S, num: i32, initial: bool|
                    square_points.requires((coeffs, width, num, initial)),
                vertices@.len() == if i == 0 {
                    0
                } else {
                    2 * i + 2
                },
                i > 0 ==> square_points.ensures(
                    (&self.coeffs, &self.width, sample(x_min as int, x_max as int, 0) as i32, true),
                    (vertices@[0], vertices@[1]),
                ),
                forall|k: int|
                    0 <= k < i ==> square_points.ensures(
                        (
                            &self.coeffs,
                            &self.width,
                            #[trigger] sample(x_min as int, x_max as int, k) as i32,
                            false,
                        ),
                        (vertices@[2 * k + 2], vertices@[2 * k + 3]),
                    ),
                indices@ == ribbon_indices(i as nat),
                *self == *old(self),
            decreases samples@.len() - i,
        {
            let num: i32 = samples[i];
            if i == 0 {
                let (left, right) = square_points(&self.coeffs, &self.width, num, true);
                vertices.push(left);
                vertices.push(right);
            }
            let (left, right) = square_points(&self.coeffs, &self.width, num, false);
            vertices.push(left);
            vertices.push(right);
            Self::next(&mut indices, (i as u16) * 2);
            i = i + 1;
        }
        self.vertices = vertices;
        self.indices = indices;
    }
}

/// The triangles of a fan around vertex 0 that join the rim vertices `1` to
/// `segments` in a row: `(0, i, i + 1)` for every `i` from 1 up to, but not
/// including, `segments`.
pub open spec fn fan_tail(segments: nat) -> Seq<u16>
    decreases segments,
{
    if segments <= 1 {
        Seq::empty()
    } else {
        fan_tail((segments - 1) as nat) + seq![
            0u16,
            (segments - 1) as u16,
            segments as u16,
        ]
    }
}

/// The indices of a disc of `segments` triangles around vertex 0: the one that
/// closes the rim, from the last rim vertex back to the first, and then the fan.
pub open spec fn fan_indices(segments: u16) -> Seq<u16> {
    seq![0u16, segments, 1u16] + fan_tail(segments as nat)
}

/// A disc has three indices to the segment, each of them that of the centre or of
/// a rim vertex. (A disc of no segments has the closing triangle alone.)
pub proof fn lemma_fan_indices(segments: u16)
    ensures
        fan_tail(segments as nat).len() == if segments == 0 {
            0
        } else {
            3 * (segments - 1)
        },
        segments >= 1 ==> fan_indices(segments).len() == 3 * segments,
        segments >= 1 ==> forall|k: int|
            0 <= k < fan_indices(segments).len() ==> #[trigger] fan_indices(segments)[k]
                <= segments,
    decreases segments,
{
    if segments > 1 {
        lemma_fan_indices((segments - 1) as u16);
        let tail = fan_tail(segments as nat);
        let shorter = fan_tail((segments - 1) as nat);
        assert forall|k: int| 0 <= k < fan_indices(segments).len() implies #[trigger] fan_indices(
            segments,
        )[k] <= segments by {
            if 3 <= k < 3 + shorter.len() {
                assert(fan_indices(segments)[k] == fan_indices((segments - 1) as u16)[k]);
            }
        }
    }
}

/// A disc as a fan of triangles around its centre.
pub struct Circle<S, V> {
    pub radius: S,
    /// The number of triangles, and of vertices on the rim.
    pub segments: u16,
    /// The centre, then the rim vertices in the order in which the rim is walked.
    pub vertices: Vec<V>,
    pub indices: Vec<u16>,
}

impl<S, V> Circle<S, V> {
    /// Whether the mesh is the disc around `center`, with its rim vertices as
    /// `rim_point` gives them for the radius, the number of a segment and the
    /// number of segments.
    pub open spec fn is_disc<F: Fn(&S, u16, u16) -> V>(self, center: V, rim_point: F) -> bool {
        &&& self.vertices@.len() == self.segments + 1
        &&& self.vertices@[0] == center
        &&& forall|k: int|
            1 <= k <= self.segments ==> rim_point.ensures(
                (&self.radius, (k - 1) as u16, self.segments),
                #[trigger] self.vertices@[k],
            )
        &&& self.indices@ == fan_indices(self.segments)
    }

    /// Whether the circle's indices are those of a mesh over its vertices.
    pub open spec fn well_formed(self) -> bool {
        is_mesh(self.vertices@.len(), self.indices@)
    }

    /// The disc of the given radius around `center`, cut into `segments`
    /// triangles. A disc of no segments has a closing triangle and no rim to
    /// close: it alone is no mesh.
    pub fn new<F: Fn(&S, u16, u16) -> V>(radius: S, segments: u16, center: V, rim_point: F) -> (circle:
        Self)
        requires
            forall|radius: &S, s: u16, segments: u16| rim_point.requires((radius, s, segments)),
        ensures
            circle.radius == radius,
            circle.segments == segments,
            circle.is_disc(center, rim_point),
            segments >= 1 ==> circle.well_formed(),
    {
        proof {
            lemma_fan_indices(segments);
        }
        let mut vertices: Vec<V> = Vec::new();
        let mut indices: Vec<u16> = Vec::new();
        vertices.push(center);
        indices.push(0);
        indices.push(segments);
        indices.push(1);

        let mut s: u16 = 0;
        while s < segments
            invariant
                s <= segments,
                forall|radius: &S, s: u16, segments: u16|
                    rim_point.requires((radius, s, segments)),
                vertices@.len() == s + 1,
                vertices@[0] == center,
                forall|k: int|
                    1 <= k <= s ==> rim_point.ensures(
                        (&radius, (k - 1) as u16, segments),
                        #[trigger] vertices@[k],
                    ),
            decreases segments - s,
        {
            let vertex = rim_point(&radius, s, segments);
            vertices.push(vertex);
            s = s + 1;
        }

        let mut i: u16 = 1;
        while i < segments
            invariant
                1 <= i,
                i <= segments || i == 1,
                indices@ == seq![0u16, segments, 1u16] + fan_tail(i as nat),
            decreases segments - i,
        {
            indices.push(0);
            indices.push(i);
            indices.push(i + 1);
            i = i + 1;
            assert(indices@ =~= seq![0u16, segments, 1u16] + fan_tail(i as nat));
        }
        assert(fan_tail(i as nat) == fan_tail(segments as nat));
        Circle { radius, segments, vertices, indices }
    }
}

} // verus!
