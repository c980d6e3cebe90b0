//! Supporting points and the strategies that fill the bars between them.

use crate::bar_processor::config::InterpolationVariant;
use crate::fixed::Fixed;
use std::ops::Range;
use vstd::prelude::*;

verus! {

/// A bar whose magnitude is computed directly from the spectrum.
#[derive(Clone, Copy, Debug, PartialEq, Eq, Structural)]
pub struct SupportingPoint {
    /// The index of the bar.
    pub x: usize,
    /// The magnitude of the bar.
    pub y: Fixed,
}

/// Each point lies to the right of the one before it.
pub open spec fn strictly_ascending(points: Seq<SupportingPoint>) -> bool {
    forall|i: int, j: int| 0 <= i < j < points.len() ==> points[i].x < points[j].x
}

/// Among the first `n` points, the position of the last one that lies at or
/// before bar `bar`; `0` where there is none.
pub open spec fn spec_owner_upto(points: Seq<SupportingPoint>, bar: int, n: int) -> int
    decreases n,
{
    if n <= 1 {
        0
    } else if points[n - 1].x <= bar {
        n - 1
    } else {
        spec_owner_upto(points, bar, n - 1)
    }
}

/// The position of the supporting point that owns bar `bar`: the last one
/// that lies at or before it, or the first point for a bar in front of all.
pub open spec fn spec_owner(points: Seq<SupportingPoint>, bar: int) -> int {
    spec_owner_upto(points, bar, points.len() as int)
}

/// The value of bar `bar` as a step function of the supporting points.
pub open spec fn spec_nothing_value(points: Seq<SupportingPoint>, bar: int) -> Fixed {
    points[spec_owner(points, bar)].y
}

/// The value at bar `bar` of the straight line through `from` and `to`.
pub open spec fn spec_line(from: SupportingPoint, to: SupportingPoint, bar: int) -> Fixed {
    from.y.spec_sat_add(
        to.y.spec_sat_sub(from.y).spec_mul_ratio((bar - from.x) as u32, (to.x - from.x) as u32),
    )
}

/// The value of bar `bar` on the straight lines between neighbouring
/// supporting points; outside of them, the value of the nearest point.
pub open spec fn spec_linear_value(points: Seq<SupportingPoint>, bar: int) -> Fixed {
    let k = spec_owner(points, bar);
    if k + 1 >= points.len() || bar < points[k].x {
        points[k].y
    } else {
        spec_line(points[k], points[k + 1], bar)
    }
}

/// The amount of bars from point `k` to the next point.
pub open spec fn spec_gap(points: Seq<SupportingPoint>, k: int) -> int {
    points[k + 1].x - points[k].x
}

/// Six times the slope of the straight line from point `k` to the next point.
pub open spec fn spec_slope(points: Seq<SupportingPoint>, k: int) -> Fixed {
    points[k + 1].y.spec_sat_sub(points[k].y).spec_mul_ratio(6, spec_gap(points, k) as u32)
}

/// The pivot of row `k` of the spline's equations, given the upper
/// coefficient that elimination left in the row before.
pub open spec fn spec_pivot(points: Seq<SupportingPoint>, k: int, upper_before: Fixed) -> Fixed {
    Fixed::spec_from_int(2 * (spec_gap(points, k - 1) + spec_gap(points, k))).spec_sat_sub(
        upper_before.spec_mul_ratio(spec_gap(points, k - 1) as u32, 1),
    )
}

/// The upper coefficient of row `k` after elimination; zero in the first
/// and the last row, where the curvature is fixed to zero.
pub open spec fn spec_upper(points: Seq<SupportingPoint>, k: int) -> Fixed
    decreases k,
{
    if k <= 0 || k + 1 >= points.len() {
        Fixed { raw: 0 }
    } else {
        Fixed::spec_from_int(spec_gap(points, k)).spec_sat_div(
            spec_pivot(points, k, spec_upper(points, k - 1)),
        )
    }
}

/// The right-hand side of row `k` after elimination.
pub open spec fn spec_reduced(points: Seq<SupportingPoint>, k: int) -> Fixed
    decreases k,
{
    if k <= 0 || k + 1 >= points.len() {
        Fixed { raw: 0 }
    } else {
        spec_slope(points, k).spec_sat_sub(spec_slope(points, k - 1)).spec_sat_sub(
            spec_reduced(points, k - 1).spec_mul_ratio(spec_gap(points, k - 1) as u32, 1),
        ).spec_sat_div(spec_pivot(points, k, spec_upper(points, k - 1)))
    }
}

/// The curvature of the natural cubic spline at point `k`: zero at both
/// ends, and in between what back substitution gives.
pub open spec fn spec_curvature(points: Seq<SupportingPoint>, k: int) -> Fixed
    decreases points.len() - k,
{
    if k <= 0 || k + 1 >= points.len() {
        Fixed { raw: 0 }
    } else {
        spec_reduced(points, k).spec_sat_sub(
            spec_upper(points, k).spec_sat_mul(spec_curvature(points, k + 1)),
        )
    }
}

/// The value at bar `bar` of the cubic through `from` and `to` that has the
/// curvatures `bend_from` and `bend_to` there.
pub open spec fn spec_cubic(
    from: SupportingPoint,
    to: SupportingPoint,
    bend_from: Fixed,
    bend_to: Fixed,
    bar: int,
) -> Fixed {
    let gap = (to.x - from.x) as u32;
    let t = (bar - from.x) as u32;
    let incline = to.y.spec_sat_sub(from.y).spec_mul_ratio(1, gap).spec_sat_sub(
        bend_from.spec_sat_add(bend_from).spec_sat_add(bend_to).spec_mul_ratio(gap, 6),
    );
    from.y.spec_sat_add(incline.spec_mul_ratio(t, 1)).spec_sat_add(
        bend_from.spec_mul_ratio(t, 1).spec_mul_ratio(t, 2),
    ).spec_sat_add(
        bend_to.spec_sat_sub(bend_from).spec_mul_ratio(t, gap).spec_mul_ratio(t, 1).spec_mul_ratio(
            t,
            6,
        ),
    )
}

/// The value of bar `bar` on the natural cubic spline through the
/// supporting points; outside of them, the value of the nearest point.
pub open spec fn spec_spline_value(points: Seq<SupportingPoint>, bar: int) -> Fixed {
    let k = spec_owner(points, bar);
    if k + 1 >= points.len() || bar < points[k].x {
        points[k].y
    } else {
        spec_cubic(
            points[k],
            points[k + 1],
            spec_curvature(points, k),
            spec_curvature(points, k + 1),
            bar,
        )
    }
}

/// The owner of a bar is the one point that lies at or before it while the
/// next point lies behind it.
pub proof fn lemma_owner_unique(points: Seq<SupportingPoint>, bar: int, k: int)
    requires
        strictly_ascending(points),
        0 <= k < points.len(),
        k == 0 || points[k].x <= bar,
        k + 1 == points.len() || bar < points[k + 1].x,
    ensures
        spec_owner(points, bar) == k,
{
    lemma_owner_upto(points, bar, k, points.len() as int);
}

/// Among the first `n` points, too, the owner of a bar is the one point
/// that lies at or before it while the next point lies behind it.
proof fn lemma_owner_upto(points: Seq<SupportingPoint>, bar: int, k: int, n: int)
    requires
        strictly_ascending(points),
        0 <= k < n <= points.len(),
        k == 0 || points[k].x <= bar,
        k + 1 == points.len() || bar < points[k + 1].x,
    ensures
        spec_owner_upto(points, bar, n) == k,
    decreases n,
{
    if n > k + 1 {
        lemma_owner_upto(points, bar, k, n - 1);
    }
}

/// What an interpolator is made from.
#[derive(Debug)]
pub struct InterpolatorDescriptor {
    pub supporting_points: Vec<SupportingPoint>,
}

/// Fills a row of bars from its supporting points.
#[derive(Debug)]
pub struct Interpolator {
    pub variant: InterpolationVariant,
    pub supporting_points: Vec<SupportingPoint>,
    /// Working space of the spline, one slot per supporting point.
    pub upper: Vec<Fixed>,
    /// Working space of the spline, one slot per supporting point.
    pub reduced: Vec<Fixed>,
    /// Working space of the spline, one slot per supporting point.
    pub curvature: Vec<Fixed>,
}

/// There is a point, the points are in ascending order, and the last one
/// lies on a bar whose index is below `u32::MAX`.
pub open spec fn valid_points(points: Seq<SupportingPoint>) -> bool {
    &&& points.len() >= 1
    &&& strictly_ascending(points)
    &&& points.last().x < u32::MAX
}

/// Moves `k` to the owner of `bar`, given the owner of an earlier bar.
fn advance_owner(points: &Vec<SupportingPoint>, k: usize, bar: usize) -> (owner: usize)
    requires
        valid_points(points@),
        k < points@.len(),
        k == 0 || points@[k as int].x <= bar,
    ensures
        owner == spec_owner(points@, bar as int),
        owner < points@.len(),
        owner == 0 || points@[owner as int].x <= bar,
{
    let mut owner: usize = k;
    while points.len() - owner > 1 && points[owner + 1].x <= bar
        invariant
            owner < points.len(),
            owner == 0 || points@[owner as int].x <= bar,
        decreases points@.len() - owner,
    {
        owner += 1;
    }
    proof {
        lemma_owner_unique(points@, bar as int, owner as int);
    }
    owner
}

/// Fills `out` with the step function of `points`.
pub fn nothing_interpolation(points: &Vec<SupportingPoint>, out: &mut Vec<Fixed>)
    requires
        valid_points(points@),
    ensures
        final(out)@.len() == old(out)@.len(),
        forall|bar: int|
            0 <= bar < final(out)@.len() ==> (#[trigger] final(out)@[bar]) == spec_nothing_value(
                points@,
                bar,
            ),
{
    let len: usize = out.len();
    let mut owner: usize = 0;
    let mut bar: usize = 0;
    while bar < len
        invariant
            bar <= len,
            len == out@.len(),
            valid_points(points@),
            owner < points@.len(),
            owner == 0 || points@[owner as int].x <= bar,
            forall|b: int|
                0 <= b < bar ==> (#[trigger] out@[b]) == spec_nothing_value(points@, b),
        decreases len - bar,
    {
        owner = advance_owner(points, owner, bar);
        out.set(bar, points[owner].y);
        bar += 1;
    }
}

/// Fills `out` with the straight lines between the points of `points`.
pub fn linear_interpolation(points: &Vec<SupportingPoint>, out: &mut Vec<Fixed>)
    requires
        valid_points(points@),
    ensures
        final(out)@.len() == old(out)@.len(),
        forall|bar: int|
            0 <= bar < final(out)@.len() ==> (#[trigger] final(out)@[bar]) == spec_linear_value(
                points@,
                bar,
            ),
{
    let len: usize = out.len();
    let mut owner: usize = 0;
    let mut bar: usize = 0;
    while bar < len
        invariant
            bar <= len,
            len == out@.len(),
            valid_points(points@),
            owner < points@.len(),
            owner == 0 || points@[owner as int].x <= bar,
            forall|b: int| 0 <= b < bar ==> (#[trigger] out@[b]) == spec_linear_value(points@, b),
        decreases len - bar,
    {
        owner = advance_owner(points, owner, bar);
        let from: SupportingPoint = points[owner];
        let value: Fixed = if points.len() - owner <= 1 || bar < from.x {
            from.y
        } else {
            let to: SupportingPoint = points[owner + 1];
            from.y.sat_add(
                to.y.sat_sub(from.y).mul_ratio((bar - from.x) as u32, (to.x - from.x) as u32),
            )
        };
        out.set(bar, value);
        bar += 1;
    }
}

/// Fills `curvature` with the curvature of the natural cubic spline at each
/// point of `points`.  `upper` and `reduced` are working space.
fn spline_curvatures(
    points: &Vec<SupportingPoint>,
    upper: &mut Vec<Fixed>,
    reduced: &mut Vec<Fixed>,
    curvature: &mut Vec<Fixed>,
)
    requires
        valid_points(points@),
        old(upper)@.len() == points@.len(),
        old(reduced)@.len() == points@.len(),
        old(curvature)@.len() == points@.len(),
    ensures
        final(upper)@.len() == points@.len(),
        final(reduced)@.len() == points@.len(),
        final(curvature)@.len() == points@.len(),
        forall|k: int|
            0 <= k < points@.len() ==> (#[trigger] final(curvature)@[k]) == spec_curvature(
                points@,
                k,
            ),
{
    let len: usize = points.len();
    upper.set(0, Fixed { raw: 0 });
    reduced.set(0, Fixed { raw: 0 });
    let mut k: usize = 1;
    while k < len
        invariant
            1 <= k <= len,
            len == points@.len(),
            valid_points(points@),
            upper@.len() == len,
            reduced@.len() == len,
            forall|j: int| 0 <= j < k ==> (#[trigger] upper@[j]) == spec_upper(points@, j),
            forall|j: int| 0 <= j < k ==> (#[trigger] reduced@[j]) == spec_reduced(points@, j),
        decreases len - k,
    {
        if len - k <= 1 {
            upper.set(k, Fixed { raw: 0 });
            reduced.set(k, Fixed { raw: 0 });
        } else {
            let gap_before: u32 = (points[k].x - points[k - 1].x) as u32;
            let gap: u32 = (points[k + 1].x - points[k].x) as u32;
            let slope_before: Fixed = points[k].y.sat_sub(points[k - 1].y).mul_ratio(
                6,
                gap_before,
            );
            let slope: Fixed = points[k + 1].y.sat_sub(points[k].y).mul_ratio(6, gap);
            let pivot: Fixed = Fixed::from_int(2 * (gap_before as u64 + gap as u64)).sat_sub(
                upper[k - 1].mul_ratio(gap_before, 1),
            );
            let above: Fixed = Fixed::from_int(gap as u64).sat_div(pivot);
            let right: Fixed = slope.sat_sub(slope_before).sat_sub(
                reduced[k - 1].mul_ratio(gap_before, 1),
            ).sat_div(pivot);
            upper.set(k, above);
            reduced.set(k, right);
        }
        k += 1;
    }
    curvature.set(len - 1, Fixed { raw: 0 });
    let mut k: usize = len - 1;
    while k > 0
        invariant
            k < len,
            len == points@.len(),
            valid_points(points@),
            upper@.len() == len,
            reduced@.len() == len,
            curvature@.len() == len,
            forall|j: int| 0 <= j < len ==> (#[trigger] upper@[j]) == spec_upper(points@, j),
            forall|j: int| 0 <= j < len ==> (#[trigger] reduced@[j]) == spec_reduced(points@, j),
            forall|j: int|
                k <= j < len ==> (#[trigger] curvature@[j]) == spec_curvature(points@, j),
        decreases k,
    {
        k -= 1;
        let bend: Fixed = if k == 0 {
            Fixed { raw: 0 }
        } else {
            reduced[k].sat_sub(upper[k].sat_mul(curvature[k + 1]))
        };
        curvature.set(k, bend);
    }
}

/// Fills `out` with the natural cubic spline through the points of `points`.
///
/// `upper`, `reduced` and `curvature` are working space of one slot per
/// point; on return `curvature` holds the curvature at each point.
pub fn cubic_spline_interpolation(
    points: &Vec<SupportingPoint>,
    upper: &mut Vec<Fixed>,
    reduced: &mut Vec<Fixed>,
    curvature: &mut Vec<Fixed>,
    out: &mut Vec<Fixed>,
)
    requires
        valid_points(points@),
        old(upper)@.len() == points@.len(),
        old(reduced)@.len() == points@.len(),
        old(curvature)@.len() == points@.len(),
    ensures
        final(upper)@.len() == points@.len(),
        final(reduced)@.len() == points@.len(),
        final(curvature)@.len() == points@.len(),
        final(out)@.len() == old(out)@.len(),
        forall|bar: int|
            0 <= bar < final(out)@.len() ==> (#[trigger] final(out)@[bar]) == spec_spline_value(
                points@,
                bar,
            ),
{
    spline_curvatures(points, upper, reduced, curvature);
    let len: usize = out.len();
    let mut owner: usize = 0;
    let mut bar: usize = 0;
    while bar < len
        invariant
            bar <= len,
            len == out@.len(),
            valid_points(points@),
            curvature@.len() == points@.len(),
            forall|k: int|
                0 <= k < points@.len() ==> (#[trigger] curvature@[k]) == spec_curvature(
                    points@,
                    k,
                ),
            owner < points@.len(),
            owner == 0 || points@[owner as int].x <= bar,
            forall|b: int| 0 <= b < bar ==> (#[trigger] out@[b]) == spec_spline_value(points@, b),
        decreases len - bar,
    {
        owner = advance_owner(points, owner, bar);
        let from: SupportingPoint = points[owner];
        let value: Fixed = if points.len() - owner <= 1 || bar < from.x {
            from.y
        } else {
            let to: SupportingPoint = points[owner + 1];
            let bend_from: Fixed = curvature[owner];
            let bend_to: Fixed = curvature[owner + 1];
            let gap: u32 = (to.x - from.x) as u32;
            let t: u32 = (bar - from.x) as u32;
            let incline: Fixed = to.y.sat_sub(from.y).mul_ratio(1, gap).sat_sub(
                bend_from.sat_add(bend_from).sat_add(bend_to).mul_ratio(gap, 6),
            );
            from.y.sat_add(incline.mul_ratio(t, 1)).sat_add(
                bend_from.mul_ratio(t, 1).mul_ratio(t, 2),
            ).sat_add(
                bend_to.sat_sub(bend_from).mul_ratio(t, gap).mul_ratio(t, 1).mul_ratio(t, 6),
            )
        };
        out.set(bar, value);
        bar += 1;
    }
}

/// The value that the strategy `variant` gives bar `bar`.
pub open spec fn spec_interpolated(
    variant: InterpolationVariant,
    points: Seq<SupportingPoint>,
    bar: int,
) -> Fixed {
    match variant {
        InterpolationVariant::Nothing => spec_nothing_value(points, bar),
        InterpolationVariant::Linear => spec_linear_value(points, bar),
        InterpolationVariant::CubicSpline => spec_spline_value(points, bar),
    }
}

/// With a single supporting point every strategy gives every bar the value
/// of that point.
pub proof fn lemma_single_point_is_flat(
    variant: InterpolationVariant,
    points: Seq<SupportingPoint>,
    bar: int,
)
    requires
        points.len() == 1,
    ensures
        spec_interpolated(variant, points, bar) == points[0].y,
        spec_nothing_value(points, bar) == points[0].y,
{
}

/// Every strategy gives the bar of a supporting point the value of that point.
pub proof fn lemma_interpolation_meets_points(
    variant: InterpolationVariant,
    points: Seq<SupportingPoint>,
    k: int,
)
    requires
        valid_points(points),
        0 <= k < points.len(),
    ensures
        spec_interpolated(variant, points, points[k].x as int) == points[k].y,
{
    lemma_owner_unique(points, points[k].x as int, k);
    if k + 1 < points.len() {
        let gap = (points[k + 1].x - points[k].x) as u32;
        let zero = Fixed { raw: 0 };
        assert forall|value: Fixed, den: u32| den > 0 implies #[trigger] value.spec_mul_ratio(
            0,
            den,
        ) == zero by {
            assert(value.raw * 0 == 0);
        }
        assert(points[k].y.spec_sat_add(zero) == points[k].y);
    }
}

impl Interpolator {
    /// The points are valid and the working space has one slot per point.
    pub open spec fn wf(&self) -> bool {
        &&& valid_points(self.supporting_points@)
        &&& self.upper@.len() == self.supporting_points@.len()
        &&& self.reduced@.len() == self.supporting_points@.len()
        &&& self.curvature@.len() == self.supporting_points@.len()
    }

    /// The amount of bars from the first supporting point to the last.
    pub open spec fn spec_covered_len(&self) -> int {
        self.supporting_points@.last().x + 1 - self.supporting_points@[0].x
    }

    /// An interpolator of the given strategy over the points of `desc`.
    pub fn new(variant: InterpolationVariant, desc: InterpolatorDescriptor) -> (interpolator: Self)
        requires
            valid_points(desc.supporting_points@),
        ensures
            interpolator.wf(),
            interpolator.variant == variant,
            interpolator.supporting_points@ == desc.supporting_points@,
    {
        let len: usize = desc.supporting_points.len();
        let zero: Fixed = Fixed { raw: 0 };
        Interpolator {
            variant,
            supporting_points: desc.supporting_points,
            upper: vec![zero; len],
            reduced: vec![zero; len],
            curvature: vec![zero; len],
        }
    }

    /// The bars from the first supporting point up to and including the last.
    pub fn covered_bar_range(&self) -> (range: Range<usize>)
        requires
            self.wf(),
        ensures
            range.start == self.supporting_points@[0].x,
            range.end == self.supporting_points@.last().x + 1,
            range.end - range.start == self.spec_covered_len(),
    {
        let first: usize = self.supporting_points[0].x;
        let last: usize = self.supporting_points[self.supporting_points.len() - 1].x;
        first..(last + 1)
    }

    /// Fills every bar of `bar_values` from the supporting points.
    pub fn interpolate(&mut self, bar_values: &mut Vec<Fixed>)
        requires
            old(self).wf(),
        ensures
            final(self).wf(),
            final(self).variant == old(self).variant,
            final(self).supporting_points@ == old(self).supporting_points@,
            final(bar_values)@.len() == old(bar_values)@.len(),
            forall|bar: int|
                0 <= bar < final(bar_values)@.len() ==> (#[trigger] final(bar_values)@[bar])
                    == spec_interpolated(old(self).variant, old(self).supporting_points@, bar),
    {
        match self.variant {
            InterpolationVariant::Nothing => {
                nothing_interpolation(&self.supporting_points, bar_values);
            },
            InterpolationVariant::Linear => {
                linear_interpolation(&self.supporting_points, bar_values);
            },
            InterpolationVariant::CubicSpline => {
                cubic_spline_interpolation(
                    &self.supporting_points,
                    &mut self.upper,
                    &mut self.reduced,
                    &mut self.curvature,
                    bar_values,
                );
            },
        }
    }
}

} // verus!
