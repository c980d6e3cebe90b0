//! Extra bars to the left and right of the bars that the spectrum fills.

use crate::bar_processor::config::PaddingSide;
use crate::fixed::Fixed;
use crate::interpolation::SupportingPoint;
use vstd::prelude::*;

verus! {

/// The padding of one channel: `size` bars on each padded side.
///
/// The bars of a channel are laid out as the left padding, then the bars
/// between the supporting points, then the right padding.
#[derive(Clone, Copy, Debug, PartialEq, Eq, Structural)]
pub struct PaddingCtx {
    pub size: u32,
    pub side: PaddingSide,
}

impl PaddingCtx {
    /// The amount of bars in front of the first supporting point.
    pub open spec fn spec_left(&self) -> int {
        match self.side {
            PaddingSide::Left | PaddingSide::Both => self.size as int,
            PaddingSide::Right => 0,
        }
    }

    /// The amount of bars behind the last supporting point.
    pub open spec fn spec_right(&self) -> int {
        match self.side {
            PaddingSide::Right | PaddingSide::Both => self.size as int,
            PaddingSide::Left => 0,
        }
    }

    /// The amount of padded bars, both sides together.
    pub open spec fn spec_amount_bars(&self) -> int {
        self.spec_left() + self.spec_right()
    }

    /// The value of padded bar `idx` in a row of `len` bars with the values
    /// `bars`: the value of the nearest bar that is not padded, scaled down
    /// linearly to reach zero one step beyond the outermost bar.
    pub open spec fn spec_padded_value(&self, bars: Seq<Fixed>, idx: int) -> Fixed {
        let left = self.spec_left();
        let right = self.spec_right();
        if idx < left {
            bars[left].spec_mul_ratio((idx + 1) as u32, (left + 1) as u32)
        } else if idx >= bars.len() - right {
            bars[bars.len() - right - 1].spec_mul_ratio(
                (bars.len() - idx) as u32,
                (right + 1) as u32,
            )
        } else {
            bars[idx]
        }
    }

    /// A padding of `size` bars on each side that `side` names.
    pub fn new(size: u32, side: PaddingSide) -> (ctx: Self)
        ensures
            ctx.size == size,
            ctx.side == side,
    {
        PaddingCtx { size, side }
    }

    /// The amount of bars in front of the first supporting point.
    pub fn left(&self) -> (left: usize)
        ensures
            left == self.spec_left(),
    {
        match self.side {
            PaddingSide::Left | PaddingSide::Both => self.size as usize,
            PaddingSide::Right => 0,
        }
    }

    /// The amount of bars behind the last supporting point.
    pub fn right(&self) -> (right: usize)
        ensures
            right == self.spec_right(),
    {
        match self.side {
            PaddingSide::Right | PaddingSide::Both => self.size as usize,
            PaddingSide::Left => 0,
        }
    }

    /// The amount of padded bars, both sides together.
    pub fn amount_bars(&self) -> (amount: usize)
        requires
            self.size <= 0x7fff_ffff,
        ensures
            amount == self.spec_amount_bars(),
    {
        self.left() + self.right()
    }

    /// Moves every supporting point to the right by the left padding, which
    /// makes room for the padded bars in front of the first point.
    pub fn adjust_supporting_points(&self, supporting_points: &mut Vec<SupportingPoint>)
        requires
            forall|i: int|
                0 <= i < old(supporting_points)@.len() ==> (#[trigger] old(supporting_points)@[i]).x
                    + self.spec_left() <= usize::MAX,
        ensures
            final(supporting_points)@.len() == old(supporting_points)@.len(),
            forall|i: int|
                0 <= i < old(supporting_points)@.len() ==> (#[trigger] final(supporting_points)@[i]).x == old(supporting_points)@[i].x + self.spec_left() && final(supporting_points)@[i].y == old(supporting_points)@[i].y,
    {
        let left: usize = self.left();
        let len: usize = supporting_points.len();
        let mut idx: usize = 0;
        while idx < len
            invariant
                idx <= len,
                len == supporting_points@.len(),
                len == old(supporting_points)@.len(),
                left == self.spec_left(),
                forall|i: int|
                    0 <= i < len ==> (#[trigger] old(supporting_points)@[i]).x + left
                        <= usize::MAX,
                forall|i: int|
                    idx <= i < len ==> (#[trigger] supporting_points@[i]) == old(supporting_points)@[i],
                forall|i: int|
                    0 <= i < idx ==> (#[trigger] supporting_points@[i]).x == old(supporting_points)@[i].x + left && supporting_points@[i].y == old(supporting_points)@[i].y,
            decreases len - idx,
        {
            let point: SupportingPoint = supporting_points[idx];
            supporting_points.set(idx, SupportingPoint { x: point.x + left, y: point.y });
            idx += 1;
        }
    }

    /// Fills the padded bars of `bar_values`.
    ///
    /// The bars between the paddings keep their values.  A row that is too
    /// short to hold a bar between the paddings is left as it is.
    pub fn apply(&self, bar_values: &mut Vec<Fixed>)
        requires
            self.size <= 0x7fff_ffff,
        ensures
            final(bar_values)@.len() == old(bar_values)@.len(),
            old(bar_values)@.len() <= self.spec_amount_bars() ==> final(bar_values)@ == old(bar_values)@,
            old(bar_values)@.len() > self.spec_amount_bars() ==> forall|idx: int|
                0 <= idx < old(bar_values)@.len() ==> (#[trigger] final(bar_values)@[idx])
                    == self.spec_padded_value(old(bar_values)@, idx),
    {
        let left: usize = self.left();
        let right: usize = self.right();
        let len: usize = bar_values.len();
        if len <= left + right {
            return ;
        }
        let left_edge: Fixed = bar_values[left];
        let right_edge: Fixed = bar_values[len - right - 1];
        let mut idx: usize = 0;
        while idx < left
            invariant
                idx <= left,
                left == self.spec_left(),
                right == self.spec_right(),
                self.size <= 0x7fff_ffff,
                len == bar_values@.len(),
                len == old(bar_values)@.len(),
                len > left + right,
                left_edge == old(bar_values)@[left as int],
                forall|i: int| idx <= i < len ==> (#[trigger] bar_values@[i]) == old(bar_values)@[i],
                forall|i: int|
                    0 <= i < idx ==> (#[trigger] bar_values@[i]) == self.spec_padded_value(
                        old(bar_values)@,
                        i,
                    ),
            decreases left - idx,
        {
            let value: Fixed = left_edge.mul_ratio((idx + 1) as u32, (left + 1) as u32);
            bar_values.set(idx, value);
            idx += 1;
        }
        let start: usize = len - right;
        let mut idx: usize = start;
        while idx < len
            invariant
                start <= idx <= len,
                start == len - right,
                left == self.spec_left(),
                right == self.spec_right(),
                self.size <= 0x7fff_ffff,
                len == bar_values@.len(),
                len == old(bar_values)@.len(),
                len > left + right,
                right_edge == old(bar_values)@[len - right - 1],
                forall|i: int| idx <= i < len ==> (#[trigger] bar_values@[i]) == old(bar_values)@[i],
                forall|i: int|
                    0 <= i < idx ==> (#[trigger] bar_values@[i]) == self.spec_padded_value(
                        old(bar_values)@,
                        i,
                    ),
            decreases len - idx,
        {
            let value: Fixed = right_edge.mul_ratio((len - idx) as u32, (right + 1) as u32);
            bar_values.set(idx, value);
            idx += 1;
        }
    }
}

} // verus!
