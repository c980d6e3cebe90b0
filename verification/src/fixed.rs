//! Saturating decimal fixed-point numbers.

use vstd::prelude::*;

verus! {

/// Raw steps in one whole unit.
pub const SCALE: i64 = 1_000_000_000;

/// A number held as a signed count of billionths.
///
/// All arithmetic saturates at the bounds of `i64` and rounds towards zero.
#[derive(Clone, Copy, Debug, PartialEq, Eq, Structural)]
pub struct Fixed {
    pub raw: i64,
}

/// `v` brought into the range of `i64`.
pub open spec fn clamp(v: int) -> int {
    if v > i64::MAX {
        i64::MAX as int
    } else if v < i64::MIN {
        i64::MIN as int
    } else {
        v
    }
}

/// The quotient of `n` by a positive `d`, rounded towards zero.
pub open spec fn trunc_div(n: int, d: int) -> int
    recommends
        d > 0,
{
    if n >= 0 {
        n / d
    } else {
        -((-n) / d)
    }
}

/// `v` brought into the range of `i64`.
fn clamp_i128(v: i128) -> (r: i64)
    ensures
        r == clamp(v as int),
{
    if v > i64::MAX as i128 {
        i64::MAX
    } else if v < i64::MIN as i128 {
        i64::MIN
    } else {
        v as i64
    }
}

/// The quotient of `n` by a positive `d`, rounded towards zero.
fn trunc_div_i128(n: i128, d: i128) -> (q: i128)
    requires
        d > 0,
        n > i128::MIN,
    ensures
        q == trunc_div(n as int, d as int),
{
    if n >= 0 {
        n / d
    } else {
        let m: i128 = -n;
        let q: i128 = m / d;
        -q
    }
}

/// A product is bounded by the product of the bounds of its factors.
pub proof fn lemma_product_bound(a: int, b: int, la: int, lb: int)
    by (nonlinear_arith)
    requires
        -la <= a <= la,
        -lb <= b <= lb,
    ensures
        -(la * lb) <= a * b <= la * lb,
{
}

impl Fixed {
    /// The whole number `n`.
    pub open spec fn spec_from_int(n: int) -> Fixed {
        Fixed { raw: clamp(n * SCALE) as i64 }
    }

    /// The sum of two numbers.
    pub open spec fn spec_sat_add(self, rhs: Fixed) -> Fixed {
        Fixed { raw: clamp(self.raw + rhs.raw) as i64 }
    }

    /// The difference of two numbers.
    pub open spec fn spec_sat_sub(self, rhs: Fixed) -> Fixed {
        Fixed { raw: clamp(self.raw - rhs.raw) as i64 }
    }

    /// The product of two numbers.
    pub open spec fn spec_sat_mul(self, rhs: Fixed) -> Fixed {
        Fixed { raw: clamp(trunc_div(self.raw * rhs.raw, SCALE as int)) as i64 }
    }

    /// `self * num / den`, with the product taken exactly.
    pub open spec fn spec_mul_ratio(self, num: u32, den: u32) -> Fixed
        recommends
            den > 0,
    {
        Fixed { raw: clamp(trunc_div(self.raw * num, den as int)) as i64 }
    }

    /// `self / n` for a positive whole number `n`.
    pub open spec fn spec_div_int(self, n: u64) -> Fixed
        recommends
            n > 0,
    {
        Fixed { raw: clamp(trunc_div(self.raw as int, n as int)) as i64 }
    }

    /// The quotient of two numbers; zero where the divisor is zero.
    pub open spec fn spec_sat_div(self, rhs: Fixed) -> Fixed {
        if rhs.raw == 0 {
            Fixed { raw: 0 }
        } else if rhs.raw > 0 {
            Fixed { raw: clamp(trunc_div(self.raw * SCALE, rhs.raw as int)) as i64 }
        } else {
            Fixed { raw: clamp(trunc_div(-(self.raw * SCALE), -(rhs.raw as int))) as i64 }
        }
    }

    /// The whole number `n`.
    pub fn from_int(n: u64) -> (r: Fixed)
        ensures
            r == Self::spec_from_int(n as int),
    {
        proof {
            lemma_product_bound(n as int, SCALE as int, 0x1_0000_0000_0000_0000, 1_000_000_000);
        }
        let wide: i128 = (n as i128) * (SCALE as i128);
        Fixed { raw: clamp_i128(wide) }
    }

    /// The sum of two numbers.
    pub fn sat_add(self, rhs: Fixed) -> (r: Fixed)
        ensures
            r == self.spec_sat_add(rhs),
    {
        let s: i128 = self.raw as i128 + rhs.raw as i128;
        Fixed { raw: clamp_i128(s) }
    }

    /// The difference of two numbers.
    pub fn sat_sub(self, rhs: Fixed) -> (r: Fixed)
        ensures
            r == self.spec_sat_sub(rhs),
    {
        let s: i128 = self.raw as i128 - rhs.raw as i128;
        Fixed { raw: clamp_i128(s) }
    }

    /// The product of two numbers.
    pub fn sat_mul(self, rhs: Fixed) -> (r: Fixed)
        ensures
            r == self.spec_sat_mul(rhs),
    {
        proof {
            lemma_product_bound(
                self.raw as int,
                rhs.raw as int,
                0x8000_0000_0000_0000,
                0x8000_0000_0000_0000,
            );
        }
        let p: i128 = (self.raw as i128) * (rhs.raw as i128);
        let q: i128 = trunc_div_i128(p, SCALE as i128);
        Fixed { raw: clamp_i128(q) }
    }

    /// `self * num / den`, with the product taken exactly.
    pub fn mul_ratio(self, num: u32, den: u32) -> (r: Fixed)
        requires
            den > 0,
        ensures
            r == self.spec_mul_ratio(num, den),
    {
        proof {
            lemma_product_bound(
                self.raw as int,
                num as int,
                0x8000_0000_0000_0000,
                0x1_0000_0000,
            );
        }
        let p: i128 = (self.raw as i128) * (num as i128);
        let q: i128 = trunc_div_i128(p, den as i128);
        Fixed { raw: clamp_i128(q) }
    }

    /// `self / n` for a positive whole number `n`.
    pub fn div_int(self, n: u64) -> (r: Fixed)
        requires
            n > 0,
        ensures
            r == self.spec_div_int(n),
    {
        let q: i128 = trunc_div_i128(self.raw as i128, n as i128);
        Fixed { raw: clamp_i128(q) }
    }

    /// The quotient of two numbers; zero where the divisor is zero.
    pub fn sat_div(self, rhs: Fixed) -> (r: Fixed)
        ensures
            r == self.spec_sat_div(rhs),
    {
        if rhs.raw == 0 {
            return Fixed { raw: 0 };
        }
        proof {
            lemma_product_bound(
                self.raw as int,
                SCALE as int,
                0x8000_0000_0000_0000,
                1_000_000_000,
            );
        }
        let p: i128 = (self.raw as i128) * (SCALE as i128);
        if rhs.raw > 0 {
            let q: i128 = trunc_div_i128(p, rhs.raw as i128);
            Fixed { raw: clamp_i128(q) }
        } else {
            let d: i128 = -(rhs.raw as i128);
            let q: i128 = trunc_div_i128(-p, d);
            Fixed { raw: clamp_i128(q) }
        }
    }
}

/// The sum of the magnitudes of the bins from `start` up to, not including, `end`.
pub open spec fn spec_sum(magnitudes: Seq<Fixed>, start: int, end: int) -> Fixed
    decreases end - start,
{
    if end <= start {
        Fixed { raw: 0 }
    } else {
        spec_sum(magnitudes, start, end - 1).spec_sat_add(magnitudes[end - 1])
    }
}

/// No bin from `start` up to `end` holds a magnitude above zero.
pub open spec fn spec_quiet(magnitudes: Seq<Fixed>, start: int, end: int) -> bool {
    forall|bin: int| start <= bin < end ==> (#[trigger] magnitudes[bin]).raw <= 0
}

/// The sum of the magnitudes of the bins from `start` up to `end`, and
/// whether none of them is above zero.
pub fn sum_bins(magnitudes: &Vec<Fixed>, start: usize, end: usize) -> (result: (Fixed, bool))
    requires
        start <= end <= magnitudes@.len(),
    ensures
        result.0 == spec_sum(magnitudes@, start as int, end as int),
        result.1 == spec_quiet(magnitudes@, start as int, end as int),
{
    let mut sum: Fixed = Fixed { raw: 0 };
    let mut quiet: bool = true;
    let mut bin: usize = start;
    while bin < end
        invariant
            start <= bin <= end <= magnitudes@.len(),
            sum == spec_sum(magnitudes@, start as int, bin as int),
            quiet == spec_quiet(magnitudes@, start as int, bin as int),
        decreases end - bin,
    {
        let magnitude: Fixed = magnitudes[bin];
        if magnitude.raw > 0 {
            quiet = false;
        }
        sum = sum.sat_add(magnitude);
        bin += 1;
    }
    (sum, quiet)
}

} // verus!
