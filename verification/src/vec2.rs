//! 2D integer vectors and the mathematical model of their arithmetic.

use vstd::prelude::*;
use crate::num::isqrt_ceil;
use crate::num::div_trunc;
use crate::num::lemma_sqrt_floor_is_sqrt;
use crate::num::sqrt_floor;
use crate::num::lemma_tdiv_times_divisor;
use crate::num::sqrt_ceil;
use crate::num::tdiv;
use crate::ACC_LIMIT;
use crate::MAX_SPEED;

verus! {

/// A 2D vector with integer components.
#[derive(Clone, Copy, PartialEq, Eq, Structural, Debug)]
pub struct V2 {
    pub x: i64,
    pub y: i64,
}

/// The mathematical value of a `V2`: a pair of unbounded integers.
pub ghost struct GV2 {
    pub x: int,
    pub y: int,
}

impl View for V2 {
    type V = GV2;

    open spec fn view(&self) -> GV2 {
        GV2 { x: self.x as int, y: self.y as int }
    }
}

pub open spec fn g_zero() -> GV2 {
    GV2 { x: 0, y: 0 }
}

pub open spec fn g_add(a: GV2, b: GV2) -> GV2 {
    GV2 { x: a.x + b.x, y: a.y + b.y }
}

pub open spec fn g_sub(a: GV2, b: GV2) -> GV2 {
    GV2 { x: a.x - b.x, y: a.y - b.y }
}

/// Divide both components by a positive `d`, rounding toward zero.
pub open spec fn g_div(a: GV2, d: int) -> GV2 {
    GV2 { x: tdiv(a.x, d), y: tdiv(a.y, d) }
}

/// Scale both components by the fixed-point factor `m / d`.
pub open spec fn g_mul_div(a: GV2, m: int, d: int) -> GV2 {
    GV2 { x: tdiv(a.x * m, d), y: tdiv(a.y * m, d) }
}

/// Squared Euclidean length.
pub open spec fn g_len_sq(a: GV2) -> int {
    a.x * a.x + a.y * a.y
}

/// Squared Euclidean distance.
pub open spec fn g_dist_sq(a: GV2, b: GV2) -> int {
    g_len_sq(g_sub(a, b))
}

/// A vector whose length is at most `cap`: the vector itself if already
/// short enough, else the vector scaled by `cap` over the rounded-up length.
pub open spec fn g_clamped(v: GV2, cap: int) -> GV2 {
    if g_len_sq(v) <= cap * cap {
        v
    } else {
        g_mul_div(v, cap, sqrt_ceil(g_len_sq(v)))
    }
}


/// Scaling a vector down by at least its own length keeps it within `cap`.
pub(crate) proof fn lemma_scale_within_cap(x: int, y: int, cap: int, lc: int)
    requires
        0 < cap,
        0 < lc,
        x * x + y * y <= lc * lc,
    ensures
        tdiv(x * cap, lc) * tdiv(x * cap, lc) + tdiv(y * cap, lc) * tdiv(y * cap, lc) <= cap
            * cap,
{
    let qx = tdiv(x * cap, lc);
    let qy = tdiv(y * cap, lc);
    lemma_tdiv_times_divisor(x * cap, lc);
    lemma_tdiv_times_divisor(y * cap, lc);
    assert(qx * qx * (lc * lc) <= (x * cap) * (x * cap)) by (nonlinear_arith)
        requires
            x * cap >= 0 ==> 0 <= qx * lc <= x * cap,
            x * cap < 0 ==> x * cap <= qx * lc <= 0,
            0 < lc,
    ;
    assert(qy * qy * (lc * lc) <= (y * cap) * (y * cap)) by (nonlinear_arith)
        requires
            y * cap >= 0 ==> 0 <= qy * lc <= y * cap,
            y * cap < 0 ==> y * cap <= qy * lc <= 0,
            0 < lc,
    ;
    assert((x * cap) * (x * cap) + (y * cap) * (y * cap) <= (cap * cap) * (lc * lc))
        by (nonlinear_arith)
        requires
            x * x + y * y <= lc * lc,
            0 < cap,
    ;
    assert(qx * qx + qy * qy <= cap * cap) by (nonlinear_arith)
        requires
            qx * qx * (lc * lc) <= (x * cap) * (x * cap),
            qy * qy * (lc * lc) <= (y * cap) * (y * cap),
            (x * cap) * (x * cap) + (y * cap) * (y * cap) <= (cap * cap) * (lc * lc),
            0 < lc,
    ;
}

impl V2 {
    /// The zero vector.
    pub fn zero() -> (r: V2)
        ensures
            r@ == g_zero(),
    {
        V2 { x: 0, y: 0 }
    }

    /// Componentwise sum.
    pub fn plus(self, o: V2) -> (r: V2)
        requires
            i64::MIN <= self.x + o.x <= i64::MAX,
            i64::MIN <= self.y + o.y <= i64::MAX,
        ensures
            r@ == g_add(self@, o@),
    {
        V2 { x: self.x + o.x, y: self.y + o.y }
    }

    /// Componentwise difference.
    pub fn minus(self, o: V2) -> (r: V2)
        requires
            i64::MIN <= self.x - o.x <= i64::MAX,
            i64::MIN <= self.y - o.y <= i64::MAX,
        ensures
            r@ == g_sub(self@, o@),
    {
        V2 { x: self.x - o.x, y: self.y - o.y }
    }

    /// Squared Euclidean distance to `o`.
    pub fn dist_sq(self, o: V2) -> (d: i64)
        requires
            -2_000_000_000 <= self.x - o.x <= 2_000_000_000,
            -2_000_000_000 <= self.y - o.y <= 2_000_000_000,
        ensures
            d == g_dist_sq(self@, o@),
            d >= 0,
    {
        let dx = self.x - o.x;
        let dy = self.y - o.y;
        proof {
            assert(0 <= dx * dx <= 4_000_000_000_000_000_000 && 0 <= dy * dy
                <= 4_000_000_000_000_000_000) by (nonlinear_arith)
                requires
                    -2_000_000_000 <= dx <= 2_000_000_000,
                    -2_000_000_000 <= dy <= 2_000_000_000,
            ;
        }
        dx * dx + dy * dy
    }

    /// The vector, shortened to length at most `cap` if it is longer: the
    /// direction is kept up to rounding toward zero.
    pub fn clamp_len(self, cap: i64) -> (r: V2)
        requires
            0 < cap <= MAX_SPEED,
            -(ACC_LIMIT + MAX_SPEED) <= self.x <= ACC_LIMIT + MAX_SPEED,
            -(ACC_LIMIT + MAX_SPEED) <= self.y <= ACC_LIMIT + MAX_SPEED,
        ensures
            r@ == g_clamped(self@, cap as int),
            g_len_sq(r@) <= cap * cap,
    {
        proof {
            assert(0 <= self.x * self.x <= 1_000_001_000_000_250_000 && 0 <= self.y * self.y
                <= 1_000_001_000_000_250_000) by (nonlinear_arith)
                requires
                    -1_000_000_500 <= self.x <= 1_000_000_500,
                    -1_000_000_500 <= self.y <= 1_000_000_500,
            ;
        }
        let lsq: i64 = self.x * self.x + self.y * self.y;
        proof {
            assert(0 <= cap * cap <= 250_000) by (nonlinear_arith)
                requires
                    0 < cap <= 500,
            ;
        }
        if lsq <= cap * cap {
            self
        } else {
            let lc64: u64 = isqrt_ceil(lsq as u64);
            let lc: i64 = lc64 as i64;
            proof {
                lemma_sqrt_floor_is_sqrt(lsq as int);
                assert(lc >= 1);
                assert(-600_000_000_000 <= self.x * cap <= 600_000_000_000 && -600_000_000_000
                    <= self.y * cap <= 600_000_000_000) by (nonlinear_arith)
                    requires
                        -1_000_000_500 <= self.x <= 1_000_000_500,
                        -1_000_000_500 <= self.y <= 1_000_000_500,
                        0 < cap <= 500,
                ;
                lemma_scale_within_cap(self.x as int, self.y as int, cap as int, lc as int);
            }
            let rx = div_trunc(self.x * cap, lc);
            let ry = div_trunc(self.y * cap, lc);
            V2 { x: rx, y: ry }
        }
    }

}



/// The clamp really caps the length: whatever the vector, the clamped value
/// has squared length at most `cap * cap`.
pub proof fn lemma_clamped_within(v: GV2, cap: int)
    requires
        0 < cap,
    ensures
        g_len_sq(g_clamped(v, cap)) <= cap * cap,
{
    let n = g_len_sq(v);
    assert(0 <= n && 0 < cap * cap) by (nonlinear_arith)
        requires
            n == v.x * v.x + v.y * v.y,
            0 < cap,
    ;
    if n > cap * cap {
        lemma_sqrt_floor_is_sqrt(n);
        let f = sqrt_floor(n);
        let lc = sqrt_ceil(n);
        assert(n <= lc * lc);
        assert(lc >= 1);
        lemma_scale_within_cap(v.x, v.y, cap, lc);
    }
}

/// A vector whose squared length is within `m * m` has both components
/// within `m`.
pub proof fn lemma_len_sq_comps(v: GV2, m: int)
    requires
        0 <= m,
        g_len_sq(v) <= m * m,
    ensures
        -m <= v.x <= m,
        -m <= v.y <= m,
{
    assert(-m <= v.x <= m && -m <= v.y <= m) by (nonlinear_arith)
        requires
            0 <= m,
            v.x * v.x + v.y * v.y <= m * m,
    ;
}

} // verus!
