//! Shared per-tick parameters: the viewport and the tunable multipliers.

use vstd::prelude::*;
use crate::num::tdiv;
use crate::div_trunc;
use crate::COORD_LIMIT;
use crate::DT_LIMIT;
use crate::MUL_LIMIT;
use crate::SCALE;

verus! {

/// The bounded display surface, centered near the origin.
#[derive(Clone, Copy, PartialEq, Eq, Structural, Debug)]
pub struct Viewport {
    pub min_x: i64,
    pub min_y: i64,
    pub max_x: i64,
    pub max_y: i64,
}

impl Viewport {
    /// A usable viewport: nonempty on both axes, within `COORD_LIMIT` of the
    /// origin.
    pub open spec fn wf(self) -> bool {
        &&& -COORD_LIMIT <= self.min_x < self.max_x <= COORD_LIMIT
        &&& -COORD_LIMIT <= self.min_y < self.max_y <= COORD_LIMIT
    }

    /// The viewport for a display surface of the given size, centered at the
    /// origin: each axis runs from minus half the size to the rest of it.
    pub fn from_size(width: i64, height: i64) -> (r: Viewport)
        requires
            2 <= width <= COORD_LIMIT,
            2 <= height <= COORD_LIMIT,
        ensures
            r.wf(),
            r.min_x == -tdiv(width as int, 2),
            r.max_x == width - tdiv(width as int, 2),
            r.min_y == -tdiv(height as int, 2),
            r.max_y == height - tdiv(height as int, 2),
    {
        let hw = div_trunc(width, 2);
        let hh = div_trunc(height, 2);
        Viewport { min_x: -hw, min_y: -hh, max_x: width - hw, max_y: height - hh }
    }
}

/// The parameters every stage of a tick reads: the tick length, the three
/// force multipliers (fixed-point, in thousandths), and the viewport.
#[derive(Clone, Copy, PartialEq, Eq, Structural, Debug)]
pub struct SimParams {
    pub delta_milli: i64,
    pub cohesion_mul_milli: i64,
    pub separation_mul_milli: i64,
    pub alignment_mul_milli: i64,
    pub viewport: Viewport,
}

impl SimParams {
    /// Parameters a tick can be run under: tick length and multipliers in
    /// range, viewport usable.
    pub open spec fn wf(self) -> bool {
        &&& 0 <= self.delta_milli <= DT_LIMIT
        &&& -MUL_LIMIT <= self.cohesion_mul_milli <= MUL_LIMIT
        &&& -MUL_LIMIT <= self.separation_mul_milli <= MUL_LIMIT
        &&& -MUL_LIMIT <= self.alignment_mul_milli <= MUL_LIMIT
        &&& self.viewport.wf()
    }

    /// Fresh parameters: no time elapsed yet, every multiplier at one.
    pub fn new(viewport: Viewport) -> (r: SimParams)
        requires
            viewport.wf(),
        ensures
            r == (SimParams {
                delta_milli: 0,
                cohesion_mul_milli: SCALE,
                separation_mul_milli: SCALE,
                alignment_mul_milli: SCALE,
                viewport,
            }),
            r.wf(),
    {
        SimParams {
            delta_milli: 0,
            cohesion_mul_milli: SCALE,
            separation_mul_milli: SCALE,
            alignment_mul_milli: SCALE,
            viewport,
        }
    }
}

} // verus!
