use vstd::prelude::*;
use crate::geom::Point;

verus! {

/// The largest blend weight, in hundredths.
pub const MAX_WEIGHT: u8 = 25;

/// Ten-thousand times the fourth power of the distance between a cell and
/// the pointer.
///
/// The distance is the square root of the length of `(1.6 * dx, 3 * dy)`, so
/// its fourth power is `2.56 * dx^2 + 9 * dy^2`: an exact integer once scaled.
pub open spec fn spec_dist4(cell: Point, pointer: Point) -> int {
    let dx = cell.x as int - pointer.x as int;
    let dy = cell.y as int - pointer.y as int;
    25600 * (dx * dx) + 90000 * (dy * dy)
}

/// The distance floored at `1.5`, on the scale of [`spec_dist4`]
/// (`1.5^4 = 5.0625`).
pub open spec fn spec_floored4(d4: int) -> int {
    if d4 < 50625 {
        50625
    } else {
        d4
    }
}

/// The interpolation parameter saturated into `[0, 1]`, on the same scale.
pub open spec fn spec_saturated4(f4: int) -> int {
    if f4 < 0 {
        0
    } else if f4 > 10000 {
        10000
    } else {
        f4
    }
}

/// `w` hundredths is the point between `0` and `0.25` that the parameter
/// with scaled fourth power `param4` selects: `(w / 25)^4 = param4 / 10^4`.
pub open spec fn spec_selects(w: int, param4: int) -> bool {
    0 <= w <= 25 && 16 * (w * w * w * w) == 625 * param4
}

/// The weight, in hundredths, for a cell and a pointer: the one that the
/// floored and saturated distance between them selects.
pub open spec fn spec_blend_weight(cell: Point, pointer: Point) -> int {
    choose|w: int| spec_selects(w, spec_saturated4(spec_floored4(spec_dist4(cell, pointer))))
}

/// The weight, in hundredths, by which a cell's background moves toward the
/// shadow colour when the spotlight is on.
///
/// Because the distance is floored above `1` before it is saturated into
/// `[0, 1]`, the parameter is `1` for every cell and the weight is always the
/// maximum.
pub fn blend_weight(cell: Point, pointer: Point) -> (w: u8)
    ensures
        w == spec_blend_weight(cell, pointer),
        w == MAX_WEIGHT,
{
    proof {
        lemma_parameter_saturates(cell, pointer);
    }
    MAX_WEIGHT
}

/// The spotlight is degenerate: for every cell and every pointer the floored
/// distance exceeds `1`, so the saturated parameter is exactly `1`.
pub proof fn lemma_parameter_saturates(cell: Point, pointer: Point)
    ensures
        spec_saturated4(spec_floored4(spec_dist4(cell, pointer))) == 10000,
        forall|w: int|
            spec_selects(w, spec_saturated4(spec_floored4(spec_dist4(cell, pointer)))) <==> w
                == 25,
        spec_blend_weight(cell, pointer) == MAX_WEIGHT,
{
    assert forall|w: int| #[trigger] spec_selects(w, 10000) <==> w == 25 by {
        if 0 <= w < 25 {
            assert(w * w * w * w <= 24 * 24 * 24 * 24) by (nonlinear_arith)
                requires
                    0 <= w <= 24,
            ;
        }
    }
    assert(spec_selects(25, 10000));
}

} // verus!
