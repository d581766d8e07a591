//! Classifying a point against a clip rectangle.

use vstd::prelude::*;
use crate::geometry::lines::OutCode;

verus! {

/// The point lies left of the clip window.
pub const LEFT: OutCode = 1;

/// The point lies right of the clip window.
pub const RIGHT: OutCode = 2;

/// The point lies below the clip window.
pub const BOTTOM: OutCode = 4;

/// The point lies above the clip window.
pub const TOP: OutCode = 8;

/// An outcode: a combination of the four zone bits.
pub open spec fn is_outcode(code: OutCode) -> bool {
    0 <= code < 16
}

/// The outcode holds the bit of `zone`, one of the four zones.
pub open spec fn in_zone(code: OutCode, zone: OutCode) -> bool {
    (code / zone) % 2 == 1
}

/// Two outcodes hold a zone in common.
pub open spec fn share_zone(a: OutCode, b: OutCode) -> bool {
    ||| in_zone(a, LEFT) && in_zone(b, LEFT)
    ||| in_zone(a, RIGHT) && in_zone(b, RIGHT)
    ||| in_zone(a, BOTTOM) && in_zone(b, BOTTOM)
    ||| in_zone(a, TOP) && in_zone(b, TOP)
}

/// Reading the zone bits of outcodes with `&`.
pub proof fn lemma_zone_bits(a: OutCode, b: OutCode)
    requires
        is_outcode(a),
        is_outcode(b),
    ensures
        (a & LEFT != 0) == in_zone(a, LEFT),
        (a & RIGHT != 0) == in_zone(a, RIGHT),
        (a & BOTTOM != 0) == in_zone(a, BOTTOM),
        (a & TOP != 0) == in_zone(a, TOP),
        (a & b != 0) == share_zone(a, b),
        a == 0 <==> !in_zone(a, LEFT) && !in_zone(a, RIGHT) && !in_zone(a, BOTTOM) && !in_zone(
            a,
            TOP,
        ),
{
    assert({
        &&& (a & 1 != 0) == ((a / 1) % 2 == 1)
        &&& (a & 2 != 0) == ((a / 2) % 2 == 1)
        &&& (a & 4 != 0) == ((a / 4) % 2 == 1)
        &&& (a & 8 != 0) == ((a / 8) % 2 == 1)
        &&& (a & b != 0) == (((a / 1) % 2 == 1 && (b / 1) % 2 == 1) || ((a / 2) % 2 == 1 && (b / 2)
            % 2 == 1) || ((a / 4) % 2 == 1 && (b / 4) % 2 == 1) || ((a / 8) % 2 == 1 && (b / 8)
            % 2 == 1))
        &&& (a == 0) == ((a / 1) % 2 != 1 && (a / 2) % 2 != 1 && (a / 4) % 2 != 1 && (a / 8) % 2
            != 1)
    }) by (bit_vector)
        requires
            0 <= a < 16,
            0 <= b < 16,
    ;
}

/// The Cohen–Sutherland outcode of a point, given how it compares with the
/// clip window: whether its x lies below the window's minimum or above its
/// maximum, and likewise for its y. A point that is below the minimum is
/// not also checked against the maximum.
pub fn compute_outcode(x_below_min: bool, x_above_max: bool, y_below_min: bool, y_above_max: bool) -> (code: OutCode)
    ensures
        is_outcode(code),
        in_zone(code, LEFT) == x_below_min,
        in_zone(code, RIGHT) == (!x_below_min && x_above_max),
        in_zone(code, BOTTOM) == y_below_min,
        in_zone(code, TOP) == (!y_below_min && y_above_max),
{
    let horizontal: OutCode = if x_below_min {
        LEFT
    } else if x_above_max {
        RIGHT
    } else {
        0
    };
    let vertical: OutCode = if y_below_min {
        BOTTOM
    } else if y_above_max {
        TOP
    } else {
        0
    };
    let code = horizontal | vertical;
    assert({
        &&& 0 <= code < 16
        &&& (code & 1 != 0) == (horizontal == 1)
        &&& (code & 2 != 0) == (horizontal == 2)
        &&& (code & 4 != 0) == (vertical == 4)
        &&& (code & 8 != 0) == (vertical == 8)
    }) by (bit_vector)
        requires
            code == horizontal | vertical,
            horizontal == 0 || horizontal == 1 || horizontal == 2,
            vertical == 0 || vertical == 4 || vertical == 8,
    ;
    proof {
        lemma_zone_bits(code, code);
    }
    code
}

} // verus!
