//! How far apart two columns of blocks are.

use crate::position::BlockPos;
use vstd::prelude::*;

verus! {

/// The squared distance of two positions, heights aside.
pub open spec fn horizontal_square(a: BlockPos, b: BlockPos) -> int {
    (a.x - b.x) * (a.x - b.x) + (a.z - b.z) * (a.z - b.z)
}

/// Whether `root` is the integer nearest to the square root of `square`: it is less than a half
/// away.
pub open spec fn is_nearest_root(square: int, root: int) -> bool {
    &&& root >= 0
    &&& root > 0 ==> (2 * root - 1) * (2 * root - 1) < 4 * square
    &&& 4 * square < (2 * root + 1) * (2 * root + 1)
}

/// Whether `distance` is the distance of two positions, heights aside: rounded, and cut off at the
/// largest value that it can have.
pub open spec fn is_horizontal_distance(a: BlockPos, b: BlockPos, distance: int) -> bool {
    let square = horizontal_square(a, b);
    if 4 * square < (2 * i32::MAX + 1) * (2 * i32::MAX + 1) {
        is_nearest_root(square, distance)
    } else {
        distance == i32::MAX
    }
}

/// Only one integer is nearest.
proof fn lemma_nearest_root_unique(square: int, r: int, s: int)
    requires
        is_nearest_root(square, r),
        is_nearest_root(square, s),
        r <= s,
    ensures
        r == s,
{
    if r < s {
        assert((2 * r + 1) * (2 * r + 1) <= (2 * s - 1) * (2 * s - 1)) by (nonlinear_arith)
            requires
                0 <= r < s,
        ;
    }
}

/// Two positions have one distance.
pub proof fn law_distance_unique(a: BlockPos, b: BlockPos, d: int, e: int)
    requires
        is_horizontal_distance(a, b, d),
        is_horizontal_distance(a, b, e),
    ensures
        d == e,
{
    let square = horizontal_square(a, b);
    if 4 * square < (2 * i32::MAX + 1) * (2 * i32::MAX + 1) {
        if d <= e {
            lemma_nearest_root_unique(square, d, e);
        } else {
            lemma_nearest_root_unique(square, e, d);
        }
    }
}

/// The distance is the same in both directions.
pub proof fn law_distance_symmetric(a: BlockPos, b: BlockPos, d: int)
    ensures
        is_horizontal_distance(a, b, d) == is_horizontal_distance(b, a, d),
{
    let (dx, dz) = (a.x - b.x, a.z - b.z);
    assert(dx * dx == (-dx) * (-dx)) by (nonlinear_arith);
    assert(dz * dz == (-dz) * (-dz)) by (nonlinear_arith);
}

/// Heights do not matter.
pub proof fn law_distance_ignores_height(a: BlockPos, b: BlockPos, y: i32, z: i32, d: int)
    ensures
        is_horizontal_distance(BlockPos { y, ..a }, BlockPos { y: z, ..b }, d)
            == is_horizontal_distance(a, b, d),
{
}

/// The distance is zero exactly within a column.
pub proof fn law_distance_zero_in_column(a: BlockPos, b: BlockPos)
    ensures
        is_horizontal_distance(a, b, 0) <==> a.x == b.x && a.z == b.z,
{
    let (dx, dz) = (a.x - b.x, a.z - b.z);
    assert(dx * dx + dz * dz >= 0) by (nonlinear_arith);
    assert(dx * dx + dz * dz == 0 <==> dx == 0 && dz == 0) by (nonlinear_arith);
    let top = i32::MAX as int;
    assert((2 * top + 1) * (2 * top + 1) > 1) by (nonlinear_arith)
        requires
            top > 0,
    ;
}

/// Distances along one axis are not rounded.
pub proof fn law_distance_along_axis(a: BlockPos, b: BlockPos)
    requires
        a.z == b.z,
        0 <= b.x - a.x <= i32::MAX,
    ensures
        is_horizontal_distance(a, b, b.x - a.x),
{
    let d = b.x - a.x;
    assert((a.x - b.x) * (a.x - b.x) == d * d) by (nonlinear_arith)
        requires
            d == b.x - a.x,
    ;
    assert((2 * d - 1) * (2 * d - 1) == 4 * (d * d) - 4 * d + 1) by (nonlinear_arith);
    assert((2 * d + 1) * (2 * d + 1) == 4 * (d * d) + 4 * d + 1) by (nonlinear_arith);
    let top = i32::MAX as int;
    assert((2 * d + 1) * (2 * d + 1) <= (2 * top + 1) * (2 * top + 1)) by (nonlinear_arith)
        requires
            0 <= d <= top,
    ;
}

/// Horizontal distance in blocks, rounded.
#[must_use]
pub fn horizontal_distance(a: BlockPos, b: BlockPos) -> (distance: i32)
    ensures
        is_horizontal_distance(a, b, distance as int),
{
    let dx: i128 = a.x as i128 - b.x as i128;
    let dz: i128 = a.z as i128 - b.z as i128;
    assert(0 <= dx * dx <= 0x1_0000_0000 * 0x1_0000_0000) by (nonlinear_arith)
        requires
            -0x1_0000_0000 <= dx <= 0x1_0000_0000,
    ;
    assert(0 <= dz * dz <= 0x1_0000_0000 * 0x1_0000_0000) by (nonlinear_arith)
        requires
            -0x1_0000_0000 <= dz <= 0x1_0000_0000,
    ;
    let square: i128 = dx * dx + dz * dz;
    // Every root up to `low` is small enough; every root from `high` on is too large.
    let mut low: i128 = 0;
    let mut high: i128 = 0x8000_0000;
    while high - low > 1
        invariant
            square == horizontal_square(a, b),
            0 <= square <= 2 * 0x1_0000_0000 * 0x1_0000_0000,
            0 <= low < high <= 0x8000_0000,
            low > 0 ==> low * (low - 1) < square,
            high < 0x8000_0000 ==> square <= high * (high - 1),
        decreases high - low,
    {
        let middle: i128 = (low + high) / 2;
        assert(0 <= middle * (middle - 1) <= 0x8000_0000 * 0x8000_0000) by (nonlinear_arith)
            requires
                1 <= middle <= 0x8000_0000,
        ;
        if middle * (middle - 1) < square {
            low = middle;
        } else {
            high = middle;
        }
    }
    proof {
        let root = low as int;
        let top = i32::MAX as int;
        assert((2 * root - 1) * (2 * root - 1) == 4 * (root * (root - 1)) + 1)
            by (nonlinear_arith);
        assert((2 * root + 1) * (2 * root + 1) == 4 * ((root + 1) * root) + 1)
            by (nonlinear_arith);
        assert((2 * root + 1) * (2 * root + 1) <= (2 * top + 1) * (2 * top + 1))
            by (nonlinear_arith)
            requires
                0 <= root <= top,
        ;
    }
    low as i32
}

/// The distance is less than half a block off the length of the straight way between the columns,
/// or as large as can be if that way is longer.
pub proof fn law_distance_is_the_straight_way(a: BlockPos, b: BlockPos, d: int)
    requires
        is_horizontal_distance(a, b, d),
    ensures
        ({
            let square = (a.x - b.x) * (a.x - b.x) + (a.z - b.z) * (a.z - b.z);
            &&& 0 <= d <= 0x7fff_ffff
            &&& d > 0 ==> (2 * d - 1) * (2 * d - 1) < 4 * square
            &&& d < 0x7fff_ffff ==> 4 * square < (2 * d + 1) * (2 * d + 1)
        }),
{
    let square = horizontal_square(a, b);
    let top = i32::MAX as int;
    if 4 * square < (2 * top + 1) * (2 * top + 1) {
        if d > top {
            assert((2 * d - 1) * (2 * d - 1) >= (2 * top + 1) * (2 * top + 1)) by (nonlinear_arith)
                requires
                    d > top,
                    top > 0,
            ;
        }
    } else {
        assert((2 * top - 1) * (2 * top - 1) < (2 * top + 1) * (2 * top + 1)) by (nonlinear_arith)
            requires
                top > 0,
        ;
    }
}

/// Moving farther away along either axis never makes the distance less.
pub proof fn law_distance_grows(a: BlockPos, b: BlockPos, c: BlockPos, d: int, e: int)
    requires
        a.x <= b.x <= c.x || a.x >= b.x >= c.x,
        a.z <= b.z <= c.z || a.z >= b.z >= c.z,
        is_horizontal_distance(a, b, d),
        is_horizontal_distance(a, c, e),
    ensures
        d <= e,
{
    law_distance_is_the_straight_way(a, b, d);
    law_distance_is_the_straight_way(a, c, e);
    let (near_x, far_x) = (a.x - b.x, a.x - c.x);
    let (near_z, far_z) = (a.z - b.z, a.z - c.z);
    assert(near_x * near_x <= far_x * far_x) by (nonlinear_arith)
        requires
            0 <= near_x <= far_x || 0 >= near_x >= far_x,
    ;
    assert(near_z * near_z <= far_z * far_z) by (nonlinear_arith)
        requires
            0 <= near_z <= far_z || 0 >= near_z >= far_z,
    ;
    if d > e {
        assert((2 * e + 1) * (2 * e + 1) <= (2 * d - 1) * (2 * d - 1)) by (nonlinear_arith)
            requires
                0 <= e < d,
        ;
    }
}

} // verus!
