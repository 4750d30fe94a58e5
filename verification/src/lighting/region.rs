//! Made-up terrain to measure lighting on: stone under a rolling surface, caves and torches.

use crate::lighting::volume::{LightVolume, VoxelProps};
use vstd::arithmetic::div_mod::lemma_fundamental_div_mod_converse;
use vstd::prelude::*;

verus! {

/// Height of a region in voxels.
pub const HEIGHT: u32 = 384;

/// Width of a chunk in voxels.
pub const CHUNK_WIDTH: u32 = 16;

/// Caves for each chunk.
pub const CAVES_PER_CHUNK: u32 = 3;

/// What a torch emits.
pub const TORCH_LIGHT: u8 = 14;

/// What stone absorbs.
pub const STONE_OPACITY: u8 = 15;

/// Where the sequence of numbers that shapes a region starts.
pub const SEED: u64 = 0x5eed_1234_abcd_0001;

/// A sequence of numbers that is the same every time.
#[derive(Clone, Copy, Debug)]
pub struct Rng {
    pub state: u64,
}

/// A round cave with a torch in its center.
#[derive(Clone, Copy, Debug, PartialEq, Eq, Structural)]
pub struct Bubble {
    pub x: u32,
    pub y: u32,
    pub z: u32,
    pub radius: u32,
}

/// One step of the sequence.
pub open spec fn xorshift(state: u64) -> u64 {
    let first = state ^ (state << 13);
    let second = first ^ (first >> 7);
    second ^ (second << 17)
}

/// The sequence after so many steps.
pub open spec fn state_after(state: u64, steps: nat) -> u64
    decreases steps,
{
    if steps == 0 {
        state
    } else {
        xorshift(state_after(state, (steps - 1) as nat))
    }
}

/// The number below `n` that step `step` gives.
pub open spec fn drawn(step: int, n: u32) -> int {
    state_after(SEED, step as nat) as int % n as int
}

/// Cave number `k`: its place and its size take four steps.
pub open spec fn bubble_at(side: u32, k: int) -> Bubble {
    Bubble {
        x: drawn(4 * k + 1, side) as u32,
        z: drawn(4 * k + 2, side) as u32,
        y: (70 + drawn(4 * k + 3, 50)) as u32,
        radius: (3 + drawn(4 * k + 4, 4)) as u32,
    }
}

/// Where surface torch number `k` stands, after so many caves: its place takes two steps.
pub open spec fn torch_at(side: u32, caves: int, k: int) -> (int, int) {
    (drawn(4 * caves + 2 * k + 1, side), drawn(4 * caves + 2 * k + 2, side))
}

impl Bubble {
    /// Whether a voxel is inside.
    pub open spec fn covers(self, x: int, y: int, z: int) -> bool {
        (x - self.x) * (x - self.x) + (y - self.y) * (y - self.y) + (z - self.z) * (z - self.z)
            <= self.radius * self.radius
    }
}

/// Whether a voxel is part of a region.
pub open spec fn in_region(side: int, x: int, y: int, z: int) -> bool {
    &&& 0 <= x < side
    &&& 0 <= y < HEIGHT
    &&& 0 <= z < side
}

/// Where a voxel is kept.
pub open spec fn region_index(side: int, x: int, y: int, z: int) -> int {
    (y * side + z) * side + x
}

/// A voxel.
pub open spec fn cell(props: Seq<VoxelProps>, side: int, x: int, y: int, z: int) -> VoxelProps {
    props[region_index(side, x, y, z)]
}

/// Whether a voxel belongs to one of the first caves.
pub open spec fn is_carved(side: u32, caves: int, x: int, y: int, z: int) -> bool {
    exists|k: int| 0 <= k < caves && (#[trigger] bubble_at(side, k)).covers(x, y, z)
}

/// Whether one of the first caves has its torch here.
pub open spec fn has_cave_torch(side: u32, caves: int, x: int, y: int, z: int) -> bool {
    exists|k: int|
        0 <= k < caves && (#[trigger] bubble_at(side, k)).x == x && bubble_at(side, k).y == y
            && bubble_at(side, k).z == z
}

/// Whether one of the first surface torches stands here.
pub open spec fn has_surface_torch(
    heights: Seq<u32>,
    side: u32,
    caves: int,
    torches: int,
    x: int,
    y: int,
    z: int,
) -> bool {
    y == heights[z * side + x] + 1 && exists|k: int|
        0 <= k < torches && #[trigger] torch_at(side, caves, k) == (x, z)
}

/// A voxel of a region with so many caves and surface torches.
pub open spec fn region_cell(
    heights: Seq<u32>,
    side: u32,
    caves: int,
    shown_caves: int,
    torches: int,
    x: int,
    y: int,
    z: int,
) -> VoxelProps {
    VoxelProps {
        opacity: if y > heights[z * side + x] || is_carved(side, shown_caves, x, y, z) {
            0
        } else {
            STONE_OPACITY
        },
        luminance: if has_cave_torch(side, shown_caves, x, y, z) || has_surface_torch(
            heights,
            side,
            caves,
            torches,
            x,
            y,
            z,
        ) {
            TORCH_LIGHT
        } else {
            0
        },
    }
}

/// Where a voxel is kept tells which one it is.
proof fn lemma_region_index(side: int, x: int, y: int, z: int)
    requires
        in_region(side, x, y, z),
    ensures
        0 <= region_index(side, x, y, z) < side * side * HEIGHT,
        region_index(side, x, y, z) / (side * side) == y,
        region_index(side, x, y, z) % (side * side) == z * side + x,
        0 <= z * side + x < side * side,
{
    let column = z * side + x;
    let area = side * side;
    assert(0 <= column < area) by (nonlinear_arith)
        requires
            0 <= x < side,
            0 <= z < side,
            column == z * side + x,
            area == side * side,
    ;
    let index = region_index(side, x, y, z);
    assert(index == y * area + column) by (nonlinear_arith)
        requires
            index == (y * side + z) * side + x,
            area == side * side,
            column == z * side + x,
    ;
    assert(0 <= index < area * 384) by (nonlinear_arith)
        requires
            0 <= y < 384,
            0 <= column < area,
            index == y * area + column,
    ;
    lemma_fundamental_div_mod_converse(index, area, y, column);
}

/// Different voxels are kept in different places.
proof fn lemma_region_index_distinct(
    side: int,
    x: int,
    y: int,
    z: int,
    a: int,
    b: int,
    c: int,
)
    requires
        in_region(side, x, y, z),
        in_region(side, a, b, c),
        region_index(side, x, y, z) == region_index(side, a, b, c),
    ensures
        x == a,
        y == b,
        z == c,
{
    lemma_region_index(side, x, y, z);
    lemma_region_index(side, a, b, c);
    lemma_fundamental_div_mod_converse(z * side + x, side, z, x);
    lemma_fundamental_div_mod_converse(c * side + a, side, c, a);
}

impl Rng {
    /// The next number of the sequence.
    pub fn next(&mut self) -> (number: u64)
        ensures
            number == xorshift(old(self).state),
            final(self).state == number,
    {
        self.state = self.state ^ (self.state << 13);
        self.state = self.state ^ (self.state >> 7);
        self.state = self.state ^ (self.state << 17);
        self.state
    }

    /// The next number of the sequence, brought below `n`.
    pub fn range(&mut self, n: u32) -> (number: u32)
        requires
            n > 0,
        ensures
            final(self).state == xorshift(old(self).state),
            number == xorshift(old(self).state) as int % n as int,
    {
        (self.next() % n as u64) as u32
    }
}

/// Where a voxel is kept.
fn index_of(side: u32, x: u32, y: u32, z: u32) -> (index: usize)
    requires
        in_region(side as int, x as int, y as int, z as int),
        side * side * HEIGHT <= usize::MAX,
    ensures
        index == region_index(side as int, x as int, y as int, z as int),
{
    proof {
        lemma_region_index(side as int, x as int, y as int, z as int);
        let (s, b, c) = (side as int, y as int, z as int);
        assert(0 <= b * s + c <= (b * s + c) * s) by (nonlinear_arith)
            requires
                s >= 1,
                b >= 0,
                c >= 0,
        ;
        assert(0 <= b * s) by (nonlinear_arith)
            requires
                s >= 0,
                b >= 0,
        ;
    }
    (y as usize * side as usize + z as usize) * side as usize + x as usize
}

/// Sets a voxel.
fn set_cell(props: &mut Vec<VoxelProps>, side: u32, x: u32, y: u32, z: u32, voxel: VoxelProps)
    requires
        in_region(side as int, x as int, y as int, z as int),
        old(props)@.len() == side * side * HEIGHT,
    ensures
        final(props)@.len() == old(props)@.len(),
        forall|a: int, b: int, c: int|
            in_region(side as int, a, b, c) ==> #[trigger] cell(final(props)@, side as int, a, b, c)
                == (if a == x && b == y && c == z {
                voxel
            } else {
                cell(old(props)@, side as int, a, b, c)
            }),
{
    proof {
        lemma_region_index(side as int, x as int, y as int, z as int);
        assert(props.len() == props@.len());
    }
    let index: usize = index_of(side, x, y, z);
    let ghost before = props@;
    props.set(index, voxel);
    assert forall|a: int, b: int, c: int| in_region(side as int, a, b, c) implies #[trigger] cell(
        props@,
        side as int,
        a,
        b,
        c,
    ) == (if a == x && b == y && c == z {
        voxel
    } else {
        cell(before, side as int, a, b, c)
    }) by {
        lemma_region_index(side as int, a, b, c);
        if region_index(side as int, a, b, c) == index {
            lemma_region_index_distinct(side as int, a, b, c, x as int, y as int, z as int);
        }
    }
}

/// A voxel with nothing in it.
pub open spec fn cleared(voxel: VoxelProps) -> VoxelProps {
    VoxelProps { opacity: 0, ..voxel }
}

/// Clears what a cave covers of one row of voxels.
fn carve_row(props: &mut Vec<VoxelProps>, side: u32, bubble: Bubble, y: u32, z: u32)
    requires
        old(props)@.len() == side * side * HEIGHT,
        y < HEIGHT,
        z < side,
        bubble.x < side,
        bubble.y < HEIGHT,
        bubble.z < side,
        bubble.radius < 16,
    ensures
        final(props)@.len() == old(props)@.len(),
        forall|a: int, b: int, c: int|
            in_region(side as int, a, b, c) ==> #[trigger] cell(final(props)@, side as int, a, b, c)
                == (if b == y && c == z && bubble.covers(a, b, c) {
                cleared(cell(old(props)@, side as int, a, b, c))
            } else {
                cell(old(props)@, side as int, a, b, c)
            }),
{
    let low: u32 = if bubble.x > bubble.radius {
        bubble.x - bubble.radius
    } else {
        0
    };
    let high: u32 = if bubble.radius < side - bubble.x {
        bubble.x + bubble.radius + 1
    } else {
        side
    };
    let ghost before = props@;
    for x in low..high
        invariant
            low <= high <= side,
            props@.len() == side * side * HEIGHT,
            y < HEIGHT,
            z < side,
            bubble.x < side,
            bubble.y < HEIGHT,
            bubble.z < side,
            bubble.radius < 16,
            forall|a: int, b: int, c: int|
                in_region(side as int, a, b, c) ==> #[trigger] cell(props@, side as int, a, b, c)
                    == (if low <= a < x && b == y && c == z && bubble.covers(a, b, c) {
                    cleared(cell(before, side as int, a, b, c))
                } else {
                    cell(before, side as int, a, b, c)
                }),
    {
        let dx: i128 = x as i128 - bubble.x as i128;
        let dy: i128 = y as i128 - bubble.y as i128;
        let dz: i128 = z as i128 - bubble.z as i128;
        let radius: i128 = bubble.radius as i128;
        proof {
            lemma_square_bound(dx as int);
            lemma_square_bound(dy as int);
            lemma_square_bound(dz as int);
            lemma_square_bound(radius as int);
        }
        if dx * dx + dy * dy + dz * dz <= radius * radius {
            proof {
                lemma_region_index(side as int, x as int, y as int, z as int);
                assert(props.len() == props@.len());
            }
            let index: usize = index_of(side, x, y, z);
            let voxel = props[index];
            assert(voxel == cell(props@, side as int, x as int, y as int, z as int));
            set_cell(props, side, x, y, z, VoxelProps { opacity: 0, luminance: voxel.luminance });
        }
    }
    proof {
        assert forall|a: int, b: int, c: int|
            in_region(side as int, a, b, c) && bubble.covers(a, b, c) implies low <= a
            < high by {
            lemma_covered_near(bubble, a, b, c);
        }
    }
}

/// Squares of 33-bit numbers are not too large.
proof fn lemma_square_bound(d: int)
    requires
        -0x1_0000_0000 <= d <= 0x1_0000_0000,
    ensures
        0 <= d * d <= 0x1_0000_0000_0000_0000,
{
    assert(0 <= d * d <= 0x1_0000_0000 * 0x1_0000_0000) by (nonlinear_arith)
        requires
            -0x1_0000_0000 <= d <= 0x1_0000_0000,
    ;
}

/// What a cave covers is no farther off than its radius.
proof fn lemma_covered_near(bubble: Bubble, x: int, y: int, z: int)
    requires
        bubble.covers(x, y, z),
    ensures
        -bubble.radius <= x - bubble.x <= bubble.radius,
        -bubble.radius <= y - bubble.y <= bubble.radius,
        -bubble.radius <= z - bubble.z <= bubble.radius,
{
    let (dx, dy, dz) = (x - bubble.x, y - bubble.y, z - bubble.z);
    let r = bubble.radius as int;
    assert(-r <= dx <= r && -r <= dy <= r && -r <= dz <= r) by (nonlinear_arith)
        requires
            dx * dx + dy * dy + dz * dz <= r * r,
            r >= 0,
    ;
}

/// Clears what a cave covers of one layer of voxels.
fn carve_layer(props: &mut Vec<VoxelProps>, side: u32, bubble: Bubble, y: u32)
    requires
        old(props)@.len() == side * side * HEIGHT,
        y < HEIGHT,
        bubble.x < side,
        bubble.y < HEIGHT,
        bubble.z < side,
        bubble.radius < 16,
    ensures
        final(props)@.len() == old(props)@.len(),
        forall|a: int, b: int, c: int|
            in_region(side as int, a, b, c) ==> #[trigger] cell(final(props)@, side as int, a, b, c)
                == (if b == y && bubble.covers(a, b, c) {
                cleared(cell(old(props)@, side as int, a, b, c))
            } else {
                cell(old(props)@, side as int, a, b, c)
            }),
{
    let low: u32 = if bubble.z > bubble.radius {
        bubble.z - bubble.radius
    } else {
        0
    };
    let high: u32 = if bubble.radius < side - bubble.z {
        bubble.z + bubble.radius + 1
    } else {
        side
    };
    let ghost before = props@;
    for z in low..high
        invariant
            low <= high <= side,
            props@.len() == side * side * HEIGHT,
            y < HEIGHT,
            bubble.x < side,
            bubble.y < HEIGHT,
            bubble.z < side,
            bubble.radius < 16,
            forall|a: int, b: int, c: int|
                in_region(side as int, a, b, c) ==> #[trigger] cell(props@, side as int, a, b, c)
                    == (if low <= c < z && b == y && bubble.covers(a, b, c) {
                    cleared(cell(before, side as int, a, b, c))
                } else {
                    cell(before, side as int, a, b, c)
                }),
    {
        carve_row(props, side, bubble, y, z);
    }
    proof {
        assert forall|a: int, b: int, c: int|
            in_region(side as int, a, b, c) && bubble.covers(a, b, c) implies low <= c
            < high by {
            lemma_covered_near(bubble, a, b, c);
        }
    }
}

/// Clears what a cave covers.
fn carve(props: &mut Vec<VoxelProps>, side: u32, bubble: Bubble)
    requires
        old(props)@.len() == side * side * HEIGHT,
        bubble.x < side,
        bubble.y < HEIGHT,
        bubble.z < side,
        bubble.radius < 16,
    ensures
        final(props)@.len() == old(props)@.len(),
        forall|a: int, b: int, c: int|
            in_region(side as int, a, b, c) ==> #[trigger] cell(final(props)@, side as int, a, b, c)
                == (if bubble.covers(a, b, c) {
                cleared(cell(old(props)@, side as int, a, b, c))
            } else {
                cell(old(props)@, side as int, a, b, c)
            }),
{
    let low: u32 = if bubble.y > bubble.radius {
        bubble.y - bubble.radius
    } else {
        0
    };
    let high: u32 = if bubble.radius < HEIGHT - bubble.y {
        bubble.y + bubble.radius + 1
    } else {
        HEIGHT
    };
    let ghost before = props@;
    for y in low..high
        invariant
            low <= high <= HEIGHT,
            props@.len() == side * side * HEIGHT,
            bubble.x < side,
            bubble.y < HEIGHT,
            bubble.z < side,
            bubble.radius < 16,
            forall|a: int, b: int, c: int|
                in_region(side as int, a, b, c) ==> #[trigger] cell(props@, side as int, a, b, c)
                    == (if low <= b < y && bubble.covers(a, b, c) {
                    cleared(cell(before, side as int, a, b, c))
                } else {
                    cell(before, side as int, a, b, c)
                }),
    {
        carve_layer(props, side, bubble, y);
    }
    proof {
        assert forall|a: int, b: int, c: int|
            in_region(side as int, a, b, c) && bubble.covers(a, b, c) implies low <= b
            < high by {
            lemma_covered_near(bubble, a, b, c);
        }
    }
}

/// Stone up to the given heights.
fn fill_stone(side: u32, heights: &[u32]) -> (props: Vec<VoxelProps>)
    requires
        heights@.len() == side * side,
        side * side * HEIGHT <= usize::MAX,
    ensures
        props@.len() == side * side * HEIGHT,
        forall|a: int, b: int, c: int|
            in_region(side as int, a, b, c) ==> #[trigger] cell(props@, side as int, a, b, c) == (
            VoxelProps {
                opacity: if b <= heights@[c * side + a] {
                    STONE_OPACITY
                } else {
                    0
                },
                luminance: 0,
            }),
{
    let mut props: Vec<VoxelProps> = Vec::new();
    let area: usize = heights.len();
    for y in 0..HEIGHT
        invariant
            area == side * side,
            area == heights@.len(),
            area * HEIGHT <= usize::MAX,
            props@.len() == y * area,
            forall|i: int|
                0 <= i < props@.len() ==> #[trigger] props@[i] == (VoxelProps {
                    opacity: if i / area as int <= heights@[i % area as int] {
                        STONE_OPACITY
                    } else {
                        0
                    },
                    luminance: 0,
                }),
    {
        for column in 0..area
            invariant
                area == heights@.len(),
                y < HEIGHT,
                area * HEIGHT <= usize::MAX,
                props@.len() == y * area + column,
                forall|i: int|
                    0 <= i < props@.len() ==> #[trigger] props@[i] == (VoxelProps {
                        opacity: if i / area as int <= heights@[i % area as int] {
                            STONE_OPACITY
                        } else {
                            0
                        },
                        luminance: 0,
                    }),
        {
            let opacity: u8 = if y <= heights[column] {
                STONE_OPACITY
            } else {
                0
            };
            proof {
                lemma_fundamental_div_mod_converse(
                    y * area + column,
                    area as int,
                    y as int,
                    column as int,
                );
            }
            props.push(VoxelProps { opacity, luminance: 0 });
        }
        assert((y + 1) * area == y * area + area) by (nonlinear_arith);
    }
    assert(HEIGHT * area == side * side * HEIGHT) by (nonlinear_arith)
        requires
            area == side * side,
    ;
    assert forall|a: int, b: int, c: int| in_region(side as int, a, b, c) implies #[trigger] cell(
        props@,
        side as int,
        a,
        b,
        c,
    ) == (VoxelProps {
        opacity: if b <= heights@[c * side + a] {
            STONE_OPACITY
        } else {
            0
        },
        luminance: 0,
    }) by {
        lemma_region_index(side as int, a, b, c);
    }
    props
}

/// Puts a torch into a voxel.
fn place_torch(props: &mut Vec<VoxelProps>, side: u32, x: u32, y: u32, z: u32)
    requires
        in_region(side as int, x as int, y as int, z as int),
        old(props)@.len() == side * side * HEIGHT,
    ensures
        final(props)@.len() == old(props)@.len(),
        forall|a: int, b: int, c: int|
            in_region(side as int, a, b, c) ==> #[trigger] cell(final(props)@, side as int, a, b, c)
                == (if a == x && b == y && c == z {
                VoxelProps {
                    luminance: TORCH_LIGHT,
                    ..cell(old(props)@, side as int, a, b, c)
                }
            } else {
                cell(old(props)@, side as int, a, b, c)
            }),
{
    proof {
        lemma_region_index(side as int, x as int, y as int, z as int);
        assert(props.len() == props@.len());
    }
    let index: usize = index_of(side, x, y, z);
    let voxel = props[index];
    assert(voxel == cell(props@, side as int, x as int, y as int, z as int));
    set_cell(props, side, x, y, z, VoxelProps { opacity: voxel.opacity, luminance: TORCH_LIGHT });
}

/// The next cave of the sequence.
fn draw_bubble(rng: &mut Rng, side: u32, Ghost(k): Ghost<int>) -> (bubble: Bubble)
    requires
        side > 0,
        k >= 0,
        old(rng).state == state_after(SEED, (4 * k) as nat),
    ensures
        bubble == bubble_at(side, k),
        final(rng).state == state_after(SEED, (4 * k + 4) as nat),
        bubble.x < side,
        bubble.z < side,
        70 <= bubble.y < 120,
        3 <= bubble.radius < 7,
{
    proof {
        reveal_with_fuel(state_after, 5);
    }
    let x: u32 = rng.range(side);
    let z: u32 = rng.range(side);
    let y: u32 = 70 + rng.range(50);
    let radius: u32 = 3 + rng.range(4);
    Bubble { x, y, z, radius }
}

/// A region of so many chunks in either direction with the given surface, and how many torches
/// there are in it. All light in it is even, so flooding it reaches the steady state.
#[must_use]
pub fn build_region(chunks: u32, heights: &[u32]) -> (region: (LightVolume, usize))
    requires
        CAVES_PER_CHUNK * chunks * chunks <= u32::MAX,
        CHUNK_WIDTH * chunks * (CHUNK_WIDTH * chunks) * HEIGHT <= usize::MAX,
        heights@.len() == CHUNK_WIDTH * chunks * (CHUNK_WIDTH * chunks),
        forall|i: int| 0 <= i < heights@.len() ==> #[trigger] heights@[i] < HEIGHT - 1,
    ensures
        region.0.wf(),
        region.0.size_x == CHUNK_WIDTH * chunks,
        region.0.size_y == HEIGHT,
        region.0.size_z == CHUNK_WIDTH * chunks,
        region.0.light@ == Seq::new(region.0.light@.len(), |i: int| 0u8),
        region.1 == CAVES_PER_CHUNK * chunks * chunks + chunks * chunks,
        region.0.evenly_lit(TORCH_LIGHT as int, 1),
        forall|x: int, y: int, z: int|
            region.0.in_bounds(x, y, z) ==> {
                let index = #[trigger] region.0.spec_index(x, y, z);
                let caves = CAVES_PER_CHUNK * chunks * chunks;
                let voxel = region_cell(
                    heights@,
                    region.0.size_x,
                    caves,
                    caves,
                    chunks * chunks,
                    x,
                    y,
                    z,
                );
                region.0.opacity(index) == voxel.opacity && region.0.luminance(index)
                    == voxel.luminance
            },
{
    proof {
        let c = chunks as int;
        assert(c * c >= c) by (nonlinear_arith)
            requires
                c >= 0,
        ;
        assert(3 * c * c == 3 * (c * c)) by (nonlinear_arith);
        assert(c * c <= 0x5555_5555);
        assert(16 * c <= u32::MAX) by (nonlinear_arith)
            requires
                c * c <= 0x5555_5555,
                c >= 0,
        ;
    }
    let side: u32 = chunks * CHUNK_WIDTH;
    let mut props: Vec<VoxelProps> = fill_stone(side, heights);
    let mut rng = Rng { state: SEED };
    let columns: u32 = chunks * chunks;
    let caves: u32 = columns * CAVES_PER_CHUNK;
    let mut torches: usize = 0;
    for k in 0..caves
        invariant
            side == chunks * CHUNK_WIDTH,
            caves == CAVES_PER_CHUNK * chunks * chunks,
            side * side * HEIGHT <= usize::MAX,
            props@.len() == side * side * HEIGHT,
            rng.state == state_after(SEED, (4 * k) as nat),
            torches == k,
            forall|x: int, y: int, z: int|
                in_region(side as int, x, y, z) ==> #[trigger] cell(props@, side as int, x, y, z)
                    == region_cell(heights@, side, caves as int, k as int, 0, x, y, z),
    {
        assert(side > 0) by (nonlinear_arith)
            requires
                side == chunks * 16,
                0 < 3 * chunks * chunks,
        ;
        let ghost before = props@;
        let bubble = draw_bubble(&mut rng, side, Ghost(k as int));
        carve(&mut props, side, bubble);
        place_torch(&mut props, side, bubble.x, bubble.y, bubble.z);
        torches = torches + 1;
        proof {
            assert forall|x: int, y: int, z: int| in_region(side as int, x, y, z) implies #[trigger] cell(
                props@,
                side as int,
                x,
                y,
                z,
            ) == region_cell(heights@, side, caves as int, k + 1, 0, x, y, z) by {
                assert(cell(before, side as int, x, y, z) == region_cell(
                    heights@,
                    side,
                    caves as int,
                    k as int,
                    0,
                    x,
                    y,
                    z,
                ));
                lemma_next_cave(side, k as int, x, y, z);
            }
        }
    }
    proof {
        let (c, s) = (chunks as int, side as int);
        assert(4 * (c * c) <= s * s * 384) by (nonlinear_arith)
            requires
                s == c * 16,
                c >= 0,
        ;
        assert(3 * c * c + c * c == 4 * (c * c)) by (nonlinear_arith);
    }
    for k in 0..columns
        invariant
            side == chunks * CHUNK_WIDTH,
            columns == chunks * chunks,
            caves == CAVES_PER_CHUNK * chunks * chunks,
            heights@.len() == side * side,
            forall|i: int| 0 <= i < heights@.len() ==> #[trigger] heights@[i] < HEIGHT - 1,
            side * side * HEIGHT <= usize::MAX,
            props@.len() == side * side * HEIGHT,
            rng.state == state_after(SEED, (4 * caves + 2 * k) as nat),
            torches == caves + k,
            caves + columns <= usize::MAX,
            forall|x: int, y: int, z: int|
                in_region(side as int, x, y, z) ==> #[trigger] cell(props@, side as int, x, y, z)
                    == region_cell(heights@, side, caves as int, caves as int, k as int, x, y, z),
    {
        assert(side > 0) by (nonlinear_arith)
            requires
                side == chunks * 16,
                0 < chunks * chunks,
        ;
        let ghost before = props@;
        proof {
            reveal_with_fuel(state_after, 3);
        }
        let x: u32 = rng.range(side);
        let z: u32 = rng.range(side);
        proof {
            assert(0 <= z * side + x < side * side) by (nonlinear_arith)
                requires
                    x < side,
                    z < side,
            ;
            assert(torch_at(side, caves as int, k as int) == (x as int, z as int));
        }
        let y: u32 = heights[z as usize * side as usize + x as usize] + 1;
        place_torch(&mut props, side, x, y, z);
        torches = torches + 1;
        proof {
            assert forall|a: int, b: int, c: int| in_region(side as int, a, b, c) implies #[trigger] cell(
                props@,
                side as int,
                a,
                b,
                c,
            ) == region_cell(heights@, side, caves as int, caves as int, k + 1, a, b, c) by {
                assert(cell(before, side as int, a, b, c) == region_cell(
                    heights@,
                    side,
                    caves as int,
                    caves as int,
                    k as int,
                    a,
                    b,
                    c,
                ));
                lemma_next_torch(side, caves as int, k as int, (a, c));
            }
        }
    }
    assert(side * HEIGHT * side == side * side * HEIGHT) by (nonlinear_arith);
    let volume = LightVolume::new(side, HEIGHT, side, props.as_slice());
    proof {
        assert forall|x: int, y: int, z: int| volume.in_bounds(x, y, z) implies {
            let index = #[trigger] volume.spec_index(x, y, z);
            let voxel = region_cell(
                heights@,
                side,
                caves as int,
                caves as int,
                columns as int,
                x,
                y,
                z,
            );
            volume.opacity(index) == voxel.opacity && volume.luminance(index) == voxel.luminance
        } by {
            lemma_region_index(side as int, x, y, z);
            let index = volume.spec_index(x, y, z);
            assert(index == region_index(side as int, x, y, z));
            assert(volume.props@[index] < 256);
            assert(props@[index] == cell(props@, side as int, x, y, z));
        }
        assert forall|v: int| volume.is_voxel(v) implies {
            ||| #[trigger] volume.luminance(v) == 0 && (volume.falloff(v) == 1 || volume.falloff(v)
                >= TORCH_LIGHT)
            ||| volume.luminance(v) == TORCH_LIGHT
        } by {
            volume.law_coords_lead_to_index(v);
            let (x, y, z) = (volume.x_of(v), volume.y_of(v), volume.z_of(v));
            assert(volume.spec_index(x, y, z) == v);
        }
    }
    (volume, torches)
}

/// What one more cave adds.
proof fn lemma_next_cave(side: u32, k: int, x: int, y: int, z: int)
    requires
        k >= 0,
    ensures
        is_carved(side, k + 1, x, y, z) == (is_carved(side, k, x, y, z) || bubble_at(
            side,
            k,
        ).covers(x, y, z)),
        has_cave_torch(side, k + 1, x, y, z) == (has_cave_torch(side, k, x, y, z) || (bubble_at(
            side,
            k,
        ).x == x && bubble_at(side, k).y == y && bubble_at(side, k).z == z)),
{
    if is_carved(side, k, x, y, z) {
        let j = choose|j: int| 0 <= j < k && (#[trigger] bubble_at(side, j)).covers(x, y, z);
        assert(bubble_at(side, j).covers(x, y, z));
    }
    if has_cave_torch(side, k, x, y, z) {
        let j = choose|j: int|
            0 <= j < k && (#[trigger] bubble_at(side, j)).x == x && bubble_at(side, j).y == y
                && bubble_at(side, j).z == z;
        assert(bubble_at(side, j).x == x);
    }
}

/// What one more surface torch adds.
proof fn lemma_next_torch(side: u32, caves: int, k: int, place: (int, int))
    requires
        k >= 0,
    ensures
        (exists|j: int| 0 <= j < k + 1 && #[trigger] torch_at(side, caves, j) == place) == ((exists|
            j: int,
        |
            0 <= j < k && #[trigger] torch_at(side, caves, j) == place) || torch_at(side, caves, k)
            == place),
{
    if exists|j: int| 0 <= j < k && #[trigger] torch_at(side, caves, j) == place {
        let j = choose|j: int| 0 <= j < k && #[trigger] torch_at(side, caves, j) == place;
        assert(torch_at(side, caves, j) == place);
    }
}

/// The sequence never gets stuck: it stays away from zero, and no number comes after two others.
pub proof fn law_sequence_moves_on(a: u64, b: u64)
    ensures
        a != 0 ==> xorshift(a) != 0,
        xorshift(a) == xorshift(b) ==> a == b,
{
    lemma_left_shift_13(a, b);
    lemma_right_shift_7(a ^ (a << 13), b ^ (b << 13));
    let (c, d) = (a ^ (a << 13), b ^ (b << 13));
    lemma_left_shift_17(c ^ (c >> 7), d ^ (d >> 7));
    lemma_left_shift_13(a, 0);
    lemma_right_shift_7(c, 0);
    lemma_left_shift_17(c ^ (c >> 7), 0);
    assert(0u64 ^ (0u64 << 13u64) == 0) by (bit_vector);
    assert(0u64 ^ (0u64 >> 7u64) == 0) by (bit_vector);
    assert(0u64 ^ (0u64 << 17u64) == 0) by (bit_vector);
}

proof fn lemma_left_shift_13(a: u64, b: u64)
    by (bit_vector)
    ensures
        a ^ (a << 13u64) == b ^ (b << 13u64) ==> a == b,
{
}

proof fn lemma_right_shift_7(a: u64, b: u64)
    by (bit_vector)
    ensures
        a ^ (a >> 7u64) == b ^ (b >> 7u64) ==> a == b,
{
}

proof fn lemma_left_shift_17(a: u64, b: u64)
    by (bit_vector)
    ensures
        a ^ (a << 17u64) == b ^ (b << 17u64) ==> a == b,
{
}

/// Caves are within the region, between seventy and a hundred and twenty high, and of a radius from
/// three to six.
pub proof fn law_caves_are_in_the_region(side: u32, k: int)
    requires
        side > 0,
    ensures
        bubble_at(side, k).x < side,
        bubble_at(side, k).z < side,
        70 <= bubble_at(side, k).y < 120,
        3 <= bubble_at(side, k).radius <= 6,
{
}

/// A cave is all that is no farther from its center than its radius.
pub proof fn law_caves_are_round(bubble: Bubble, dx: int, dy: int, dz: int)
    ensures
        bubble.covers(bubble.x + dx, bubble.y + dy, bubble.z + dz) <==> dx * dx + dy * dy + dz * dz
            <= bubble.radius * bubble.radius,
        bubble.covers(bubble.x as int, bubble.y as int, bubble.z as int),
{
    assert(0 <= bubble.radius * bubble.radius) by (nonlinear_arith);
}

/// A region is stone up to its surface, except in caves, and nothing above it. Torches, and nothing
/// else, give light: in the center of every cave, and on the surface where one was placed.
pub proof fn law_regions(
    heights: Seq<u32>,
    side: u32,
    caves: int,
    torches: int,
    x: int,
    y: int,
    z: int,
)
    ensures
        ({
            let voxel = region_cell(heights, side, caves, caves, torches, x, y, z);
            let surface = heights[z * side + x];
            &&& voxel.opacity == 0 || voxel.opacity == 15
            &&& voxel.luminance == 0 || voxel.luminance == 14
            &&& y > surface ==> voxel.opacity == 0
            &&& y <= surface ==> (voxel.opacity == 0 <==> exists|k: int|
                0 <= k < caves && (#[trigger] bubble_at(side, k)).covers(x, y, z))
            &&& voxel.luminance == 14 <==> (exists|k: int|
                0 <= k < caves && (#[trigger] bubble_at(side, k)).x == x && bubble_at(side, k).y == y
                    && bubble_at(side, k).z == z) || (y == surface + 1 && exists|k: int|
                0 <= k < torches && #[trigger] torch_at(side, caves, k) == (x, z))
        }),
{
}

/// Where caves and torches are is read off the sequence without leaving a number out: four for each
/// cave, and after those two for each torch.
pub proof fn law_numbers_are_used_in_turn(side: u32, caves: int, k: int)
    ensures
        bubble_at(side, k).x == drawn(4 * k + 1, side) as u32,
        bubble_at(side, k).z == drawn(4 * k + 2, side) as u32,
        bubble_at(side, k).y == (70 + drawn(4 * k + 3, 50)) as u32,
        bubble_at(side, k).radius == (3 + drawn(4 * k + 4, 4)) as u32,
        torch_at(side, caves, k).0 == drawn(4 * caves + 2 * k + 1, side),
        torch_at(side, caves, k).1 == drawn(4 * caves + 2 * k + 2, side),
{
}

/// A step of the sequence can be taken back: a shift that was mixed in comes out again by mixing in
/// all its multiples.
pub proof fn law_steps_can_be_taken_back(state: u64)
    ensures
        ({
            let a = xorshift(state);
            let b = a ^ (a << 17) ^ (a << 34) ^ (a << 51);
            let c = b ^ (b >> 7) ^ (b >> 14) ^ (b >> 21) ^ (b >> 28) ^ (b >> 35) ^ (b >> 42) ^ (b
                >> 49) ^ (b >> 56) ^ (b >> 63);
            let d = c ^ (c << 13) ^ (c << 26) ^ (c << 39) ^ (c << 52);
            d == state
        }),
{
    let first = state ^ (state << 13);
    let second = first ^ (first >> 7);
    let a = xorshift(state);
    assert(a == second ^ (second << 17));
    assert(a ^ (a << 17u64) ^ (a << 34u64) ^ (a << 51u64) == second) by (bit_vector)
        requires
            a == second ^ (second << 17u64),
    ;
    assert(second ^ (second >> 7u64) ^ (second >> 14u64) ^ (second >> 21u64) ^ (second >> 28u64) ^ (
    second >> 35u64) ^ (second >> 42u64) ^ (second >> 49u64) ^ (second >> 56u64) ^ (second
        >> 63u64) == first) by (bit_vector)
        requires
            second == first ^ (first >> 7u64),
    ;
    assert(first ^ (first << 13u64) ^ (first << 26u64) ^ (first << 39u64) ^ (first << 52u64)
        == state) by (bit_vector)
        requires
            first == state ^ (state << 13u64),
    ;
}

/// The sequence starts at the seed and takes one step at a time; a number below a bound is what is
/// left of the number that a step gives.
pub proof fn law_sequence(state: u64, steps: nat, n: u32)
    requires
        n > 0,
    ensures
        SEED == 0x5eed_1234_abcd_0001,
        state_after(state, 0) == state,
        state_after(state, steps + 1) == xorshift(state_after(state, steps)),
        0 <= drawn(steps as int, n) < n,
        (state_after(SEED, steps) - drawn(steps as int, n)) % (n as int) == 0,
{
    let drawn_from = state_after(SEED, steps) as int;
    let bound = n as int;
    vstd::arithmetic::div_mod::lemma_fundamental_div_mod(drawn_from, bound);
    vstd::arithmetic::div_mod::lemma_mod_bound(drawn_from, bound);
    let quotient = drawn_from / bound;
    assert(drawn_from - drawn(steps as int, n) == quotient * bound + 0) by (nonlinear_arith)
        requires
            drawn_from == bound * quotient + drawn(steps as int, n),
    ;
    lemma_fundamental_div_mod_converse(drawn_from - drawn(steps as int, n), bound, quotient, 0);
}

/// Regions are made of chunks sixteen wide, three hundred and eighty-four high and with three caves
/// each.
pub proof fn law_measures()
    ensures
        HEIGHT == 384,
        CHUNK_WIDTH == 16,
        CAVES_PER_CHUNK == 3,
        TORCH_LIGHT == 14,
        STONE_OPACITY == 15,
{
}

} // verus!
