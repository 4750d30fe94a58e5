//! Dense-grid block-light propagation.

use vstd::arithmetic::div_mod::{
    lemma_div_denominator, lemma_fundamental_div_mod, lemma_fundamental_div_mod_converse,
};
use crate::lighting::flood::{
    lemma_unvisited_nonnegative, lemma_unvisited_update, unvisited, FloodState,
};
use crate::lighting::relaxation::{lemma_total_light_bound, lemma_total_light_update, total_light};
use std::collections::VecDeque;
use vstd::prelude::*;

verus! {

/// Per-voxel input properties for a light volume.
#[derive(Clone, Copy)]
pub struct VoxelProps {
    /// Levels absorbed when light enters this voxel (0..=15).
    pub opacity: u8,
    /// Light emitted by this voxel (0..=15).
    pub luminance: u8,
}

impl Default for VoxelProps {
    /// A transparent voxel that emits nothing.
    fn default() -> (props: Self)
        ensures
            props.opacity == 0,
            props.luminance == 0,
    {
        VoxelProps { opacity: 0, luminance: 0 }
    }
}

/// A dense cuboid of voxels carrying block-light state.
pub struct LightVolume {
    pub size_x: u32,
    pub size_y: u32,
    pub size_z: u32,
    /// One entry per voxel: bits 0..4 opacity, bits 4..8 luminance.
    pub props: Vec<u32>,
    /// Resulting light levels, one per voxel.
    pub light: Vec<u8>,
}

/// The six block directions as `(dx, dy, dz)`: down, up, north, south, west, east.
pub open spec fn direction_offset(dir: int) -> (int, int, int) {
    if dir == 0 {
        (0, -1, 0)
    } else if dir == 1 {
        (0, 1, 0)
    } else if dir == 2 {
        (0, 0, -1)
    } else if dir == 3 {
        (0, 0, 1)
    } else if dir == 4 {
        (-1, 0, 0)
    } else {
        (1, 0, 0)
    }
}

/// The direction that points back: directions come in pairs `2k`, `2k + 1`.
pub open spec fn opposite(dir: int) -> int {
    if dir % 2 == 0 {
        dir + 1
    } else {
        dir - 1
    }
}

/// The larger of two integers.
pub open spec fn int_max(a: int, b: int) -> int {
    if a >= b {
        a
    } else {
        b
    }
}

/// The smaller of two integers.
pub open spec fn int_min(a: int, b: int) -> int {
    if a <= b {
        a
    } else {
        b
    }
}

impl LightVolume {
    /// Number of voxels of the cuboid.
    pub open spec fn spec_count(self) -> int {
        self.size_x * self.size_y * self.size_z
    }

    /// Every voxel has exactly one property word and one light level.
    pub open spec fn wf(self) -> bool {
        &&& self.props@.len() == self.spec_count()
        &&& self.light@.len() == self.spec_count()
        &&& self.spec_count() <= usize::MAX
    }

    /// `idx` names a voxel.
    pub open spec fn is_voxel(self, idx: int) -> bool {
        0 <= idx < self.spec_count()
    }

    /// `(x, y, z)` lies inside the cuboid.
    pub open spec fn in_bounds(self, x: int, y: int, z: int) -> bool {
        &&& 0 <= x < self.size_x
        &&& 0 <= y < self.size_y
        &&& 0 <= z < self.size_z
    }

    /// Position of voxel `(x, y, z)` in the flat arrays: x runs fastest, then z, then y.
    pub open spec fn spec_index(self, x: int, y: int, z: int) -> int {
        (y * self.size_z + z) * self.size_x + x
    }

    pub open spec fn x_of(self, idx: int) -> int {
        idx % (self.size_x as int)
    }

    pub open spec fn y_of(self, idx: int) -> int {
        idx / (self.size_x * self.size_z)
    }

    pub open spec fn z_of(self, idx: int) -> int {
        idx / (self.size_x as int) % (self.size_z as int)
    }

    /// The voxel next to `idx` in direction `dir`, if the cuboid has one.
    #[verifier::opaque]
    pub open spec fn spec_neighbor(self, idx: int, dir: int) -> Option<int> {
        let (dx, dy, dz) = direction_offset(dir);
        let (x, y, z) = (self.x_of(idx) + dx, self.y_of(idx) + dy, self.z_of(idx) + dz);
        if self.in_bounds(x, y, z) {
            Some(self.spec_index(x, y, z))
        } else {
            None
        }
    }

    /// Levels that voxel `idx` absorbs.
    pub open spec fn opacity(self, idx: int) -> int {
        self.props@[idx] as int % 16
    }

    /// Level that voxel `idx` emits.
    pub open spec fn luminance(self, idx: int) -> int {
        self.props@[idx] as int / 16 % 16
    }

    /// Levels lost when light enters voxel `idx`: its opacity, and at least one.
    pub open spec fn falloff(self, idx: int) -> int {
        int_max(self.opacity(idx), 1)
    }

    /// The index of coordinates in bounds is that of a voxel, and leads back to the coordinates.
    pub proof fn law_index_leads_to_coords(self, x: int, y: int, z: int)
        requires
            self.in_bounds(x, y, z),
        ensures
            self.is_voxel(self.spec_index(x, y, z)),
            self.x_of(self.spec_index(x, y, z)) == x,
            self.y_of(self.spec_index(x, y, z)) == y,
            self.z_of(self.spec_index(x, y, z)) == z,
    {
        let sx = self.size_x as int;
        let sy = self.size_y as int;
        let sz = self.size_z as int;
        let row = y * sz + z;
        let idx = row * sx + x;
        assert(0 <= row < sy * sz) by (nonlinear_arith)
            requires
                0 <= y < sy,
                0 <= z < sz,
                row == y * sz + z,
        ;
        assert(0 <= idx < sy * sz * sx) by (nonlinear_arith)
            requires
                0 <= row < sy * sz,
                0 <= x < sx,
                idx == row * sx + x,
        ;
        assert(sy * sz * sx == sx * sy * sz) by (nonlinear_arith);
        lemma_fundamental_div_mod_converse(idx, sx, row, x);
        lemma_fundamental_div_mod_converse(row, sz, y, z);
        lemma_div_denominator(idx, sx, sz);
    }

    /// The coordinates of a voxel are in bounds, and lead back to its index.
    pub proof fn law_coords_lead_to_index(self, idx: int)
        requires
            self.is_voxel(idx),
        ensures
            self.in_bounds(self.x_of(idx), self.y_of(idx), self.z_of(idx)),
            self.spec_index(self.x_of(idx), self.y_of(idx), self.z_of(idx)) == idx,
    {
        let sx = self.size_x as int;
        let sy = self.size_y as int;
        let sz = self.size_z as int;
        assert(sx > 0 && sy > 0 && sz > 0) by (nonlinear_arith)
            requires
                0 <= idx < sx * sy * sz,
                sx >= 0,
                sy >= 0,
                sz >= 0,
        ;
        let row = idx / sx;
        lemma_fundamental_div_mod(idx, sx);
        lemma_fundamental_div_mod(row, sz);
        lemma_div_denominator(idx, sx, sz);
        let x = idx % sx;
        let y = row / sz;
        let z = row % sz;
        assert(y >= 0) by (nonlinear_arith)
            requires
                row == sz * y + z,
                0 <= z < sz,
                idx == sx * row + x,
                0 <= x < sx,
                idx >= 0,
        ;
        assert(y < sy) by (nonlinear_arith)
            requires
                row == sz * y + z,
                0 <= z < sz,
                idx == sx * row + x,
                0 <= x < sx,
                idx < sx * sy * sz,
        ;
        assert(row == y * sz + z) by (nonlinear_arith)
            requires
                row == sz * y + z,
        ;
        assert(row * sx == sx * row) by (nonlinear_arith);
    }

    /// A voxel has a neighbour in a direction unless the step leaves the cuboid. The neighbour is
    /// another voxel, one step away along exactly one axis, and the step back leads home.
    pub proof fn law_neighbor(self, idx: int, dir: int)
        requires
            self.is_voxel(idx),
            0 <= dir < 6,
        ensures
            ({
                let (dx, dy, dz) = direction_offset(dir);
                let (x, y, z) = (self.x_of(idx), self.y_of(idx), self.z_of(idx));
                match self.spec_neighbor(idx, dir) {
                    Some(n) => {
                        &&& self.is_voxel(n)
                        &&& n != idx
                        &&& self.spec_neighbor(n, opposite(dir)) == Some(idx)
                        &&& (self.x_of(n), self.y_of(n), self.z_of(n)) == (x + dx, y + dy, z + dz)
                        &&& int_max(dx, -dx) + int_max(dy, -dy) + int_max(dz, -dz) == 1
                    },
                    None => !self.in_bounds(x + dx, y + dy, z + dz),
                }
            }),
    {
        reveal(LightVolume::spec_neighbor);
        self.law_coords_lead_to_index(idx);
        let (dx, dy, dz) = direction_offset(dir);
        let (x, y, z) = (self.x_of(idx) + dx, self.y_of(idx) + dy, self.z_of(idx) + dz);
        if self.in_bounds(x, y, z) {
            self.law_index_leads_to_coords(x, y, z);
        }
    }

    /// Creates an unlit volume of the given dimensions.
    #[must_use]
    pub fn new(size_x: u32, size_y: u32, size_z: u32, props: &[VoxelProps]) -> (volume: Self)
        requires
            props@.len() == size_x * size_y * size_z,
        ensures
            volume.wf(),
            volume.size_x == size_x,
            volume.size_y == size_y,
            volume.size_z == size_z,
            forall|i: int|
                0 <= i < props@.len() ==> {
                    &&& (#[trigger] volume.props@[i]) < 256
                    &&& volume.opacity(i) == int_min(props@[i].opacity as int, 15)
                    &&& volume.luminance(i) == int_min(props@[i].luminance as int, 15)
                },
            volume.light@ == Seq::new(props@.len(), |i: int| 0u8),
    {
        let total: usize = props.len();
        let mut packed: Vec<u32> = Vec::new();
        let mut light: Vec<u8> = Vec::new();
        for i in 0..total
            invariant
                total == props@.len(),
                packed@.len() == i,
                light@.len() == i,
                forall|j: int|
                    0 <= j < i ==> {
                        &&& (#[trigger] packed@[j]) < 256
                        &&& packed@[j] as int % 16 == int_min(props@[j].opacity as int, 15)
                        &&& packed@[j] as int / 16 % 16 == int_min(
                            props@[j].luminance as int,
                            15,
                        )
                    },
                forall|j: int| 0 <= j < i ==> light@[j] == 0,
        {
            let p = props[i];
            let opacity: u32 = if p.opacity <= 15 {
                p.opacity as u32
            } else {
                15
            };
            let luminance: u32 = if p.luminance <= 15 {
                p.luminance as u32
            } else {
                15
            };
            let word: u32 = opacity | (luminance << 4);
            assert(word < 256 && word % 16 == opacity && word / 16 % 16 == luminance)
                by (bit_vector)
                requires
                    word == opacity | (luminance << 4),
                    opacity <= 15,
                    luminance <= 15,
            ;
            packed.push(word);
            light.push(0);
        }
        let volume = LightVolume { size_x, size_y, size_z, props: packed, light };
        volume
    }

    /// The number of voxels of the volume.
    #[must_use]
    pub fn voxel_count(&self) -> (count: usize)
        requires
            self.spec_count() <= usize::MAX,
        ensures
            count == self.spec_count(),
    {
        proof {
            let (sx, sy, sz) = (self.size_x as int, self.size_y as int, self.size_z as int);
            assert(0 <= sx * sy <= 0xffff_ffff * 0xffff_ffff) by (nonlinear_arith)
                requires
                    0 <= sx <= 0xffff_ffff,
                    0 <= sy <= 0xffff_ffff,
            ;
            assert(0 <= sx * sy * sz <= 0xffff_ffff * 0xffff_ffff * 0xffff_ffff)
                by (nonlinear_arith)
                requires
                    0 <= sx * sy <= 0xffff_ffff * 0xffff_ffff,
                    0 <= sz <= 0xffff_ffff,
            ;
        }
        let area: u128 = (self.size_x as u128) * (self.size_y as u128);
        let count: u128 = area * (self.size_z as u128);
        count as usize
    }

    /// Position of a voxel in the flat arrays.
    #[must_use]
    pub fn index(&self, x: u32, y: u32, z: u32) -> (idx: usize)
        requires
            self.in_bounds(x as int, y as int, z as int),
            self.spec_count() <= usize::MAX,
        ensures
            idx == self.spec_index(x as int, y as int, z as int),
            idx < self.spec_count(),
    {
        proof {
            self.law_index_leads_to_coords(x as int, y as int, z as int);
            let (sx, sz) = (self.size_x as int, self.size_z as int);
            let row = y as int * sz + z as int;
            assert(0 <= y as int * sz <= row && row <= row * sx <= row * sx + x)
                by (nonlinear_arith)
                requires
                    row == y as int * sz + z as int,
                    sx > 0,
                    sz > 0,
            ;
        }
        ((y as usize) * (self.size_z as usize) + (z as usize)) * (self.size_x as usize)
            + (x as usize)
    }

    /// Coordinates of a voxel.
    #[must_use]
    pub fn coords(&self, idx: usize) -> (c: (u32, u32, u32))
        requires
            self.is_voxel(idx as int),
            self.spec_count() <= usize::MAX,
        ensures
            c.0 == self.x_of(idx as int),
            c.1 == self.y_of(idx as int),
            c.2 == self.z_of(idx as int),
    {
        proof {
            self.law_coords_lead_to_index(idx as int);
            let (sx, sy, sz) = (self.size_x as int, self.size_y as int, self.size_z as int);
            assert(0 < sx * sz && sx * sz <= sx * sy * sz) by (nonlinear_arith)
                requires
                    sx > 0,
                    sy > 0,
                    sz > 0,
            ;
        }
        let sx: usize = self.size_x as usize;
        let sz: usize = self.size_z as usize;
        ((idx % sx) as u32, (idx / (sx * sz)) as u32, (idx / sx % sz) as u32)
    }

    /// Levels that a voxel absorbs.
    #[must_use]
    pub fn opacity_at(&self, idx: usize) -> (level: u8)
        requires
            idx < self.props@.len(),
        ensures
            level == self.opacity(idx as int),
            level <= 15,
    {
        let word: u32 = self.props[idx];
        assert(word & 15 == word % 16 && word & 15 <= 15) by (bit_vector);
        (word & 15) as u8
    }

    /// Level that a voxel emits.
    #[must_use]
    pub fn luminance_at(&self, idx: usize) -> (level: u8)
        requires
            idx < self.props@.len(),
        ensures
            level == self.luminance(idx as int),
            level <= 15,
    {
        let word: u32 = self.props[idx];
        assert((word >> 4) & 15 == word / 16 % 16 && (word >> 4) & 15 <= 15) by (bit_vector);
        ((word >> 4) & 15) as u8
    }

    /// The voxel next to another one, if the cuboid has one.
    #[must_use]
    pub fn neighbor(&self, idx: usize, dir: usize) -> (n: Option<usize>)
        requires
            self.is_voxel(idx as int),
            self.spec_count() <= usize::MAX,
            dir < 6,
        ensures
            match self.spec_neighbor(idx as int, dir as int) {
                Some(i) => n == Some(i as usize) && 0 <= i < self.spec_count(),
                None => n is None,
            },
    {
        proof {
            reveal(LightVolume::spec_neighbor);
            self.law_coords_lead_to_index(idx as int);
        }
        let (x, y, z) = self.coords(idx);
        if dir == 0 {
            if y > 0 {
                Some(self.index(x, y - 1, z))
            } else {
                None
            }
        } else if dir == 1 {
            if y + 1 < self.size_y {
                Some(self.index(x, y + 1, z))
            } else {
                None
            }
        } else if dir == 2 {
            if z > 0 {
                Some(self.index(x, y, z - 1))
            } else {
                None
            }
        } else if dir == 3 {
            if z + 1 < self.size_z {
                Some(self.index(x, y, z + 1))
            } else {
                None
            }
        } else if dir == 4 {
            if x > 0 {
                Some(self.index(x - 1, y, z))
            } else {
                None
            }
        } else {
            if x + 1 < self.size_x {
                Some(self.index(x + 1, y, z))
            } else {
                None
            }
        }
    }

    /// Clears all computed light back to zero.
    pub fn reset_light(&mut self)
        ensures
            final(self).size_x == old(self).size_x,
            final(self).size_y == old(self).size_y,
            final(self).size_z == old(self).size_z,
            final(self).props == old(self).props,
            final(self).light@ == Seq::new(old(self).light@.len(), |i: int| 0u8),
    {
        let len: usize = self.light.len();
        for i in 0..len
            invariant
                len == self.light@.len() == old(self).light@.len(),
                self.size_x == old(self).size_x,
                self.size_y == old(self).size_y,
                self.size_z == old(self).size_z,
                self.props == old(self).props,
                forall|j: int| 0 <= j < i ==> self.light@[j] == 0,
        {
            self.light[i] = 0;
        }
    }

    /// Voxel `idx`, glowing at `glow`, hands light on in every direction but `skip`.
    fn hand_on(
        &mut self,
        visited: &mut Vec<bool>,
        queue: &mut VecDeque<(usize, u8)>,
        idx: usize,
        skip: u8,
        glow: u8,
    )
        requires
            old(self).wf(),
            old(self).is_voxel(idx as int),
            old(self).flood_ok(
                FloodState { light: old(self).light@, visited: old(visited)@, queue: old(queue)@ },
            ),
        ensures
            final(self).wf(),
            final(self).same_world(*old(self)),
            (FloodState {
                light: final(self).light@,
                visited: final(visited)@,
                queue: final(queue)@,
            }) == old(self).offers(
                FloodState { light: old(self).light@, visited: old(visited)@, queue: old(queue)@ },
                idx as int,
                skip as int,
                glow as int,
                6,
            ),
            final(self).flood_ok(
                FloodState {
                    light: final(self).light@,
                    visited: final(visited)@,
                    queue: final(queue)@,
                },
            ),
            2 * unvisited(final(visited)@) + final(queue)@.len() <= 2 * unvisited(old(visited)@)
                + old(queue)@.len(),
    {
        let ghost world = *self;
        let ghost st = FloodState { light: self.light@, visited: visited@, queue: queue@ };
        let ghost measure = 2 * unvisited(visited@) + queue@.len();
        for dir in 0..6usize
            invariant
                self.wf(),
                self.same_world(world),
                world.is_voxel(idx as int),
                (FloodState { light: self.light@, visited: visited@, queue: queue@ })
                    =~= world.offers(st, idx as int, skip as int, glow as int, dir as nat),
                self.flood_ok(
                    FloodState { light: self.light@, visited: visited@, queue: queue@ },
                ),
                2 * unvisited(visited@) + queue@.len() <= measure,
        {
            let ghost now = FloodState { light: self.light@, visited: visited@, queue: queue@ };
            proof {
                self.lemma_same_world(world);
            }
            if dir != skip as usize {
                if let Some(n) = self.neighbor(idx, dir) {
                    if !visited[n] {
                        let opacity: u8 = self.opacity_at(n);
                        let new_level: u8 = glow.saturating_sub(
                            if opacity > 1 {
                                opacity
                            } else {
                                1
                            },
                        );
                        if new_level > self.light[n] {
                            self.light[n] = new_level;
                            if new_level > 1 {
                                proof {
                                    lemma_unvisited_update(visited@, n as int);
                                }
                                visited[n] = true;
                                assert((dir ^ 1) < 6 && (dir ^ 1) as int == (if dir % 2 == 0 {
                                    dir + 1
                                } else {
                                    dir - 1
                                })) by (bit_vector)
                                    requires
                                        dir < 6,
                                ;
                                queue.push_back((n, (dir ^ 1) as u8));
                            }
                        }
                    }
                }
            }
            proof {
                assert((FloodState { light: self.light@, visited: visited@, queue: queue@ })
                    =~= world.offer(now, idx as int, skip as int, glow as int, dir as int));
            }
        }
    }

    /// Breadth-first block-light propagation, starting from the light that the volume holds.
    pub fn propagate_cpu(&mut self)
        requires
            old(self).wf(),
        ensures
            final(self).wf(),
            final(self).same_world(*old(self)),
            final(self).light@ == old(self).flooded(old(self).light@),
    {
        let total: usize = self.voxel_count();
        let ghost world = *self;
        let ghost start = world.seeded(world.light@, total as nat);
        let mut visited: Vec<bool> = Vec::new();
        for i in 0..total
            invariant
                visited@ == Seq::new(i as nat, |j: int| false),
        {
            visited.push(false);
        }
        let mut queue: VecDeque<(usize, u8)> = VecDeque::with_capacity(4096);
        for idx in 0..total
            invariant
                self.wf(),
                world.wf(),
                self.same_world(world),
                total == world.spec_count(),
                (FloodState { light: self.light@, visited: visited@, queue: queue@ })
                    =~= world.seeded(world.light@, idx as nat),
                world.flood_ok(world.seeded(world.light@, idx as nat)),
        {
            let emission: u8 = self.luminance_at(idx);
            if emission > 0 {
                if emission > self.light[idx] {
                    self.light[idx] = emission;
                }
                visited[idx] = true;
                // 6 means nothing to skip.
                queue.push_back((idx, 6));
            }
        }
        let ghost mut n: nat = 0;
        while queue.len() > 0
            invariant
                self.wf(),
                world.wf(),
                self.same_world(world),
                total == world.spec_count(),
                start == world.seeded(world.light@, total as nat),
                (FloodState { light: self.light@, visited: visited@, queue: queue@ })
                    =~= world.flood_steps(start, n),
                world.flood_ok(world.flood_steps(start, n)),
            decreases 2 * unvisited(visited@) + queue@.len(),
        {
            let ghost before = world.flood_steps(start, n);
            let ghost waiting = queue@;
            if let Some((idx, skip)) = queue.pop_front() {
                let current_light: u8 = self.light[idx];
                let ghost rest = FloodState { queue: before.queue.drop_first(), ..before };
                proof {
                    assert(before.queue[0] == (idx, skip));
                    assert(queue@ =~= before.queue.drop_first());
                    assert forall|j: int| 0 <= j < rest.queue.len() implies (
                    #[trigger] rest.queue[j]).0 < world.spec_count() by {
                        assert(rest.queue[j] == before.queue[j + 1]);
                    }
                }
                if current_light > 1 {
                    let ghost here = *self;
                    self.hand_on(&mut visited, &mut queue, idx, skip, current_light);
                    proof {
                        here.lemma_same_world_offers(
                            world,
                            rest,
                            idx as int,
                            skip as int,
                            current_light as int,
                            6,
                        );
                        assert(world.flood_step(before) == world.offers(
                            rest,
                            idx as int,
                            skip as int,
                            current_light as int,
                            6,
                        ));
                    }
                }
                proof {
                    n = n + 1;
                    assert(world.flood_steps(start, n) == world.flood_step(before));
                }
            }
            proof {
                lemma_unvisited_nonnegative(visited@);
            }
        }
        proof {
            world.lemma_flooded_at_rest(world.light@, n);
        }
    }

    /// The brightest level that the neighbours of `idx` hand on to it, and at least `own`.
    fn brightest_inflow(&self, idx: usize, own: u8) -> (best: u8)
        requires
            self.wf(),
            self.is_voxel(idx as int),
        ensures
            best == int_max(own as int, self.best_inflow(self.light@, idx as int, 6)),
    {
        let opacity: u8 = self.opacity_at(idx);
        let falloff: u8 = if opacity > 1 {
            opacity
        } else {
            1
        };
        let mut best: u8 = own;
        for dir in 0..6usize
            invariant
                self.wf(),
                self.is_voxel(idx as int),
                falloff == self.falloff(idx as int),
                best == int_max(own as int, self.best_inflow(self.light@, idx as int, dir as int)),
        {
            proof {
                self.lemma_inflow_nonnegative(self.light@, idx as int, dir as int);
            }
            if let Some(n) = self.neighbor(idx, dir) {
                let level: u8 = self.light[n].saturating_sub(falloff);
                if level > best {
                    best = level;
                }
            }
        }
        best
    }

    /// Ground truth: relax to the fixed point
    /// `light[v] = max(luminance[v], max_n(light[n]) - max(opacity[v], 1))`.
    /// Slow, but order-independent, so it validates the other ways to propagate light.
    pub fn propagate_reference(&mut self)
        requires
            old(self).wf(),
        ensures
            final(self).wf(),
            final(self).same_world(*old(self)),
            final(self).is_fixed_point(final(self).light@),
    {
        let total: usize = self.voxel_count();
        for idx in 0..total
            invariant
                self.wf(),
                total == self.spec_count(),
                self.same_world(*old(self)),
                forall|v: int| 0 <= v < idx ==> #[trigger] self.light@[v] == self.luminance(v),
        {
            let level: u8 = self.luminance_at(idx);
            self.light[idx] = level;
        }
        proof {
            assert forall|v: int| self.is_voxel(v) implies #[trigger] self.light@[v]
                <= self.relaxed(self.light@, v) by {}
        }
        let mut changed: bool = true;
        while changed
            invariant
                self.wf(),
                total == self.spec_count(),
                self.same_world(*old(self)),
                forall|v: int|
                    self.is_voxel(v) ==> self.luminance(v) <= #[trigger] self.light@[v]
                        <= self.relaxed(self.light@, v),
                !changed ==> self.is_fixed_point(self.light@),
            decreases 255 * total - total_light(self.light@) + if changed {
                1int
            } else {
                0int
            },
        {
            let ghost before = total_light(self.light@);
            changed = false;
            for idx in 0..total
                invariant
                    self.wf(),
                    total == self.spec_count(),
                    self.same_world(*old(self)),
                    forall|v: int|
                        self.is_voxel(v) ==> self.luminance(v) <= #[trigger] self.light@[v]
                            <= self.relaxed(self.light@, v),
                    total_light(self.light@) >= before,
                    changed ==> total_light(self.light@) > before,
                    !changed ==> forall|v: int|
                        0 <= v < idx ==> #[trigger] self.light@[v] == self.relaxed(self.light@, v),
            {
                let own: u8 = self.light[idx];
                let best: u8 = self.brightest_inflow(idx, own);
                if best > own {
                    let ghost dim = self.light@;
                    let ghost world = *self;
                    self.light[idx] = best;
                    changed = true;
                    proof {
                        lemma_total_light_update(dim, idx as int, best);
                        assert(self.light@ == dim.update(idx as int, best));
                        self.lemma_same_world(world);
                        assert forall|v: int| self.is_voxel(v) implies self.luminance(v)
                            <= #[trigger] self.light@[v] <= self.relaxed(self.light@, v) by {
                            assert(dim[v] <= world.relaxed(dim, v));
                            self.lemma_relaxed_monotone(dim, self.light@, v);
                        }
                    }
                } else {
                    proof {
                        assert(self.luminance(idx as int) <= self.light@[idx as int]
                            <= self.relaxed(self.light@, idx as int));
                    }
                }
            }
            proof {
                lemma_total_light_bound(self.light@);
            }
        }
    }
}

impl LightVolume {
    /// Voxels are kept row by row: the next one in `x` comes next, the next one in `z` a row later,
    /// and the next one in `y` a layer later.
    pub proof fn law_layout(self, x: int, y: int, z: int)
        ensures
            self.spec_index(0, 0, 0) == 0,
            self.spec_index(x + 1, y, z) == self.spec_index(x, y, z) + 1,
            self.spec_index(x, y, z + 1) == self.spec_index(x, y, z) + self.size_x,
            self.spec_index(x, y + 1, z) == self.spec_index(x, y, z) + self.size_x * self.size_z,
    {
        let (sx, sz) = (self.size_x as int, self.size_z as int);
        assert((0 * sz + 0) * sx + 0 == 0) by (nonlinear_arith);
        assert((y * sz + z + 1) * sx == (y * sz + z) * sx + sx) by (nonlinear_arith);
        assert(((y + 1) * sz + z) * sx == (y * sz + z) * sx + sx * sz) by (nonlinear_arith);
    }

    /// The low four bits of a voxel's word are its opacity, the next four its luminance.
    pub proof fn law_words_hold_levels(self, idx: int)
        requires
            0 <= idx < self.props@.len(),
        ensures
            self.opacity(idx) == self.props@[idx] & 15,
            self.luminance(idx) == (self.props@[idx] >> 4) & 15,
            self.falloff(idx) >= 1,
            self.falloff(idx) >= self.opacity(idx),
            self.falloff(idx) == self.opacity(idx) || self.falloff(idx) == 1,
    {
        let word = self.props@[idx];
        assert(word & 15 == word % 16) by (bit_vector);
        assert((word >> 4) & 15 == word / 16 % 16) by (bit_vector);
    }
}

/// Directions are down, up, north, south, west and east in this order, `y` growing upwards, `z`
/// southwards and `x` eastwards, and opposite ones undo each other.
pub proof fn law_directions(dir: int)
    requires
        0 <= dir < 6,
    ensures
        direction_offset(0) == (0int, -1int, 0int),
        direction_offset(1) == (0int, 1int, 0int),
        direction_offset(2) == (0int, 0int, -1int),
        direction_offset(3) == (0int, 0int, 1int),
        direction_offset(4) == (-1int, 0int, 0int),
        direction_offset(5) == (1int, 0int, 0int),
        0 <= opposite(dir) < 6,
        opposite(opposite(dir)) == dir,
        direction_offset(opposite(dir)) == (
            -direction_offset(dir).0,
            -direction_offset(dir).1,
            -direction_offset(dir).2,
        ),
{
}

/// The larger of two is one of them and no less than either, and the smaller no more.
pub proof fn law_larger_and_smaller(a: int, b: int)
    ensures
        int_max(a, b) >= a,
        int_max(a, b) >= b,
        int_max(a, b) == a || int_max(a, b) == b,
        int_min(a, b) <= a,
        int_min(a, b) <= b,
        int_min(a, b) == a || int_min(a, b) == b,
{
}

} // verus!
