//! The steady state of block light.
//!
//! A level is steady when every voxel holds the larger of what it emits and what its brightest
//! neighbour hands on. Falloff is at least one everywhere, so there is exactly one steady state,
//! and relaxing every voxel at once reaches it within [`PASSES`] rounds from any starting light.

use crate::lighting::volume::{int_max, LightVolume};
use vstd::prelude::*;

verus! {

/// Block light never exceeds this level.
pub const MAX_LEVEL: u8 = 15;

/// Rounds of simultaneous relaxation after which no level changes any more.
pub const PASSES: u32 = 15;

impl LightVolume {
    /// The brightest level that the first `k` directions hand on to voxel `idx`.
    pub open spec fn best_inflow(self, light: Seq<u8>, idx: int, k: int) -> int
        decreases k,
    {
        if k <= 0 {
            0
        } else {
            let before = self.best_inflow(light, idx, k - 1);
            match self.spec_neighbor(idx, k - 1) {
                Some(n) => int_max(before, light[n] - self.falloff(idx)),
                None => before,
            }
        }
    }

    /// What voxel `idx` should hold while its neighbours hold `light`:
    /// `max(luminance, max_n(light[n]) - max(opacity, 1))`.
    pub open spec fn relaxed(self, light: Seq<u8>, idx: int) -> int {
        int_max(self.luminance(idx), self.best_inflow(light, idx, 6))
    }

    /// Every voxel holds exactly its relaxed level.
    pub open spec fn is_fixed_point(self, light: Seq<u8>) -> bool {
        &&& light.len() == self.spec_count()
        &&& forall|v: int| self.is_voxel(v) ==> #[trigger] light[v] == self.relaxed(light, v)
    }

    /// No voxel is brighter than block light can be.
    pub open spec fn in_range(self, light: Seq<u8>) -> bool {
        &&& light.len() == self.spec_count()
        &&& forall|v: int| self.is_voxel(v) ==> #[trigger] light[v] <= MAX_LEVEL
    }

    /// One round of relaxation of all voxels at once.
    pub open spec fn wave(self, light: Seq<u8>) -> Seq<u8> {
        Seq::new(self.spec_count() as nat, |v: int| self.relaxed(light, v) as u8)
    }

    /// `k` rounds of relaxation.
    pub open spec fn waves(self, light: Seq<u8>, k: nat) -> Seq<u8>
        decreases k,
    {
        if k == 0 {
            light
        } else {
            self.wave(self.waves(light, (k - 1) as nat))
        }
    }

    /// Same cuboid and same voxel properties; only the light may differ.
    pub open spec fn same_world(self, other: Self) -> bool {
        &&& self.size_x == other.size_x
        &&& self.size_y == other.size_y
        &&& self.size_z == other.size_z
        &&& self.props == other.props
    }

    proof fn lemma_same_world_inflow(self, other: Self, light: Seq<u8>, idx: int, k: int)
        requires
            self.same_world(other),
        ensures
            self.best_inflow(light, idx, k) == other.best_inflow(light, idx, k),
        decreases k,
    {
        if k > 0 {
            reveal(LightVolume::spec_neighbor);
            self.lemma_same_world_inflow(other, light, idx, k - 1);
        }
    }

    /// Where light goes does not depend on the light that a volume holds.
    pub proof fn lemma_same_world(self, other: Self)
        requires
            self.same_world(other),
        ensures
            forall|idx: int, dir: int| #[trigger]
                self.spec_neighbor(idx, dir) == other.spec_neighbor(idx, dir),
            forall|light: Seq<u8>, idx: int| #[trigger]
                self.relaxed(light, idx) == other.relaxed(light, idx),
            forall|light: Seq<u8>| #[trigger]
                self.is_fixed_point(light) == other.is_fixed_point(light),
    {
        reveal(LightVolume::spec_neighbor);
        assert forall|light: Seq<u8>, idx: int| #[trigger]
            self.relaxed(light, idx) == other.relaxed(light, idx) by {
            self.lemma_same_world_inflow(other, light, idx, 6);
        }
        assert forall|light: Seq<u8>| #[trigger]
            self.is_fixed_point(light) == other.is_fixed_point(light) by {
            if self.is_fixed_point(light) {
                assert forall|v: int| other.is_voxel(v) implies #[trigger] light[v]
                    == other.relaxed(light, v) by {
                    assert(self.relaxed(light, v) == other.relaxed(light, v));
                }
            }
            if other.is_fixed_point(light) {
                assert forall|v: int| self.is_voxel(v) implies #[trigger] light[v]
                    == self.relaxed(light, v) by {
                    assert(self.relaxed(light, v) == other.relaxed(light, v));
                }
            }
        }
    }

    /// Each direction below `k` bounds the inflow from below.
    pub proof fn lemma_inflow_covers(self, light: Seq<u8>, idx: int, k: int, dir: int)
        requires
            0 <= dir < k,
        ensures
            self.spec_neighbor(idx, dir) matches Some(n) ==> self.best_inflow(light, idx, k)
                >= light[n] - self.falloff(idx),
            self.best_inflow(light, idx, k) >= 0,
        decreases k,
    {
        if dir < k - 1 {
            self.lemma_inflow_covers(light, idx, k - 1, dir);
        } else {
            self.lemma_inflow_nonnegative(light, idx, k - 1);
        }
    }

    pub proof fn lemma_inflow_nonnegative(self, light: Seq<u8>, idx: int, k: int)
        ensures
            self.best_inflow(light, idx, k) >= 0,
        decreases k,
    {
        if k > 0 {
            self.lemma_inflow_nonnegative(light, idx, k - 1);
        }
    }

    /// A positive inflow comes from some direction.
    pub proof fn lemma_inflow_source(self, light: Seq<u8>, idx: int, k: int) -> (dir: int)
        requires
            self.best_inflow(light, idx, k) > 0,
            k <= 6,
        ensures
            0 <= dir < k,
            self.spec_neighbor(idx, dir) matches Some(n) && self.best_inflow(light, idx, k)
                == light[n] - self.falloff(idx),
        decreases k,
    {
        let before = self.best_inflow(light, idx, k - 1);
        if before == self.best_inflow(light, idx, k) {
            self.lemma_inflow_source(light, idx, k - 1)
        } else {
            k - 1
        }
    }

    /// Emitted levels and falloffs stay inside the four bits that hold them.
    pub proof fn lemma_levels(self, idx: int)
        ensures
            0 <= self.luminance(idx) <= MAX_LEVEL,
            1 <= self.falloff(idx) <= MAX_LEVEL,
    {
    }

    /// Relaxing levels in range gives levels in range.
    proof fn lemma_relaxed_range(self, light: Seq<u8>, idx: int)
        requires
            self.in_range(light),
            self.is_voxel(idx),
        ensures
            0 <= self.relaxed(light, idx) <= MAX_LEVEL,
    {
        self.lemma_levels(idx);
        self.lemma_inflow_nonnegative(light, idx, 6);
        if self.best_inflow(light, idx, 6) > 0 {
            let dir = self.lemma_inflow_source(light, idx, 6);
            self.law_neighbor(idx, dir);
        }
    }

    /// A voxel relaxed under `b` is at least as bright as a level `m` that it has under `a`,
    /// when the two lights agree on all brighter levels.
    proof fn lemma_settled_step(self, a: Seq<u8>, b: Seq<u8>, v: int, m: int)
        requires
            self.is_voxel(v),
            self.relaxed(a, v) >= m > 0,
            forall|n: int| self.is_voxel(n) && #[trigger] a[n] >= m + 1 ==> a[n] == b[n],
        ensures
            self.relaxed(b, v) >= self.relaxed(a, v),
    {
        if self.relaxed(a, v) > self.luminance(v) {
            let dir = self.lemma_inflow_source(a, v, 6);
            self.law_neighbor(v, dir);
            self.lemma_inflow_covers(b, v, 6, dir);
        }
    }

    proof fn lemma_fixed_points_agree_from(self, a: Seq<u8>, b: Seq<u8>, m: int)
        requires
            self.is_fixed_point(a),
            self.is_fixed_point(b),
            0 <= m <= 256,
        ensures
            forall|v: int| self.is_voxel(v) && (#[trigger] a[v] >= m || b[v] >= m) ==> a[v] == b[v],
        decreases 256 - m,
    {
        if m < 256 {
            self.lemma_fixed_points_agree_from(a, b, m + 1);
            assert forall|v: int| self.is_voxel(v) && (#[trigger] a[v] >= m || b[v] >= m) implies a[v]
                == b[v] by {
                if a[v] > b[v] {
                    self.lemma_settled_step(a, b, v, a[v] as int);
                } else if b[v] > a[v] {
                    assert forall|n: int|
                        self.is_voxel(n) && #[trigger] b[n] >= b[v] + 1 implies b[n] == a[n] by {
                        assert(a[n] >= m + 1 || b[n] >= m + 1);
                    }
                    self.lemma_settled_step(b, a, v, b[v] as int);
                }
            }
        }
    }

    /// A volume has at most one steady state.
    pub proof fn law_fixed_point_unique(self, a: Seq<u8>, b: Seq<u8>)
        requires
            self.is_fixed_point(a),
            self.is_fixed_point(b),
        ensures
            a == b,
    {
        self.lemma_fixed_points_agree_from(a, b, 0);
        assert forall|v: int| 0 <= v < a.len() implies a[v] == b[v] by {
            assert(a[v] >= 0);
        }
        assert(a =~= b);
    }

    /// Relaxation rounds keep every level in range.
    pub proof fn lemma_waves_range(self, seed: Seq<u8>, k: nat)
        requires
            self.in_range(seed),
        ensures
            self.in_range(self.waves(seed, k)),
        decreases k,
    {
        if k > 0 {
            let before = self.waves(seed, (k - 1) as nat);
            self.lemma_waves_range(seed, (k - 1) as nat);
            assert forall|v: int| self.is_voxel(v) implies #[trigger] self.waves(seed, k)[v]
                <= MAX_LEVEL by {
                self.lemma_relaxed_range(before, v);
            }
        }
    }

    /// After `k` rounds one more round changes no level above `15 - k`.
    proof fn lemma_waves_settle(self, seed: Seq<u8>, k: nat)
        requires
            self.in_range(seed),
            k <= 15,
        ensures
            ({
                let now = self.waves(seed, k);
                let next = self.waves(seed, k + 1);
                forall|v: int|
                    #![trigger now[v]]
                    #![trigger next[v]]
                    self.is_voxel(v) && (now[v] >= 16 - k || next[v] >= 16 - k) ==> now[v] == next[v]
            }),
        decreases k,
    {
        let now = self.waves(seed, k);
        let next = self.waves(seed, k + 1);
        self.lemma_waves_range(seed, k);
        self.lemma_waves_range(seed, k + 1);
        if k > 0 {
            let before = self.waves(seed, (k - 1) as nat);
            self.lemma_waves_range(seed, (k - 1) as nat);
            self.lemma_waves_settle(seed, (k - 1) as nat);
            assert(now == self.wave(before));
            assert(next == self.wave(now));
            assert forall|v: int|
                #![trigger now[v]]
                #![trigger next[v]]
                self.is_voxel(v) && (now[v] >= 16 - k || next[v] >= 16 - k) implies now[v]
                == next[v] by {
                self.lemma_relaxed_range(before, v);
                self.lemma_relaxed_range(now, v);
                if now[v] >= 16 - k {
                    self.lemma_settled_step(before, now, v, 16 - k);
                }
                if next[v] >= 16 - k {
                    self.lemma_settled_step(now, before, v, 16 - k);
                }
            }
        }
    }

    /// Light starts at 15 and loses at least one level per step, so [`PASSES`] rounds of
    /// simultaneous relaxation reach the steady state, whatever light they start from.
    pub proof fn law_waves_converge(self, seed: Seq<u8>)
        requires
            self.in_range(seed),
        ensures
            self.is_fixed_point(self.waves(seed, PASSES as nat)),
            self.in_range(self.waves(seed, PASSES as nat)),
    {
        let last = self.waves(seed, 15);
        let next = self.waves(seed, 16);
        self.lemma_waves_range(seed, 15);
        self.lemma_waves_range(seed, 16);
        self.lemma_waves_settle(seed, 15);
        assert(next == self.wave(last));
        assert(last.len() == self.spec_count());
        assert forall|v: int| self.is_voxel(v) implies #[trigger] last[v] == self.relaxed(
            last,
            v,
        ) by {
            self.lemma_relaxed_range(last, v);
            assert(next[v] == self.relaxed(last, v) as u8);
        }
    }

    /// Steady levels never exceed the brightest level of block light.
    pub proof fn law_fixed_point_range(self, light: Seq<u8>)
        requires
            self.is_fixed_point(light),
        ensures
            self.in_range(light),
    {
        let dark = Seq::new(self.spec_count() as nat, |v: int| 0u8);
        assert(self.spec_count() >= 0) by (nonlinear_arith)
            requires
                self.spec_count() == self.size_x * self.size_y * self.size_z,
                self.size_x >= 0,
                self.size_y >= 0,
                self.size_z >= 0,
        ;
        self.law_waves_converge(dark);
        self.law_fixed_point_unique(light, self.waves(dark, PASSES as nat));
    }

    /// Light never enters a fully opaque voxel: it holds what it emits itself.
    pub proof fn law_opaque_voxel_keeps_own_light(self, light: Seq<u8>, v: int)
        requires
            self.is_fixed_point(light),
            self.is_voxel(v),
            self.opacity(v) == MAX_LEVEL,
        ensures
            light[v] == self.luminance(v),
    {
        self.law_fixed_point_range(light);
        self.lemma_levels(v);
        if self.best_inflow(light, v, 6) > 0 {
            let dir = self.lemma_inflow_source(light, v, 6);
            self.law_neighbor(v, dir);
        }
    }

    /// Brightening the neighbours never darkens what a voxel should hold.
    pub proof fn lemma_relaxed_monotone(self, a: Seq<u8>, b: Seq<u8>, idx: int)
        requires
            self.is_voxel(idx),
            forall|n: int| self.is_voxel(n) ==> #[trigger] a[n] <= b[n],
        ensures
            self.relaxed(a, idx) <= self.relaxed(b, idx),
    {
        self.lemma_inflow_nonnegative(b, idx, 6);
        if self.best_inflow(a, idx, 6) > 0 {
            let dir = self.lemma_inflow_source(a, idx, 6);
            self.law_neighbor(idx, dir);
            self.lemma_inflow_covers(b, idx, 6, dir);
        }
    }
}

/// The sum of all levels.
pub open spec fn total_light(light: Seq<u8>) -> int
    decreases light.len(),
{
    if light.len() == 0 {
        0
    } else {
        total_light(light.drop_last()) + light.last()
    }
}

pub proof fn lemma_total_light_update(light: Seq<u8>, i: int, level: u8)
    requires
        0 <= i < light.len(),
    ensures
        total_light(light.update(i, level)) == total_light(light) - light[i] + level,
    decreases light.len(),
{
    let changed = light.update(i, level);
    if i == light.len() - 1 {
        assert(changed.drop_last() =~= light.drop_last());
    } else {
        lemma_total_light_update(light.drop_last(), i, level);
        assert(changed.drop_last() =~= light.drop_last().update(i, level));
    }
}

pub proof fn lemma_total_light_bound(light: Seq<u8>)
    ensures
        0 <= total_light(light) <= 255 * light.len(),
    decreases light.len(),
{
    if light.len() > 0 {
        lemma_total_light_bound(light.drop_last());
    }
}

impl LightVolume {
    /// Light is steady exactly when every voxel holds at least what it emits and what any neighbor
    /// leaves it, which is less by its opacity and by at least one, and no more than one of these.
    pub proof fn law_steady_light_is_balanced(self, light: Seq<u8>)
        requires
            light.len() == self.spec_count(),
        ensures
            self.is_fixed_point(light) <==> forall|v: int| #[trigger]
                self.is_voxel(v) ==> {
                    &&& light[v] >= self.luminance(v)
                    &&& forall|dir: int|
                        0 <= dir < 6 ==> (#[trigger] self.spec_neighbor(v, dir) matches Some(n)
                            ==> light[v] >= light[n] - int_max(self.opacity(v), 1))
                    &&& light[v] == self.luminance(v) || exists|dir: int|
                        0 <= dir < 6 && (#[trigger] self.spec_neighbor(v, dir) matches Some(n)
                            && light[v] == light[n] - int_max(self.opacity(v), 1))
                },
    {
        if self.is_fixed_point(light) {
            assert forall|v: int| #[trigger] self.is_voxel(v) implies {
                &&& light[v] >= self.luminance(v)
                &&& forall|dir: int|
                    0 <= dir < 6 ==> (#[trigger] self.spec_neighbor(v, dir) matches Some(n)
                        ==> light[v] >= light[n] - int_max(self.opacity(v), 1))
                &&& light[v] == self.luminance(v) || exists|dir: int|
                    0 <= dir < 6 && (#[trigger] self.spec_neighbor(v, dir) matches Some(n)
                        && light[v] == light[n] - int_max(self.opacity(v), 1))
            } by {
                assert(light[v] == self.relaxed(light, v));
                assert forall|dir: int| 0 <= dir < 6 implies (#[trigger] self.spec_neighbor(v, dir)
                    matches Some(n) ==> light[v] >= light[n] - int_max(self.opacity(v), 1)) by {
                    self.lemma_inflow_covers(light, v, 6, dir);
                }
                if light[v] != self.luminance(v) {
                    let dir = self.lemma_inflow_source(light, v, 6);
                    assert(self.spec_neighbor(v, dir) is Some);
                }
            }
        }
        if forall|v: int| #[trigger]
            self.is_voxel(v) ==> {
                &&& light[v] >= self.luminance(v)
                &&& forall|dir: int|
                    0 <= dir < 6 ==> (#[trigger] self.spec_neighbor(v, dir) matches Some(n)
                        ==> light[v] >= light[n] - int_max(self.opacity(v), 1))
                &&& light[v] == self.luminance(v) || exists|dir: int|
                    0 <= dir < 6 && (#[trigger] self.spec_neighbor(v, dir) matches Some(n)
                        && light[v] == light[n] - int_max(self.opacity(v), 1))
            } {
            assert forall|v: int| self.is_voxel(v) implies #[trigger] light[v] == self.relaxed(
                light,
                v,
            ) by {
                self.lemma_levels(v);
                self.lemma_inflow_nonnegative(light, v, 6);
                if self.best_inflow(light, v, 6) > 0 {
                    let dir = self.lemma_inflow_source(light, v, 6);
                    assert(self.spec_neighbor(v, dir) is Some);
                }
                if light[v] != self.luminance(v) {
                    let dir = choose|dir: int|
                        0 <= dir < 6 && (#[trigger] self.spec_neighbor(v, dir) matches Some(n)
                            && light[v] == light[n] - int_max(self.opacity(v), 1));
                    self.lemma_inflow_covers(light, v, 6, dir);
                }
            }
        }
    }
}

} // verus!
