//! What the breadth-first flood of block light computes, and how it compares with the steady state.
//!
//! The flood visits a voxel at most once: the first light that reaches it bright enough to be
//! handed on decides its level. With sources of different strength, or with opacities that differ
//! along the way, a dim light can get there first, so the flood may stay below the steady state.

use crate::lighting::volume::{int_max, opposite, LightVolume};
use vstd::prelude::*;

verus! {

/// Light, visited marks, and the voxels whose light is still to be handed on, each with the
/// direction that it came from (6: none).
#[verifier::ext_equal]
pub struct FloodState {
    pub light: Seq<u8>,
    pub visited: Seq<bool>,
    pub queue: Seq<(usize, u8)>,
}

impl LightVolume {
    /// The start of the flood once the first `k` voxels have been looked at: emitters among them
    /// glow at least as bright as they emit, count as visited, and wait in order.
    pub open spec fn seeded(self, light: Seq<u8>, k: nat) -> FloodState
        decreases k,
    {
        if k == 0 {
            FloodState {
                light,
                visited: Seq::new(light.len(), |i: int| false),
                queue: Seq::empty(),
            }
        } else {
            let before = self.seeded(light, (k - 1) as nat);
            let i = k - 1;
            if self.luminance(i) > 0 {
                FloodState {
                    light: before.light.update(
                        i,
                        int_max(before.light[i] as int, self.luminance(i)) as u8,
                    ),
                    visited: before.visited.update(i, true),
                    queue: before.queue.push((i as usize, 6u8)),
                }
            } else {
                before
            }
        }
    }

    /// Voxel `idx`, glowing at `glow`, hands light on in direction `dir`. A neighbour that was
    /// visited before is left alone; another one takes the light if that is an improvement, and
    /// waits to hand it on if there is more than one level of it.
    pub open spec fn offer(
        self,
        st: FloodState,
        idx: int,
        skip: int,
        glow: int,
        dir: int,
    ) -> FloodState {
        if dir == skip {
            st
        } else {
            match self.spec_neighbor(idx, dir) {
                None => st,
                Some(n) => {
                    let level = int_max(glow - self.falloff(n), 0);
                    if st.visited[n] || level <= st.light[n] {
                        st
                    } else if level > 1 {
                        FloodState {
                            light: st.light.update(n, level as u8),
                            visited: st.visited.update(n, true),
                            queue: st.queue.push((n as usize, opposite(dir) as u8)),
                        }
                    } else {
                        FloodState { light: st.light.update(n, level as u8), ..st }
                    }
                },
            }
        }
    }

    /// Voxel `idx` hands light on in the first `k` directions.
    pub open spec fn offers(
        self,
        st: FloodState,
        idx: int,
        skip: int,
        glow: int,
        k: nat,
    ) -> FloodState
        decreases k,
    {
        if k == 0 {
            st
        } else {
            self.offer(
                self.offers(st, idx, skip, glow, (k - 1) as nat),
                idx,
                skip,
                glow,
                k - 1,
            )
        }
    }

    /// The voxel that waits longest hands its light on.
    pub open spec fn flood_step(self, st: FloodState) -> FloodState {
        if st.queue.len() == 0 {
            st
        } else {
            let (idx, skip) = st.queue[0];
            let rest = FloodState { queue: st.queue.drop_first(), ..st };
            if st.light[idx as int] <= 1 {
                rest
            } else {
                self.offers(rest, idx as int, skip as int, st.light[idx as int] as int, 6)
            }
        }
    }

    pub open spec fn flood_steps(self, st: FloodState, n: nat) -> FloodState
        decreases n,
    {
        if n == 0 {
            st
        } else {
            self.flood_step(self.flood_steps(st, (n - 1) as nat))
        }
    }

    /// The flood from `light` has come to rest after `n` steps.
    pub open spec fn at_rest(self, light: Seq<u8>, n: nat) -> bool {
        self.flood_steps(self.seeded(light, self.spec_count() as nat), n).queue.len() == 0
    }

    /// The light that the flood leaves behind when it starts from `light`.
    pub open spec fn flooded(self, light: Seq<u8>) -> Seq<u8> {
        let n = choose|n: nat| self.at_rest(light, n);
        self.flood_steps(self.seeded(light, self.spec_count() as nat), n).light
    }

    proof fn lemma_rest_stays(self, light: Seq<u8>, n: nat, m: nat)
        requires
            self.at_rest(light, n),
            n <= m,
        ensures
            ({
                let start = self.seeded(light, self.spec_count() as nat);
                self.flood_steps(start, m) == self.flood_steps(start, n)
            }),
        decreases m,
    {
        if n < m {
            self.lemma_rest_stays(light, n, (m - 1) as nat);
        }
    }

    /// Any number of steps after which the flood is at rest gives the light it leaves behind.
    pub proof fn lemma_flooded_at_rest(self, light: Seq<u8>, n: nat)
        requires
            self.at_rest(light, n),
        ensures
            self.flood_steps(self.seeded(light, self.spec_count() as nat), n).light
                == self.flooded(light),
    {
        let m = choose|m: nat| self.at_rest(light, m);
        if n <= m {
            self.lemma_rest_stays(light, n, m);
        } else {
            self.lemma_rest_stays(light, m, n);
        }
    }

    /// How light is handed on does not depend on the light that a volume holds.
    pub proof fn lemma_same_world_offers(
        self,
        other: Self,
        st: FloodState,
        idx: int,
        skip: int,
        glow: int,
        k: nat,
    )
        requires
            self.same_world(other),
        ensures
            self.offers(st, idx, skip, glow, k) == other.offers(st, idx, skip, glow, k),
        decreases k,
    {
        if k > 0 {
            self.lemma_same_world(other);
            self.lemma_same_world_offers(other, st, idx, skip, glow, (k - 1) as nat);
        }
    }

    /// Marks and light cover the volume and the waiting voxels exist.
    pub open spec fn flood_ok(self, st: FloodState) -> bool {
        &&& st.light.len() == self.spec_count()
        &&& st.visited.len() == self.spec_count()
        &&& forall|j: int|
            0 <= j < st.queue.len() ==> (#[trigger] st.queue[j]).0 < self.spec_count()
    }
}

/// Voxels that the flood has not visited yet.
pub open spec fn unvisited(visited: Seq<bool>) -> int
    decreases visited.len(),
{
    if visited.len() == 0 {
        0
    } else {
        unvisited(visited.drop_last()) + if visited.last() {
            0int
        } else {
            1int
        }
    }
}

pub proof fn lemma_unvisited_nonnegative(visited: Seq<bool>)
    ensures
        unvisited(visited) >= 0,
    decreases visited.len(),
{
    if visited.len() > 0 {
        lemma_unvisited_nonnegative(visited.drop_last());
    }
}

pub proof fn lemma_unvisited_update(visited: Seq<bool>, i: int)
    requires
        0 <= i < visited.len(),
        !visited[i],
    ensures
        unvisited(visited.update(i, true)) == unvisited(visited) - 1,
    decreases visited.len(),
{
    let marked = visited.update(i, true);
    if i == visited.len() - 1 {
        assert(marked.drop_last() =~= visited.drop_last());
    } else {
        lemma_unvisited_update(visited.drop_last(), i);
        assert(marked.drop_last() =~= visited.drop_last().update(i, true));
    }
}

impl LightVolume {
    /// Handing light on in one direction keeps the state sound, only brightens, and lets the flood
    /// run out.
    proof fn lemma_offer(self, st: FloodState, idx: int, skip: int, glow: int, dir: int)
        requires
            self.wf(),
            self.flood_ok(st),
            self.is_voxel(idx),
            0 <= dir < 6,
            0 <= glow <= 255,
        ensures
            ({
                let next = self.offer(st, idx, skip, glow, dir);
                &&& self.flood_ok(next)
                &&& forall|v: int| self.is_voxel(v) ==> st.light[v] <= #[trigger] next.light[v]
                &&& 2 * unvisited(next.visited) + next.queue.len() <= 2 * unvisited(st.visited)
                    + st.queue.len()
            }),
    {
        self.law_neighbor(idx, dir);
        if let Some(n) = self.spec_neighbor(idx, dir) {
            if !st.visited[n] {
                lemma_unvisited_update(st.visited, n);
            }
        }
    }

    proof fn lemma_offers(self, st: FloodState, idx: int, skip: int, glow: int, k: nat)
        requires
            self.wf(),
            self.flood_ok(st),
            self.is_voxel(idx),
            k <= 6,
            0 <= glow <= 255,
        ensures
            ({
                let next = self.offers(st, idx, skip, glow, k);
                &&& self.flood_ok(next)
                &&& forall|v: int| self.is_voxel(v) ==> st.light[v] <= #[trigger] next.light[v]
                &&& 2 * unvisited(next.visited) + next.queue.len() <= 2 * unvisited(st.visited)
                    + st.queue.len()
            }),
        decreases k,
    {
        if k > 0 {
            let before = self.offers(st, idx, skip, glow, (k - 1) as nat);
            self.lemma_offers(st, idx, skip, glow, (k - 1) as nat);
            self.lemma_offer(before, idx, skip, glow, k - 1);
            let next = self.offers(st, idx, skip, glow, k);
            assert forall|v: int| self.is_voxel(v) implies st.light[v] <= #[trigger] next.light[v]
                by {
                assert(st.light[v] <= before.light[v]);
            }
        }
    }

    proof fn lemma_flood_step(self, st: FloodState)
        requires
            self.wf(),
            self.flood_ok(st),
        ensures
            ({
                let next = self.flood_step(st);
                &&& self.flood_ok(next)
                &&& forall|v: int| self.is_voxel(v) ==> st.light[v] <= #[trigger] next.light[v]
                &&& st.queue.len() > 0 ==> 2 * unvisited(next.visited) + next.queue.len() < 2
                    * unvisited(st.visited) + st.queue.len()
            }),
    {
        if st.queue.len() > 0 {
            let (idx, skip) = st.queue[0];
            let rest = FloodState { queue: st.queue.drop_first(), ..st };
            assert forall|j: int| 0 <= j < rest.queue.len() implies (#[trigger] rest.queue[j]).0
                < self.spec_count() by {
                assert(rest.queue[j] == st.queue[j + 1]);
            }
            if st.light[idx as int] > 1 {
                self.lemma_offers(rest, idx as int, skip as int, st.light[idx as int] as int, 6);
            }
        }
    }

    proof fn lemma_flood_steps(self, st: FloodState, n: nat)
        requires
            self.wf(),
            self.flood_ok(st),
        ensures
            ({
                let next = self.flood_steps(st, n);
                &&& self.flood_ok(next)
                &&& forall|v: int| self.is_voxel(v) ==> st.light[v] <= #[trigger] next.light[v]
            }),
        decreases n,
    {
        if n > 0 {
            let before = self.flood_steps(st, (n - 1) as nat);
            self.lemma_flood_steps(st, (n - 1) as nat);
            self.lemma_flood_step(before);
            let next = self.flood_steps(st, n);
            assert forall|v: int| self.is_voxel(v) implies st.light[v] <= #[trigger] next.light[v]
                by {
                assert(st.light[v] <= before.light[v]);
            }
        }
    }

    proof fn lemma_flood_steps_shift(self, st: FloodState, n: nat)
        ensures
            self.flood_steps(self.flood_step(st), n) == self.flood_steps(st, n + 1),
        decreases n,
    {
        reveal_with_fuel(LightVolume::flood_steps, 2);
        if n > 0 {
            self.lemma_flood_steps_shift(st, (n - 1) as nat);
        }
    }

    proof fn lemma_runs_out(self, st: FloodState) -> (n: nat)
        requires
            self.wf(),
            self.flood_ok(st),
        ensures
            self.flood_steps(st, n).queue.len() == 0,
        decreases 2 * unvisited(st.visited) + st.queue.len(),
    {
        if st.queue.len() == 0 {
            0
        } else {
            let next = self.flood_step(st);
            self.lemma_flood_step(st);
            lemma_unvisited_nonnegative(next.visited);
            let n = self.lemma_runs_out(next);
            self.lemma_flood_steps_shift(st, n);
            n + 1
        }
    }

    /// What the flood starts from: emitters, and they alone, are visited and wait, glowing at
    /// least as bright as they emit; the other voxels keep their light.
    pub proof fn lemma_seeded(self, light: Seq<u8>, k: nat)
        requires
            self.wf(),
            light.len() == self.spec_count(),
            k <= self.spec_count(),
        ensures
            ({
                let st = self.seeded(light, k);
                &&& self.flood_ok(st)
                &&& forall|v: int|
                    self.is_voxel(v) ==> #[trigger] st.light[v] == if v < k && self.luminance(v) > 0 {
                        int_max(light[v] as int, self.luminance(v))
                    } else {
                        light[v] as int
                    }
                &&& forall|v: int|
                    self.is_voxel(v) ==> #[trigger] st.visited[v] == (v < k && self.luminance(v) > 0)
                &&& forall|j: int|
                    0 <= j < st.queue.len() ==> {
                        &&& (#[trigger] st.queue[j]).1 == 6
                        &&& st.queue[j].0 < k
                        &&& self.luminance(st.queue[j].0 as int) > 0
                    }
                &&& forall|v: int|
                    0 <= v < k && #[trigger] self.luminance(v) > 0 ==> queued(st, v)
            }),
        decreases k,
    {
        if k > 0 {
            let before = self.seeded(light, (k - 1) as nat);
            let st = self.seeded(light, k);
            self.lemma_seeded(light, (k - 1) as nat);
            self.lemma_levels(k - 1);
            assert forall|v: int| 0 <= v < k && #[trigger] self.luminance(v) > 0 implies queued(
                st,
                v,
            ) by {
                if v == k - 1 {
                    assert(st.queue[st.queue.len() - 1].0 == v);
                } else {
                    let j = choose|j: int|
                        0 <= j < before.queue.len() && (#[trigger] before.queue[j]).0 == v;
                    assert(st.queue[j].0 == v);
                }
            }
        }
    }

    /// Emitters wait in the order of their indices.
    pub proof fn lemma_seeded_in_order(self, light: Seq<u8>, k: nat)
        requires
            self.wf(),
            light.len() == self.spec_count(),
            k <= self.spec_count(),
        ensures
            ({
                let queue = self.seeded(light, k).queue;
                forall|i: int, j: int|
                    0 <= i < j < queue.len() ==> (#[trigger] queue[i]).0 < (#[trigger] queue[j]).0
            }),
        decreases k,
    {
        if k > 0 {
            self.lemma_seeded_in_order(light, (k - 1) as nat);
            self.lemma_seeded(light, (k - 1) as nat);
        }
    }

    /// The flood comes to rest, and what it leaves behind is the light of the state at rest.
    pub proof fn lemma_flood_rests(self, light: Seq<u8>) -> (n: nat)
        requires
            self.wf(),
            light.len() == self.spec_count(),
        ensures
            self.at_rest(light, n),
            self.flood_steps(self.seeded(light, self.spec_count() as nat), n).light
                == self.flooded(light),
    {
        self.lemma_seeded(light, self.spec_count() as nat);
        let n = self.lemma_runs_out(self.seeded(light, self.spec_count() as nat));
        self.lemma_flooded_at_rest(light, n);
        n
    }

    /// The flood only brightens, and every emitter glows at least as bright as it emits.
    pub proof fn law_flood_only_brightens(self, light: Seq<u8>)
        requires
            self.wf(),
            light.len() == self.spec_count(),
        ensures
            self.flooded(light).len() == self.spec_count(),
            forall|v: int|
                self.is_voxel(v) ==> #[trigger] self.flooded(light)[v] >= int_max(
                    light[v] as int,
                    self.luminance(v),
                ),
    {
        let n = self.lemma_flood_rests(light);
        let start = self.seeded(light, self.spec_count() as nat);
        self.lemma_seeded(light, self.spec_count() as nat);
        self.lemma_flood_steps(start, n);
        assert forall|v: int| self.is_voxel(v) implies #[trigger] self.flooded(light)[v] >= int_max(
            light[v] as int,
            self.luminance(v),
        ) by {
            self.lemma_levels(v);
            assert(start.light[v] <= self.flood_steps(start, n).light[v]);
        }
    }
}

/// Voxel `v` waits to hand its light on.
pub open spec fn queued(st: FloodState, v: int) -> bool {
    exists|j: int| 0 <= j < st.queue.len() && (#[trigger] st.queue[j]).0 == v
}

/// No voxel is brighter in `a` than in `b`.
pub open spec fn no_brighter(a: Seq<u8>, b: Seq<u8>) -> bool {
    &&& a.len() == b.len()
    &&& forall|v: int| 0 <= v < a.len() ==> #[trigger] a[v] <= b[v]
}

impl LightVolume {
    proof fn lemma_offers_stay_below(
        self,
        st: FloodState,
        idx: int,
        skip: int,
        glow: int,
        k: nat,
        steady: Seq<u8>,
    )
        requires
            self.wf(),
            self.flood_ok(st),
            self.is_voxel(idx),
            k <= 6,
            0 <= glow <= steady[idx],
            self.is_fixed_point(steady),
            no_brighter(st.light, steady),
        ensures
            no_brighter(self.offers(st, idx, skip, glow, k).light, steady),
        decreases k,
    {
        if k > 0 {
            let before = self.offers(st, idx, skip, glow, (k - 1) as nat);
            self.lemma_offers(st, idx, skip, glow, (k - 1) as nat);
            self.lemma_offers_stay_below(st, idx, skip, glow, (k - 1) as nat, steady);
            self.law_neighbor(idx, k - 1);
            if let Some(n) = self.spec_neighbor(idx, k - 1) {
                self.lemma_levels(n);
                self.lemma_inflow_covers(steady, n, 6, opposite(k - 1));
                assert(steady[n] == self.relaxed(steady, n));
            }
        }
    }

    proof fn lemma_flood_stays_below(self, st: FloodState, n: nat, steady: Seq<u8>)
        requires
            self.wf(),
            self.flood_ok(st),
            self.is_fixed_point(steady),
            no_brighter(st.light, steady),
        ensures
            no_brighter(self.flood_steps(st, n).light, steady),
        decreases n,
    {
        if n > 0 {
            let before = self.flood_steps(st, (n - 1) as nat);
            self.lemma_flood_steps(st, (n - 1) as nat);
            self.lemma_flood_stays_below(st, (n - 1) as nat, steady);
            if before.queue.len() > 0 {
                let (idx, skip) = before.queue[0];
                let rest = FloodState { queue: before.queue.drop_first(), ..before };
                assert forall|j: int| 0 <= j < rest.queue.len() implies (
                #[trigger] rest.queue[j]).0 < self.spec_count() by {
                    assert(rest.queue[j] == before.queue[j + 1]);
                }
                let glow = before.light[idx as int] as int;
                self.lemma_offers_stay_below(rest, idx as int, skip as int, glow, 6, steady);
            }
        }
    }

    /// The flood only ever under-lights: from a light that is nowhere above the steady state, such
    /// as darkness, it ends nowhere above the steady state.
    pub proof fn law_flood_never_overlights(self, light: Seq<u8>, steady: Seq<u8>)
        requires
            self.wf(),
            self.is_fixed_point(steady),
            no_brighter(light, steady),
        ensures
            no_brighter(self.flooded(light), steady),
    {
        let start = self.seeded(light, self.spec_count() as nat);
        let n = self.lemma_flood_rests(light);
        self.lemma_seeded(light, self.spec_count() as nat);
        assert forall|v: int| 0 <= v < start.light.len() implies #[trigger] start.light[v]
            <= steady[v] by {
            assert(light[v] <= steady[v]);
            assert(steady[v] == self.relaxed(steady, v));
        }
        self.lemma_flood_stays_below(start, n, steady);
    }
}

impl LightVolume {
    /// All emitters are equally strong, and light loses the same number of levels in every other
    /// voxel that it can enter at all.
    pub open spec fn evenly_lit(self, strength: int, cost: int) -> bool {
        &&& 0 <= strength
        &&& forall|v: int|
            self.is_voxel(v) ==> {
                ||| #[trigger] self.luminance(v) == 0 && (self.falloff(v) == cost || self.falloff(v)
                    >= strength)
                ||| self.luminance(v) == strength
            }
    }

    /// Every neighbour of `v` holds at least what `v` hands on in the first `k` directions.
    spec fn handed_on(self, light: Seq<u8>, v: int, k: int) -> bool {
        forall|dir: int|
            0 <= dir < k ==> (#[trigger] self.spec_neighbor(v, dir) matches Some(n) ==> light[n]
                >= light[v] - self.falloff(n))
    }

    /// A waiting voxel came from a neighbour that is at least as bright, or is a source.
    spec fn origin_ok(self, st: FloodState, v: int, skip: int) -> bool {
        &&& st.visited[v]
        &&& skip != 6 ==> 0 <= skip < 6 && (self.spec_neighbor(v, skip) matches Some(p)
            && st.light[p] >= st.light[v])
    }

    /// What holds of every voxel throughout an evenly lit flood.
    spec fn even_voxels(self, st: FloodState, strength: int, cost: int) -> bool {
        &&& self.flood_ok(st)
        &&& forall|v: int|
            self.is_voxel(v) ==> {
                &&& self.luminance(v) <= #[trigger] st.light[v] <= strength
                &&& self.luminance(v) > 0 ==> st.visited[v]
                &&& !st.visited[v] ==> st.light[v] <= 1
                &&& st.visited[v] && self.luminance(v) == 0 ==> self.falloff(v) == cost
                &&& st.light[v] <= self.relaxed(st.light, v)
            }
        &&& forall|j: int|
            0 <= j < st.queue.len() ==> self.origin_ok(
                st,
                (#[trigger] st.queue[j]).0 as int,
                st.queue[j].1 as int,
            )
    }

    /// The waiting voxels get dimmer towards the end of the queue, all within one step of `top`.
    spec fn even_queue(self, st: FloodState, top: int, cost: int) -> bool {
        &&& forall|i: int, j: int|
            0 <= i <= j < st.queue.len() ==> st.light[(#[trigger] st.queue[i]).0 as int]
                >= st.light[(#[trigger] st.queue[j]).0 as int]
        &&& forall|j: int|
            0 <= j < st.queue.len() ==> top - cost <= st.light[(
            #[trigger] st.queue[j]).0 as int] <= top
    }

    /// The flood between two voxels: visited voxels wait or have handed everything on.
    spec fn even_flood(self, st: FloodState, strength: int, cost: int, top: int) -> bool {
        &&& self.even_voxels(st, strength, cost)
        &&& self.even_queue(st, top, cost)
        &&& st.queue.len() > 0 ==> top == st.light[st.queue[0].0 as int]
        &&& forall|v: int|
            self.is_voxel(v) && #[trigger] st.visited[v] ==> queued(st, v) || (self.handed_on(
                st.light,
                v,
                6,
            ) && st.light[v] >= top)
    }

    /// The flood while voxel `u` has handed its light on in `k` directions.
    spec fn even_middle(
        self,
        st: FloodState,
        strength: int,
        cost: int,
        u: int,
        skip: int,
        k: int,
    ) -> bool {
        &&& self.even_voxels(st, strength, cost)
        &&& self.is_voxel(u)
        &&& self.origin_ok(st, u, skip)
        &&& self.even_queue(st, st.light[u] as int, cost)
        &&& self.handed_on(st.light, u, k)
        &&& forall|v: int|
            self.is_voxel(v) && #[trigger] st.visited[v] ==> v == u || queued(st, v) || (
            self.handed_on(st.light, v, 6) && st.light[v] >= st.light[u])
    }

    proof fn lemma_even_offer(
        self,
        st: FloodState,
        strength: int,
        cost: int,
        u: int,
        skip: int,
        dir: int,
    )
        requires
            self.wf(),
            self.evenly_lit(strength, cost),
            self.even_middle(st, strength, cost, u, skip, dir),
            0 <= dir < 6,
        ensures
            self.even_middle(
                self.offer(st, u, skip, st.light[u] as int, dir),
                strength,
                cost,
                u,
                skip,
                dir + 1,
            ),
            self.offer(st, u, skip, st.light[u] as int, dir).light[u] == st.light[u],
    {
        let glow = st.light[u] as int;
        let next = self.offer(st, u, skip, glow, dir);
        self.law_neighbor(u, dir);
        self.lemma_offer(st, u, skip, glow, dir);
        if let Some(n) = self.spec_neighbor(u, dir) {
            self.lemma_levels(n);
            let level = int_max(glow - self.falloff(n), 0);
            if dir != skip && !st.visited[n] && level > st.light[n] {
                assert(n != u);
                assert(self.luminance(n) == 0);
                assert forall|v: int| self.is_voxel(v) implies {
                    &&& self.luminance(v) <= #[trigger] next.light[v] <= strength
                    &&& self.luminance(v) > 0 ==> next.visited[v]
                    &&& !next.visited[v] ==> next.light[v] <= 1
                    &&& next.visited[v] && self.luminance(v) == 0 ==> self.falloff(v) == cost
                    &&& next.light[v] <= self.relaxed(next.light, v)
                } by {
                    assert(self.luminance(v) <= st.light[v] <= strength);
                    self.lemma_relaxed_monotone(st.light, next.light, v);
                    if v == n {
                        self.lemma_inflow_covers(next.light, n, 6, opposite(dir));
                    }
                }
                assert forall|j: int| 0 <= j < next.queue.len() implies self.origin_ok(
                    next,
                    (#[trigger] next.queue[j]).0 as int,
                    next.queue[j].1 as int,
                ) by {
                    if j < st.queue.len() {
                        assert(self.origin_ok(
                            st,
                            st.queue[j].0 as int,
                            st.queue[j].1 as int,
                        ));
                        if st.queue[j].1 != 6 {
                            self.law_neighbor(st.queue[j].0 as int, st.queue[j].1 as int);
                        }
                    }
                }
                if skip != 6 {
                    self.law_neighbor(u, skip);
                }
                assert forall|i: int, j: int| 0 <= i <= j < next.queue.len() implies next.light[(
                #[trigger] next.queue[i]).0 as int] >= next.light[(
                #[trigger] next.queue[j]).0 as int] by {
                    if j < st.queue.len() {
                        assert(st.visited[st.queue[i].0 as int]);
                        assert(st.visited[st.queue[j].0 as int]);
                        assert(st.light[st.queue[i].0 as int] >= st.light[st.queue[j].0 as int]);
                    } else if i < st.queue.len() {
                        assert(st.visited[st.queue[i].0 as int]);
                        assert(glow - cost <= st.light[st.queue[i].0 as int]);
                    }
                }
                assert forall|j: int| 0 <= j < next.queue.len() implies glow - cost <= next.light[(
                #[trigger] next.queue[j]).0 as int] <= glow by {
                    if j < st.queue.len() {
                        assert(st.visited[st.queue[j].0 as int]);
                        assert(glow - cost <= st.light[st.queue[j].0 as int] <= glow);
                    }
                }
                assert forall|v: int| self.is_voxel(v) && #[trigger] next.visited[v] implies v == u
                    || queued(next, v) || (self.handed_on(next.light, v, 6) && next.light[v]
                    >= next.light[u]) by {
                    self.lemma_still_handed_on(st, next, v, n, 6);
                    if v == n {
                        assert(next.queue[next.queue.len() - 1].0 == n);
                    } else if queued(st, v) {
                        let j = choose|j: int|
                            0 <= j < st.queue.len() && (#[trigger] st.queue[j]).0 == v;
                        assert(next.queue[j].0 == v);
                    }
                }
                self.lemma_still_handed_on(st, next, u, n, dir);
            } else {
                assert(next == st);
                if dir == skip {
                } else if st.visited[n] {
                    if self.luminance(n) == 0 {
                        assert(self.falloff(n) == cost) by {
                            assert(self.luminance(n) <= st.light[n]);
                        }
                        if queued(st, n) {
                            let j = choose|j: int|
                                0 <= j < st.queue.len() && (#[trigger] st.queue[j]).0 == n;
                            assert(glow - cost <= st.light[st.queue[j].0 as int]);
                        }
                    } else {
                        assert(self.luminance(n) <= st.light[n]);
                        assert(self.luminance(u) <= st.light[u] <= strength);
                    }
                }
                assert(st.light[n] >= glow - self.falloff(n));
            }
            assert(next.light[n] >= glow - self.falloff(n));
        }
        assert(self.handed_on(next.light, u, dir + 1));
    }

    /// Brightening a voxel other than `v` undoes nothing that `v` handed on.
    proof fn lemma_still_handed_on(
        self,
        st: FloodState,
        next: FloodState,
        v: int,
        n: int,
        k: int,
    )
        requires
            self.flood_ok(st),
            self.flood_ok(next),
            self.is_voxel(v),
            self.is_voxel(n),
            k <= 6,
            v != n ==> next.light[v] == st.light[v],
            forall|w: int| self.is_voxel(w) ==> st.light[w] <= #[trigger] next.light[w],
        ensures
            v != n && self.handed_on(st.light, v, k) ==> self.handed_on(next.light, v, k),
    {
        if v != n && self.handed_on(st.light, v, k) {
            assert forall|dir: int| 0 <= dir < k implies (#[trigger] self.spec_neighbor(
                v,
                dir,
            ) matches Some(w) ==> next.light[w] >= next.light[v] - self.falloff(w)) by {
                self.law_neighbor(v, dir);
            }
        }
    }

    proof fn lemma_even_offers(
        self,
        st: FloodState,
        strength: int,
        cost: int,
        u: int,
        skip: int,
        k: nat,
    )
        requires
            self.wf(),
            self.evenly_lit(strength, cost),
            self.even_middle(st, strength, cost, u, skip, 0),
            k <= 6,
        ensures
            ({
                let next = self.offers(st, u, skip, st.light[u] as int, k);
                &&& self.even_middle(next, strength, cost, u, skip, k as int)
                &&& next.light[u] == st.light[u]
            }),
        decreases k,
    {
        if k > 0 {
            self.lemma_even_offers(st, strength, cost, u, skip, (k - 1) as nat);
            let before = self.offers(st, u, skip, st.light[u] as int, (k - 1) as nat);
            self.lemma_even_offer(before, strength, cost, u, skip, k - 1);
        }
    }

    proof fn lemma_even_step(self, st: FloodState, strength: int, cost: int, top: int) -> (next_top:
        int)
        requires
            self.wf(),
            self.evenly_lit(strength, cost),
            self.even_flood(st, strength, cost, top),
            cost >= 0,
        ensures
            self.even_flood(self.flood_step(st), strength, cost, next_top),
    {
        if st.queue.len() == 0 {
            top
        } else {
            let u = st.queue[0].0 as int;
            let skip = st.queue[0].1 as int;
            let rest = FloodState { queue: st.queue.drop_first(), ..st };
            let next = self.flood_step(st);
            assert(self.origin_ok(st, st.queue[0].0 as int, st.queue[0].1 as int));
            assert forall|j: int| 0 <= j < rest.queue.len() implies rest.queue[j] == st.queue[j
                + 1] by {}
            assert(self.even_voxels(rest, strength, cost)) by {
                assert forall|j: int| 0 <= j < rest.queue.len() implies self.origin_ok(
                    rest,
                    (#[trigger] rest.queue[j]).0 as int,
                    rest.queue[j].1 as int,
                ) by {
                    assert(self.origin_ok(st, st.queue[j + 1].0 as int, st.queue[j + 1].1 as int));
                }
                assert forall|j: int| 0 <= j < rest.queue.len() implies (
                #[trigger] rest.queue[j]).0 < self.spec_count() by {
                    assert(st.queue[j + 1].0 < self.spec_count());
                }
                assert forall|v: int| self.is_voxel(v) implies {
                    &&& self.luminance(v) <= #[trigger] rest.light[v] <= strength
                    &&& self.luminance(v) > 0 ==> rest.visited[v]
                    &&& !rest.visited[v] ==> rest.light[v] <= 1
                    &&& rest.visited[v] && self.luminance(v) == 0 ==> self.falloff(v) == cost
                    &&& rest.light[v] <= self.relaxed(rest.light, v)
                } by {
                    assert(self.luminance(v) <= st.light[v]);
                }
            }
            assert(self.even_queue(rest, st.light[u] as int, cost)) by {
                assert forall|i: int, j: int| 0 <= i <= j < rest.queue.len() implies rest.light[(
                #[trigger] rest.queue[i]).0 as int] >= rest.light[(
                #[trigger] rest.queue[j]).0 as int] by {
                    assert(st.light[st.queue[i + 1].0 as int] >= st.light[st.queue[j + 1].0 as int]);
                }
                assert forall|j: int| 0 <= j < rest.queue.len() implies st.light[u] - cost
                    <= rest.light[(#[trigger] rest.queue[j]).0 as int] <= st.light[u] by {
                    assert(st.light[st.queue[0].0 as int] >= st.light[st.queue[j + 1].0 as int]);
                    assert(top - cost <= st.light[st.queue[j + 1].0 as int]);
                }
            }
            assert forall|v: int| self.is_voxel(v) && #[trigger] rest.visited[v] implies v == u
                || queued(rest, v) || (self.handed_on(rest.light, v, 6) && rest.light[v]
                >= rest.light[u]) by {
                assert(st.visited[v]);
                if queued(st, v) {
                    let j = choose|j: int| 0 <= j < st.queue.len() && (#[trigger] st.queue[j]).0 == v;
                    if j > 0 {
                        assert(rest.queue[j - 1].0 == v);
                    }
                }
            }
            assert(self.even_middle(rest, strength, cost, u, skip, 0));
            if st.light[u] > 1 {
                self.lemma_even_offers(rest, strength, cost, u, skip, 6);
            } else {
                assert forall|dir: int| 0 <= dir < 6 implies (#[trigger] self.spec_neighbor(
                    u,
                    dir,
                ) matches Some(n) ==> rest.light[n] >= rest.light[u] - self.falloff(n)) by {
                    self.law_neighbor(u, dir);
                    if let Some(n) = self.spec_neighbor(u, dir) {
                        self.lemma_levels(n);
                    }
                }
            }
            assert(self.even_middle(next, strength, cost, u, skip, 6));
            let next_top = if next.queue.len() > 0 {
                next.light[next.queue[0].0 as int] as int
            } else {
                next.light[u] as int
            };
            assert(next_top <= next.light[u]);
            assert forall|j: int| 0 <= j < next.queue.len() implies next_top - cost <= next.light[(
            #[trigger] next.queue[j]).0 as int] <= next_top by {
                assert(next.light[next.queue[0].0 as int] >= next.light[next.queue[j].0 as int]);
            }
            next_top
        }
    }

    proof fn lemma_even_steps(
        self,
        st: FloodState,
        strength: int,
        cost: int,
        top: int,
        n: nat,
    ) -> (last_top: int)
        requires
            self.wf(),
            self.evenly_lit(strength, cost),
            self.even_flood(st, strength, cost, top),
            cost >= 0,
        ensures
            self.even_flood(self.flood_steps(st, n), strength, cost, last_top),
        decreases n,
    {
        if n == 0 {
            top
        } else {
            let t = self.lemma_even_steps(st, strength, cost, top, (n - 1) as nat);
            self.lemma_even_step(self.flood_steps(st, (n - 1) as nat), strength, cost, t)
        }
    }

    /// In the dark, with sources of one strength and one falloff wherever light can go, the flood
    /// reaches the steady state exactly.
    pub proof fn law_even_flood_is_steady(self, light: Seq<u8>, strength: int, cost: int)
        requires
            self.wf(),
            light == Seq::new(self.spec_count() as nat, |v: int| 0u8),
            self.evenly_lit(strength, cost),
            cost >= 0,
        ensures
            self.is_fixed_point(self.flooded(light)),
    {
        let start = self.seeded(light, self.spec_count() as nat);
        self.lemma_seeded(light, self.spec_count() as nat);
        assert forall|v: int| self.is_voxel(v) implies {
            &&& self.luminance(v) <= #[trigger] start.light[v] <= strength
            &&& self.luminance(v) > 0 ==> start.visited[v]
            &&& !start.visited[v] ==> start.light[v] <= 1
            &&& start.visited[v] && self.luminance(v) == 0 ==> self.falloff(v) == cost
            &&& start.light[v] <= self.relaxed(start.light, v)
        } by {
            self.lemma_levels(v);
            assert(self.luminance(v) == 0 || self.luminance(v) == strength);
        }
        assert forall|j: int| 0 <= j < start.queue.len() implies start.light[(
        #[trigger] start.queue[j]).0 as int] == strength by {
            assert(self.luminance(start.queue[j].0 as int) > 0);
            self.lemma_levels(start.queue[j].0 as int);
        }
        assert(self.even_flood(start, strength, cost, strength));
        let n = self.lemma_flood_rests(light);
        let end = self.flood_steps(start, n);
        let top = self.lemma_even_steps(start, strength, cost, strength, n);
        assert forall|v: int| self.is_voxel(v) implies #[trigger] end.light[v] == self.relaxed(
            end.light,
            v,
        ) by {
            if self.best_inflow(end.light, v, 6) > 0 {
                let dir = self.lemma_inflow_source(end.light, v, 6);
                self.law_neighbor(v, dir);
                self.lemma_levels(v);
                if let Some(w) = self.spec_neighbor(v, dir) {
                    assert(self.luminance(w) <= end.light[w]);
                    assert(end.visited[w]);
                    assert(self.handed_on(end.light, w, 6));
                    assert(self.spec_neighbor(w, opposite(dir)) == Some(v));
                }
            }
        }
    }
}

} // verus!
