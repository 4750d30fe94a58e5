//! In which order the flood of block light visits voxels, and what that makes of their light.
//!
//! Emitters come first, by index. Every voxel that is visited then hands light on in turn, and the
//! first light of more than one level that improves on what a voxel has makes the voxel visited.

use crate::lighting::flood::FloodState;
use crate::lighting::volume::{int_max, opposite, LightVolume};
use vstd::prelude::*;

verus! {

/// The visits of a flood in order.
pub struct FloodTrace {
    /// The voxels, each with the direction that its light came from (6: none).
    pub order: Seq<(usize, u8)>,
    /// For each voxel but the emitters, which earlier one in the order its light came from.
    pub from: Seq<int>,
    /// How many of the voxels have had their turn to hand light on.
    pub done: int,
    /// How many of the voxels are emitters.
    pub emitters: int,
}

impl FloodTrace {
    /// The voxel that is visited as number `j`.
    pub open spec fn voxel(self, j: int) -> int {
        self.order[j].0 as int
    }

    /// Voxel `v` is visited.
    pub open spec fn lists(self, v: int) -> bool {
        exists|j: int| 0 <= j < self.order.len() && #[trigger] self.voxel(j) == v
    }

    /// Voxel `v` got its light from number `c` or one before.
    pub open spec fn reached_by(self, v: int, c: int) -> bool {
        exists|j: int|
            self.emitters <= j < self.order.len() && #[trigger] self.voxel(j) == v && self.from[j]
                <= c
    }

    /// The order with one more voxel.
    spec fn visiting(self, entry: (usize, u8)) -> FloodTrace {
        FloodTrace {
            order: self.order.push(entry),
            from: self.from.push(self.done - 1),
            ..self
        }
    }
}

impl LightVolume {
    /// What is known of a voxel in the order.
    spec fn visit_ok(self, start: Seq<u8>, st: FloodState, t: FloodTrace, j: int) -> bool {
        let v = t.voxel(j);
        &&& self.is_voxel(v)
        &&& st.visited[v]
        &&& if j < t.emitters {
            &&& self.luminance(v) > 0
            &&& t.order[j].1 == 6
            &&& st.light[v] == int_max(start[v] as int, self.luminance(v))
        } else {
            &&& self.luminance(v) == 0
            &&& t.order[j].1 < 6
            &&& 0 <= t.from[j] < j
            &&& t.from[j] < t.done
            &&& self.spec_neighbor(v, t.order[j].1 as int) == Some(t.voxel(t.from[j]))
            &&& st.light[v] == st.light[t.voxel(t.from[j])] - self.falloff(v)
            &&& st.light[v] > 1
            &&& st.light[v] > start[v]
        }
    }

    /// Number `c` has handed its light on in a direction.
    spec fn handed(self, start: Seq<u8>, st: FloodState, t: FloodTrace, c: int, dir: int) -> bool {
        self.spec_neighbor(t.voxel(c), dir) matches Some(n) ==> {
            let level = st.light[t.voxel(c)] - self.falloff(n);
            self.luminance(n) > 0 || if level > 1 && level > start[n] {
                t.reached_by(n, c)
            } else {
                st.light[n] >= level
            }
        }
    }

    /// The light of a voxel comes from a neighbor among the first `done` in the order.
    spec fn fed(self, st: FloodState, t: FloodTrace, v: int) -> bool {
        exists|c: int, dir: int|
            0 <= c < t.done && 0 <= dir < 6 && #[trigger] self.spec_neighbor(t.voxel(c), dir) == Some(
                v,
            ) && st.light[v] == st.light[t.voxel(c)] - self.falloff(v)
    }

    /// What is known of a voxel that is not visited.
    spec fn left_ok(self, start: Seq<u8>, st: FloodState, t: FloodTrace, v: int) -> bool {
        &&& self.luminance(v) == 0
        &&& st.light[v] == start[v] || (st.light[v] == 1 && start[v] == 0 && self.fed(st, t, v))
    }

    spec fn visits_ok(self, start: Seq<u8>, st: FloodState, t: FloodTrace) -> bool {
        &&& self.flood_ok(st)
        &&& start.len() == self.spec_count()
        &&& 0 <= t.emitters <= t.order.len()
        &&& t.from.len() == t.order.len()
        &&& 0 <= t.done <= t.order.len()
        &&& st.queue == t.order.skip(t.done)
        &&& forall|j: int| 0 <= j < t.order.len() ==> #[trigger] self.visit_ok(start, st, t, j)
        &&& forall|v: int| self.is_voxel(v) ==> (#[trigger] st.visited[v] <==> t.lists(v))
        &&& forall|i: int, j: int|
            0 <= i < j < t.order.len() ==> #[trigger] t.voxel(i) != #[trigger] t.voxel(j)
        &&& forall|i: int, j: int|
            0 <= i < j < t.emitters ==> #[trigger] t.voxel(i) < #[trigger] t.voxel(j)
        &&& forall|v: int|
            self.is_voxel(v) && !#[trigger] st.visited[v] ==> self.left_ok(start, st, t, v)
    }

    /// Visits that have the same source follow each other by direction, and others by source.
    spec fn visits_in_turn(t: FloodTrace) -> bool {
        forall|i: int, j: int|
            t.emitters <= i < j < t.order.len() ==> #[trigger] t.from[i] < #[trigger] t.from[j] || (
            t.from[i] == t.from[j] && opposite(t.order[i].1 as int) < opposite(
                t.order[j].1 as int,
            ))
    }

    /// The flood after `t.done` turns, of which the last one has come to direction `k`.
    spec fn traced(self, start: Seq<u8>, st: FloodState, t: FloodTrace, k: int) -> bool {
        &&& self.visits_ok(start, st, t)
        &&& Self::visits_in_turn(t)
        &&& forall|j: int|
            t.emitters <= j < t.order.len() && #[trigger] t.from[j] == t.done - 1 ==> opposite(
                t.order[j].1 as int,
            ) < k
        &&& forall|c: int, dir: int|
            0 <= c < t.done && 0 <= dir < 6 && (c < t.done - 1 || dir < k)
                ==> #[trigger] self.handed(start, st, t, c, dir)
    }
}

impl LightVolume {
    /// Light on a voxel that is not visited, and one more visit, undo nothing.
    proof fn lemma_more_light(
        self,
        start: Seq<u8>,
        st: FloodState,
        next: FloodState,
        t: FloodTrace,
        more: FloodTrace,
        n: int,
    )
        requires
            self.visits_ok(start, st, t),
            self.flood_ok(next),
            self.is_voxel(n),
            !st.visited[n],
            more.done == t.done,
            more.emitters == t.emitters,
            t.order.len() <= more.order.len(),
            more.from.len() == more.order.len(),
            forall|j: int| 0 <= j < t.order.len() ==> #[trigger] more.order[j] == t.order[j],
            forall|j: int| 0 <= j < t.order.len() ==> #[trigger] more.from[j] == t.from[j],
            forall|v: int| self.is_voxel(v) && v != n ==> #[trigger] next.light[v] == st.light[v],
            next.light[n] >= st.light[n],
            forall|v: int| self.is_voxel(v) && st.visited[v] ==> #[trigger] next.visited[v],
        ensures
            forall|j: int| 0 <= j < t.order.len() ==> #[trigger] self.visit_ok(start, next, more, j),
            forall|c: int, dir: int|
                0 <= c < t.done && 0 <= dir < 6 && self.handed(start, st, t, c, dir)
                    ==> #[trigger] self.handed(start, next, more, c, dir),
            forall|v: int|
                self.is_voxel(v) && v != n && #[trigger] self.left_ok(start, st, t, v)
                    ==> self.left_ok(start, next, more, v),
    {
        assert forall|j: int| 0 <= j < t.order.len() implies #[trigger] self.visit_ok(
            start,
            next,
            more,
            j,
        ) && next.light[t.voxel(j)] == st.light[t.voxel(j)] && more.voxel(j) == t.voxel(j) by {
            assert(self.visit_ok(start, st, t, j));
            assert(more.order[j] == t.order[j]);
            assert(more.from[j] == t.from[j]);
            assert(next.visited[t.voxel(j)]);
            if j >= t.emitters {
                let q = t.from[j];
                assert(self.visit_ok(start, st, t, q));
                assert(more.order[q] == t.order[q]);
            }
        }
        assert forall|c: int, dir: int|
            0 <= c < t.done && 0 <= dir < 6 && self.handed(
                start,
                st,
                t,
                c,
                dir,
            ) implies #[trigger] self.handed(start, next, more, c, dir) by {
            assert(self.visit_ok(start, next, more, c));
            assert(self.visit_ok(start, st, t, c));
            self.law_neighbor(t.voxel(c), dir);
            if let Some(m) = self.spec_neighbor(t.voxel(c), dir) {
                if t.reached_by(m, c) {
                    let j = choose|j: int|
                        t.emitters <= j < t.order.len() && #[trigger] t.voxel(j) == m && t.from[j]
                            <= c;
                    assert(more.order[j] == t.order[j]);
                    assert(more.voxel(j) == m && more.from[j] <= c);
                }
            }
        }
        assert forall|v: int|
            self.is_voxel(v) && v != n && #[trigger] self.left_ok(start, st, t, v) implies self.left_ok(
            start,
            next,
            more,
            v,
        ) by {
            if self.fed(st, t, v) {
                let (c, dir) = choose|c: int, dir: int|
                    0 <= c < t.done && 0 <= dir < 6 && #[trigger] self.spec_neighbor(
                        t.voxel(c),
                        dir,
                    ) == Some(v) && st.light[v] == st.light[t.voxel(c)] - self.falloff(v);
                assert(self.visit_ok(start, next, more, c));
                assert(self.visit_ok(start, st, t, c));
                assert(self.spec_neighbor(more.voxel(c), dir) == Some(v));
            }
        }
    }

    /// Handing light on where nothing takes it is handing it on all the same.
    proof fn lemma_turn_without_taker(self, start: Seq<u8>, st: FloodState, t: FloodTrace, dir: int)
        requires
            self.wf(),
            self.traced(start, st, t, dir),
            0 <= dir < 6,
            0 < t.done,
            ({
                let u = t.voxel(t.done - 1);
                self.spec_neighbor(u, dir) matches Some(n) ==> {
                    ||| dir == t.order[t.done - 1].1
                    ||| st.visited[n]
                    ||| st.light[u] - self.falloff(n) <= st.light[n]
                }
            }),
        ensures
            self.traced(start, st, t, dir + 1),
    {
        let c = t.done - 1;
        let u = t.voxel(c);
        assert(self.visit_ok(start, st, t, c));
        self.law_neighbor(u, dir);
        if let Some(n) = self.spec_neighbor(u, dir) {
            self.lemma_levels(n);
            self.lemma_levels(u);
            let level = st.light[u] - self.falloff(n);
            if self.luminance(n) == 0 {
                if dir == t.order[c].1 {
                    let q = t.from[c];
                    assert(self.visit_ok(start, st, t, q));
                    assert(t.voxel(q) == n);
                    assert(t.reached_by(n, c));
                } else if st.visited[n] {
                    assert(t.lists(n));
                    let j = choose|j: int| 0 <= j < t.order.len() && #[trigger] t.voxel(j) == n;
                    assert(self.visit_ok(start, st, t, j));
                    assert(t.reached_by(n, c));
                } else {
                    assert(self.left_ok(start, st, t, n));
                }
            }
            assert(self.handed(start, st, t, c, dir));
        }
        assert forall|d: int, e: int|
            0 <= d < t.done && 0 <= e < 6 && (d < t.done - 1 || e < dir + 1) implies #[trigger] self.handed(
            start,
            st,
            t,
            d,
            e,
        ) by {
            if d == c && e == dir {
                assert(self.handed(start, st, t, c, dir));
            }
        }
    }

    /// The voxel whose turn it is hands light on in one direction.
    proof fn lemma_turn(self, start: Seq<u8>, st: FloodState, t: FloodTrace, dir: int) -> (more:
        FloodTrace)
        requires
            self.wf(),
            self.traced(start, st, t, dir),
            0 <= dir < 6,
            0 < t.done,
        ensures
            ({
                let c = t.done - 1;
                let u = t.voxel(c);
                let next = self.offer(st, u, t.order[c].1 as int, st.light[u] as int, dir);
                &&& self.traced(start, next, more, dir + 1)
                &&& more.done == t.done
                &&& more.order[c] == t.order[c]
                &&& next.light[u] == st.light[u]
            }),
    {
        let c = t.done - 1;
        let u = t.voxel(c);
        let skip = t.order[c].1 as int;
        let next = self.offer(st, u, skip, st.light[u] as int, dir);
        assert(self.visit_ok(start, st, t, c));
        self.law_neighbor(u, dir);
        match self.spec_neighbor(u, dir) {
            None => {
                self.lemma_turn_without_taker(start, st, t, dir);
                t
            },
            Some(n) => {
                self.lemma_levels(n);
                let level = st.light[u] - self.falloff(n);
                if dir == skip || st.visited[n] || int_max(level, 0) <= st.light[n] {
                    self.lemma_turn_without_taker(start, st, t, dir);
                    t
                } else {
                    assert(self.left_ok(start, st, t, n));
                    assert(level > start[n] && level >= 1);
                    assert(n as usize as int == n);
                    let more = if level > 1 {
                        t.visiting((n as usize, opposite(dir) as u8))
                    } else {
                        t
                    };
                    self.lemma_more_light(start, st, next, t, more, n);
                    let last = t.order.len() as int;
                    if level > 1 {
                        assert(more.voxel(last) == n);
                        assert(more.voxel(c) == u);
                        assert(self.visit_ok(start, next, more, last));
                        assert(next.queue =~= more.order.skip(more.done));
                    }
                    assert forall|v: int| self.is_voxel(v) implies (#[trigger] next.visited[v]
                        <==> more.lists(v)) by {
                        assert(st.visited[v] <==> t.lists(v));
                        if t.lists(v) {
                            let j = choose|j: int|
                                0 <= j < t.order.len() && #[trigger] t.voxel(j) == v;
                            assert(more.voxel(j) == v);
                        }
                        if more.lists(v) && v != n {
                            let j = choose|j: int|
                                0 <= j < more.order.len() && #[trigger] more.voxel(j) == v;
                            assert(t.voxel(j) == v);
                        }
                    }
                    assert forall|i: int, j: int| 0 <= i < j < more.order.len() implies #[trigger] more.voxel(
                    i) != #[trigger] more.voxel(j) by {
                        assert(t.voxel(i) == more.voxel(i));
                        assert(self.visit_ok(start, st, t, i));
                        if j < last {
                            assert(t.voxel(j) == more.voxel(j));
                        }
                    }
                    assert forall|i: int, j: int| 0 <= i < j < more.emitters implies #[trigger] more.voxel(
                    i) < #[trigger] more.voxel(j) by {
                        assert(t.voxel(i) == more.voxel(i));
                        assert(t.voxel(j) == more.voxel(j));
                    }
                    assert forall|v: int| self.is_voxel(v) && !#[trigger] next.visited[v] implies self.left_ok(
                    start, next, more, v) by {
                        if v == n {
                            assert(self.spec_neighbor(more.voxel(c), dir) == Some(v));
                            assert(self.fed(next, more, v));
                        } else {
                            assert(!st.visited[v]);
                            assert(self.left_ok(start, st, t, v));
                        }
                    }
                    assert forall|j: int| 0 <= j < more.order.len() implies #[trigger] self.visit_ok(
                        start,
                        next,
                        more,
                        j,
                    ) by {}
                    assert(self.visits_ok(start, next, more));
                    assert forall|i: int, j: int|
                        more.emitters <= i < j < more.order.len() implies #[trigger] more.from[i]
                        < #[trigger] more.from[j] || (more.from[i] == more.from[j] && opposite(
                        more.order[i].1 as int,
                    ) < opposite(more.order[j].1 as int)) by {
                        assert(self.visit_ok(start, st, t, i));
                        assert(more.from[i] == t.from[i]);
                        if j < last {
                            assert(more.from[j] == t.from[j]);
                        }
                    }
                    assert forall|j: int|
                        more.emitters <= j < more.order.len() && #[trigger] more.from[j] == more.done
                            - 1 implies opposite(more.order[j].1 as int) < dir + 1 by {
                        if j < last {
                            assert(more.from[j] == t.from[j]);
                        }
                    }
                    assert(self.handed(start, next, more, c, dir)) by {
                        assert(more.voxel(c) == u);
                        if level > 1 {
                            assert(more.voxel(last) == n && more.from[last] <= c);
                            assert(more.reached_by(n, c));
                        }
                    }
                    assert forall|d: int, e: int|
                        0 <= d < more.done && 0 <= e < 6 && (d < more.done - 1 || e < dir
                            + 1) implies #[trigger] self.handed(start, next, more, d, e) by {
                        if d != c || e != dir {
                            assert(self.handed(start, st, t, d, e));
                        }
                    }
                    more
                }
            },
        }
    }
}

impl LightVolume {
    /// The voxel whose turn it is hands light on in the first `k` directions.
    proof fn lemma_turns(self, start: Seq<u8>, st: FloodState, t: FloodTrace, k: nat) -> (more:
        FloodTrace)
        requires
            self.wf(),
            self.traced(start, st, t, 0),
            k <= 6,
            0 < t.done,
        ensures
            ({
                let c = t.done - 1;
                let u = t.voxel(c);
                let next = self.offers(st, u, t.order[c].1 as int, st.light[u] as int, k);
                &&& self.traced(start, next, more, k as int)
                &&& more.done == t.done
                &&& more.order[c] == t.order[c]
                &&& next.light[u] == st.light[u]
            }),
        decreases k,
    {
        if k == 0 {
            t
        } else {
            let c = t.done - 1;
            let u = t.voxel(c);
            let before = self.lemma_turns(start, st, t, (k - 1) as nat);
            let now = self.offers(
                st,
                u,
                t.order[c].1 as int,
                st.light[u] as int,
                (k - 1) as nat,
            );
            assert(before.voxel(c) == u);
            self.lemma_turn(start, now, before, k - 1)
        }
    }

    /// The voxel that waits longest has its turn.
    proof fn lemma_next_turn(self, start: Seq<u8>, st: FloodState, t: FloodTrace) -> (more:
        FloodTrace)
        requires
            self.wf(),
            self.traced(start, st, t, 6),
        ensures
            self.traced(start, self.flood_step(st), more, 6),
    {
        if st.queue.len() == 0 {
            t
        } else {
            let turn = FloodTrace { done: t.done + 1, ..t };
            let rest = FloodState { queue: st.queue.drop_first(), ..st };
            let u = t.voxel(t.done);
            assert(st.queue[0] == t.order[t.done]);
            assert(rest.queue =~= turn.order.skip(turn.done));
            assert forall|j: int| 0 <= j < turn.order.len() implies #[trigger] self.visit_ok(
                start,
                rest,
                turn,
                j,
            ) by {
                assert(self.visit_ok(start, st, t, j));
                assert(turn.voxel(j) == t.voxel(j));
                if j >= t.emitters {
                    assert(turn.voxel(t.from[j]) == t.voxel(t.from[j]));
                }
            }
            assert(self.flood_ok(rest)) by {
                assert forall|j: int| 0 <= j < rest.queue.len() implies (#[trigger] rest.queue[j]).0
                    < self.spec_count() by {
                    assert(rest.queue[j] == st.queue[j + 1]);
                }
            }
            assert forall|v: int| self.is_voxel(v) implies (#[trigger] rest.visited[v]
                <==> turn.lists(v)) by {
                assert(st.visited[v] <==> t.lists(v));
                if t.lists(v) {
                    let j = choose|j: int| 0 <= j < t.order.len() && #[trigger] t.voxel(j) == v;
                    assert(turn.voxel(j) == v);
                }
                if turn.lists(v) {
                    let j = choose|j: int|
                        0 <= j < turn.order.len() && #[trigger] turn.voxel(j) == v;
                    assert(t.voxel(j) == v);
                }
            }
            assert forall|i: int, j: int| 0 <= i < j < turn.order.len() implies #[trigger] turn.voxel(
            i) != #[trigger] turn.voxel(j) by {
                assert(t.voxel(i) != t.voxel(j));
            }
            assert forall|i: int, j: int| 0 <= i < j < turn.emitters implies #[trigger] turn.voxel(
            i) < #[trigger] turn.voxel(j) by {
                assert(t.voxel(i) < t.voxel(j));
            }
            assert forall|v: int| self.is_voxel(v) && !#[trigger] rest.visited[v] implies self.left_ok(
            start, rest, turn, v) by {
                assert(self.left_ok(start, st, t, v));
                if self.fed(st, t, v) {
                    let (c, dir) = choose|c: int, dir: int|
                        0 <= c < t.done && 0 <= dir < 6 && #[trigger] self.spec_neighbor(
                            t.voxel(c),
                            dir,
                        ) == Some(v) && st.light[v] == st.light[t.voxel(c)] - self.falloff(v);
                    assert(self.spec_neighbor(turn.voxel(c), dir) == Some(v));
                }
            }
            assert(self.visits_ok(start, rest, turn));
            assert forall|j: int|
                turn.emitters <= j < turn.order.len() && #[trigger] turn.from[j] == turn.done
                    - 1 implies opposite(turn.order[j].1 as int) < 0 by {
                assert(self.visit_ok(start, st, t, j));
            }
            assert forall|c: int, dir: int|
                0 <= c < turn.done - 1 && 0 <= dir < 6 implies #[trigger] self.handed(
                start,
                rest,
                turn,
                c,
                dir,
            ) by {
                assert(self.handed(start, st, t, c, dir));
                assert(turn.voxel(c) == t.voxel(c));
                if let Some(n) = self.spec_neighbor(t.voxel(c), dir) {
                    if t.reached_by(n, c) {
                        let j = choose|j: int|
                            t.emitters <= j < t.order.len() && #[trigger] t.voxel(j) == n
                                && t.from[j] <= c;
                        assert(turn.voxel(j) == n);
                    }
                }
            }
            assert(Self::visits_in_turn(turn)) by {
                assert(turn.from == t.from && turn.order == t.order);
            }
            assert(self.traced(start, rest, turn, 0));
            assert(turn.voxel(turn.done - 1) == u);
            if st.light[u] <= 1 {
                assert(self.flood_step(st) == rest);
                assert forall|c: int, dir: int|
                    0 <= c < turn.done && 0 <= dir < 6 implies #[trigger] self.handed(
                    start,
                    rest,
                    turn,
                    c,
                    dir,
                ) by {
                    if c == turn.done - 1 {
                        assert(self.visit_ok(start, rest, turn, c));
                        self.law_neighbor(u, dir);
                        if let Some(n) = self.spec_neighbor(u, dir) {
                            self.lemma_levels(n);
                        }
                    }
                }
                turn
            } else {
                assert(self.flood_step(st) == self.offers(
                    rest,
                    u,
                    turn.order[turn.done - 1].1 as int,
                    rest.light[u] as int,
                    6,
                ));
                self.lemma_turns(start, rest, turn, 6)
            }
        }
    }

    proof fn lemma_all_turns(self, start: Seq<u8>, st: FloodState, t: FloodTrace, n: nat) -> (more:
        FloodTrace)
        requires
            self.wf(),
            self.traced(start, st, t, 6),
        ensures
            self.traced(start, self.flood_steps(st, n), more, 6),
        decreases n,
    {
        if n == 0 {
            t
        } else {
            let before = self.lemma_all_turns(start, st, t, (n - 1) as nat);
            self.lemma_next_turn(start, self.flood_steps(st, (n - 1) as nat), before)
        }
    }

    /// The flood starts with the emitters.
    proof fn lemma_first_visits(self, light: Seq<u8>) -> (t: FloodTrace)
        requires
            self.wf(),
            light.len() == self.spec_count(),
        ensures
            self.traced(light, self.seeded(light, self.spec_count() as nat), t, 6),
    {
        let count = self.spec_count() as nat;
        let st = self.seeded(light, count);
        self.lemma_seeded(light, count);
        self.lemma_seeded_in_order(light, count);
        let t = FloodTrace {
            order: st.queue,
            from: Seq::new(st.queue.len(), |j: int| -1),
            done: 0,
            emitters: st.queue.len() as int,
        };
        assert(st.queue =~= t.order.skip(0));
        assert forall|j: int| 0 <= j < t.order.len() implies #[trigger] self.visit_ok(
            light,
            st,
            t,
            j,
        ) by {
            assert(self.luminance(st.queue[j].0 as int) > 0);
            assert(st.visited[t.voxel(j)]);
        }
        assert forall|v: int| self.is_voxel(v) implies (#[trigger] st.visited[v] <==> t.lists(v)) by {
            if st.visited[v] {
                assert(self.luminance(v) > 0);
                let j = choose|j: int| 0 <= j < st.queue.len() && (#[trigger] st.queue[j]).0 == v;
                assert(t.voxel(j) == v);
            }
            if t.lists(v) {
                let j = choose|j: int| 0 <= j < t.order.len() && #[trigger] t.voxel(j) == v;
                assert(self.visit_ok(light, st, t, j));
            }
        }
        assert forall|i: int, j: int| 0 <= i < j < t.order.len() implies #[trigger] t.voxel(i)
            < #[trigger] t.voxel(j) by {
            assert(st.queue[i].0 < st.queue[j].0);
        }
        assert forall|v: int| self.is_voxel(v) && !#[trigger] st.visited[v] implies self.left_ok(
            light,
            st,
            t,
            v,
        ) by {
            self.lemma_levels(v);
            assert(st.light[v] == light[v]);
        }
        t
    }

    /// What the flood leaves behind, by the order of its visits. Emitters are visited first, by
    /// index, and glow at least as bright as they emit. Every other visited voxel holds more than
    /// one level and more than at the start: what the neighbor that its light came from holds,
    /// less its own opacity or one. That neighbor is the first one in the order that had so much to
    /// hand on, and visits go by their sources and then by direction. A voxel that is never visited
    /// keeps its light or takes the one level that a neighbor has left for it, and no visited
    /// neighbor has more for it.
    pub proof fn law_flood_goes_by_order(self, light: Seq<u8>) -> (t: FloodTrace)
        requires
            self.wf(),
            light.len() == self.spec_count(),
        ensures
            self.flooded(light).len() == self.spec_count(),
            t.from.len() == t.order.len(),
            0 <= t.emitters <= t.order.len(),
            forall|v: int|
                self.is_voxel(v) ==> (#[trigger] t.lists(v) <==> self.luminance(v) > 0 || (
                self.flooded(light)[v] > 1 && self.flooded(light)[v] > light[v])),
            forall|j: int|
                0 <= j < t.order.len() ==> self.is_voxel(#[trigger] t.voxel(j)) && (
                self.luminance(t.voxel(j)) > 0 <==> j < t.emitters),
            forall|i: int, j: int|
                0 <= i < j < t.order.len() ==> #[trigger] t.voxel(i) != #[trigger] t.voxel(j),
            forall|i: int, j: int|
                0 <= i < j < t.emitters ==> #[trigger] t.voxel(i) < #[trigger] t.voxel(j),
            forall|v: int|
                self.is_voxel(v) && self.luminance(v) > 0 ==> #[trigger] self.flooded(light)[v]
                    == int_max(light[v] as int, self.luminance(v)),
            forall|j: int|
                t.emitters <= j < t.order.len() ==> {
                    &&& 0 <= #[trigger] t.from[j] < j
                    &&& t.order[j].1 < 6
                    &&& self.spec_neighbor(t.voxel(j), t.order[j].1 as int) == Some(
                        t.voxel(t.from[j]),
                    )
                    &&& self.flooded(light)[t.voxel(j)] == self.flooded(light)[t.voxel(t.from[j])]
                        - int_max(self.opacity(t.voxel(j)), 1)
                },
            forall|i: int, j: int|
                t.emitters <= i < j < t.order.len() ==> #[trigger] t.from[i] < #[trigger] t.from[j]
                    || (t.from[i] == t.from[j] && opposite(t.order[i].1 as int) < opposite(
                    t.order[j].1 as int,
                )),
            forall|c: int, dir: int|
                0 <= c < t.order.len() && 0 <= dir < 6 ==> (#[trigger] self.spec_neighbor(
                    t.voxel(c),
                    dir,
                ) matches Some(n) ==> {
                    let level = self.flooded(light)[t.voxel(c)] - int_max(self.opacity(n), 1);
                    self.luminance(n) > 0 || if level > 1 && level > light[n] {
                        t.reached_by(n, c)
                    } else {
                        self.flooded(light)[n] >= level
                    }
                }),
            forall|v: int|
                self.is_voxel(v) && !#[trigger] t.lists(v) && self.flooded(light)[v] != light[v] ==> {
                    &&& self.flooded(light)[v] == 1
                    &&& light[v] == 0
                    &&& exists|c: int, dir: int|
                        {
                            &&& 0 <= c < t.order.len()
                            &&& 0 <= dir < 6
                            &&& #[trigger] self.spec_neighbor(t.voxel(c), dir) == Some(v)
                            &&& self.flooded(light)[t.voxel(c)] == 1 + int_max(self.opacity(v), 1)
                        }
                },
    {
        let start = self.seeded(light, self.spec_count() as nat);
        let first = self.lemma_first_visits(light);
        let n = self.lemma_flood_rests(light);
        let end = self.flood_steps(start, n);
        let t = self.lemma_all_turns(light, start, first, n);
        assert(end.queue == t.order.skip(t.done));
        assert(t.done == t.order.len());
        assert(end.light == self.flooded(light));
        assert forall|v: int| self.is_voxel(v) implies (#[trigger] t.lists(v) <==> self.luminance(v)
            > 0 || (end.light[v] > 1 && end.light[v] > light[v])) by {
            assert(end.visited[v] <==> t.lists(v));
            if t.lists(v) {
                let j = choose|j: int| 0 <= j < t.order.len() && #[trigger] t.voxel(j) == v;
                assert(self.visit_ok(light, end, t, j));
            } else {
                assert(self.left_ok(light, end, t, v));
            }
        }
        assert forall|j: int| 0 <= j < t.order.len() implies self.is_voxel(#[trigger] t.voxel(j)) && (
        self.luminance(t.voxel(j)) > 0 <==> j < t.emitters) by {
            assert(self.visit_ok(light, end, t, j));
        }
        assert forall|v: int| self.is_voxel(v) && self.luminance(v) > 0 implies #[trigger] end.light[v]
            == int_max(light[v] as int, self.luminance(v)) by {
            assert(t.lists(v));
            let j = choose|j: int| 0 <= j < t.order.len() && #[trigger] t.voxel(j) == v;
            assert(self.visit_ok(light, end, t, j));
        }
        assert forall|j: int| t.emitters <= j < t.order.len() implies {
            &&& 0 <= #[trigger] t.from[j] < j
            &&& t.order[j].1 < 6
            &&& self.spec_neighbor(t.voxel(j), t.order[j].1 as int) == Some(t.voxel(t.from[j]))
            &&& end.light[t.voxel(j)] == end.light[t.voxel(t.from[j])] - int_max(
                self.opacity(t.voxel(j)),
                1,
            )
        } by {
            assert(self.visit_ok(light, end, t, j));
        }
        assert forall|c: int, dir: int| 0 <= c < t.order.len() && 0 <= dir < 6 implies (
        #[trigger] self.spec_neighbor(t.voxel(c), dir) matches Some(n) ==> {
            let level = end.light[t.voxel(c)] - int_max(self.opacity(n), 1);
            self.luminance(n) > 0 || if level > 1 && level > light[n] {
                t.reached_by(n, c)
            } else {
                end.light[n] >= level
            }
        }) by {
            assert(self.handed(light, end, t, c, dir));
        }
        assert forall|v: int|
            self.is_voxel(v) && !#[trigger] t.lists(v) && end.light[v] != light[v] implies {
            &&& end.light[v] == 1
            &&& light[v] == 0
            &&& exists|c: int, dir: int|
                {
                    &&& 0 <= c < t.order.len()
                    &&& 0 <= dir < 6
                    &&& #[trigger] self.spec_neighbor(t.voxel(c), dir) == Some(v)
                    &&& end.light[t.voxel(c)] == 1 + int_max(self.opacity(v), 1)
                }
        } by {
            assert(!end.visited[v]);
            assert(self.left_ok(light, end, t, v));
            let (c, dir) = choose|c: int, dir: int|
                0 <= c < t.done && 0 <= dir < 6 && #[trigger] self.spec_neighbor(t.voxel(c), dir)
                    == Some(v) && end.light[v] == end.light[t.voxel(c)] - self.falloff(v);
            assert(self.spec_neighbor(t.voxel(c), dir) == Some(v));
        }
        t
    }

    /// Light does not stop where it could go on. A voxel that emits light or was brightened by the
    /// flood leaves no neighbor dark that it outshines, and no neighbor that the flood has not
    /// raised above one level, and above what it held, with less than it has left for it. From
    /// darkness, that holds of every lit voxel.
    pub proof fn law_flood_reaches_neighbors(self, light: Seq<u8>, u: int, dir: int, n: int)
        requires
            self.wf(),
            light.len() == self.spec_count(),
            self.is_voxel(u),
            0 <= dir < 6,
            self.spec_neighbor(u, dir) == Some(n),
            self.luminance(u) > 0 || self.flooded(light)[u] > light[u],
        ensures
            self.flooded(light)[u] > int_max(self.opacity(n), 1) ==> self.flooded(light)[n] > 0,
            self.flooded(light)[u] > 1 + int_max(self.opacity(n), 1) && self.luminance(n) == 0
                ==> self.flooded(light)[n] > 1,
            self.luminance(n) == 0 && self.flooded(light)[n] <= int_max(light[n] as int, 1)
                ==> self.flooded(light)[n] >= self.flooded(light)[u] - int_max(self.opacity(n), 1),
    {
        self.law_neighbor(u, dir);
        self.lemma_levels(n);
        let t = self.law_flood_goes_by_order(light);
        let level = self.flooded(light)[u] - int_max(self.opacity(n), 1);
        if level > 0 {
            assert(t.lists(u));
            let c = choose|j: int| 0 <= j < t.order.len() && #[trigger] t.voxel(j) == u;
            assert(self.spec_neighbor(t.voxel(c), dir) == Some(n));
            if self.luminance(n) == 0 && t.reached_by(n, c) {
                let j = choose|j: int|
                    t.emitters <= j < t.order.len() && #[trigger] t.voxel(j) == n && t.from[j] <= c;
                assert(t.voxel(j) == n);
                assert(t.lists(n));
            }
        }
    }

    /// Light comes from somewhere: a voxel keeps what it held, or emits what it holds, or holds
    /// exactly what is left of a neighbor's light once it has taken its opacity or one off.
    pub proof fn law_flood_light_has_a_source(self, light: Seq<u8>, v: int)
        requires
            self.wf(),
            light.len() == self.spec_count(),
            self.is_voxel(v),
        ensures
            ({
                let end = self.flooded(light);
                ||| end[v] == light[v]
                ||| end[v] == self.luminance(v)
                ||| exists|dir: int|
                    0 <= dir < 6 && (#[trigger] self.spec_neighbor(v, dir) matches Some(p) && end[p]
                        == end[v] + int_max(self.opacity(v), 1))
            }),
    {
        let end = self.flooded(light);
        let t = self.law_flood_goes_by_order(light);
        if end[v] != light[v] && self.luminance(v) == 0 {
            if t.lists(v) {
                let j = choose|j: int| 0 <= j < t.order.len() && #[trigger] t.voxel(j) == v;
                assert(0 <= t.from[j] < j);
                assert(self.spec_neighbor(v, t.order[j].1 as int) == Some(t.voxel(t.from[j])));
            } else {
                let (c, dir) = choose|c: int, dir: int|
                    {
                        &&& 0 <= c < t.order.len()
                        &&& 0 <= dir < 6
                        &&& #[trigger] self.spec_neighbor(t.voxel(c), dir) == Some(v)
                        &&& end[t.voxel(c)] == 1 + int_max(self.opacity(v), 1)
                    };
                assert(self.is_voxel(t.voxel(c)));
                self.law_neighbor(t.voxel(c), dir);
                assert(self.spec_neighbor(v, opposite(dir)) == Some(t.voxel(c)));
            }
        }
    }
}

} // verus!
