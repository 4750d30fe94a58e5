//! Experience orbs.

use crate::ieee::Single;
use vstd::prelude::*;

verus! {

/// How many ticks an orb lasts.
pub const ORB_LIFETIME: u32 = 6000;

/// Orbs look for others to merge with once in so many ticks.
pub const MERGE_INTERVAL: u32 = 20;

/// Orbs merge if their entity IDs are a multiple of this apart.
pub const MERGE_ID_STEP: i32 = 40;

/// How many ticks a player waits after picking up an orb.
pub const PICK_UP_DELAY: u32 = 2;

/// An orb, or several of the same size in one.
#[derive(Clone, Copy, Debug, PartialEq, Eq, Structural)]
pub struct ExperienceOrbEntity {
    /// Experience points of one orb.
    pub amount: u32,
    pub orb_age: u32,
    pub count: u32,
}

/// An orb near another one.
#[derive(Clone, Copy, Debug)]
pub struct NearbyOrb {
    /// This is the other one itself.
    pub is_self: bool,
    pub entity_id: i32,
    pub removed: bool,
    pub orb: ExperienceOrbEntity,
}

/// What an orb does in a tick.
#[derive(Clone, Copy, Debug, PartialEq, Eq, Structural)]
pub struct OrbTick {
    /// It merges with orbs nearby before it moves.
    pub scan_for_merges: bool,
    /// It is removed after it has moved.
    pub remove: bool,
}

/// What is left to do when a player has picked up an orb.
#[derive(Clone, Copy, Debug, PartialEq, Eq, Structural)]
pub struct OrbPickup {
    /// Points that the player gains.
    pub points: Option<i32>,
    /// The orb is removed.
    pub remove: bool,
}

/// The sizes that orbs come in.
pub open spec fn orb_sizes() -> Seq<u32> {
    seq![2477, 1237, 617, 307, 149, 73, 37, 17, 7, 3, 1]
}

/// Whether `size` is the largest orb that a value is enough for.
pub open spec fn is_orb_for(value: u32, size: u32) -> bool {
    &&& orb_sizes().contains(size)
    &&& size <= value
    &&& forall|i: int| 0 <= i < orb_sizes().len() && #[trigger] orb_sizes()[i] <= value ==> orb_sizes()[i] <= size
}

/// The largest orb that a value is enough for; the smallest one for nothing.
pub open spec fn orb_size(value: u32) -> u32 {
    if exists|size: u32| is_orb_for(value, size) {
        choose|size: u32| is_orb_for(value, size)
    } else {
        1
    }
}

/// An amount in orbs, largest first.
pub open spec fn orbs_of(amount: u32) -> Seq<u32>
    decreases amount,
    via orbs_of_decreases
{
    if amount == 0 {
        Seq::empty()
    } else {
        seq![orb_size(amount)] + orbs_of((amount - orb_size(amount)) as u32)
    }
}

#[via_fn]
proof fn orbs_of_decreases(amount: u32) {
    if amount > 0 {
        lemma_orb_size(amount);
    }
}

/// What a sequence of orbs is worth.
pub open spec fn worth(orbs: Seq<u32>) -> int
    decreases orbs.len(),
{
    if orbs.len() == 0 {
        0
    } else {
        orbs[0] + worth(orbs.skip(1))
    }
}

/// There is one largest orb that a value is enough for.
proof fn lemma_orb_size(value: u32)
    ensures
        value > 0 ==> is_orb_for(value, orb_size(value)),
        value == 0 ==> orb_size(value) == 1,
        1 <= orb_size(value),
{
    let sizes = orb_sizes();
    assert(sizes[10] == 1);
    if value > 0 {
        let fit = if value >= 2477 {
            0int
        } else if value >= 1237 {
            1
        } else if value >= 617 {
            2
        } else if value >= 307 {
            3
        } else if value >= 149 {
            4
        } else if value >= 73 {
            5
        } else if value >= 37 {
            6
        } else if value >= 17 {
            7
        } else if value >= 7 {
            8
        } else if value >= 3 {
            9
        } else {
            10
        };
        assert(sizes.contains(sizes[fit]));
        assert(is_orb_for(value, sizes[fit]));
    }
}

/// Splitting an amount into orbs loses nothing.
pub proof fn law_orbs_add_up(amount: u32)
    ensures
        worth(orbs_of(amount)) == amount,
    decreases amount,
{
    if amount > 0 {
        lemma_orb_size(amount);
        let size = orb_size(amount);
        let rest = (amount - size) as u32;
        law_orbs_add_up(rest);
        assert((seq![size] + orbs_of(rest)).skip(1) =~= orbs_of(rest));
    }
}

/// Orbs come in the known sizes, largest first, and none is larger than the whole.
pub proof fn law_orbs_have_known_sizes(amount: u32)
    ensures
        forall|i: int|
            0 <= i < orbs_of(amount).len() ==> orb_sizes().contains(#[trigger] orbs_of(amount)[i])
                && orbs_of(amount)[i] <= amount,
        forall|i: int, j: int|
            0 <= i <= j < orbs_of(amount).len() ==> orbs_of(amount)[i] >= orbs_of(amount)[j],
    decreases amount,
{
    if amount > 0 {
        lemma_orb_size(amount);
        let size = orb_size(amount);
        let rest = (amount - size) as u32;
        law_orbs_have_known_sizes(rest);
        let orbs = orbs_of(amount);
        let tail = orbs_of(rest);
        assert(orbs =~= seq![size] + tail);
        assert forall|i: int| 0 <= i < orbs.len() implies orb_sizes().contains(#[trigger] orbs[i])
            && orbs[i] <= size by {
            if i > 0 {
                assert(orbs[i] == tail[i - 1]);
                let k = choose|k: int| 0 <= k < orb_sizes().len() && orb_sizes()[k] == tail[i - 1];
                assert(orb_sizes()[k] <= amount);
            }
        }
        assert forall|i: int, j: int| 0 <= i <= j < orbs.len() implies orbs[i] >= orbs[j] by {
            if i > 0 {
                assert(tail[i - 1] >= tail[j - 1]);
            }
        }
    }
}

/// Whether an orb takes up another one: not itself, still there, of the same size, and with
/// matching IDs.
pub open spec fn takes_up(amount: u32, entity_id: i32, other: NearbyOrb) -> bool {
    &&& !other.is_self
    &&& !other.removed
    &&& other.orb.amount == amount
    &&& other.entity_id.wrapping_sub(entity_id) as int % MERGE_ID_STEP as int == 0
}

fn is_multiple_of_step(difference: i32) -> (multiple: bool)
    ensures
        multiple == (difference as int % MERGE_ID_STEP as int == 0),
{
    let shifted: i64 = difference as i64 + 2_147_483_680;
    assert(2_147_483_680int == 40 * 53_687_092);
    shifted % MERGE_ID_STEP as i64 == 0
}

impl ExperienceOrbEntity {
    /// The orb together with another one.
    pub open spec fn joined(self, other: ExperienceOrbEntity) -> ExperienceOrbEntity {
        ExperienceOrbEntity {
            count: self.count.wrapping_add(other.count),
            orb_age: if other.orb_age < self.orb_age {
                other.orb_age
            } else {
                self.orb_age
            },
            ..self
        }
    }

    /// The orb after it has taken up what it can, in order.
    pub open spec fn merged(self, entity_id: i32, nearby: Seq<NearbyOrb>) -> ExperienceOrbEntity
        decreases nearby.len(),
    {
        if nearby.len() == 0 {
            self
        } else {
            let before = self.merged(entity_id, nearby.drop_last());
            if takes_up(self.amount, entity_id, nearby.last()) {
                before.joined(nearby.last().orb)
            } else {
                before
            }
        }
    }

    /// Which of the orbs are taken up, in order.
    pub open spec fn taken_up(self, entity_id: i32, nearby: Seq<NearbyOrb>) -> Seq<int>
        decreases nearby.len(),
    {
        if nearby.len() == 0 {
            Seq::empty()
        } else {
            let before = self.taken_up(entity_id, nearby.drop_last());
            if takes_up(self.amount, entity_id, nearby.last()) {
                before.push(nearby.len() - 1)
            } else {
                before
            }
        }
    }

    /// How many orbs are taken up, counting those that several had merged into.
    pub open spec fn gained(self, entity_id: i32, nearby: Seq<NearbyOrb>) -> int
        decreases nearby.len(),
    {
        if nearby.len() == 0 {
            0
        } else {
            let before = self.gained(entity_id, nearby.drop_last());
            if takes_up(self.amount, entity_id, nearby.last()) {
                before + nearby.last().orb.count
            } else {
                before
            }
        }
    }

    #[must_use]
    pub fn new(amount: u32) -> (orb: Self)
        ensures
            orb == (ExperienceOrbEntity { amount, orb_age: 0, count: 1 }),
    {
        ExperienceOrbEntity { amount, orb_age: 0, count: 1 }
    }

    /// The orbs to spawn for an amount of experience.
    #[must_use]
    pub fn spawn(amount: u32) -> (orbs: Vec<ExperienceOrbEntity>)
        ensures
            orbs@ == orbs_of(amount).map_values(
                |size: u32| (ExperienceOrbEntity { amount: size, orb_age: 0, count: 1 }),
            ),
    {
        let ghost make = |size: u32| (ExperienceOrbEntity { amount: size, orb_age: 0, count: 1 });
        let mut orbs: Vec<ExperienceOrbEntity> = Vec::new();
        let mut left: u32 = amount;
        while left > 0
            invariant
                make == (|size: u32| (ExperienceOrbEntity { amount: size, orb_age: 0, count: 1 })),
                orbs@ + orbs_of(left).map_values(make) == orbs_of(amount).map_values(make),
            decreases left,
        {
            let size: u32 = ExperienceOrbEntity::round_to_orb_size(left);
            let ghost before = orbs@;
            proof {
                lemma_orb_size(left);
            }
            let ghost rest = orbs_of((left - size) as u32).map_values(make);
            orbs.push(ExperienceOrbEntity::new(size));
            assert(before + orbs_of(left).map_values(make) =~= orbs@ + rest);
            left = left - size;
        }
        assert(orbs@ + orbs_of(0).map_values(make) =~= orbs@);
        orbs
    }

    /// The largest orb that a value is enough for; the smallest one for nothing.
    #[must_use]
    pub fn round_to_orb_size(value: u32) -> (size: u32)
        ensures
            size == orb_size(value),
    {
        let size: u32 = if value >= 2477 {
            2477
        } else if value >= 1237 {
            1237
        } else if value >= 617 {
            617
        } else if value >= 307 {
            307
        } else if value >= 149 {
            149
        } else if value >= 73 {
            73
        } else if value >= 37 {
            37
        } else if value >= 17 {
            17
        } else if value >= 7 {
            7
        } else if value >= 3 {
            3
        } else {
            1
        };
        proof {
            lemma_orb_size(value);
            if value > 0 {
                let chosen = orb_size(value);
                let i = choose|i: int| 0 <= i < orb_sizes().len() && orb_sizes()[i] == chosen;
                let sizes = orb_sizes();
                assert(sizes[0] == 2477 && sizes[1] == 1237 && sizes[2] == 617 && sizes[3] == 307
                    && sizes[4] == 149 && sizes[5] == 73 && sizes[6] == 37 && sizes[7] == 17
                    && sizes[8] == 7 && sizes[9] == 3 && sizes[10] == 1);
            }
        }
        size
    }

    /// Takes up orbs nearby and says which of them are to be removed.
    pub fn scan_for_merges(&mut self, entity_id: i32, nearby: &[NearbyOrb]) -> (removed: Vec<usize>)
        ensures
            *final(self) == old(self).merged(entity_id, nearby@),
            removed@.map_values(|i: usize| i as int) == old(self).taken_up(entity_id, nearby@),
    {
        let mut removed: Vec<usize> = Vec::new();
        for i in 0..nearby.len()
            invariant
                self.amount == old(self).amount,
                *self == old(self).merged(entity_id, nearby@.take(i as int)),
                removed@.map_values(|i: usize| i as int) == old(self).taken_up(
                    entity_id,
                    nearby@.take(i as int),
                ),
        {
            let other = nearby[i];
            let ghost before = removed@;
            proof {
                assert(nearby@.take(i + 1).drop_last() =~= nearby@.take(i as int));
                assert(nearby@.take(i + 1).last() == other);
            }
            if !other.is_self && !other.removed && other.orb.amount == self.amount
                && is_multiple_of_step(other.entity_id.wrapping_sub(entity_id)) {
                self.count = self.count.wrapping_add(other.orb.count);
                if other.orb.orb_age < self.orb_age {
                    self.orb_age = other.orb.orb_age;
                }
                removed.push(i);
                assert(removed@.map_values(|i: usize| i as int) =~= before.map_values(
                    |i: usize| i as int,
                ).push(i as int));
            }
        }
        assert(nearby@.take(nearby@.len() as int) =~= nearby@);
        removed
    }

    /// The orb grows a tick older.
    pub fn tick(&mut self) -> (tick: OrbTick)
        ensures
            *final(self) == (ExperienceOrbEntity {
                orb_age: old(self).orb_age.wrapping_add(1),
                ..*old(self)
            }),
            tick == (OrbTick {
                scan_for_merges: old(self).orb_age > 0 && old(self).orb_age % MERGE_INTERVAL == 0,
                remove: old(self).orb_age >= ORB_LIFETIME,
            }),
    {
        let age: u32 = self.orb_age;
        self.orb_age = age.wrapping_add(1);
        OrbTick {
            scan_for_merges: age > 0 && age % MERGE_INTERVAL == 0,
            remove: age >= ORB_LIFETIME,
        }
    }

    /// A player touches the orb. A living player who need not wait picks it up: from now on they
    /// have to wait, and these points go into mending first.
    pub fn on_player_collision(&self, health: Single, delay: &mut u32) -> (mending: Option<i32>)
        ensures
            match mending {
                Some(points) => {
                    &&& health.above(Single { bits: 0 })
                    &&& *old(delay) == 0
                    &&& *final(delay) == PICK_UP_DELAY
                    &&& points == self.amount as i32
                },
                None => {
                    &&& !health.above(Single { bits: 0 }) || *old(delay) != 0
                    &&& *final(delay) == *old(delay)
                },
            },
    {
        if health.exceeds(Single { bits: 0 }) && *delay == 0 {
            *delay = PICK_UP_DELAY;
            Some(self.amount as i32)
        } else {
            None
        }
    }

    /// Mending is done and so many points remain. One of the orbs is used up.
    pub fn finish_pickup(&mut self, remaining: i32) -> (pickup: OrbPickup)
        ensures
            *final(self) == (ExperienceOrbEntity {
                count: old(self).count.wrapping_sub(1),
                ..*old(self)
            }),
            pickup == (OrbPickup {
                points: if remaining > 0 {
                    Some(remaining)
                } else {
                    None
                },
                remove: old(self).count <= 1,
            }),
    {
        let count: u32 = self.count;
        self.count = count.wrapping_sub(1);
        OrbPickup {
            points: if remaining > 0 {
                Some(remaining)
            } else {
                None
            },
            remove: count <= 1,
        }
    }
}

/// Merging loses no experience, as long as the count can hold it all.
pub proof fn law_merging_keeps_experience(
    orb: ExperienceOrbEntity,
    entity_id: i32,
    nearby: Seq<NearbyOrb>,
)
    requires
        orb.count + orb.gained(entity_id, nearby) <= u32::MAX,
    ensures
        orb.merged(entity_id, nearby).amount == orb.amount,
        orb.merged(entity_id, nearby).count == orb.count + orb.gained(entity_id, nearby),
        orb.merged(entity_id, nearby).orb_age <= orb.orb_age,
    decreases nearby.len(),
{
    if nearby.len() > 0 {
        law_merging_keeps_experience(orb, entity_id, nearby.drop_last());
    }
}

/// The orbs that are taken up are exactly those that can be: none twice, never the orb itself, and
/// none that is gone already.
pub proof fn law_taken_up_orbs_can_be(
    orb: ExperienceOrbEntity,
    entity_id: i32,
    nearby: Seq<NearbyOrb>,
    i: int,
)
    ensures
        orb.taken_up(entity_id, nearby).contains(i) <==> 0 <= i < nearby.len() && takes_up(
            orb.amount,
            entity_id,
            nearby[i],
        ),
        orb.taken_up(entity_id, nearby).contains(i) ==> !nearby[i].is_self && !nearby[i].removed,
        orb.taken_up(entity_id, nearby).no_duplicates(),
    decreases nearby.len(),
{
    if nearby.len() > 0 {
        let shorter = nearby.drop_last();
        let before = orb.taken_up(entity_id, shorter);
        let last = nearby.len() - 1;
        law_taken_up_orbs_can_be(orb, entity_id, shorter, i);
        law_taken_up_orbs_can_be(orb, entity_id, shorter, last);
        if takes_up(orb.amount, entity_id, nearby.last()) {
            let all = before.push(last);
            assert(all[before.len() as int] == last);
            if before.contains(i) {
                let k = before.index_of(i);
                assert(all[k] == i);
            }
        }
    }
}

/// How many orbs there are at some places, counting those that several had merged into.
pub open spec fn count_at(nearby: Seq<NearbyOrb>, places: Seq<int>) -> int
    decreases places.len(),
{
    if places.len() == 0 {
        0
    } else {
        count_at(nearby, places.drop_last()) + nearby[places.last()].orb.count
    }
}

/// The experience of the orbs at some places.
pub open spec fn points_at(nearby: Seq<NearbyOrb>, places: Seq<int>) -> int
    decreases places.len(),
{
    if places.len() == 0 {
        0
    } else {
        points_at(nearby, places.drop_last()) + nearby[places.last()].orb.amount
            * nearby[places.last()].orb.count
    }
}

/// What is at some places does not depend on what comes after them.
proof fn lemma_places_before(nearby: Seq<NearbyOrb>, places: Seq<int>)
    requires
        nearby.len() > 0,
        forall|k: int| 0 <= k < places.len() ==> 0 <= #[trigger] places[k] < nearby.len() - 1,
    ensures
        count_at(nearby, places) == count_at(nearby.drop_last(), places),
        points_at(nearby, places) == points_at(nearby.drop_last(), places),
    decreases places.len(),
{
    if places.len() > 0 {
        lemma_places_before(nearby, places.drop_last());
    }
}

/// An orb takes up exactly the orbs that are not itself, are still there, have its amount, and have
/// an entity ID that is a multiple of forty away, differences taken around the end of the range.
/// They are named in order, each once.
pub proof fn law_same_orbs_merge(orb: ExperienceOrbEntity, entity_id: i32, nearby: Seq<NearbyOrb>)
    ensures
        forall|i: int| #[trigger]
            orb.taken_up(entity_id, nearby).contains(i) <==> {
                let apart = nearby[i].entity_id - entity_id;
                let around = if apart > i32::MAX {
                    apart - 0x1_0000_0000
                } else if apart < i32::MIN {
                    apart + 0x1_0000_0000
                } else {
                    apart
                };
                &&& 0 <= i < nearby.len()
                &&& !nearby[i].is_self
                &&& !nearby[i].removed
                &&& nearby[i].orb.amount == orb.amount
                &&& around % 40 == 0
            },
        forall|k: int|
            0 <= k < orb.taken_up(entity_id, nearby).len() ==> 0 <= #[trigger] orb.taken_up(
                entity_id,
                nearby,
            )[k] < nearby.len(),
        forall|k: int, l: int|
            0 <= k < l < orb.taken_up(entity_id, nearby).len() ==> #[trigger] orb.taken_up(
                entity_id,
                nearby,
            )[k] < #[trigger] orb.taken_up(entity_id, nearby)[l],
    decreases nearby.len(),
{
    let all = orb.taken_up(entity_id, nearby);
    if nearby.len() > 0 {
        let shorter = nearby.drop_last();
        let before = orb.taken_up(entity_id, shorter);
        let last = nearby.len() - 1;
        law_same_orbs_merge(orb, entity_id, shorter);
        let other = nearby.last();
        assert forall|i: int| #[trigger] all.contains(i) implies before.contains(i) || i == last by {
            let k = all.index_of(i);
            if k < before.len() {
                assert(before[k] == i);
            }
        }
        assert forall|i: int| before.contains(i) implies #[trigger] all.contains(i) by {
            let k = before.index_of(i);
            assert(all[k] == i);
        }
        if takes_up(orb.amount, entity_id, other) {
            assert(all[before.len() as int] == last);
        }
        assert(!before.contains(last)) by {
            if before.contains(last) {
                let k = before.index_of(last);
                assert(0 <= before[k] < shorter.len());
            }
        }
        assert forall|i: int| 0 <= i < last implies #[trigger] shorter[i] == nearby[i] by {}
    }
}

/// Merging keeps experience: what the orb is worth afterwards is what it was worth before and what
/// the orbs that go are worth, as long as the count can hold it. All that go have its amount. The
/// orb is as young as the youngest of them all.
pub proof fn law_merging_keeps_points(
    orb: ExperienceOrbEntity,
    entity_id: i32,
    nearby: Seq<NearbyOrb>,
)
    ensures
        ({
            let gone = orb.taken_up(entity_id, nearby);
            let merged = orb.merged(entity_id, nearby);
            &&& merged.amount == orb.amount
            &&& orb.count + count_at(nearby, gone) <= u32::MAX ==> merged.count == orb.count
                + count_at(nearby, gone)
            &&& orb.count + count_at(nearby, gone) <= u32::MAX ==> merged.amount * merged.count
                == orb.amount * orb.count + points_at(nearby, gone)
            &&& forall|k: int|
                0 <= k < gone.len() ==> nearby[#[trigger] gone[k]].orb.amount == orb.amount
            &&& merged.orb_age <= orb.orb_age
            &&& forall|k: int|
                0 <= k < gone.len() ==> merged.orb_age <= nearby[#[trigger] gone[k]].orb.orb_age
            &&& merged.orb_age == orb.orb_age || exists|k: int|
                0 <= k < gone.len() && merged.orb_age == nearby[#[trigger] gone[k]].orb.orb_age
            &&& 0 <= count_at(nearby, gone)
            &&& merged.count == (orb.count + count_at(nearby, gone)) % 0x1_0000_0000
            &&& points_at(nearby, gone) == orb.amount * count_at(nearby, gone)
        }),
    decreases nearby.len(),
{
    let gone = orb.taken_up(entity_id, nearby);
    let merged = orb.merged(entity_id, nearby);
    law_same_orbs_merge(orb, entity_id, nearby);
    if nearby.len() > 0 {
        let shorter = nearby.drop_last();
        let before = orb.taken_up(entity_id, shorter);
        law_same_orbs_merge(orb, entity_id, shorter);
        law_merging_keeps_points(orb, entity_id, shorter);
        lemma_places_before(nearby, before);
        let other = nearby.last().orb;
        assert forall|k: int| 0 <= k < before.len() implies nearby[#[trigger] before[k]]
            == shorter[before[k]] by {}
        if takes_up(orb.amount, entity_id, nearby.last()) {
            assert(gone.drop_last() =~= before);
            assert(gone.last() == nearby.len() - 1);
            assert(gone[before.len() as int] == nearby.len() - 1);
            assert forall|k: int| 0 <= k < before.len() implies #[trigger] gone[k] == before[k] by {}
            assert(orb.amount * (count_at(nearby, before) + other.count) == orb.amount * count_at(
                nearby,
                before,
            ) + orb.amount * other.count) by (nonlinear_arith);
            if merged.orb_age != orb.orb_age && merged.orb_age != other.orb_age {
                let k = choose|k: int|
                    0 <= k < before.len() && merged.orb_age
                        == shorter[#[trigger] before[k]].orb.orb_age;
                assert(gone[k] == before[k]);
            }
        } else {
            assert(gone == before);
            if merged.orb_age != orb.orb_age {
                let k = choose|k: int|
                    0 <= k < before.len() && merged.orb_age
                        == shorter[#[trigger] before[k]].orb.orb_age;
                assert(nearby[gone[k]].orb.orb_age == merged.orb_age);
            }
        }
    } else {
        assert(orb.amount * 0 == 0);
    }
    assert(orb.amount * (orb.count + count_at(nearby, gone)) == orb.amount * orb.count + orb.amount
        * count_at(nearby, gone)) by (nonlinear_arith);
}

/// Orbs come in eleven sizes, and a value gets the largest that it is enough for.
pub proof fn law_orb_size_is_largest(value: u32)
    ensures
        ({
            let size = orb_size(value);
            &&& value > 0 ==> size <= value
            &&& {
                ||| size == 1
                ||| size == 3
                ||| size == 7
                ||| size == 17
                ||| size == 37
                ||| size == 73
                ||| size == 149
                ||| size == 307
                ||| size == 617
                ||| size == 1237
                ||| size == 2477
            }
            &&& size >= 1
            &&& value >= 3 ==> size >= 3
            &&& value >= 7 ==> size >= 7
            &&& value >= 17 ==> size >= 17
            &&& value >= 37 ==> size >= 37
            &&& value >= 73 ==> size >= 73
            &&& value >= 149 ==> size >= 149
            &&& value >= 307 ==> size >= 307
            &&& value >= 617 ==> size >= 617
            &&& value >= 1237 ==> size >= 1237
            &&& value >= 2477 ==> size >= 2477
        }),
{
    lemma_orb_size(value);
    let sizes = orb_sizes();
    assert(sizes[0] == 2477 && sizes[1] == 1237 && sizes[2] == 617 && sizes[3] == 307 && sizes[4]
        == 149 && sizes[5] == 73 && sizes[6] == 37 && sizes[7] == 17 && sizes[8] == 7 && sizes[9]
        == 3 && sizes[10] == 1);
    if value > 0 {
        let i = choose|i: int| 0 <= i < sizes.len() && sizes[i] == orb_size(value);
    }
}

/// Splitting is greedy: every orb is the largest that what is left is enough for.
pub proof fn law_orbs_are_greedy(amount: u32, i: int)
    requires
        0 <= i < orbs_of(amount).len(),
    ensures
        0 < worth(orbs_of(amount).skip(i)) <= amount,
        orbs_of(amount)[i] == orb_size(worth(orbs_of(amount).skip(i)) as u32),
    decreases amount,
{
    if amount > 0 {
        lemma_orb_size(amount);
        let size = orb_size(amount);
        let rest = (amount - size) as u32;
        let orbs = orbs_of(amount);
        assert(orbs =~= seq![size] + orbs_of(rest));
        if i == 0 {
            law_orbs_add_up(amount);
            assert(orbs.skip(0) =~= orbs);
        } else {
            law_orbs_are_greedy(rest, i - 1);
            assert(orbs.skip(i) =~= orbs_of(rest).skip(i - 1));
        }
    }
}

} // verus!
