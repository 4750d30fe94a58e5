//! Leaves and how far they are from wood.

use crate::text::same_text;
use vstd::prelude::*;
use vstd::string::*;

verus! {

/// Leaves this far from any log, or farther, decay.
pub const MAX_DISTANCE: u8 = 7;

/// Leaves look around again so many ticks after a neighbor has changed.
pub const UPDATE_DELAY: u8 = 1;

/// The state of a block of leaves.
#[derive(Clone, Copy, Debug, PartialEq, Eq, Structural)]
pub struct LeavesProperties {
    /// How many steps of leaves away the nearest log is.
    pub distance: u8,
    /// Persistent leaves never decay.
    pub persistent: bool,
    pub waterlogged: bool,
}

/// What leaves know of a neighbor.
#[derive(Clone, Copy, Debug, PartialEq, Eq, Structural)]
pub struct Neighbor {
    pub is_log: bool,
    pub is_leaves: bool,
    /// The distance of the neighbor if it is leaves.
    pub distance: u8,
}

/// A block with its name, without the namespace.
#[derive(Debug)]
pub struct NamedBlock {
    pub name: String,
    pub id: u16,
}

pub struct LeavesBlock;

/// A key without the `minecraft` namespace.
pub open spec fn without_namespace(key: Seq<char>) -> Seq<char> {
    if key.len() >= 10 && key.take(10) == "minecraft:"@ {
        key.skip(10)
    } else {
        key
    }
}

/// The first block of a name.
pub open spec fn block_named(blocks: Seq<NamedBlock>, name: Seq<char>) -> Option<u16>
    decreases blocks.len(),
{
    if blocks.len() == 0 {
        None
    } else if blocks[0].name@ == name {
        Some(blocks[0].id)
    } else {
        block_named(blocks.skip(1), name)
    }
}

/// The blocks that keys stand for, in order; keys of unknown blocks stand for none.
pub open spec fn blocks_of(keys: Seq<String>, blocks: Seq<NamedBlock>) -> Seq<u16>
    decreases keys.len(),
{
    if keys.len() == 0 {
        Seq::empty()
    } else {
        let before = blocks_of(keys.drop_last(), blocks);
        match block_named(blocks, without_namespace(keys.last()@)) {
            Some(id) => before.push(id),
            None => before,
        }
    }
}

/// What a neighbor contributes: logs are the source, leaves hand on their own distance.
pub open spec fn contribution(neighbor: Neighbor) -> Option<u8> {
    if neighbor.is_log {
        Some(0)
    } else if neighbor.is_leaves {
        Some(neighbor.distance)
    } else {
        None
    }
}

/// Whether leaves that a neighbor leads to are this far away.
pub open spec fn steps_from(neighbor: Neighbor, distance: int) -> bool {
    match contribution(neighbor) {
        Some(from) => distance == from + 1,
        None => false,
    }
}

/// Whether `distance` is one more than the least that any neighbor contributes, but at most the
/// maximum.
pub open spec fn is_distance(neighbors: Seq<Neighbor>, distance: int) -> bool {
    &&& distance <= MAX_DISTANCE
    &&& forall|i: int|
        0 <= i < neighbors.len() ==> match contribution(#[trigger] neighbors[i]) {
            Some(from) => distance <= from + 1,
            None => true,
        }
    &&& distance == MAX_DISTANCE || exists|i: int|
        0 <= i < neighbors.len() && steps_from(#[trigger] neighbors[i], distance)
}

/// Whether leaves break when they are ticked at random.
pub open spec fn decays(props: LeavesProperties) -> bool {
    !props.persistent && props.distance >= MAX_DISTANCE
}

/// A key without the `minecraft` namespace.
fn strip_namespace(key: &str) -> (rest: &str)
    ensures
        rest@ == without_namespace(key@),
{
    let length: usize = key.unicode_len();
    if length >= 10 {
        let start = key.substring_char(0, 10);
        assert(key@.subrange(0, 10) =~= key@.take(10));
        if same_text(start, "minecraft:") {
            let rest = key.substring_char(10, length);
            assert(rest@ =~= key@.skip(10));
            return rest;
        }
    }
    key
}

/// The first block of a name.
fn find_block(blocks: &[NamedBlock], name: &str) -> (found: Option<u16>)
    ensures
        found == block_named(blocks@, name@),
{
    assert(blocks@.skip(0) =~= blocks@);
    for i in 0..blocks.len()
        invariant
            block_named(blocks@, name@) == block_named(blocks@.skip(i as int), name@),
    {
        if same_text(blocks[i].name.as_str(), name) {
            return Some(blocks[i].id);
        }
        assert(blocks@.skip(i as int).skip(1) =~= blocks@.skip(i + 1));
    }
    None
}

/// What a neighbor contributes to the distance.
#[must_use]
pub fn distance_from_state(neighbor: Neighbor) -> (distance: Option<u8>)
    ensures
        distance == contribution(neighbor),
{
    if neighbor.is_log {
        return Some(0);
    }
    if neighbor.is_leaves {
        Some(neighbor.distance)
    } else {
        None
    }
}

/// The distance of leaves with these neighbors.
#[must_use]
pub fn compute_distance(neighbors: &[Neighbor]) -> (distance: u8)
    ensures
        1 <= distance,
        is_distance(neighbors@, distance as int),
{
    let mut distance: u8 = MAX_DISTANCE;
    for i in 0..neighbors.len()
        invariant
            1 <= distance,
            is_distance(neighbors@.take(i as int), distance as int),
    {
        let ghost seen = neighbors@.take(i as int);
        let ghost more = neighbors@.take(i + 1);
        let ghost before = distance;
        assert(more =~= seen.push(neighbors@[i as int]));
        if let Some(from) = distance_from_state(neighbors[i]) {
            let step: u8 = from.saturating_add(1);
            if step < distance {
                distance = step;
                assert(steps_from(more[i as int], distance as int));
            }
        }
        proof {
            if distance == before && before != MAX_DISTANCE {
                let j = choose|j: int| 0 <= j < seen.len() && steps_from(seen[j], before as int);
                assert(steps_from(more[j], before as int));
            }
            assert forall|j: int| 0 <= j < more.len() implies match contribution(
                #[trigger] more[j],
            ) {
                Some(from) => distance <= from + 1,
                None => true,
            } by {
                if j < i {
                    assert(seen[j] == more[j]);
                }
            }
        }
    }
    assert(neighbors@.take(neighbors@.len() as int) =~= neighbors@);
    distance
}

impl LeavesBlock {
    /// The blocks that a tag lists, of those that are known.
    #[must_use]
    pub fn ids(tag: &[String], blocks: &[NamedBlock]) -> (ids: Vec<u16>)
        ensures
            ids@ == blocks_of(tag@, blocks@),
    {
        let mut ids: Vec<u16> = Vec::new();
        for i in 0..tag.len()
            invariant
                ids@ == blocks_of(tag@.take(i as int), blocks@),
        {
            assert(tag@.take(i + 1).drop_last() =~= tag@.take(i as int));
            if let Some(id) = find_block(blocks, strip_namespace(tag[i].as_str())) {
                ids.push(id);
            }
        }
        assert(tag@.take(tag@.len() as int) =~= tag@);
        ids
    }

    /// The state of leaves that a player places, given the block's default state.
    #[must_use]
    pub fn on_place(&self, default: LeavesProperties, neighbors: &[Neighbor]) -> (props:
        LeavesProperties)
        ensures
            is_distance(neighbors@, props.distance as int),
            props == (LeavesProperties { persistent: true, distance: props.distance, ..default }),
    {
        LeavesProperties { persistent: true, distance: compute_distance(neighbors), ..default }
    }

    /// A neighbor has changed: the state stays, and is looked at again after so many ticks.
    #[must_use]
    pub fn get_state_for_neighbor_update(&self, state: u16) -> (update: (u16, u8))
        ensures
            update == (state, UPDATE_DELAY),
    {
        (state, UPDATE_DELAY)
    }

    /// The state that leaves are to get when they look around, if it is another one.
    #[must_use]
    pub fn on_scheduled_tick(&self, props: LeavesProperties, neighbors: &[Neighbor]) -> (changed:
        Option<LeavesProperties>)
        ensures
            match changed {
                Some(new) => {
                    &&& is_distance(neighbors@, new.distance as int)
                    &&& new.distance != props.distance
                    &&& new == (LeavesProperties { distance: new.distance, ..props })
                },
                None => is_distance(neighbors@, props.distance as int),
            },
    {
        let distance: u8 = compute_distance(neighbors);
        if props.distance != distance {
            Some(LeavesProperties { distance, ..props })
        } else {
            None
        }
    }

    /// Whether leaves break when they are ticked at random.
    #[must_use]
    pub fn random_tick(&self, props: LeavesProperties) -> (breaks: bool)
        ensures
            breaks == decays(props),
    {
        !props.persistent && props.distance >= MAX_DISTANCE
    }
}

/// Neighbors give leaves one distance.
pub proof fn law_distance_is_unique(neighbors: Seq<Neighbor>, a: int, b: int)
    requires
        is_distance(neighbors, a),
        is_distance(neighbors, b),
    ensures
        a == b,
{
}

/// Leaves next to a log are one step away from it, and do not decay.
pub proof fn law_leaves_next_to_logs_stay(
    neighbors: Seq<Neighbor>,
    at: int,
    props: LeavesProperties,
)
    requires
        0 <= at < neighbors.len(),
        neighbors[at].is_log,
        is_distance(neighbors, props.distance as int),
    ensures
        props.distance == 1,
        !decays(props),
{
}

/// Leaves with neither logs nor leaves around are as far away as can be, and decay unless they
/// are persistent.
pub proof fn law_lone_leaves_decay(neighbors: Seq<Neighbor>, props: LeavesProperties)
    requires
        forall|i: int|
            0 <= i < neighbors.len() ==> contribution(#[trigger] neighbors[i]) is None,
        is_distance(neighbors, props.distance as int),
    ensures
        props.distance == MAX_DISTANCE,
        decays(props) == !props.persistent,
{
}

/// Placed leaves never decay, however far from a log they come to be.
pub proof fn law_placed_leaves_never_decay(placed: LeavesProperties, distance: u8)
    requires
        placed.persistent,
    ensures
        !decays(placed),
        !decays(LeavesProperties { distance, ..placed }),
{
}

/// The distance of leaves is the least number of steps to a log by way of a neighbor: one from a
/// log, one more than its own from other leaves. It is at most seven, and seven if nothing is
/// nearer.
pub proof fn law_distance_is_least_step(neighbors: Seq<Neighbor>, distance: int)
    ensures
        is_distance(neighbors, distance) <==> {
            &&& distance <= 7
            &&& forall|i: int|
                0 <= i < neighbors.len() ==> {
                    &&& (#[trigger] neighbors[i]).is_log ==> distance <= 1
                    &&& neighbors[i].is_leaves && !neighbors[i].is_log ==> distance
                        <= neighbors[i].distance + 1
                }
            &&& distance == 7 || exists|i: int|
                0 <= i < neighbors.len() && (((#[trigger] neighbors[i]).is_log && distance == 1) || (
                neighbors[i].is_leaves && !neighbors[i].is_log && distance == neighbors[i].distance
                    + 1))
        },
{
    if is_distance(neighbors, distance) {
        if distance != 7 {
            let i = choose|i: int|
                0 <= i < neighbors.len() && steps_from(#[trigger] neighbors[i], distance);
            assert(neighbors[i].is_log || neighbors[i].is_leaves);
        }
        assert forall|i: int| 0 <= i < neighbors.len() implies {
            &&& (#[trigger] neighbors[i]).is_log ==> distance <= 1
            &&& neighbors[i].is_leaves && !neighbors[i].is_log ==> distance <= neighbors[i].distance
                + 1
        } by {
            assert(match contribution(neighbors[i]) {
                Some(from) => distance <= from + 1,
                None => true,
            });
        }
    }
    if distance <= 7 && (forall|i: int|
        0 <= i < neighbors.len() ==> {
            &&& (#[trigger] neighbors[i]).is_log ==> distance <= 1
            &&& neighbors[i].is_leaves && !neighbors[i].is_log ==> distance <= neighbors[i].distance
                + 1
        }) && (distance == 7 || exists|i: int|
        0 <= i < neighbors.len() && (((#[trigger] neighbors[i]).is_log && distance == 1) || (
        neighbors[i].is_leaves && !neighbors[i].is_log && distance == neighbors[i].distance + 1))) {
        if distance != 7 {
            let i = choose|i: int|
                0 <= i < neighbors.len() && (((#[trigger] neighbors[i]).is_log && distance == 1) || (
                neighbors[i].is_leaves && !neighbors[i].is_log && distance == neighbors[i].distance
                    + 1));
            assert(steps_from(neighbors[i], distance));
        }
    }
}

/// A log contributes nothing on top of the step to it, other leaves their distance, and anything
/// else does not contribute.
pub proof fn law_contributions(neighbor: Neighbor)
    ensures
        neighbor.is_log ==> contribution(neighbor) == Some(0u8),
        !neighbor.is_log && neighbor.is_leaves ==> contribution(neighbor) == Some(
            neighbor.distance,
        ),
        !neighbor.is_log && !neighbor.is_leaves ==> contribution(neighbor) is None,
{
}

/// Leaves decay exactly if they are not persistent and at least seven steps away.
pub proof fn law_far_leaves_decay(props: LeavesProperties)
    ensures
        decays(props) <==> !props.persistent && props.distance >= 7,
{
}

/// The `minecraft` namespace can be left out, and nothing else is taken off a key.
pub proof fn law_namespace_is_optional(name: Seq<char>)
    ensures
        without_namespace("minecraft:"@ + name) == name,
        (forall|rest: Seq<char>| name != #[trigger] ("minecraft:"@ + rest)) ==> without_namespace(
            name,
        ) == name,
{
    reveal_strlit("minecraft:");
    let prefix = "minecraft:"@;
    assert((prefix + name).take(10) =~= prefix);
    assert((prefix + name).skip(10) =~= name);
    if name.len() >= 10 && name.take(10) == prefix {
        assert(name =~= prefix + name.skip(10));
    }
}

/// A name leads to the first block that has it.
pub proof fn law_first_block_of_a_name(blocks: Seq<NamedBlock>, name: Seq<char>)
    ensures
        match block_named(blocks, name) {
            Some(id) => exists|i: int|
                {
                    &&& 0 <= i < blocks.len()
                    &&& (#[trigger] blocks[i]).name@ == name
                    &&& blocks[i].id == id
                    &&& forall|j: int| 0 <= j < i ==> (#[trigger] blocks[j]).name@ != name
                },
            None => forall|i: int| 0 <= i < blocks.len() ==> (#[trigger] blocks[i]).name@ != name,
        },
    decreases blocks.len(),
{
    if blocks.len() > 0 {
        let rest = blocks.skip(1);
        law_first_block_of_a_name(rest, name);
        if blocks[0].name@ != name {
            match block_named(rest, name) {
                Some(id) => {
                    let i = choose|i: int|
                        {
                            &&& 0 <= i < rest.len()
                            &&& (#[trigger] rest[i]).name@ == name
                            &&& rest[i].id == id
                            &&& forall|j: int| 0 <= j < i ==> (#[trigger] rest[j]).name@ != name
                        };
                    assert(blocks[i + 1] == rest[i]);
                    assert forall|j: int| 0 <= j < i + 1 implies (#[trigger] blocks[j]).name@
                        != name by {
                        if j > 0 {
                            assert(rest[j - 1] == blocks[j]);
                        }
                    }
                },
                None => {
                    assert forall|i: int| 0 <= i < blocks.len() implies (#[trigger] blocks[i]).name@
                        != name by {
                        if i > 0 {
                            assert(rest[i - 1] == blocks[i]);
                        }
                    }
                },
            }
        } else {
            assert(blocks[0].id == block_named(blocks, name)->0);
        }
    }
}

/// A tag lists what its keys stand for, one after the other: the blocks of two tags in a row are
/// those of the first and then those of the second, and a key alone stands for the block of its
/// name or for none.
pub proof fn law_tags_list_blocks_in_order(
    first: Seq<String>,
    second: Seq<String>,
    key: String,
    blocks: Seq<NamedBlock>,
)
    ensures
        blocks_of(first + second, blocks) == blocks_of(first, blocks) + blocks_of(second, blocks),
        blocks_of(seq![key], blocks) == (match block_named(blocks, without_namespace(key@)) {
            Some(id) => seq![id],
            None => Seq::empty(),
        }),
    decreases second.len(),
{
    reveal_with_fuel(blocks_of, 2);
    assert(seq![key].drop_last() =~= Seq::<String>::empty());
    assert(blocks_of(Seq::<String>::empty(), blocks) =~= Seq::empty());
    if let Some(id) = block_named(blocks, without_namespace(key@)) {
        assert(Seq::<u16>::empty().push(id) =~= seq![id]);
    }
    if second.len() == 0 {
        assert(first + second =~= first);
        assert(blocks_of(first, blocks) + blocks_of(second, blocks) =~= blocks_of(first, blocks));
    } else {
        law_tags_list_blocks_in_order(first, second.drop_last(), key, blocks);
        assert((first + second).drop_last() =~= first + second.drop_last());
        assert((first + second).last() == second.last());
        assert(blocks_of(first + second, blocks) =~= blocks_of(first, blocks) + blocks_of(
            second,
            blocks,
        ));
    }
}

/// Placed leaves are persistent, have the distance that their neighbors give them, and are like the
/// default in everything else.
pub proof fn law_placed_leaves(
    block: LeavesBlock,
    default: LeavesProperties,
    neighbors: &[Neighbor],
    props: LeavesProperties,
    distance: int,
)
    requires
        call_ensures(LeavesBlock::on_place, (&block, default, neighbors), props),
        is_distance(neighbors@, distance),
    ensures
        props.persistent,
        props.distance == distance,
        props.waterlogged == default.waterlogged,
        !decays(props),
{
}

/// Leaves that look around change exactly if their distance is not the one that their neighbors
/// give them, and then only their distance. Once changed, they do not change again.
pub proof fn law_leaves_look_around(
    block: LeavesBlock,
    props: LeavesProperties,
    neighbors: &[Neighbor],
    changed: Option<LeavesProperties>,
    again: Option<LeavesProperties>,
    distance: int,
)
    requires
        call_ensures(LeavesBlock::on_scheduled_tick, (&block, props, neighbors), changed),
        is_distance(neighbors@, distance),
        changed is Some,
        call_ensures(LeavesBlock::on_scheduled_tick, (&block, changed->0, neighbors), again),
    ensures
        props.distance != distance,
        changed->0.distance == distance,
        changed->0.persistent == props.persistent,
        changed->0.waterlogged == props.waterlogged,
        again is None,
{
}

/// Leaves at the distance that their neighbors give them do not change.
pub proof fn law_settled_leaves_stay(
    block: LeavesBlock,
    props: LeavesProperties,
    neighbors: &[Neighbor],
    changed: Option<LeavesProperties>,
)
    requires
        call_ensures(LeavesBlock::on_scheduled_tick, (&block, props, neighbors), changed),
        is_distance(neighbors@, props.distance as int),
    ensures
        changed is None,
{
}

} // verus!
