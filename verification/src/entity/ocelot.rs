//! Ocelots, and how they come to trust players.

use crate::entity::goals::{goal_at, in_priority_order, EntityKind, GoalSelector, MobGoal, PrioritizedGoal};
use crate::entity::item::Item;
use crate::entity::nbt::{bool_at, NbtCompound, NbtValue};
use crate::ieee::{lemma_double_value, Double};
use rand::RngExt;
use vstd::arithmetic::power2::{lemma_pow2_unfold, pow2};
use vstd::prelude::*;

verus! {

/// Speed of a sneaking ocelot, in thousandths.
pub const CROUCH_SPEED_MOD: u32 = 600;

/// Speed of a walking ocelot, in thousandths.
pub const WALK_SPEED_MOD: u32 = 800;

/// Speed of a running ocelot, in thousandths.
pub const SPRINT_SPEED_MOD: u32 = 1330;

/// Bit pattern of 9: players feed from less than three blocks away.
pub const FEED_REACH_SQUARED_BITS: u64 = 0x4022_0000_0000_0000;

/// How many rolls there are; the first one wins trust.
pub const TRUST_ROLLS: u32 = 3;

/// An ocelot.
#[derive(Debug)]
pub struct OcelotEntity {
    pub goals: GoalSelector,
    pub target_goals: GoalSelector,
    pub trusting: bool,
    /// Whether the ocelot is following someone who holds food.
    pub tempt_running: bool,
}

/// What clients are told of an ocelot.
#[derive(Clone, Copy, Debug, PartialEq, Eq, Structural)]
pub enum OcelotMetadata {
    Baby(bool),
    Trusting(bool),
}

/// What comes of a player using an item on an ocelot.
#[derive(Clone, Copy, Debug, PartialEq, Eq, Structural)]
pub enum OcelotInteraction {
    /// The ocelot came to trust the player and clients are to be told so.
    TrustingSucceeded(OcelotMetadata),
    /// The ocelot ate and still trusts no one.
    TrustingFailed,
    /// The item is used as on any animal.
    Animal,
}

impl OcelotInteraction {
    /// Whether the interaction was an attempt to win trust. Won or not, an attempt uses up one of
    /// the items, unless the player is in creative mode.
    pub open spec fn is_attempt(self) -> bool {
        self is TrustingSucceeded || self is TrustingFailed
    }

    /// Whether the interaction uses up one of the items, unless the player is in creative mode.
    #[must_use]
    pub fn uses_item(&self) -> (uses: bool)
        ensures
            uses == self.is_attempt(),
    {
        match self {
            OcelotInteraction::TrustingSucceeded(_) => true,
            OcelotInteraction::TrustingFailed => true,
            OcelotInteraction::Animal => false,
        }
    }
}

/// What ocelots set out to do.
pub open spec fn ocelot_goals() -> Seq<PrioritizedGoal> {
    seq![
        goal_at(1, MobGoal::Swim),
        goal_at(3, MobGoal::Tempt { speed: CROUCH_SPEED_MOD }),
        goal_at(
            4,
            MobGoal::AvoidEntity {
                target: EntityKind::Player,
                distance: 16_000,
                slow_speed: WALK_SPEED_MOD,
                fast_speed: SPRINT_SPEED_MOD,
            },
        ),
        goal_at(8, MobGoal::OcelotAttack),
        goal_at(9, MobGoal::Breed { speed: 800 }),
        goal_at(10, MobGoal::WanderAround { speed: WALK_SPEED_MOD }),
        goal_at(11, MobGoal::LookAtEntity { target: EntityKind::Player, range: 10_000 }),
        goal_at(11, MobGoal::RandomLookAround),
    ]
}

/// What ocelots hunt.
pub open spec fn ocelot_target_goals() -> Seq<PrioritizedGoal> {
    seq![
        goal_at(1, MobGoal::ActiveTarget { target: EntityKind::Chicken, check_visibility: true }),
        goal_at(1, MobGoal::ActiveTarget { target: EntityKind::Turtle, check_visibility: true }),
    ]
}

/// What ocelots eat.
pub open spec fn is_ocelot_food(item: Item) -> bool {
    item == Item::Cod || item == Item::Salmon
}

/// `rand::rng` and `RngExt::random_range`: a number below the bound, whichever chance picks.
#[verifier::external_body]
fn roll_below(bound: u32) -> (roll: u32)
    requires
        bound > 0,
    ensures
        roll < bound,
{
    rand::rng().random_range(0..bound)
}

/// Whether chance can pick a number below a bound.
pub closed spec fn can_roll(bound: u32, roll: u32) -> bool {
    call_ensures(roll_below, (bound,), roll)
}

/// What comes of an attempt to win trust with a roll.
pub open spec fn attempt_outcome(roll: u32) -> OcelotInteraction {
    if roll == 0 {
        OcelotInteraction::TrustingSucceeded(OcelotMetadata::Trusting(true))
    } else {
        OcelotInteraction::TrustingFailed
    }
}

impl OcelotEntity {
    /// Whether feeding the ocelot from this far is an attempt to win its trust.
    pub open spec fn trust_is_at_stake(self, item: Item, distance_squared: Double) -> bool {
        &&& self.tempt_running
        &&& !self.trusting
        &&& is_ocelot_food(item)
        &&& (Double { bits: FEED_REACH_SQUARED_BITS }).above(distance_squared)
    }

    /// The ocelot after an attempt to win its trust with a roll.
    pub open spec fn after_attempt(self, roll: u32) -> OcelotEntity {
        OcelotEntity { trusting: roll == 0 || self.trusting, ..self }
    }

    /// Saved values with the ocelot's trust among them.
    pub open spec fn saved<P>(self, values: Map<Seq<char>, NbtValue<P>>) -> Map<
        Seq<char>,
        NbtValue<P>,
    > {
        values.insert("Trusting"@, NbtValue::Bool(self.trusting))
    }

    /// The ocelot with its saved trust; without any it does not trust.
    pub open spec fn loaded<P>(self, values: Map<Seq<char>, NbtValue<P>>) -> OcelotEntity {
        OcelotEntity { trusting: bool_at(values, "Trusting"@) == Some(true), ..self }
    }

    #[must_use]
    pub fn new() -> (ocelot: Self)
        ensures
            ocelot.goals.goals@ == ocelot_goals(),
            ocelot.target_goals.goals@ == ocelot_target_goals(),
            in_priority_order(ocelot.goals.goals@),
            in_priority_order(ocelot.target_goals.goals@),
            !ocelot.trusting,
            !ocelot.tempt_running,
    {
        let mut goals = GoalSelector::new();
        goals.add_goal(1, MobGoal::Swim);
        goals.add_goal(3, MobGoal::Tempt { speed: CROUCH_SPEED_MOD });
        goals.add_goal(
            4,
            MobGoal::AvoidEntity {
                target: EntityKind::Player,
                distance: 16_000,
                slow_speed: WALK_SPEED_MOD,
                fast_speed: SPRINT_SPEED_MOD,
            },
        );
        goals.add_goal(8, MobGoal::OcelotAttack);
        goals.add_goal(9, MobGoal::Breed { speed: 800 });
        goals.add_goal(10, MobGoal::WanderAround { speed: WALK_SPEED_MOD });
        goals.add_goal(11, MobGoal::LookAtEntity { target: EntityKind::Player, range: 10_000 });
        goals.add_goal(11, MobGoal::RandomLookAround);
        let mut target_goals = GoalSelector::new();
        target_goals.add_goal(
            1,
            MobGoal::ActiveTarget { target: EntityKind::Chicken, check_visibility: true },
        );
        target_goals.add_goal(
            1,
            MobGoal::ActiveTarget { target: EntityKind::Turtle, check_visibility: true },
        );
        assert(goals.goals@ =~= ocelot_goals());
        assert(target_goals.goals@ =~= ocelot_target_goals());
        OcelotEntity { goals, target_goals, trusting: false, tempt_running: false }
    }

    #[must_use]
    pub fn is_trusting(&self) -> (trusting: bool)
        ensures
            trusting == self.trusting,
    {
        self.trusting
    }

    /// Makes the ocelot trust players or not, and says what clients are to be told.
    pub fn set_trusting(&mut self, trusting: bool) -> (metadata: OcelotMetadata)
        ensures
            *final(self) == (OcelotEntity { trusting, ..*old(self) }),
            metadata == OcelotMetadata::Trusting(trusting),
    {
        self.trusting = trusting;
        OcelotMetadata::Trusting(trusting)
    }

    #[must_use]
    pub fn is_food(&self, item: Item) -> (food: bool)
        ensures
            food == is_ocelot_food(item),
    {
        item == Item::Cod || item == Item::Salmon
    }

    /// Saves the ocelot's trust.
    pub fn write_nbt<P>(&self, nbt: &mut NbtCompound<P>)
        ensures
            final(nbt)@ == self.saved(old(nbt)@),
    {
        nbt.put("Trusting", NbtValue::Bool(self.trusting));
    }

    /// Takes saved trust.
    pub fn read_nbt<P>(&mut self, nbt: &NbtCompound<P>)
        ensures
            *final(self) == old(self).loaded(nbt@),
    {
        self.trusting = match nbt.get_bool("Trusting") {
            Some(flag) => flag,
            None => false,
        };
    }

    /// A player uses an item on the ocelot from the given squared distance. If that is an attempt
    /// to win its trust, chance picks one of three rolls.
    pub fn mob_interact(&mut self, item: Item, distance_squared: Double) -> (interaction:
        OcelotInteraction)
        ensures
            interaction.is_attempt() == old(self).trust_is_at_stake(item, distance_squared),
            old(self).trust_is_at_stake(item, distance_squared) ==> exists|roll: u32|
                roll < TRUST_ROLLS && #[trigger] can_roll(TRUST_ROLLS, roll) && interaction
                    == attempt_outcome(roll) && *final(self) == old(self).after_attempt(roll),
            !old(self).trust_is_at_stake(item, distance_squared) ==> interaction
                == OcelotInteraction::Animal && *final(self) == *old(self),
    {
        if self.tempt_running && !self.trusting && self.is_food(item) && (Double {
            bits: FEED_REACH_SQUARED_BITS,
        }).exceeds(distance_squared) {
            let roll: u32 = roll_below(TRUST_ROLLS);
            assert(can_roll(TRUST_ROLLS, roll));
            self.attempt_trust(roll)
        } else {
            OcelotInteraction::Animal
        }
    }

    /// An attempt to win the ocelot's trust with the given roll.
    pub fn attempt_trust(&mut self, roll: u32) -> (interaction: OcelotInteraction)
        ensures
            *final(self) == old(self).after_attempt(roll),
            interaction == attempt_outcome(roll),
            interaction.is_attempt(),
    {
        if roll == 0 {
            let metadata = self.set_trusting(true);
            OcelotInteraction::TrustingSucceeded(metadata)
        } else {
            OcelotInteraction::TrustingFailed
        }
    }

    /// What a client that starts to see the ocelot is told, given the ocelot's age.
    #[must_use]
    pub fn mob_init_data_tracker(&self, age: i32) -> (metadata: Vec<OcelotMetadata>)
        ensures
            metadata@ == (if age < 0 {
                seq![OcelotMetadata::Baby(true), OcelotMetadata::Trusting(self.trusting)]
            } else {
                seq![OcelotMetadata::Trusting(self.trusting)]
            }),
    {
        let mut metadata: Vec<OcelotMetadata> = Vec::new();
        if age < 0 {
            metadata.push(OcelotMetadata::Baby(true));
        }
        metadata.push(OcelotMetadata::Trusting(self.trusting));
        metadata
    }

    /// The ocelot starts to follow someone who holds food.
    pub fn start_tempt(&mut self)
        ensures
            *final(self) == (OcelotEntity { tempt_running: true, ..*old(self) }),
    {
        self.tempt_running = true;
    }

    /// The ocelot stops following.
    pub fn stop_tempt(&mut self)
        ensures
            *final(self) == (OcelotEntity { tempt_running: false, ..*old(self) }),
    {
        self.tempt_running = false;
    }

    /// Whether the ocelot flees players, or keeps fleeing: never once it trusts them, else as
    /// `flees` says, which is asked only then.
    pub fn avoids_players<F: FnOnce() -> bool>(&self, flees: F) -> (avoids: bool)
        requires
            flees.requires(()),
        ensures
            self.trusting ==> !avoids,
            !self.trusting ==> flees.ensures((), avoids),
    {
        if self.trusting {
            false
        } else {
            flees()
        }
    }
}

/// What an ocelot saves brings its trust back into any other.
pub proof fn law_trust_survives_saving<P>(
    ocelot: OcelotEntity,
    other: OcelotEntity,
    values: Map<Seq<char>, NbtValue<P>>,
)
    ensures
        other.loaded(ocelot.saved(values)).trusting == ocelot.trusting,
        ocelot.loaded(ocelot.saved(values)) == ocelot,
{
}

/// Trust is won by exactly one of the rolls, and never lost by any.
pub proof fn law_one_roll_wins_trust(ocelot: OcelotEntity, roll: u32)
    requires
        !ocelot.trusting,
        roll < TRUST_ROLLS,
    ensures
        ocelot.after_attempt(roll).trusting <==> roll == 0,
        ocelot.after_attempt(roll).after_attempt(roll) == ocelot.after_attempt(roll),
{
}

/// Trust is at stake only while the ocelot is tempted and does not trust yet.
pub proof fn law_trusting_ocelots_are_not_tested(
    ocelot: OcelotEntity,
    item: Item,
    distance_squared: Double,
)
    requires
        ocelot.trusting || !ocelot.tempt_running,
    ensures
        !ocelot.trust_is_at_stake(item, distance_squared),
{
}

/// Trust is at stake exactly if a tempted ocelot that does not trust yet is offered cod or salmon
/// from less than three blocks away.
pub proof fn law_when_trust_is_at_stake(ocelot: OcelotEntity, item: Item, distance_squared: Double)
    ensures
        ocelot.trust_is_at_stake(item, distance_squared) <==> {
            &&& ocelot.tempt_running
            &&& !ocelot.trusting
            &&& item == Item::Cod || item == Item::Salmon
            &&& (Double { bits: 0x4022_0000_0000_0000 }).above(distance_squared)
        },
        is_ocelot_food(item) <==> item == Item::Cod || item == Item::Salmon,
{
}

/// The reach is three blocks: its square is nine times one. One roll in three wins.
pub proof fn law_reach_and_rolls()
    ensures
        (Double { bits: FEED_REACH_SQUARED_BITS }).value() == 9 * (Double {
            bits: 0x3ff0_0000_0000_0000,
        }).value(),
        TRUST_ROLLS == 3,
{
    lemma_double_value(0x3ff, 0);
    lemma_double_value(0x402, 0x2_0000_0000_0000);
    lemma_pow2_unfold(0x3ff);
    lemma_pow2_unfold(0x400);
    lemma_pow2_unfold(0x401);
    let p = pow2(0x3fe) as int;
    assert(0x12_0000_0000_0000 * (2 * (2 * (2 * p))) == 9 * (0x10_0000_0000_0000 * p))
        by (nonlinear_arith);
}

/// A roll of zero wins trust, which clients are told, any other one does not, and nothing but trust
/// changes.
pub proof fn law_attempts(ocelot: OcelotEntity, roll: u32)
    ensures
        attempt_outcome(roll) == OcelotInteraction::TrustingSucceeded(
            OcelotMetadata::Trusting(true),
        ) <==> roll == 0,
        attempt_outcome(roll) == OcelotInteraction::TrustingFailed <==> roll != 0,
        attempt_outcome(roll).is_attempt(),
        !OcelotInteraction::Animal.is_attempt(),
        ocelot.after_attempt(roll).trusting <==> ocelot.trusting || roll == 0,
        ocelot.after_attempt(roll) == (OcelotEntity {
            trusting: ocelot.after_attempt(roll).trusting,
            ..ocelot
        }),
{
}

/// Trust is saved as a flag of its own name and read from it; without the flag there is none.
pub proof fn law_trust_is_saved_as_a_flag<P>(
    ocelot: OcelotEntity,
    values: Map<Seq<char>, NbtValue<P>>,
    other: Seq<char>,
)
    ensures
        ocelot.saved(values).contains_key("Trusting"@),
        ocelot.saved(values)["Trusting"@] == NbtValue::<P>::Bool(ocelot.trusting),
        other != "Trusting"@ ==> ocelot.saved(values).contains_key(other) == values.contains_key(
            other,
        ) && ocelot.saved(values)[other] == values[other],
        !values.contains_key("Trusting"@) ==> !ocelot.loaded(values).trusting,
        ocelot.loaded(values) == (OcelotEntity {
            trusting: ocelot.loaded(values).trusting,
            ..ocelot
        }),
{
}

/// Ocelots swim first, follow food, flee players, attack, breed and wander in this order; looking
/// around comes last. They hunt chickens and turtles that they see.
pub proof fn law_ocelot_goals()
    ensures
        ocelot_goals().len() == 8,
        ocelot_goals()[0] == (PrioritizedGoal { priority: 1, goal: MobGoal::Swim }),
        ocelot_goals()[1] == (PrioritizedGoal { priority: 3, goal: MobGoal::Tempt { speed: 600 } }),
        ocelot_goals()[2] == (PrioritizedGoal {
            priority: 4,
            goal: MobGoal::AvoidEntity {
                target: EntityKind::Player,
                distance: 16_000,
                slow_speed: 800,
                fast_speed: 1330,
            },
        }),
        ocelot_goals()[3] == (PrioritizedGoal { priority: 8, goal: MobGoal::OcelotAttack }),
        ocelot_goals()[4] == (PrioritizedGoal { priority: 9, goal: MobGoal::Breed { speed: 800 } }),
        ocelot_goals()[5] == (PrioritizedGoal {
            priority: 10,
            goal: MobGoal::WanderAround { speed: 800 },
        }),
        ocelot_goals()[6] == (PrioritizedGoal {
            priority: 11,
            goal: MobGoal::LookAtEntity { target: EntityKind::Player, range: 10_000 },
        }),
        ocelot_goals()[7] == (PrioritizedGoal { priority: 11, goal: MobGoal::RandomLookAround }),
        ocelot_target_goals().len() == 2,
        ocelot_target_goals()[0] == (PrioritizedGoal {
            priority: 1,
            goal: MobGoal::ActiveTarget { target: EntityKind::Chicken, check_visibility: true },
        }),
        ocelot_target_goals()[1] == (PrioritizedGoal {
            priority: 1,
            goal: MobGoal::ActiveTarget { target: EntityKind::Turtle, check_visibility: true },
        }),
{
}

} // verus!
