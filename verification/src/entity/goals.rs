//! What mobs set out to do.

use vstd::prelude::*;

verus! {

/// Kinds of entities that goals refer to.
#[derive(Clone, Copy, Debug, PartialEq, Eq, Structural)]
pub enum EntityKind {
    Player,
    Chicken,
    Turtle,
}

/// Something that a mob can set out to do. Speeds and distances are in thousandths.
#[derive(Clone, Copy, Debug, PartialEq, Eq, Structural)]
pub enum MobGoal {
    Swim,
    EscapeDanger { speed: u32 },
    Breed { speed: u32 },
    /// Follows whoever holds the mob's food.
    Tempt { speed: u32 },
    FollowParent { speed: u32 },
    WanderAround { speed: u32 },
    LookAtEntity { target: EntityKind, range: u32 },
    RandomLookAround,
    AvoidEntity { target: EntityKind, distance: u32, slow_speed: u32, fast_speed: u32 },
    OcelotAttack,
    ActiveTarget { target: EntityKind, check_visibility: bool },
}

/// A goal with its priority; smaller numbers come first.
#[derive(Clone, Copy, Debug, PartialEq, Eq, Structural)]
pub struct PrioritizedGoal {
    pub priority: u8,
    pub goal: MobGoal,
}

/// A goal with its priority.
pub open spec fn goal_at(priority: u8, goal: MobGoal) -> PrioritizedGoal {
    PrioritizedGoal { priority, goal }
}

/// The goals of a mob, in the order in which they were added.
#[derive(Debug)]
pub struct GoalSelector {
    pub goals: Vec<PrioritizedGoal>,
}

/// Whether goals stand in order of priority.
pub open spec fn in_priority_order(goals: Seq<PrioritizedGoal>) -> bool {
    forall|i: int, j: int| 0 <= i <= j < goals.len() ==> goals[i].priority <= goals[j].priority
}

impl GoalSelector {
    #[must_use]
    pub fn new() -> (selector: Self)
        ensures
            selector.goals@ == Seq::<PrioritizedGoal>::empty(),
    {
        GoalSelector { goals: Vec::new() }
    }

    pub fn add_goal(&mut self, priority: u8, goal: MobGoal)
        ensures
            final(self).goals@ == old(self).goals@.push(goal_at(priority, goal)),
    {
        self.goals.push(PrioritizedGoal { priority, goal });
    }
}

} // verus!
