//! Rabbits.

use crate::entity::goals::{goal_at, in_priority_order, EntityKind, GoalSelector, MobGoal, PrioritizedGoal};
use crate::entity::item::Item;
use vstd::prelude::*;

verus! {

/// A rabbit.
#[derive(Debug)]
pub struct RabbitEntity {
    pub goals: GoalSelector,
}

/// What rabbits set out to do.
pub open spec fn rabbit_goals() -> Seq<PrioritizedGoal> {
    seq![
        goal_at(1, MobGoal::Swim),
        goal_at(1, MobGoal::EscapeDanger { speed: 2200 }),
        goal_at(2, MobGoal::Breed { speed: 800 }),
        goal_at(3, MobGoal::Tempt { speed: 1000 }),
        goal_at(4, MobGoal::FollowParent { speed: 800 }),
        goal_at(5, MobGoal::WanderAround { speed: 600 }),
        goal_at(11, MobGoal::LookAtEntity { target: EntityKind::Player, range: 10_000 }),
        goal_at(11, MobGoal::RandomLookAround),
    ]
}

/// What rabbits eat.
pub open spec fn is_rabbit_food(item: Item) -> bool {
    item == Item::Carrot || item == Item::GoldenCarrot || item == Item::Dandelion
}

impl RabbitEntity {
    #[must_use]
    pub fn new() -> (rabbit: Self)
        ensures
            rabbit.goals.goals@ == rabbit_goals(),
            in_priority_order(rabbit.goals.goals@),
    {
        let mut goals = GoalSelector::new();
        goals.add_goal(1, MobGoal::Swim);
        goals.add_goal(1, MobGoal::EscapeDanger { speed: 2200 });
        goals.add_goal(2, MobGoal::Breed { speed: 800 });
        goals.add_goal(3, MobGoal::Tempt { speed: 1000 });
        goals.add_goal(4, MobGoal::FollowParent { speed: 800 });
        goals.add_goal(5, MobGoal::WanderAround { speed: 600 });
        goals.add_goal(11, MobGoal::LookAtEntity { target: EntityKind::Player, range: 10_000 });
        goals.add_goal(11, MobGoal::RandomLookAround);
        assert(goals.goals@ =~= rabbit_goals());
        RabbitEntity { goals }
    }

    #[must_use]
    pub fn is_food(&self, item: Item) -> (food: bool)
        ensures
            food == is_rabbit_food(item),
    {
        item == Item::Carrot || item == Item::GoldenCarrot || item == Item::Dandelion
    }
}

/// Rabbits eat carrots, plain and golden, and dandelions, and nothing else.
pub proof fn law_rabbit_food(item: Item)
    ensures
        is_rabbit_food(item) <==> item == Item::Carrot || item == Item::GoldenCarrot || item
            == Item::Dandelion,
{
}

/// Rabbits swim and flee first, and breed, follow food, follow their parents and wander in this
/// order; looking around comes last.
pub proof fn law_rabbit_goals()
    ensures
        rabbit_goals().len() == 8,
        rabbit_goals()[0] == (PrioritizedGoal { priority: 1, goal: MobGoal::Swim }),
        rabbit_goals()[1] == (PrioritizedGoal {
            priority: 1,
            goal: MobGoal::EscapeDanger { speed: 2200 },
        }),
        rabbit_goals()[2] == (PrioritizedGoal { priority: 2, goal: MobGoal::Breed { speed: 800 } }),
        rabbit_goals()[3] == (PrioritizedGoal { priority: 3, goal: MobGoal::Tempt { speed: 1000 } }),
        rabbit_goals()[4] == (PrioritizedGoal {
            priority: 4,
            goal: MobGoal::FollowParent { speed: 800 },
        }),
        rabbit_goals()[5] == (PrioritizedGoal {
            priority: 5,
            goal: MobGoal::WanderAround { speed: 600 },
        }),
        rabbit_goals()[6] == (PrioritizedGoal {
            priority: 11,
            goal: MobGoal::LookAtEntity { target: EntityKind::Player, range: 10_000 },
        }),
        rabbit_goals()[7] == (PrioritizedGoal { priority: 11, goal: MobGoal::RandomLookAround }),
{
}

} // verus!
