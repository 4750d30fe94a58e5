//! Cauldrons and what falls into them.

use vstd::prelude::*;

verus! {

/// For how many seconds lava sets an entity on fire.
pub const LAVA_FIRE_SECONDS: u32 = 15;

/// How much lava hurts.
pub const LAVA_DAMAGE: u32 = 4;

/// The comparator signal of a lava cauldron, which is always full.
pub const LAVA_SIGNAL: u8 = 3;

/// Blocks that cauldrons are told apart by.
#[derive(Clone, Copy, Debug, PartialEq, Eq, Structural)]
pub enum BlockId {
    Cauldron,
    WaterCauldron,
    LavaCauldron,
    PowderSnowCauldron,
    Other(u16),
}

/// What a cauldron becomes when some of its contents is gone.
#[derive(Clone, Copy, Debug, PartialEq, Eq, Structural)]
pub enum LoweredCauldron {
    /// A cauldron with nothing in it.
    Empty,
    /// A cauldron with this much water.
    Water { level: u8 },
}

/// What comes of an entity inside a cauldron.
#[derive(Clone, Copy, Debug, PartialEq, Eq, Structural)]
pub enum CauldronCollision {
    Nothing,
    /// The entity catches fire for so many seconds and takes so much lava damage.
    Burn { seconds: u32, damage: u32 },
    /// The entity stops burning. If it did burn, the cauldron becomes another one; neighbors and
    /// listeners are to be told of that.
    Extinguish { lowered: Option<LoweredCauldron> },
}

pub struct CauldronBlock;

/// What is left when a burning entity has used up a level. Powder snow melts first, so whatever is
/// left is water; of the last level nothing is left.
pub open spec fn lowered(level: u8) -> LoweredCauldron {
    if level <= 1 {
        LoweredCauldron::Empty
    } else {
        LoweredCauldron::Water { level: (level - 1) as u8 }
    }
}

/// The comparator signal of a cauldron: how much is in it.
pub open spec fn signal(block: BlockId, level: u8) -> u8 {
    match block {
        BlockId::WaterCauldron | BlockId::PowderSnowCauldron => level,
        BlockId::LavaCauldron => LAVA_SIGNAL,
        _ => 0,
    }
}

/// The comparator signal of what a cauldron has become.
pub open spec fn lowered_signal(cauldron: LoweredCauldron) -> u8 {
    match cauldron {
        LoweredCauldron::Empty => signal(BlockId::Cauldron, 0),
        LoweredCauldron::Water { level } => signal(BlockId::WaterCauldron, level),
    }
}

impl CauldronBlock {
    /// The blocks that are cauldrons.
    #[must_use]
    pub fn ids() -> (ids: [BlockId; 4])
        ensures
            ids@ == seq![
                BlockId::Cauldron,
                BlockId::WaterCauldron,
                BlockId::LavaCauldron,
                BlockId::PowderSnowCauldron,
            ],
    {
        let ids = [
            BlockId::Cauldron,
            BlockId::WaterCauldron,
            BlockId::LavaCauldron,
            BlockId::PowderSnowCauldron,
        ];
        assert(ids@ =~= seq![
            BlockId::Cauldron,
            BlockId::WaterCauldron,
            BlockId::LavaCauldron,
            BlockId::PowderSnowCauldron,
        ]);
        ids
    }

    /// An entity is inside a cauldron with the given level. `fire_immune` tells whether fire
    /// leaves the entity alone, by its kind or by itself; `fire_ticks` how long it still burns.
    #[must_use]
    pub fn on_entity_collision(
        &self,
        block: BlockId,
        level: u8,
        fire_immune: (bool, bool),
        fire_ticks: i32,
    ) -> (collision: CauldronCollision)
        ensures
            collision == (match block {
                BlockId::LavaCauldron => if fire_immune.0 || fire_immune.1 {
                    CauldronCollision::Nothing
                } else {
                    CauldronCollision::Burn { seconds: LAVA_FIRE_SECONDS, damage: LAVA_DAMAGE }
                },
                BlockId::WaterCauldron
                | BlockId::PowderSnowCauldron => CauldronCollision::Extinguish {
                    lowered: if fire_ticks > 0 {
                        Some(lowered(level))
                    } else {
                        None
                    },
                },
                _ => CauldronCollision::Nothing,
            }),
    {
        match block {
            BlockId::LavaCauldron => if !fire_immune.0 && !fire_immune.1 {
                CauldronCollision::Burn { seconds: LAVA_FIRE_SECONDS, damage: LAVA_DAMAGE }
            } else {
                CauldronCollision::Nothing
            },
            BlockId::WaterCauldron | BlockId::PowderSnowCauldron => {
                let lowered = if fire_ticks > 0 {
                    Some(lower_fill_level(level))
                } else {
                    None
                };
                CauldronCollision::Extinguish { lowered }
            },
            _ => CauldronCollision::Nothing,
        }
    }

    /// The comparator signal of a cauldron with the given level.
    #[must_use]
    pub fn get_comparator_output(&self, block: BlockId, level: u8) -> (output: Option<u8>)
        ensures
            output == Some(signal(block, level)),
    {
        match block {
            BlockId::WaterCauldron | BlockId::PowderSnowCauldron => Some(level),
            BlockId::LavaCauldron => Some(LAVA_SIGNAL),
            _ => Some(0),
        }
    }
}

/// What is left when a burning entity has used up a level.
#[must_use]
pub fn lower_fill_level(level: u8) -> (cauldron: LoweredCauldron)
    ensures
        cauldron == lowered(level),
{
    if level <= 1 {
        LoweredCauldron::Empty
    } else {
        LoweredCauldron::Water { level: level - 1 }
    }
}

/// A comparator reads one less off a cauldron that has lost a level, whatever was in it.
pub proof fn law_lowering_lowers_the_signal(block: BlockId, level: u8)
    requires
        block == BlockId::WaterCauldron || block == BlockId::PowderSnowCauldron,
        level >= 1,
    ensures
        lowered_signal(lowered(level)) == signal(block, level) - 1,
{
}

/// What is left after several burning entities.
pub open spec fn lowered_times(level: u8, times: nat) -> LoweredCauldron
    decreases times,
{
    if times == 0 {
        LoweredCauldron::Water { level }
    } else {
        match lowered_times(level, (times - 1) as nat) {
            LoweredCauldron::Empty => LoweredCauldron::Empty,
            LoweredCauldron::Water { level } => lowered(level),
        }
    }
}

/// As many burning entities as there are levels empty a cauldron, and no fewer.
pub proof fn law_levels_run_out(level: u8, times: nat)
    requires
        level >= 1,
    ensures
        lowered_times(level, times) == (if times < level {
            LoweredCauldron::Water { level: (level - times) as u8 }
        } else {
            LoweredCauldron::Empty
        }),
    decreases times,
{
    if times > 0 {
        law_levels_run_out(level, (times - 1) as nat);
    }
}

/// A burning entity uses up one level: with more than one there is water left, one level less, and
/// otherwise nothing.
pub proof fn law_one_level_is_used_up(level: u8)
    ensures
        match lowered(level) {
            LoweredCauldron::Water { level: left } => level >= 2 && left == level - 1,
            LoweredCauldron::Empty => level <= 1,
        },
{
}

/// Comparators read the level of water and of powder snow, three of lava, and nothing of any other
/// block.
pub proof fn law_signal_is_how_much_is_inside(block: BlockId, level: u8)
    ensures
        block == BlockId::WaterCauldron || block == BlockId::PowderSnowCauldron ==> signal(
            block,
            level,
        ) == level,
        block == BlockId::LavaCauldron ==> signal(block, level) == 3,
        block != BlockId::WaterCauldron && block != BlockId::PowderSnowCauldron && block
            != BlockId::LavaCauldron ==> signal(block, level) == 0,
{
}

/// Lava burns exactly those that are not immune by kind or by themselves, for fifteen seconds and
/// four damage, however much there is of it.
pub proof fn law_lava_burns(
    cauldron: CauldronBlock,
    level: u8,
    fire_immune: (bool, bool),
    fire_ticks: i32,
    collision: CauldronCollision,
)
    requires
        call_ensures(
            CauldronBlock::on_entity_collision,
            (&cauldron, BlockId::LavaCauldron, level, fire_immune, fire_ticks),
            collision,
        ),
    ensures
        collision == (CauldronCollision::Burn { seconds: 15, damage: 4 }) <==> !fire_immune.0
            && !fire_immune.1,
        collision == CauldronCollision::Nothing <==> fire_immune.0 || fire_immune.1,
{
}

/// Water and powder snow put out whoever is inside, and lose a level exactly if that one burned:
/// what is left is water of one level less, or an empty cauldron after the last level.
pub proof fn law_water_is_used_up_by_fire(
    cauldron: CauldronBlock,
    block: BlockId,
    level: u8,
    fire_immune: (bool, bool),
    fire_ticks: i32,
    collision: CauldronCollision,
)
    requires
        block == BlockId::WaterCauldron || block == BlockId::PowderSnowCauldron,
        call_ensures(
            CauldronBlock::on_entity_collision,
            (&cauldron, block, level, fire_immune, fire_ticks),
            collision,
        ),
    ensures
        collision is Extinguish,
        collision->lowered is Some <==> fire_ticks > 0,
        fire_ticks > 0 && level >= 2 ==> collision->lowered == Some(
            LoweredCauldron::Water { level: (level - 1) as u8 },
        ),
        fire_ticks > 0 && level <= 1 ==> collision->lowered == Some(LoweredCauldron::Empty),
{
}

/// Nothing happens inside an empty cauldron or any other block.
pub proof fn law_empty_cauldrons_do_nothing(
    cauldron: CauldronBlock,
    block: BlockId,
    level: u8,
    fire_immune: (bool, bool),
    fire_ticks: i32,
    collision: CauldronCollision,
)
    requires
        block == BlockId::Cauldron || block is Other,
        call_ensures(
            CauldronBlock::on_entity_collision,
            (&cauldron, block, level, fire_immune, fire_ticks),
            collision,
        ),
    ensures
        collision == CauldronCollision::Nothing,
{
}

} // verus!
