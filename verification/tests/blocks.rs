use pumpkin::block::cauldron::{
    lower_fill_level, BlockId, CauldronBlock, CauldronCollision, LoweredCauldron,
};
use pumpkin::block::leaves::{
    compute_distance, distance_from_state, LeavesBlock, LeavesProperties, NamedBlock, Neighbor,
};

#[test]
fn there_are_four_cauldrons() {
    assert_eq!(
        CauldronBlock::ids(),
        [
            BlockId::Cauldron,
            BlockId::WaterCauldron,
            BlockId::LavaCauldron,
            BlockId::PowderSnowCauldron,
        ]
    );
}

#[test]
fn lava_burns_whoever_it_can() {
    let lava = |immune| CauldronBlock.on_entity_collision(BlockId::LavaCauldron, 3, immune, 0);
    assert_eq!(lava((false, false)), CauldronCollision::Burn { seconds: 15, damage: 4 });
    assert_eq!(lava((true, false)), CauldronCollision::Nothing);
    assert_eq!(lava((false, true)), CauldronCollision::Nothing);
}

#[test]
fn water_and_powder_snow_extinguish() {
    for block in [BlockId::WaterCauldron, BlockId::PowderSnowCauldron] {
        let inside = |level, ticks| {
            CauldronBlock.on_entity_collision(block, level, (false, false), ticks)
        };
        assert_eq!(inside(3, 0), CauldronCollision::Extinguish { lowered: None });
        assert_eq!(inside(3, -20), CauldronCollision::Extinguish { lowered: None });
        assert_eq!(
            inside(3, 1),
            CauldronCollision::Extinguish { lowered: Some(LoweredCauldron::Water { level: 2 }) }
        );
        assert_eq!(
            inside(1, 1),
            CauldronCollision::Extinguish { lowered: Some(LoweredCauldron::Empty) }
        );
    }
    for block in [BlockId::Cauldron, BlockId::Other(1)] {
        assert_eq!(
            CauldronBlock.on_entity_collision(block, 0, (false, false), 9),
            CauldronCollision::Nothing
        );
    }
}

#[test]
fn levels_run_out_one_by_one() {
    assert_eq!(lower_fill_level(3), LoweredCauldron::Water { level: 2 });
    assert_eq!(lower_fill_level(2), LoweredCauldron::Water { level: 1 });
    assert_eq!(lower_fill_level(1), LoweredCauldron::Empty);
    assert_eq!(lower_fill_level(0), LoweredCauldron::Empty);
}

#[test]
fn comparators_read_the_level() {
    let read = |block, level| CauldronBlock.get_comparator_output(block, level);
    assert_eq!(read(BlockId::WaterCauldron, 2), Some(2));
    assert_eq!(read(BlockId::PowderSnowCauldron, 3), Some(3));
    assert_eq!(read(BlockId::LavaCauldron, 0), Some(3));
    assert_eq!(read(BlockId::Cauldron, 0), Some(0));
}

const AIR: Neighbor = Neighbor { is_log: false, is_leaves: false, distance: 0 };
const LOG: Neighbor = Neighbor { is_log: true, is_leaves: false, distance: 0 };

fn leaves(distance: u8) -> Neighbor {
    Neighbor { is_log: false, is_leaves: true, distance }
}

#[test]
fn neighbors_hand_on_their_distance() {
    assert_eq!(distance_from_state(LOG), Some(0));
    assert_eq!(distance_from_state(leaves(4)), Some(4));
    assert_eq!(distance_from_state(AIR), None);
}

#[test]
fn distance_is_one_more_than_the_nearest() {
    assert_eq!(compute_distance(&[AIR; 6]), 7);
    assert_eq!(compute_distance(&[AIR, leaves(3), AIR, leaves(5), AIR, AIR]), 4);
    assert_eq!(compute_distance(&[leaves(2), LOG, AIR, AIR, AIR, AIR]), 1);
    assert_eq!(compute_distance(&[leaves(7), leaves(6), AIR, AIR, AIR, AIR]), 7);
    assert_eq!(compute_distance(&[leaves(255), AIR, AIR, AIR, AIR, AIR]), 7);
    assert_eq!(compute_distance(&[leaves(0)]), 1);
}

#[test]
fn tags_list_known_blocks() {
    let blocks = vec![
        NamedBlock { name: "oak_leaves".to_string(), id: 90 },
        NamedBlock { name: "birch_leaves".to_string(), id: 92 },
    ];
    let tag: Vec<String> = ["minecraft:birch_leaves", "minecraft:iron_leaves", "oak_leaves", "mod:oak_leaves"]
        .iter()
        .map(|key| key.to_string())
        .collect();
    assert_eq!(LeavesBlock::ids(&tag, &blocks), vec![92, 90]);
    assert!(LeavesBlock::ids(&[], &blocks).is_empty());
}

#[test]
fn placed_leaves_stay() {
    let default = LeavesProperties { distance: 7, persistent: false, waterlogged: true };
    let placed = LeavesBlock.on_place(default, &[AIR; 6]);
    assert_eq!(placed, LeavesProperties { distance: 7, persistent: true, waterlogged: true });
    assert!(!LeavesBlock.random_tick(placed));
    assert!(LeavesBlock.random_tick(default));
    let near = LeavesProperties { distance: 6, ..default };
    assert!(!LeavesBlock.random_tick(near));
}

#[test]
fn leaves_look_around_after_a_tick() {
    assert_eq!(LeavesBlock.get_state_for_neighbor_update(1234), (1234, 1));
    let props = LeavesProperties { distance: 3, persistent: false, waterlogged: false };
    let lost = LeavesBlock.on_scheduled_tick(props, &[AIR; 6]);
    assert_eq!(lost, Some(LeavesProperties { distance: 7, ..props }));
    assert_eq!(LeavesBlock.on_scheduled_tick(lost.unwrap(), &[AIR; 6]), None);
    let near = [AIR, leaves(2), AIR, AIR, AIR, AIR];
    assert_eq!(LeavesBlock.on_scheduled_tick(props, &near), None);
}
