use pumpkin::entity::experience_orb::{ExperienceOrbEntity, NearbyOrb, OrbPickup, OrbTick};
use pumpkin::entity::goals::{EntityKind, MobGoal};
use pumpkin::entity::item::{Item, ItemStack};
use pumpkin::entity::item_frame::{
    BlockDirection, FrameDamage, FrameReaction, ItemFrameEntity, FULL_CHANCE_BITS,
};
use pumpkin::entity::nbt::{NbtCompound, NbtValue};
use pumpkin::entity::ocelot::{
    OcelotEntity, OcelotInteraction, OcelotMetadata, FEED_REACH_SQUARED_BITS,
};
use pumpkin::entity::rabbit::RabbitEntity;
use pumpkin::ieee::{Double, Single};
use std::sync::Arc;

fn single(value: f32) -> Single {
    Single { bits: value.to_bits() }
}

fn double(value: f64) -> Double {
    Double { bits: value.to_bits() }
}

#[test]
fn orb_sizes_are_rounded_down() {
    let cases = [
        (0, 1), (1, 1), (2, 1), (3, 3), (6, 3), (7, 7), (16, 7), (17, 17), (36, 17), (37, 37),
        (72, 37), (73, 73), (148, 73), (149, 149), (306, 149), (307, 307), (616, 307), (617, 617),
        (1236, 617), (1237, 1237), (2476, 1237), (2477, 2477), (u32::MAX, 2477),
    ];
    for (value, size) in cases {
        assert_eq!(ExperienceOrbEntity::round_to_orb_size(value), size);
    }
}

#[test]
fn spawned_orbs_add_up() {
    let sizes = |amount: u32| -> Vec<u32> {
        ExperienceOrbEntity::spawn(amount).iter().map(|orb| orb.amount).collect()
    };
    assert!(sizes(0).is_empty());
    assert_eq!(sizes(5), vec![3, 1, 1]);
    assert_eq!(sizes(100), vec![73, 17, 7, 3]);
    for amount in [1, 11, 2477, 2478, 54_321] {
        let orbs = sizes(amount);
        assert_eq!(orbs.iter().sum::<u32>(), amount);
        assert!(orbs.windows(2).all(|pair| pair[0] >= pair[1]));
    }
    assert_eq!(ExperienceOrbEntity::spawn(1), vec![ExperienceOrbEntity::new(1)]);
}

fn near(entity_id: i32, orb: ExperienceOrbEntity) -> NearbyOrb {
    NearbyOrb { is_self: false, entity_id, removed: false, orb }
}

#[test]
fn matching_orbs_merge() {
    let orb = |amount, orb_age, count| ExperienceOrbEntity { amount, orb_age, count };
    let mut own = orb(7, 100, 1);
    let nearby = [
        NearbyOrb { is_self: true, ..near(5, own) },
        near(45, orb(7, 30, 2)),
        near(46, orb(7, 1, 1)),
        near(85, orb(3, 1, 1)),
        NearbyOrb { removed: true, ..near(125, orb(7, 1, 1)) },
        near(-35, orb(7, 200, 4)),
        near(5, orb(7, 90, 1)),
    ];
    assert_eq!(own.scan_for_merges(5, &nearby), vec![1, 5, 6]);
    assert_eq!(own, orb(7, 30, 8));
}

#[test]
fn orb_ids_wrap_around() {
    let mut own = ExperienceOrbEntity::new(3);
    let id = i32::MAX - 39;
    assert_eq!(i32::MIN.wrapping_sub(id), 40);
    assert_eq!(own.scan_for_merges(id, &[near(i32::MIN, ExperienceOrbEntity::new(3))]), vec![0]);
    assert_eq!(own.count, 2);
}

#[test]
fn orbs_age_scan_and_expire() {
    let mut orb = ExperienceOrbEntity::new(1);
    assert_eq!(orb.tick(), OrbTick { scan_for_merges: false, remove: false });
    assert_eq!(orb.orb_age, 1);
    orb.orb_age = 20;
    assert_eq!(orb.tick(), OrbTick { scan_for_merges: true, remove: false });
    assert_eq!(orb.tick(), OrbTick { scan_for_merges: false, remove: false });
    orb.orb_age = 5999;
    assert_eq!(orb.tick(), OrbTick { scan_for_merges: false, remove: false });
    assert_eq!(orb.tick(), OrbTick { scan_for_merges: true, remove: true });
}

#[test]
fn living_players_pick_orbs_up_after_a_while() {
    let mut orb = ExperienceOrbEntity { amount: 17, orb_age: 3, count: 2 };
    let mut delay = 1;
    assert_eq!(orb.on_player_collision(single(20.0), &mut delay), None);
    assert_eq!(delay, 1);
    delay = 0;
    assert_eq!(orb.on_player_collision(single(0.0), &mut delay), None);
    assert_eq!(delay, 0);
    assert_eq!(orb.on_player_collision(single(20.0), &mut delay), Some(17));
    assert_eq!(delay, 2);
    assert_eq!(orb.finish_pickup(5), OrbPickup { points: Some(5), remove: false });
    assert_eq!(orb.count, 1);
    assert_eq!(orb.finish_pickup(0), OrbPickup { points: None, remove: true });
}

#[test]
fn ocelots_have_their_goals() {
    let ocelot = OcelotEntity::new();
    assert!(!ocelot.is_trusting());
    let priorities: Vec<u8> = ocelot.goals.goals.iter().map(|goal| goal.priority).collect();
    assert_eq!(priorities, vec![1, 3, 4, 8, 9, 10, 11, 11]);
    assert_eq!(
        ocelot.goals.goals[2].goal,
        MobGoal::AvoidEntity {
            target: EntityKind::Player,
            distance: 16_000,
            slow_speed: 800,
            fast_speed: 1330,
        }
    );
    assert_eq!(ocelot.goals.goals[1].goal, MobGoal::Tempt { speed: 600 });
    let targets: Vec<MobGoal> = ocelot.target_goals.goals.iter().map(|goal| goal.goal).collect();
    assert_eq!(
        targets,
        vec![
            MobGoal::ActiveTarget { target: EntityKind::Chicken, check_visibility: true },
            MobGoal::ActiveTarget { target: EntityKind::Turtle, check_visibility: true },
        ]
    );
    assert!(ocelot.is_food(Item::Cod) && ocelot.is_food(Item::Salmon));
    assert!(!ocelot.is_food(Item::Carrot) && !ocelot.is_food(Item::Other(7)));
}

#[test]
fn rabbits_have_their_goals() {
    let rabbit = RabbitEntity::new();
    let priorities: Vec<u8> = rabbit.goals.goals.iter().map(|goal| goal.priority).collect();
    assert_eq!(priorities, vec![1, 1, 2, 3, 4, 5, 11, 11]);
    assert_eq!(rabbit.goals.goals[1].goal, MobGoal::EscapeDanger { speed: 2200 });
    for food in [Item::Carrot, Item::GoldenCarrot, Item::Dandelion] {
        assert!(rabbit.is_food(food));
    }
    assert!(!rabbit.is_food(Item::Cod));
}

#[test]
fn speeds_in_thousandths_are_exact() {
    assert_eq!(f64::from(600u32) / 1000.0, 0.6);
    assert_eq!(f64::from(800u32) / 1000.0, 0.8);
    assert_eq!(f64::from(1330u32) / 1000.0, 1.33);
    assert_eq!(f64::from(2200u32) / 1000.0, 2.2);
}

#[test]
fn feeding_wins_trust_on_the_first_roll() {
    let mut ocelot = OcelotEntity::new();
    assert!(!OcelotInteraction::Animal.uses_item());
    assert_eq!(ocelot.attempt_trust(1), OcelotInteraction::TrustingFailed);
    assert_eq!(ocelot.attempt_trust(2), OcelotInteraction::TrustingFailed);
    assert!(!ocelot.is_trusting());
    assert_eq!(
        ocelot.attempt_trust(0),
        OcelotInteraction::TrustingSucceeded(OcelotMetadata::Trusting(true))
    );
    assert!(ocelot.is_trusting());
}

#[test]
fn feeding_succeeds_now_and_then() {
    let mut won = 0;
    let mut lost = 0;
    for _ in 0..300 {
        let mut ocelot = OcelotEntity::new();
        ocelot.start_tempt();
        let interaction = ocelot.mob_interact(Item::Cod, double(8.9));
        assert!(interaction.uses_item());
        match interaction {
            OcelotInteraction::TrustingSucceeded(_) => {
                assert!(ocelot.is_trusting());
                won += 1;
            }
            OcelotInteraction::TrustingFailed => {
                assert!(!ocelot.is_trusting());
                lost += 1;
            }
            OcelotInteraction::Animal => panic!("trust was at stake"),
        }
    }
    assert!(won > 0 && lost > won);
}

#[test]
fn feeding_takes_temptation_food_and_closeness() {
    let mut ocelot = OcelotEntity::new();
    assert_eq!(ocelot.mob_interact(Item::Cod, double(1.0)), OcelotInteraction::Animal);
    ocelot.start_tempt();
    assert_eq!(ocelot.mob_interact(Item::Carrot, double(1.0)), OcelotInteraction::Animal);
    assert_eq!(ocelot.mob_interact(Item::Cod, double(9.0)), OcelotInteraction::Animal);
    assert_eq!(ocelot.mob_interact(Item::Cod, double(f64::NAN)), OcelotInteraction::Animal);
    ocelot.set_trusting(true);
    assert_eq!(ocelot.mob_interact(Item::Cod, double(1.0)), OcelotInteraction::Animal);
    ocelot.set_trusting(false);
    ocelot.stop_tempt();
    assert_eq!(ocelot.mob_interact(Item::Cod, double(1.0)), OcelotInteraction::Animal);
    assert_eq!(FEED_REACH_SQUARED_BITS, 9.0f64.to_bits());
}

#[test]
fn trust_is_saved_and_shown() {
    let mut ocelot = OcelotEntity::new();
    assert_eq!(ocelot.set_trusting(true), OcelotMetadata::Trusting(true));
    let mut saved = NbtCompound::<u8>::new();
    ocelot.write_nbt(&mut saved);
    assert_eq!(saved.get_bool("Trusting"), Some(true));
    let mut other = OcelotEntity::new();
    other.read_nbt(&saved);
    assert!(other.is_trusting());
    other.read_nbt(&NbtCompound::<u8>::new());
    assert!(!other.is_trusting());
    assert_eq!(ocelot.mob_init_data_tracker(0), vec![OcelotMetadata::Trusting(true)]);
    assert_eq!(
        other.mob_init_data_tracker(-1),
        vec![OcelotMetadata::Baby(true), OcelotMetadata::Trusting(false)]
    );
}

#[test]
fn trusting_ocelots_do_not_flee() {
    let mut ocelot = OcelotEntity::new();
    assert!(ocelot.avoids_players(|| true));
    assert!(!ocelot.avoids_players(|| false));
    ocelot.set_trusting(true);
    assert!(!ocelot.avoids_players(|| panic!("asked")));
}

type Frame = ItemFrameEntity<&'static str>;
type Stack = ItemStack<&'static str>;

fn diamond() -> Stack {
    ItemStack { extra: Some(Arc::new("shiny")), ..ItemStack::new(1, Item::Other(900)) }
}

fn full() -> Frame {
    ItemFrameEntity { item_stack: diamond(), ..ItemFrameEntity::new() }
}

fn hit() -> FrameDamage {
    FrameDamage {
        bypasses_invulnerability: false,
        is_explosion: false,
        source: Some(false),
        cause: Some(false),
        invulnerable: false,
        entity_drops: true,
        roll: single(0.5),
    }
}

#[test]
fn new_frames_are_empty_and_face_south() {
    let frame = Frame::new();
    assert_eq!(frame.get_facing(), BlockDirection::South);
    assert_eq!(frame.data, 3);
    assert_eq!(frame.get_analog_output(), 0);
    assert_eq!(FULL_CHANCE_BITS, 1.0f32.to_bits());
    let odd = Frame { facing: 9, ..Frame::new() };
    assert_eq!(odd.get_facing(), BlockDirection::South);
    for index in 0..6 {
        let turned = Frame { facing: index, ..Frame::new() };
        assert_eq!(turned.get_facing().to_index(), index);
    }
    assert_eq!(BlockDirection::from_index(6), None);
}

#[test]
fn comparators_read_the_rotation() {
    for rotation in 0..8 {
        let frame = Frame { rotation, ..full() };
        assert_eq!(frame.get_analog_output(), rotation + 1);
    }
    let frame = Frame { item_stack: ItemStack::new(0, Item::Cod), ..Frame::new() };
    assert_eq!(frame.get_analog_output(), 0);
}

#[test]
fn hits_pop_the_item_first_and_break_the_frame_next() {
    let mut frame = full();
    match frame.damage_with_context(hit()) {
        FrameReaction::ItemRemoved(drops) => assert_eq!(drops, vec![diamond()]),
        _ => panic!("the item stays"),
    }
    assert!(frame.item_stack.is_empty());
    match frame.damage_with_context(hit()) {
        FrameReaction::Broken(drops) => {
            assert_eq!(drops, vec![Stack::new(1, Item::ItemFrame)]);
        }
        _ => panic!("the frame stays"),
    }
}

#[test]
fn explosions_break_the_frame_at_once() {
    let mut frame = full();
    match frame.damage_with_context(FrameDamage { is_explosion: true, ..hit() }) {
        FrameReaction::Broken(drops) => {
            assert_eq!(drops, vec![Stack::new(1, Item::ItemFrame), diamond()]);
        }
        _ => panic!("the frame stays"),
    }
}

#[test]
fn drops_depend_on_rules_players_and_chance() {
    let mut frame = full();
    assert!(frame.drop_item(false, None, true, single(0.0)).is_empty());
    assert!(frame.item_stack.is_empty());
    frame = full();
    assert!(frame.drop_item(true, Some(true), true, single(0.0)).is_empty());
    assert!(frame.item_stack.is_empty());
    frame = Frame { item_drop_chance: single(0.25), ..full() };
    assert!(frame.drop_item(true, Some(false), false, single(0.25)).is_empty());
    frame = Frame { item_drop_chance: single(0.25), ..full() };
    assert_eq!(frame.drop_item(true, None, false, single(0.24)), vec![diamond()]);
}

#[test]
fn dropping_clears_every_frame() {
    for fixed in [false, true] {
        for entity_drops in [false, true] {
            for causer in [None, Some(false), Some(true)] {
                for with_frame in [false, true] {
                    let mut frame = Frame { fixed, ..full() };
                    let drops = frame.drop_item(entity_drops, causer, with_frame, single(0.0));
                    assert_eq!(frame.get_analog_output(), 0);
                    assert_eq!(frame.fixed, fixed);
                    assert_eq!(!drops.is_empty(), entity_drops && causer != Some(true));
                }
            }
        }
    }
}

#[test]
fn few_hits_are_left_to_chance() {
    assert!(full().needs_roll(&hit()));
    assert!(full().needs_roll(&FrameDamage { is_explosion: true, ..hit() }));
    assert!(!full().needs_roll(&FrameDamage { invulnerable: true, ..hit() }));
    assert!(!full().needs_roll(&FrameDamage { entity_drops: false, ..hit() }));
    assert!(!full().needs_roll(&FrameDamage { cause: Some(true), ..hit() }));
    assert!(!full().needs_roll(&FrameDamage { cause: None, source: Some(true), ..hit() }));
    assert!(!Frame::new().needs_roll(&hit()));
    let fixed = Frame { fixed: true, ..full() };
    assert!(!fixed.needs_roll(&hit()));
    assert!(fixed.needs_roll(&FrameDamage { bypasses_invulnerability: true, invulnerable: true, ..hit() }));
    for roll in [0.0, 0.5, 0.999] {
        let breaking = FrameDamage { roll: single(roll), ..hit() };
        match Frame::new().damage_with_context(breaking) {
            FrameReaction::Broken(drops) => {
                assert_eq!(drops, vec![Stack::new(1, Item::ItemFrame)]);
            }
            _ => panic!("the frame stays"),
        }
    }
}

#[test]
fn fixed_frames_give_way_to_few() {
    let fixed = || Frame { fixed: true, ..full() };
    let mut frame = fixed();
    assert!(matches!(frame.damage_with_context(hit()), FrameReaction::Unharmed));
    assert_eq!(frame.item_stack, diamond());
    match frame.damage_with_context(FrameDamage { bypasses_invulnerability: true, ..hit() }) {
        FrameReaction::Broken(drops) => {
            assert_eq!(drops, vec![Stack::new(1, Item::ItemFrame), diamond()]);
        }
        _ => panic!("the frame stays"),
    }
    assert!(frame.item_stack.is_empty());
    frame = fixed();
    match frame.damage_with_context(FrameDamage { cause: Some(true), invulnerable: true, ..hit() }) {
        FrameReaction::Broken(drops) => assert!(drops.is_empty()),
        _ => panic!("the frame stays"),
    }
    assert!(frame.item_stack.is_empty());
}

#[test]
fn the_cause_counts_before_the_source() {
    let by = |source, cause| FrameDamage { source, cause, ..hit() };
    assert_eq!(by(Some(true), Some(false)).causer(), Some(false));
    assert_eq!(by(Some(true), None).causer(), Some(true));
    assert_eq!(by(None, Some(true)).causer(), Some(true));
    assert_eq!(by(None, None).causer(), None);
    let mut frame = Frame { fixed: true, ..full() };
    let reaction = frame.damage_with_context(by(Some(true), Some(false)));
    assert!(matches!(reaction, FrameReaction::Unharmed));
    let reaction = frame.damage_with_context(by(Some(true), None));
    assert!(matches!(reaction, FrameReaction::Broken(_)));
}

#[test]
fn invulnerable_frames_stay() {
    let mut frame = full();
    let damage = FrameDamage { invulnerable: true, is_explosion: true, ..hit() };
    assert!(matches!(frame.damage_with_context(damage), FrameReaction::Unharmed));
    assert_eq!(frame.item_stack, diamond());
}

fn fields(frame: &Frame) -> (Stack, u8, u8, u32, bool, bool, i32) {
    (
        frame.item_stack.clone(),
        frame.rotation,
        frame.facing,
        frame.item_drop_chance.bits,
        frame.invisible,
        frame.fixed,
        frame.data,
    )
}

#[test]
fn frames_come_back_from_what_they_saved() {
    let frame = Frame {
        item_stack: diamond(),
        rotation: 5,
        facing: 1,
        item_drop_chance: single(0.5),
        invisible: true,
        fixed: true,
        data: 1,
    };
    let mut saved = NbtCompound::new();
    saved.put("Air", NbtValue::Byte(3));
    frame.write_nbt(&mut saved);
    let names: Vec<&str> = saved.entries().iter().map(|(name, _)| name.as_str()).collect();
    assert_eq!(
        names,
        vec!["Air", "Item", "ItemDropChance", "ItemRotation", "Facing", "Invisible", "Fixed"]
    );
    assert_eq!(saved.get_byte("Air"), Some(3));
    assert_eq!(saved.get_byte("Facing"), Some(1));
    let mut other = Frame::new();
    other.read_nbt(&saved);
    assert_eq!(fields(&other), fields(&frame));
    assert_eq!(other.item_stack.extra, Some(Arc::new("shiny")));

    let empty = Frame { item_stack: ItemStack::empty(), ..frame.clone() };
    let mut saved = NbtCompound::new();
    empty.write_nbt(&mut saved);
    assert!(saved.get("Item").is_none() && saved.get("ItemDropChance").is_none());
    let mut other = Frame::new();
    other.read_nbt(&saved);
    assert_eq!(other.item_drop_chance.bits, FULL_CHANCE_BITS);
    assert_eq!(other.rotation, 5);
}

#[test]
fn odd_saved_values_are_brought_into_range() {
    let mut frame = full();
    frame.read_nbt(&NbtCompound::new());
    assert_eq!(fields(&frame), (diamond(), 0, 0, FULL_CHANCE_BITS, false, false, 0));
    let turned = |rotation, facing| {
        let mut nbt = NbtCompound::new();
        nbt.put("ItemRotation", NbtValue::Byte(rotation));
        nbt.put("Facing", NbtValue::Byte(facing));
        nbt
    };
    frame.read_nbt(&turned(-1, -1));
    assert_eq!((frame.rotation, frame.facing, frame.data), (7, 3, 3));
    frame.read_nbt(&turned(127, -128));
    assert_eq!((frame.rotation, frame.facing), (127u8 % 8, 128u8 % 6));
}

#[test]
fn compounds_keep_the_last_value_of_a_name() {
    let mut nbt = NbtCompound::<u8>::new();
    assert_eq!(nbt.get_bool("a"), None);
    nbt.put("a", NbtValue::Bool(false));
    nbt.put("b", NbtValue::Float(single(1.5)));
    nbt.put("a", NbtValue::Bool(true));
    assert_eq!(nbt.get_bool("a"), Some(true));
    assert_eq!(nbt.get_byte("a"), None);
    assert_eq!(nbt.get_float("b"), Some(single(1.5)));
    assert_eq!(nbt.get_stack("b"), None);
}
