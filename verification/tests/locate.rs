use pumpkin::command::distance::horizontal_distance;
use pumpkin::command::locate::{
    locate_structure, structure_by_name, suggestions, LocateError, StructureKeys,
    MAX_SEARCH_RADIUS, STRUCTURE_NAMES,
};
use pumpkin::command::structure_sets::sets_containing;
use pumpkin::position::BlockPos;

#[test]
fn structure_by_name_accepts_bare_path() {
    assert_eq!(
        structure_by_name("village_plains"),
        Some(StructureKeys::VillagePlains)
    );
}

#[test]
fn structure_by_name_accepts_vanilla_namespace() {
    assert_eq!(
        structure_by_name("minecraft:ancient_city"),
        Some(StructureKeys::AncientCity)
    );
}

#[test]
fn structure_by_name_rejects_unknown() {
    assert_eq!(structure_by_name("not_a_structure"), None);
    assert_eq!(structure_by_name("minecraft:not_a_structure"), None);
}

#[test]
fn structure_by_name_rejects_foreign_namespace() {
    // A modded namespace is not a vanilla structure. Stripping any prefix up to the colon would
    // wrongly accept this.
    assert_eq!(structure_by_name("othermod:village_plains"), None);
}

#[test]
fn structure_by_name_covers_every_key() {
    // Every entry in the table must round-trip, which catches a typo in a name that would
    // otherwise only show up as one unlocatable structure.
    for (name, key) in STRUCTURE_NAMES {
        assert_eq!(structure_by_name(name), Some(key), "failed for {name}");
    }
}

#[test]
fn sets_containing_finds_village_set() {
    let sets = sets_containing(StructureKeys::VillagePlains);
    assert!(!sets.is_empty(), "village_plains must belong to a set");
    assert!(
        sets.iter().any(|s| s
            .structures
            .iter()
            .any(|e| e.structure == StructureKeys::VillageDesert)),
        "the set containing village_plains also lists the other variants"
    );
}

#[test]
fn sets_containing_finds_stronghold_set() {
    // Strongholds use concentric-rings placement rather than random spread, so this also proves
    // the lookup is not filtering by placement type.
    let sets = sets_containing(StructureKeys::Stronghold);
    assert_eq!(sets.len(), 1);
}

#[test]
fn sets_containing_every_key_resolves() {
    for (name, key) in STRUCTURE_NAMES {
        assert!(
            !sets_containing(key).is_empty(),
            "{name} belongs to no structure set"
        );
    }
}

#[test]
fn horizontal_distance_ignores_height() {
    let a = BlockPos::new(0, 64, 0);
    let b = BlockPos::new(3, 200, 4);
    // 3-4-5 triangle. A distance that counted Y would be much larger.
    assert_eq!(horizontal_distance(a, b), 5);
}

#[test]
fn horizontal_distance_is_symmetric() {
    let a = BlockPos::new(-120, 70, 45);
    let b = BlockPos::new(310, 12, -900);
    assert_eq!(horizontal_distance(a, b), horizontal_distance(b, a));
}

#[test]
fn horizontal_distance_zero_for_same_column() {
    let a = BlockPos::new(17, 5, -3);
    let b = BlockPos::new(17, 250, -3);
    assert_eq!(horizontal_distance(a, b), 0);
}

#[test]
fn horizontal_distance_rounds_to_nearest() {
    // sqrt(2) * 1000 = 1414.21..., which rounds to 1414, not 1415 and not 1414 by truncation of a
    // larger value.
    let a = BlockPos::new(0, 0, 0);
    let b = BlockPos::new(1000, 0, 1000);
    assert_eq!(horizontal_distance(a, b), 1414);
}

#[test]
fn horizontal_distance_rounds_up_too() {
    // sqrt(3) = 1.73..., sqrt(7) = 2.64...
    let origin = BlockPos::new(0, 0, 0);
    assert_eq!(horizontal_distance(origin, BlockPos::new(1, 0, 1)), 1);
    assert_eq!(horizontal_distance(origin, BlockPos::new(2, 0, 2)), 3);
    assert_eq!(horizontal_distance(origin, BlockPos::new(-9, 0, 4)), 10);
}

#[test]
fn horizontal_distance_agrees_with_floating_point() {
    for (x, z) in [(12, 99), (30_000_000, -29_999_999), (-777, 778), (46_341, 46_340)] {
        let d = horizontal_distance(BlockPos::new(0, 0, 0), BlockPos::new(x, 0, z));
        let expected = (f64::from(x) * f64::from(x) + f64::from(z) * f64::from(z)).sqrt().round();
        assert_eq!(f64::from(d), expected);
    }
}

#[test]
fn horizontal_distance_saturates() {
    let a = BlockPos::new(i32::MIN, 0, i32::MIN);
    let b = BlockPos::new(i32::MAX, 0, i32::MAX);
    assert_eq!(horizontal_distance(a, b), i32::MAX);
}

#[test]
fn names_are_suggested_with_their_namespace() {
    let texts = suggestions();
    assert_eq!(texts.len(), 34);
    assert_eq!(texts[0], "minecraft:pillager_outpost");
    assert_eq!(texts[33], "minecraft:trial_chambers");
    for text in &texts {
        assert!(structure_by_name(text).is_some());
    }
}

#[test]
fn names_are_unambiguous() {
    for (i, (name, _)) in STRUCTURE_NAMES.iter().enumerate() {
        for (other, _) in &STRUCTURE_NAMES[i + 1..] {
            assert_ne!(name, other);
        }
    }
}

#[test]
fn odd_names_name_nothing() {
    for name in ["", ":", "minecraft:", "minecraft:minecraft:igloo", "Igloo", "igloo ", "#village"] {
        assert_eq!(structure_by_name(name), None);
    }
}

#[test]
fn locating_tells_invalid_from_not_found() {
    assert_eq!(locate_structure("igloo"), LocateError::NotFound);
    assert_eq!(locate_structure("minecraft:igloo"), LocateError::NotFound);
    assert_eq!(locate_structure("#minecraft:village"), LocateError::Invalid);
    assert_eq!(MAX_SEARCH_RADIUS, 100);
}

#[test]
fn every_structure_is_in_one_set() {
    for (_, key) in STRUCTURE_NAMES {
        let sets = sets_containing(key);
        assert_eq!(sets.len(), 1);
        assert!(sets[0].lists(key));
    }
    assert_eq!(sets_containing(StructureKeys::Fortress)[0].name, "nether_complexes");
}

#[test]
fn distances_along_an_axis_are_exact() {
    let a = BlockPos::new(-5, 0, 7);
    assert_eq!(horizontal_distance(a, BlockPos::new(1_000_000, 0, 7)), 1_000_005);
    assert_eq!(horizontal_distance(a, BlockPos::new(-5, 99, 20)), 13);
    assert_eq!(horizontal_distance(BlockPos::new(0, 0, 0), BlockPos::new(i32::MAX, 0, 0)), i32::MAX);
}
