use pumpkin::registry::error::{RegistryGetError, RegistryInsertError, VersionMappingError};
use pumpkin::registry::identifier::Identifier;
use pumpkin::registry::key::DataKey;
use pumpkin::registry::lookup::{RegistryLookup, RegistryNode, RegistryTree};
use pumpkin::registry::mapping::MinecraftVersion;
use pumpkin::registry::Registry;
use std::any::TypeId;
use std::sync::Arc;

const OLD: MinecraftVersion = MinecraftVersion { protocol: 47 };
const NEW: MinecraftVersion = MinecraftVersion { protocol: 770 };

fn stones() -> Registry<u32> {
    let mut registry = Registry::new();
    registry.register(Identifier::vanilla("stone"), 1).ok().unwrap();
    registry.register(Identifier::vanilla("granite"), 2).ok().unwrap();
    registry.register(Identifier::vanilla("diorite"), 3).ok().unwrap();
    registry
}

#[test]
fn registered_values_are_found() {
    let registry = stones();
    assert_eq!(registry.get(&Identifier::vanilla("granite")), Some(Arc::new(2)));
    assert_eq!(registry.get(&Identifier::vanilla("andesite")), None);
    assert!(registry.contains(&Identifier::vanilla("stone")));
    let foreign = Identifier { namespace: "mod".to_string(), path: "stone".to_string() };
    assert!(!registry.contains(&foreign));
    assert_eq!(registry.len(), 3);
    assert!(!registry.is_empty());
    assert!(Registry::<u32>::default().is_empty());
}

#[test]
fn identifiers_are_registered_once() {
    let mut registry = stones();
    let result = registry.register(Identifier::vanilla("stone"), 9);
    match result {
        Err(RegistryInsertError::AlreadyRegistered(taken)) => {
            assert_eq!(taken, Identifier::vanilla("stone"));
        }
        Ok(()) => panic!("registered twice"),
    }
    assert_eq!(registry.get(&Identifier::vanilla("stone")), Some(Arc::new(1)));
}

#[test]
fn values_are_created_only_when_missing() {
    let mut registry = stones();
    let found = registry.get_or_register(Identifier::vanilla("stone"), || panic!("created"));
    assert_eq!(*found, 1);
    let made = registry.get_or_register(Identifier::vanilla("tuff"), || 4);
    assert_eq!(*made, 4);
    let shared = Arc::new(5);
    let kept = registry.get_or_register_arc(Identifier::vanilla("calcite"), || Arc::clone(&shared));
    assert!(Arc::ptr_eq(&kept, &shared));
    assert!(Arc::ptr_eq(&registry.get(&Identifier::vanilla("calcite")).unwrap(), &shared));
    assert_eq!(registry.len(), 5);
}

#[test]
fn removed_values_are_gone_and_others_stay() {
    let mut registry = stones();
    assert_eq!(registry.remove(&Identifier::vanilla("stone")), Some(Arc::new(1)));
    assert_eq!(registry.remove(&Identifier::vanilla("stone")), None);
    assert_eq!(registry.get(&Identifier::vanilla("diorite")), Some(Arc::new(3)));
    assert_eq!(registry.get(&Identifier::vanilla("granite")), Some(Arc::new(2)));
    assert_eq!(registry.len(), 2);
    registry.register(Identifier::vanilla("stone"), 7).ok().unwrap();
    assert_eq!(registry.get(&Identifier::vanilla("stone")), Some(Arc::new(7)));
}

#[test]
fn iterating_meets_every_value_once() {
    let registry = stones();
    let mut seen: Vec<u32> = registry.iter().iter().map(|(_, value)| **value).collect();
    seen.sort();
    assert_eq!(seen, vec![1, 2, 3]);
}

#[test]
fn network_ids_round_trip() {
    let mut registry = stones();
    assert!(!registry.has_version_mapping(NEW));
    registry.register_version_mapping(NEW, Identifier::vanilla("stone"), 10).ok().unwrap();
    registry.register_version_mapping(OLD, Identifier::vanilla("stone"), 20).ok().unwrap();
    assert!(registry.has_version_mapping(NEW));
    assert_eq!(registry.network_id(NEW, &Identifier::vanilla("stone")), Some(10));
    assert_eq!(registry.network_id(OLD, &Identifier::vanilla("stone")), Some(20));
    assert_eq!(registry.network_id(OLD, &Identifier::vanilla("granite")), None);
    assert_eq!(
        registry.identifier_from_network_id(NEW, 10),
        Some(Identifier::vanilla("stone"))
    );
    assert_eq!(registry.identifier_from_network_id(NEW, 20), None);
    assert_eq!(registry.get_by_network_id(OLD, 20), Some(Arc::new(1)));
    assert_eq!(registry.get_by_network_id(OLD, 21), None);
}

#[test]
fn repeating_a_mapping_changes_nothing() {
    let mut registry = stones();
    registry.register_version_mapping(NEW, Identifier::vanilla("stone"), 10).ok().unwrap();
    assert!(registry.register_version_mapping(NEW, Identifier::vanilla("stone"), 10).is_ok());
    assert_eq!(registry.network_id(NEW, &Identifier::vanilla("stone")), Some(10));
}

#[test]
fn unknown_entries_get_no_network_id() {
    let mut registry = stones();
    let result = registry.register_version_mapping(NEW, Identifier::vanilla("tuff"), 1);
    assert!(matches!(
        result,
        Err(VersionMappingError::UnknownEntry(name)) if name == Identifier::vanilla("tuff")
    ));
}

#[test]
fn an_entry_has_one_network_id() {
    let mut registry = stones();
    registry.register_version_mapping(NEW, Identifier::vanilla("stone"), 10).ok().unwrap();
    let result = registry.register_version_mapping(NEW, Identifier::vanilla("stone"), 11);
    match result {
        Err(VersionMappingError::IdentifierAlreadyMapped {
            version,
            identifier,
            existing_network_id,
            requested_network_id,
        }) => {
            assert_eq!(version.protocol, NEW.protocol);
            assert_eq!(identifier, Identifier::vanilla("stone"));
            assert_eq!((existing_network_id, requested_network_id), (10, 11));
        }
        _ => panic!("mapped twice"),
    }
}

#[test]
fn a_network_id_has_one_entry() {
    let mut registry = stones();
    registry.register_version_mapping(NEW, Identifier::vanilla("stone"), 10).ok().unwrap();
    let result = registry.register_version_mapping(NEW, Identifier::vanilla("granite"), 10);
    match result {
        Err(VersionMappingError::NetworkIdAlreadyMapped {
            version,
            network_id,
            existing_identifier,
            requested_identifier,
        }) => {
            assert_eq!(version.protocol, NEW.protocol);
            assert_eq!(network_id, 10);
            assert_eq!(existing_identifier, Identifier::vanilla("stone"));
            assert_eq!(requested_identifier, Identifier::vanilla("granite"));
        }
        _ => panic!("mapped twice"),
    }
    assert_eq!(registry.network_id(NEW, &Identifier::vanilla("granite")), None);
}

#[test]
fn batches_are_taken_whole_or_not_at_all() {
    let mut registry = stones();
    let bad = vec![
        (Identifier::vanilla("stone"), 1),
        (Identifier::vanilla("granite"), 1),
    ];
    assert!(matches!(
        registry.register_version_mappings(NEW, bad),
        Err(VersionMappingError::NetworkIdAlreadyMapped { .. })
    ));
    assert_eq!(registry.network_id(NEW, &Identifier::vanilla("stone")), None);
    let good = vec![
        (Identifier::vanilla("stone"), 1),
        (Identifier::vanilla("granite"), 2),
        (Identifier::vanilla("stone"), 1),
    ];
    assert!(registry.register_version_mappings(NEW, good).is_ok());
    assert_eq!(registry.network_id(NEW, &Identifier::vanilla("stone")), Some(1));
    assert_eq!(registry.network_id(NEW, &Identifier::vanilla("granite")), Some(2));
    let unknown = vec![
        (Identifier::vanilla("diorite"), 3),
        (Identifier::vanilla("tuff"), 4),
    ];
    assert!(matches!(
        registry.register_version_mappings(NEW, unknown),
        Err(VersionMappingError::UnknownEntry(_))
    ));
    assert_eq!(registry.network_id(NEW, &Identifier::vanilla("diorite")), None);
}

#[test]
fn network_ids_outlive_their_entry() {
    let mut registry = stones();
    registry.register_version_mapping(NEW, Identifier::vanilla("stone"), 10).ok().unwrap();
    let _ = registry.remove(&Identifier::vanilla("stone"));
    assert_eq!(registry.network_id(NEW, &Identifier::vanilla("stone")), Some(10));
    assert_eq!(registry.get_by_network_id(NEW, 10), None);
}

#[test]
fn keys_spell_their_path() {
    let key = DataKey::<u32>::new(Identifier::vanilla("worldgen"))
        .add_subkey(Identifier::vanilla("biome"))
        .build();
    assert_eq!(key.to_text(), "minecraft:worldgen/minecraft:biome");
    assert_eq!(key.identifier(), &Identifier::vanilla("worldgen"));
    assert_eq!(key.path().len(), 2);
    let child = key.child::<String>(Identifier::vanilla("plains"));
    assert_eq!(child.to_text(), "minecraft:worldgen/minecraft:biome/minecraft:plains");
    let copy = key.clone();
    assert_eq!(copy.path(), key.path());
    let single = DataKey::<u32>::new(Identifier::vanilla("item")).build();
    assert_eq!(single.to_text(), "minecraft:item");
}

#[test]
fn erased_keys_remember_their_type() {
    let key = DataKey::<u32>::new(Identifier::vanilla("item")).build().erased("u32");
    assert_eq!(key.type_id(), TypeId::of::<u32>());
    assert_ne!(key.type_id(), TypeId::of::<String>());
    assert_eq!(key.entry_type(), "u32");
    assert_eq!(key.identifier(), &Identifier::vanilla("item"));
    assert_eq!(key.path(), &[Identifier::vanilla("item")]);
    assert_eq!(key.to_text(), "minecraft:item");
}

fn node(nested: Option<usize>, type_id: TypeId, handle: u8) -> RegistryNode<u8> {
    RegistryNode { type_id, entry_type: "numbers", nested, handle }
}

fn tree() -> (RegistryTree<u8>, RegistryLookup) {
    let mut tree = RegistryTree::new();
    let outer = tree.plant();
    let inner = tree.plant();
    tree.register(inner, Identifier::vanilla("biome"), node(None, TypeId::of::<u32>(), 1))
        .ok()
        .unwrap();
    let nested = node(Some(inner), TypeId::of::<RegistryNode<u8>>(), 2);
    tree.register(outer, Identifier::vanilla("worldgen"), nested).ok().unwrap();
    tree.register(outer, Identifier::vanilla("item"), node(None, TypeId::of::<u32>(), 3))
        .ok()
        .unwrap();
    (tree, RegistryLookup::new(outer))
}

#[test]
fn paths_lead_to_registries() {
    let (tree, lookup) = tree();
    let item = DataKey::<u32>::new(Identifier::vanilla("item")).build();
    assert_eq!(lookup.get(&tree, &item).ok().unwrap().handle, 3);
    let biome = DataKey::<u32>::new(Identifier::vanilla("worldgen"))
        .add_subkey(Identifier::vanilla("biome"))
        .build();
    assert_eq!(lookup.get(&tree, &biome).ok().unwrap().handle, 1);
}

#[test]
fn registries_of_registries_are_found_by_their_type() {
    let (tree, lookup) = tree();
    assert_eq!(tree.root_type(), TypeId::of::<RegistryNode<u8>>());
    assert!(tree.is_root_type(TypeId::of::<RegistryNode<u8>>()));
    assert!(!tree.is_root_type(TypeId::of::<u32>()));
    let worldgen = DataKey::<RegistryNode<u8>>::new(Identifier::vanilla("worldgen")).build();
    let found = lookup.get(&tree, &worldgen).ok().unwrap();
    assert_eq!((found.handle, found.nested), (2, Some(1)));
    let item = DataKey::<u32>::new(Identifier::vanilla("item")).build();
    assert_eq!(lookup.get(&tree, &item).ok().unwrap().nested, None);
    let wrong = DataKey::<u32>::new(Identifier::vanilla("worldgen")).build();
    assert!(matches!(lookup.get(&tree, &wrong), Err(RegistryGetError::TypeMismatch { .. })));
}

#[test]
fn paths_fail_where_they_break_off() {
    let (tree, lookup) = tree();
    let missing = DataKey::<u32>::new(Identifier::vanilla("block")).build();
    assert!(matches!(
        lookup.get(&tree, &missing),
        Err(RegistryGetError::NotFound(name)) if name == Identifier::vanilla("block")
    ));
    let through_leaf = DataKey::<u32>::new(Identifier::vanilla("item"))
        .add_subkey(Identifier::vanilla("biome"))
        .build();
    assert!(matches!(
        lookup.get(&tree, &through_leaf),
        Err(RegistryGetError::ExpectedRegistry(name)) if name == Identifier::vanilla("item")
    ));
    let missing_inside = DataKey::<u32>::new(Identifier::vanilla("worldgen"))
        .add_subkey(Identifier::vanilla("carver"))
        .build();
    assert!(matches!(
        lookup.get(&tree, &missing_inside),
        Err(RegistryGetError::NotFound(name)) if name == Identifier::vanilla("carver")
    ));
    let wrong = DataKey::<String>::new(Identifier::vanilla("item")).build();
    assert!(matches!(
        lookup.get(&tree, &wrong),
        Err(RegistryGetError::TypeMismatch { identifier, expected: "numbers" })
            if identifier == Identifier::vanilla("item")
    ));
    assert!(matches!(
        lookup.resolve(&tree, &[], TypeId::of::<u32>()),
        Err(RegistryGetError::EmptyPath)
    ));
}

#[test]
fn later_registrations_are_found() {
    let (mut tree, lookup) = tree();
    let copy = lookup.clone();
    let carver = DataKey::<str>::new(Identifier::vanilla("worldgen"))
        .add_subkey(Identifier::vanilla("carver"))
        .build();
    assert!(copy.get(&tree, &carver).is_err());
    tree.register(1, Identifier::vanilla("carver"), node(None, TypeId::of::<str>(), 9))
        .ok()
        .unwrap();
    assert_eq!(copy.get(&tree, &carver).ok().unwrap().handle, 9);
    assert!(matches!(
        tree.register(1, Identifier::vanilla("carver"), node(None, TypeId::of::<u8>(), 8)),
        Err(RegistryInsertError::AlreadyRegistered(_))
    ));
}

#[test]
fn registries_of_registries_have_network_ids() {
    let (mut tree, _) = tree();
    let item = Identifier::vanilla("item");
    tree.register_version_mapping(0, NEW, item.clone(), 5).ok().unwrap();
    assert_eq!(tree.registry(0).network_id(NEW, &item), Some(5));
    assert!(matches!(
        tree.register_version_mapping(1, NEW, item.clone(), 5),
        Err(VersionMappingError::UnknownEntry(_))
    ));
    let taken = tree.replace(0, Registry::new());
    assert_eq!(taken.len(), 2);
    assert!(tree.registry(0).is_empty());
    let _ = tree.replace(0, taken);
    assert_eq!(tree.registry(0).network_id(NEW, &item), Some(5));
}

trait Named {
    fn name(&self) -> String;
}

impl Named for u8 {
    fn name(&self) -> String {
        format!("number {self}")
    }
}

#[test]
fn registries_hold_unsized_values() {
    let mut registry: Registry<dyn Named> = Registry::new();
    registry.register_arc(Identifier::vanilla("seven"), Arc::new(7u8)).ok().unwrap();
    let found = registry.get(&Identifier::vanilla("seven")).unwrap();
    assert_eq!(found.name(), "number 7");
}

#[test]
fn keys_compare_and_copy() {
    let key = || DataKey::<u32>::new(Identifier::vanilla("item")).build();
    assert_eq!(key(), key());
    assert_ne!(key(), DataKey::<u32>::new(Identifier::vanilla("block")).build());
    let erased = key().erased("u32");
    assert_eq!(erased.clone(), erased);
    assert_ne!(erased, key().erased("other"));
}
