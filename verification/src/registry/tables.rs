//! The hash tables behind the registries.
//!
//! `dashmap` and `rustc_hash` provide the tables; this module says what they hold and what their
//! operations do to it. Keys are integers or pairs of strings, whose equality and hashing are
//! those of the standard library.

use crate::registry::identifier::Name;
use dashmap::DashMap;
use rustc_hash::{FxBuildHasher, FxHashMap};
use vstd::prelude::*;

verus! {

/// `dashmap::DashMap`, a sharded concurrent hash map.
#[verifier::external_type_specification]
#[verifier::external_body]
#[verifier::reject_recursive_types(K)]
#[verifier::reject_recursive_types(V)]
#[verifier::reject_recursive_types(S)]
pub struct ExDashMap<K, V, S>(DashMap<K, V, S>);

/// `rustc_hash::FxBuildHasher`, the hasher of `FxHashMap`.
#[verifier::external_type_specification]
#[verifier::external_body]
pub struct ExFxBuildHasher(FxBuildHasher);

/// What a table from names to positions holds.
pub uninterp spec fn name_positions(table: DashMap<(String, String), usize>) -> Map<Name, usize>;

/// What a table from version numbers to positions holds.
pub uninterp spec fn version_positions(table: DashMap<u32, usize>) -> Map<u32, usize>;

/// What a table from names to network IDs holds.
pub uninterp spec fn network_ids(table: FxHashMap<(String, String), u32>) -> Map<Name, u32>;

/// What a table from network IDs to names holds.
pub uninterp spec fn network_names(table: FxHashMap<u32, (String, String)>) -> Map<u32, Name>;

/// `DashMap::new`: the new table is empty.
#[verifier::external_body]
pub(crate) fn new_name_positions() -> (table: DashMap<(String, String), usize>)
    ensures
        (name_positions(table) == Map::<Name, usize>::empty()),
{
    DashMap::new()
}

/// `DashMap::get`: the value under an equal key, if there is one.
#[verifier::external_body]
pub(crate) fn get_name_position(
    table: &DashMap<(String, String), usize>,
    key: &(String, String),
) -> (found: Option<usize>)
    ensures
        found == if name_positions(*table).contains_key((key.0@, key.1@)) {
            Some(name_positions(*table)[(key.0@, key.1@)])
        } else {
            None
        },
{
    table.get(key).map(|entry| *entry.value())
}

/// `DashMap::insert`: the key now leads to the value; the value that it led to before is returned.
#[verifier::external_body]
pub(crate) fn insert_name_position(
    table: &mut DashMap<(String, String), usize>,
    key: (String, String),
    position: usize,
) -> (previous: Option<usize>)
    ensures
        name_positions(*final(table)) == name_positions(*old(table)).insert(
            (key.0@, key.1@),
            position,
        ),
        previous == if name_positions(*old(table)).contains_key((key.0@, key.1@)) {
            Some(name_positions(*old(table))[(key.0@, key.1@)])
        } else {
            None
        },
{
    table.insert(key, position)
}

/// `DashMap::remove`: the key leads nowhere any more; the value that it led to is returned.
#[verifier::external_body]
pub(crate) fn remove_name_position(
    table: &mut DashMap<(String, String), usize>,
    key: &(String, String),
) -> (previous: Option<usize>)
    ensures
        name_positions(*final(table)) == name_positions(*old(table)).remove((key.0@, key.1@)),
        previous == if name_positions(*old(table)).contains_key((key.0@, key.1@)) {
            Some(name_positions(*old(table))[(key.0@, key.1@)])
        } else {
            None
        },
{
    table.remove(key).map(|pair| pair.1)
}

/// `DashMap::new`: the new table is empty.
#[verifier::external_body]
pub(crate) fn new_version_positions() -> (table: DashMap<u32, usize>)
    ensures
        (version_positions(table) == Map::<u32, usize>::empty()),
{
    DashMap::new()
}

/// `DashMap::get`: the value under an equal key, if there is one.
#[verifier::external_body]
pub(crate) fn get_version_position(table: &DashMap<u32, usize>, version: u32) -> (found: Option<usize>)
    ensures
        found == if version_positions(*table).contains_key(version) {
            Some(version_positions(*table)[version])
        } else {
            None
        },
{
    table.get(&version).map(|entry| *entry.value())
}

/// `DashMap::insert`: the key now leads to the value; the value that it led to before is returned.
#[verifier::external_body]
pub(crate) fn insert_version_position(
    table: &mut DashMap<u32, usize>,
    version: u32,
    position: usize,
) -> (previous: Option<usize>)
    ensures
        version_positions(*final(table)) == version_positions(*old(table)).insert(version, position),
        previous == if version_positions(*old(table)).contains_key(version) {
            Some(version_positions(*old(table))[version])
        } else {
            None
        },
{
    table.insert(version, position)
}

/// `FxHashMap::default`: the new table is empty.
#[verifier::external_body]
pub(crate) fn new_network_ids() -> (table: FxHashMap<(String, String), u32>)
    ensures
        (network_ids(table) == Map::<Name, u32>::empty()),
{
    FxHashMap::default()
}

/// `HashMap::get` with the Fx hasher: the value under an equal key, if there is one.
#[verifier::external_body]
pub(crate) fn get_network_id(
    table: &FxHashMap<(String, String), u32>,
    key: &(String, String),
) -> (found: Option<u32>)
    ensures
        found == if network_ids(*table).contains_key((key.0@, key.1@)) {
            Some(network_ids(*table)[(key.0@, key.1@)])
        } else {
            None
        },
{
    table.get(key).copied()
}

/// `HashMap::insert` with the Fx hasher: the key now leads to the value; the value that it led to
/// before is returned.
#[verifier::external_body]
pub(crate) fn insert_network_id(
    table: &mut FxHashMap<(String, String), u32>,
    key: (String, String),
    network_id: u32,
) -> (previous: Option<u32>)
    ensures
        network_ids(*final(table)) == network_ids(*old(table)).insert((key.0@, key.1@), network_id),
        previous == if network_ids(*old(table)).contains_key((key.0@, key.1@)) {
            Some(network_ids(*old(table))[(key.0@, key.1@)])
        } else {
            None
        },
{
    table.insert(key, network_id)
}

/// `FxHashMap::default`: the new table is empty.
#[verifier::external_body]
pub(crate) fn new_network_names() -> (table: FxHashMap<u32, (String, String)>)
    ensures
        (network_names(table) == Map::<u32, Name>::empty()),
{
    FxHashMap::default()
}

/// `HashMap::get` with the Fx hasher: a copy of the name under the network ID, if there is one.
#[verifier::external_body]
pub(crate) fn get_network_name(
    table: &FxHashMap<u32, (String, String)>,
    network_id: u32,
) -> (found: Option<(String, String)>)
    ensures
        match found {
            Some(key) => network_names(*table).contains_key(network_id)
                && network_names(*table)[network_id] == (key.0@, key.1@),
            None => !network_names(*table).contains_key(network_id),
        },
{
    table.get(&network_id).cloned()
}

/// `HashMap::insert` with the Fx hasher: the network ID now leads to the name. The name that it led
/// to before is dropped.
#[verifier::external_body]
pub(crate) fn insert_network_name(
    table: &mut FxHashMap<u32, (String, String)>,
    network_id: u32,
    key: (String, String),
)
    ensures
        network_names(*final(table)) == network_names(*old(table)).insert(
            network_id,
            (key.0@, key.1@),
        ),
{
    table.insert(network_id, key);
}

} // verus!
