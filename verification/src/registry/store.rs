//! The registry itself.

use crate::registry::error::{MappingFault, RegistryInsertError, VersionMappingError};
use crate::registry::identifier::{Identifier, Name};
use crate::registry::mapping::{Assignment, MinecraftVersion, NetworkId, VersionMapping};
use crate::registry::tables::{
    get_name_position, get_version_position, insert_name_position, insert_version_position,
    name_positions, new_name_positions, new_version_positions, remove_name_position,
    version_positions,
};
use crate::shared::share;
use dashmap::DashMap;
use std::sync::Arc;
use vstd::prelude::*;

verus! {

/// Shared values by identifier, and their network IDs by version.
pub struct Registry<T: ?Sized> {
    /// Entries in no particular order.
    entries: Vec<(Identifier, Arc<T>)>,
    /// Where in `entries` each identifier is.
    positions: DashMap<(String, String), usize>,
    /// Version mappings in order of creation.
    mappings: Vec<(MinecraftVersion, VersionMapping)>,
    /// Where in `mappings` each version is.
    mapping_positions: DashMap<u32, usize>,
}

/// The names and network IDs of a batch.
pub open spec fn named_pairs(pairs: Seq<(Identifier, NetworkId)>) -> Seq<(Name, NetworkId)> {
    Seq::new(pairs.len(), |i: int| (pairs[i].0@, pairs[i].1))
}

/// What a version assigns; nothing if it has no mapping yet.
pub open spec fn assignment_of(
    assignments: Map<MinecraftVersion, Assignment>,
    version: MinecraftVersion,
) -> Assignment {
    if assignments.contains_key(version) {
        assignments[version]
    } else {
        Assignment::empty()
    }
}

/// The first fault of a request, given the registered names and what the version assigned before.
pub open spec fn request_fault(
    known: Set<Name>,
    before: Assignment,
    version: MinecraftVersion,
    name: Name,
    id: NetworkId,
) -> Option<MappingFault> {
    if known.contains(name) {
        before.fault(version, name, id)
    } else {
        Some(MappingFault::UnknownEntry(name))
    }
}

/// The first fault of pair `i` of a batch, given the registered names and what the version
/// assigned before.
pub open spec fn pair_fault(
    known: Set<Name>,
    before: Assignment,
    version: MinecraftVersion,
    pairs: Seq<(Name, NetworkId)>,
    i: int,
) -> Option<MappingFault> {
    if !known.contains(pairs[i].0) {
        Some(MappingFault::UnknownEntry(pairs[i].0))
    } else {
        before.batch_fault(
            Assignment::empty().with_pairs(pairs, i),
            version,
            pairs[i].0,
            pairs[i].1,
        )
    }
}

impl<T: ?Sized> Registry<T> {
    /// The registered values by name.
    pub closed spec fn values(self) -> Map<Name, Arc<T>> {
        Map::new(
            |name: Name| name_positions(self.positions).contains_key(name),
            |name: Name| self.entries@[name_positions(self.positions)[name] as int].1,
        )
    }

    /// The network IDs by version.
    pub closed spec fn assignments(self) -> Map<MinecraftVersion, Assignment> {
        Map::new(
            |version: MinecraftVersion|
                version_positions(self.mapping_positions).contains_key(version.protocol),
            |version: MinecraftVersion|
                self.mappings@[version_positions(
                    self.mapping_positions,
                )[version.protocol] as int].1@,
        )
    }

    spec fn entries_wf(self) -> bool {
        let positions = name_positions(self.positions);
        &&& forall|name: Name| #[trigger]
            positions.contains_key(name) ==> positions[name] < self.entries@.len()
                && self.entries@[positions[name] as int].0@ == name
        &&& forall|i: int|
            0 <= i < self.entries@.len() ==> positions.contains_key(
                (#[trigger] self.entries@[i]).0@,
            ) && positions[self.entries@[i].0@] == i
    }

    spec fn mapping_positions_wf(self) -> bool {
        let positions = version_positions(self.mapping_positions);
        forall|protocol: u32| #[trigger]
            positions.contains_key(protocol) ==> positions[protocol] < self.mappings@.len()
                && self.mappings@[positions[protocol] as int].0.protocol == protocol
    }

    spec fn mappings_wf(self) -> bool {
        &&& self.mapping_positions_wf()
        &&& forall|i: int| 0 <= i < self.mappings@.len() ==> (#[trigger] self.mappings@[i]).1@.one_to_one()
    }

    /// Positions and stored items agree, and every version maps entries and IDs one to one.
    pub closed spec fn wf(self) -> bool {
        self.entries_wf() && self.mappings_wf()
    }

    /// A registry without entries.
    #[must_use]
    pub fn new() -> (registry: Self)
        ensures
            registry.wf(),
            registry.values() == Map::<Name, Arc<T>>::empty(),
            registry.assignments() == Map::<MinecraftVersion, Assignment>::empty(),
    {
        let registry = Registry {
            entries: Vec::new(),
            positions: new_name_positions(),
            mappings: Vec::new(),
            mapping_positions: new_version_positions(),
        };
        assert(registry.values() =~= Map::empty());
        assert(registry.assignments() =~= Map::empty());
        registry
    }

    fn position(&self, identifier: &Identifier) -> (found: Option<usize>)
        requires
            self.wf(),
        ensures
            match found {
                Some(i) => {
                    &&& i < self.entries@.len()
                    &&& name_positions(self.positions).contains_key(identifier@)
                    &&& name_positions(self.positions)[identifier@] == i
                    &&& self.values().contains_key(identifier@)
                    &&& self.entries@[i as int].0@ == identifier@
                    &&& self.entries@[i as int].1 == self.values()[identifier@]
                },
                None => !self.values().contains_key(identifier@),
            },
    {
        get_name_position(&self.positions, &identifier.key())
    }

    /// Adds an entry whose name is free.
    fn add(&mut self, identifier: Identifier, value: Arc<T>)
        requires
            old(self).wf(),
            !old(self).values().contains_key(identifier@),
        ensures
            final(self).wf(),
            final(self).values() == old(self).values().insert(identifier@, value),
            final(self).assignments() == old(self).assignments(),
    {
        let position: usize = self.entries.len();
        let key = identifier.key();
        let _ = insert_name_position(&mut self.positions, key, position);
        self.entries.push((identifier, value));
        proof {
            let before = *old(self);
            let name = identifier@;
            assert(self.entries_wf()) by {
                assert forall|i: int| 0 <= i < self.entries@.len() implies name_positions(
                    self.positions,
                ).contains_key((#[trigger] self.entries@[i]).0@) && name_positions(
                    self.positions,
                )[self.entries@[i].0@] == i by {
                    if i < before.entries@.len() {
                        assert(self.entries@[i] == before.entries@[i]);
                    }
                }
            }
            assert(self.values() =~= before.values().insert(name, value));
            assert(self.assignments() =~= before.assignments());
        }
    }

    /// Registers a value under a free identifier.
    pub fn register_arc(&mut self, identifier: Identifier, value: Arc<T>) -> (result: Result<
        (),
        RegistryInsertError,
    >)
        requires
            old(self).wf(),
        ensures
            final(self).wf(),
            final(self).assignments() == old(self).assignments(),
            if old(self).values().contains_key(identifier@) {
                &&& result matches Err(RegistryInsertError::AlreadyRegistered(taken)) && taken@
                    == identifier@
                &&& final(self).values() == old(self).values()
            } else {
                &&& result is Ok
                &&& final(self).values() == old(self).values().insert(identifier@, value)
            },
    {
        match self.position(&identifier) {
            None => {
                self.add(identifier, value);
                Ok(())
            },
            Some(_) => Err(RegistryInsertError::AlreadyRegistered(identifier)),
        }
    }

    /// Registers a value under a free identifier.
    pub fn register(&mut self, identifier: Identifier, value: T) -> (result: Result<
        (),
        RegistryInsertError,
    >) where T: Sized
        requires
            old(self).wf(),
        ensures
            final(self).wf(),
            final(self).assignments() == old(self).assignments(),
            if old(self).values().contains_key(identifier@) {
                &&& result matches Err(RegistryInsertError::AlreadyRegistered(taken)) && taken@
                    == identifier@
                &&& final(self).values() == old(self).values()
            } else {
                &&& result is Ok
                &&& final(self).values() == old(self).values().insert(identifier@, Arc::new(value))
            },
    {
        self.register_arc(identifier, Arc::new(value))
    }

    /// The value under `identifier`; if there is none, the one that `create` makes is registered
    /// first.
    pub fn get_or_register_arc<F: FnOnce() -> Arc<T>>(
        &mut self,
        identifier: Identifier,
        create: F,
    ) -> (value: Arc<T>)
        requires
            old(self).wf(),
            !old(self).values().contains_key(identifier@) ==> call_requires(create, ()),
        ensures
            final(self).wf(),
            final(self).assignments() == old(self).assignments(),
            if old(self).values().contains_key(identifier@) {
                &&& value == old(self).values()[identifier@]
                &&& final(self).values() == old(self).values()
            } else {
                &&& call_ensures(create, (), value)
                &&& final(self).values() == old(self).values().insert(identifier@, value)
            },
    {
        match self.position(&identifier) {
            Some(i) => share(&self.entries[i].1),
            None => {
                let value: Arc<T> = create();
                self.add(identifier, share(&value));
                value
            },
        }
    }

    /// The value under `identifier`; if there is none, the one that `create` makes is registered
    /// first.
    pub fn get_or_register<F: FnOnce() -> T>(&mut self, identifier: Identifier, create: F) -> (value:
        Arc<T>) where T: Sized
        requires
            old(self).wf(),
            !old(self).values().contains_key(identifier@) ==> call_requires(create, ()),
        ensures
            final(self).wf(),
            final(self).assignments() == old(self).assignments(),
            if old(self).values().contains_key(identifier@) {
                &&& value == old(self).values()[identifier@]
                &&& final(self).values() == old(self).values()
            } else {
                &&& call_ensures(create, (), *value)
                &&& final(self).values() == old(self).values().insert(identifier@, value)
            },
    {
        match self.position(&identifier) {
            Some(i) => share(&self.entries[i].1),
            None => {
                let value: Arc<T> = Arc::new(create());
                self.add(identifier, share(&value));
                value
            },
        }
    }

    /// The value under `identifier`.
    #[must_use]
    pub fn get(&self, identifier: &Identifier) -> (value: Option<Arc<T>>)
        requires
            self.wf(),
        ensures
            value == if self.values().contains_key(identifier@) {
                Some(self.values()[identifier@])
            } else {
                None
            },
    {
        match self.position(identifier) {
            Some(i) => Some(share(&self.entries[i].1)),
            None => None,
        }
    }

    /// Whether there is a value under `identifier`.
    #[must_use]
    pub fn contains(&self, identifier: &Identifier) -> (found: bool)
        requires
            self.wf(),
        ensures
            found == self.values().contains_key(identifier@),
    {
        self.position(identifier).is_some()
    }

    /// Takes the value under `identifier` out of the registry. Its network IDs stay assigned.
    #[must_use]
    pub fn remove(&mut self, identifier: &Identifier) -> (value: Option<Arc<T>>)
        requires
            old(self).wf(),
        ensures
            final(self).wf(),
            final(self).assignments() == old(self).assignments(),
            final(self).values() == old(self).values().remove(identifier@),
            value == if old(self).values().contains_key(identifier@) {
                Some(old(self).values()[identifier@])
            } else {
                None
            },
    {
        let i: usize = match self.position(identifier) {
            Some(i) => i,
            None => {
                assert(self.values().remove(identifier@) =~= self.values());
                return None;
            },
        };
        let last: usize = self.entries.len() - 1;
        let _ = remove_name_position(&mut self.positions, &identifier.key());
        if i != last {
            let moved = self.entries[last].0.key();
            let _ = insert_name_position(&mut self.positions, moved, i);
        }
        let entry = self.entries.swap_remove(i);
        proof {
            let before = *old(self);
            let name = identifier@;
            let tail = before.entries@[last as int].0@;
            assert(before.entries@[i as int].0@ == name);
            assert(name_positions(before.positions)[tail] == last);
            assert forall|j: int| 0 <= j < self.entries@.len() implies name_positions(
                self.positions,
            ).contains_key((#[trigger] self.entries@[j]).0@) && name_positions(
                self.positions,
            )[self.entries@[j].0@] == j by {
                if j == i {
                    assert(self.entries@[j] == before.entries@[last as int]);
                } else {
                    assert(self.entries@[j] == before.entries@[j]);
                }
            }
            assert forall|n: Name| #[trigger]
                name_positions(self.positions).contains_key(n) implies name_positions(
                self.positions,
            )[n] < self.entries@.len() && self.entries@[name_positions(self.positions)[n] as int].0@
                == n by {
                assert(name_positions(before.positions).contains_key(n));
            }
            assert(self.entries_wf());
            assert forall|n: Name| #[trigger]
                self.values().contains_key(n) implies self.values()[n] == before.values()[n] by {
                assert(name_positions(before.positions).contains_key(n));
            }
            assert(self.values() =~= before.values().remove(name));
            assert(self.assignments() =~= before.assignments());
        }
        Some(entry.1)
    }

    /// The number of entries.
    #[must_use]
    pub fn len(&self) -> (count: usize)
        requires
            self.wf(),
        ensures
            self.values().dom().finite(),
            count == self.values().dom().len(),
    {
        proof {
            self.lemma_count();
        }
        self.entries.len()
    }

    /// Whether there are no entries.
    #[must_use]
    pub fn is_empty(&self) -> (empty: bool)
        requires
            self.wf(),
        ensures
            empty == (self.values() == Map::<Name, Arc<T>>::empty()),
    {
        proof {
            if self.entries@.len() == 0 {
                assert(self.values() =~= Map::<Name, Arc<T>>::empty());
            } else {
                assert(self.values().contains_key(self.entries@[0].0@));
            }
        }
        self.entries.len() == 0
    }

    /// Names and positions correspond, so there are as many names as entries.
    proof fn lemma_count(self)
        requires
            self.wf(),
        ensures
            self.values().dom().finite(),
            self.values().dom().len() == self.entries@.len(),
    {
        let names = Seq::new(self.entries@.len(), |i: int| self.entries@[i].0@);
        assert(names.no_duplicates()) by {
            assert forall|i: int, j: int|
                0 <= i < names.len() && 0 <= j < names.len() && i != j implies names[i] != names[j] by {
                assert(name_positions(self.positions)[self.entries@[i].0@] == i);
                assert(name_positions(self.positions)[self.entries@[j].0@] == j);
            }
        }
        names.unique_seq_to_set();
        assert(names.to_set() =~= self.values().dom()) by {
            assert forall|n: Name| self.values().contains_key(n) implies names.contains(n) by {
                let p = name_positions(self.positions)[n] as int;
                assert(names[p] == n);
            }
            assert forall|n: Name| names.contains(n) implies self.values().contains_key(n) by {
                let p = names.index_of(n);
                assert(self.entries@[p].0@ == n);
            }
        }
    }

    /// The entries, each once, in no particular order.
    pub fn iter(&self) -> (items: &[(Identifier, Arc<T>)])
        requires
            self.wf(),
        ensures
            forall|i: int, j: int|
                0 <= i < j < items@.len() ==> (#[trigger] items@[i]).0@ != (#[trigger] items@[j]).0@,
            forall|i: int|
                0 <= i < items@.len() ==> self.values().contains_key((#[trigger] items@[i]).0@)
                    && self.values()[items@[i].0@] == items@[i].1,
            forall|name: Name| #[trigger]
                self.values().contains_key(name) ==> exists|i: int|
                    0 <= i < items@.len() && (#[trigger] items@[i]).0@ == name,
    {
        proof {
            assert forall|name: Name| #[trigger] self.values().contains_key(name) implies exists|
                i: int,
            |
                0 <= i < self.entries@.len() && (#[trigger] self.entries@[i]).0@ == name by {
                let p = name_positions(self.positions)[name] as int;
                assert(self.entries@[p].0@ == name);
            }
            assert forall|i: int, j: int| 0 <= i < j < self.entries@.len() implies (
            #[trigger] self.entries@[i]).0@ != (#[trigger] self.entries@[j]).0@ by {
                assert(name_positions(self.positions)[self.entries@[i].0@] == i);
                assert(name_positions(self.positions)[self.entries@[j].0@] == j);
            }
        }
        self.entries.as_slice()
    }

    fn mapping_position(&self, version: MinecraftVersion) -> (found: Option<usize>)
        requires
            self.wf(),
        ensures
            match found {
                Some(i) => {
                    &&& i < self.mappings@.len()
                    &&& self.assignments().contains_key(version)
                    &&& self.mappings@[i as int].0 == version
                    &&& self.mappings@[i as int].1@ == self.assignments()[version]
                    &&& version_positions(self.mapping_positions).contains_key(version.protocol)
                    &&& version_positions(self.mapping_positions)[version.protocol] == i
                },
                None => !self.assignments().contains_key(version),
            },
    {
        get_version_position(&self.mapping_positions, version.protocol)
    }

    /// The mapping of a version, created empty if there is none.
    fn open_mapping(&mut self, version: MinecraftVersion) -> (position: usize)
        requires
            old(self).wf(),
        ensures
            final(self).wf(),
            final(self).values() == old(self).values(),
            final(self).assignments() == old(self).assignments().insert(
                version,
                assignment_of(old(self).assignments(), version),
            ),
            position < final(self).mappings@.len(),
            final(self).mappings@[position as int].0 == version,
            final(self).mappings@[position as int].1@ == assignment_of(
                old(self).assignments(),
                version,
            ),
            version_positions(final(self).mapping_positions).contains_key(version.protocol),
            version_positions(final(self).mapping_positions)[version.protocol] == position,
    {
        if let Some(i) = self.mapping_position(version) {
            assert(self.assignments() =~= self.assignments().insert(
                version,
                self.assignments()[version],
            ));
            return i;
        }
        let position: usize = self.mappings.len();
        let _ = insert_version_position(&mut self.mapping_positions, version.protocol, position);
        self.mappings.push((version, VersionMapping::new()));
        proof {
            let before = *old(self);
            assert forall|i: int| 0 <= i < before.mappings@.len() implies #[trigger] self.mappings@[i]
                == before.mappings@[i] by {}
            assert forall|protocol: u32| #[trigger]
                version_positions(self.mapping_positions).contains_key(
                    protocol,
                ) implies version_positions(self.mapping_positions)[protocol]
                < self.mappings@.len() && self.mappings@[version_positions(
                self.mapping_positions,
            )[protocol] as int].0.protocol == protocol by {
                if protocol != version.protocol {
                    assert(version_positions(before.mapping_positions).contains_key(protocol));
                }
            }
            assert(self.mappings_wf());
            assert(self.values() =~= before.values());
            assert forall|v: MinecraftVersion| #[trigger]
                self.assignments().contains_key(v) implies self.assignments()[v]
                == before.assignments().insert(version, Assignment::empty())[v] by {
                if v != version {
                    assert(v.protocol != version.protocol);
                    assert(version_positions(before.mapping_positions).contains_key(v.protocol));
                }
            }
            assert(self.assignments() =~= before.assignments().insert(
                version,
                Assignment::empty(),
            ));
        }
        position
    }

    /// Assigns one more pair in the mapping at `position`.
    fn assign_at(
        &mut self,
        position: usize,
        version: MinecraftVersion,
        identifier: &Identifier,
        network_id: NetworkId,
    )
        requires
            old(self).entries_wf(),
            old(self).mapping_positions_wf(),
            position < old(self).mappings@.len(),
            old(self).mappings@[position as int].0 == version,
            version_positions(old(self).mapping_positions).contains_key(version.protocol),
            version_positions(old(self).mapping_positions)[version.protocol] == position,
        ensures
            final(self).entries_wf(),
            final(self).mapping_positions_wf(),
            final(self).values() == old(self).values(),
            final(self).mapping_positions == old(self).mapping_positions,
            final(self).mappings@.len() == old(self).mappings@.len(),
            final(self).mappings@[position as int].0 == version,
            final(self).mappings@[position as int].1@ == old(self).mappings@[position as int].1@.with(
                identifier@,
                network_id,
            ),
            forall|i: int|
                0 <= i < old(self).mappings@.len() && i != position ==> #[trigger] final(self).mappings@[i] == old(self).mappings@[i],
            final(self).assignments() == old(self).assignments().insert(
                version,
                old(self).mappings@[position as int].1@.with(identifier@, network_id),
            ),
    {
        self.mappings[position].1.assign(identifier, network_id);
        proof {
            let before = *old(self);
            assert(self.values() =~= before.values());
            assert forall|v: MinecraftVersion| #[trigger]
                self.assignments().contains_key(v) && v != version implies self.assignments()[v]
                == before.assignments()[v] by {
                assert(v.protocol != version.protocol);
                let p = version_positions(before.mapping_positions)[v.protocol];
                assert(version_positions(before.mapping_positions).contains_key(v.protocol));
                assert(p != position);
            }
            assert(self.assignments() =~= before.assignments().insert(
                version,
                before.mappings@[position as int].1@.with(identifier@, network_id),
            ));
        }
    }

    /// Assigns a network ID to an entry in one version. Asking for what is assigned already is no
    /// error; anything else that is taken is, and changes nothing.
    pub fn register_version_mapping(
        &mut self,
        version: MinecraftVersion,
        identifier: Identifier,
        network_id: NetworkId,
    ) -> (result: Result<(), VersionMappingError>)
        requires
            old(self).wf(),
        ensures
            final(self).wf(),
            final(self).values() == old(self).values(),
            ({
                let before = assignment_of(old(self).assignments(), version);
                let known = old(self).values().dom();
                match request_fault(known, before, version, identifier@, network_id) {
                    Some(f) => {
                        &&& result matches Err(e) && e@ == f
                        &&& final(self).assignments() == old(self).assignments()
                    },
                    None => {
                        &&& result is Ok
                        &&& final(self).assignments() == old(self).assignments().insert(
                            version,
                            before.with(identifier@, network_id),
                        )
                    },
                }
            }),
    {
        if !self.contains(&identifier) {
            return Err(VersionMappingError::UnknownEntry(identifier));
        }
        let position: usize = self.open_mapping(version);
        let ghost before = assignment_of(old(self).assignments(), version);
        assert(before.one_to_one()) by {
            assert(self.mappings@[position as int].1@.one_to_one());
        }
        if let Some(existing_network_id) = self.mappings[position].1.id_of(&identifier) {
            proof {
                assert(self.assignments() =~= old(self).assignments());
            }
            if existing_network_id == network_id {
                proof {
                    before.law_repeated_request_changes_nothing(identifier@, network_id);
                }
                return Ok(());
            }
            return Err(
                VersionMappingError::IdentifierAlreadyMapped {
                    version,
                    identifier,
                    existing_network_id,
                    requested_network_id: network_id,
                },
            );
        }
        if let Some(existing_identifier) = self.mappings[position].1.name_of(network_id) {
            proof {
                assert(self.assignments() =~= old(self).assignments());
            }
            return Err(
                VersionMappingError::NetworkIdAlreadyMapped {
                    version,
                    network_id,
                    existing_identifier,
                    requested_identifier: identifier,
                },
            );
        }
        self.assign_at(position, version, &identifier, network_id);
        proof {
            before.law_with_keeps_one_to_one(version, identifier@, network_id);
            assert(self.assignments() =~= old(self).assignments().insert(
                version,
                before.with(identifier@, network_id),
            ));
        }
        Ok(())
    }

    /// Looks for a fault of a request in one mapping.
    fn check_assignment(
        mapping: &VersionMapping,
        version: MinecraftVersion,
        identifier: &Identifier,
        network_id: NetworkId,
    ) -> (result: Result<(), VersionMappingError>)
        ensures
            match mapping@.fault(version, identifier@, network_id) {
                Some(f) => result matches Err(e) && e@ == f,
                None => result is Ok,
            },
    {
        if let Some(existing_network_id) = mapping.id_of(identifier) {
            if existing_network_id != network_id {
                return Err(
                    VersionMappingError::IdentifierAlreadyMapped {
                        version,
                        identifier: identifier.clone(),
                        existing_network_id,
                        requested_network_id: network_id,
                    },
                );
            }
        }
        if let Some(existing_identifier) = mapping.name_of(network_id) {
            if !existing_identifier.matches(identifier) {
                return Err(
                    VersionMappingError::NetworkIdAlreadyMapped {
                        version,
                        network_id,
                        existing_identifier,
                        requested_identifier: identifier.clone(),
                    },
                );
            }
        }
        Ok(())
    }

    /// Assigns a batch of network IDs in one version, all or none: the first pair that is unknown
    /// or in conflict, with what is assigned or with an earlier pair, is reported and nothing is
    /// assigned. Either way the version has a mapping afterwards.
    pub fn register_version_mappings(
        &mut self,
        version: MinecraftVersion,
        mappings: Vec<(Identifier, NetworkId)>,
    ) -> (result: Result<(), VersionMappingError>)
        requires
            old(self).wf(),
        ensures
            final(self).wf(),
            final(self).values() == old(self).values(),
            ({
                let known = old(self).values().dom();
                let before = assignment_of(old(self).assignments(), version);
                let pairs = named_pairs(mappings@);
                match result {
                    Ok(()) => {
                        &&& forall|i: int|
                            0 <= i < pairs.len() ==> #[trigger] pair_fault(
                                known,
                                before,
                                version,
                                pairs,
                                i,
                            ) is None
                        &&& final(self).assignments() == old(self).assignments().insert(
                            version,
                            before.with_pairs(pairs, pairs.len() as int),
                        )
                    },
                    Err(e) => {
                        &&& exists|i: int|
                            {
                                &&& 0 <= i < pairs.len()
                                &&& #[trigger] pair_fault(known, before, version, pairs, i) == Some(e@)
                                &&& forall|j: int|
                                    0 <= j < i ==> #[trigger] pair_fault(
                                        known,
                                        before,
                                        version,
                                        pairs,
                                        j,
                                    ) is None
                            }
                        &&& final(self).assignments() == old(self).assignments().insert(
                            version,
                            before,
                        )
                    },
                }
            }),
    {
        let ghost known = self.values().dom();
        let ghost before = assignment_of(self.assignments(), version);
        let ghost pairs = named_pairs(mappings@);
        let count: usize = mappings.len();
        let position: usize = self.open_mapping(version);
        let ghost opened = *self;
        let mut batch: VersionMapping = VersionMapping::new();
        for i in 0..count
            invariant
                *self == opened,
                opened.wf(),
                opened.values().dom() == known,
                position < opened.mappings@.len(),
                opened.mappings@[position as int].1@ == before,
                count == mappings@.len(),
                pairs == named_pairs(mappings@),
                opened.values() == old(self).values(),
                known == old(self).values().dom(),
                before == assignment_of(old(self).assignments(), version),
                opened.assignments() == old(self).assignments().insert(version, before),
                batch@ == Assignment::empty().with_pairs(pairs, i as int),
                forall|j: int|
                    0 <= j < i ==> #[trigger] pair_fault(known, before, version, pairs, j) is None,
        {
            let identifier = &mappings[i].0;
            let network_id: u32 = mappings[i].1;
            assert(pairs[i as int] == (identifier@, network_id));
            if !self.contains(identifier) {
                assert(pair_fault(known, before, version, pairs, i as int) == Some(
                    MappingFault::UnknownEntry(identifier@),
                ));
                return Err(VersionMappingError::UnknownEntry(identifier.clone()));
            }
            if let Err(e) = Self::check_assignment(
                &self.mappings[position].1,
                version,
                identifier,
                network_id,
            ) {
                assert(pair_fault(known, before, version, pairs, i as int) == Some(e@));
                return Err(e);
            }
            if let Err(e) = Self::check_assignment(&batch, version, identifier, network_id) {
                assert(pair_fault(known, before, version, pairs, i as int) == Some(e@));
                return Err(e);
            }
            assert(pair_fault(known, before, version, pairs, i as int) is None);
            batch.assign(identifier, network_id);
        }
        assert(before.one_to_one()) by {
            assert(opened.mappings@[position as int].1@.one_to_one());
        }
        assert(before.accepts(version, pairs, pairs.len() as int)) by {
            assert forall|i: int| 0 <= i < pairs.len() implies before.batch_fault(
                Assignment::empty().with_pairs(pairs, i),
                version,
                (#[trigger] pairs[i]).0,
                pairs[i].1,
            ) is None by {
                assert(pair_fault(known, before, version, pairs, i) is None);
            }
        }
        for i in 0..count
            invariant
                opened.wf(),
                position < opened.mappings@.len(),
                count == mappings@.len(),
                pairs == named_pairs(mappings@),
                before.one_to_one(),
                before.accepts(version, pairs, pairs.len() as int),
                opened.mappings@[position as int].1@ == before,
                self.entries_wf(),
                self.mapping_positions_wf(),
                self.values() == opened.values(),
                self.mapping_positions == opened.mapping_positions,
                self.mappings@.len() == opened.mappings@.len(),
                self.mappings@[position as int].0 == version,
                self.mappings@[position as int].1@ == before.with_pairs(pairs, i as int),
                forall|j: int|
                    0 <= j < opened.mappings@.len() && j != position ==> #[trigger] self.mappings@[j]
                        == opened.mappings@[j],
                version_positions(opened.mapping_positions).contains_key(version.protocol),
                version_positions(opened.mapping_positions)[version.protocol] == position,
                self.assignments() == opened.assignments().insert(
                    version,
                    before.with_pairs(pairs, i as int),
                ),
        {
            assert(pairs[i as int] == (mappings@[i as int].0@, mappings@[i as int].1));
            self.assign_at(position, version, &mappings[i].0, mappings[i].1);
            assert(self.assignments() =~= opened.assignments().insert(
                version,
                before.with_pairs(pairs, i + 1),
            ));
        }
        proof {
            before.law_batch_keeps_one_to_one(version, pairs, pairs.len() as int);
            assert forall|j: int| 0 <= j < self.mappings@.len() implies (
            #[trigger] self.mappings@[j]).1@.one_to_one() by {
                if j != position {
                    assert(opened.mappings@[j].1@.one_to_one());
                }
            }
            assert(self.assignments() =~= old(self).assignments().insert(
                version,
                before.with_pairs(pairs, pairs.len() as int),
            ));
        }
        Ok(())
    }

    /// The network ID of an entry in one version.
    #[must_use]
    pub fn network_id(&self, version: MinecraftVersion, identifier: &Identifier) -> (id: Option<
        NetworkId,
    >)
        requires
            self.wf(),
        ensures
            ({
                let ids = assignment_of(self.assignments(), version).ids;
                id == if ids.contains_key(identifier@) {
                    Some(ids[identifier@])
                } else {
                    None
                }
            }),
    {
        match self.mapping_position(version) {
            Some(i) => self.mappings[i].1.id_of(identifier),
            None => None,
        }
    }

    /// The identifier that has a network ID in one version.
    #[must_use]
    pub fn identifier_from_network_id(
        &self,
        version: MinecraftVersion,
        network_id: NetworkId,
    ) -> (identifier: Option<Identifier>)
        requires
            self.wf(),
        ensures
            ({
                let names = assignment_of(self.assignments(), version).names;
                match identifier {
                    Some(i) => names.contains_key(network_id) && names[network_id] == i@,
                    None => !names.contains_key(network_id),
                }
            }),
    {
        match self.mapping_position(version) {
            Some(i) => self.mappings[i].1.name_of(network_id),
            None => None,
        }
    }

    /// The value whose identifier has a network ID in one version.
    #[must_use]
    pub fn get_by_network_id(&self, version: MinecraftVersion, network_id: NetworkId) -> (value:
        Option<Arc<T>>)
        requires
            self.wf(),
        ensures
            ({
                let names = assignment_of(self.assignments(), version).names;
                value == if names.contains_key(network_id) && self.values().contains_key(
                    names[network_id],
                ) {
                    Some(self.values()[names[network_id]])
                } else {
                    None
                }
            }),
    {
        match self.identifier_from_network_id(version, network_id) {
            Some(identifier) => self.get(&identifier),
            None => None,
        }
    }

    /// Whether a version has a mapping, be it empty.
    #[must_use]
    pub fn has_version_mapping(&self, version: MinecraftVersion) -> (found: bool)
        requires
            self.wf(),
        ensures
            found == self.assignments().contains_key(version),
    {
        self.mapping_position(version).is_some()
    }

    /// In every version, entries and network IDs correspond one to one: looking up the identifier of
    /// an entry's network ID gives the entry back, and the other way round.
    pub proof fn law_network_ids_round_trip(
        self,
        version: MinecraftVersion,
        name: Name,
        network_id: NetworkId,
    )
        requires
            self.wf(),
        ensures
            ({
                let a = assignment_of(self.assignments(), version);
                (a.ids.contains_key(name) && a.ids[name] == network_id) <==> (a.names.contains_key(
                    network_id,
                ) && a.names[network_id] == name)
            }),
    {
        if self.assignments().contains_key(version) {
            let p = version_positions(self.mapping_positions)[version.protocol] as int;
            assert(self.mappings@[p].1@.one_to_one());
        }
    }
}

/// Removing a value that was just registered leaves the values as they were before.
pub proof fn law_remove_undoes_register<T: ?Sized>(values: Map<Name, Arc<T>>, name: Name, value: Arc<T>)
    requires
        !values.contains_key(name),
    ensures
        values.insert(name, value).remove(name) == values,
{
    assert(values.insert(name, value).remove(name) =~= values);
}

impl<T: ?Sized> Default for Registry<T> {
    fn default() -> (registry: Self)
        ensures
            registry.wf(),
            registry.values() == Map::<Name, Arc<T>>::empty(),
            registry.assignments() == Map::<MinecraftVersion, Assignment>::empty(),
    {
        Self::new()
    }
}

/// A request is accepted exactly if the name is registered, has no other network ID in the version,
/// and the ID has no other name; whatever the ID. That a name is unknown is said only of names that
/// are, and of all of them.
pub proof fn law_request_without_conflict_is_accepted(
    known: Set<Name>,
    before: Assignment,
    version: MinecraftVersion,
    name: Name,
    id: NetworkId,
)
    ensures
        request_fault(known, before, version, name, id) is None <==> {
            &&& known.contains(name)
            &&& before.ids.contains_key(name) ==> before.ids[name] == id
            &&& before.names.contains_key(id) ==> before.names[id] == name
        },
        !known.contains(name) ==> request_fault(known, before, version, name, id) == Some(
            MappingFault::UnknownEntry(name),
        ),
        request_fault(known, before, version, name, id) matches Some(MappingFault::UnknownEntry(n))
            ==> n == name && !known.contains(name),
        request_fault(known, before, version, name, id) matches Some(
            MappingFault::IdentifierAlreadyMapped { version: v, name: n, existing_id, requested_id },
        ) ==> v == version && n == name && requested_id == id && existing_id != id
            && before.ids.contains_key(name) && before.ids[name] == existing_id,
        request_fault(known, before, version, name, id) matches Some(
            MappingFault::NetworkIdAlreadyMapped {
                version: v,
                network_id,
                existing_name,
                requested_name,
            },
        ) ==> v == version && network_id == id && requested_name == name && existing_name != name
            && before.names.contains_key(id) && before.names[id] == existing_name,
{
}

/// Pairs of a batch that have been accepted so far do not contradict each other.
proof fn lemma_accepted_pairs_agree(
    known: Set<Name>,
    before: Assignment,
    version: MinecraftVersion,
    pairs: Seq<(Name, NetworkId)>,
    k: int,
)
    requires
        0 <= k <= pairs.len(),
        forall|i: int|
            0 <= i < k ==> #[trigger] pair_fault(known, before, version, pairs, i) is None,
    ensures
        forall|i: int, j: int|
            0 <= i < j < k ==> ((#[trigger] pairs[i]).0 == (#[trigger] pairs[j]).0 <==> pairs[i].1
                == pairs[j].1),
    decreases k,
{
    if k > 0 {
        lemma_accepted_pairs_agree(known, before, version, pairs, k - 1);
        let j = k - 1;
        Assignment::lemma_batch_reads(pairs, j);
        let batch = Assignment::empty().with_pairs(pairs, j);
        assert(pair_fault(known, before, version, pairs, j) is None);
        assert forall|i: int| 0 <= i < j implies ((#[trigger] pairs[i]).0 == pairs[j].0 <==> pairs[i].1
            == pairs[j].1) by {
            let (name, id) = pairs[j];
            if pairs[i].0 == name {
                assert(batch.ids.contains_key(name));
                let a = choose|a: int| 0 <= a < j && #[trigger] pairs[a] == (name, batch.ids[name]);
                if a < i {
                    assert(pairs[a].0 == pairs[i].0);
                } else if i < a {
                    assert(pairs[i].0 == pairs[a].0);
                }
            }
            if pairs[i].1 == id {
                assert(batch.names.contains_key(id));
                let b = choose|b: int| 0 <= b < j && #[trigger] pairs[b] == (batch.names[id], id);
                if b < i {
                    assert(pairs[b].1 == pairs[i].1);
                } else if i < b {
                    assert(pairs[i].1 == pairs[b].1);
                }
            }
        }
    }
}

/// A batch is accepted exactly if every name in it is registered, no pair contradicts what the
/// version assigns already, and no two pairs contradict each other; whatever the IDs.
pub proof fn law_batch_without_conflict_is_accepted(
    known: Set<Name>,
    before: Assignment,
    version: MinecraftVersion,
    pairs: Seq<(Name, NetworkId)>,
)
    ensures
        (forall|i: int|
            0 <= i < pairs.len() ==> #[trigger] pair_fault(known, before, version, pairs, i) is None)
            <==> {
            &&& forall|i: int|
                0 <= i < pairs.len() ==> {
                    let (name, id) = #[trigger] pairs[i];
                    &&& known.contains(name)
                    &&& before.ids.contains_key(name) ==> before.ids[name] == id
                    &&& before.names.contains_key(id) ==> before.names[id] == name
                }
            &&& forall|i: int, j: int|
                0 <= i < j < pairs.len() ==> ((#[trigger] pairs[i]).0 == (#[trigger] pairs[j]).0
                    <==> pairs[i].1 == pairs[j].1)
        },
{
    if forall|i: int|
        0 <= i < pairs.len() ==> #[trigger] pair_fault(known, before, version, pairs, i) is None {
        lemma_accepted_pairs_agree(known, before, version, pairs, pairs.len() as int);
        assert forall|i: int| 0 <= i < pairs.len() implies {
            let (name, id) = #[trigger] pairs[i];
            &&& known.contains(name)
            &&& before.ids.contains_key(name) ==> before.ids[name] == id
            &&& before.names.contains_key(id) ==> before.names[id] == name
        } by {
            assert(pair_fault(known, before, version, pairs, i) is None);
        }
    }
    if (forall|i: int|
        0 <= i < pairs.len() ==> {
            let (name, id) = #[trigger] pairs[i];
            &&& known.contains(name)
            &&& before.ids.contains_key(name) ==> before.ids[name] == id
            &&& before.names.contains_key(id) ==> before.names[id] == name
        }) && (forall|i: int, j: int|
        0 <= i < j < pairs.len() ==> ((#[trigger] pairs[i]).0 == (#[trigger] pairs[j]).0
            <==> pairs[i].1 == pairs[j].1)) {
        assert forall|i: int| 0 <= i < pairs.len() implies #[trigger] pair_fault(
            known,
            before,
            version,
            pairs,
            i,
        ) is None by {
            Assignment::lemma_batch_reads(pairs, i);
            let (name, id) = pairs[i];
            let batch = Assignment::empty().with_pairs(pairs, i);
            if batch.ids.contains_key(name) {
                let a = choose|a: int| 0 <= a < i && #[trigger] pairs[a] == (name, batch.ids[name]);
                assert(pairs[a].0 == pairs[i].0);
            }
            if batch.names.contains_key(id) {
                let b = choose|b: int| 0 <= b < i && #[trigger] pairs[b] == (batch.names[id], id);
                assert(pairs[b].1 == pairs[i].1);
            }
        }
    }
}

/// The fault of a pair says what is wrong with it: its name is not registered; or the name has
/// another ID, or the ID another name, in the version or by an earlier pair of the batch. Names that
/// are not registered are always reported as such.
pub proof fn law_batch_fault_tells_why(
    known: Set<Name>,
    before: Assignment,
    version: MinecraftVersion,
    pairs: Seq<(Name, NetworkId)>,
    i: int,
)
    requires
        0 <= i < pairs.len(),
    ensures
        !known.contains(pairs[i].0) ==> pair_fault(known, before, version, pairs, i) == Some(
            MappingFault::UnknownEntry(pairs[i].0),
        ),
        match pair_fault(known, before, version, pairs, i) {
            Some(MappingFault::UnknownEntry(name)) => name == pairs[i].0 && !known.contains(name),
            Some(
                MappingFault::IdentifierAlreadyMapped { version: v, name, existing_id, requested_id },
            ) => {
                &&& v == version
                &&& (name, requested_id) == pairs[i]
                &&& existing_id != requested_id
                &&& (before.ids.contains_key(name) && before.ids[name] == existing_id) || exists|
                    j: int,
                |
                    0 <= j < i && #[trigger] pairs[j] == (name, existing_id)
            },
            Some(
                MappingFault::NetworkIdAlreadyMapped {
                    version: v,
                    network_id,
                    existing_name,
                    requested_name,
                },
            ) => {
                &&& v == version
                &&& (requested_name, network_id) == pairs[i]
                &&& existing_name != requested_name
                &&& (before.names.contains_key(network_id) && before.names[network_id]
                    == existing_name) || exists|j: int|
                    0 <= j < i && #[trigger] pairs[j] == (existing_name, network_id)
            },
            None => true,
        },
{
    Assignment::lemma_batch_reads(pairs, i);
}

/// What a version assigns is what was last put there, versions do not mix, and a version without a
/// mapping assigns nothing.
pub proof fn law_versions_do_not_mix(
    assignments: Map<MinecraftVersion, Assignment>,
    version: MinecraftVersion,
    other: MinecraftVersion,
    assignment: Assignment,
    name: Name,
    id: NetworkId,
)
    ensures
        assignment_of(assignments.insert(version, assignment), version) == assignment,
        other != version ==> assignment_of(assignments.insert(version, assignment), other)
            == assignment_of(assignments, other),
        !assignments.contains_key(version) ==> !assignment_of(assignments, version).ids.contains_key(
            name,
        ) && !assignment_of(assignments, version).names.contains_key(id),
{
}

/// A batch is read pair by pair.
pub proof fn law_pairs_are_named(pairs: Seq<(Identifier, NetworkId)>, i: int)
    requires
        0 <= i < pairs.len(),
    ensures
        named_pairs(pairs).len() == pairs.len(),
        named_pairs(pairs)[i] == (
            (pairs[i].0.namespace@, pairs[i].0.path@),
            pairs[i].1,
        ),
{
}

/// Of several conflicts of a request, that its name has another ID counts before that its ID has
/// another name.
pub proof fn law_request_conflicts_in_order(
    known: Set<Name>,
    before: Assignment,
    version: MinecraftVersion,
    name: Name,
    id: NetworkId,
)
    requires
        known.contains(name),
    ensures
        before.ids.contains_key(name) && before.ids[name] != id ==> request_fault(
            known,
            before,
            version,
            name,
            id,
        ) == Some(
            MappingFault::IdentifierAlreadyMapped {
                version,
                name,
                existing_id: before.ids[name],
                requested_id: id,
            },
        ),
        !(before.ids.contains_key(name) && before.ids[name] != id) && before.names.contains_key(id)
            && before.names[id] != name ==> request_fault(known, before, version, name, id) == Some(
            MappingFault::NetworkIdAlreadyMapped {
                version,
                network_id: id,
                existing_name: before.names[id],
                requested_name: name,
            },
        ),
{
}

/// Of several conflicts of a pair in a batch, those with what the version assigns count before those
/// with earlier pairs, and in either case that the name has another ID counts first. Earlier pairs
/// are those that were accepted, so at most one of them has the name and at most one the ID.
pub proof fn law_batch_conflicts_in_order(
    known: Set<Name>,
    before: Assignment,
    version: MinecraftVersion,
    pairs: Seq<(Name, NetworkId)>,
    i: int,
    j: int,
)
    requires
        0 <= j < i < pairs.len(),
        forall|k: int|
            0 <= k < i ==> #[trigger] pair_fault(known, before, version, pairs, k) is None,
        known.contains(pairs[i].0),
    ensures
        ({
            let (name, id) = pairs[i];
            let fault = pair_fault(known, before, version, pairs, i);
            let name_taken = before.ids.contains_key(name) && before.ids[name] != id;
            let id_taken = before.names.contains_key(id) && before.names[id] != name;
            &&& name_taken ==> fault == Some(
                MappingFault::IdentifierAlreadyMapped {
                    version,
                    name,
                    existing_id: before.ids[name],
                    requested_id: id,
                },
            )
            &&& !name_taken && id_taken ==> fault == Some(
                MappingFault::NetworkIdAlreadyMapped {
                    version,
                    network_id: id,
                    existing_name: before.names[id],
                    requested_name: name,
                },
            )
            &&& !name_taken && !id_taken && pairs[j].0 == name && pairs[j].1 != id ==> fault == Some(
                MappingFault::IdentifierAlreadyMapped {
                    version,
                    name,
                    existing_id: pairs[j].1,
                    requested_id: id,
                },
            )
            &&& !name_taken && !id_taken && pairs[j].0 != name && pairs[j].1 == id && (forall|k: int|
                0 <= k < i ==> (#[trigger] pairs[k]).0 != name) ==> fault == Some(
                MappingFault::NetworkIdAlreadyMapped {
                    version,
                    network_id: id,
                    existing_name: pairs[j].0,
                    requested_name: name,
                },
            )
        }),
{
    let (name, id) = pairs[i];
    lemma_accepted_pairs_agree(known, before, version, pairs, i);
    Assignment::lemma_batch_reads(pairs, i);
    let batch = Assignment::empty().with_pairs(pairs, i);
    if pairs[j].0 == name {
        assert(batch.ids.contains_key(name));
        let a = choose|a: int| 0 <= a < i && #[trigger] pairs[a] == (name, batch.ids[name]);
        if a < j {
            assert(pairs[a].0 == pairs[j].0);
        } else if j < a {
            assert(pairs[j].0 == pairs[a].0);
        }
    }
    if pairs[j].1 == id {
        assert(batch.names.contains_key(id));
        let b = choose|b: int| 0 <= b < i && #[trigger] pairs[b] == (batch.names[id], id);
        if b < j {
            assert(pairs[b].1 == pairs[j].1);
        } else if j < b {
            assert(pairs[j].1 == pairs[b].1);
        }
    }
}

/// Lookups agree with each other: what has a network ID is what the ID leads back to, and the value
/// of the ID is the value of its name.
pub proof fn law_lookups_agree<T: ?Sized>(
    registry: Registry<T>,
    version: MinecraftVersion,
    identifier: Identifier,
    id: NetworkId,
    found: Option<Identifier>,
    by_id: Option<Arc<T>>,
    by_name: Option<Arc<T>>,
)
    requires
        registry.wf(),
        call_ensures(Registry::<T>::network_id, (&registry, version, &identifier), Some(id)),
        call_ensures(
            Registry::<T>::identifier_from_network_id,
            (&registry, version, id),
            found,
        ),
        call_ensures(Registry::<T>::get_by_network_id, (&registry, version, id), by_id),
        call_ensures(Registry::<T>::get, (&registry, &identifier), by_name),
    ensures
        found is Some,
        found->0@ == identifier@,
        by_id == by_name,
{
    registry.law_network_ids_round_trip(version, identifier@, id);
}

} // verus!
