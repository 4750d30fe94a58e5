//! Network IDs of registry entries in one protocol version.

use crate::registry::error::MappingFault;
use crate::registry::identifier::{Identifier, Name};
use crate::registry::tables::{
    get_network_id, get_network_name, insert_network_id, insert_network_name, network_ids,
    network_names, new_network_ids, new_network_names,
};
use rustc_hash::FxHashMap;
use vstd::prelude::*;

verus! {

/// A number that stands for a registry entry on the wire.
pub type NetworkId = u32;

/// A game version, by its protocol number.
#[derive(Debug, Clone, Copy, PartialEq, Eq, Hash, Structural)]
pub struct MinecraftVersion {
    pub protocol: u32,
}

/// Network IDs of entries, and entries of network IDs.
pub struct VersionMapping {
    pub(crate) by_identifier: FxHashMap<(String, String), NetworkId>,
    pub(crate) by_network_id: FxHashMap<NetworkId, (String, String)>,
}

/// The two directions of a [`VersionMapping`].
#[verifier::ext_equal]
pub struct Assignment {
    pub ids: Map<Name, NetworkId>,
    pub names: Map<NetworkId, Name>,
}

impl Assignment {
    pub open spec fn empty() -> Assignment {
        Assignment { ids: Map::empty(), names: Map::empty() }
    }

    /// The two directions undo each other: entries and network IDs correspond one to one.
    pub open spec fn one_to_one(self) -> bool {
        &&& forall|name: Name| #[trigger]
            self.ids.contains_key(name) ==> self.names.contains_key(self.ids[name])
                && self.names[self.ids[name]] == name
        &&& forall|id: NetworkId| #[trigger]
            self.names.contains_key(id) ==> self.ids.contains_key(self.names[id])
                && self.ids[self.names[id]] == id
    }

    pub open spec fn with(self, name: Name, id: NetworkId) -> Assignment {
        Assignment { ids: self.ids.insert(name, id), names: self.names.insert(id, name) }
    }

    /// The assignment with the first `k` pairs added in order.
    pub open spec fn with_pairs(self, pairs: Seq<(Name, NetworkId)>, k: int) -> Assignment
        decreases k,
    {
        if k <= 0 {
            self
        } else {
            self.with_pairs(pairs, k - 1).with(pairs[k - 1].0, pairs[k - 1].1)
        }
    }

    /// The entry has a network ID other than the requested one.
    pub open spec fn identifier_fault(
        self,
        version: MinecraftVersion,
        name: Name,
        id: NetworkId,
    ) -> Option<MappingFault> {
        if self.ids.contains_key(name) && self.ids[name] != id {
            Some(
                MappingFault::IdentifierAlreadyMapped {
                    version,
                    name,
                    existing_id: self.ids[name],
                    requested_id: id,
                },
            )
        } else {
            None
        }
    }

    /// The network ID belongs to an entry other than the one that asks for it.
    pub open spec fn network_id_fault(
        self,
        version: MinecraftVersion,
        name: Name,
        id: NetworkId,
    ) -> Option<MappingFault> {
        if self.names.contains_key(id) && self.names[id] != name {
            Some(
                MappingFault::NetworkIdAlreadyMapped {
                    version,
                    network_id: id,
                    existing_name: self.names[id],
                    requested_name: name,
                },
            )
        } else {
            None
        }
    }

    /// The first of the two faults of a request.
    pub open spec fn fault(
        self,
        version: MinecraftVersion,
        name: Name,
        id: NetworkId,
    ) -> Option<MappingFault> {
        match self.identifier_fault(version, name, id) {
            Some(fault) => Some(fault),
            None => self.network_id_fault(version, name, id),
        }
    }

    /// The first fault of a request that comes in a batch after the pairs in `batch`: what is
    /// assigned already counts before what the batch assigns.
    pub open spec fn batch_fault(
        self,
        batch: Assignment,
        version: MinecraftVersion,
        name: Name,
        id: NetworkId,
    ) -> Option<MappingFault> {
        match self.fault(version, name, id) {
            Some(fault) => Some(fault),
            None => batch.fault(version, name, id),
        }
    }

    /// The first `k` pairs of a batch can all be added.
    pub open spec fn accepts(
        self,
        version: MinecraftVersion,
        pairs: Seq<(Name, NetworkId)>,
        k: int,
    ) -> bool {
        forall|i: int|
            0 <= i < k ==> self.batch_fault(
                Assignment::empty().with_pairs(pairs, i),
                version,
                (#[trigger] pairs[i]).0,
                pairs[i].1,
            ) is None
    }

    /// Adding a batch overrides what was assigned by what the batch assigns.
    proof fn lemma_with_pairs(self, pairs: Seq<(Name, NetworkId)>, k: int)
        ensures
            ({
                let batch = Assignment::empty().with_pairs(pairs, k);
                let all = self.with_pairs(pairs, k);
                &&& all.ids == self.ids.union_prefer_right(batch.ids)
                &&& all.names == self.names.union_prefer_right(batch.names)
            }),
        decreases k,
    {
        if k > 0 {
            self.lemma_with_pairs(pairs, k - 1);
        }
        let batch = Assignment::empty().with_pairs(pairs, k);
        let all = self.with_pairs(pairs, k);
        assert(all.ids =~= self.ids.union_prefer_right(batch.ids));
        assert(all.names =~= self.names.union_prefer_right(batch.names));
    }

    /// An accepted batch keeps the correspondence one to one.
    pub proof fn law_batch_keeps_one_to_one(
        self,
        version: MinecraftVersion,
        pairs: Seq<(Name, NetworkId)>,
        k: int,
    )
        requires
            self.one_to_one(),
            0 <= k <= pairs.len(),
            self.accepts(version, pairs, k),
        ensures
            self.with_pairs(pairs, k).one_to_one(),
        decreases k,
    {
        if k > 0 {
            self.law_batch_keeps_one_to_one(version, pairs, k - 1);
            self.lemma_with_pairs(pairs, k - 1);
            let before = self.with_pairs(pairs, k - 1);
            let (name, id) = pairs[k - 1];
            assert(before.fault(version, name, id) is None);
            before.law_with_keeps_one_to_one(version, name, id);
        }
    }

    /// A request without fault keeps the correspondence one to one.
    pub proof fn law_with_keeps_one_to_one(
        self,
        version: MinecraftVersion,
        name: Name,
        id: NetworkId,
    )
        requires
            self.one_to_one(),
            self.fault(version, name, id) is None,
        ensures
            self.with(name, id).one_to_one(),
    {
    }

    /// A request for what is assigned already changes nothing.
    pub proof fn law_repeated_request_changes_nothing(self, name: Name, id: NetworkId)
        requires
            self.one_to_one(),
            self.ids.contains_key(name),
            self.ids[name] == id,
        ensures
            self.with(name, id) == self,
    {
        assert(self.ids.insert(name, id) =~= self.ids);
        assert(self.names.insert(id, name) =~= self.names);
    }
}

impl View for VersionMapping {
    type V = Assignment;

    closed spec fn view(&self) -> Assignment {
        Assignment {
            ids: network_ids(self.by_identifier),
            names: network_names(self.by_network_id),
        }
    }
}

impl VersionMapping {
    /// A mapping without entries.
    #[must_use]
    pub fn new() -> (mapping: Self)
        ensures
            mapping@ == Assignment::empty(),
    {
        VersionMapping { by_identifier: new_network_ids(), by_network_id: new_network_names() }
    }

    /// The network ID of an entry.
    pub(crate) fn id_of(&self, identifier: &Identifier) -> (id: Option<NetworkId>)
        ensures
            id == if self@.ids.contains_key(identifier@) {
                Some(self@.ids[identifier@])
            } else {
                None
            },
    {
        get_network_id(&self.by_identifier, &identifier.key())
    }

    /// The entry of a network ID.
    pub(crate) fn name_of(&self, id: NetworkId) -> (identifier: Option<Identifier>)
        ensures
            match identifier {
                Some(i) => self@.names.contains_key(id) && self@.names[id] == i@,
                None => !self@.names.contains_key(id),
            },
    {
        match get_network_name(&self.by_network_id, id) {
            Some(key) => Some(Identifier { namespace: key.0, path: key.1 }),
            None => None,
        }
    }

    /// Assigns a network ID to an entry.
    pub(crate) fn assign(&mut self, identifier: &Identifier, id: NetworkId)
        ensures
            final(self)@ == old(self)@.with(identifier@, id),
    {
        let _ = insert_network_id(&mut self.by_identifier, identifier.key(), id);
        insert_network_name(&mut self.by_network_id, id, identifier.key());
    }
}

impl Default for VersionMapping {
    fn default() -> (mapping: Self)
        ensures
            mapping@ == Assignment::empty(),
    {
        Self::new()
    }
}

impl Assignment {
    /// What a batch assigns, read from its pairs: a name has the ID of the last pair with that name,
    /// and an ID the name of the last pair with that ID.
    pub proof fn lemma_batch_reads(pairs: Seq<(Name, NetworkId)>, k: int)
        requires
            0 <= k <= pairs.len(),
        ensures
            ({
                let batch = Assignment::empty().with_pairs(pairs, k);
                &&& forall|name: Name| #[trigger]
                    batch.ids.contains_key(name) ==> exists|i: int|
                        0 <= i < k && #[trigger] pairs[i] == (name, batch.ids[name])
                &&& forall|id: NetworkId| #[trigger]
                    batch.names.contains_key(id) ==> exists|i: int|
                        0 <= i < k && #[trigger] pairs[i] == (batch.names[id], id)
                &&& forall|i: int|
                    0 <= i < k ==> batch.ids.contains_key((#[trigger] pairs[i]).0)
                        && batch.names.contains_key(pairs[i].1)
            }),
        decreases k,
    {
        if k > 0 {
            Self::lemma_batch_reads(pairs, k - 1);
            let before = Assignment::empty().with_pairs(pairs, k - 1);
            let batch = Assignment::empty().with_pairs(pairs, k);
            assert forall|name: Name| #[trigger] batch.ids.contains_key(name) implies exists|i: int|
                0 <= i < k && #[trigger] pairs[i] == (name, batch.ids[name]) by {
                if name == pairs[k - 1].0 {
                    assert(pairs[k - 1] == (name, batch.ids[name]));
                } else {
                    assert(before.ids.contains_key(name));
                    let i = choose|i: int|
                        0 <= i < k - 1 && #[trigger] pairs[i] == (name, before.ids[name]);
                    assert(pairs[i] == (name, batch.ids[name]));
                }
            }
            assert forall|id: NetworkId| #[trigger] batch.names.contains_key(id) implies exists|
                i: int,
            |
                0 <= i < k && #[trigger] pairs[i] == (batch.names[id], id) by {
                if id == pairs[k - 1].1 {
                    assert(pairs[k - 1] == (batch.names[id], id));
                } else {
                    assert(before.names.contains_key(id));
                    let i = choose|i: int|
                        0 <= i < k - 1 && #[trigger] pairs[i] == (before.names[id], id);
                    assert(pairs[i] == (batch.names[id], id));
                }
            }
        }
    }

    /// A request has no fault exactly if the name has no other ID and the ID no other name.
    pub proof fn law_request_without_conflict_has_no_fault(
        self,
        version: MinecraftVersion,
        name: Name,
        id: NetworkId,
    )
        ensures
            self.fault(version, name, id) is None <==> (self.ids.contains_key(name)
                ==> self.ids[name] == id) && (self.names.contains_key(id) ==> self.names[id] == name),
    {
    }

    /// A fault names what stands in the way. That the name has another ID counts first.
    pub proof fn law_fault_tells_the_conflict(
        self,
        version: MinecraftVersion,
        name: Name,
        id: NetworkId,
    )
        ensures
            self.ids.contains_key(name) && self.ids[name] != id ==> self.fault(version, name, id)
                == Some(
                MappingFault::IdentifierAlreadyMapped {
                    version,
                    name,
                    existing_id: self.ids[name],
                    requested_id: id,
                },
            ),
            !(self.ids.contains_key(name) && self.ids[name] != id) && self.names.contains_key(id)
                && self.names[id] != name ==> self.fault(version, name, id) == Some(
                MappingFault::NetworkIdAlreadyMapped {
                    version,
                    network_id: id,
                    existing_name: self.names[id],
                    requested_name: name,
                },
            ),
    {
    }

    /// Assigning an ID makes the two belong together and leaves all other names and IDs alone.
    pub proof fn law_assigning_pairs_up(self, name: Name, id: NetworkId)
        ensures
            self.with(name, id).ids.contains_key(name),
            self.with(name, id).ids[name] == id,
            self.with(name, id).names.contains_key(id),
            self.with(name, id).names[id] == name,
            forall|other: Name|
                other != name ==> #[trigger] self.with(name, id).ids.contains_key(other)
                    == self.ids.contains_key(other) && self.with(name, id).ids[other]
                    == self.ids[other],
            forall|other: NetworkId|
                other != id ==> #[trigger] self.with(name, id).names.contains_key(other)
                    == self.names.contains_key(other) && self.with(name, id).names[other]
                    == self.names[other],
    {
        assert forall|other: Name| other != name implies #[trigger] self.with(
            name,
            id,
        ).ids.contains_key(other) == self.ids.contains_key(other) && self.with(name, id).ids[other]
            == self.ids[other] by {}
    }

    /// Nothing is assigned at first.
    pub proof fn law_nothing_is_assigned_at_first(name: Name, id: NetworkId)
        ensures
            !Assignment::empty().ids.contains_key(name),
            !Assignment::empty().names.contains_key(id),
    {
    }

    /// A batch whose pairs do not contradict each other assigns each of its pairs and nothing else.
    pub proof fn law_batch_assigns_its_pairs(self, pairs: Seq<(Name, NetworkId)>)
        requires
            forall|i: int, j: int|
                0 <= i < j < pairs.len() ==> ((#[trigger] pairs[i]).0 == (#[trigger] pairs[j]).0
                    <==> pairs[i].1 == pairs[j].1),
        ensures
            ({
                let after = self.with_pairs(pairs, pairs.len() as int);
                &&& forall|i: int|
                    0 <= i < pairs.len() ==> {
                        &&& after.ids.contains_key((#[trigger] pairs[i]).0)
                        &&& after.ids[pairs[i].0] == pairs[i].1
                        &&& after.names.contains_key(pairs[i].1)
                        &&& after.names[pairs[i].1] == pairs[i].0
                    }
                &&& forall|name: Name|
                    (forall|i: int| 0 <= i < pairs.len() ==> (#[trigger] pairs[i]).0 != name) ==> (
                    #[trigger] after.ids.contains_key(name) == self.ids.contains_key(name)
                        && after.ids[name] == self.ids[name])
                &&& forall|id: NetworkId|
                    (forall|i: int| 0 <= i < pairs.len() ==> (#[trigger] pairs[i]).1 != id) ==> (
                    #[trigger] after.names.contains_key(id) == self.names.contains_key(id)
                        && after.names[id] == self.names[id])
            }),
    {
        let k = pairs.len() as int;
        let batch = Assignment::empty().with_pairs(pairs, k);
        let after = self.with_pairs(pairs, k);
        Self::lemma_batch_reads(pairs, k);
        self.lemma_with_pairs(pairs, k);
        assert forall|i: int| 0 <= i < pairs.len() implies {
            &&& after.ids.contains_key((#[trigger] pairs[i]).0)
            &&& after.ids[pairs[i].0] == pairs[i].1
            &&& after.names.contains_key(pairs[i].1)
            &&& after.names[pairs[i].1] == pairs[i].0
        } by {
            let (name, id) = pairs[i];
            assert(batch.ids.contains_key(name) && batch.names.contains_key(id));
            let a = choose|a: int| 0 <= a < k && #[trigger] pairs[a] == (name, batch.ids[name]);
            let b = choose|b: int| 0 <= b < k && #[trigger] pairs[b] == (batch.names[id], id);
            if a < i {
                assert(pairs[a].0 == pairs[i].0);
            } else if i < a {
                assert(pairs[i].0 == pairs[a].0);
            }
            if b < i {
                assert(pairs[b].1 == pairs[i].1);
            } else if i < b {
                assert(pairs[i].1 == pairs[b].1);
            }
        }
        lemma_outside_batch(self, pairs, k);
    }
}

/// Names and IDs that no pair has keep what they had.
proof fn lemma_outside_batch(before: Assignment, pairs: Seq<(Name, NetworkId)>, k: int)
    requires
        0 <= k <= pairs.len(),
    ensures
        forall|name: Name|
            (forall|i: int| 0 <= i < k ==> (#[trigger] pairs[i]).0 != name) ==> (
            #[trigger] before.with_pairs(pairs, k).ids.contains_key(name)
                == before.ids.contains_key(name) && before.with_pairs(pairs, k).ids[name]
                == before.ids[name]),
        forall|id: NetworkId|
            (forall|i: int| 0 <= i < k ==> (#[trigger] pairs[i]).1 != id) ==> (
            #[trigger] before.with_pairs(pairs, k).names.contains_key(id)
                == before.names.contains_key(id) && before.with_pairs(pairs, k).names[id]
                == before.names[id]),
    decreases k,
{
    if k > 0 {
        lemma_outside_batch(before, pairs, k - 1);
        let shorter = before.with_pairs(pairs, k - 1);
        assert forall|name: Name|
            (forall|i: int| 0 <= i < k ==> (#[trigger] pairs[i]).0 != name) implies (
        #[trigger] before.with_pairs(pairs, k).ids.contains_key(name) == before.ids.contains_key(
            name,
        ) && before.with_pairs(pairs, k).ids[name] == before.ids[name]) by {
            assert(pairs[k - 1].0 != name);
            assert(shorter.ids.contains_key(name) == before.ids.contains_key(name));
        }
        assert forall|id: NetworkId|
            (forall|i: int| 0 <= i < k ==> (#[trigger] pairs[i]).1 != id) implies (
        #[trigger] before.with_pairs(pairs, k).names.contains_key(id) == before.names.contains_key(
            id,
        ) && before.with_pairs(pairs, k).names[id] == before.names[id]) by {
            assert(pairs[k - 1].1 != id);
            assert(shorter.names.contains_key(id) == before.names.contains_key(id));
        }
    }
}

} // verus!
