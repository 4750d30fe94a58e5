//! Registries of registries, and the way along a path through them.

use crate::registry::error::{
    GetFault, RegistryGetError, RegistryInsertError, VersionMappingError,
};
use crate::registry::identifier::{Identifier, Name};
use crate::registry::key::{names_of, DataKey};
use crate::registry::mapping::{Assignment, MinecraftVersion, NetworkId};
use crate::registry::store::{assignment_of, request_fault, Registry};
use std::any::TypeId;
use std::sync::Arc;
use vstd::prelude::*;

verus! {

/// A registry as an entry of another registry. `H` is whatever the holder keeps to get at the
/// entries.
pub struct RegistryNode<H> {
    /// The type of the entries.
    pub type_id: TypeId,
    /// What that type is called.
    pub entry_type: &'static str,
    /// Set if the entries are registries themselves, to their place in the tree.
    pub nested: Option<usize>,
    pub handle: H,
}

/// A registry whose entries are registries.
pub type RootRegistry<H> = Registry<RegistryNode<H>>;

/// All registries whose entries are registries. Each has a place that others refer to it by, so
/// that what is registered later is found from everywhere.
pub struct RegistryTree<H> {
    roots: Vec<RootRegistry<H>>,
    /// Identifies the type of the entries of the registries here.
    root_type: TypeId,
}

/// What a registry of registries holds.
pub struct Branch<H> {
    /// The registries by name.
    pub entries: Map<Name, Arc<RegistryNode<H>>>,
    /// Their network IDs by version.
    pub assignments: Map<MinecraftVersion, Assignment>,
}

/// Finds registries below a root.
#[derive(Clone, Copy, Debug)]
pub struct RegistryLookup {
    /// The place of the root.
    pub root: usize,
}

/// `==` on `TypeId`: two values are equal when they identify the same type.
#[verifier::external_body]
fn same_type(a: TypeId, b: TypeId) -> (same: bool)
    ensures
        same == (a == b),
{
    a == b
}

/// Nested registries have a place in the tree.
pub open spec fn places_exist<H>(tree: Seq<Branch<H>>) -> bool {
    forall|i: int, name: Name|
        0 <= i < tree.len() && #[trigger] tree[i].entries.contains_key(name) ==> match tree[i].entries[name].nested {
            Some(place) => place < tree.len(),
            None => true,
        }
}

/// A registry fits into a tree if it has a place there exactly when its entries are registries
/// themselves.
pub open spec fn fits<H>(node: RegistryNode<H>, places: int, root_type: TypeId) -> bool {
    match node.nested {
        Some(place) => place < places && node.type_id == root_type,
        None => node.type_id != root_type,
    }
}

/// All registries of a tree fit into it.
pub open spec fn all_fit<H>(tree: Seq<Branch<H>>, root_type: TypeId) -> bool {
    forall|i: int, name: Name|
        0 <= i < tree.len() && #[trigger] tree[i].entries.contains_key(name) ==> fits(
            *tree[i].entries[name],
            tree.len() as int,
            root_type,
        )
}

/// The tree with one more entry in one of its registries.
pub open spec fn grown<H>(
    tree: Seq<Branch<H>>,
    place: int,
    name: Name,
    node: Arc<RegistryNode<H>>,
) -> Seq<Branch<H>> {
    tree.update(
        place,
        Branch { entries: tree[place].entries.insert(name, node), ..tree[place] },
    )
}

/// The place that the first `steps` names of a path lead to, or the fault met on the way.
pub open spec fn parent_at<H>(
    tree: Seq<Branch<H>>,
    root: int,
    path: Seq<Name>,
    steps: nat,
) -> Result<int, GetFault>
    decreases steps,
{
    if steps == 0 {
        Ok(root)
    } else {
        let name = path[steps - 1];
        match parent_at(tree, root, path, (steps - 1) as nat) {
            Err(fault) => Err(fault),
            Ok(parent) => if !tree[parent].entries.contains_key(name) {
                Err(GetFault::NotFound(name))
            } else {
                match tree[parent].entries[name].nested {
                    None => Err(GetFault::ExpectedRegistry(name)),
                    Some(place) => Ok(place as int),
                }
            },
        }
    }
}

/// The registry at the end of a path, if its entries are of the expected type.
pub open spec fn resolved<H>(
    tree: Seq<Branch<H>>,
    root: int,
    path: Seq<Name>,
    expected: TypeId,
) -> Result<Arc<RegistryNode<H>>, GetFault> {
    if path.len() == 0 {
        Err(GetFault::EmptyPath)
    } else {
        let name = path.last();
        match parent_at(tree, root, path, (path.len() - 1) as nat) {
            Err(fault) => Err(fault),
            Ok(parent) => if !tree[parent].entries.contains_key(name) {
                Err(GetFault::NotFound(name))
            } else if tree[parent].entries[name].type_id != expected {
                Err(
                    GetFault::TypeMismatch {
                        name,
                        expected: tree[parent].entries[name].entry_type,
                    },
                )
            } else {
                Ok(tree[parent].entries[name])
            },
        }
    }
}

/// Once a path has failed it stays failed, with the same fault.
proof fn lemma_fault_stays<H>(
    tree: Seq<Branch<H>>,
    root: int,
    path: Seq<Name>,
    from: nat,
    to: nat,
)
    requires
        from <= to,
        parent_at(tree, root, path, from) is Err,
    ensures
        parent_at(tree, root, path, to) == parent_at(tree, root, path, from),
    decreases to,
{
    if from < to {
        lemma_fault_stays(tree, root, path, from, (to - 1) as nat);
    }
}

/// A path of one name finds whatever the root has under that name.
pub proof fn law_single_name_reads_root<H>(
    tree: Seq<Branch<H>>,
    root: int,
    name: Name,
    expected: TypeId,
)
    requires
        0 <= root < tree.len(),
        tree[root].entries.contains_key(name),
        tree[root].entries[name].type_id == expected,
    ensures
        resolved(tree, root, seq![name], expected) == Ok::<Arc<RegistryNode<H>>, GetFault>(
            tree[root].entries[name],
        ),
{
    assert(seq![name].last() == name);
}

/// A path through a nested registry finds what the nested registry finds by the rest of the path.
pub proof fn law_nested_path<H>(
    tree: Seq<Branch<H>>,
    root: int,
    name: Name,
    nested: usize,
    rest: Seq<Name>,
    expected: TypeId,
)
    requires
        0 <= root < tree.len(),
        tree[root].entries.contains_key(name),
        tree[root].entries[name].nested == Some(nested),
        rest.len() > 0,
    ensures
        resolved(tree, root, seq![name] + rest, expected) == resolved(
            tree,
            nested as int,
            rest,
            expected,
        ),
{
    lemma_nested_parent(tree, root, name, nested, rest, (rest.len() - 1) as nat);
    assert((seq![name] + rest).last() == rest.last());
}

proof fn lemma_nested_parent<H>(
    tree: Seq<Branch<H>>,
    root: int,
    name: Name,
    nested: usize,
    rest: Seq<Name>,
    steps: nat,
)
    requires
        tree[root].entries.contains_key(name),
        tree[root].entries[name].nested == Some(nested),
        steps <= rest.len(),
    ensures
        parent_at(tree, root, seq![name] + rest, steps + 1) == parent_at(
            tree,
            nested as int,
            rest,
            steps,
        ),
    decreases steps,
{
    let path = seq![name] + rest;
    if steps == 0 {
        reveal_with_fuel(parent_at, 2);
        assert(path[0] == name);
    } else {
        lemma_nested_parent(tree, root, name, nested, rest, (steps - 1) as nat);
        assert(path[steps as int] == rest[steps - 1]);
    }
}

/// A new name somewhere does not change where the names before it lead.
proof fn lemma_growing_keeps_ways<H>(
    tree: Seq<Branch<H>>,
    root: int,
    path: Seq<Name>,
    steps: nat,
    place: int,
    name: Name,
    node: Arc<RegistryNode<H>>,
)
    requires
        places_exist(tree),
        0 <= root < tree.len(),
        0 <= place < tree.len(),
        !tree[place].entries.contains_key(name),
        parent_at(tree, root, path, steps) is Ok,
    ensures
        0 <= parent_at(tree, root, path, steps)->Ok_0 < tree.len(),
        parent_at(grown(tree, place, name, node), root, path, steps) == parent_at(
            tree,
            root,
            path,
            steps,
        ),
    decreases steps,
{
    if steps > 0 {
        lemma_growing_keeps_ways(tree, root, path, (steps - 1) as nat, place, name, node);
        let parent = parent_at(tree, root, path, (steps - 1) as nat)->Ok_0;
        assert(tree[parent].entries.contains_key(path[steps - 1]));
    }
}

/// What is registered at the end of a path is found by the path from then on.
pub proof fn law_later_registrations_are_found<H>(
    tree: Seq<Branch<H>>,
    root: int,
    path: Seq<Name>,
    place: int,
    node: Arc<RegistryNode<H>>,
)
    requires
        places_exist(tree),
        0 <= root < tree.len(),
        0 <= place < tree.len(),
        path.len() > 0,
        parent_at(tree, root, path, (path.len() - 1) as nat) == Ok::<int, GetFault>(place),
        !tree[place].entries.contains_key(path.last()),
    ensures
        resolved(grown(tree, place, path.last(), node), root, path, node.type_id) == Ok::<
            Arc<RegistryNode<H>>,
            GetFault,
        >(node),
{
    lemma_growing_keeps_ways(
        tree,
        root,
        path,
        (path.len() - 1) as nat,
        place,
        path.last(),
        node,
    );
}

/// A path leads through exactly the registries of registries: what it finds by their type is
/// nested, and what it finds by any other type is not.
pub proof fn law_type_tells_nesting<H>(
    tree: Seq<Branch<H>>,
    root_type: TypeId,
    root: int,
    path: Seq<Name>,
    expected: TypeId,
)
    requires
        all_fit(tree, root_type),
        0 <= root < tree.len(),
        resolved(tree, root, path, expected) is Ok,
    ensures
        resolved(tree, root, path, expected)->Ok_0.nested is Some <==> expected == root_type,
{
    lemma_parent_exists(tree, root_type, root, path, (path.len() - 1) as nat);
    let parent = parent_at(tree, root, path, (path.len() - 1) as nat)->Ok_0;
    assert(tree[parent].entries.contains_key(path.last()));
}

/// A way along a path stays in the tree.
proof fn lemma_parent_exists<H>(
    tree: Seq<Branch<H>>,
    root_type: TypeId,
    root: int,
    path: Seq<Name>,
    steps: nat,
)
    requires
        all_fit(tree, root_type),
        0 <= root < tree.len(),
        parent_at(tree, root, path, steps) is Ok,
    ensures
        0 <= parent_at(tree, root, path, steps)->Ok_0 < tree.len(),
    decreases steps,
{
    if steps > 0 {
        lemma_parent_exists(tree, root_type, root, path, (steps - 1) as nat);
        let parent = parent_at(tree, root, path, (steps - 1) as nat)->Ok_0;
        assert(tree[parent].entries.contains_key(path[steps - 1]));
    }
}

/// A registry before the last on a path fails the path exactly when it is no registry of
/// registries by its type.
pub proof fn law_path_needs_registries_of_registries<H>(
    tree: Seq<Branch<H>>,
    root_type: TypeId,
    root: int,
    path: Seq<Name>,
    steps: nat,
)
    requires
        all_fit(tree, root_type),
        0 <= root < tree.len(),
        parent_at(tree, root, path, steps) is Ok,
        tree[parent_at(tree, root, path, steps)->Ok_0].entries.contains_key(path[steps as int]),
    ensures
        ({
            let parent = parent_at(tree, root, path, steps)->Ok_0;
            let node = tree[parent].entries[path[steps as int]];
            if node.type_id == root_type {
                parent_at(tree, root, path, steps + 1) is Ok
            } else {
                parent_at(tree, root, path, steps + 1) == Err::<int, GetFault>(
                    GetFault::ExpectedRegistry(path[steps as int]),
                )
            }
        }),
{
    lemma_parent_exists(tree, root_type, root, path, steps);
}

impl<H> View for RegistryTree<H> {
    type V = Seq<Branch<H>>;

    closed spec fn view(&self) -> Seq<Branch<H>> {
        Seq::new(
            self.roots@.len(),
            |i: int|
                Branch {
                    entries: self.roots@[i].values(),
                    assignments: self.roots@[i].assignments(),
                },
        )
    }
}

impl<H: 'static> RegistryTree<H> {
    /// Identifies the type of the entries of registries of registries.
    pub closed spec fn spec_root_type(self) -> TypeId {
        self.root_type
    }

    /// Every registry is well formed. Exactly those whose entries are registries by their type are
    /// nested, and these have a place.
    pub closed spec fn wf(self) -> bool {
        &&& call_ensures(TypeId::of::<RegistryNode<H>>, (), self.root_type)
        &&& all_fit(self@, self.root_type)
        &&& forall|i: int| 0 <= i < self.roots@.len() ==> (#[trigger] self.roots@[i]).wf()
    }

    /// A tree without registries.
    #[must_use]
    pub fn new() -> (tree: Self)
        ensures
            tree.wf(),
            tree@ == Seq::<Branch<H>>::empty(),
            call_ensures(TypeId::of::<RegistryNode<H>>, (), tree.spec_root_type()),
    {
        let root_type = TypeId::of::<RegistryNode<H>>();
        let tree = RegistryTree { roots: Vec::new(), root_type };
        assert(tree@ =~= Seq::empty());
        tree
    }

    /// Identifies the type of the entries of registries of registries, which is
    /// `RegistryNode<H>`.
    #[must_use]
    pub fn root_type(&self) -> (id: TypeId)
        requires
            self.wf(),
        ensures
            id == self.spec_root_type(),
            call_ensures(TypeId::of::<RegistryNode<H>>, (), id),
    {
        self.root_type
    }

    /// Whether a registry whose entries have the given type is a registry of registries.
    #[must_use]
    pub fn is_root_type(&self, type_id: TypeId) -> (is_root: bool)
        ensures
            is_root == (type_id == self.spec_root_type()),
    {
        same_type(type_id, self.root_type)
    }

    /// Adds an empty registry of registries and returns its place.
    pub fn plant(&mut self) -> (place: usize)
        requires
            old(self).wf(),
        ensures
            final(self).wf(),
            final(self).spec_root_type() == old(self).spec_root_type(),
            place == old(self)@.len(),
            final(self)@ == old(self)@.push(
                Branch { entries: Map::empty(), assignments: Map::empty() },
            ),
    {
        let place: usize = self.roots.len();
        self.roots.push(Registry::new());
        proof {
            let before = old(self)@;
            assert(self@ =~= before.push(
                Branch { entries: Map::empty(), assignments: Map::empty() },
            ));
            assert forall|i: int, name: Name|
                0 <= i < self@.len() && #[trigger] self@[i].entries.contains_key(
                    name,
                ) implies fits(*self@[i].entries[name], self@.len() as int, self.root_type) by {
                assert(before[i].entries.contains_key(name));
            }
        }
        place
    }

    /// The registry at a place.
    #[must_use]
    pub fn registry(&self, place: usize) -> (registry: &RootRegistry<H>)
        requires
            self.wf(),
            place < self@.len(),
        ensures
            registry.wf(),
            registry.values() == self@[place as int].entries,
            registry.assignments() == self@[place as int].assignments,
    {
        &self.roots[place]
    }

    /// Registers a registry in the one at a place, under a name that is free. The registry has a
    /// place itself exactly when its entries are registries.
    pub fn register(
        &mut self,
        place: usize,
        identifier: Identifier,
        node: RegistryNode<H>,
    ) -> (result: Result<(), RegistryInsertError>)
        requires
            old(self).wf(),
            place < old(self)@.len(),
            fits(node, old(self)@.len() as int, old(self).spec_root_type()),
        ensures
            final(self).wf(),
            final(self).spec_root_type() == old(self).spec_root_type(),
            if old(self)@[place as int].entries.contains_key(identifier@) {
                &&& result matches Err(RegistryInsertError::AlreadyRegistered(taken)) && taken@
                    == identifier@
                &&& final(self)@ == old(self)@
            } else {
                &&& result is Ok
                &&& exists|shared: Arc<RegistryNode<H>>|
                    *shared == node && final(self)@ == #[trigger] grown(
                        old(self)@,
                        place as int,
                        identifier@,
                        shared,
                    )
            },
    {
        let ghost name = identifier@;
        let shared = Arc::new(node);
        let ghost stored = shared;
        let result = self.roots[place].register_arc(identifier, shared);
        proof {
            let before = old(self)@;
            if before[place as int].entries.contains_key(name) {
                assert(self@ =~= before);
            } else {
                assert(self@ =~= grown(before, place as int, name, stored));
                assert forall|i: int, other: Name|
                    0 <= i < self@.len() && #[trigger] self@[i].entries.contains_key(
                        other,
                    ) implies fits(*self@[i].entries[other], self@.len() as int, self.root_type) by {
                    if i != place || other != name {
                        assert(before[i].entries.contains_key(other));
                    }
                }
            }
        }
        result
    }

    /// Puts a registry into a place and returns the one that was there.
    pub fn replace(&mut self, place: usize, registry: RootRegistry<H>) -> (previous: RootRegistry<H>)
        requires
            old(self).wf(),
            place < old(self)@.len(),
            registry.wf(),
            forall|name: Name| #[trigger]
                registry.values().contains_key(name) ==> fits(
                    *registry.values()[name],
                    old(self)@.len() as int,
                    old(self).spec_root_type(),
                ),
        ensures
            final(self).wf(),
            final(self).spec_root_type() == old(self).spec_root_type(),
            final(self)@ == old(self)@.update(
                place as int,
                Branch { entries: registry.values(), assignments: registry.assignments() },
            ),
            previous.wf(),
            previous.values() == old(self)@[place as int].entries,
            previous.assignments() == old(self)@[place as int].assignments,
    {
        let mut previous = registry;
        std::mem::swap(&mut self.roots[place], &mut previous);
        proof {
            let before = old(self)@;
            assert(self@ =~= before.update(
                place as int,
                Branch { entries: registry.values(), assignments: registry.assignments() },
            ));
            assert forall|i: int, name: Name|
                0 <= i < self@.len() && #[trigger] self@[i].entries.contains_key(
                    name,
                ) implies fits(*self@[i].entries[name], self@.len() as int, self.root_type) by {
                if i != place {
                    assert(before[i].entries.contains_key(name));
                }
            }
        }
        previous
    }

    /// Exactly the registries whose entries are registries by their type are nested, and nested
    /// registries have a place in the tree.
    pub proof fn law_nested_registries_have_places(self)
        requires
            self.wf(),
        ensures
            call_ensures(TypeId::of::<RegistryNode<H>>, (), self.spec_root_type()),
            all_fit(self@, self.spec_root_type()),
            places_exist(self@),
    {
        assert forall|i: int, name: Name|
            0 <= i < self@.len() && #[trigger] self@[i].entries.contains_key(
                name,
            ) implies match self@[i].entries[name].nested {
            Some(place) => place < self@.len(),
            None => true,
        } by {
            assert(fits(*self@[i].entries[name], self@.len() as int, self.root_type));
        }
    }

    /// Assigns a network ID to an entry of the registry at a place in one version.
    pub fn register_version_mapping(
        &mut self,
        place: usize,
        version: MinecraftVersion,
        identifier: Identifier,
        network_id: NetworkId,
    ) -> (result: Result<(), VersionMappingError>)
        requires
            old(self).wf(),
            place < old(self)@.len(),
        ensures
            final(self).wf(),
            final(self).spec_root_type() == old(self).spec_root_type(),
            ({
                let branch = old(self)@[place as int];
                let before = assignment_of(branch.assignments, version);
                match request_fault(branch.entries.dom(), before, version, identifier@, network_id) {
                    Some(fault) => {
                        &&& result matches Err(error) && error@ == fault
                        &&& final(self)@ == old(self)@
                    },
                    None => {
                        &&& result is Ok
                        &&& final(self)@ == old(self)@.update(
                            place as int,
                            Branch {
                                assignments: branch.assignments.insert(
                                    version,
                                    before.with(identifier@, network_id),
                                ),
                                ..branch
                            },
                        )
                    },
                }
            }),
    {
        let ghost name = identifier@;
        let result = self.roots[place].register_version_mapping(version, identifier, network_id);
        proof {
            let tree = old(self)@;
            let branch = tree[place as int];
            let before = assignment_of(branch.assignments, version);
            if result is Ok {
                assert(self@ =~= tree.update(
                    place as int,
                    Branch {
                        assignments: branch.assignments.insert(
                            version,
                            before.with(name, network_id),
                        ),
                        ..branch
                    },
                ));
            } else {
                assert(self@ =~= tree);
            }
            assert forall|i: int, other: Name|
                0 <= i < self@.len() && #[trigger] self@[i].entries.contains_key(
                    other,
                ) implies fits(*self@[i].entries[other], self@.len() as int, self.root_type) by {
                assert(tree[i].entries.contains_key(other));
            }
        }
        result
    }
}

impl RegistryLookup {
    #[must_use]
    pub fn new(root: usize) -> (lookup: Self)
        ensures
            lookup.root == root,
    {
        RegistryLookup { root }
    }

    /// The registry that a key leads to.
    pub fn get<H: 'static, T: ?Sized + 'static>(&self, tree: &RegistryTree<H>, key: &DataKey<T>) -> (found:
        Result<Arc<RegistryNode<H>>, RegistryGetError>)
        requires
            tree.wf(),
            self.root < tree@.len(),
        ensures
            exists|expected: TypeId| #[trigger]
                call_ensures(TypeId::of::<T>, (), expected) && match found {
                    Ok(node) => resolved(tree@, self.root as int, key.names(), expected) == Ok::<
                        Arc<RegistryNode<H>>,
                        GetFault,
                    >(node),
                    Err(error) => resolved(tree@, self.root as int, key.names(), expected) == Err::<
                        Arc<RegistryNode<H>>,
                        GetFault,
                    >(error@),
                },
    {
        let expected = TypeId::of::<T>();
        let found = self.resolve(tree, key.path(), expected);
        assert(call_ensures(TypeId::of::<T>, (), expected));
        found
    }

    /// The registry that a path leads to, if its entries are of the expected type.
    pub fn resolve<H: 'static>(&self, tree: &RegistryTree<H>, path: &[Identifier], expected: TypeId) -> (found:
        Result<Arc<RegistryNode<H>>, RegistryGetError>)
        requires
            tree.wf(),
            self.root < tree@.len(),
        ensures
            match found {
                Ok(node) => resolved(tree@, self.root as int, names_of(path@), expected) == Ok::<
                    Arc<RegistryNode<H>>,
                    GetFault,
                >(node),
                Err(error) => resolved(tree@, self.root as int, names_of(path@), expected) == Err::<
                    Arc<RegistryNode<H>>,
                    GetFault,
                >(error@),
            },
    {
        let ghost names = names_of(path@);
        let ghost root = self.root as int;
        if path.len() == 0 {
            return Err(RegistryGetError::EmptyPath);
        }
        let last: usize = path.len() - 1;
        let mut parent: usize = self.root;
        for i in 0..last
            invariant
                last == path@.len() - 1,
                names == names_of(path@),
                root == self.root,
                tree.wf(),
                parent < tree@.len(),
                parent_at(tree@, root, names, i as nat) == Ok::<int, GetFault>(parent as int),
        {
            match tree.registry(parent).get(&path[i]) {
                None => {
                    proof {
                        lemma_fault_stays(tree@, root, names, (i + 1) as nat, last as nat);
                    }
                    return Err(RegistryGetError::NotFound(path[i].clone()));
                },
                Some(node) => match node.nested {
                    None => {
                        proof {
                            lemma_fault_stays(tree@, root, names, (i + 1) as nat, last as nat);
                        }
                        return Err(RegistryGetError::ExpectedRegistry(path[i].clone()));
                    },
                    Some(place) => {
                        assert(tree@[parent as int].entries.contains_key(names[i as int]));
                        proof {
                            tree.law_nested_registries_have_places();
                        }
                        parent = place;
                    },
                },
            }
        }
        match tree.registry(parent).get(&path[last]) {
            None => Err(RegistryGetError::NotFound(path[last].clone())),
            Some(node) => if same_type(node.type_id, expected) {
                Ok(node)
            } else {
                Err(
                    RegistryGetError::TypeMismatch {
                        identifier: path[last].clone(),
                        expected: node.entry_type,
                    },
                )
            },
        }
    }
}

/// A path of one name finds what the root has under that name if its entries are of the expected
/// type, and otherwise says what is wrong: there is no such name, or its entries are of another
/// type. An empty path finds nothing.
pub proof fn law_single_name_is_found_or_refused<H>(
    tree: Seq<Branch<H>>,
    root: int,
    name: Name,
    expected: TypeId,
)
    ensures
        resolved(tree, root, Seq::empty(), expected) == Err::<Arc<RegistryNode<H>>, GetFault>(
            GetFault::EmptyPath,
        ),
        !tree[root].entries.contains_key(name) ==> resolved(tree, root, seq![name], expected)
            == Err::<Arc<RegistryNode<H>>, GetFault>(GetFault::NotFound(name)),
        tree[root].entries.contains_key(name) && tree[root].entries[name].type_id != expected
            ==> resolved(tree, root, seq![name], expected) == Err::<
            Arc<RegistryNode<H>>,
            GetFault,
        >(GetFault::TypeMismatch { name, expected: tree[root].entries[name].entry_type }),
        tree[root].entries.contains_key(name) && tree[root].entries[name].type_id == expected
            ==> resolved(tree, root, seq![name], expected) == Ok::<Arc<RegistryNode<H>>, GetFault>(
            tree[root].entries[name],
        ),
{
    assert(seq![name].last() == name);
}

/// A longer path fails at its first name if the root does not have it, or has something under it
/// that holds no registries.
pub proof fn law_paths_fail_at_the_first_fault<H>(
    tree: Seq<Branch<H>>,
    root: int,
    name: Name,
    rest: Seq<Name>,
    expected: TypeId,
)
    requires
        rest.len() > 0,
    ensures
        !tree[root].entries.contains_key(name) ==> resolved(
            tree,
            root,
            seq![name] + rest,
            expected,
        ) == Err::<Arc<RegistryNode<H>>, GetFault>(GetFault::NotFound(name)),
        tree[root].entries.contains_key(name) && tree[root].entries[name].nested is None ==> resolved(
            tree,
            root,
            seq![name] + rest,
            expected,
        ) == Err::<Arc<RegistryNode<H>>, GetFault>(GetFault::ExpectedRegistry(name)),
{
    let path = seq![name] + rest;
    assert(path[0] == name);
    reveal_with_fuel(parent_at, 2);
    if !tree[root].entries.contains_key(name) || tree[root].entries[name].nested is None {
        assert(parent_at(tree, root, path, 1) is Err);
        lemma_fault_stays(tree, root, path, 1, (path.len() - 1) as nat);
    }
}

/// One more entry in a registry of a tree is found there under its name, and nothing else changes.
pub proof fn law_growing_adds_one_entry<H>(
    tree: Seq<Branch<H>>,
    place: int,
    name: Name,
    node: Arc<RegistryNode<H>>,
    other: int,
    other_name: Name,
)
    requires
        0 <= place < tree.len(),
        0 <= other < tree.len(),
    ensures
        ({
            let after = grown(tree, place, name, node);
            &&& after.len() == tree.len()
            &&& after[other].assignments == tree[other].assignments
            &&& after[place].entries.contains_key(name)
            &&& after[place].entries[name] == node
            &&& other != place || other_name != name ==> after[other].entries.contains_key(
                other_name,
            ) == tree[other].entries.contains_key(other_name) && after[other].entries[other_name]
                == tree[other].entries[other_name]
        }),
{
}

/// A registry fits into a tree exactly if it leads on to a place there and has registries for
/// entries, or does neither.
pub proof fn law_fitting<H>(node: RegistryNode<H>, places: int, root_type: TypeId)
    ensures
        fits(node, places, root_type) <==> {
            &&& node.nested is Some <==> node.type_id == root_type
            &&& node.nested is Some ==> node.nested->0 < places
        },
{
}

} // verus!
