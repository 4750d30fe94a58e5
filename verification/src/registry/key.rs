//! Paths to registries, tagged with the type of the entries.

use crate::registry::identifier::{name_text, Identifier, Name};
use crate::shared::share;
use std::any::TypeId;
use std::marker::PhantomData;
use std::sync::Arc;
use vstd::prelude::*;
use vstd::string::*;

verus! {

/// `std::any::TypeId`, which identifies a type.
#[verifier::external_type_specification]
#[verifier::external_body]
pub struct ExTypeId(TypeId);

/// `TypeId::of`. Which identifier a type has is up to the compiler, so nothing is said of it here;
/// contracts speak of what a call may return.
pub assume_specification<T: ?Sized + 'static>[ TypeId::of::<T> ]() -> TypeId
;

/// The names of a sequence of identifiers.
pub open spec fn names_of(identifiers: Seq<Identifier>) -> Seq<Name> {
    Seq::new(identifiers.len(), |i: int| identifiers[i]@)
}

/// Names in text form, separated by slashes.
pub open spec fn path_text(names: Seq<Name>) -> Seq<char>
    decreases names.len(),
{
    if names.len() == 0 {
        Seq::empty()
    } else if names.len() == 1 {
        name_text(names[0])
    } else {
        path_text(names.drop_last()) + seq!['/'] + name_text(names.last())
    }
}

/// A path to a registry with entries of type `T`.
#[derive(Debug, PartialEq, Eq, Hash)]
pub struct DataKey<T: ?Sized> {
    keys: Arc<Vec<Identifier>>,
    marker: PhantomData<T>,
}

/// A path to a registry, with the type of its entries as a value.
#[derive(Debug, PartialEq, Eq, Hash)]
pub struct ErasedDataKey {
    keys: Arc<Vec<Identifier>>,
    type_id: TypeId,
    entry_type: &'static str,
}

/// A path that is being put together.
pub struct DataKeyBuilder<T: ?Sized> {
    keys: Vec<Identifier>,
    marker: PhantomData<T>,
}

fn copy_identifiers(identifiers: &Vec<Identifier>) -> (copy: Vec<Identifier>)
    ensures
        names_of(copy@) == names_of(identifiers@),
{
    let mut copy: Vec<Identifier> = Vec::new();
    let count: usize = identifiers.len();
    for i in 0..count
        invariant
            count == identifiers@.len(),
            copy@.len() == i,
            forall|j: int| 0 <= j < i ==> (#[trigger] copy@[j])@ == identifiers@[j]@,
    {
        copy.push(identifiers[i].clone());
    }
    assert(names_of(copy@) =~= names_of(identifiers@));
    copy
}

/// Identifiers in text form, separated by slashes.
fn join_path(identifiers: &Vec<Identifier>) -> (text: String)
    ensures
        text@ == path_text(names_of(identifiers@)),
{
    let ghost names = names_of(identifiers@);
    let count: usize = identifiers.len();
    let mut text: String = String::new();
    proof {
        reveal_strlit("/");
        assert("/"@ =~= seq!['/']);
    }
    for i in 0..count
        invariant
            count == identifiers@.len(),
            names == names_of(identifiers@),
            "/"@ == seq!['/'],
            text@ == path_text(names.take(i as int)),
    {
        if i > 0 {
            text.append("/");
        }
        let name: String = identifiers[i].to_text();
        text.append(name.as_str());
        proof {
            assert(names.take(i + 1).drop_last() =~= names.take(i as int));
            if i == 0 {
                assert(text@ =~= name_text(names[0]));
            }
        }
    }
    assert(names.take(count as int) =~= names);
    text
}

impl<T: ?Sized> DataKey<T> {
    #[verifier::type_invariant]
    spec fn not_empty(self) -> bool {
        self.keys@.len() > 0
    }

    /// The names along the path.
    pub closed spec fn names(self) -> Seq<Name> {
        names_of(self.keys@)
    }

    /// Starts a path.
    #[must_use]
    pub fn new(identifier: Identifier) -> (builder: DataKeyBuilder<T>)
        ensures
            builder.names() == seq![identifier@],
    {
        let mut keys: Vec<Identifier> = Vec::new();
        keys.push(identifier);
        assert(names_of(keys@) =~= seq![identifier@]);
        DataKeyBuilder { keys, marker: PhantomData }
    }

    /// The first identifier of the path.
    #[must_use]
    pub fn identifier(&self) -> (identifier: &Identifier)
        ensures
            self.names().len() > 0,
            identifier@ == self.names()[0],
    {
        proof {
            use_type_invariant(self);
        }
        &self.keys[0]
    }

    /// All identifiers of the path.
    #[must_use]
    pub fn path(&self) -> (path: &[Identifier])
        ensures
            path@.len() > 0,
            names_of(path@) == self.names(),
    {
        proof {
            use_type_invariant(self);
        }
        self.keys.as_slice()
    }

    /// The path one step further, to a registry with entries of type `U`.
    #[must_use]
    pub fn child<U>(&self, identifier: Identifier) -> (key: DataKey<U>)
        ensures
            key.names() == self.names().push(identifier@),
    {
        let mut keys: Vec<Identifier> = copy_identifiers(&self.keys);
        let ghost before = keys@;
        keys.push(identifier);
        assert(names_of(keys@) =~= names_of(before).push(identifier@));
        DataKey { keys: Arc::new(keys), marker: PhantomData }
    }

    /// The same path with the type as a value. What the type is called is for the caller to say.
    #[must_use]
    pub fn erased(&self, entry_type: &'static str) -> (key: ErasedDataKey) where T: 'static
        ensures
            key.names() == self.names(),
            call_ensures(TypeId::of::<T>, (), key.spec_type_id()),
            key.spec_entry_type() == entry_type,
    {
        proof {
            use_type_invariant(self);
        }
        ErasedDataKey {
            keys: share(&self.keys),
            type_id: TypeId::of::<T>(),
            entry_type,
        }
    }

    /// The path in text form.
    #[must_use]
    pub fn to_text(&self) -> (text: String)
        ensures
            text@ == path_text(self.names()),
    {
        join_path(&self.keys)
    }
}

impl<T: ?Sized> Clone for DataKey<T> {
    fn clone(&self) -> (copy: Self)
        ensures
            copy.names() == self.names(),
    {
        proof {
            use_type_invariant(self);
        }
        DataKey { keys: share(&self.keys), marker: PhantomData }
    }
}

impl Clone for ErasedDataKey {
    fn clone(&self) -> (copy: Self)
        ensures
            copy.names() == self.names(),
            copy.spec_type_id() == self.spec_type_id(),
            copy.spec_entry_type() == self.spec_entry_type(),
    {
        proof {
            use_type_invariant(self);
        }
        ErasedDataKey {
            keys: share(&self.keys),
            type_id: self.type_id,
            entry_type: self.entry_type,
        }
    }
}

impl ErasedDataKey {
    #[verifier::type_invariant]
    spec fn not_empty(self) -> bool {
        self.keys@.len() > 0
    }

    /// The names along the path.
    pub closed spec fn names(self) -> Seq<Name> {
        names_of(self.keys@)
    }

    pub closed spec fn spec_type_id(self) -> TypeId {
        self.type_id
    }

    pub closed spec fn spec_entry_type(self) -> &'static str {
        self.entry_type
    }

    #[must_use]
    pub fn type_id(&self) -> (id: TypeId)
        ensures
            id == self.spec_type_id(),
    {
        self.type_id
    }

    #[must_use]
    pub fn entry_type(&self) -> (name: &'static str)
        ensures
            name == self.spec_entry_type(),
    {
        self.entry_type
    }

    /// The first identifier of the path.
    #[must_use]
    pub fn identifier(&self) -> (identifier: &Identifier)
        ensures
            self.names().len() > 0,
            identifier@ == self.names()[0],
    {
        proof {
            use_type_invariant(self);
        }
        &self.keys[0]
    }

    /// All identifiers of the path.
    #[must_use]
    pub fn path(&self) -> (path: &[Identifier])
        ensures
            path@.len() > 0,
            names_of(path@) == self.names(),
    {
        proof {
            use_type_invariant(self);
        }
        self.keys.as_slice()
    }

    /// The path in text form.
    #[must_use]
    pub fn to_text(&self) -> (text: String)
        ensures
            text@ == path_text(self.names()),
    {
        join_path(&self.keys)
    }
}

impl<T: ?Sized> DataKeyBuilder<T> {
    #[verifier::type_invariant]
    spec fn not_empty(self) -> bool {
        self.keys@.len() > 0
    }

    /// The names put together so far.
    pub closed spec fn names(self) -> Seq<Name> {
        names_of(self.keys@)
    }

    /// Goes one step further.
    pub fn add_subkey(self, identifier: Identifier) -> (builder: Self)
        ensures
            builder.names() == self.names().push(identifier@),
    {
        let mut keys: Vec<Identifier> = self.keys;
        let ghost before = keys@;
        keys.push(identifier);
        assert(names_of(keys@) =~= names_of(before).push(identifier@));
        DataKeyBuilder { keys, marker: PhantomData }
    }

    /// The finished path.
    pub fn build(self) -> (key: DataKey<T>)
        ensures
            key.names() == self.names(),
    {
        proof {
            use_type_invariant(&self);
        }
        DataKey { keys: Arc::new(self.keys), marker: PhantomData }
    }
}

/// The text of a path is the texts of its parts with a slash between them, and that of a single
/// name is its namespace and its path with a colon between them.
pub proof fn law_path_text_joins(first: Seq<Name>, second: Seq<Name>, name: Name)
    requires
        first.len() > 0,
        second.len() > 0,
    ensures
        path_text(first + second) == path_text(first) + seq!['/'] + path_text(second),
        path_text(seq![name]) == name.0 + seq![':'] + name.1,
        path_text(Seq::empty()) == Seq::<char>::empty(),
    decreases second.len(),
{
    let all = first + second;
    assert(all.drop_last() =~= first + second.drop_last());
    assert(all.last() == second.last());
    if second.len() == 1 {
        assert(all.drop_last() =~= first);
        assert(second.last() == second[0]);
    } else {
        law_path_text_joins(first, second.drop_last(), name);
        assert(path_text(all) =~= path_text(first) + seq!['/'] + path_text(second));
    }
}

/// The names of identifiers are theirs, one by one.
pub proof fn law_names_are_theirs(identifiers: Seq<Identifier>, i: int)
    requires
        0 <= i < identifiers.len(),
    ensures
        names_of(identifiers).len() == identifiers.len(),
        names_of(identifiers)[i] == (identifiers[i].namespace@, identifiers[i].path@),
{
}

} // verus!
