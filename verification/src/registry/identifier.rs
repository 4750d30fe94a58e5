//! Namespaced identifiers.

use vstd::prelude::*;
use vstd::string::*;

verus! {

/// An identifier such as `minecraft:stone`.
#[derive(Debug, PartialEq, Eq, Hash)]
pub struct Identifier {
    pub namespace: String,
    pub path: String,
}

/// Namespace and path of an identifier.
pub type Name = (Seq<char>, Seq<char>);

/// An identifier in text form: `namespace:path`.
pub open spec fn name_text(name: Name) -> Seq<char> {
    name.0 + seq![':'] + name.1
}

impl View for Identifier {
    type V = Name;

    open spec fn view(&self) -> Name {
        (self.namespace@, self.path@)
    }
}

impl Clone for Identifier {
    fn clone(&self) -> (copy: Self)
        ensures
            copy@ == self@,
    {
        Identifier { namespace: self.namespace.clone(), path: self.path.clone() }
    }
}

impl Identifier {
    /// An identifier in the `minecraft` namespace.
    #[must_use]
    pub fn vanilla(path: &str) -> (identifier: Self)
        ensures
            identifier@ == ("minecraft"@, path@),
    {
        Identifier { namespace: "minecraft".to_owned(), path: path.to_owned() }
    }

    /// Whether both name the same thing.
    #[must_use]
    pub fn matches(&self, other: &Identifier) -> (same: bool)
        ensures
            same == (self@ == other@),
    {
        self.namespace == other.namespace && self.path == other.path
    }

    /// The text form `namespace:path`.
    #[must_use]
    pub fn to_text(&self) -> (text: String)
        ensures
            text@ == name_text(self@),
    {
        proof {
            reveal_strlit(":");
            assert(":"@ =~= seq![':']);
        }
        let mut text: String = self.namespace.clone();
        text.append(":");
        text.append(self.path.as_str());
        text
    }

    /// Namespace and path as a table key.
    pub(crate) fn key(&self) -> (key: (String, String))
        ensures
            (key.0@, key.1@) == self@,
    {
        (self.namespace.clone(), self.path.clone())
    }
}

/// The text form is the namespace, a colon and the path, so texts of identifiers without a colon in
/// their namespace are equal only if the identifiers are.
pub proof fn law_text_tells_identifiers_apart(a: Name, b: Name)
    requires
        !a.0.contains(':'),
        !b.0.contains(':'),
        name_text(a) == name_text(b),
    ensures
        a == b,
{
    let text = name_text(a);
    assert(text[a.0.len() as int] == ':');
    assert(name_text(b)[b.0.len() as int] == ':');
    if a.0.len() < b.0.len() {
        assert(b.0[a.0.len() as int] == ':');
    } else if b.0.len() < a.0.len() {
        assert(a.0[b.0.len() as int] == ':');
    } else {
        assert(a.0 =~= text.take(a.0.len() as int));
        assert(b.0 =~= name_text(b).take(b.0.len() as int));
        assert(a.1 =~= text.skip((a.0.len() + 1) as int));
        assert(b.1 =~= name_text(b).skip((b.0.len() + 1) as int));
    }
}

/// An identifier is its namespace and its path.
pub proof fn law_identifiers_are_namespace_and_path(identifier: Identifier)
    ensures
        identifier@ == (identifier.namespace@, identifier.path@),
        name_text(identifier@) == identifier.namespace@ + seq![':'] + identifier.path@,
{
}

} // verus!
