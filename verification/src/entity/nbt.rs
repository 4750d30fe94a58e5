//! Named values that entities are saved as.

use crate::entity::item::ItemStack;
use crate::ieee::Single;
use crate::text::same_text;
use vstd::prelude::*;

verus! {

/// A saved value. `P` is whatever else an item stack carries.
#[derive(Debug, PartialEq, Eq)]
pub enum NbtValue<P> {
    Bool(bool),
    Byte(i8),
    Float(Single),
    /// A compound that holds an item stack.
    Stack(ItemStack<P>),
}

/// Named values. What is put under a name replaces what was there.
#[derive(Debug)]
pub struct NbtCompound<P> {
    entries: Vec<(String, NbtValue<P>)>,
}

/// The value under each name: the one that was put last.
pub open spec fn named_values<P>(entries: Seq<(String, NbtValue<P>)>) -> Map<
    Seq<char>,
    NbtValue<P>,
>
    decreases entries.len(),
{
    if entries.len() == 0 {
        Map::empty()
    } else {
        named_values(entries.drop_last()).insert(entries.last().0@, entries.last().1)
    }
}

/// The flag under a name.
pub open spec fn bool_at<P>(values: Map<Seq<char>, NbtValue<P>>, name: Seq<char>) -> Option<bool> {
    if values.contains_key(name) {
        match values[name] {
            NbtValue::Bool(flag) => Some(flag),
            _ => None,
        }
    } else {
        None
    }
}

/// The byte under a name.
pub open spec fn byte_at<P>(values: Map<Seq<char>, NbtValue<P>>, name: Seq<char>) -> Option<i8> {
    if values.contains_key(name) {
        match values[name] {
            NbtValue::Byte(byte) => Some(byte),
            _ => None,
        }
    } else {
        None
    }
}

/// The number under a name.
pub open spec fn float_at<P>(values: Map<Seq<char>, NbtValue<P>>, name: Seq<char>) -> Option<
    Single,
> {
    if values.contains_key(name) {
        match values[name] {
            NbtValue::Float(number) => Some(number),
            _ => None,
        }
    } else {
        None
    }
}

/// The item stack under a name.
pub open spec fn stack_at<P>(values: Map<Seq<char>, NbtValue<P>>, name: Seq<char>) -> Option<
    ItemStack<P>,
> {
    if values.contains_key(name) {
        match values[name] {
            NbtValue::Stack(stack) => Some(stack),
            _ => None,
        }
    } else {
        None
    }
}

impl<P> View for NbtCompound<P> {
    type V = Map<Seq<char>, NbtValue<P>>;

    closed spec fn view(&self) -> Map<Seq<char>, NbtValue<P>> {
        named_values(self.entries@)
    }
}

impl<P> NbtCompound<P> {
    /// A compound without values.
    #[must_use]
    pub fn new() -> (nbt: Self)
        ensures
            nbt@ == Map::<Seq<char>, NbtValue<P>>::empty(),
    {
        NbtCompound { entries: Vec::new() }
    }

    /// Puts a value under a name.
    pub fn put(&mut self, name: &str, value: NbtValue<P>)
        ensures
            final(self)@ == old(self)@.insert(name@, value),
    {
        let ghost before = self.entries@;
        self.entries.push((name.to_owned(), value));
        assert(self.entries@.drop_last() =~= before);
    }

    /// The value under a name.
    #[must_use]
    pub fn get(&self, name: &str) -> (value: Option<&NbtValue<P>>)
        ensures
            match value {
                Some(found) => self@.contains_key(name@) && self@[name@] == *found,
                None => !self@.contains_key(name@),
            },
    {
        let mut left: usize = self.entries.len();
        assert(self.entries@.take(left as int) =~= self.entries@);
        while left > 0
            invariant
                left <= self.entries@.len(),
                self@.contains_key(name@) == named_values(
                    self.entries@.take(left as int),
                ).contains_key(name@),
                self@.contains_key(name@) ==> self@[name@] == named_values(
                    self.entries@.take(left as int),
                )[name@],
            decreases left,
        {
            let ghost seen = self.entries@.take(left as int);
            left = left - 1;
            assert(seen.drop_last() =~= self.entries@.take(left as int));
            assert(seen.last() == self.entries@[left as int]);
            if same_text(self.entries[left].0.as_str(), name) {
                return Some(&self.entries[left].1);
            }
        }
        None
    }

    #[must_use]
    pub fn get_bool(&self, name: &str) -> (flag: Option<bool>)
        ensures
            flag == bool_at(self@, name@),
    {
        match self.get(name) {
            Some(NbtValue::Bool(flag)) => Some(*flag),
            _ => None,
        }
    }

    #[must_use]
    pub fn get_byte(&self, name: &str) -> (byte: Option<i8>)
        ensures
            byte == byte_at(self@, name@),
    {
        match self.get(name) {
            Some(NbtValue::Byte(byte)) => Some(*byte),
            _ => None,
        }
    }

    #[must_use]
    pub fn get_float(&self, name: &str) -> (number: Option<Single>)
        ensures
            number == float_at(self@, name@),
    {
        match self.get(name) {
            Some(NbtValue::Float(number)) => Some(*number),
            _ => None,
        }
    }

    #[must_use]
    pub fn get_stack(&self, name: &str) -> (stack: Option<ItemStack<P>>)
        ensures
            stack == stack_at(self@, name@),
    {
        match self.get(name) {
            Some(NbtValue::Stack(stack)) => Some(stack.clone()),
            _ => None,
        }
    }

    /// All values in the order in which they were put. Later values replace earlier ones of the
    /// same name.
    #[must_use]
    pub fn entries(&self) -> (entries: &[(String, NbtValue<P>)])
        ensures
            named_values(entries@) == self@,
    {
        self.entries.as_slice()
    }
}

/// What was put under a name is read from it, as what it was put as and as nothing else, and what
/// is under other names stays.
pub proof fn law_values_are_read_as_put<P>(
    values: Map<Seq<char>, NbtValue<P>>,
    name: Seq<char>,
    other: Seq<char>,
    value: NbtValue<P>,
)
    ensures
        ({
            let after = values.insert(name, value);
            &&& bool_at(after, name) == (match value {
                NbtValue::Bool(flag) => Some(flag),
                _ => None::<bool>,
            })
            &&& byte_at(after, name) == (match value {
                NbtValue::Byte(byte) => Some(byte),
                _ => None::<i8>,
            })
            &&& float_at(after, name) == (match value {
                NbtValue::Float(number) => Some(number),
                _ => None::<Single>,
            })
            &&& stack_at(after, name) == (match value {
                NbtValue::Stack(stack) => Some(stack),
                _ => None::<ItemStack<P>>,
            })
            &&& other != name ==> {
                &&& bool_at(after, other) == bool_at(values, other)
                &&& byte_at(after, other) == byte_at(values, other)
                &&& float_at(after, other) == float_at(values, other)
                &&& stack_at(after, other) == stack_at(values, other)
            }
            &&& !values.contains_key(other) ==> {
                &&& bool_at(values, other) is None
                &&& byte_at(values, other) is None
                &&& float_at(values, other) is None
                &&& stack_at(values, other) is None
            }
        }),
{
}

/// Of several values under one name the last one counts.
pub proof fn law_last_value_counts<P>(
    entries: Seq<(String, NbtValue<P>)>,
    entry: (String, NbtValue<P>),
    other: Seq<char>,
)
    ensures
        named_values(entries.push(entry)).contains_key(entry.0@),
        named_values(entries.push(entry))[entry.0@] == entry.1,
        other != entry.0@ ==> named_values(entries.push(entry)).contains_key(other) == named_values(
            entries,
        ).contains_key(other),
        other != entry.0@ ==> named_values(entries.push(entry))[other] == named_values(
            entries,
        )[other],
        !named_values(Seq::<(String, NbtValue<P>)>::empty()).contains_key(other),
{
    assert(entries.push(entry).drop_last() =~= entries);
}

} // verus!
