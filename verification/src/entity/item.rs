//! Items, as far as entities tell them apart.

use crate::shared::share;
use std::sync::Arc;
use vstd::prelude::*;

verus! {

/// An item that some rule names, or any other one by its number.
#[derive(Clone, Copy, Debug, PartialEq, Eq, Structural)]
pub enum Item {
    Air,
    Cod,
    Salmon,
    Carrot,
    GoldenCarrot,
    Dandelion,
    ItemFrame,
    Other(u16),
}

/// So many of an item. `P` is whatever else a stack carries, such as enchantments.
#[derive(Debug, PartialEq, Eq)]
pub struct ItemStack<P> {
    pub item: Item,
    pub count: u8,
    pub extra: Option<Arc<P>>,
}

/// Nothing at all.
pub open spec fn no_items<P>() -> ItemStack<P> {
    ItemStack { item: Item::Air, count: 0, extra: None }
}

impl<P> ItemStack<P> {
    pub open spec fn spec_is_empty(self) -> bool {
        self.count == 0 || self.item == Item::Air
    }

    /// A plain stack.
    #[must_use]
    pub fn new(count: u8, item: Item) -> (stack: Self)
        ensures
            stack == (ItemStack::<P> { item, count, extra: None }),
    {
        ItemStack { item, count, extra: None }
    }

    /// Nothing at all.
    #[must_use]
    pub fn empty() -> (stack: Self)
        ensures
            stack == no_items::<P>(),
    {
        ItemStack { item: Item::Air, count: 0, extra: None }
    }

    #[must_use]
    pub fn is_empty(&self) -> (empty: bool)
        ensures
            empty == self.spec_is_empty(),
    {
        self.count == 0 || self.item == Item::Air
    }
}

impl<P> Clone for ItemStack<P> {
    fn clone(&self) -> (copy: Self)
        ensures
            copy == *self,
    {
        let extra = match &self.extra {
            Some(carried) => Some(share(carried)),
            None => None,
        };
        ItemStack { item: self.item, count: self.count, extra }
    }
}

/// A stack is empty if there is none of it or if it is air, and no items are an empty stack that
/// carries nothing.
pub proof fn law_empty_stacks<P>(stack: ItemStack<P>)
    ensures
        stack.spec_is_empty() <==> stack.count == 0 || stack.item == Item::Air,
        no_items::<P>().spec_is_empty(),
        no_items::<P>().count == 0,
        no_items::<P>().item == Item::Air,
        no_items::<P>().extra is None,
{
}

} // verus!
