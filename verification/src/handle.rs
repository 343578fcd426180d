//! Shared handles to strategies and stores: a holder that keeps a handle
//! as it was handed over, and lists of handles that are extended and
//! copied. The items are generic in what they hold, so that they serve
//! handles to any trait object alike.

use std::sync::Arc;
use vstd::prelude::*;

verus! {

/// `Vec::clone` on a list of `Arc` handles: cloning an `Arc` gives another
/// handle to the same value, so the copy holds the same handles in the
/// same order.
#[verifier::external_body]
pub(crate) fn clone_handles<T: ?Sized>(list: &Vec<Arc<T>>) -> (r: Vec<Arc<T>>)
    ensures
        r@ == list@,
{
    list.clone()
}

/// A value kept exactly as it was handed over.
pub struct Held<T> {
    item: T,
}

impl<T> Held<T> {
    /// What is kept.
    pub closed spec fn item(self) -> T {
        self.item
    }

    /// Whether `held` keeps `item`.
    pub open spec fn holds(item: T, held: Held<T>) -> bool {
        held.item() == item
    }

    /// Keeps `item`.
    pub fn of(item: T) -> (r: Self)
        ensures
            r.item() == item,
    {
        Held { item }
    }

    /// What is kept.
    pub fn get(&self) -> (r: &T)
        ensures
            *r == self.item(),
    {
        &self.item
    }
}

/// `list` with `item` behind it.
pub open spec fn pushed<T>(item: T, list: Seq<T>) -> Seq<T> {
    list.push(item)
}

/// Appends `item` to `list`.
pub fn append_to<T>(item: T, list: &mut Vec<T>)
    ensures
        final(list)@ == pushed(item, old(list)@),
{
    list.push(item);
}

} // verus!
