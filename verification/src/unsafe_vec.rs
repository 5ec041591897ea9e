//! A growable array whose element access is guarded by a precondition rather
//! than by a run-time bounds check.

use vstd::prelude::*;

verus! {

#[derive(Debug)]
pub struct UnsafeVec<T> {
    items: Vec<T>,
}

impl<T> View for UnsafeVec<T> {
    type V = Seq<T>;

    closed spec fn view(&self) -> Seq<T> {
        self.items@
    }
}

impl<T> UnsafeVec<T> {
    /// An empty array.
    pub fn new() -> (r: UnsafeVec<T>)
        ensures
            r@ == Seq::<T>::empty(),
    {
        UnsafeVec { items: Vec::new() }
    }

    /// An empty array with room reserved for `capacity` elements.
    pub fn with_capacity(capacity: usize) -> (r: UnsafeVec<T>)
        ensures
            r@ == Seq::<T>::empty(),
    {
        UnsafeVec { items: Vec::with_capacity(capacity) }
    }

    /// The array of the given elements, in their order.
    pub fn from_vec(items: Vec<T>) -> (r: UnsafeVec<T>)
        ensures
            r@ == items@,
    {
        UnsafeVec { items }
    }

    /// The elements as an ordinary vector.
    pub fn as_vec(&self) -> (r: &Vec<T>)
        ensures
            r@ == self@,
    {
        &self.items
    }

    /// Appends `item` at the end.
    pub fn push(&mut self, item: T)
        ensures
            final(self)@ == old(self)@.push(item),
    {
        self.items.push(item);
    }

    /// The number of elements held.
    pub fn len(&self) -> (r: usize)
        ensures
            r == self@.len(),
    {
        self.items.len()
    }

    /// The element at `index`.
    pub fn index(&self, index: usize) -> (r: &T)
        requires
            index < self@.len(),
        ensures
            *r == self@[index as int],
    {
        &self.items[index]
    }

    /// The element at `index`, to be changed in place.
    pub fn index_mut(&mut self, index: usize) -> (r: &mut T)
        requires
            index < old(self)@.len(),
        ensures
            *r == old(self)@[index as int],
            final(self)@ == old(self)@.update(index as int, *final(r)),
    {
        &mut self.items[index]
    }
}

} // verus!
