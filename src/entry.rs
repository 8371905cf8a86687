use vstd::prelude::*;

use crate::slab::{occupied, Slab};

verus! {

/// A reservation on a pool: it tells the index that the next object will
/// take before the object is given. Dropping it leaves the pool as it was.
pub struct Entry<'a, T> {
    /// The reserved pool, borrowed for as long as the reservation lives.
    /// It is public so that contracts can relate the pool as it is while the
    /// reservation lives to the pool once the borrow ends (`final(e.slab)`).
    pub slab: &'a mut Slab<T>,
}

impl<'a, T> Entry<'a, T> {
    pub(crate) fn new(slab: &'a mut Slab<T>) -> (r: Self)
        ensures
            *r.slab == *old(slab),
            *final(r.slab) == *final(slab),
    {
        Entry { slab }
    }

    /// The index that `insert` will give the object.
    pub fn index(&self) -> (r: usize)
        requires
            self.slab.wf(),
        ensures
            r == old(self.slab).next_index(),
    {
        self.slab.next_free()
    }

    /// Inserts `obj` at the reserved index.
    pub fn insert(self, obj: T)
        requires
            self.slab.wf(),
            occupied(self.slab@) < usize::MAX,
            self.slab.free_list().len() == 0 ==> 2 * (self.slab@.len() + 1) * Slab::<T>::slot_bytes()
                <= isize::MAX,
        ensures
            Slab::inserted(*old(self.slab), *final(self.slab), old(self.slab).next_index(), obj),
            occupied(final(self.slab)@) == occupied(old(self.slab)@) + 1,
    {
        self.slab.insert(obj);
    }
}

} // verus!
