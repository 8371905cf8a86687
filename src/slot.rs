use vstd::prelude::*;

verus! {

/// One cell of the pool: an object, or a link to the next unoccupied cell.
pub(crate) enum Slot<T> {
    Used(T),
    Free(usize),
}

impl<T> Slot<T> {
    /// The object held by an occupied slot, if any.
    pub(crate) open spec fn object(self) -> Option<T> {
        match self {
            Slot::Used(v) => Some(v),
            Slot::Free(_) => None,
        }
    }

    /// Reads the object of a slot known to be occupied.
    pub(crate) fn get_unchecked(&self) -> (r: &T)
        requires
            self is Used,
        ensures
            self.object() == Some(*r),
    {
        match self {
            Slot::Used(obj) => obj,
            Slot::Free(_) => vstd::pervasive::unreached(),
        }
    }

    /// Writable access to the object of a slot known to be occupied.
    pub(crate) fn get_unchecked_mut(&mut self) -> (r: &mut T)
        requires
            *old(self) is Used,
        ensures
            old(self).object() == Some(*r),
            *final(self) == Slot::Used(*final(r)),
    {
        match self {
            Slot::Used(obj) => obj,
            Slot::Free(_) => vstd::pervasive::unreached(),
        }
    }

    /// Reads the link of a slot known to be unoccupied.
    pub(crate) fn get_free_unchecked(&self) -> (r: usize)
        requires
            self is Free,
        ensures
            *self == Slot::<T>::Free(r),
    {
        match self {
            Slot::Free(next) => *next,
            Slot::Used(_) => vstd::pervasive::unreached(),
        }
    }

    /// Moves the object out of a slot known to be occupied.
    pub(crate) fn unwrap_unchecked(self) -> (r: T)
        requires
            self is Used,
        ensures
            self.object() == Some(r),
    {
        match self {
            Slot::Used(obj) => obj,
            Slot::Free(_) => vstd::pervasive::unreached(),
        }
    }

    /// Turns an occupied slot into an unoccupied one linking to `next`, and
    /// hands back the object it held.
    pub(crate) fn take(&mut self, next: usize) -> (r: T)
        requires
            *old(self) is Used,
        ensures
            old(self).object() == Some(r),
            *final(self) == Slot::<T>::Free(next),
    {
        let mut s = Slot::Free(next);
        core::mem::swap(self, &mut s);
        s.unwrap_unchecked()
    }

    /// Stores `obj` in an unoccupied slot and hands back the link it held.
    pub(crate) fn put(&mut self, obj: T) -> (r: usize)
        requires
            *old(self) is Free,
        ensures
            *old(self) == Slot::<T>::Free(r),
            *final(self) == Slot::Used(obj),
    {
        let mut s = Slot::Used(obj);
        core::mem::swap(self, &mut s);
        s.get_free_unchecked()
    }
}

} // verus!
