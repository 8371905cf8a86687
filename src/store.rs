use vstd::prelude::*;

use crate::slot::Slot;

verus! {

/// The growable array of slots behind a pool, together with how many slots
/// it can hold without reallocating. That number changes only through the
/// `Vec` calls below that may allocate; indexing and `clear` keep it, as
/// `Vec` documents. A slot holds a `usize`, so it is never zero-sized.
pub(crate) struct Store<T> {
    vec: Vec<Slot<T>>,
    cap: Ghost<nat>,
}

impl<T> View for Store<T> {
    type V = Seq<Slot<T>>;

    closed spec fn view(&self) -> Seq<Slot<T>> {
        self.vec@
    }
}

impl<T> Store<T> {
    /// How many slots fit before the next reallocation.
    pub(crate) closed spec fn spec_capacity(&self) -> nat {
        self.cap@
    }

    /// Relies on `Vec::new`: it allocates nothing, so its capacity is 0.
    #[verifier::external_body]
    pub(crate) fn new() -> (r: Self)
        ensures
            r@ == Seq::<Slot<T>>::empty(),
            r.spec_capacity() == 0,
    {
        Store { vec: Vec::new(), cap: Ghost(0) }
    }

    /// Relies on `Vec::with_capacity`: room for at least `capacity` slots, and
    /// no allocation for 0; it panics when that exceeds `isize::MAX` bytes.
    #[verifier::external_body]
    pub(crate) fn with_capacity(capacity: usize) -> (r: Self)
        requires
            capacity * vstd::layout::size_of::<Slot<T>>() <= isize::MAX,
        ensures
            r@ == Seq::<Slot<T>>::empty(),
            r.spec_capacity() >= capacity,
            capacity == 0 ==> r.spec_capacity() == 0,
    {
        Store { vec: Vec::with_capacity(capacity), cap: Ghost(capacity as nat) }
    }

    /// Relies on `Vec::capacity`: the number of slots the vector can hold
    /// without reallocating.
    #[verifier::external_body]
    pub(crate) fn capacity(&self) -> (r: usize)
        ensures
            r == self.spec_capacity(),
    {
        self.vec.capacity()
    }

    /// Relies on `Vec::push`: the slot is appended, and the capacity never
    /// shrinks and holds the new length. It panics when the new capacity
    /// exceeds `isize::MAX` bytes; as growth may take more than one slot, the
    /// request is kept within half of that.
    #[verifier::external_body]
    pub(crate) fn push(&mut self, s: Slot<T>)
        requires
            old(self)@.len() < usize::MAX,
            2 * (old(self)@.len() + 1) * vstd::layout::size_of::<Slot<T>>() <= isize::MAX,
        ensures
            final(self)@ == old(self)@.push(s),
            final(self).spec_capacity() >= old(self).spec_capacity(),
            final(self).spec_capacity() >= final(self)@.len(),
    {
        self.vec.push(s)
    }

    /// Relies on `Vec::reserve`: afterwards the capacity is at least the
    /// length plus `additional`, and nothing is done when it already was; the
    /// slots are kept. It panics when the new capacity exceeds `isize::MAX`
    /// bytes or overflows `usize`; as it may take more than asked, the request
    /// is kept within half of that.
    #[verifier::external_body]
    pub(crate) fn reserve(&mut self, additional: usize)
        requires
            old(self)@.len() + additional <= usize::MAX,
            2 * (old(self)@.len() + additional) * vstd::layout::size_of::<Slot<T>>() <= isize::MAX,
        ensures
            final(self)@ == old(self)@,
            final(self).spec_capacity() >= old(self)@.len() + additional,
            final(self).spec_capacity() >= old(self).spec_capacity(),
            old(self).spec_capacity() >= old(self)@.len() + additional ==> final(self).spec_capacity()
                == old(self).spec_capacity(),
    {
        self.vec.reserve(additional)
    }

    /// Relies on `Vec::reserve_exact`: afterwards the capacity is at least the
    /// length plus `additional`, and nothing is done when it already was; the
    /// slots are kept. It panics when the new capacity exceeds `isize::MAX`
    /// bytes or overflows `usize`.
    #[verifier::external_body]
    pub(crate) fn reserve_exact(&mut self, additional: usize)
        requires
            old(self)@.len() + additional <= usize::MAX,
            (old(self)@.len() + additional) * vstd::layout::size_of::<Slot<T>>() <= isize::MAX,
        ensures
            final(self)@ == old(self)@,
            final(self).spec_capacity() >= old(self)@.len() + additional,
            final(self).spec_capacity() >= old(self).spec_capacity(),
            old(self).spec_capacity() >= old(self)@.len() + additional ==> final(self).spec_capacity()
                == old(self).spec_capacity(),
    {
        self.vec.reserve_exact(additional)
    }

    /// The number of slots.
    pub(crate) fn len(&self) -> (r: usize)
        ensures
            r == self@.len(),
    {
        self.vec.len()
    }

    /// The slot at `i`.
    pub(crate) fn at(&self, i: usize) -> (r: &Slot<T>)
        requires
            i < self@.len(),
        ensures
            *r == self@[i as int],
    {
        &self.vec[i]
    }

    /// Writable access to the slot at `i`; the allocation is untouched.
    pub(crate) fn at_mut(&mut self, i: usize) -> (r: &mut Slot<T>)
        requires
            i < old(self)@.len(),
        ensures
            *r == old(self)@[i as int],
            final(self)@ == old(self)@.update(i as int, *final(r)),
            final(self).spec_capacity() == old(self).spec_capacity(),
    {
        &mut self.vec[i]
    }

    /// Drops every slot; the allocation is kept.
    pub(crate) fn clear(&mut self)
        ensures
            final(self)@ == Seq::<Slot<T>>::empty(),
            final(self).spec_capacity() == old(self).spec_capacity(),
    {
        self.vec.clear();
    }
}

} // verus!
