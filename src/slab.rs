use vstd::prelude::*;

use crate::entry::Entry;
use crate::slot::Slot;
use crate::store::Store;

verus! {

/// Number of occupied positions in a model sequence.
pub open spec fn occupied<T>(s: Seq<Option<T>>) -> nat
    decreases s.len(),
{
    if s.len() == 0 {
        0
    } else {
        occupied(s.drop_last()) + if s.last() is Some {
            1nat
        } else {
            0nat
        }
    }
}

/// The positions of a model sequence that hold an object.
spec fn present<T>(s: Seq<Option<T>>) -> Set<int> {
    Set::new(|i: int| 0 <= i < s.len() && s[i] is Some)
}

proof fn lemma_present_count<T>(s: Seq<Option<T>>)
    ensures
        present(s).finite(),
        present(s).len() == occupied(s),
    decreases s.len(),
{
    if s.len() == 0 {
        assert(present(s) =~= Set::<int>::empty());
    } else {
        let p = s.drop_last();
        lemma_present_count(p);
        if s.last() is Some {
            assert(present(s) =~= present(p).insert(s.len() - 1));
        } else {
            assert(present(s) =~= present(p));
        }
    }
}

proof fn lemma_occupied_push<T>(s: Seq<Option<T>>, x: Option<T>)
    ensures
        occupied(s.push(x)) == occupied(s) + if x is Some {
            1nat
        } else {
            0nat
        },
{
    assert(s.push(x).drop_last() =~= s);
}

proof fn lemma_occupied_update<T>(s: Seq<Option<T>>, i: int, x: Option<T>)
    requires
        0 <= i < s.len(),
    ensures
        occupied(s.update(i, x)) + (if s[i] is Some {
            1nat
        } else {
            0nat
        }) == occupied(s) + (if x is Some {
            1nat
        } else {
            0nat
        }),
    decreases s.len(),
{
    if i == s.len() - 1 {
        assert(s.update(i, x).drop_last() =~= s.drop_last());
    } else {
        lemma_occupied_update(s.drop_last(), i, x);
        assert(s.update(i, x).drop_last() =~= s.drop_last().update(i, x));
    }
}

/// Link value of the last unoccupied slot: no next slot.
const NULL: usize = usize::MAX;

/// A pool of objects of one type, addressed by the index of the slot that
/// holds each one.
pub struct Slab<T> {
    slots: Store<T>,
    len: usize,
    free: usize,
    free_list: Ghost<Seq<usize>>,
}

impl<T> View for Slab<T> {
    type V = Seq<Option<T>>;

    /// Position `i` holds `Some(v)` when slot `i` holds `v`, and `None` when
    /// it is unoccupied.
    closed spec fn view(&self) -> Seq<Option<T>> {
        self.slots@.map_values(|s: Slot<T>| s.object())
    }
}

impl<T> Slab<T> {
    /// The unoccupied slots, in the order in which insertions reuse them.
    pub closed spec fn free_list(&self) -> Seq<usize> {
        self.free_list@
    }

    /// The free list is threaded through exactly the unoccupied slots,
    /// starting at `free`, and `len` counts the occupied ones.
    #[verifier::opaque]
    pub closed spec fn wf(&self) -> bool {
        let fl = self.free_list@;
        let n = self.slots@.len();
        &&& n <= usize::MAX
        &&& n <= self.slots.spec_capacity()
        &&& self.len as nat == occupied(self@)
        &&& fl.len() + self.len == n
        &&& fl.no_duplicates()
        &&& self.free == if fl.len() == 0 {
            NULL
        } else {
            fl[0]
        }
        &&& forall|k: int|
            0 <= k < fl.len() ==> #[trigger] fl[k] < n && self.slots@[fl[k] as int] == Slot::<
                T,
            >::Free(
                if k + 1 < fl.len() {
                    fl[k + 1]
                } else {
                    NULL
                },
            )
        &&& forall|i: int| 0 <= i < n && (#[trigger] self.slots@[i]) is Free ==> fl.contains(i as usize)
    }

    /// How many slots the pool can hold without reallocating.
    pub closed spec fn spec_capacity(&self) -> nat {
        self.slots.spec_capacity()
    }

    /// The number of bytes that one slot takes.
    pub closed spec fn slot_bytes() -> nat {
        vstd::layout::size_of::<Slot<T>>()
    }

    /// What a lookup of `index` finds.
    pub open spec fn spec_get(&self, index: int) -> Option<T> {
        if 0 <= index < self@.len() {
            self@[index]
        } else {
            None
        }
    }

    /// The index that the next insertion will take: the head of the free
    /// list, or one past the last slot when no slot is unoccupied.
    pub open spec fn next_index(&self) -> usize {
        if self.free_list().len() == 0 {
            self@.len() as usize
        } else {
            self.free_list()[0]
        }
    }

    /// `post` is `pre` after `v` was inserted at `idx`.
    pub open spec fn inserted(pre: Self, post: Self, idx: usize, v: T) -> bool {
        &&& idx == pre.next_index()
        &&& post.wf()
        &&& idx < post@.len()
        &&& post.spec_capacity() >= pre.spec_capacity()
        &&& if pre.free_list().len() == 0 {
            &&& post@ == pre@.push(Some(v))
            &&& post.free_list() == pre.free_list()
        } else {
            &&& post@ == pre@.update(idx as int, Some(v))
            &&& post.free_list() == pre.free_list().drop_first()
        }
    }

    /// `post` is `pre` after the object at `index` was taken out of it.
    pub open spec fn removed(pre: Self, post: Self, index: usize) -> bool {
        &&& post.wf()
        &&& post@ == pre@.update(index as int, None)
        &&& post.spec_capacity() == pre.spec_capacity()
        &&& post.free_list() == seq![index].add(pre.free_list())
    }

    /// What a well-formed pool's model says of its free list.
    pub proof fn lemma_wf(&self)
        requires
            self.wf(),
        ensures
            self@.len() <= usize::MAX,
            self@.len() <= self.spec_capacity(),
            self.free_list().no_duplicates(),
            self.free_list().len() + occupied(self@) == self@.len(),
            forall|k: int|
                0 <= k < self.free_list().len() ==> #[trigger] self.free_list()[k] < self@.len()
                    && self@[self.free_list()[k] as int] is None,
            forall|i: int|
                0 <= i < self@.len() && (#[trigger] self@[i]) is None ==> self.free_list().contains(
                    i as usize,
                ),
    {
        reveal(Slab::wf);
        let fl = self.free_list@;
        assert forall|k: int| 0 <= k < fl.len() implies #[trigger] fl[k] < self@.len() && self@[fl[k] as int] is None by {
            assert(self.slots@[fl[k] as int] is Free);
        }
        assert forall|i: int| 0 <= i < self@.len() && (#[trigger] self@[i]) is None implies fl.contains(i as usize) by {
            assert(self.slots@[i] is Free);
        }
    }

    /// Taking the object out of an occupied slot and pushing that slot on
    /// the free list keeps the pool well formed.
    proof fn lemma_removed_wf(pre: Self, post: Self, index: usize)
        requires
            pre.wf(),
            index < pre.slots@.len(),
            pre.slots@[index as int] is Used,
            post.slots@ == pre.slots@.update(index as int, Slot::<T>::Free(pre.free)),
            post.len == pre.len - 1,
            post.free == index,
            post.free_list@ == seq![index].add(pre.free_list@),
            post.slots.spec_capacity() == pre.slots.spec_capacity(),
        ensures
            Self::removed(pre, post, index),
    {
        reveal(Slab::wf);
        let fl = pre.free_list@;
        let nfl = post.free_list@;
        lemma_occupied_update(pre@, index as int, None);
        assert(post@ =~= pre@.update(index as int, None));
        assert(!fl.contains(index)) by {
            if fl.contains(index) {
                let k = choose|k: int| 0 <= k < fl.len() && fl[k] == index;
                assert(pre.slots@[fl[k] as int] is Free);
            }
        }
        assert forall|i: int| 0 <= i < post.slots@.len() && (#[trigger] post.slots@[i]) is Free implies nfl.contains(i as usize) by {
            if i != index {
                assert(pre.slots@[i] is Free);
                let k = choose|k: int| 0 <= k < fl.len() && fl[k] == i as usize;
                assert(nfl[k + 1] == i as usize);
            } else {
                assert(nfl[0] == i as usize);
            }
        }
        assert forall|k: int| 0 <= k < nfl.len() implies #[trigger] nfl[k] < post.slots@.len()
            && post.slots@[nfl[k] as int] == Slot::<T>::Free(
            if k + 1 < nfl.len() {
                nfl[k + 1]
            } else {
                NULL
            },
        ) by {
            if k > 0 {
                assert(nfl[k] == fl[k - 1]);
                assert(fl[k - 1] < pre.slots@.len());
            }
        }
        assert forall|a: int, b: int| 0 <= a < b < nfl.len() implies nfl[a] != nfl[b] by {
            if a == 0 {
                assert(fl[b - 1] == nfl[b]);
            } else {
                assert(fl[a - 1] == nfl[a]);
                assert(fl[b - 1] == nfl[b]);
            }
        }
    }

    /// Filling the slot at the head of the free list and popping it keeps
    /// the pool well formed.
    proof fn lemma_reused_wf(pre: Self, post: Self, v: T)
        requires
            pre.wf(),
            pre.free_list@.len() > 0,
            post.slots@ == pre.slots@.update(pre.free as int, Slot::Used(v)),
            post.len == pre.len + 1,
            pre.slots@[pre.free as int] == Slot::<T>::Free(post.free),
            post.free_list@ == pre.free_list@.drop_first(),
            post.slots.spec_capacity() == pre.slots.spec_capacity(),
        ensures
            Self::inserted(pre, post, pre.free, v),
    {
        reveal(Slab::wf);
        let fl = pre.free_list@;
        let nfl = post.free_list@;
        let cur = pre.free;
        assert(fl[0] == cur);
        assert(cur < pre.slots@.len());
        lemma_occupied_update(pre@, cur as int, Some(v));
        assert(post@ =~= pre@.update(cur as int, Some(v)));
        assert forall|i: int| 0 <= i < post.slots@.len() && (#[trigger] post.slots@[i]) is Free implies nfl.contains(i as usize) by {
            assert(i != cur);
            assert(pre.slots@[i] is Free);
            let k = choose|k: int| 0 <= k < fl.len() && fl[k] == i as usize;
            assert(k != 0);
            assert(nfl[k - 1] == i as usize);
        }
        assert forall|k: int| 0 <= k < nfl.len() implies #[trigger] nfl[k] < post.slots@.len()
            && post.slots@[nfl[k] as int] == Slot::<T>::Free(
            if k + 1 < nfl.len() {
                nfl[k + 1]
            } else {
                NULL
            },
        ) by {
            assert(nfl[k] == fl[k + 1]);
            assert(fl[k + 1] != fl[0]);
            assert(fl[k + 1] < pre.slots@.len());
        }
        if nfl.len() > 0 {
            assert(nfl[0] == fl[1]);
        }
    }

    /// Putting another object in an occupied slot keeps the pool well formed.
    proof fn lemma_replaced_wf(pre: Self, post: Self, index: usize, v: T)
        requires
            pre.wf(),
            index < pre.slots@.len(),
            pre.slots@[index as int] is Used,
            post.slots@ == pre.slots@.update(index as int, Slot::Used(v)),
            post.len == pre.len,
            post.free == pre.free,
            post.free_list == pre.free_list,
            post.slots.spec_capacity() == pre.slots.spec_capacity(),
        ensures
            post.wf(),
            post@ == pre@.update(index as int, Some(v)),
            occupied(post@) == occupied(pre@),
    {
        reveal(Slab::wf);
        lemma_occupied_update(pre@, index as int, Some(v));
        assert(post@ =~= pre@.update(index as int, Some(v)));
        let fl = pre.free_list@;
        assert forall|k: int| 0 <= k < fl.len() implies #[trigger] fl[k] < post.slots@.len()
            && post.slots@[fl[k] as int] == Slot::<T>::Free(
            if k + 1 < fl.len() {
                fl[k + 1]
            } else {
                NULL
            },
        ) by {
            assert(pre.slots@[fl[k] as int] is Free);
        }
        assert forall|i: int| 0 <= i < post.slots@.len() && (#[trigger] post.slots@[i]) is Free implies fl.contains(i as usize) by {
            assert(pre.slots@[i] is Free);
        }
    }

    /// Makes an empty pool that has allocated nothing.
    pub fn new() -> (r: Self)
        ensures
            r.wf(),
            r@ == Seq::<Option<T>>::empty(),
            r.free_list() == Seq::<usize>::empty(),
            r.spec_capacity() == 0,
    {
        proof {
            reveal(Slab::wf);
        }
        let r = Slab { slots: Store::new(), len: 0, free: NULL, free_list: Ghost(Seq::empty()) };
        assert(r@ =~= Seq::<Option<T>>::empty());
        r
    }

    /// Makes an empty pool with room for `capacity` objects.
    pub fn with_capacity(capacity: usize) -> (r: Self)
        requires
            capacity * Self::slot_bytes() <= isize::MAX,
        ensures
            r.wf(),
            r@ == Seq::<Option<T>>::empty(),
            r.free_list() == Seq::<usize>::empty(),
            r.spec_capacity() >= capacity,
            capacity == 0 ==> r.spec_capacity() == 0,
    {
        proof {
            reveal(Slab::wf);
        }
        let r = Slab {
            slots: Store::with_capacity(capacity),
            len: 0,
            free: NULL,
            free_list: Ghost(Seq::empty()),
        };
        assert(r@ =~= Seq::<Option<T>>::empty());
        r
    }

    /// The number of bytes that one slot takes, which bounds what `reserve`
    /// and `reserve_exact` may ask for.
    pub fn slot_size() -> (r: usize)
        ensures
            r == Self::slot_bytes(),
    {
        core::mem::size_of::<Slot<T>>()
    }

    /// The number of objects in the pool.
    pub fn len(&self) -> (r: usize)
        requires
            self.wf(),
        ensures
            r == occupied(self@),
    {
        proof {
            reveal(Slab::wf);
        }
        self.len
    }

    /// Whether the pool holds no object.
    pub fn is_empty(&self) -> (r: bool)
        requires
            self.wf(),
        ensures
            r == (occupied(self@) == 0),
    {
        self.len() == 0
    }

    fn has_free_slots(&self) -> (r: bool)
        requires
            self.wf(),
        ensures
            r == (self.free_list().len() > 0),
    {
        proof {
            reveal(Slab::wf);
        }
        proof {
            if self.free_list@.len() > 0 {
                assert(self.free_list@[0] < self.slots@.len());
            }
        }
        self.free != NULL
    }

    pub(crate) fn next_free(&self) -> (r: usize)
        requires
            self.wf(),
        ensures
            r == self.next_index(),
    {
        proof {
            reveal(Slab::wf);
        }
        if self.has_free_slots() {
            self.free
        } else {
            self.len
        }
    }

    /// Stores `obj` and returns its index: the most recently freed slot if
    /// there is one, else a new slot at the end.
    pub fn insert(&mut self, obj: T) -> (r: usize)
        requires
            old(self).wf(),
            occupied(old(self)@) < usize::MAX,
            old(self).free_list().len() == 0 ==> 2 * (old(self)@.len() + 1) * Self::slot_bytes()
                <= isize::MAX,
        ensures
            Self::inserted(*old(self), *final(self), r, obj),
            occupied(final(self)@) == occupied(old(self)@) + 1,
    {
        proof {
            reveal(Slab::wf);
        }
        proof {
            self.lemma_wf();
        }
        let ghost pre = *self;
        let cur: usize;
        if self.has_free_slots() {
            cur = self.free;
            let next = self.slots.at_mut(cur).put(obj);
            self.free = next;
            self.len = self.len + 1;
            proof {
                self.free_list = Ghost(pre.free_list@.drop_first());
                Self::lemma_reused_wf(pre, *self, obj);
            }
        } else {
            cur = self.len;
            self.slots.push(Slot::Used(obj));
            self.len = self.len + 1;
            proof {
                lemma_occupied_push(pre@, Some(obj));
                assert(self@ =~= pre@.push(Some(obj)));
                assert forall|i: int|
                    0 <= i < self.slots@.len() && (#[trigger] self.slots@[i]) is Free implies self.free_list@.contains(
                    i as usize,
                ) by {
                    assert(pre.slots@[i] is Free);
                }
            }
        }
        proof {
            lemma_round_trip(pre, *self, cur, obj);
        }
        cur
    }

    /// Takes the object at `index` out of the pool, or returns `None` when
    /// no object is there.
    pub fn remove(&mut self, index: usize) -> (r: Option<T>)
        requires
            old(self).wf(),
        ensures
            match r {
                Some(v) => {
                    &&& old(self).spec_get(index as int) == Some(v)
                    &&& Self::removed(*old(self), *final(self), index)
                    &&& occupied(final(self)@) + 1 == occupied(old(self)@)
                },
                None => old(self).spec_get(index as int) is None && *final(self) == *old(self),
            },
    {
        if index < self.slots.len() {
            if let Slot::Used(_) = self.slots.at(index) {
                return Some(self.remove_unchecked(index));
            }
        }
        None
    }

    /// Takes the object at `index` out of the pool; the caller knows that
    /// one is there.
    pub fn remove_unchecked(&mut self, index: usize) -> (r: T)
        requires
            old(self).wf(),
            old(self).spec_get(index as int) is Some,
        ensures
            old(self).spec_get(index as int) == Some(r),
            Self::removed(*old(self), *final(self), index),
            occupied(final(self)@) + 1 == occupied(old(self)@),
    {
        let ghost pre = *self;
        proof {
            assert(pre@[index as int] == pre.slots@[index as int].object());
        }
        let next = self.free;
        let obj = self.slots.at_mut(index).take(next);
        proof {
            assert(self.slots@ == pre.slots@.update(index as int, Slot::<T>::Free(next)));
            assert(self.len == occupied(pre@)) by {
                reveal(Slab::wf);
            }
            lemma_occupied_update(pre@, index as int, None);
        }
        self.free = index;
        self.len = self.len - 1;
        proof {
            self.free_list = Ghost(seq![index].add(pre.free_list@));
            Self::lemma_removed_wf(pre, *self, index);
        }
        obj
    }

    /// The object at `index`, or `None` when no object is there.
    pub fn get(&self, index: usize) -> (r: Option<&T>)
        requires
            self.wf(),
        ensures
            match r {
                Some(v) => self.spec_get(index as int) == Some(*v),
                None => self.spec_get(index as int) is None,
            },
    {
        if index < self.slots.len() {
            if let Slot::Used(obj) = self.slots.at(index) {
                return Some(obj);
            }
        }
        None
    }

    /// How many slots the pool can hold without reallocating.
    pub fn capacity(&self) -> (r: usize)
        ensures
            r == self.spec_capacity(),
    {
        self.slots.capacity()
    }

    /// Drops every object and empties the free list; the allocation is kept.
    pub fn clear(&mut self)
        requires
            old(self).wf(),
        ensures
            final(self).wf(),
            final(self)@ == Seq::<Option<T>>::empty(),
            final(self).free_list() == Seq::<usize>::empty(),
            final(self).spec_capacity() == old(self).spec_capacity(),
            occupied(final(self)@) == 0,
            forall|i: int| #[trigger] final(self).spec_get(i) is None,
    {
        self.slots.clear();
        self.len = 0;
        self.free = NULL;
        proof {
            reveal(Slab::wf);
            self.free_list = Ghost(Seq::empty());
            assert(self@ =~= Seq::<Option<T>>::empty());
        }
    }

    /// Makes room for at least `additional` more objects beyond those held:
    /// the allocation grows to at least `len() + additional` slots when it is
    /// smaller.
    pub fn reserve(&mut self, additional: usize)
        requires
            old(self).wf(),
            occupied(old(self)@) + additional <= usize::MAX,
            2 * (occupied(old(self)@) + additional) * Self::slot_bytes() <= isize::MAX,
        ensures
            final(self).wf(),
            final(self)@ == old(self)@,
            final(self).free_list() == old(self).free_list(),
            final(self).spec_capacity() >= occupied(old(self)@) + additional,
            final(self).spec_capacity() >= old(self).spec_capacity(),
            old(self).spec_capacity() >= occupied(old(self)@) + additional
                ==> final(self).spec_capacity() == old(self).spec_capacity(),
    {
        proof {
            reveal(Slab::wf);
        }
        let n = self.slots.capacity() - self.len;
        if additional > n {
            let extra = self.len + additional - self.slots.len();
            self.slots.reserve(extra);
        }
        proof {
            assert(self@ =~= old(self)@);
        }
    }

    /// Like `reserve`, asking the allocation for no more than is needed.
    pub fn reserve_exact(&mut self, additional: usize)
        requires
            old(self).wf(),
            occupied(old(self)@) + additional <= usize::MAX,
            (occupied(old(self)@) + additional) * Self::slot_bytes() <= isize::MAX,
        ensures
            final(self).wf(),
            final(self)@ == old(self)@,
            final(self).free_list() == old(self).free_list(),
            final(self).spec_capacity() >= occupied(old(self)@) + additional,
            final(self).spec_capacity() >= old(self).spec_capacity(),
            old(self).spec_capacity() >= occupied(old(self)@) + additional
                ==> final(self).spec_capacity() == old(self).spec_capacity(),
    {
        proof {
            reveal(Slab::wf);
        }
        let n = self.slots.capacity() - self.len;
        if additional > n {
            let extra = self.len + additional - self.slots.len();
            self.slots.reserve_exact(extra);
        }
        proof {
            assert(self@ =~= old(self)@);
        }
    }

    /// Hands out a reservation that tells the index of the next object
    /// before it is inserted.
    pub fn free_entry(&mut self) -> (r: Entry<'_, T>)
        requires
            old(self).wf(),
        ensures
            *r.slab == *old(self),
            *final(r.slab) == *final(self),
    {
        Entry::new(self)
    }

    /// The object at `index`, which the caller knows to be there.
    pub fn get_unchecked(&self, index: usize) -> (r: &T)
        requires
            self.wf(),
            self.spec_get(index as int) is Some,
        ensures
            self.spec_get(index as int) == Some(*r),
    {
        proof {
            assert(self@[index as int] == self.slots@[index as int].object());
        }
        self.slots.at(index).get_unchecked()
    }

    /// Writable access to the object at `index`, which the caller knows to
    /// be there.
    pub fn get_unchecked_mut(&mut self, index: usize) -> (r: &mut T)
        requires
            old(self).wf(),
            old(self).spec_get(index as int) is Some,
        ensures
            old(self).spec_get(index as int) == Some(*r),
            final(self).wf(),
            final(self)@ == old(self)@.update(index as int, Some(*final(r))),
            final(self).free_list() == old(self).free_list(),
            final(self).spec_capacity() == old(self).spec_capacity(),
            occupied(final(self)@) == occupied(old(self)@),
    {
        proof {
            let pre = *self;
            assert(self@[index as int] == self.slots@[index as int].object());
            assert forall|post: Self|
                post.slots@ == pre.slots@.update(index as int, post.slots@[index as int])
                    && post.slots@[index as int] is Used && post.len == pre.len && post.free
                    == pre.free && post.free_list == pre.free_list && post.slots.spec_capacity()
                    == pre.slots.spec_capacity() implies #[trigger] post.wf() && post@ == pre@.update(
                index as int,
                post@[index as int],
            ) && occupied(post@) == occupied(pre@) by {
                let v = post.slots@[index as int]->Used_0;
                Self::lemma_replaced_wf(pre, post, index, v);
            }
        }
        self.slots.at_mut(index).get_unchecked_mut()
    }

    /// Writable access to the object at `index`, or `None` when no object
    /// is there.
    pub fn get_mut(&mut self, index: usize) -> (r: Option<&mut T>)
        requires
            old(self).wf(),
        ensures
            match r {
                Some(v) => {
                    &&& old(self).spec_get(index as int) == Some(*v)
                    &&& final(self).wf()
                    &&& final(self)@ == old(self)@.update(index as int, Some(*final(v)))
                    &&& final(self).free_list() == old(self).free_list()
                    &&& final(self).spec_capacity() == old(self).spec_capacity()
                    &&& occupied(final(self)@) == occupied(old(self)@)
                },
                None => old(self).spec_get(index as int) is None && *final(self) == *old(self),
            },
    {
        if index < self.slots.len() {
            if let Slot::Used(_) = self.slots.at(index) {
                return Some(self.get_unchecked_mut(index));
            }
        }
        None
    }
}

impl<T> Default for Slab<T> {
    /// An empty pool, as `new` makes it.
    fn default() -> (r: Self)
        ensures
            r.wf(),
            r@ == Seq::<Option<T>>::empty(),
            r.free_list() == Seq::<usize>::empty(),
            r.spec_capacity() == 0,
    {
        Self::new()
    }
}

impl<T> core::ops::Index<usize> for Slab<T> {
    type Output = T;

    /// The object at `index`; reading a slot that holds none is refused.
    fn index(&self, index: usize) -> (r: &T)
        ensures
            self.spec_get(index as int) == Some(*r),
    {
        self.get_unchecked(index)
    }
}

impl<T> core::ops::IndexMut<usize> for Slab<T> {
    /// Writable access to the object at `index`; a slot that holds none is
    /// refused.
    fn index_mut(&mut self, index: usize) -> (r: &mut T)
        requires
            old(self).wf(),
            old(self).spec_get(index as int) is Some,
        ensures
            old(self).spec_get(index as int) == Some(*r),
            final(self).wf(),
            final(self)@ == old(self)@.update(index as int, Some(*final(r))),
            final(self).free_list() == old(self).free_list(),
            final(self).spec_capacity() == old(self).spec_capacity(),
            occupied(final(self)@) == occupied(old(self)@),
    {
        self.get_unchecked_mut(index)
    }
}

impl<T> vstd::std_specs::core::IndexSpecImpl<usize> for Slab<T> {
    open spec fn index_req(&self, index: &usize) -> bool {
        self.wf() && self.spec_get(*index as int) is Some
    }
}

/// An insertion stores its object at the index it returns, and leaves
/// every other index as it was; the pool holds one object more.
pub proof fn lemma_round_trip<T>(pre: Slab<T>, post: Slab<T>, idx: usize, v: T)
    requires
        pre.wf(),
        Slab::inserted(pre, post, idx, v),
    ensures
        post.spec_get(idx as int) == Some(v),
        occupied(post@) == occupied(pre@) + 1,
        forall|j: int| j != idx ==> #[trigger] post.spec_get(j) == pre.spec_get(j),
{
    pre.lemma_wf();
    if pre.free_list().len() == 0 {
        lemma_occupied_push(pre@, Some(v));
    } else {
        assert(pre.free_list()[0] < pre@.len());
        lemma_occupied_update(pre@, idx as int, Some(v));
    }
}

/// A removal empties its index and leaves every other index as it was;
/// the pool holds one object less.
pub proof fn lemma_remove_keeps_others<T>(pre: Slab<T>, post: Slab<T>, index: usize)
    requires
        pre.wf(),
        pre.spec_get(index as int) is Some,
        Slab::removed(pre, post, index),
    ensures
        post.spec_get(index as int) is None,
        occupied(post@) + 1 == occupied(pre@),
        forall|j: int| j != index ==> #[trigger] post.spec_get(j) == pre.spec_get(j),
{
    lemma_occupied_update(pre@, index as int, None);
}

/// Freed slots are reused last-freed first: after removing the objects at
/// `a` and then at `b`, the next two insertions get `b` and then `a`.
pub proof fn lemma_lifo_reuse<T>(
    s0: Slab<T>,
    s1: Slab<T>,
    s2: Slab<T>,
    s3: Slab<T>,
    s4: Slab<T>,
    a: usize,
    b: usize,
    i1: usize,
    i2: usize,
    x: T,
    y: T,
)
    requires
        s0.wf(),
        s0.spec_get(a as int) is Some,
        Slab::removed(s0, s1, a),
        s1.spec_get(b as int) is Some,
        Slab::removed(s1, s2, b),
        Slab::inserted(s2, s3, i1, x),
        Slab::inserted(s3, s4, i2, y),
    ensures
        i1 == b,
        i2 == a,
{
    assert(s3.free_list() =~= s2.free_list().drop_first());
    assert(s3.free_list()[0] == a);
}

/// The number of objects in a pool is the number of indices at which a
/// lookup finds one.
pub proof fn lemma_len_counts_lookups<T>(pool: Slab<T>)
    ensures
        Set::new(|i: int| pool.spec_get(i) is Some).finite(),
        Set::new(|i: int| pool.spec_get(i) is Some).len() == occupied(pool@),
{
    lemma_present_count(pool@);
    assert(Set::new(|i: int| pool.spec_get(i) is Some) =~= present(pool@));
}

} // verus!
