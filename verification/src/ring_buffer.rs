//! Fixed-capacity circular container with a clamped scroll cursor.
//!
//! Holds up to `capacity` elements in chronological order, evicting the
//! oldest on overflow, plus a scroll offset `index` into the past where
//! `index == 0` means "most recent".  The offset is clamped to the buffer
//! bounds by every operation that moves it, so it never leaves the range
//! `0 .. len`.

use vstd::prelude::*;
use crate::format::FormattedString;

verus! {

/// Chronological contents after appending `v` to `s` under capacity `cap`:
/// the oldest element is evicted when `s` is full.
pub open spec fn ring_push<T>(s: Seq<T>, cap: nat, v: T) -> Seq<T> {
    if s.len() < cap {
        s.push(v)
    } else {
        s.drop_first().push(v)
    }
}

/// A bounded buffer of `T` in chronological order (index 0 of the view is
/// the oldest element) with a scroll offset counted from the recent end.
pub struct RingBuffer<T> {
    items: Vec<T>,
    cap: usize,
    idx: usize,
}

impl<T> View for RingBuffer<T> {
    type V = Seq<T>;

    closed spec fn view(&self) -> Seq<T> {
        self.items@
    }
}

impl<T> RingBuffer<T> {
    /// The fixed capacity the buffer was created with.
    pub closed spec fn spec_capacity(&self) -> nat {
        self.cap as nat
    }

    /// The scroll offset: how many steps into the past the view is.
    pub closed spec fn spec_index(&self) -> nat {
        self.idx as nat
    }

    /// The buffer's invariant: at least one slot, never over capacity, and
    /// the scroll offset clamped to the held elements.
    pub open spec fn inv(&self) -> bool {
        &&& self.spec_capacity() >= 1
        &&& self@.len() <= self.spec_capacity()
        &&& (self@.len() == 0 ==> self.spec_index() == 0)
        &&& (self@.len() > 0 ==> self.spec_index() < self@.len())
    }

    /// An empty buffer of the given capacity.
    pub fn new(capacity: usize) -> (r: RingBuffer<T>)
        requires
            capacity >= 1,
        ensures
            r@ == Seq::<T>::empty(),
            r.spec_capacity() == capacity,
            r.spec_index() == 0,
            r.inv(),
    {
        RingBuffer { items: Vec::new(), cap: capacity, idx: 0 }
    }

    pub fn len(&self) -> (r: usize)
        ensures
            r == self@.len(),
    {
        self.items.len()
    }

    pub fn capacity(&self) -> (r: usize)
        ensures
            r == self.spec_capacity(),
    {
        self.cap
    }

    pub fn index(&self) -> (r: usize)
        ensures
            r == self.spec_index(),
    {
        self.idx
    }

    /// Append an element, evicting the oldest when the buffer is full.
    /// The only operation that changes the buffer's length.
    pub fn push(&mut self, v: T)
        requires
            old(self).inv(),
        ensures
            final(self)@ == ring_push(old(self)@, old(self).spec_capacity(), v),
            final(self).spec_capacity() == old(self).spec_capacity(),
            final(self).spec_index() == old(self).spec_index(),
            final(self).inv(),
    {
        if self.items.len() == self.cap {
            self.items.remove(0);
            proof {
                assert(self.items@ =~= old(self)@.drop_first());
            }
        }
        self.items.push(v);
    }

    /// The element at chronological position `i` (0 = oldest).
    pub fn get(&self, i: usize) -> (r: &T)
        requires
            i < self@.len(),
        ensures
            *r == self@[i as int],
    {
        &self.items[i]
    }

    /// The element `i` steps back from the most recent one (0 = most
    /// recent).
    pub fn get_recent(&self, i: usize) -> (r: &T)
        requires
            i < self@.len(),
        ensures
            *r == self@[self@.len() - 1 - i],
    {
        &self.items[self.items.len() - 1 - i]
    }

    /// Mutable access to the element at chronological position `i`.
    pub fn get_mut(&mut self, i: usize) -> (r: &mut T)
        requires
            i < old(self)@.len(),
        ensures
            *r == old(self)@[i as int],
            final(self)@ == old(self)@.update(i as int, *final(r)),
            final(self).spec_capacity() == old(self).spec_capacity(),
            final(self).spec_index() == old(self).spec_index(),
    {
        &mut self.items[i]
    }

    /// Mutable access to the element `i` steps back from the most recent.
    pub fn get_recent_mut(&mut self, i: usize) -> (r: &mut T)
        requires
            i < old(self)@.len(),
        ensures
            *r == old(self)@[old(self)@.len() - 1 - i],
            final(self)@ == old(self)@.update(old(self)@.len() - 1 - i, *final(r)),
            final(self).spec_capacity() == old(self).spec_capacity(),
            final(self).spec_index() == old(self).spec_index(),
    {
        let k = self.items.len() - 1 - i;
        &mut self.items[k]
    }

    /// Scroll `n` steps further into the past, clamped to the oldest
    /// element.
    pub fn increment_index(&mut self, n: usize)
        requires
            old(self).inv(),
        ensures
            final(self)@ == old(self)@,
            final(self).spec_capacity() == old(self).spec_capacity(),
            final(self).spec_index() == (if old(self)@.len() == 0 {
                0
            } else if old(self).spec_index() + n < old(self)@.len() {
                old(self).spec_index() + n
            } else {
                old(self)@.len() - 1
            }),
            final(self).inv(),
    {
        if self.items.len() > 0 {
            let max = self.items.len() - 1;
            if n >= max - self.idx {
                self.idx = max;
            } else {
                self.idx = self.idx + n;
            }
        }
    }

    /// Scroll `n` steps back toward the present, clamped at the most recent
    /// element.
    pub fn decrement_index(&mut self, n: usize)
        requires
            old(self).inv(),
        ensures
            final(self)@ == old(self)@,
            final(self).spec_capacity() == old(self).spec_capacity(),
            final(self).spec_index() == (if n <= old(self).spec_index() {
                old(self).spec_index() - n
            } else {
                0
            }),
            final(self).inv(),
    {
        if n <= self.idx {
            self.idx = self.idx - n;
        } else {
            self.idx = 0;
        }
    }

    /// Set the scroll offset directly, clamped to the buffer bounds.
    pub fn set_index(&mut self, n: usize)
        requires
            old(self).inv(),
        ensures
            final(self)@ == old(self)@,
            final(self).spec_capacity() == old(self).spec_capacity(),
            final(self).spec_index() == (if old(self)@.len() == 0 {
                0
            } else if n < old(self)@.len() {
                n as int
            } else {
                old(self)@.len() - 1
            }),
            final(self).inv(),
    {
        if self.items.len() == 0 {
            self.idx = 0;
        } else if n < self.items.len() {
            self.idx = n;
        } else {
            self.idx = self.items.len() - 1;
        }
    }

    /// Jump the view back to the most recent element.
    pub fn reset_index(&mut self)
        ensures
            final(self)@ == old(self)@,
            final(self).spec_capacity() == old(self).spec_capacity(),
            final(self).spec_index() == 0,
    {
        self.idx = 0;
    }
}

impl RingBuffer<FormattedString> {
    /// The `n` most recent lines (all of them when fewer are held), in
    /// chronological order, copied out for rendering.
    pub fn most_recent(&self, n: usize) -> (r: Vec<FormattedString>)
        ensures
            r@.len() == (if n <= self@.len() {
                n as int
            } else {
                self@.len() as int
            }),
            forall|i: int|
                0 <= i < r@.len() ==> r@[i]@ == self@[self@.len() - r@.len() + i]@,
    {
        let m = if n <= self.items.len() {
            n
        } else {
            self.items.len()
        };
        let start = self.items.len() - m;
        let end = self.items.len();
        let mut r: Vec<FormattedString> = Vec::new();
        for k in start..end
            invariant
                end == self@.len(),
                start == self@.len() - m,
                start <= k <= end,
                r@.len() == k - start,
                forall|j: int| 0 <= j < r@.len() ==> r@[j]@ == self@[start + j]@,
        {
            r.push(self.items[k].duplicate());
        }
        r
    }
}

} // verus!
