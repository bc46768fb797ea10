use vstd::prelude::*;
use std::collections::VecDeque;

verus! {

/// Moves the elements of `v`, in order, into a double-ended queue.
pub(crate) fn deque_from_vec<T>(v: Vec<T>) -> (d: VecDeque<T>)
    ensures
        d@ == v@,
{
    let ghost orig = v@;
    let mut v = v;
    let mut d: VecDeque<T> = VecDeque::new();
    while v.len() > 0
        invariant
            v@ + d@ == orig,
        decreases v@.len(),
    {
        let x = v.pop().unwrap();
        let ghost before = d@;
        d.push_front(x);
        assert(v@ + d@ =~= orig) by {
            assert(v@ + d@ =~= (v@.push(x)) + before);
        }
    }
    assert(d@ =~= orig);
    d
}

/// An iterator that owns the elements of an array and hands them out from
/// either end. Its view is the sequence of elements not yet handed out.
pub struct IntoIter<T> {
    items: VecDeque<T>,
}

impl<T> View for IntoIter<T> {
    type V = Seq<T>;

    closed spec fn view(&self) -> Seq<T> {
        self.items@
    }
}

impl<T> IntoIter<T> {
    /// An iterator over the elements of `v`, first to last.
    pub(crate) fn from_vec(v: Vec<T>) -> (r: IntoIter<T>)
        ensures
            r@ == v@,
    {
        IntoIter { items: deque_from_vec(v) }
    }

    /// Hands out the first remaining element.
    pub fn next(&mut self) -> (r: Option<T>)
        ensures
            old(self)@.len() > 0 ==> r == Some(old(self)@[0]) && final(self)@ == old(
                self,
            )@.drop_first(),
            old(self)@.len() == 0 ==> r == None::<T> && final(self)@ == old(self)@,
    {
        let r = self.items.pop_front();
        proof {
            if old(self)@.len() > 0 {
                assert(self.items@ =~= old(self)@.drop_first());
            }
        }
        r
    }

    /// Drops the first `n` remaining elements, then hands out the next one.
    pub fn nth(&mut self, n: usize) -> (r: Option<T>)
        ensures
            n < old(self)@.len() ==> r == Some(old(self)@[n as int]) && final(self)@ == old(
                self,
            )@.subrange(n + 1, old(self)@.len() as int),
            n >= old(self)@.len() ==> r == None::<T> && final(self)@ == Seq::<T>::empty(),
    {
        let mut i: usize = 0;
        while i < n && self.items.len() > 0
            invariant
                i <= n,
                i <= old(self)@.len(),
                self@ == old(self)@.subrange(i as int, old(self)@.len() as int),
            decreases n - i,
        {
            let _ = self.items.pop_front();
            i = i + 1;
        }
        self.next()
    }

    /// How many elements remain.
    pub fn len(&self) -> (r: usize)
        ensures
            r == self@.len(),
    {
        self.items.len()
    }

    /// Hands out the last remaining element.
    pub fn next_back(&mut self) -> (r: Option<T>)
        ensures
            old(self)@.len() > 0 ==> r == Some(old(self)@.last()) && final(self)@ == old(
                self,
            )@.drop_last(),
            old(self)@.len() == 0 ==> r == None::<T> && final(self)@ == old(self)@,
    {
        let r = self.items.pop_back();
        proof {
            if old(self)@.len() > 0 {
                assert(self.items@ =~= old(self)@.drop_last());
            }
        }
        r
    }

    /// Drops the last `n` remaining elements, then hands out the one before
    /// them.
    pub fn nth_back(&mut self, n: usize) -> (r: Option<T>)
        ensures
            n < old(self)@.len() ==> r == Some(old(self)@[old(self)@.len() - 1 - n])
                && final(self)@ == old(self)@.subrange(0, old(self)@.len() - 1 - n),
            n >= old(self)@.len() ==> r == None::<T> && final(self)@ == Seq::<T>::empty(),
    {
        let ghost len = old(self)@.len();
        let mut i: usize = 0;
        while i < n && self.items.len() > 0
            invariant
                i <= n,
                i <= len,
                len == old(self)@.len(),
                self@ == old(self)@.subrange(0, len - i),
            decreases n - i,
        {
            let _ = self.items.pop_back();
            i = i + 1;
        }
        self.next_back()
    }
}

} // verus!
