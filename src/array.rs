use vstd::prelude::*;
use crate::drain::Drain;
use crate::iter::IntoIter;

verus! {

/// True when `n` is a power of two.
pub open spec fn is_power_of_two(n: nat) -> bool
    decreases n,
{
    if n == 1 {
        true
    } else if n >= 2 && n % 2 == 0 {
        is_power_of_two(n / 2)
    } else {
        false
    }
}

/// Doubling `p` until it reaches at least `n`.
pub open spec fn power_of_two_from(n: nat, p: nat) -> nat
    decreases (if p >= n { 0 } else { n - p }) when p > 0
{
    if p >= n {
        p
    } else {
        power_of_two_from(n, 2 * p)
    }
}

/// The smallest power of two that is at least `n` (1 for 0).
pub open spec fn next_power_of_two(n: nat) -> nat {
    power_of_two_from(n, 1)
}

/// The capacity after making room for `needed` elements in a buffer of
/// capacity `cap`: unchanged when it already suffices, else grown to the next
/// power of two.
pub open spec fn reserved_capacity(cap: nat, needed: nat) -> nat {
    if needed <= cap {
        cap
    } else {
        next_power_of_two(needed)
    }
}

proof fn lemma_power_of_two_from(n: nat, p: nat)
    requires
        p > 0,
    ensures
        power_of_two_from(n, p) >= n,
        power_of_two_from(n, p) >= p,
        is_power_of_two(p) ==> is_power_of_two(power_of_two_from(n, p)),
        p < 2 * n ==> power_of_two_from(n, p) < 2 * n,
    decreases (if p >= n { 0 } else { n - p }),
{
    if p < n {
        assert(is_power_of_two(p) ==> is_power_of_two(2 * p)) by {
            assert((2 * p) / 2 == p);
        }
        lemma_power_of_two_from(n, 2 * p);
    }
}

/// The next power of two is a power of two, at least `n`, and below `2 * n`
/// for positive `n`.
pub proof fn lemma_next_power_of_two(n: nat)
    ensures
        next_power_of_two(n) >= n,
        n >= 1 ==> next_power_of_two(n) < 2 * n,
        next_power_of_two(n) >= 1,
        is_power_of_two(next_power_of_two(n)),
{
    lemma_power_of_two_from(n, 1);
}

/// The smallest power of two that is at least `n`.
fn next_pow2(n: usize) -> (r: usize)
    requires
        next_power_of_two(n as nat) <= usize::MAX,
    ensures
        r as nat == next_power_of_two(n as nat),
{
    let mut p: usize = 1;
    while p < n
        invariant
            p >= 1,
            power_of_two_from(n as nat, p as nat) == next_power_of_two(n as nat),
            next_power_of_two(n as nat) <= usize::MAX,
        decreases (if p >= n { 0 } else { n - p }),
    {
        proof {
            lemma_power_of_two_from(n as nat, 2 * p as nat);
        }
        p = p * 2;
    }
    p
}

/// Relies on `Vec::reserve_exact`: it makes room for `additional` more
/// elements and leaves the elements as they were.
#[verifier::external_body]
fn vec_reserve_exact<T>(v: &mut Vec<T>, additional: usize)
    requires
        old(v)@.len() + additional <= usize::MAX,
        (old(v)@.len() + additional) * vstd::layout::size_of::<T>() <= isize::MAX,
    ensures
        final(v)@ == old(v)@,
{
    v.reserve_exact(additional)
}

/// Relies on `Vec::shrink_to_fit`: it releases spare room and leaves the
/// elements as they were.
#[verifier::external_body]
fn vec_shrink_to_fit<T>(v: &mut Vec<T>)
    ensures
        final(v)@ == old(v)@,
{
    v.shrink_to_fit()
}

/// Relies on `<[T]>::swap`: it exchanges the elements at `a` and `b`.
#[verifier::external_body]
fn vec_swap<T>(v: &mut Vec<T>, a: usize, b: usize)
    requires
        a < old(v)@.len(),
        b < old(v)@.len(),
    ensures
        final(v)@ == old(v)@.update(a as int, old(v)@[b as int]).update(b as int, old(v)@[a as int]),
{
    v.swap(a, b)
}

/// The elements of `s` whose flag in `keep` is set, in their order in `s`.
pub open spec fn filtered<T>(s: Seq<T>, keep: Seq<bool>) -> Seq<T>
    decreases s.len(),
{
    if s.len() == 0 {
        Seq::empty()
    } else {
        let rest = filtered(s.drop_last(), keep.take(s.len() - 1));
        if keep[s.len() - 1] {
            rest.push(s.last())
        } else {
            rest
        }
    }
}

/// A growable array. The elements live in `data`; `cap` is the capacity of
/// the buffer that the array owns, which only the growth rules of this type
/// change.
pub struct Array<T> {
    data: Vec<T>,
    cap: usize,
}

impl<T> View for Array<T> {
    type V = Seq<T>;

    closed spec fn view(&self) -> Seq<T> {
        self.data@
    }
}

impl<T> Array<T> {
    /// The capacity of the buffer, in elements.
    pub closed spec fn spec_capacity(&self) -> nat {
        self.cap as nat
    }

    /// Well-formedness: the live elements fit in the buffer; a zero-size
    /// element type has unbounded capacity; a buffer of sized elements spans
    /// no more than `isize::MAX` bytes.
    pub closed spec fn wf(&self) -> bool {
        &&& self.data@.len() <= self.cap
        &&& vstd::layout::size_of::<T>() == 0 ==> self.cap == usize::MAX
        &&& vstd::layout::size_of::<T>() > 0 ==> self.cap * vstd::layout::size_of::<T>()
            <= isize::MAX
    }

    /// Room for `additional` more elements can be made: the new length fits
    /// in `usize`, and a buffer grown to the next power of two spans no more
    /// than `isize::MAX` bytes.
    pub open spec fn can_reserve(&self, additional: nat) -> bool {
        let needed = self@.len() + additional;
        &&& needed <= usize::MAX
        &&& needed > self.spec_capacity() ==> next_power_of_two(needed)
            * vstd::layout::size_of::<T>() <= isize::MAX
    }

    /// An empty array. A zero-size element type gets unbounded capacity, any
    /// other type an unallocated buffer.
    pub fn new() -> (r: Self)
        ensures
            r.wf(),
            r@ == Seq::<T>::empty(),
            r.spec_capacity() == (if vstd::layout::size_of::<T>() == 0 {
                usize::MAX as nat
            } else {
                0
            }),
    {
        let cap: usize = if core::mem::size_of::<T>() == 0 {
            usize::MAX
        } else {
            0
        };
        let r = Array { data: Vec::new(), cap };
        assert(r.data@.len() <= r.cap);
        r
    }

    /// With a zero-size element type the capacity is unbounded: room for any
    /// number of further elements that keeps the length within `usize` is
    /// already there, so pushes never grow, that is never allocate.
    pub proof fn lemma_zero_size_never_allocates(&self)
        requires
            self.wf(),
            vstd::layout::size_of::<T>() == 0,
        ensures
            self.spec_capacity() == usize::MAX,
            forall|n: nat|
                self@.len() + n <= usize::MAX ==> #[trigger] self.can_reserve(n)
                    && reserved_capacity(self.spec_capacity(), (self@.len() + n) as nat)
                    == self.spec_capacity(),
    {
    }

    /// Grows the buffer to exactly `new_cap` elements.
    fn grow_to_cap(&mut self, new_cap: usize)
        requires
            old(self).wf(),
            old(self).cap < new_cap,
            vstd::layout::size_of::<T>() > 0,
            new_cap * vstd::layout::size_of::<T>() <= isize::MAX,
        ensures
            final(self).wf(),
            final(self)@ == old(self)@,
            final(self).cap == new_cap,
    {
        let additional = new_cap - self.data.len();
        vec_reserve_exact(&mut self.data, additional);
        self.cap = new_cap;
    }

    /// Makes room for at least `additional` more elements. Nothing changes
    /// when the capacity already suffices; otherwise the buffer grows to the
    /// next power of two at or above the needed length.
    pub fn reserve(&mut self, additional: usize)
        requires
            old(self).wf(),
            old(self).can_reserve(additional as nat),
        ensures
            final(self).wf(),
            final(self)@ == old(self)@,
            final(self).spec_capacity() == reserved_capacity(
                old(self).spec_capacity(),
                (old(self)@.len() + additional) as nat,
            ),
            final(self).spec_capacity() >= (old(self)@.len() + additional) as nat,
            final(self).spec_capacity() != old(self).spec_capacity() ==> is_power_of_two(
                final(self).spec_capacity(),
            ),
    {
        let needed = self.data.len() + additional;
        proof {
            lemma_next_power_of_two(needed as nat);
        }
        if needed <= self.cap {
            return;
        }
        proof {
            let k = next_power_of_two(needed as nat);
            let z = vstd::layout::size_of::<T>();
            assert(k <= k * z) by (nonlinear_arith)
                requires
                    z > 0,
            ;
        }
        let new_cap = next_pow2(needed);
        self.grow_to_cap(new_cap);
    }

    /// Appends `value` at the end, growing the buffer when it is full.
    pub fn push(&mut self, value: T)
        requires
            old(self).wf(),
            old(self).can_reserve(1),
        ensures
            final(self).wf(),
            final(self)@ == old(self)@.push(value),
            final(self).spec_capacity() == reserved_capacity(
                old(self).spec_capacity(),
                (old(self)@.len() + 1) as nat,
            ),
    {
        self.reserve(1);
        self.push_within_capacity_unchecked(value);
    }

    /// Appends `value` if the buffer has a free slot; otherwise hands it
    /// back. Never allocates.
    pub fn push_within_capacity(&mut self, value: T) -> (r: Result<(), T>)
        requires
            old(self).wf(),
        ensures
            final(self).wf(),
            final(self).spec_capacity() == old(self).spec_capacity(),
            old(self)@.len() < old(self).spec_capacity() ==> r == Ok::<(), T>(()) && final(self)@
                == old(self)@.push(value),
            old(self)@.len() >= old(self).spec_capacity() ==> r == Err::<(), T>(value)
                && final(self)@ == old(self)@,
    {
        if self.data.len() == self.cap {
            return Err(value);
        }
        self.push_within_capacity_unchecked(value);
        Ok(())
    }

    /// Appends `value` into a free slot of the buffer, which must exist.
    pub fn push_within_capacity_unchecked(&mut self, value: T)
        requires
            old(self).wf(),
            old(self)@.len() < old(self).spec_capacity(),
        ensures
            final(self).wf(),
            final(self)@ == old(self)@.push(value),
            final(self).spec_capacity() == old(self).spec_capacity(),
    {
        self.data.push(value);
    }

    /// Removes and returns the last element, or `None` when empty.
    pub fn pop(&mut self) -> (r: Option<T>)
        requires
            old(self).wf(),
        ensures
            final(self).wf(),
            final(self).spec_capacity() == old(self).spec_capacity(),
            old(self)@.len() > 0 ==> r == Some(old(self)@.last()) && final(self)@ == old(
                self,
            )@.drop_last(),
            old(self)@.len() == 0 ==> r == None::<T> && final(self)@ == old(self)@,
    {
        if self.is_empty() {
            return None;
        }
        Some(self.pop_unchecked())
    }

    /// Removes and returns the last element of a non-empty array.
    pub fn pop_unchecked(&mut self) -> (r: T)
        requires
            old(self).wf(),
            old(self)@.len() > 0,
        ensures
            final(self).wf(),
            final(self).spec_capacity() == old(self).spec_capacity(),
            r == old(self)@.last(),
            final(self)@ == old(self)@.drop_last(),
    {
        self.data.pop().unwrap()
    }

    /// Removes and returns the element at `idx`, shifting the later elements
    /// left by one; `None` when `idx` is out of range.
    pub fn remove(&mut self, idx: usize) -> (r: Option<T>)
        requires
            old(self).wf(),
        ensures
            final(self).wf(),
            final(self).spec_capacity() == old(self).spec_capacity(),
            idx < old(self)@.len() ==> r == Some(old(self)@[idx as int]) && final(self)@ == old(
                self,
            )@.remove(idx as int),
            idx >= old(self)@.len() ==> r == None::<T> && final(self)@ == old(self)@,
    {
        if idx >= self.data.len() {
            return None;
        }
        Some(self.data.remove(idx))
    }

    /// Inserts `value` at `idx`, shifting the elements from `idx` on right by
    /// one; hands `value` back when `idx` is past the end.
    pub fn insert(&mut self, idx: usize, value: T) -> (r: Result<(), T>)
        requires
            old(self).wf(),
            idx <= old(self)@.len() ==> old(self).can_reserve(1),
        ensures
            final(self).wf(),
            idx <= old(self)@.len() ==> r == Ok::<(), T>(()) && final(self)@ == old(self)@.insert(
                idx as int,
                value,
            ) && final(self).spec_capacity() == reserved_capacity(
                old(self).spec_capacity(),
                (old(self)@.len() + 1) as nat,
            ),
            idx > old(self)@.len() ==> r == Err::<(), T>(value) && final(self)@ == old(self)@
                && final(self).spec_capacity() == old(self).spec_capacity(),
    {
        if idx > self.data.len() {
            return Err(value);
        }
        self.reserve(1);
        self.data.insert(idx, value);
        Ok(())
    }

    /// Exchanges the elements at `a` and `b`; both must be in range.
    pub fn swap(&mut self, a: usize, b: usize)
        requires
            old(self).wf(),
            a < old(self)@.len(),
            b < old(self)@.len(),
        ensures
            final(self).wf(),
            final(self).spec_capacity() == old(self).spec_capacity(),
            final(self)@ == old(self)@.update(a as int, old(self)@[b as int]).update(
                b as int,
                old(self)@[a as int],
            ),
    {
        vec_swap(&mut self.data, a, b);
    }

    /// Removes and returns the element at `idx` in constant time by moving
    /// the last element into its place; `None` when `idx` is out of range.
    pub fn swap_remove(&mut self, idx: usize) -> (r: Option<T>)
        requires
            old(self).wf(),
        ensures
            final(self).wf(),
            final(self).spec_capacity() == old(self).spec_capacity(),
            idx < old(self)@.len() ==> r == Some(old(self)@[idx as int]) && final(self)@ == old(
                self,
            )@.update(idx as int, old(self)@.last()).drop_last(),
            idx >= old(self)@.len() ==> r == None::<T> && final(self)@ == old(self)@,
    {
        if idx >= self.data.len() {
            return None;
        }
        Some(self.data.swap_remove(idx))
    }

    /// Releases the unused part of the buffer, so that the capacity equals
    /// the length. A zero-size element type keeps its unbounded capacity.
    pub fn shrink_to_fit(&mut self)
        requires
            old(self).wf(),
        ensures
            final(self).wf(),
            final(self)@ == old(self)@,
            final(self).spec_capacity() == (if vstd::layout::size_of::<T>() == 0 {
                old(self).spec_capacity()
            } else {
                old(self)@.len()
            }),
    {
        if core::mem::size_of::<T>() == 0 {
            return;
        }
        if self.data.len() == self.cap {
            return;
        }
        vec_shrink_to_fit(&mut self.data);
        self.cap = self.data.len();
        proof {
            let z = vstd::layout::size_of::<T>();
            let (l, c) = (self.cap as int, old(self).cap as int);
            assert(l * z <= c * z) by (nonlinear_arith)
                requires
                    l <= c,
                    z > 0,
            ;
        }
    }

    /// The live elements, in order.
    pub fn as_slice(&self) -> (r: &[T])
        ensures
            r@ == self@,
    {
        self.data.as_slice()
    }

    /// The element at `idx`, for changing in place.
    pub fn get_mut(&mut self, idx: usize) -> (r: &mut T)
        requires
            old(self).wf(),
            idx < old(self)@.len(),
        ensures
            *r == old(self)@[idx as int],
            final(self)@ == old(self)@.update(idx as int, *final(r)),
            final(self).spec_capacity() == old(self).spec_capacity(),
            final(self).wf(),
    {
        &mut self.data[idx]
    }

    /// Keeps the elements for which `pred` holds, in their order, and drops
    /// the others. The flags `pred` returned are those of `keep`.
    pub fn retain<F: Fn(&T) -> bool>(&mut self, pred: F)
        requires
            old(self).wf(),
            forall|x: &T| pred.requires((x,)),
        ensures
            final(self).wf(),
            final(self).spec_capacity() == old(self).spec_capacity(),
            exists|keep: Seq<bool>|
                {
                    &&& keep.len() == old(self)@.len()
                    &&& forall|i: int|
                        0 <= i < keep.len() ==> pred.ensures((&old(self)@[i],), #[trigger] keep[i])
                    &&& final(self)@ == filtered(old(self)@, keep)
                },
    {
        let ghost orig = self.data@;
        let ghost mut keep: Seq<bool> = Seq::empty();
        let n = self.data.len();
        let mut write: usize = 0;
        let mut read: usize = 0;
        while read < n
            invariant
                self.wf(),
                self.cap == old(self).cap,
                orig == old(self)@,
                n == orig.len(),
                write <= read <= n,
                self.data@.len() == n,
                keep.len() == read,
                forall|i: int| 0 <= i < read ==> pred.ensures((&orig[i],), #[trigger] keep[i]),
                forall|x: &T| pred.requires((x,)),
                self.data@.subrange(0, write as int) == filtered(orig.take(read as int), keep),
                self.data@.subrange(read as int, n as int) == orig.subrange(read as int, n as int),
            decreases n - read,
        {
            assert(self.data@[read as int] == orig[read as int]) by {
                assert(self.data@.subrange(read as int, n as int)[0] == orig.subrange(
                    read as int,
                    n as int,
                )[0]);
            }
            let k = pred(&self.data[read]);
            let ghost prev = self.data@;
            let ghost keep1 = keep.push(k);
            assert(orig.take(read + 1).drop_last() =~= orig.take(read as int));
            assert(keep1.take(read as int) =~= keep);
            if k {
                if write != read {
                    vec_swap(&mut self.data, write, read);
                }
                assert(self.data@.subrange(0, write + 1) =~= prev.subrange(0, write as int).push(
                    orig[read as int],
                ));
                write = write + 1;
            }
            assert(self.data@.subrange(read + 1, n as int) =~= orig.subrange(read + 1, n as int)) by {
                assert forall|j: int| read + 1 <= j < n implies self.data@[j] == prev[j] by {}
                assert(forall|j: int|
                    read < j < n ==> #[trigger] prev[j] == prev.subrange(read as int, n as int)[j
                        - read]);
            }
            proof {
                keep = keep1;
            }
            read = read + 1;
        }
        assert(orig.take(n as int) =~= orig);
        self.data.truncate(write);
        assert(self.data@ =~= filtered(orig, keep));
    }

    /// Appends the elements of `values` in order; the capacity ends where
    /// pushing them one by one would leave it.
    pub fn extend(&mut self, values: Vec<T>)
        requires
            old(self).wf(),
            old(self).can_reserve(values@.len()),
        ensures
            final(self).wf(),
            final(self)@ == old(self)@ + values@,
            final(self).spec_capacity() == reserved_capacity(
                old(self).spec_capacity(),
                old(self)@.len() + values@.len(),
            ),
    {
        let mut values = values;
        self.reserve(values.len());
        self.data.append(&mut values);
    }

    /// An array holding the elements of `values`, in order.
    pub fn from_iter(values: Vec<T>) -> (r: Self)
        requires
            values@.len() > 0 ==> next_power_of_two(values@.len()) * vstd::layout::size_of::<T>()
                <= isize::MAX,
        ensures
            r.wf(),
            r@ == values@,
    {
        let mut r = Array::new();
        let n = values.len();
        assert(r@.len() + n == values@.len());
        r.extend(values);
        assert(r@ =~= values@);
        r
    }

    /// Turns the array into an iterator over its elements, first to last.
    pub fn into_iter(self) -> (r: IntoIter<T>)
        ensures
            r@ == self@,
    {
        IntoIter::from_vec(self.data)
    }

    /// Removes the elements at positions `range.start .. range.end` and hands
    /// them out, in order, through the returned iterator. The later elements
    /// close the gap at once, whatever becomes of the iterator.
    pub fn drain(&mut self, range: core::ops::Range<usize>) -> (d: Drain<T>)
        requires
            old(self).wf(),
            range.start <= range.end,
            range.end <= old(self)@.len(),
        ensures
            final(self).wf(),
            final(self).spec_capacity() == old(self).spec_capacity(),
            d@ == old(self)@.subrange(range.start as int, range.end as int),
            final(self)@ == old(self)@.subrange(0, range.start as int) + old(self)@.subrange(
                range.end as int,
                old(self)@.len() as int,
            ),
    {
        let mut tail = self.data.split_off(range.end);
        let removed = self.data.split_off(range.start);
        self.data.append(&mut tail);
        Drain::from_vec(removed)
    }

    pub fn len(&self) -> (r: usize)
        ensures
            r == self@.len(),
    {
        self.data.len()
    }

    pub fn is_empty(&self) -> (r: bool)
        ensures
            r == (self@.len() == 0),
    {
        self.len() == 0
    }

    /// The number of elements the buffer holds without growing.
    pub fn capacity(&self) -> (r: usize)
        ensures
            r == self.spec_capacity(),
    {
        self.cap
    }
}

impl<T> core::ops::Deref for Array<T> {
    type Target = [T];

    /// The live elements, in order, as a slice.
    fn deref(&self) -> &[T] {
        self.data.as_slice()
    }
}

impl<T> Default for Array<T> {
    /// An empty array, as `new` gives.
    fn default() -> (r: Self)
        ensures
            r.wf(),
            r@ == Seq::<T>::empty(),
    {
        Self::new()
    }
}

} // verus!
