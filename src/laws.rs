//! Properties that hold across several operations, stated over the same
//! sequence models that the operations' contracts use.
use vstd::prelude::*;
use crate::array::{filtered, lemma_next_power_of_two, reserved_capacity};

verus! {

/// The sequence after pushing the elements of `xs` onto `s`, one at a time.
pub open spec fn pushed_all<T>(s: Seq<T>, xs: Seq<T>) -> Seq<T>
    decreases xs.len(),
{
    if xs.len() == 0 {
        s
    } else {
        pushed_all(s.push(xs[0]), xs.drop_first())
    }
}

/// The values that `n` pops from `s` return, in the order they come out.
pub open spec fn popped_values<T>(s: Seq<T>, n: nat) -> Seq<T>
    decreases n,
{
    if n == 0 || s.len() == 0 {
        Seq::empty()
    } else {
        seq![s.last()] + popped_values(s.drop_last(), (n - 1) as nat)
    }
}

/// What is left of `s` after `n` pops.
pub open spec fn after_pops<T>(s: Seq<T>, n: nat) -> Seq<T>
    decreases n,
{
    if n == 0 || s.len() == 0 {
        s
    } else {
        after_pops(s.drop_last(), (n - 1) as nat)
    }
}

proof fn lemma_pushed_all_appends<T>(s: Seq<T>, xs: Seq<T>)
    ensures
        pushed_all(s, xs) == s + xs,
    decreases xs.len(),
{
    if xs.len() > 0 {
        lemma_pushed_all_appends(s.push(xs[0]), xs.drop_first());
        assert(s.push(xs[0]) + xs.drop_first() =~= s + xs);
    }
}

proof fn lemma_pops_of_appended<T>(s: Seq<T>, xs: Seq<T>)
    ensures
        popped_values(s + xs, xs.len()) == xs.reverse(),
        after_pops(s + xs, xs.len()) == s,
    decreases xs.len(),
{
    if xs.len() == 0 {
        assert(s + xs =~= s);
        assert(xs.reverse() =~= Seq::<T>::empty());
    } else {
        let ys = xs.drop_last();
        lemma_pops_of_appended(s, ys);
        assert((s + xs).drop_last() =~= s + ys);
        assert((s + xs).last() == xs.last());
        assert(xs.reverse() =~= seq![xs.last()] + ys.reverse());
    }
}

/// Pushing the elements of `xs` and then popping as many times returns them
/// last to first, and leaves the sequence as it was before the pushes (empty,
/// when it started empty).
pub proof fn lemma_pops_reverse_pushes<T>(s: Seq<T>, xs: Seq<T>)
    ensures
        popped_values(pushed_all(s, xs), xs.len()) == xs.reverse(),
        after_pops(pushed_all(s, xs), xs.len()) == s,
{
    lemma_pushed_all_appends(s, xs);
    lemma_pops_of_appended(s, xs);
}

/// Removing the element at `idx` shortens the sequence by one and keeps the
/// other elements in their order: those before `idx` stay in place, those
/// after it move one position left.
pub proof fn lemma_remove_keeps_order<T>(s: Seq<T>, idx: int)
    requires
        0 <= idx < s.len(),
    ensures
        s.remove(idx).len() == s.len() - 1,
        forall|i: int| 0 <= i < idx ==> #[trigger] s.remove(idx)[i] == s[i],
        forall|i: int| idx <= i < s.len() - 1 ==> #[trigger] s.remove(idx)[i] == s[i + 1],
{
}

/// Moving the last element into position `idx` and dropping the last slot
/// shortens the sequence by one and removes exactly one copy of the element
/// at `idx` from its multiset.
pub proof fn lemma_swap_remove_multiset<T>(s: Seq<T>, idx: int)
    requires
        0 <= idx < s.len(),
    ensures
        s.update(idx, s.last()).drop_last().len() == s.len() - 1,
        s.update(idx, s.last()).drop_last().to_multiset() == s.to_multiset().remove(s[idx]),
{
    broadcast use vstd::seq_lib::lemma_multiset_commutative;
    broadcast use vstd::seq_lib::to_multiset_remove;

    let n = s.len();
    let t = s.update(idx, s.last()).drop_last();
    if idx == n - 1 {
        assert(t =~= s.remove(idx));
    } else {
        let a = s.subrange(0, idx);
        let b = s.subrange(idx + 1, n - 1);
        let x = seq![s.last()];
        assert(t =~= a + (x + b));
        assert(s.remove(idx) =~= a + (b + x));
        assert((x + b).to_multiset() =~= (b + x).to_multiset());
        assert(t.to_multiset() =~= a.to_multiset().add((x + b).to_multiset()));
        assert(s.remove(idx).to_multiset() =~= a.to_multiset().add((b + x).to_multiset()));
    }
    vstd::seq_lib::to_multiset_remove(s, idx);
}

/// Draining `start .. end` splits `s` into the removed run, in order, and the
/// rest with the tail closed up: nothing is lost, nothing is repeated.
pub proof fn lemma_drain_splits<T>(s: Seq<T>, start: int, end: int)
    requires
        0 <= start <= end <= s.len(),
    ensures
        ({
            let d = s.subrange(start, end);
            let rest = s.subrange(0, start) + s.subrange(end, s.len() as int);
            &&& d.len() == end - start
            &&& forall|i: int| 0 <= i < d.len() ==> #[trigger] d[i] == s[start + i]
            &&& rest.len() == s.len() - (end - start)
            &&& forall|i: int| 0 <= i < start ==> #[trigger] rest[i] == s[i]
            &&& forall|i: int| start <= i < rest.len() ==> #[trigger] rest[i] == s[i + (end - start)]
            &&& s == s.subrange(0, start) + d + s.subrange(end, s.len() as int)
        }),
{
    assert(s =~= s.subrange(0, start) + s.subrange(start, end) + s.subrange(end, s.len() as int));
}

/// The positions whose flag in `keep` is set, in increasing order.
pub open spec fn kept_positions(keep: Seq<bool>) -> Seq<int>
    decreases keep.len(),
{
    if keep.len() == 0 {
        Seq::empty()
    } else {
        let rest = kept_positions(keep.drop_last());
        if keep.last() {
            rest.push(keep.len() - 1)
        } else {
            rest
        }
    }
}

/// Filtering by `keep` yields the elements at the kept positions, in their
/// original order: positions increase, each kept position appears once, and
/// no dropped position appears.
pub proof fn lemma_retain_keeps_order<T>(s: Seq<T>, keep: Seq<bool>)
    requires
        keep.len() == s.len(),
    ensures
        ({
            let r = filtered(s, keep);
            let pos = kept_positions(keep);
            &&& r.len() == pos.len()
            &&& forall|j: int| 0 <= j < pos.len() ==> 0 <= #[trigger] pos[j] < s.len()
            &&& forall|j: int| 0 <= j < r.len() ==> #[trigger] r[j] == s[pos[j]]
            &&& forall|j: int, k: int| 0 <= j < k < pos.len() ==> pos[j] < pos[k]
            &&& forall|i: int|
                0 <= i < s.len() ==> (#[trigger] keep[i] <==> exists|j: int|
                    0 <= j < pos.len() && pos[j] == i)
        }),
    decreases s.len(),
{
    if s.len() > 0 {
        let n = s.len() - 1;
        let k0 = keep.drop_last();
        assert(keep.take(n) =~= k0);
        lemma_retain_keeps_order(s.drop_last(), k0);
        let rest = kept_positions(k0);
        let pos = kept_positions(keep);
        assert forall|i: int| 0 <= i < s.len() implies (#[trigger] keep[i] <==> exists|j: int|
            0 <= j < pos.len() && pos[j] == i) by {
            if i < n {
                assert(keep[i] == k0[i]);
                if keep[i] {
                    let j = choose|j: int| 0 <= j < rest.len() && rest[j] == i;
                    assert(pos[j] == i);
                }
            } else if keep[i] {
                assert(pos[pos.len() - 1] == i);
            }
        }
    }
}

/// Taking elements from the front one at a time, as `next` does.
pub open spec fn taken_from_front<T>(s: Seq<T>) -> Seq<T>
    decreases s.len(),
{
    if s.len() == 0 {
        Seq::empty()
    } else {
        seq![s[0]] + taken_from_front(s.drop_first())
    }
}

/// Taking elements from the back one at a time, as `next_back` does.
pub open spec fn taken_from_back<T>(s: Seq<T>) -> Seq<T>
    decreases s.len(),
{
    if s.len() == 0 {
        Seq::empty()
    } else {
        seq![s.last()] + taken_from_back(s.drop_last())
    }
}

/// Consuming an owning iterator from the front reproduces its sequence;
/// consuming it from the back reproduces the sequence reversed.
pub proof fn lemma_consumption_order<T>(s: Seq<T>)
    ensures
        taken_from_front(s) == s,
        taken_from_back(s) == s.reverse(),
    decreases s.len(),
{
    if s.len() == 0 {
        assert(s.reverse() =~= Seq::<T>::empty());
        assert(taken_from_front(s) =~= s);
    } else {
        lemma_consumption_order(s.drop_first());
        lemma_consumption_order(s.drop_last());
        assert(seq![s[0]] + s.drop_first() =~= s);
        assert(s.reverse() =~= seq![s.last()] + s.drop_last().reverse());
    }
}

/// Once room for `n` more elements is reserved, each of the next `n` pushes
/// finds a free slot: the capacity stays where the reservation left it.
pub proof fn lemma_reserve_then_pushes_fit(cap: nat, len: nat, n: nat)
    requires
        len <= cap,
    ensures
        forall|k: nat|
            k < n ==> #[trigger] reserved_capacity(reserved_capacity(cap, len + n), len + k + 1)
                == reserved_capacity(cap, len + n),
{
    lemma_next_power_of_two(len + n);
}

} // verus!
