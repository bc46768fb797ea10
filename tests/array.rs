use structures::array::Array;

fn from_range(lo: u64, hi: u64) -> Array<u64> {
    let mut a = Array::new();
    for i in lo..hi {
        a.push(i);
    }
    a
}

#[test]
fn drain_front_of_twenty() {
    let mut a = from_range(0, 20);
    let mut d = a.drain(0..5);
    let mut got = Vec::new();
    while let Some(v) = d.next() {
        got.push(v);
    }
    assert_eq!(got, vec![0, 1, 2, 3, 4]);
    assert_eq!(a.as_slice(), (5..20).collect::<Vec<u64>>().as_slice());
}

#[test]
fn collect_then_pop() {
    let mut a = Array::from_iter((0..20u64).collect());
    assert_eq!(a.pop(), Some(19));
    assert_eq!(a.len(), 19);
    assert_eq!(a.as_slice()[18], 18);
}

#[test]
fn swap_remove_second() {
    let mut a = Array::from_iter(vec![10, 20, 30, 40]);
    assert_eq!(a.swap_remove(1), Some(20));
    assert_eq!(a.as_slice(), &[10, 40, 30]);
}

#[test]
fn insert_front_and_end() {
    let mut a = Array::from_iter(vec![1, 2, 3]);
    assert_eq!(a.insert(0, 9), Ok(()));
    assert_eq!(a.as_slice(), &[9, 1, 2, 3]);
    let mut b = Array::from_iter(vec![1, 2, 3]);
    assert_eq!(b.insert(3, 9), Ok(()));
    assert_eq!(b.as_slice(), &[1, 2, 3, 9]);
}

#[test]
fn insert_past_end_hands_value_back() {
    let mut a = Array::from_iter(vec![1, 2, 3]);
    assert_eq!(a.insert(4, 9), Err(9));
    assert_eq!(a.as_slice(), &[1, 2, 3]);
}

#[test]
fn retain_even() {
    let mut a = Array::from_iter(vec![1, 2, 3, 4, 5, 6]);
    a.retain(|v| v % 2 == 0);
    assert_eq!(a.as_slice(), &[2, 4, 6]);
}

#[test]
fn retain_none_and_all() {
    let mut a = Array::from_iter(vec![1, 3, 5]);
    a.retain(|v| v % 2 == 0);
    assert!(a.is_empty());
    let mut b = Array::from_iter(vec![2, 4]);
    b.retain(|v| v % 2 == 0);
    assert_eq!(b.as_slice(), &[2, 4]);
}

#[test]
fn pops_reverse_pushes() {
    let mut a = Array::new();
    for i in 0..10u64 {
        a.push(i * 3);
    }
    let mut got = Vec::new();
    for _ in 0..10 {
        got.push(a.pop().unwrap());
    }
    assert_eq!(got, vec![27, 24, 21, 18, 15, 12, 9, 6, 3, 0]);
    assert!(a.is_empty());
    assert_eq!(a.pop(), None);
}

#[test]
fn remove_keeps_order() {
    let mut a = Array::from_iter(vec![5, 6, 7, 8, 9]);
    assert_eq!(a.remove(1), Some(6));
    assert_eq!(a.len(), 4);
    assert_eq!(a.as_slice(), &[5, 7, 8, 9]);
    assert_eq!(a.remove(4), None);
    assert_eq!(a.remove(3), Some(9));
    assert_eq!(a.as_slice(), &[5, 7, 8]);
}

#[test]
fn swap_remove_last_and_out_of_range() {
    let mut a = Array::from_iter(vec![1, 2, 3]);
    assert_eq!(a.swap_remove(3), None);
    assert_eq!(a.swap_remove(2), Some(3));
    assert_eq!(a.as_slice(), &[1, 2]);
    let mut m: Vec<u64> = a.as_slice().to_vec();
    m.sort();
    assert_eq!(m, vec![1, 2]);
}

#[test]
fn drain_middle_partly_consumed() {
    let mut a = from_range(0, 10);
    let mut d = a.drain(3..7);
    assert_eq!(d.len(), 4);
    assert_eq!(d.next(), Some(3));
    drop(d);
    assert_eq!(a.as_slice(), &[0, 1, 2, 7, 8, 9]);
}

#[test]
fn drain_unconsumed_and_empty_and_full() {
    let mut a = from_range(0, 6);
    let d = a.drain(2..4);
    drop(d);
    assert_eq!(a.as_slice(), &[0, 1, 4, 5]);
    let mut e = a.drain(4..4);
    assert_eq!(e.next(), None);
    drop(e);
    assert_eq!(a.as_slice(), &[0, 1, 4, 5]);
    let mut f = a.drain(0..4);
    assert_eq!(f.len(), 4);
    assert_eq!(f.next_back(), Some(5));
    drop(f);
    assert!(a.is_empty());
}

#[test]
fn drain_backward_consumption() {
    let mut a = from_range(0, 10);
    let mut d = a.drain(2..6);
    assert_eq!(d.next_back(), Some(5));
    assert_eq!(d.next_back(), Some(4));
    assert_eq!(d.next(), Some(2));
    assert_eq!(d.next_back(), Some(3));
    assert_eq!(d.next_back(), None);
    assert_eq!(d.next(), None);
    drop(d);
    assert_eq!(a.as_slice(), &[0, 1, 6, 7, 8, 9]);
}

#[test]
fn drain_nth_skips() {
    let mut a = from_range(0, 10);
    let mut d = a.drain(1..9);
    assert_eq!(d.nth(2), Some(3));
    assert_eq!(d.nth_back(1), Some(7));
    assert_eq!(d.len(), 3);
    assert_eq!(d.nth(5), None);
    assert_eq!(d.len(), 0);
    drop(d);
    assert_eq!(a.as_slice(), &[0, 9]);
}

#[test]
fn into_iter_forward_and_back() {
    let input = vec![4u64, 8, 15, 16, 23, 42];
    let mut it = Array::from_iter(input.clone()).into_iter();
    let mut got = Vec::new();
    while let Some(v) = it.next() {
        got.push(v);
    }
    assert_eq!(got, input);
    let mut it = Array::from_iter(input.clone()).into_iter();
    let mut back = Vec::new();
    while let Some(v) = it.next_back() {
        back.push(v);
    }
    let mut rev = input.clone();
    rev.reverse();
    assert_eq!(back, rev);
}

#[test]
fn into_iter_nth_and_nth_back() {
    let mut it = Array::from_iter(vec![0u64, 1, 2, 3, 4, 5, 6]).into_iter();
    assert_eq!(it.nth(1), Some(1));
    assert_eq!(it.nth_back(1), Some(5));
    assert_eq!(it.len(), 3);
    assert_eq!(it.next_back(), Some(4));
    assert_eq!(it.nth_back(10), None);
    assert_eq!(it.len(), 0);
    assert_eq!(it.next(), None);
}

#[test]
fn zero_size_pushes_and_pops() {
    let mut a: Array<()> = Array::new();
    assert_eq!(a.capacity(), usize::MAX);
    for _ in 0..1000 {
        a.push(());
    }
    assert_eq!(a.len(), 1000);
    assert_eq!(a.capacity(), usize::MAX);
    for _ in 0..400 {
        assert_eq!(a.pop(), Some(()));
    }
    assert_eq!(a.len(), 600);
    a.shrink_to_fit();
    assert_eq!(a.capacity(), usize::MAX);
    assert_eq!(a.push_within_capacity(()), Ok(()));
}

#[test]
fn growth_is_power_of_two() {
    let mut a: Array<u32> = Array::new();
    assert_eq!(a.capacity(), 0);
    a.push(1);
    assert_eq!(a.capacity(), 1);
    a.push(2);
    assert_eq!(a.capacity(), 2);
    a.push(3);
    assert_eq!(a.capacity(), 4);
    a.push(4);
    a.push(5);
    assert_eq!(a.capacity(), 8);
    a.reserve(10);
    assert_eq!(a.capacity(), 16);
    a.reserve(3);
    assert_eq!(a.capacity(), 16);
}

#[test]
fn reserve_then_pushes_keep_capacity() {
    let mut a: Array<u64> = Array::from_iter(vec![1, 2, 3]);
    a.reserve(13);
    let cap = a.capacity();
    assert_eq!(cap, 16);
    for i in 0..13u64 {
        a.push(i);
        assert_eq!(a.capacity(), cap);
    }
    assert_eq!(a.len(), 16);
}

#[test]
fn push_within_capacity_full_and_free() {
    let mut a: Array<u8> = Array::new();
    assert_eq!(a.push_within_capacity(7), Err(7));
    assert!(a.is_empty());
    a.reserve(2);
    assert_eq!(a.push_within_capacity(7), Ok(()));
    assert_eq!(a.push_within_capacity(8), Ok(()));
    assert_eq!(a.push_within_capacity(9), Err(9));
    assert_eq!(a.as_slice(), &[7, 8]);
}

#[test]
fn shrink_to_fit_sets_capacity_to_length() {
    let mut a = from_range(0, 5);
    assert_eq!(a.capacity(), 8);
    a.shrink_to_fit();
    assert_eq!(a.capacity(), 5);
    assert_eq!(a.as_slice(), &[0, 1, 2, 3, 4]);
    a.push(5);
    assert_eq!(a.capacity(), 8);
}

#[test]
fn swap_exchanges() {
    let mut a = Array::from_iter(vec![1, 2, 3, 4]);
    a.swap(0, 3);
    assert_eq!(a.as_slice(), &[4, 2, 3, 1]);
    a.swap(2, 2);
    assert_eq!(a.as_slice(), &[4, 2, 3, 1]);
}

#[test]
fn get_mut_changes_one_element() {
    let mut a = Array::from_iter(vec![1, 2, 3]);
    *a.get_mut(1) += 40;
    assert_eq!(a.as_slice(), &[1, 42, 3]);
}

#[test]
fn extend_appends_in_order() {
    let mut a = Array::from_iter(vec![1, 2]);
    a.extend(vec![3, 4, 5]);
    assert_eq!(a.as_slice(), &[1, 2, 3, 4, 5]);
    assert_eq!(a.capacity(), 8);
    let d: Array<u8> = Array::default();
    assert!(d.is_empty());
}

#[test]
fn pop_unchecked_and_push_unchecked() {
    let mut a: Array<u16> = Array::new();
    a.reserve(1);
    a.push_within_capacity_unchecked(5);
    assert_eq!(a.pop_unchecked(), 5);
    assert!(a.is_empty());
}

#[test]
fn owned_strings_move_through() {
    let mut a = Array::new();
    a.push(String::from("a"));
    a.push(String::from("b"));
    a.push(String::from("c"));
    let mut d = a.drain(0..2);
    assert_eq!(d.next_back(), Some(String::from("b")));
    drop(d);
    assert_eq!(a.as_slice(), &[String::from("c")]);
}

#[test]
fn borrowed_iteration_in_order() {
    let a = Array::from_iter(vec![3u64, 1, 4, 1, 5]);
    let seen: Vec<u64> = a.iter().copied().collect();
    assert_eq!(seen, vec![3, 1, 4, 1, 5]);
    assert_eq!(a[2], 4);
    assert_eq!(format!("{:?}", &*a), "[3, 1, 4, 1, 5]");
}
