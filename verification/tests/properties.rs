use fixedvec::FixedVec;
use std::collections::hash_map::DefaultHasher;
use std::hash::{Hash, Hasher};

fn digest<T: Hash + ?Sized>(value: &T) -> u64 {
    let mut hasher = DefaultHasher::new();
    value.hash(&mut hasher);
    hasher.finish()
}

#[test]
fn length_never_exceeds_capacity() {
    let mut space = [0u16; 3];
    let mut vec = FixedVec::new(&mut space);
    assert!(vec.len() <= vec.capacity());
    for i in 0..5u16 {
        let _ = vec.push(i);
        assert!(vec.len() <= vec.capacity());
    }
    let _ = vec.insert(1, 9);
    assert!(vec.len() <= vec.capacity());
    vec.remove(0);
    assert!(vec.len() <= vec.capacity());
    vec.extend(0..100);
    assert!(vec.len() <= vec.capacity());
    let _ = vec.push_all(&[1, 2, 3, 4]);
    assert!(vec.len() <= vec.capacity());
    vec.resize(3, 0);
    assert_eq!(vec.len(), vec.capacity());
    vec.retain(|&x| x > 0);
    vec.dedup();
    assert!(vec.len() <= vec.capacity());
}

#[test]
fn push_then_pop_round_trip() {
    let mut space = [0i32; 4];
    let mut vec = FixedVec::new(&mut space);
    vec.push_all(&[10, 20]).unwrap();
    let before = vec.len();
    vec.push(-7).unwrap();
    assert_eq!(vec.pop(), Some(-7));
    assert_eq!(vec.len(), before);
    assert_eq!(vec.as_slice(), &[10, 20]);
}

#[test]
fn push_all_without_room_changes_nothing() {
    let mut space = [0u8; 4];
    let mut vec = FixedVec::new(&mut space);
    vec.push_all(&[1, 2]).unwrap();
    assert!(vec.available() < 3);
    assert!(vec.push_all(&[7, 8, 9]).is_err());
    assert_eq!(vec.as_slice(), &[1, 2]);
    assert_eq!(vec.len(), 2);
}

#[test]
fn insert_in_the_middle_at_the_end_and_when_full() {
    let mut space = [0u8; 5];
    let mut vec = FixedVec::new(&mut space);
    vec.push_all(&[1, 2, 3]).unwrap();
    vec.insert(1, 42).unwrap();
    assert_eq!(vec.as_slice(), &[1, 42, 2, 3]);
    let end = vec.len();
    assert!(vec.insert(end, 43).is_ok());
    assert_eq!(vec.as_slice(), &[1, 42, 2, 3, 43]);
    assert_eq!(vec.available(), 0);
    assert!(vec.insert(0, 44).is_err());
    assert_eq!(vec.as_slice(), &[1, 42, 2, 3, 43]);
}

#[test]
fn remove_twice_at_the_same_index() {
    let mut space = [0u8; 3];
    let mut vec = FixedVec::new(&mut space);
    vec.push_all(&[1, 2, 3]).unwrap();
    assert_eq!(vec.remove(1), 2);
    assert_eq!(vec.as_slice(), &[1, 3]);
    assert_eq!(vec.remove(1), 3);
    assert_eq!(vec.as_slice(), &[1]);
}

#[test]
fn swap_remove_does_not_keep_order() {
    let mut space = [0u8; 4];
    let mut vec = FixedVec::new(&mut space);
    vec.push_all(&[0, 1, 2, 3]).unwrap();
    assert_eq!(vec.swap_remove(1), 1);
    assert_eq!(vec.as_slice(), &[0, 3, 2]);
    assert_eq!(vec.len(), 3);
}

#[test]
fn retain_even_numbers() {
    let mut space = [0u8; 4];
    let mut vec = FixedVec::new(&mut space);
    vec.push_all(&[1, 2, 3, 4]).unwrap();
    vec.retain(|x| x % 2 == 0);
    assert_eq!(vec.as_slice(), &[2, 4]);
}

#[test]
fn dedup_keeps_later_repeats() {
    let mut space = [0u8; 5];
    let mut vec = FixedVec::new(&mut space);
    vec.push_all(&[1, 2, 2, 3, 2]).unwrap();
    vec.dedup();
    assert_eq!(vec.as_slice(), &[1, 2, 3, 2]);
}

#[test]
fn resize_up_then_down() {
    let mut space = [0u8; 8];
    let mut vec = FixedVec::new(&mut space);
    vec.resize(5, 255);
    assert_eq!(vec.as_slice(), &[255; 5]);
    vec.resize(2, 0);
    assert_eq!(vec.as_slice(), &[255, 255]);
}

#[test]
fn equality_ignores_capacity_and_free_slots() {
    let mut small = [0u8; 3];
    let mut large = [9u8; 12];
    let mut a = FixedVec::new(&mut small);
    let mut b = FixedVec::new(&mut large);
    a.push_all(&[1, 2, 3]).unwrap();
    b.push_all(&[1, 2, 3, 4, 5]).unwrap();
    assert!(a != b);
    b.pop();
    b.pop();
    assert!(a == b);
    assert!(b == a);
    assert_eq!(digest(&a), digest(&b));
    b.pop();
    assert!(a != b);
    assert_ne!(digest(&a), digest(&b));
    b.push(7).unwrap();
    assert!(a != b);
}

#[test]
fn hash_reads_the_elements_only() {
    let mut first = [0u32; 4];
    let mut second = [0u32; 4];
    let mut a = FixedVec::new(&mut first);
    let mut b = FixedVec::new(&mut second);
    a.push_all(&[5, 6, 7, 8]).unwrap();
    a.clear();
    a.push(5).unwrap();
    b.push(5).unwrap();
    assert!(a == b);
    assert_eq!(digest(&a), digest(&b));
    assert_eq!(digest(&a), digest(&[5u32][..]));
    let mut third = [0u32; 4];
    let empty = FixedVec::new(&mut third);
    assert_ne!(digest(&a), digest(&empty));
}

#[test]
fn iteration_yields_each_element_once_and_restarts() {
    let mut space = [0u8; 10];
    let mut vec = FixedVec::new(&mut space);
    vec.push_all(&[1, 2, 3]).unwrap();
    {
        let mut iter = vec.iter();
        assert_eq!(iter.size_hint(), (3, Some(3)));
        assert_eq!(iter.next(), Some(1));
        assert_eq!(iter.size_hint(), (2, Some(2)));
        assert_eq!(iter.next(), Some(2));
        assert_eq!(iter.next(), Some(3));
        assert_eq!(iter.next(), None);
        assert_eq!(iter.next(), None);
        assert_eq!(iter.size_hint(), (0, Some(0)));
    }
    let mut again = vec.iter();
    assert_eq!(again.next(), Some(1));
}

#[test]
fn iteration_over_an_empty_vector() {
    let mut space = [0u8; 2];
    let vec = FixedVec::new(&mut space);
    let mut iter = vec.iter();
    assert_eq!(iter.next(), None);
}
