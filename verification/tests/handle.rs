use std::collections::hash_map::DefaultHasher;
use std::collections::HashSet;
use std::hash::{Hash, Hasher};
use std::mem::size_of;
use std::ops::{Deref, DerefMut};

use allocator_api2::alloc::Global;
use thin_boxed_slice::ThinBoxedSlice;

fn hash_of<V: Hash + ?Sized>(value: &V) -> u64 {
    let mut hasher = DefaultHasher::new();
    value.hash(&mut hasher);
    hasher.finish()
}

#[test]
fn option_size() {
    assert_eq!(
        size_of::<Option<ThinBoxedSlice<i32>>>(),
        size_of::<ThinBoxedSlice<i32>>()
    );
}

#[test]
fn hash_set_basic() {
    let data = &[1, 2, 3];
    let mut s: HashSet<ThinBoxedSlice<i32>> = HashSet::new();
    s.insert(ThinBoxedSlice::from(data));
    let mut it = s.iter();
    assert_eq!(it.next().unwrap().deref(), data);
    assert_eq!(it.next(), None);
}

#[test]
fn handle_is_one_word() {
    assert_eq!(size_of::<ThinBoxedSlice<u8>>(), size_of::<usize>());
    assert_eq!(size_of::<ThinBoxedSlice<i32>>(), size_of::<usize>());
    assert_eq!(size_of::<ThinBoxedSlice<u128>>(), size_of::<usize>());
    assert_eq!(size_of::<ThinBoxedSlice<String>>(), size_of::<usize>());
    assert_eq!(size_of::<ThinBoxedSlice<[u64; 32]>>(), size_of::<usize>());
}

#[test]
fn absent_handle_is_one_word() {
    assert_eq!(size_of::<Option<ThinBoxedSlice<u8>>>(), size_of::<usize>());
    assert_eq!(size_of::<Option<ThinBoxedSlice<String>>>(), size_of::<usize>());
}

#[test]
fn handle_width_does_not_depend_on_length() {
    let short = ThinBoxedSlice::new_in(&[1u8], Global);
    let long = ThinBoxedSlice::new_in(&[7u8; 4096], Global);
    assert_eq!(std::mem::size_of_val(&short), size_of::<usize>());
    assert_eq!(std::mem::size_of_val(&long), size_of::<usize>());
}

#[test]
fn new_in_keeps_length_and_elements() {
    let data = [10i32, -20, 30, 40, -50];
    let t = ThinBoxedSlice::new_in(&data, Global);
    assert_eq!(t.len(), 5);
    assert_eq!(t.deref(), &data[..]);
    assert_eq!(t[0], 10);
    assert_eq!(t[4], -50);
}

#[test]
fn new_in_keeps_order_of_owned_elements() {
    let data = vec![String::from("a"), String::from("bc"), String::from("")];
    let t = ThinBoxedSlice::new_in(&data, Global);
    assert_eq!(t.len(), 3);
    assert_eq!(t.deref(), data.as_slice());
    assert_eq!(data.len(), 3);
}

#[test]
fn new_in_of_one_element() {
    let t = ThinBoxedSlice::new_in(&[42u64], Global);
    assert_eq!(t.len(), 1);
    assert_eq!(t.deref(), &[42u64][..]);
}

#[test]
fn new_in_of_empty_slice() {
    let data: [u32; 0] = [];
    let t = ThinBoxedSlice::new_in(&data, Global);
    assert_eq!(t.len(), 0);
    assert!(t.deref().is_empty());
    assert_eq!(t.iter().count(), 0);
}

#[test]
fn new_in_of_zero_sized_elements() {
    let data = [(), (), (), ()];
    let t = ThinBoxedSlice::new_in(&data, Global);
    assert_eq!(t.len(), 4);
    assert_eq!(t.deref(), &data[..]);
}

#[test]
fn new_in_keeps_the_strategy() {
    let t = ThinBoxedSlice::new_in(&[1u8, 2], 77u32);
    assert_eq!(*t.allocator(), 77);
    assert_eq!(t.deref(), &[1u8, 2][..]);
}

#[test]
fn from_slice_matches_new_in() {
    let data = [5u16, 6, 7];
    let a: ThinBoxedSlice<u16> = ThinBoxedSlice::from(&data[..]);
    let b = ThinBoxedSlice::new_in(&data, Global);
    assert_eq!(a.len(), 3);
    assert_eq!(a.deref(), &data[..]);
    assert!(a == b);
}

#[test]
fn from_array_reference() {
    let data = &[1, 2, 3];
    let result = ThinBoxedSlice::<i32>::from(data);
    assert_eq!(result.len(), 3);
    assert_eq!(result.deref(), data);
}

#[test]
fn from_empty_array_reference() {
    let data: &[i64; 0] = &[];
    let result = ThinBoxedSlice::<i64>::from(data);
    assert_eq!(result.len(), 0);
    assert!(result.deref().is_empty());
}

#[test]
fn equal_sources_give_equal_sequences() {
    let a = ThinBoxedSlice::new_in(&[1i32, 2, 3], Global);
    let b = ThinBoxedSlice::new_in(&[1i32, 2, 3], Global);
    assert!(a == b);
    assert!(!(a != b));
}

#[test]
fn sources_of_different_length_give_unequal_sequences() {
    let a = ThinBoxedSlice::new_in(&[1i32, 2, 3], Global);
    let b = ThinBoxedSlice::new_in(&[1i32, 2], Global);
    let c = ThinBoxedSlice::new_in(&[1i32, 2, 3, 0], Global);
    assert!(a != b);
    assert!(b != a);
    assert!(a != c);
}

#[test]
fn sources_that_differ_in_one_element_give_unequal_sequences() {
    let a = ThinBoxedSlice::new_in(&[1i32, 2, 3], Global);
    let first = ThinBoxedSlice::new_in(&[0i32, 2, 3], Global);
    let middle = ThinBoxedSlice::new_in(&[1i32, 9, 3], Global);
    let last = ThinBoxedSlice::new_in(&[1i32, 2, 4], Global);
    assert!(a != first);
    assert!(a != middle);
    assert!(a != last);
}

#[test]
fn empty_sequences_are_equal() {
    let a: ThinBoxedSlice<String> = ThinBoxedSlice::new_in(&[], Global);
    let b: ThinBoxedSlice<String> = ThinBoxedSlice::new_in(&[], Global);
    let c = ThinBoxedSlice::new_in(&[String::new()], Global);
    assert!(a == b);
    assert!(a != c);
}

#[test]
fn equality_ignores_the_strategy() {
    let a = ThinBoxedSlice::new_in(&[1u8, 2], 1u32);
    let b = ThinBoxedSlice::new_in(&[1u8, 2], 2u32);
    assert!(a == b);
}

#[test]
fn equal_sequences_hash_alike() {
    let a = ThinBoxedSlice::new_in(&[1i32, 2, 3], Global);
    let b = ThinBoxedSlice::new_in(&[1i32, 2, 3], Global);
    assert!(a == b);
    assert_eq!(hash_of(&a), hash_of(&b));
}

#[test]
fn sequence_hashes_as_its_slice() {
    let data = [1i32, 2, 3];
    let t = ThinBoxedSlice::new_in(&data, Global);
    assert_eq!(hash_of(&t), hash_of(&data[..]));

    let words = [String::from("x"), String::from("yz")];
    let w = ThinBoxedSlice::new_in(&words, Global);
    assert_eq!(hash_of(&w), hash_of(&words[..]));

    let none: [u8; 0] = [];
    let e = ThinBoxedSlice::new_in(&none, Global);
    assert_eq!(hash_of(&e), hash_of(&none[..]));
}

#[test]
fn hash_tells_sequences_apart() {
    let a = ThinBoxedSlice::new_in(&[1u8, 2, 3], Global);
    let b = ThinBoxedSlice::new_in(&[1u8, 2], Global);
    let c = ThinBoxedSlice::new_in(&[3u8, 2, 1], Global);
    assert_ne!(hash_of(&a), hash_of(&b));
    assert_ne!(hash_of(&a), hash_of(&c));
}

#[test]
fn hash_set_lookup_by_content() {
    let mut s: HashSet<ThinBoxedSlice<u8>> = HashSet::new();
    s.insert(ThinBoxedSlice::from("123".as_bytes()));
    s.insert(ThinBoxedSlice::from("456".as_bytes()));
    assert_eq!(s.len(), 2);
    assert_eq!(s.get("123".as_bytes()).unwrap().deref(), "123".as_bytes());
    assert_eq!(s.get("456".as_bytes()).unwrap().deref(), "456".as_bytes());
    assert!(s.get("12".as_bytes()).is_none());
    assert!(s.get("1234".as_bytes()).is_none());
    assert!(s.contains("456".as_bytes()));
    assert_eq!(s.iter().filter(|t| t.len() == 3 && t[0] == b'1').count(), 1);
}

#[test]
fn hash_set_holds_equal_sequences_once() {
    let mut s: HashSet<ThinBoxedSlice<i32>> = HashSet::new();
    assert!(s.insert(ThinBoxedSlice::from(&[1, 2, 3])));
    assert!(!s.insert(ThinBoxedSlice::from(&[1, 2, 3])));
    assert!(s.insert(ThinBoxedSlice::from(&[1, 2])));
    assert_eq!(s.len(), 2);
}

#[test]
fn borrow_gives_the_elements() {
    let t = ThinBoxedSlice::new_in(&[4u8, 5, 6], Global);
    let b: &[u8] = std::borrow::Borrow::borrow(&t);
    assert_eq!(b, &[4u8, 5, 6][..]);
}

#[test]
fn deref_mut_changes_elements_and_keeps_length() {
    let mut t = ThinBoxedSlice::new_in(&[1i32, 2, 3], Global);
    {
        let view = t.deref_mut();
        assert_eq!(view.len(), 3);
        view[1] = 20;
        view.swap(0, 2);
    }
    assert_eq!(t.len(), 3);
    assert_eq!(t.deref(), &[3, 20, 1][..]);
    t[0] = -1;
    assert_eq!(t.deref(), &[-1, 20, 1][..]);
    t.sort();
    assert_eq!(t.deref(), &[-1, 1, 20][..]);
    assert_eq!(t.len(), 3);
}

#[test]
fn deref_mut_does_not_touch_the_source() {
    let data = [1u8, 2, 3];
    let mut t = ThinBoxedSlice::new_in(&data, Global);
    t[0] = 9;
    assert_eq!(data, [1, 2, 3]);
    assert_eq!(t.deref(), &[9u8, 2, 3][..]);
}

#[test]
fn debug_output_is_available() {
    let t = ThinBoxedSlice::new_in(&[1u8], Global);
    let text = format!("{:?}", t);
    assert!(text.starts_with("ThinBoxedSlice"));
}
