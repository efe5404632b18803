use storage_vec::key_ptr::KeyPtr;
use storage_vec::smallvec::SmallVec;
use storage_vec::store::Store;
use storage_vec::traits::{PullForward, PushForward, SaturatingStorage};
use storage_vec::vec2::Vec2;

#[test]
fn cursor_hands_out_keys_and_advances() {
    let mut ptr = KeyPtr::new(40);
    assert_eq!(ptr.key(), 40);
    assert_eq!(ptr.next_for(3), 40);
    assert_eq!(ptr.key(), 43);
    assert_eq!(ptr.next_for(0), 43);
    assert_eq!(ptr.key(), 43);
    assert_eq!(ptr.next_for(u64::MAX - 43), 43);
    assert_eq!(ptr.key(), u64::MAX);
}

#[test]
fn store_keeps_the_last_word_written() {
    let mut store = Store::new();
    assert_eq!(store.get(0), None);
    store.set(0, 5);
    store.set(u64::MAX, 6);
    assert_eq!(store.get(0), Some(5));
    assert_eq!(store.get(u64::MAX), Some(6));
    assert_eq!(store.get(1), None);
    store.set(0, 7);
    assert_eq!(store.get(0), Some(7));
}

#[test]
fn word_element_occupies_one_cell() {
    let mut store = Store::new();
    let mut ptr = KeyPtr::new(10);
    17u32.push_forward(&mut ptr, &mut store);
    assert_eq!(ptr.key(), 11);
    assert_eq!(store.get(10), Some(17));
    assert_eq!(store.get(11), None);

    let mut back = KeyPtr::new(10);
    assert_eq!(u32::pull_forward(&mut back, &store), Some(17));
    assert_eq!(back.key(), 11);
    assert_eq!(u32::pull_forward(&mut back, &store), None);
    assert_eq!(back.key(), 12);
    assert_eq!(u32::saturate(), 0);
}

#[test]
fn double_word_element_occupies_two_cells() {
    let mut store = Store::new();
    let mut ptr = KeyPtr::new(10);
    let value: u64 = 0x0000_0001_0000_0002;
    value.push_forward(&mut ptr, &mut store);
    assert_eq!(ptr.key(), 12);
    assert_eq!(store.get(10), Some(2));
    assert_eq!(store.get(11), Some(1));
    assert_eq!(store.get(12), None);

    let mut back = KeyPtr::new(10);
    assert_eq!(u64::pull_forward(&mut back, &store), Some(value));
    assert_eq!(back.key(), 12);

    // Half a value is no value.
    let mut half = KeyPtr::new(11);
    assert_eq!(u64::pull_forward(&mut half, &store), None);
    assert_eq!(half.key(), 13);

    let mut other = Store::new();
    let mut at = KeyPtr::new(0);
    u64::MAX.push_forward(&mut at, &mut other);
    assert_eq!(other.get(0), Some(u32::MAX));
    assert_eq!(other.get(1), Some(u32::MAX));
    let mut again = KeyPtr::new(0);
    assert_eq!(u64::pull_forward(&mut again, &other), Some(u64::MAX));
    assert_eq!(u64::saturate(), 0);
}

#[test]
fn bounded_vector_round_trip() {
    let mut store = Store::new();
    let mut vec: SmallVec<u32> = SmallVec::new(4);
    assert!(vec.extend(vec![7, 8]).is_ok());

    let mut ptr = KeyPtr::new(100);
    vec.push_forward(&mut ptr, &mut store);
    assert_eq!(ptr.key(), 105);
    assert_eq!(store.get(100), Some(2));
    assert_eq!(store.get(101), Some(7));
    assert_eq!(store.get(102), Some(8));
    assert_eq!(store.get(103), None);
    assert_eq!(store.get(104), None);
    assert_eq!(store.get(99), None);

    let mut fresh = KeyPtr::new(100);
    let back = match SmallVec::<u32>::pull_forward(&mut fresh, &store, 4) {
        Some(vec) => vec,
        None => panic!("a vector was written at key 100"),
    };
    assert_eq!(fresh.key(), 105);
    assert_eq!(back.len(), 2);
    assert_eq!(back.capacity(), 4);
    assert_eq!(back.get(0, &store), Some(7));
    assert_eq!(back.get(1, &store), Some(8));
    assert_eq!(back.get(2, &store), None);
    assert!(back.eq(&vec, &store));
    assert!(vec.eq(&back, &store));
}

#[test]
fn double_word_vector_round_trip() {
    let mut store = Store::new();
    let values: Vec<u64> = vec![1 << 33, 5, u64::MAX];
    let vec = match SmallVec::from_iter(values.clone(), 3) {
        Ok(vec) => vec,
        Err(_) => panic!("three items fit into three slots"),
    };
    let mut ptr = KeyPtr::new(0);
    vec.push_forward(&mut ptr, &mut store);
    assert_eq!(ptr.key(), 7);
    assert_eq!(store.get(0), Some(3));
    assert_eq!(store.get(1), Some(0));
    assert_eq!(store.get(2), Some(2));
    assert_eq!(store.get(3), Some(5));
    assert_eq!(store.get(4), Some(0));
    assert_eq!(store.get(5), Some(u32::MAX));
    assert_eq!(store.get(6), Some(u32::MAX));
    assert_eq!(store.get(7), None);

    let mut fresh = KeyPtr::new(0);
    let back = match SmallVec::<u64>::pull_forward(&mut fresh, &store, 3) {
        Some(vec) => vec,
        None => panic!("a vector was written at key 0"),
    };
    assert_eq!(fresh.key(), 7);
    assert!(back.eq(&vec, &store));
    for (index, value) in values.iter().enumerate() {
        assert_eq!(back.get(index as u32, &store), Some(*value));
    }
}

#[test]
fn dynamic_vector_round_trip() {
    let mut store = Store::new();
    let mut vec: Vec2<u32> = Vec2::new();
    assert!(vec.extend(vec![3, 1, 4, 1, 5]).is_ok());
    let mut ptr = KeyPtr::new(9);
    vec.push_forward(&mut ptr, &mut store);
    assert_eq!(ptr.key(), 9 + 1 + 4294967295);
    assert_eq!(store.get(9), Some(5));
    assert_eq!(store.get(10), Some(3));
    assert_eq!(store.get(14), Some(5));
    assert_eq!(store.get(15), None);

    let mut fresh = KeyPtr::new(9);
    let mut back = match Vec2::<u32>::pull_forward(&mut fresh, &store) {
        Some(vec) => vec,
        None => panic!("a vector was written at key 9"),
    };
    assert_eq!(fresh.key(), 9 + 1 + 4294967295);
    assert_eq!(back.len(), 5);
    assert!(back.eq(&vec, &store));
    assert_eq!(back.pop(&store), Some(5));
    assert_eq!(back.pop(&store), Some(1));
    assert_eq!(back.len(), 3);
    assert_eq!(back.get(2, &store), Some(4));
}

#[test]
fn pull_finds_no_vector_where_no_length_was_written() {
    let mut store = Store::new();
    let mut ptr = KeyPtr::new(50);
    assert!(SmallVec::<u32>::pull_forward(&mut ptr, &store, 4).is_none());
    assert_eq!(ptr.key(), 55);
    let mut at = KeyPtr::new(50);
    assert!(Vec2::<u64>::pull_forward(&mut at, &store).is_none());
    assert_eq!(at.key(), 50 + 1 + 2 * 4294967295);

    // A length beyond the capacity is no vector either.
    store.set(50, 5);
    let mut again = KeyPtr::new(50);
    assert!(SmallVec::<u32>::pull_forward(&mut again, &store, 4).is_none());
    assert_eq!(again.key(), 55);
    let mut wider = KeyPtr::new(50);
    assert!(SmallVec::<u32>::pull_forward(&mut wider, &store, 5).is_some());
    assert_eq!(wider.key(), 56);
}

#[test]
fn elements_are_read_when_asked_for() {
    let mut store = Store::new();
    let mut vec: SmallVec<u32> = SmallVec::new(3);
    assert!(vec.extend(vec![1, 2, 3]).is_ok());
    let mut ptr = KeyPtr::new(0);
    vec.push_forward(&mut ptr, &mut store);

    let mut fresh = KeyPtr::new(0);
    let mut back = match SmallVec::<u32>::pull_forward(&mut fresh, &store, 3) {
        Some(vec) => vec,
        None => panic!("a vector was written at key 0"),
    };
    // Nothing was read at the pull: a later write to the store shows.
    store.set(2, 20);
    assert_eq!(back.get(1, &store), Some(20));
    // An element handed out for writing is held in memory from then on.
    match back.get_mut(1, &store) {
        Some(slot) => assert_eq!(*slot, 20),
        None => panic!("index 1 is below the length"),
    }
    store.set(2, 200);
    assert_eq!(back.get(1, &store), Some(20));
    assert_eq!(back.get(0, &store), Some(1));
    store.set(1, 100);
    assert_eq!(back.get(0, &store), Some(100));
}

#[test]
fn a_slot_never_written_is_absent_and_saturates_on_write() {
    let mut store = Store::new();
    store.set(30, 2);
    store.set(32, 9);
    let mut ptr = KeyPtr::new(30);
    let mut vec = match SmallVec::<u32>::pull_forward(&mut ptr, &store, 2) {
        Some(vec) => vec,
        None => panic!("a length was written at key 30"),
    };
    assert_eq!(vec.len(), 2);
    assert_eq!(vec.get(0, &store), None);
    assert_eq!(vec.get(1, &store), Some(9));
    match vec.get_mut(0, &store) {
        Some(slot) => {
            assert_eq!(*slot, 0);
            *slot = 4;
        }
        None => panic!("index 0 is below the length"),
    }
    assert_eq!(vec.get(0, &store), Some(4));
    assert_eq!(*vec.index_mut(1, &store), 9);

    let mut other = match SmallVec::<u32>::pull_forward(&mut KeyPtr::new(30), &store, 2) {
        Some(vec) => vec,
        None => panic!("a length was written at key 30"),
    };
    assert!(!vec.eq(&other, &store));
    assert_eq!(other.pop(&store), Some(9));
    assert_eq!(other.pop(&store), None);
    assert_eq!(other.len(), 0);
}

#[test]
fn only_elements_held_in_memory_are_written() {
    let mut store = Store::new();
    let mut vec: SmallVec<u32> = SmallVec::new(3);
    assert!(vec.extend(vec![1, 2, 3]).is_ok());
    vec.push_forward(&mut KeyPtr::new(0), &mut store);

    let mut back = match SmallVec::<u32>::pull_forward(&mut KeyPtr::new(0), &store, 3) {
        Some(vec) => vec,
        None => panic!("a vector was written at key 0"),
    };
    *back.index_mut(2, &store) = 30;
    assert_eq!(back.pop(&store), Some(30));
    assert!(back.push(33).is_ok());
    assert!(back.get_mut(0, &store).is_some());

    // Written elsewhere, the slot that was left to the store is not copied.
    let mut elsewhere = Store::new();
    let mut ptr = KeyPtr::new(10);
    back.push_forward(&mut ptr, &mut elsewhere);
    assert_eq!(ptr.key(), 14);
    assert_eq!(elsewhere.get(10), Some(3));
    assert_eq!(elsewhere.get(11), Some(1));
    assert_eq!(elsewhere.get(12), None);
    assert_eq!(elsewhere.get(13), Some(33));

    // Written back to its own region, the vector is found there again.
    back.push_forward(&mut KeyPtr::new(0), &mut store);
    assert_eq!(store.get(0), Some(3));
    assert_eq!(store.get(1), Some(1));
    assert_eq!(store.get(2), Some(2));
    assert_eq!(store.get(3), Some(33));
    let again = match SmallVec::<u32>::pull_forward(&mut KeyPtr::new(0), &store, 3) {
        Some(vec) => vec,
        None => panic!("a vector was written at key 0"),
    };
    assert!(again.eq(&back, &store));
    assert_eq!(again.get(2, &store), Some(33));
}

#[test]
fn vectors_written_one_after_the_other_do_not_overlap() {
    let mut store = Store::new();
    let first = match SmallVec::<u32>::from_iter(vec![1, 2], 2) {
        Ok(vec) => vec,
        Err(_) => panic!("two items fit into two slots"),
    };
    let second = match SmallVec::<u64>::from_iter(vec![3, 4, 5], 4) {
        Ok(vec) => vec,
        Err(_) => panic!("three items fit into four slots"),
    };
    let mut ptr = KeyPtr::new(1000);
    first.push_forward(&mut ptr, &mut store);
    assert_eq!(ptr.key(), 1003);
    second.push_forward(&mut ptr, &mut store);
    assert_eq!(ptr.key(), 1012);

    let mut fresh = KeyPtr::new(1000);
    let one = match SmallVec::<u32>::pull_forward(&mut fresh, &store, 2) {
        Some(vec) => vec,
        None => panic!("a vector was written at key 1000"),
    };
    let two = match SmallVec::<u64>::pull_forward(&mut fresh, &store, 4) {
        Some(vec) => vec,
        None => panic!("a vector was written at key 1003"),
    };
    assert_eq!(fresh.key(), 1012);
    assert!(one.eq(&first, &store));
    assert!(two.eq(&second, &store));
    assert_eq!(two.get(2, &store), Some(5));
}
