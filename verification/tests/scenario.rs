use storage_vec::iter::{Iter, IterMut};
use storage_vec::smallvec::SmallVec;
use storage_vec::store::Store;
use storage_vec::vec2::Vec2;

#[test]
fn push_three_then_read_back() {
    let store = Store::new();
    let mut vec: Vec2<u32> = Vec2::new();
    assert!(vec.push(1).is_ok());
    assert!(vec.push(2).is_ok());
    assert!(vec.push(3).is_ok());
    assert_eq!(vec.len(), 3);
    assert_eq!(vec.get(0, &store), Some(1));
    assert_eq!(vec.get(1, &store), Some(2));
    assert_eq!(vec.get(2, &store), Some(3));
    assert_eq!(vec.get(3, &store), None);

    let mut walk = Iter::new(&vec, &store);
    assert_eq!(walk.next_back(), Some(3));
    assert_eq!(walk.next_back(), Some(2));
    assert_eq!(walk.next_back(), Some(1));
    assert_eq!(walk.next_back(), None);

    assert_eq!(vec.pop(&store), Some(3));
    assert_eq!(vec.len(), 2);
}

#[test]
fn push_three_then_read_back_bounded() {
    let store = Store::new();
    let mut vec: SmallVec<u32> = SmallVec::new(4);
    assert!(vec.push(1).is_ok());
    assert!(vec.push(2).is_ok());
    assert!(vec.push(3).is_ok());
    assert_eq!(vec.len(), 3);
    assert_eq!(vec.capacity(), 4);
    assert_eq!(vec.get(0, &store), Some(1));
    assert_eq!(vec.get(1, &store), Some(2));
    assert_eq!(vec.get(2, &store), Some(3));
    assert_eq!(vec.get(3, &store), None);

    let mut walk = vec.iter(&store);
    assert_eq!(walk.next_back(), Some(3));
    assert_eq!(walk.next_back(), Some(2));
    assert_eq!(walk.next_back(), Some(1));
    assert_eq!(walk.next_back(), None);

    assert_eq!(vec.pop(&store), Some(3));
    assert_eq!(vec.len(), 2);
}

#[test]
fn new_vectors_are_empty() {
    let store = Store::new();
    let mut small: SmallVec<u32> = SmallVec::new(3);
    assert_eq!(small.len(), 0);
    assert_eq!(small.capacity(), 3);
    assert_eq!(small.get(0, &store), None);
    assert_eq!(small.pop(&store), None);
    assert_eq!(small.len(), 0);

    let mut dynamic: Vec2<u64> = Vec2::new();
    assert_eq!(dynamic.len(), 0);
    assert_eq!(dynamic.get(0, &store), None);
    assert_eq!(dynamic.pop(&store), None);
    assert_eq!(dynamic.len(), 0);
}

#[test]
fn length_counts_pushes_and_pops() {
    let store = Store::new();
    let mut vec: Vec2<u32> = Vec2::new();
    for value in 0..10u32 {
        assert!(vec.push(value * 7).is_ok());
        assert_eq!(vec.len(), value + 1);
    }
    for popped in 0..4u32 {
        assert_eq!(vec.pop(&store), Some((9 - popped) * 7));
        assert_eq!(vec.len(), 9 - popped);
    }
    assert_eq!(vec.len(), 6);
    for _ in 0..6 {
        assert!(vec.pop(&store).is_some());
    }
    assert_eq!(vec.len(), 0);
    assert_eq!(vec.pop(&store), None);
}

#[test]
fn get_sees_the_latest_write() {
    let store = Store::new();
    let mut vec: SmallVec<u32> = SmallVec::new(5);
    assert!(vec.push(10).is_ok());
    assert!(vec.push(20).is_ok());
    match vec.get_mut(0, &store) {
        Some(slot) => *slot = 11,
        None => panic!("index 0 is below the length"),
    }
    assert_eq!(vec.get(0, &store), Some(11));
    assert_eq!(vec.get(1, &store), Some(20));
    *vec.index_mut(1, &store) += 5;
    assert_eq!(vec.index(1, &store), 25);
    assert_eq!(vec.index(0, &store), 11);
    assert_eq!(vec.pop(&store), Some(25));
    assert!(vec.push(30).is_ok());
    assert_eq!(vec.get(1, &store), Some(30));
    assert_eq!(vec.get(2, &store), None);
}

#[test]
fn get_mut_past_the_length_is_none() {
    let store = Store::new();
    let mut small: SmallVec<u32> = SmallVec::new(5);
    assert!(small.push(1).is_ok());
    assert!(small.get_mut(1, &store).is_none());
    assert!(small.get_mut(4, &store).is_none());
    assert!(small.get_mut(5, &store).is_none());
    assert!(small.get_mut(u32::MAX, &store).is_none());
    assert_eq!(small.len(), 1);
    assert_eq!(small.get(0, &store), Some(1));

    let mut dynamic: Vec2<u32> = Vec2::new();
    assert!(dynamic.get_mut(0, &store).is_none());
    assert!(dynamic.push(4).is_ok());
    assert!(dynamic.get_mut(1, &store).is_none());
    assert_eq!(dynamic.get(u32::MAX, &store), None);
}

#[test]
fn a_full_vector_hands_the_value_back() {
    let store = Store::new();
    let mut vec: SmallVec<u32> = SmallVec::new(2);
    assert_eq!(vec.push(1), Ok(()));
    assert_eq!(vec.push(2), Ok(()));
    assert_eq!(vec.push(3), Err(3));
    assert_eq!(vec.len(), 2);
    assert_eq!(vec.get(1, &store), Some(2));
    assert_eq!(vec.get(2, &store), None);
    assert_eq!(vec.pop(&store), Some(2));
    assert_eq!(vec.push(3), Ok(()));
    assert_eq!(vec.get(1, &store), Some(3));

    let mut none: SmallVec<u32> = SmallVec::new(0);
    assert_eq!(none.push(9), Err(9));
    assert_eq!(none.len(), 0);
}

#[test]
fn extend_appends_in_order() {
    let store = Store::new();
    let mut vec: SmallVec<u32> = SmallVec::new(6);
    assert!(vec.push(1).is_ok());
    assert_eq!(vec.extend(vec![2, 3, 4]), Ok(()));
    assert_eq!(vec.len(), 4);
    for index in 0..4u32 {
        assert_eq!(vec.get(index, &store), Some(index + 1));
    }
    assert_eq!(vec.extend(vec![]), Ok(()));
    assert_eq!(vec.len(), 4);
    assert_eq!(vec.extend(vec![5, 6, 7]), Err(vec![5, 6, 7]));
    assert_eq!(vec.len(), 4);
    assert_eq!(vec.get(4, &store), None);
    assert_eq!(vec.extend(vec![5, 6]), Ok(()));
    assert_eq!(vec.len(), 6);
    assert_eq!(vec.get(5, &store), Some(6));
}

#[test]
fn extend_on_empty_is_from_iter() {
    let store = Store::new();
    let items: Vec<u32> = vec![4, 8, 15, 16, 23, 42];

    let mut extended: SmallVec<u32> = SmallVec::new(8);
    assert!(extended.extend(items.clone()).is_ok());
    let built = match SmallVec::from_iter(items.clone(), 8) {
        Ok(vec) => vec,
        Err(_) => panic!("six items fit into eight slots"),
    };
    assert_eq!(built.len(), 6);
    assert_eq!(extended.len(), 6);
    assert!(extended.eq(&built, &store));
    for (index, item) in items.iter().enumerate() {
        assert_eq!(built.get(index as u32, &store), Some(*item));
        assert_eq!(extended.get(index as u32, &store), Some(*item));
    }

    let mut dynamic: Vec2<u32> = Vec2::new();
    assert!(dynamic.extend(items.clone()).is_ok());
    let direct = match Vec2::from_iter(items.clone()) {
        Ok(vec) => vec,
        Err(_) => panic!("six items fit"),
    };
    assert!(dynamic.eq(&direct, &store));
    assert_eq!(direct.len(), 6);
    assert_eq!(direct.get(5, &store), Some(42));
}

#[test]
fn from_iter_hands_back_what_does_not_fit() {
    let built: Result<SmallVec<u32>, Vec<u32>> = SmallVec::from_iter(vec![1, 2, 3], 2);
    match built {
        Ok(_) => panic!("three items do not fit into two slots"),
        Err(items) => assert_eq!(items, vec![1, 2, 3]),
    }
    let exact: Result<SmallVec<u32>, Vec<u32>> = SmallVec::from_iter(vec![1, 2], 2);
    match exact {
        Ok(vec) => assert_eq!(vec.len(), 2),
        Err(_) => panic!("two items fit into two slots"),
    }
}

#[test]
fn equality_compares_length_and_elements() {
    let store = Store::new();
    let mut a: SmallVec<u32> = SmallVec::new(4);
    let mut b: SmallVec<u32> = SmallVec::new(9);
    assert!(a.eq(&b, &store));
    assert!(a.push(1).is_ok());
    assert!(!a.eq(&b, &store));
    assert!(!b.eq(&a, &store));
    assert!(b.push(1).is_ok());
    assert!(a.eq(&b, &store));
    assert!(a.push(2).is_ok());
    assert!(b.push(3).is_ok());
    assert!(!a.eq(&b, &store));
    assert!(b.pop(&store).is_some());
    assert!(b.push(2).is_ok());
    assert!(a.eq(&b, &store));
    assert!(b.eq(&a, &store));
    assert!(a.eq(&a, &store));
    // One is a prefix of the other: not equal.
    assert!(b.push(5).is_ok());
    assert!(!a.eq(&b, &store));
    assert!(!b.eq(&a, &store));
}

#[test]
fn equality_of_dynamic_vectors() {
    let store = Store::new();
    let a = match Vec2::from_iter(vec![7u64, 1 << 40, 9]) {
        Ok(vec) => vec,
        Err(_) => panic!("three items fit"),
    };
    let mut b: Vec2<u64> = Vec2::new();
    assert!(!a.eq(&b, &store));
    assert!(b.extend(vec![7, 1 << 40]).is_ok());
    assert!(!a.eq(&b, &store));
    assert!(b.push(8).is_ok());
    assert!(!a.eq(&b, &store));
    match b.get_mut(2, &store) {
        Some(slot) => *slot += 1,
        None => panic!("index 2 is below the length"),
    }
    assert!(a.eq(&b, &store));
}

#[test]
fn mutable_walk_writes_each_element_once() {
    let store = Store::new();
    let mut vec: Vec2<u32> = Vec2::new();
    assert!(vec.extend(vec![1, 2, 3, 4, 5]).is_ok());
    {
        let mut walk = IterMut::new(&mut vec, &store);
        assert_eq!(walk.size_hint(), (5, Some(5)));
        let mut seen: Vec<u32> = Vec::new();
        loop {
            match walk.next() {
                Some(slot) => {
                    seen.push(*slot);
                    *slot *= 10;
                }
                None => break,
            }
        }
        assert_eq!(seen, vec![1, 2, 3, 4, 5]);
        assert!(walk.next().is_none());
        assert!(walk.next_back().is_none());
        assert_eq!(walk.size_hint(), (0, Some(0)));
    }
    assert_eq!(vec.len(), 5);
    for index in 0..5u32 {
        assert_eq!(vec.get(index, &store), Some((index + 1) * 10));
    }
}
