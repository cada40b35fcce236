use small_fixed_array::{FixedArray, TruncatingInto};

#[test]
fn check_zst_functionality() {
    let array = FixedArray::<(), u32>::from_vec_trunc(vec![(); 16]);
    assert!(!array.is_empty());
    assert_eq!(array.len(), 16);
}

#[test]
fn empty_array_owns_nothing() {
    let array = FixedArray::<u64, u8>::from_vec_trunc(Vec::new());
    assert!(array.is_empty());
    assert_eq!(array.len(), 0);
    let empty = FixedArray::<u64, u8>::empty();
    assert!(empty.is_empty());
    let fresh = FixedArray::<u64, u8>::new();
    assert!(fresh.is_empty());
    let defaulted: FixedArray<u64, u8> = Default::default();
    assert!(defaulted.is_empty());
}

#[test]
fn u16_vec_truncates_to_max() {
    let array = FixedArray::<u8, u16>::from_vec_trunc(vec![7u8; 70000]);
    assert_eq!(array.len(), u16::MAX);
    assert_eq!(array.as_slice().len(), 65535);
    assert!(array.as_slice().iter().all(|b| *b == 7));
}

#[test]
fn try_from_vec_rejects_and_returns_input() {
    let vec: Vec<u32> = (0..300).collect();
    let err = match FixedArray::<u32, u8>::try_from_vec(vec.clone()) {
        Err(err) => err,
        Ok(_) => panic!("conversion should fail"),
    };
    assert_eq!(err.target_name(), "u8");
    assert_eq!(err.get_inner(), vec);
}

#[test]
fn try_from_vec_accepts_at_max() {
    let vec: Vec<u32> = (0..255).collect();
    let array = FixedArray::<u32, u8>::try_from_vec(vec.clone()).unwrap();
    assert_eq!(array.len(), 255u8);
    assert_eq!(array.as_slice(), vec.as_slice());
    assert_eq!(array.into_vec(), vec);
}

#[test]
fn array_roundtrip_through_vec() {
    let vec = vec![3u64, 1, 4, 1, 5];
    let array = FixedArray::<u64, u16>::try_from_vec(vec.clone()).unwrap();
    assert_eq!(array.into_vec(), vec);
}

#[test]
fn array_roundtrip_through_boxed_slice() {
    let boxed: Box<[u64]> = vec![3u64, 1, 4, 1, 5].into_boxed_slice();
    let array = FixedArray::<u64, u16>::try_from_boxed_slice(boxed.clone()).unwrap();
    assert_eq!(array.into_boxed_slice(), boxed);
}

#[test]
fn array_get_set_clone() {
    let mut array = FixedArray::<u32, u8>::from_vec_trunc(vec![10, 20, 30]);
    assert_eq!(*array.get(1), 20);
    array.set(1, 99);
    assert_eq!(*array.get(1), 99);
    let copy = array.clone();
    assert_eq!(copy.into_vec(), vec![10, 99, 30]);
}

#[test]
fn vec_trunc_into_array() {
    let array: FixedArray<u8, u8> = vec![1u8; 300].trunc_into();
    assert_eq!(array.len(), 255u8);
}
