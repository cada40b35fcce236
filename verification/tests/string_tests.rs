use small_fixed_array::{FixedString, StaticStr, TruncatingInto, ValidLength};

const STR: &str = "______________________________________________________________________________________________________________________________________________________________________________________________________________________________________________________________\u{1F980}";

fn check_u8_roundtrip_generic(to_fixed: fn(String) -> FixedString<u8>) {
    for i in 0..=u8::MAX {
        let original = "a".repeat(i.into());
        let fixed = to_fixed(original);

        assert!(fixed.as_str().bytes().all(|c| c == b'a'));
        assert_eq!(fixed.len(), i);

        if !fixed.is_static() {
            assert_eq!(fixed.is_inline(), fixed.len() <= 9);
        }
    }
}

#[test]
fn test_truncating_behaviour() {
    let string = FixedString::<u8>::from_static_trunc(STR);

    let str = std::str::from_utf8(string.as_str().as_bytes()).expect("is utf8");

    assert_eq!(str, string.as_str());
    assert_ne!(STR, str);
}

#[test]
fn check_u8_roundtrip() {
    check_u8_roundtrip_generic(|original| FixedString::<u8>::try_from_string(original).unwrap());
}

#[test]
fn check_u8_roundtrip_static() {
    check_u8_roundtrip_generic(|original| {
        let static_str = Box::leak(original.into_boxed_str());
        FixedString::from_static_trunc(static_str)
    });
}

#[test]
fn from_char_u8() {
    let s: FixedString<u8> = FixedString::from_char('a');
    assert_eq!(s.len(), 1);
    assert!(s.is_inline());

    let s: FixedString<u8> = FixedString::from_char('\u{BC}');
    assert_eq!(s.len(), 2);
    assert!(s.is_inline());

    let s: FixedString<u8> = FixedString::from_char('\u{26A1}');
    assert_eq!(s.len(), 3);
    assert!(s.is_inline());

    let s: FixedString<u8> = FixedString::from_char('\u{1F980}');
    assert_eq!(s.len(), 4);
    assert!(s.is_inline());
}

#[test]
fn from_char_u16() {
    let s: FixedString<u16> = FixedString::from_char('a');
    assert_eq!(s.len(), 1);
    assert!(s.is_inline());

    let s: FixedString<u16> = FixedString::from_char('\u{BC}');
    assert_eq!(s.len(), 2);
    assert!(s.is_inline());

    let s: FixedString<u16> = FixedString::from_char('\u{26A1}');
    assert_eq!(s.len(), 3);
    assert!(s.is_inline());

    let s: FixedString<u16> = FixedString::from_char('\u{1F980}');
    assert_eq!(s.len(), 4);
    assert!(s.is_inline());
}

#[test]
fn from_char_u32() {
    let s: FixedString<u32> = FixedString::from_char('a');
    assert_eq!(s.len(), 1);
    assert!(s.is_inline());

    let s: FixedString<u32> = FixedString::from_char('\u{BC}');
    assert_eq!(s.len(), 2);
    assert!(s.is_inline());

    let s: FixedString<u32> = FixedString::from_char('\u{26A1}');
    assert_eq!(s.len(), 3);
    assert!(s.is_inline());

    let s: FixedString<u32> = FixedString::from_char('\u{1F980}');
    assert_eq!(s.len(), 4);
    assert!(s.is_inline());
}

fn try_from_rountrip<LenT: ValidLength + std::fmt::Debug>(value: String) {
    let string = value.clone();

    let fixed_str: FixedString<LenT> =
        FixedString::try_from_string(value).expect("Try into should work");

    assert_eq!(fixed_str, string);

    let value: String = fixed_str.into_string();

    assert_eq!(value, string);

    let fixed_str = FixedString::<LenT>::from_string_trunc(value);

    assert_eq!(fixed_str, string);

    let value: String = fixed_str.into_string();

    let fixed_str = FixedString::<LenT>::try_from_string(value).expect("try_from_string works");

    assert_eq!(fixed_str, string);
}

fn try_from_boxed_rountrip<LenT: ValidLength + std::fmt::Debug>(value: Box<str>) {
    let string = value.to_string();

    let fixed_str: FixedString<LenT> =
        FixedString::try_from_boxed_str(value).expect("Try into should work");

    assert_eq!(fixed_str, string);

    let value: Box<str> = fixed_str.into_boxed_str();

    assert_eq!(value.as_ref(), string.as_str());

    let fixed_str = FixedString::<LenT>::from_string_trunc(String::from(value));

    assert_eq!(fixed_str, string);

    let value: Box<str> = fixed_str.into_boxed_str();

    let fixed_str =
        FixedString::<LenT>::try_from_boxed_str(value).expect("try_from_string works");

    assert_eq!(fixed_str, string);
}

#[test]
fn test_try_from_string() {
    let value = "Hello, world!";

    try_from_rountrip::<u8>(value.into());
    try_from_rountrip::<u16>(value.into());
    try_from_rountrip::<u32>(value.into());
}

#[test]
fn test_try_from_boxed_str() {
    let value = "Hello, world!";

    try_from_boxed_rountrip::<u8>(value.into());
    try_from_boxed_rountrip::<u16>(value.into());
    try_from_boxed_rountrip::<u32>(value.into());
}

#[test]
fn trunc_scenario_u8_300() {
    let long = "a".repeat(300);
    let fixed = FixedString::<u8>::from_string_trunc(long);
    assert_eq!(fixed.len(), 255u8);
    assert!(fixed.as_str().bytes().all(|c| c == b'a'));
    assert!(!fixed.is_inline());
    assert!(!fixed.is_static());
}

#[test]
fn crab_scenario_inline() {
    let fixed = FixedString::<u8>::from_string_trunc(String::from("\u{1F980}"));
    assert!(fixed.is_inline());
    assert_eq!(fixed.len(), 4u8);
    assert_eq!(fixed, "\u{1F980}");
}

#[test]
fn truncation_respects_char_boundary() {
    let mut long = "a".repeat(253);
    long.push('\u{1F980}');
    assert_eq!(long.len(), 257);
    let fixed = FixedString::<u8>::from_string_trunc(long);
    assert_eq!(fixed.len(), 253u8);
    assert!(fixed.as_str().bytes().all(|c| c == b'a'));
}

#[test]
fn truncation_of_fitting_input_is_identity() {
    let original = String::from("short and sweet");
    let fixed = FixedString::<u8>::from_string_trunc(original.clone());
    assert_eq!(fixed.as_str(), original.as_str());
    assert_eq!(fixed.into_string(), original);
}

#[test]
fn try_from_string_rejects_and_returns_input() {
    let long = "z".repeat(300);
    let err = match FixedString::<u8>::try_from_string(long.clone()) {
        Err(err) => err,
        Ok(_) => panic!("conversion should fail"),
    };
    assert_eq!(err.get_inner(), long);
}

#[test]
fn truncate_str_exact_boundaries() {
    let s = "a\u{1F980}b";
    assert_eq!(small_fixed_array::truncate_str(s, 6), "a\u{1F980}b");
    assert_eq!(small_fixed_array::truncate_str(s, 5), "a\u{1F980}");
    assert_eq!(small_fixed_array::truncate_str(s, 4), "a");
    assert_eq!(small_fixed_array::truncate_str(s, 1), "a");
    assert_eq!(small_fixed_array::truncate_str(s, 0), "");
}

#[test]
fn static_accessor_only_for_static_representation() {
    let fixed_static = FixedString::<u8>::from_static_trunc("static string");
    assert_eq!(fixed_static.as_static_str(), Some("static string"));

    let owned = FixedString::<u8>::from_string_trunc(String::from("owned string"));
    assert_eq!(owned.as_static_str(), None);
}

#[test]
fn error_carries_target_type_name() {
    let err = match FixedString::<u8>::try_from_string("q".repeat(300)) {
        Err(err) => err,
        Ok(_) => panic!("conversion should fail"),
    };
    assert_eq!(err.target_name(), "u8");
}

#[test]
fn clone_keeps_the_representation() {
    let fixed_static = FixedString::<u8>::from_static_trunc("static string");
    assert!(fixed_static.clone().is_static());

    let inline = FixedString::<u8>::from_string_trunc(String::from("tiny"));
    assert!(inline.clone().is_inline());

    let heap = FixedString::<u8>::from_string_trunc("a".repeat(100));
    assert!(!heap.clone().is_inline());
    assert!(!heap.clone().is_static());
}

#[test]
fn static_str_borrows_without_copying() {
    let s: StaticStr<u8> = StaticStr::from_static_str("static string");
    assert_eq!(s.as_str(), "static string");
    assert_eq!(s.len(), 13u8);
}

#[test]
fn empty_string_states() {
    let empty = FixedString::<u8>::new();
    assert!(empty.is_empty());
    assert_eq!(empty.len(), 0u8);
    assert_eq!(empty.as_str(), "");
    let defaulted: FixedString<u16> = Default::default();
    assert!(defaulted.is_empty());
}

#[test]
fn clone_preserves_each_representation() {
    let heap = FixedString::<u8>::from_string_trunc("a".repeat(100));
    assert_eq!(heap.clone(), heap);

    let inline = FixedString::<u8>::from_string_trunc(String::from("tiny"));
    assert!(inline.is_inline());
    assert_eq!(inline.clone().as_str(), "tiny");

    let fixed_static = FixedString::<u8>::from_static_trunc("static string");
    assert!(fixed_static.is_static());
    assert_eq!(fixed_static.clone().as_str(), "static string");
}

#[test]
fn string_trunc_into() {
    let fixed: FixedString<u8> = "b".repeat(300).trunc_into();
    assert_eq!(fixed.len(), 255u8);
}
