use small_fixed_array::{find_term_index, get_heap_threshold, InlineString, ValidLength};

fn check_roundtrip<LenT: ValidLength>(original: &str) {
    let inline = InlineString::<LenT>::from_str(original);
    assert_eq!(original, inline.expect("should not overflow").as_str());
}

fn check_roundtrip_repr<LenT: ValidLength>() {
    for i in 0..=get_heap_threshold::<LenT>() {
        let original = "a".repeat(i);
        check_roundtrip::<LenT>(&original);
    }
}

#[test]
fn roundtrip_tests() {
    check_roundtrip_repr::<u8>();
    check_roundtrip_repr::<u16>();
    check_roundtrip_repr::<u32>();
}

#[test]
#[should_panic(expected = "should not overflow")]
fn check_overflow() {
    check_roundtrip::<u8>("0123456789");
}

#[test]
fn heap_thresholds() {
    assert_eq!(get_heap_threshold::<u8>(), 9);
    assert_eq!(get_heap_threshold::<u16>(), 10);
    assert_eq!(get_heap_threshold::<u32>(), 12);
}

#[test]
fn term_index_takes_last_occurrence() {
    assert_eq!(find_term_index(&[1, 0xFF, 2, 0xFF, 3], 0xFF, 5), 3);
    assert_eq!(find_term_index(&[0xFF, 9, 9], 0xFF, 3), 0);
    assert_eq!(find_term_index(&[1, 2, 3], 0xFF, 3), 3);
    assert_eq!(find_term_index(&[], 0xFF, 0), 0);
}

#[test]
fn inline_from_char_lengths() {
    let a = InlineString::<u8>::from_char('a').unwrap();
    assert_eq!(a.len(), 1);
    assert_eq!(a.as_str(), "a");
    let crab = InlineString::<u8>::from_char('\u{1F980}').unwrap();
    assert_eq!(crab.len(), 4);
    assert_eq!(crab.as_str(), "\u{1F980}");
}

#[test]
fn inline_full_buffer_has_no_terminator_slot() {
    let full = InlineString::<u8>::from_str("123456789").unwrap();
    assert_eq!(full.len(), 9);
    assert_eq!(full.as_str(), "123456789");
    let clone = full.clone();
    assert_eq!(clone.as_str(), "123456789");
}
