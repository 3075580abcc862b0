use rusted::rand::{rand_alphanum, rand_alphanum_string, rand_char_from_rand_u8, u32_from_random_bytes};

#[test]
fn bytes_become_latin1_chars() {
    assert_eq!(rand_char_from_rand_u8(b'a'), Some('a'));
    assert_eq!(rand_char_from_rand_u8(0), Some('\0'));
    assert_eq!(rand_char_from_rand_u8(0xE9), Some('é'));
    assert_eq!(rand_char_from_rand_u8(0xFF), Some('ÿ'));
}

#[test]
fn only_alphanumeric_bytes_are_kept() {
    assert_eq!(rand_alphanum(b'Z'), Some('Z'));
    assert_eq!(rand_alphanum(b'7'), Some('7'));
    assert_eq!(rand_alphanum(b'!'), None);
    assert_eq!(rand_alphanum(b' '), None);
    assert_eq!(rand_alphanum(0xE9), Some('é'));
    assert_eq!(rand_alphanum(0xB2), Some('²'));
    assert_eq!(rand_alphanum(0xD7), None);
    for b in 0..=255u8 {
        assert_eq!(rand_alphanum(b).is_some(), (b as char).is_alphanumeric());
    }
}

#[test]
fn alphanumeric_strings_from_a_byte_stream() {
    let bytes = vec![b'a', b'-', b'B', 0x01, b'3', b'x'];
    assert_eq!(rand_alphanum_string(3, &bytes), Some("aB3".to_string()));
    assert_eq!(rand_alphanum_string(4, &bytes), Some("aB3x".to_string()));
    assert_eq!(rand_alphanum_string(5, &bytes), None);
    assert_eq!(rand_alphanum_string(0, &vec![]), Some(String::new()));
    let s = rand_alphanum_string(16, &(0..=255u8).collect()).unwrap();
    assert_eq!(s.chars().count(), 16);
    assert!(s.chars().all(|c| c.is_alphanumeric()));
    assert_eq!(s, "0123456789ABCDEF");
}

#[test]
fn four_bytes_make_a_big_endian_u32() {
    assert_eq!(u32_from_random_bytes([0x12, 0x34, 0x56, 0x78]), 0x1234_5678);
    assert_eq!(u32_from_random_bytes([0xFF, 0, 0, 1]), 0xFF00_0001);
    assert_eq!(u32_from_random_bytes([0, 0, 0, 0]), 0);
    assert_eq!(u32_from_random_bytes([0xFF; 4]), u32::MAX);
}

#[test]
fn distinct_buffers_give_distinct_numbers() {
    let a = u32_from_random_bytes([1, 2, 3, 4]);
    let b = u32_from_random_bytes([4, 3, 2, 1]);
    let c = u32_from_random_bytes([1, 2, 3, 5]);
    assert_ne!(a, b);
    assert_ne!(a, c);
    assert_eq!(a.to_be_bytes(), [1, 2, 3, 4]);
}
