use redb_browser::interpret::classify;
use redb_browser::interpret::interpret;
use redb_browser::interpret::render;
use redb_browser::interpret::u64_to_dec;
use redb_browser::interpret::Rendering;

#[test]
fn empty_sequence() {
    let bytes: Vec<u8> = vec![];
    assert_eq!(interpret(&bytes), "Empty");
}

#[test]
fn single_byte_booleans() {
    assert_eq!(interpret(&[0u8]), "bool: false");
    assert_eq!(interpret(&[1u8]), "bool: true");
}

#[test]
fn single_byte_u8() {
    assert_eq!(interpret(&[2u8]), "u8: 2");
    assert_eq!(interpret(&[42u8]), "u8: 42");
    assert_eq!(interpret(&[255u8]), "u8: 255");
}

#[test]
fn two_bytes_u16_little_endian() {
    assert_eq!(interpret(&[0x34u8, 0x12u8]), "u16: 4660");
    assert_eq!(interpret(&[0u8, 0u8]), "u16: 0");
    assert_eq!(interpret(&[255u8, 255u8]), "u16: 65535");
}

#[test]
fn four_bytes_u32_little_endian() {
    assert_eq!(interpret(&[25u8, 0u8, 0u8, 0u8]), "u32: 25");
    assert_eq!(interpret(&[0x78u8, 0x56u8, 0x34u8, 0x12u8]), "u32: 305419896");
    assert_eq!(interpret(&[255u8, 255u8, 255u8, 255u8]), "u32: 4294967295");
}

#[test]
fn eight_bytes_u64_little_endian() {
    assert_eq!(interpret(&[1u8, 0u8, 0u8, 0u8, 0u8, 0u8, 0u8, 0u8]), "u64: 1");
    assert_eq!(interpret(&[255u8; 8]), "u64: 18446744073709551615");
}

#[test]
fn four_byte_text_is_still_u32() {
    // The 1-byte/4-byte ambiguity is intentional: length dispatch wins.
    assert_eq!(interpret("abcd".as_bytes()), "u32: 1684234849");
}

#[test]
fn other_lengths_valid_utf8() {
    assert_eq!(interpret("abc".as_bytes()), "String: abc");
    assert_eq!(interpret("Alice".as_bytes()), "String: Alice");
    assert_eq!(interpret("Wi-fi router".as_bytes()), "String: Wi-fi router");
}

#[test]
fn other_lengths_multibyte_utf8() {
    let text = "h\u{e9}llo\u{1f600}";
    assert!(![0usize, 1, 2, 4, 8].contains(&text.len()));
    assert_eq!(interpret(text.as_bytes()), format!("String: {}", text));
}

#[test]
fn other_lengths_invalid_utf8_raw_bytes() {
    assert_eq!(interpret(&[0xffu8, 0xfeu8, 0x01u8]), "Raw bytes: [255, 254, 1]");
    assert_eq!(
        interpret(&[0u8, 159u8, 146u8, 150u8, 7u8]),
        "Raw bytes: [0, 159, 146, 150, 7]"
    );
}

#[test]
fn classify_per_case() {
    let empty: [u8; 0] = [];
    assert_eq!(classify(&empty), Rendering::Empty);
    assert_eq!(classify(&[0u8]), Rendering::Bool(false));
    assert_eq!(classify(&[1u8]), Rendering::Bool(true));
    assert_eq!(classify(&[9u8]), Rendering::UInt8(9));
    assert_eq!(classify(&[0x34u8, 0x12u8]), Rendering::UInt16(0x1234));
    assert_eq!(classify(&[4u8, 3u8, 2u8, 1u8]), Rendering::UInt32(0x01020304));
    assert_eq!(
        classify(&[8u8, 7u8, 6u8, 5u8, 4u8, 3u8, 2u8, 1u8]),
        Rendering::UInt64(0x0102030405060708)
    );
    assert_eq!(classify("abc".as_bytes()), Rendering::Text("abc".to_string()));
    assert_eq!(
        classify(&[0xffu8, 0xfeu8, 1u8]),
        Rendering::RawBytes(vec![0xff, 0xfe, 1])
    );
}

#[test]
fn render_per_case() {
    assert_eq!(render(&Rendering::Empty), "Empty");
    assert_eq!(render(&Rendering::Bool(true)), "bool: true");
    assert_eq!(render(&Rendering::Bool(false)), "bool: false");
    assert_eq!(render(&Rendering::UInt8(7)), "u8: 7");
    assert_eq!(render(&Rendering::UInt16(65535)), "u16: 65535");
    assert_eq!(render(&Rendering::UInt32(1)), "u32: 1");
    assert_eq!(render(&Rendering::UInt64(123456789)), "u64: 123456789");
    assert_eq!(
        render(&Rendering::Text("hi there".to_string())),
        "String: hi there"
    );
    assert_eq!(render(&Rendering::RawBytes(vec![1, 2, 3])), "Raw bytes: [1, 2, 3]");
}

#[test]
fn decimal_rendering() {
    assert_eq!(u64_to_dec(0), "0");
    assert_eq!(u64_to_dec(10), "10");
    assert_eq!(u64_to_dec(90125), "90125");
    assert_eq!(u64_to_dec(u64::MAX), "18446744073709551615");
}
