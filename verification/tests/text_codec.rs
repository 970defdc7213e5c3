//! Tests for the ZSCII decoder and the decimal formatter.

use rzm::{decode_string_at, signed_dec, Memory};

/// A minimal image: a 64-byte header followed by `tail`.
fn image_with(tail: &[u8]) -> Memory {
    let mut bytes = vec![0u8; 64];
    bytes.extend_from_slice(tail);
    Memory::from(bytes)
}

#[test]
fn test_string_from_pc() {
    // f = 0x0b = 0b01011
    // o = 0x14 = 0b10100
    // foo = 0b1 01011 10100 10100
    //     = 0xae94
    let memory = image_with(&[0xae, 0x94]);
    let text = decode_string_at(&memory, 64).unwrap();
    assert_eq!(b"foo".to_vec(), text);
}

#[test]
fn test_short_string_from_pc() {
    // f = 0x0b = 0b01011
    // f = 0b1 01011 00101 00101
    //   = 0xaca5
    let memory = image_with(&[0xac, 0xa5]);
    let text = decode_string_at(&memory, 64).unwrap();
    assert_eq!(b"f".to_vec(), text);
}

#[test]
fn test_long_string_from_heap() {
    // q = 0x16, u = 0x1a, x = 0x1d
    // quux = 0b0 10110 11010 11010, 0b1 11101 00101 00101
    // Leave a couple of zeros at the front to test the offset handling.
    let memory = image_with(&[0x00, 0x00, 0x00, 0x5b, 0x5a, 0xf4, 0xa5]);
    let text = decode_string_at(&memory, 64 + 3).unwrap();
    assert_eq!(b"quux".to_vec(), text);
}

#[test]
fn test_char_sets() {
    // Quux! = 0x04 0x16 0x1a | 0x1a 0x1d 0x05 | 0x14 0x05 0x05
    //       = 0b0 00100 10110 11010, 0b0 11010 11101 00101, 0b1 10100 00101 00101
    let memory = image_with(&[0x12, 0xda, 0x6b, 0xa5, 0xd0, 0xa5]);
    let text = decode_string_at(&memory, 64).unwrap();
    assert_eq!(b"Quux!".to_vec(), text);
}

#[test]
fn test_zscii_single_word() {
    // The memory word sequence 0xAE94 decodes to "foo".
    let memory = image_with(&[0xae, 0x94]);
    assert_eq!(b"foo".to_vec(), decode_string_at(&memory, 64).unwrap());
}

#[test]
fn test_ten_bit_escape() {
    // In the punctuation row, Z-character 6 starts a 10-bit escape; the
    // escape 0b00010 0b01010 is ZSCII 74, 'J'.
    // words: [5, 6, 2], [10, 5, 5] -> 0b0 00101 00110 00010, 0b1 01010 00101 00101
    let memory = image_with(&[0x14, 0xc2, 0xa8, 0xa5]);
    assert_eq!(b"J".to_vec(), decode_string_at(&memory, 64).unwrap());
}

#[test]
fn test_abbreviation_expansion() {
    // One abbreviation table at 66 with entry 0 pointing at the word for
    // "foo" (a word address, so its byte offset divided by two).
    let mut bytes = vec![0u8; 64];
    // string to decode at 64+8: [1, 0, pad] - abbreviation 1, index 0
    bytes[0x18] = 0;
    bytes[0x19] = 66; // abbreviations table at 66
    bytes.extend_from_slice(&[0x00, 0x00]); // 64: padding
    bytes.extend_from_slice(&[0x00, 0x24]); // 66: entry 0 -> word address 0x24 (byte 72)
    bytes.extend_from_slice(&[0x00, 0x00]); // 68: padding
    bytes.extend_from_slice(&[0x84, 0x05]); // 70: z-chars [1, 0, 5]: abbrev 1 entry 0
    bytes.extend_from_slice(&[0xae, 0x94]); // 72: "foo"
    let memory = Memory::from(bytes);
    assert_eq!(b"foo".to_vec(), decode_string_at(&memory, 70).unwrap());
}

#[test]
fn test_signed_dec_values() {
    assert_eq!(b"0".to_vec(), signed_dec(0));
    assert_eq!(b"75".to_vec(), signed_dec(75));
    assert_eq!(b"-30000".to_vec(), signed_dec(0x8ad0));
    assert_eq!(b"32767".to_vec(), signed_dec(0x7fff));
    assert_eq!(b"-32768".to_vec(), signed_dec(0x8000));
    assert_eq!(b"-1".to_vec(), signed_dec(0xffff));
}
