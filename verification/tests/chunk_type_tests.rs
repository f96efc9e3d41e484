use pngme::chunk_type::ChunkType;
use pngme::error::{Error, FormatError};
use std::convert::TryFrom;
use std::str::FromStr;

#[test]
pub fn test_chunk_type_from_bytes() {
    let expected = [82, 117, 83, 116];
    let actual = ChunkType::try_from([82, 117, 83, 116]).unwrap();

    assert_eq!(expected, actual.bytes());
}

#[test]
pub fn test_chunk_type_from_str() {
    let expected = ChunkType::try_from([82, 117, 83, 116]).unwrap();
    let actual = ChunkType::from_str("RuSt").unwrap();
    assert_eq!(expected, actual);
}

#[test]
pub fn test_chunk_type_is_critical() {
    let chunk = ChunkType::from_str("RuSt").unwrap();
    assert!(chunk.is_critical());
}

#[test]
pub fn test_chunk_type_is_not_critical() {
    let chunk = ChunkType::from_str("ruSt").unwrap();
    assert!(!chunk.is_critical());
}

#[test]
pub fn test_chunk_type_is_public() {
    let chunk = ChunkType::from_str("RUSt").unwrap();
    assert!(chunk.is_public());
}

#[test]
pub fn test_chunk_type_is_not_public() {
    let chunk = ChunkType::from_str("RuSt").unwrap();
    assert!(!chunk.is_public());
}

#[test]
pub fn test_chunk_type_is_reserved_bit_valid() {
    let chunk = ChunkType::from_str("RuSt").unwrap();
    assert!(chunk.is_reserved_bit_valid());
}

#[test]
pub fn test_chunk_type_is_reserved_bit_invalid() {
    let chunk = ChunkType::from_str("Rust").unwrap();
    assert!(!chunk.is_reserved_bit_valid());
}

#[test]
pub fn test_chunk_type_is_safe_to_copy() {
    let chunk = ChunkType::from_str("RuSt").unwrap();
    assert!(chunk.is_safe_to_copy());
}

#[test]
pub fn test_chunk_type_is_unsafe_to_copy() {
    let chunk = ChunkType::from_str("RuST").unwrap();
    assert!(!chunk.is_safe_to_copy());
}

#[test]
pub fn test_valid_chunk_is_valid() {
    let chunk = ChunkType::from_str("RuSt").unwrap();
    assert!(chunk.is_valid());
}

#[test]
pub fn test_invalid_chunk_is_valid() {
    let chunk = ChunkType::from_str("Rust").unwrap();
    assert!(!chunk.is_valid());

    let chunk = ChunkType::from_str("Ru1t");
    assert!(chunk.is_err());
}

#[test]
pub fn test_chunk_type_string() {
    let chunk = ChunkType::from_str("RuSt").unwrap();
    assert_eq!(&chunk.to_string(), "RuSt");
}

#[test]
pub fn test_chunk_type_trait_impls() {
    let chunk_type_1: ChunkType = TryFrom::try_from([82, 117, 83, 116]).unwrap();
    let chunk_type_2: ChunkType = FromStr::from_str("RuSt").unwrap();
    let _chunk_string = chunk_type_1.to_string();
    let _are_chunks_equal = chunk_type_1 == chunk_type_2;
}

#[test]
fn tag_flags_follow_the_case_of_each_letter() {
    let t = ChunkType::try_from([82, 117, 83, 116]).unwrap();
    assert!(t.is_critical());
    assert!(!t.is_public());
    assert!(t.is_reserved_bit_valid());
    assert!(t.is_valid());
    assert!(t.is_safe_to_copy());

    let t = ChunkType::try_from([82, 117, 115, 116]).unwrap();
    assert!(!t.is_reserved_bit_valid());
    assert!(!t.is_valid());
}

#[test]
fn tag_text_with_a_digit_is_refused() {
    assert_eq!(
        ChunkType::from_str("Ru1t"),
        Err(Error::Format(FormatError::InvalidTagBytes))
    );
}

#[test]
fn tag_bytes_next_to_the_letters_are_refused() {
    for b in [0x40u8, 0x5b, 0x60, 0x7b, 0x00, 0x20, 0xff] {
        assert_eq!(
            ChunkType::try_from([b, 117, 83, 116]),
            Err(Error::Format(FormatError::InvalidTagBytes))
        );
        assert_eq!(
            ChunkType::try_from([82, 117, 83, b]),
            Err(Error::Format(FormatError::InvalidTagBytes))
        );
    }
    for b in [0x41u8, 0x5a, 0x61, 0x7a] {
        assert_eq!(ChunkType::try_from([b, b, b, b]).unwrap().bytes(), [b, b, b, b]);
    }
}

#[test]
fn tag_text_of_another_length_is_refused() {
    assert_eq!(
        ChunkType::from_str("RuS"),
        Err(Error::Format(FormatError::InvalidTagLength { actual: 3 }))
    );
    assert_eq!(
        ChunkType::from_str("RuStt"),
        Err(Error::Format(FormatError::InvalidTagLength { actual: 5 }))
    );
    assert_eq!(
        ChunkType::from_str(""),
        Err(Error::Format(FormatError::InvalidTagLength { actual: 0 }))
    );
    // Two letters and one two-byte character: four bytes, not four letters.
    assert_eq!(
        ChunkType::from_str("R\u{e9}t"),
        Err(Error::Format(FormatError::InvalidTagBytes))
    );
    // Four characters, five bytes.
    assert_eq!(
        ChunkType::from_str("Ru\u{e9}t"),
        Err(Error::Format(FormatError::InvalidTagLength { actual: 5 }))
    );
}

#[test]
fn tags_are_equal_when_their_bytes_are() {
    let a = ChunkType::from_str("RuSt").unwrap();
    let b = ChunkType::from_str("RuSt").unwrap();
    let c = ChunkType::from_str("rust").unwrap();
    let d = ChunkType::from_str("RuSu").unwrap();
    assert!(a == b);
    assert!(a != c);
    assert!(a != d);
    assert_eq!("RuSt".parse::<ChunkType>(), Ok(a));
}

#[test]
fn tag_text_is_its_four_letters() {
    for text in ["IHDR", "tEXt", "zzzz", "AAAA"] {
        assert_eq!(ChunkType::from_str(text).unwrap().to_string(), text);
    }
}
