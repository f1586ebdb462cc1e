use pngme::chunk_type::ChunkType;
use pngme::error::PngError;

#[test]
pub fn test_chunk_type_from_bytes() {
    let expected = [82, 117, 83, 116];
    let actual = ChunkType::parse([82, 117, 83, 116]).unwrap();

    assert_eq!(expected, actual.bytes());
}

#[test]
pub fn test_chunk_type_from_str() {
    let expected = ChunkType::parse([82, 117, 83, 116]).unwrap();
    let actual = ChunkType::parse_str("RuSt").unwrap();
    assert_eq!(expected, actual);
}

#[test]
pub fn test_chunk_type_is_critical() {
    let chunk = ChunkType::parse_str("RuSt").unwrap();
    assert!(chunk.is_critical());
}

#[test]
pub fn test_chunk_type_is_not_critical() {
    let chunk = ChunkType::parse_str("ruSt").unwrap();
    assert!(!chunk.is_critical());
}

#[test]
pub fn test_chunk_type_is_public() {
    let chunk = ChunkType::parse_str("RUSt").unwrap();
    assert!(chunk.is_public());
}

#[test]
pub fn test_chunk_type_is_not_public() {
    let chunk = ChunkType::parse_str("RuSt").unwrap();
    assert!(!chunk.is_public());
}

#[test]
pub fn test_chunk_type_is_reserved_bit_valid() {
    let chunk = ChunkType::parse_str("RuSt").unwrap();
    assert!(chunk.is_reserved_bit_valid());
}

#[test]
pub fn test_chunk_type_is_reserved_bit_invalid() {
    let chunk = ChunkType::parse_str("Rust").unwrap();
    assert!(!chunk.is_reserved_bit_valid());
}

#[test]
pub fn test_chunk_type_is_safe_to_copy() {
    let chunk = ChunkType::parse_str("RuSt").unwrap();
    assert!(chunk.is_safe_to_copy());
}

#[test]
pub fn test_chunk_type_is_unsafe_to_copy() {
    let chunk = ChunkType::parse_str("RuST").unwrap();
    assert!(!chunk.is_safe_to_copy());
}

#[test]
pub fn test_valid_chunk_is_valid() {
    let chunk = ChunkType::parse_str("RuSt").unwrap();
    assert!(chunk.is_valid());
}

#[test]
pub fn test_invalid_chunk_is_valid() {
    let chunk = ChunkType::parse_str("Rust").unwrap();
    assert!(!chunk.is_valid());

    let chunk = ChunkType::parse_str("Ru1t");
    assert!(chunk.is_err());
}

#[test]
pub fn test_chunk_type_string() {
    let chunk = ChunkType::parse_str("RuSt").unwrap();
    assert_eq!(&chunk.to_string(), "RuSt");
}

#[test]
pub fn test_chunk_type_trait_impls() {
    let chunk_type_1: ChunkType = ChunkType::parse([82, 117, 83, 116]).unwrap();
    let chunk_type_2: ChunkType = ChunkType::parse_str("RuSt").unwrap();
    let _chunk_string = chunk_type_1.to_string();
    let _are_chunks_equal = chunk_type_1 == chunk_type_2;
}

#[test]
pub fn test_chunk_type_bit_semantics() {
    let t = ChunkType::parse([0x52, 0x75, 0x53, 0x74]).unwrap();
    assert!(t.is_critical());
    assert!(!t.is_public());
    assert!(t.is_reserved_bit_valid());
    assert!(t.is_safe_to_copy());
    assert!(t.is_valid());

    let t = ChunkType::parse_str("Rust").unwrap();
    assert!(!t.is_reserved_bit_valid());
    assert!(!t.is_valid());
}

#[test]
pub fn test_chunk_type_rejections() {
    assert_eq!(ChunkType::parse_str("Ru1t").unwrap_err(), PngError::InvalidChunkType);
    assert_eq!(ChunkType::parse([82, 117, 49, 116]).unwrap_err(), PngError::InvalidChunkType);
    assert_eq!(ChunkType::parse_str("RuS").unwrap_err(), PngError::InvalidLength);
    assert_eq!(ChunkType::parse_str("RuSts").unwrap_err(), PngError::InvalidLength);
    assert_eq!(ChunkType::parse_str("").unwrap_err(), PngError::InvalidLength);
}
