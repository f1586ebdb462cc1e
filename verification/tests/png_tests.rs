use pngme::chunk::Chunk;
use pngme::chunk_type::ChunkType;
use pngme::error::PngError;
use pngme::png::Png;

const SIGNATURE: [u8; 8] = [0x89, 0x50, 0x4e, 0x47, 0x0d, 0x0a, 0x1a, 0x0a];

fn chunk(chunk_type: &str, data: &str) -> Chunk {
    Chunk::new(
        ChunkType::parse_str(chunk_type).unwrap(),
        data.as_bytes().to_vec(),
    )
}

fn png_bytes(chunks: Vec<Chunk>) -> Vec<u8> {
    let mut out = SIGNATURE.to_vec();
    for c in chunks {
        out.extend_from_slice(&c.as_bytes());
    }
    out
}

#[test]
fn test_png_parse_round_trip() {
    let bytes = png_bytes(vec![
        chunk("FrSt", "I am the first chunk"),
        chunk("miDl", "I am another chunk"),
        chunk("LASt", "I am the last chunk"),
    ]);
    let png = Png::parse(&bytes).unwrap();
    assert_eq!(png.as_bytes(), bytes);
}

#[test]
fn test_png_parse_empty() {
    let png = Png::parse(&SIGNATURE).unwrap();
    assert_eq!(png.as_bytes(), SIGNATURE.to_vec());
    assert!(png.find_first_by_type("RuSt").is_none());
}

#[test]
fn test_png_parse_bad_signature() {
    let mut bytes = png_bytes(vec![chunk("RuSt", "hello")]);
    bytes[0] = 0x88;
    assert_eq!(Png::parse(&bytes).unwrap_err(), PngError::BadSignature);
    assert_eq!(Png::parse(&[]).unwrap_err(), PngError::BadSignature);
}

#[test]
fn test_png_parse_propagates_chunk_errors() {
    // A corrupted payload byte surfaces as a checksum mismatch.
    let mut bytes = png_bytes(vec![chunk("FrSt", "one"), chunk("ScNd", "two")]);
    let n = bytes.len();
    bytes[n - 5] ^= 0x01;
    assert_eq!(Png::parse(&bytes).unwrap_err(), PngError::CrcMismatch);

    // A chunk cut short surfaces as a truncation.
    let bytes = png_bytes(vec![chunk("FrSt", "one")]);
    let short = &bytes[..bytes.len() - 1];
    assert_eq!(Png::parse(short).unwrap_err(), PngError::Truncated);
}

#[test]
fn test_png_append_then_find() {
    let bytes = png_bytes(vec![chunk("FrSt", "I am the first chunk")]);
    let mut png = Png::parse(&bytes).unwrap();
    png.append_chunk(chunk("teSt", "Message"));
    let found = png.find_first_by_type("teSt").unwrap();
    assert_eq!(found.chunk_type().to_string(), "teSt");
    assert_eq!(found.data_as_string().unwrap(), "Message");
}

#[test]
fn test_png_remove_first_keeps_later_duplicates() {
    let mut png = Png::new();
    png.append_chunk(chunk("FrSt", "zero"));
    png.append_chunk(chunk("teSt", "one"));
    png.append_chunk(chunk("miDl", "two"));
    png.append_chunk(chunk("teSt", "three"));

    let removed = png.remove_first_by_type("teSt").unwrap();
    assert_eq!(removed.data_as_string().unwrap(), "one");

    // The remaining chunks keep their original relative order, and the
    // later duplicate is untouched.
    let expected = png_bytes(vec![
        chunk("FrSt", "zero"),
        chunk("miDl", "two"),
        chunk("teSt", "three"),
    ]);
    assert_eq!(png.as_bytes(), expected);

    let still_there = png.find_first_by_type("teSt").unwrap();
    assert_eq!(still_there.data_as_string().unwrap(), "three");
}

#[test]
fn test_png_remove_absent_type() {
    let mut png = Png::new();
    png.append_chunk(chunk("FrSt", "zero"));
    assert_eq!(
        png.remove_first_by_type("teSt").unwrap_err(),
        PngError::ChunkNotFound
    );
    // The container is unchanged by the failed removal.
    assert_eq!(png.as_bytes(), png_bytes(vec![chunk("FrSt", "zero")]));
}

#[test]
fn test_png_find_is_case_sensitive() {
    let mut png = Png::new();
    png.append_chunk(chunk("teSt", "payload"));
    assert!(png.find_first_by_type("TeSt").is_none());
    assert!(png.find_first_by_type("teSt").is_some());
    assert!(png.find_first_by_type("teS").is_none());
}

#[test]
fn test_png_render() {
    let mut png = Png::new();
    png.append_chunk(chunk("FrSt", "hello"));
    png.append_chunk(Chunk::new(
        ChunkType::parse_str("biNd").unwrap(),
        vec![0xffu8, 0xfe],
    ));
    assert_eq!(png.render(), "FrSt: hello\nbiNd: <invalid data>\n");
}
