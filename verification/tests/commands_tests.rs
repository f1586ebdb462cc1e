use pngme::chunk::Chunk;
use pngme::chunk_type::ChunkType;
use pngme::commands::{decode, encode, print, remove, DecodeOutcome};
use pngme::error::PngError;
use pngme::png::Png;

const SIGNATURE: [u8; 8] = [0x89, 0x50, 0x4e, 0x47, 0x0d, 0x0a, 0x1a, 0x0a];

fn chunk(chunk_type: &str, data: &[u8]) -> Chunk {
    Chunk::new(ChunkType::parse_str(chunk_type).unwrap(), data.to_vec())
}

fn png_bytes(chunks: Vec<Chunk>) -> Vec<u8> {
    let mut out = SIGNATURE.to_vec();
    for c in chunks {
        out.extend_from_slice(&c.as_bytes());
    }
    out
}

#[test]
fn test_encode_appends_chunk() {
    let image = png_bytes(vec![chunk("FrSt", b"one")]);
    let out = encode(&image, "ruSt", b"a secret").unwrap();
    let expected = png_bytes(vec![chunk("FrSt", b"one"), chunk("ruSt", b"a secret")]);
    assert_eq!(out, expected);

    let png = Png::parse(&out).unwrap();
    let found = png.find_first_by_type("ruSt").unwrap();
    assert_eq!(found.data_as_string().unwrap(), "a secret");
}

#[test]
fn test_encode_rejects_bad_inputs() {
    let image = png_bytes(vec![chunk("FrSt", b"one")]);
    assert_eq!(encode(&image, "ru1t", b"x").unwrap_err(), PngError::InvalidChunkType);
    assert_eq!(encode(&image, "rust!", b"x").unwrap_err(), PngError::InvalidLength);
    assert_eq!(encode(b"not a png", "ruSt", b"x").unwrap_err(), PngError::BadSignature);
}

#[test]
fn test_decode_three_way_outcome() {
    let image = png_bytes(vec![
        chunk("teXt", b"readable"),
        chunk("biNd", &[0xff, 0xfe, 0x00, 0x9f]),
    ]);

    match decode(&image, "teXt").unwrap() {
        DecodeOutcome::Text(s) => assert_eq!(s, "readable"),
        _ => panic!("expected decoded text"),
    }
    assert!(matches!(decode(&image, "biNd").unwrap(), DecodeOutcome::Undecodable));
    assert!(matches!(decode(&image, "noNe").unwrap(), DecodeOutcome::NotFound));
    assert_eq!(decode(b"junk", "teXt").unwrap_err(), PngError::BadSignature);
}

#[test]
fn test_remove_command() {
    let image = png_bytes(vec![chunk("FrSt", b"one"), chunk("teSt", b"two")]);
    let out = remove(&image, "teSt").unwrap();
    assert_eq!(out, png_bytes(vec![chunk("FrSt", b"one")]));

    assert_eq!(remove(&image, "noNe").unwrap_err(), PngError::ChunkNotFound);
    assert_eq!(remove(b"", "teSt").unwrap_err(), PngError::BadSignature);
}

#[test]
fn test_print_command() {
    let image = png_bytes(vec![chunk("FrSt", b"one"), chunk("ScNd", b"two")]);
    assert_eq!(print(&image).unwrap(), "FrSt: one\nScNd: two\n");

    let mut corrupted = image.clone();
    let n = corrupted.len();
    corrupted[n - 1] ^= 0x01;
    assert_eq!(print(&corrupted).unwrap_err(), PngError::CrcMismatch);
}
