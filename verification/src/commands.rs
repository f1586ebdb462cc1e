//! The four operations offered to a command layer, each over already-read
//! bytes: embed a chunk, decode a chunk's payload, remove a chunk, and
//! render a listing.

use vstd::prelude::*;

use crate::chunk::{Chunk, ChunkModel};
use crate::chunk_type::{spec_parse_type_str, ChunkType};
use crate::error::PngError;
use crate::png::{spec_find, spec_parse_png, spec_png_bytes, spec_render, Png};

verus! {

use vstd::slice::slice_to_vec;
use vstd::string::StringSliceAdditionalSpecFns;
use vstd::utf8::{decode_utf8, valid_utf8};

/// The three-way outcome of decoding a chunk's payload by type: the decoded
/// text, a chunk present but not decodable, or no chunk of that type.
#[derive(Debug)]
pub enum DecodeOutcome {
    /// The chunk exists and its payload is valid UTF-8 text.
    Text(String),
    /// The chunk exists but its payload is not valid UTF-8.
    Undecodable,
    /// No chunk of the requested type exists.
    NotFound,
}

/// What embedding yields: the container re-serialized with a fresh chunk of
/// the given type and message appended at the end. An invalid type code is
/// rejected before the image is examined.
pub open spec fn spec_encode(image: Seq<u8>, code: Seq<u8>, message: Seq<u8>) -> Result<
    Seq<u8>,
    PngError,
> {
    match spec_parse_type_str(code) {
        Err(e) => Err(e),
        Ok(t) => match spec_parse_png(image) {
            Err(e) => Err(e),
            Ok(cs) => Ok(spec_png_bytes(cs.push(ChunkModel { type_bytes: t, data: message }))),
        },
    }
}

/// What removal yields: the container re-serialized without the first chunk
/// of the given type, or the not-found error when no chunk matches.
pub open spec fn spec_remove(image: Seq<u8>, code: Seq<char>) -> Result<Seq<u8>, PngError> {
    match spec_parse_png(image) {
        Err(e) => Err(e),
        Ok(cs) => match spec_find(cs, code) {
            None => Err(PngError::ChunkNotFound),
            Some(i) => Ok(spec_png_bytes(cs.remove(i))),
        },
    }
}

/// Embeds a message: parses the type code and the image, appends a fresh
/// chunk carrying the message, and returns the new image bytes.
pub fn encode(image: &[u8], chunk_type: &str, message: &[u8]) -> (r: Result<Vec<u8>, PngError>)
    requires
        message@.len() <= u32::MAX,
    ensures
        match r {
            Ok(out) => spec_encode(image@, chunk_type.spec_bytes(), message@) == Ok::<
                Seq<u8>,
                PngError,
            >(out@),
            Err(e) => spec_encode(image@, chunk_type.spec_bytes(), message@) == Err::<
                Seq<u8>,
                PngError,
            >(e),
        },
{
    let t = match ChunkType::parse_str(chunk_type) {
        Ok(t) => t,
        Err(e) => {
            return Err(e);
        },
    };
    let mut png = match Png::parse(image) {
        Ok(p) => p,
        Err(e) => {
            return Err(e);
        },
    };
    let ghost cs = png@;
    let data = slice_to_vec(message);
    let chunk = Chunk::new(t, data);
    proof {
        assert(chunk@ =~= (ChunkModel {
            type_bytes: spec_parse_type_str(chunk_type.spec_bytes())->Ok_0,
            data: message@,
        }));
    }
    png.append_chunk(chunk);
    Ok(png.as_bytes())
}

/// Decodes the payload of the first chunk of the given type as text,
/// telling apart an absent chunk, an undecodable payload, and a success.
pub fn decode(image: &[u8], chunk_type: &str) -> (r: Result<DecodeOutcome, PngError>)
    ensures
        match r {
            Err(e) => spec_parse_png(image@) == Err::<Seq<ChunkModel>, PngError>(e),
            Ok(out) => (spec_parse_png(image@) matches Ok(cs) && (match out {
                DecodeOutcome::NotFound => spec_find(cs, chunk_type@) is None,
                DecodeOutcome::Undecodable => spec_find(cs, chunk_type@) matches Some(i)
                    && !valid_utf8(cs[i].data),
                DecodeOutcome::Text(s) => spec_find(cs, chunk_type@) matches Some(i) && valid_utf8(
                    cs[i].data,
                ) && s@ == decode_utf8(cs[i].data),
            })),
        },
{
    let png = match Png::parse(image) {
        Ok(p) => p,
        Err(e) => {
            return Err(e);
        },
    };
    match png.find_first_by_type(chunk_type) {
        None => Ok(DecodeOutcome::NotFound),
        Some(c) => match c.data_as_string() {
            Ok(s) => Ok(DecodeOutcome::Text(s)),
            Err(_) => Ok(DecodeOutcome::Undecodable),
        },
    }
}

/// Removes the first chunk of the given type and returns the new image
/// bytes; an absent type is the not-found error, distinct from any parse
/// failure.
pub fn remove(image: &[u8], chunk_type: &str) -> (r: Result<Vec<u8>, PngError>)
    ensures
        match r {
            Ok(out) => spec_remove(image@, chunk_type@) == Ok::<Seq<u8>, PngError>(out@),
            Err(e) => spec_remove(image@, chunk_type@) == Err::<Seq<u8>, PngError>(e),
        },
{
    let mut png = match Png::parse(image) {
        Ok(p) => p,
        Err(e) => {
            return Err(e);
        },
    };
    match png.remove_first_by_type(chunk_type) {
        Ok(_) => Ok(png.as_bytes()),
        Err(e) => Err(e),
    }
}

/// Renders the listing of all chunks of a parsed image; it fails only when
/// the image itself does not parse.
pub fn print(image: &[u8]) -> (r: Result<String, PngError>)
    ensures
        match r {
            Ok(s) => (spec_parse_png(image@) matches Ok(cs) && s@ == spec_render(cs)),
            Err(e) => spec_parse_png(image@) == Err::<Seq<ChunkModel>, PngError>(e),
        },
{
    let png = match Png::parse(image) {
        Ok(p) => p,
        Err(e) => {
            return Err(e);
        },
    };
    Ok(png.render())
}

} // verus!
