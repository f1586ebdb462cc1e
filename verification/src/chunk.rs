//! A chunk: a length-prefixed, CRC-suffixed record pairing a chunk type
//! with an opaque payload. The checksum is always the CRC-32/ISO-HDLC of
//! the type bytes followed by the data bytes.

use vstd::prelude::*;

use crate::be_bytes::{
    lemma_u32_be_bytes_id, lemma_u32_be_round_trip, push_u32_be, read_u32_be, spec_u32_from_be,
    spec_u32_to_be,
};
use crate::checksum::{crc32, spec_crc32};
use crate::chunk_type::{all_alpha, ChunkType};
use crate::error::PngError;
use crate::text::bytes_as_str;

verus! {

use vstd::slice::{slice_subrange, slice_to_vec};
use vstd::utf8::{decode_utf8, valid_utf8};

/// The mathematical content of a chunk: its 4 type bytes and its payload.
/// Length and checksum are derived, never independent.
#[verifier::ext_equal]
pub ghost struct ChunkModel {
    pub type_bytes: Seq<u8>,
    pub data: Seq<u8>,
}

impl ChunkModel {
    /// A structurally sound chunk: a 4-byte alphabetic type, and a payload
    /// whose length fits the 32-bit length field.
    pub open spec fn wf(self) -> bool {
        &&& self.type_bytes.len() == 4
        &&& all_alpha(self.type_bytes)
        &&& self.data.len() <= u32::MAX
    }

    /// The exact serialized form: big-endian length, type bytes, data,
    /// big-endian CRC-32 over type and data.
    pub open spec fn spec_bytes(self) -> Seq<u8> {
        spec_u32_to_be(self.data.len() as u32) + self.type_bytes + self.data + spec_u32_to_be(
            spec_crc32(self.type_bytes + self.data),
        )
    }

    /// The number of bytes the serialized form occupies.
    pub open spec fn size(self) -> int {
        12 + self.data.len() as int
    }
}

/// What parsing a chunk at the front of `b` yields. A record needs its 12
/// fixed bytes and its declared data length; its type must be alphabetic;
/// its stored checksum must equal the one recomputed over type and data.
pub open spec fn spec_parse_chunk(b: Seq<u8>) -> Result<ChunkModel, PngError> {
    if b.len() < 12 {
        Err(PngError::Truncated)
    } else {
        let len = spec_u32_from_be(b.subrange(0, 4)) as int;
        if b.len() < 12 + len {
            Err(PngError::Truncated)
        } else if !all_alpha(b.subrange(4, 8)) {
            Err(PngError::InvalidChunkType)
        } else {
            let m = ChunkModel { type_bytes: b.subrange(4, 8), data: b.subrange(8, 8 + len) };
            if spec_u32_from_be(b.subrange(8 + len, 12 + len)) == spec_crc32(
                m.type_bytes + m.data,
            ) {
                Ok(m)
            } else {
                Err(PngError::CrcMismatch)
            }
        }
    }
}

/// A chunk. Its view is its mathematical content; the stored length and
/// checksum fields always agree with that content.
#[derive(Debug)]
pub struct Chunk {
    chunk_type: ChunkType,
    data: Vec<u8>,
    length: u32,
    crc: u32,
}

impl View for Chunk {
    type V = ChunkModel;

    closed spec fn view(&self) -> ChunkModel {
        ChunkModel { type_bytes: self.chunk_type@, data: self.data@ }
    }
}

/// The checksum over a chunk type's bytes followed by payload bytes.
fn checksum_of(chunk_type: &ChunkType, data: &[u8]) -> (r: u32)
    ensures
        r == spec_crc32(chunk_type@ + data@),
{
    let mut buf: Vec<u8> = Vec::new();
    let tb = chunk_type.bytes();
    buf.push(tb[0]);
    buf.push(tb[1]);
    buf.push(tb[2]);
    buf.push(tb[3]);
    let mut i: usize = 0;
    while i < data.len()
        invariant
            i <= data@.len(),
            buf@ =~= chunk_type@ + data@.subrange(0, i as int),
        decreases data@.len() - i,
    {
        buf.push(data[i]);
        i += 1;
    }
    proof {
        assert(buf@ =~= chunk_type@ + data@);
    }
    crc32(buf.as_slice())
}

impl Chunk {
    #[verifier::type_invariant]
    spec fn type_inv(self) -> bool {
        &&& self@.wf()
        &&& self.length == self.data@.len()
        &&& self.crc == spec_crc32(self.chunk_type@ + self.data@)
    }

    /// Builds a fresh chunk from a type and a payload; the length and the
    /// checksum are computed, never taken on trust.
    pub fn new(chunk_type: ChunkType, data: Vec<u8>) -> (r: Chunk)
        requires
            data@.len() <= u32::MAX,
        ensures
            r@ == (ChunkModel { type_bytes: chunk_type@, data: data@ }),
    {
        proof {
            use_type_invariant(&chunk_type);
        }
        let length = data.len() as u32;
        let crc = checksum_of(&chunk_type, data.as_slice());
        Chunk { chunk_type, data, length, crc }
    }

    /// The payload's byte count.
    pub fn length(&self) -> (r: u32)
        ensures
            r == self@.data.len(),
    {
        proof {
            use_type_invariant(&*self);
        }
        self.length
    }

    /// The chunk's type.
    pub fn chunk_type(&self) -> (r: &ChunkType)
        ensures
            r@ == self@.type_bytes,
    {
        &self.chunk_type
    }

    /// The payload bytes.
    pub fn data(&self) -> (r: &[u8])
        ensures
            r@ == self@.data,
    {
        self.data.as_slice()
    }

    /// The stored checksum, always the CRC-32 over type and data.
    pub fn crc(&self) -> (r: u32)
        ensures
            r == spec_crc32(self@.type_bytes + self@.data),
    {
        proof {
            use_type_invariant(&*self);
        }
        self.crc
    }

    /// The payload decoded as UTF-8 text, or the not-UTF-8 error.
    pub fn data_as_string(&self) -> (r: Result<String, PngError>)
        ensures
            r is Ok <==> valid_utf8(self@.data),
            r matches Ok(s) ==> s@ == decode_utf8(self@.data),
            r matches Err(e) ==> e == PngError::NotUtf8,
    {
        match bytes_as_str(self.data.as_slice()) {
            Some(s) => {
                proof {
                    crate::text::lemma_str_bytes_decode(s@, self.data@);
                }
                Ok(s.to_owned())
            },
            None => Err(PngError::NotUtf8),
        }
    }

    /// The chunk's exact serialized form.
    pub fn as_bytes(&self) -> (r: Vec<u8>)
        ensures
            r@ == self@.spec_bytes(),
    {
        proof {
            use_type_invariant(&*self);
        }
        let mut out: Vec<u8> = Vec::new();
        push_u32_be(&mut out, self.length);
        let tb = self.chunk_type.bytes();
        out.push(tb[0]);
        out.push(tb[1]);
        out.push(tb[2]);
        out.push(tb[3]);
        let mut i: usize = 0;
        while i < self.data.len()
            invariant
                i <= self.data@.len(),
                out@ =~= spec_u32_to_be(self.length) + self.chunk_type@ + self.data@.subrange(
                    0,
                    i as int,
                ),
            decreases self.data@.len() - i,
        {
            out.push(self.data[i]);
            i += 1;
        }
        push_u32_be(&mut out, self.crc);
        proof {
            assert(out@ =~= self@.spec_bytes());
        }
        out
    }

    /// Parses a chunk from the front of `bytes`, consuming exactly 12 bytes
    /// plus the declared data length; trailing bytes are left untouched.
    pub fn parse(bytes: &[u8]) -> (r: Result<Chunk, PngError>)
        ensures
            match r {
                Ok(c) => spec_parse_chunk(bytes@) == Ok::<ChunkModel, PngError>(c@),
                Err(e) => spec_parse_chunk(bytes@) == Err::<ChunkModel, PngError>(e),
            },
    {
        if bytes.len() < 12 {
            return Err(PngError::Truncated);
        }
        let length = read_u32_be(bytes, 0);
        let len = length as usize;
        if bytes.len() - 12 < len {
            return Err(PngError::Truncated);
        }
        let raw_type: [u8; 4] = [bytes[4], bytes[5], bytes[6], bytes[7]];
        proof {
            assert(raw_type@ =~= bytes@.subrange(4, 8));
        }
        let chunk_type = match ChunkType::parse(raw_type) {
            Ok(t) => t,
            Err(e) => {
                return Err(e);
            },
        };
        let data = slice_to_vec(slice_subrange(bytes, 8, 8 + len));
        let stored = read_u32_be(bytes, 8 + len);
        let computed = checksum_of(&chunk_type, data.as_slice());
        if stored != computed {
            return Err(PngError::CrcMismatch);
        }
        let c = Chunk { chunk_type, data, length, crc: stored };
        proof {
            let m = ChunkModel {
                type_bytes: bytes@.subrange(4, 8),
                data: bytes@.subrange(8, 8 + len as int),
            };
            assert(c@ =~= m);
        }
        Ok(c)
    }
}

/// Any well-formed chunk content, serialized and parsed back, yields
/// exactly itself: type, data, and hence length and checksum.
pub proof fn lemma_chunk_round_trip(m: ChunkModel)
    requires
        m.wf(),
    ensures
        spec_parse_chunk(m.spec_bytes()) == Ok::<ChunkModel, PngError>(m),
{
    let b = m.spec_bytes();
    let len = m.data.len() as int;
    lemma_u32_be_round_trip(m.data.len() as u32);
    lemma_u32_be_round_trip(spec_crc32(m.type_bytes + m.data));
    assert(b.len() == 12 + len);
    assert(b.subrange(0, 4) =~= spec_u32_to_be(m.data.len() as u32));
    assert(b.subrange(4, 8) =~= m.type_bytes);
    assert(b.subrange(8, 8 + len) =~= m.data);
    assert(b.subrange(8 + len, 12 + len) =~= spec_u32_to_be(spec_crc32(m.type_bytes + m.data)));
    assert(spec_parse_chunk(b) matches Ok(p) && p =~= m);
}

/// A successful parse consumes a prefix that is exactly the serialized
/// form of the chunk it yields, and that chunk is well formed.
pub proof fn lemma_chunk_parse_exact(b: Seq<u8>)
    ensures
        spec_parse_chunk(b) matches Ok(m) ==> m.wf() && 12 <= m.size() <= b.len()
            && m.spec_bytes() == b.subrange(0, m.size()),
{
    if spec_parse_chunk(b) is Ok {
        let m = spec_parse_chunk(b)->Ok_0;
        let len = spec_u32_from_be(b.subrange(0, 4)) as int;
        lemma_u32_be_bytes_id(b.subrange(0, 4));
        lemma_u32_be_bytes_id(b.subrange(8 + len, 12 + len));
        assert(m.data.len() == len);
        assert(spec_u32_to_be(m.data.len() as u32) =~= b.subrange(0, 4));
        assert(spec_u32_to_be(spec_crc32(m.type_bytes + m.data)) =~= b.subrange(
            8 + len,
            12 + len,
        ));
        assert(m.spec_bytes() =~= b.subrange(0, m.size()));
    }
}

} // verus!
