//! The 4-byte chunk type code and its naming-convention semantics: each of
//! the four bytes must be ASCII alphabetic, and the case of each byte
//! encodes one boolean property of the chunk.

use vstd::prelude::*;

use crate::error::PngError;
use crate::text::{bytes_as_str, chars_of_bytes, lemma_ascii_bytes_decode};

verus! {

use vstd::string::{StringSliceAdditionalSpecFns, StrSliceExecFns};

/// The ASCII codes of `A` through `Z`.
pub open spec fn is_upper(b: u8) -> bool {
    65 <= b <= 90
}

/// The ASCII codes of `a` through `z`.
pub open spec fn is_lower(b: u8) -> bool {
    97 <= b <= 122
}

/// An ASCII alphabetic byte.
pub open spec fn is_alpha(b: u8) -> bool {
    is_upper(b) || is_lower(b)
}

/// Every byte of the sequence is ASCII alphabetic.
pub open spec fn all_alpha(b: Seq<u8>) -> bool {
    forall|i: int| 0 <= i < b.len() ==> is_alpha(#[trigger] b[i])
}

/// What parsing a raw 4-byte code yields: the bytes themselves when all
/// are alphabetic, the invalid-type error otherwise.
pub open spec fn spec_parse_type(b: Seq<u8>) -> Result<Seq<u8>, PngError>
    recommends
        b.len() == 4,
{
    if all_alpha(b) {
        Ok(b)
    } else {
        Err(PngError::InvalidChunkType)
    }
}

/// What parsing a type code given as a string yields, over the string's
/// bytes: a wrong length is rejected before the bytes are examined.
pub open spec fn spec_parse_type_str(b: Seq<u8>) -> Result<Seq<u8>, PngError> {
    if b.len() != 4 {
        Err(PngError::InvalidLength)
    } else {
        spec_parse_type(b)
    }
}

/// The type's four characters spell `code`, case-sensitively.
pub open spec fn spec_code_matches(t: Seq<u8>, code: Seq<char>) -> bool {
    &&& code.len() == 4
    &&& t.len() == 4
    &&& forall|i: int| 0 <= i < 4 ==> (#[trigger] code[i]) as u32 == t[i] as u32
}

/// A 4-byte chunk identifier. Its view is the sequence of its four bytes,
/// each ASCII alphabetic.
#[derive(Debug)]
pub struct ChunkType {
    bytes: [u8; 4],
}

impl View for ChunkType {
    type V = Seq<u8>;

    closed spec fn view(&self) -> Seq<u8> {
        self.bytes@
    }
}

/// A code whose length is not 4 is rejected as an invalid length; a 4-byte
/// code holding a non-alphabetic byte is rejected as an invalid chunk type.
pub proof fn lemma_parse_str_rejects(b: Seq<u8>)
    ensures
        b.len() != 4 ==> spec_parse_type_str(b) == Err::<Seq<u8>, PngError>(PngError::InvalidLength),
        b.len() == 4 && (exists|i: int| 0 <= i < 4 && !is_alpha(#[trigger] b[i]))
            ==> spec_parse_type_str(b) == Err::<Seq<u8>, PngError>(PngError::InvalidChunkType),
{
}

/// The given byte is ASCII alphabetic.
fn byte_is_alpha(b: u8) -> (r: bool)
    ensures
        r == is_alpha(b),
{
    (65 <= b && b <= 90) || (97 <= b && b <= 122)
}

impl ChunkType {
    /// Every chunk type ever built has exactly 4 bytes, all alphabetic.
    #[verifier::type_invariant]
    pub open spec fn type_inv(self) -> bool {
        self@.len() == 4 && all_alpha(self@)
    }

    /// Builds a type from its raw 4 bytes, rejecting any non-alphabetic byte.
    pub fn parse(bytes: [u8; 4]) -> (r: Result<ChunkType, PngError>)
        ensures
            match r {
                Ok(t) => spec_parse_type(bytes@) == Ok::<Seq<u8>, PngError>(t@),
                Err(e) => spec_parse_type(bytes@) == Err::<Seq<u8>, PngError>(e),
            },
    {
        let mut i: usize = 0;
        while i < 4
            invariant
                i <= 4,
                forall|j: int| 0 <= j < i ==> is_alpha(#[trigger] bytes@[j]),
            decreases 4 - i,
        {
            if !byte_is_alpha(bytes[i]) {
                return Err(PngError::InvalidChunkType);
            }
            i += 1;
        }
        Ok(ChunkType { bytes })
    }

    /// Builds a type from a string, rejecting one that is not exactly
    /// 4 bytes long before examining the bytes themselves.
    pub fn parse_str(s: &str) -> (r: Result<ChunkType, PngError>)
        ensures
            match r {
                Ok(t) => spec_parse_type_str(s.spec_bytes()) == Ok::<Seq<u8>, PngError>(t@),
                Err(e) => spec_parse_type_str(s.spec_bytes()) == Err::<Seq<u8>, PngError>(e),
            },
    {
        let b = s.as_bytes();
        if b.len() != 4 {
            return Err(PngError::InvalidLength);
        }
        let raw: [u8; 4] = [b[0], b[1], b[2], b[3]];
        proof {
            assert(raw@ =~= s.spec_bytes());
        }
        Self::parse(raw)
    }

    /// The raw 4 bytes of the code.
    pub fn bytes(&self) -> (r: [u8; 4])
        ensures
            r@ == self@,
    {
        self.bytes
    }

    /// The code as a 4-character string.
    pub fn to_string(&self) -> (r: String)
        ensures
            r@ == chars_of_bytes(self@),
    {
        proof {
            use_type_invariant(&*self);
        }
        let mut v: Vec<u8> = Vec::new();
        v.push(self.bytes[0]);
        v.push(self.bytes[1]);
        v.push(self.bytes[2]);
        v.push(self.bytes[3]);
        proof {
            assert(v@ =~= self@);
            lemma_ascii_bytes_decode(v@);
        }
        match bytes_as_str(v.as_slice()) {
            Some(s) => {
                proof {
                    crate::text::lemma_str_bytes_decode(s@, v@);
                }
                s.to_owned()
            },
            None => {
                proof {
                    assert(false);
                }
                String::new()
            },
        }
    }

    /// The chunk is critical exactly when byte 0 is uppercase.
    pub fn is_critical(&self) -> (r: bool)
        ensures
            r == is_upper(self@[0]),
    {
        65 <= self.bytes[0] && self.bytes[0] <= 90
    }

    /// The chunk is public exactly when byte 1 is uppercase.
    pub fn is_public(&self) -> (r: bool)
        ensures
            r == is_upper(self@[1]),
    {
        65 <= self.bytes[1] && self.bytes[1] <= 90
    }

    /// The reserved bit is valid exactly when byte 2 is uppercase.
    pub fn is_reserved_bit_valid(&self) -> (r: bool)
        ensures
            r == is_upper(self@[2]),
    {
        65 <= self.bytes[2] && self.bytes[2] <= 90
    }

    /// The chunk is safe to copy exactly when byte 3 is lowercase.
    pub fn is_safe_to_copy(&self) -> (r: bool)
        ensures
            r == is_lower(self@[3]),
    {
        97 <= self.bytes[3] && self.bytes[3] <= 122
    }

    /// A valid type has all 4 bytes alphabetic and its reserved bit valid.
    pub fn is_valid(&self) -> (r: bool)
        ensures
            r == (all_alpha(self@) && is_upper(self@[2])),
    {
        proof {
            use_type_invariant(&*self);
        }
        self.is_reserved_bit_valid()
    }

    /// The type's string form equals `code`, case-sensitively.
    pub fn matches_code(&self, code: &str) -> (r: bool)
        ensures
            r == spec_code_matches(self@, code@),
    {
        let n = code.unicode_len();
        if n != 4 {
            return false;
        }
        let mut i: usize = 0;
        while i < 4
            invariant
                i <= 4,
                code@.len() == 4,
                forall|j: int| 0 <= j < i ==> (#[trigger] code@[j]) as u32 == self@[j] as u32,
            decreases 4 - i,
        {
            let c = code.get_char(i);
            if (c as u32) != (self.bytes[i] as u32) {
                return false;
            }
            i += 1;
        }
        true
    }
}

impl PartialEq for ChunkType {
    /// Two types are equal exactly when their 4 bytes match.
    fn eq(&self, other: &ChunkType) -> (r: bool) {
        self.bytes[0] == other.bytes[0] && self.bytes[1] == other.bytes[1]
            && self.bytes[2] == other.bytes[2] && self.bytes[3] == other.bytes[3]
    }
}

impl vstd::std_specs::cmp::PartialEqSpecImpl for ChunkType {
    open spec fn obeys_eq_spec() -> bool {
        true
    }

    open spec fn eq_spec(&self, other: &ChunkType) -> bool {
        self@ =~= other@
    }
}

} // verus!
