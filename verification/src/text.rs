//! Text handling for chunk payloads: checked UTF-8 decoding and the
//! correspondence between ASCII bytes and the characters they spell.

use vstd::prelude::*;

verus! {

use vstd::utf8::{
    valid_utf8, decode_utf8, encode_utf8, is_ascii_chars, is_ascii_chars_encode_utf8,
    encode_utf8_valid_utf8, encode_utf8_decode_utf8,
};
use vstd::string::StringSliceAdditionalSpecFns;

/// The characters that a sequence of bytes spells when each byte is read
/// as its own character (exact for ASCII bytes).
pub open spec fn chars_of_bytes(b: Seq<u8>) -> Seq<char> {
    Seq::new(b.len(), |i: int| b[i] as char)
}

/// Relies on core::str::from_utf8: it returns `Ok` exactly when the bytes
/// are valid UTF-8, and the string it returns views those very bytes.
#[verifier::external_body]
pub(crate) fn bytes_as_str(bytes: &[u8]) -> (r: Option<&str>)
    ensures
        r is Some <==> valid_utf8(bytes@),
        r matches Some(s) ==> s.spec_bytes() == bytes@,
{
    core::str::from_utf8(bytes).ok()
}

/// A string's characters are the decoding of its bytes.
pub proof fn lemma_str_bytes_decode(chars: Seq<char>, bytes: Seq<u8>)
    requires
        encode_utf8(chars) == bytes,
    ensures
        valid_utf8(bytes),
        decode_utf8(bytes) == chars,
{
    encode_utf8_valid_utf8(chars);
    encode_utf8_decode_utf8(chars);
}

/// A sequence of bytes below 128 is valid UTF-8 and decodes to those bytes
/// read one character each.
pub proof fn lemma_ascii_bytes_decode(b: Seq<u8>)
    requires
        forall|i: int| 0 <= i < b.len() ==> b[i] < 128,
    ensures
        valid_utf8(b),
        decode_utf8(b) == chars_of_bytes(b),
{
    let cs = chars_of_bytes(b);
    assert forall|i: int| 0 <= i < cs.len() implies '\0' <= #[trigger] cs[i] <= '\u{7f}' by {
        assert(cs[i] == b[i] as char);
        assert(b[i] < 128);
    }
    assert(is_ascii_chars(cs));
    is_ascii_chars_encode_utf8(cs);
    assert(encode_utf8(cs) =~= b) by {
        assert forall|i: int| 0 <= i < cs.len() implies #[trigger] encode_utf8(cs)[i] == b[i] by {
            assert(encode_utf8(cs)[i] == cs[i] as u8);
            assert((b[i] as char) as u8 == b[i]);
        }
    }
    lemma_str_bytes_decode(cs, b);
}

} // verus!
