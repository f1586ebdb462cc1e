//! 32-bit integers as 4-byte big-endian sequences, with the two inverse
//! directions proved against each other.

use vstd::prelude::*;

verus! {

/// The 4-byte big-endian form of a 32-bit integer.
pub open spec fn spec_u32_to_be(x: u32) -> Seq<u8> {
    seq![
        ((x >> 24) & 0xff) as u8,
        ((x >> 16) & 0xff) as u8,
        ((x >> 8) & 0xff) as u8,
        (x & 0xff) as u8,
    ]
}

/// The 32-bit integer that 4 big-endian bytes spell.
pub open spec fn spec_u32_from_be(s: Seq<u8>) -> u32
    recommends
        s.len() == 4,
{
    ((s[0] as u32) << 24) | ((s[1] as u32) << 16) | ((s[2] as u32) << 8) | (s[3] as u32)
}

/// Reading back the 4 big-endian bytes of `x` yields `x` again.
pub proof fn lemma_u32_be_round_trip(x: u32)
    ensures
        spec_u32_to_be(x).len() == 4,
        spec_u32_from_be(spec_u32_to_be(x)) == x,
{
    assert(((((x >> 24) & 0xff) as u8 as u32) << 24) | ((((x >> 16) & 0xff) as u8 as u32) << 16)
        | ((((x >> 8) & 0xff) as u8 as u32) << 8) | ((x & 0xff) as u8 as u32) == x) by (bit_vector);
}

/// Writing back the integer that 4 bytes spell yields those bytes again.
pub proof fn lemma_u32_be_bytes_id(s: Seq<u8>)
    requires
        s.len() == 4,
    ensures
        spec_u32_to_be(spec_u32_from_be(s)) == s,
{
    let a = s[0];
    let b = s[1];
    let c = s[2];
    let d = s[3];
    let x = ((a as u32) << 24) | ((b as u32) << 16) | ((c as u32) << 8) | (d as u32);
    assert(((x >> 24) & 0xff) as u8 == a && ((x >> 16) & 0xff) as u8 == b && ((x >> 8) & 0xff)
        as u8 == c && (x & 0xff) as u8 == d) by (bit_vector)
        requires
            x == ((a as u32) << 24) | ((b as u32) << 16) | ((c as u32) << 8) | (d as u32),
    ;
    assert(spec_u32_to_be(spec_u32_from_be(s)) =~= s);
}

/// Appends the 4 big-endian bytes of `x` to `out`.
pub fn push_u32_be(out: &mut Vec<u8>, x: u32)
    ensures
        final(out)@ == old(out)@ + spec_u32_to_be(x),
{
    assert((x >> 24) & 0xff < 256 && (x >> 16) & 0xff < 256 && (x >> 8) & 0xff < 256 && x & 0xff
        < 256) by (bit_vector);
    out.push(((x >> 24) & 0xff) as u8);
    out.push(((x >> 16) & 0xff) as u8);
    out.push(((x >> 8) & 0xff) as u8);
    out.push((x & 0xff) as u8);
    proof {
        assert(out@ =~= old(out)@ + spec_u32_to_be(x));
    }
}

/// Reads the 32-bit big-endian integer stored at position `i` of `bytes`.
pub fn read_u32_be(bytes: &[u8], i: usize) -> (x: u32)
    requires
        i + 4 <= bytes@.len(),
    ensures
        x == spec_u32_from_be(bytes@.subrange(i as int, i as int + 4)),
{
    let b0 = bytes[i];
    let b1 = bytes[i + 1];
    let b2 = bytes[i + 2];
    let b3 = bytes[i + 3];
    proof {
        let s = bytes@.subrange(i as int, i as int + 4);
        assert(s[0] == b0 && s[1] == b1 && s[2] == b2 && s[3] == b3);
    }
    ((b0 as u32) << 24) | ((b1 as u32) << 16) | ((b2 as u32) << 8) | (b3 as u32)
}

} // verus!
