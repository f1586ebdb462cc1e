//! The 32-bit checksum that seals each chunk, computed by the `crc` crate.

use vstd::prelude::*;

verus! {

/// The CRC-32/ISO-HDLC checksum of a byte sequence, as the `crc` crate
/// computes it: a pure function of the bytes alone.
pub uninterp spec fn spec_crc32(bytes: Seq<u8>) -> u32;

/// Relies on crc::Crc::<u32>::checksum with the CRC_32_ISO_HDLC algorithm:
/// the checksum it returns depends on the input bytes alone.
#[verifier::external_body]
pub(crate) fn crc32(bytes: &[u8]) -> (r: u32)
    ensures
        r == spec_crc32(bytes@),
{
    crc::Crc::<u32>::new(&crc::CRC_32_ISO_HDLC).checksum(bytes)
}

} // verus!
