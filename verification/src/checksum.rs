//! The CRC-32/ISO-HDLC checksum, computed by the `crc` crate.

use vstd::prelude::*;

verus! {

/// The CRC-32/ISO-HDLC checksum of a sequence of bytes: what
/// `crc::Crc::<u32>::new(&crc::CRC_32_ISO_HDLC).checksum` returns for them.
/// Nothing is said here of its value on any given input.
pub uninterp spec fn crc32_iso_hdlc(bytes: Seq<u8>) -> u32;

/// `crc::Crc::<u32>::checksum` on the algorithm `crc::CRC_32_ISO_HDLC`: the
/// checksum of `bytes`, which depends on nothing but them. Not proved.
#[verifier::external_body]
pub(crate) fn checksum(bytes: &[u8]) -> (out: u32)
    ensures
        out == crc32_iso_hdlc(bytes@),
{
    crc::Crc::<u32>::new(&crc::CRC_32_ISO_HDLC).checksum(bytes)
}

} // verus!
