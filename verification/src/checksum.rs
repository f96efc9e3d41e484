//! The redundancy check that guards every chunk.

use crc::{Crc, CRC_32_ISO_HDLC};
use vstd::prelude::*;

verus! {

/// The CRC-32/ISO-HDLC check value of a byte string: the value that the `crc`
/// crate computes for it with the catalogue's `CRC_32_ISO_HDLC` parameters. It
/// depends on the bytes alone.
pub uninterp spec fn crc32_iso_hdlc(bytes: Seq<u8>) -> u32;

/// Calls `crc::Crc::<u32>::checksum` on an instance made by `Crc::<u32>::new`
/// from `crc::CRC_32_ISO_HDLC`. Claimed and not proved: the value returned is
/// the check value of exactly these bytes.
#[verifier::external_body]
pub(crate) fn checksum(bytes: &[u8]) -> (sum: u32)
    ensures
        sum == crc32_iso_hdlc(bytes@),
{
    Crc::<u32>::new(&CRC_32_ISO_HDLC).checksum(bytes)
}

} // verus!
