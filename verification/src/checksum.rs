//! The CRC-32 that guards each chunk.

use crc::{Crc, CRC_32_ISO_HDLC};
use vstd::prelude::*;

verus! {

/// The CRC-32/ISO-HDLC checksum of `bytes`: the variant that PNG and zlib
/// use.
pub uninterp spec fn crc32_iso_hdlc(bytes: Seq<u8>) -> u32;

/// Computes the CRC-32/ISO-HDLC checksum of `bytes`.
///
/// This is `Crc::<u32>::checksum` of the `crc` crate, run with the crate's
/// `CRC_32_ISO_HDLC` parameters. It is believed here and not proved: the
/// result depends on the bytes alone, and `crc32_iso_hdlc` is the name of
/// that result.
#[verifier::external_body]
pub(crate) fn checksum(bytes: &[u8]) -> (r: u32)
    ensures
        r == crc32_iso_hdlc(bytes@),
{
    Crc::<u32>::new(&CRC_32_ISO_HDLC).checksum(bytes)
}

} // verus!
