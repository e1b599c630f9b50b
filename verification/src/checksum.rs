//! File-content fingerprints.
//!
//! A fingerprint is the Adler-32 checksum of a file's full contents. The
//! checksum itself is computed by the `adler32` crate; this module gives the
//! result a name, `adler32_of`, that the rest of the library's contracts
//! speak of.

use vstd::prelude::*;

verus! {

/// The Adler-32 checksum of a byte sequence, as the `adler32` crate computes
/// it. The checksum is a pure function of the bytes, so it is left abstract
/// here; the trusted wrapper below ties it to the crate's implementation.
pub uninterp spec fn adler32_of(data: Seq<u8>) -> u32;

/// Relies on `adler32::RollingAdler32::from_buffer` and
/// `adler32::RollingAdler32::hash`: together they compute the Adler-32
/// checksum of the buffer, a value that depends on the buffer's bytes alone.
#[verifier::external_body]
fn adler32_checksum(data: &[u8]) -> (r: u32)
    ensures
        r == adler32_of(data@),
{
    adler32::RollingAdler32::from_buffer(data).hash()
}

/// Computes the fingerprint of one file's full contents.
pub fn checksum(data: &[u8]) -> (r: u32)
    ensures
        r == adler32_of(data@),
{
    adler32_checksum(data)
}

/// Checksum stability: fingerprinting identical byte content twice yields
/// the identical checksum.
pub proof fn lemma_checksum_deterministic(a: Seq<u8>, b: Seq<u8>)
    requires
        a == b,
    ensures
        adler32_of(a) == adler32_of(b),
{
}

} // verus!
