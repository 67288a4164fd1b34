//! Whole-content checksums.
//!
//! Files are identified by the lower-case hex encoding of their BLAKE3 hash;
//! the receiver recomputes it before a part file may become visible.

use vstd::prelude::*;

verus! {

/// What the BLAKE3 hash of a byte string is, as 64 lower-case hex digits.
pub uninterp spec fn blake3_hex_of(data: Seq<u8>) -> Seq<char>;

/// Relies on `blake3::hash` (with `Hash::to_hex` rendering the digest): the
/// 64-digit hex checksum is a function of the hashed bytes alone.
#[verifier::external_body]
pub(crate) fn blake3_hex(data: &[u8]) -> (r: String)
    ensures
        r@ == blake3_hex_of(data@),
        r@.len() == 64,
{
    blake3::hash(data).to_hex().as_str().to_owned()
}

} // verus!
