//! Namespaced DHT keys.
//!
//! Share-code and online records live in the DHT under
//! `SHA-256(namespace ‖ identifier)`, one namespace per record kind.

use vstd::prelude::*;
use vstd::string::StringSliceAdditionalSpecFns;

use sha2::Digest;

verus! {

/// What `sha2::Sha256` digests a byte string to.
pub uninterp spec fn sha256_of(data: Seq<u8>) -> Seq<u8>;

/// Relies on `sha2::Sha256::digest`: a 32-byte digest that is a function of
/// the input bytes alone.
#[verifier::external_body]
fn sha256(data: &[u8]) -> (r: Vec<u8>)
    ensures
        r@ == sha256_of(data@),
        r@.len() == 32,
{
    sha2::Sha256::digest(data).to_vec()
}

/// The DHT key of an identifier under a namespace.
pub open spec fn spec_dht_key(namespace: Seq<u8>, id: Seq<u8>) -> Seq<u8> {
    sha256_of(namespace + id)
}

/// The DHT key of a share-code record.
pub fn share_code_key(code: &str) -> (r: Vec<u8>)
    ensures
        r@ == spec_dht_key("/swarmdrop/share-code/".spec_bytes(), code.spec_bytes()),
        r@.len() == 32,
{
    let mut input: Vec<u8> = Vec::new();
    input.extend_from_slice("/swarmdrop/share-code/".as_bytes());
    input.extend_from_slice(code.as_bytes());
    proof {
        assert(input@ =~= "/swarmdrop/share-code/".spec_bytes() + code.spec_bytes());
    }
    sha256(input.as_slice())
}

/// The DHT key of a peer's online record.
pub fn online_key(peer_id_bytes: &[u8]) -> (r: Vec<u8>)
    ensures
        r@ == spec_dht_key("/swarmdrop/online/".spec_bytes(), peer_id_bytes@),
        r@.len() == 32,
{
    let mut input: Vec<u8> = Vec::new();
    input.extend_from_slice("/swarmdrop/online/".as_bytes());
    input.extend_from_slice(peer_id_bytes);
    proof {
        assert(input@ =~= "/swarmdrop/online/".spec_bytes() + peer_id_bytes@);
    }
    sha256(input.as_slice())
}

} // verus!
