//! The digest provider: a fixed-width content digest of a byte sequence,
//! computed by the algorithm the run was configured with.
//!
//! Each digest is a pure function of the input bytes alone, so each
//! algorithm's result is given a name here, and the dispatching function's
//! contract is stated over those names.

use vstd::prelude::*;

use crate::configuration::Algorithm;
use sha2::Digest;

verus! {

/// The SHA-256 digest of a byte sequence.
pub uninterp spec fn sha2_256_of(data: Seq<u8>) -> Seq<u8>;

/// The SHA-512 digest of a byte sequence.
pub uninterp spec fn sha2_512_of(data: Seq<u8>) -> Seq<u8>;

/// The SHA3-256 digest of a byte sequence.
pub uninterp spec fn sha3_256_of(data: Seq<u8>) -> Seq<u8>;

/// The SHA3-512 digest of a byte sequence.
pub uninterp spec fn sha3_512_of(data: Seq<u8>) -> Seq<u8>;

/// The digest the configured algorithm assigns to a byte sequence.
pub open spec fn spec_digest(alg: Algorithm, data: Seq<u8>) -> Seq<u8> {
    match alg {
        Algorithm::SHA2_256 => sha2_256_of(data),
        Algorithm::SHA2_512 => sha2_512_of(data),
        Algorithm::SHA3_256 => sha3_256_of(data),
        Algorithm::SHA3_512 => sha3_512_of(data),
    }
}

/// Relies on sha2::Sha256 (Digest::digest): the digest depends on the input
/// bytes alone and is 32 bytes wide.
#[verifier::external_body]
fn sha2_256_bytes(data: &Vec<u8>) -> (r: Vec<u8>)
    ensures
        r@ == sha2_256_of(data@),
        r@.len() == 32,
{
    sha2::Sha256::digest(data).to_vec()
}

/// Relies on sha2::Sha512 (Digest::digest): the digest depends on the input
/// bytes alone and is 64 bytes wide.
#[verifier::external_body]
fn sha2_512_bytes(data: &Vec<u8>) -> (r: Vec<u8>)
    ensures
        r@ == sha2_512_of(data@),
        r@.len() == 64,
{
    sha2::Sha512::digest(data).to_vec()
}

/// Relies on sha3::Sha3_256 (Digest::digest): the digest depends on the
/// input bytes alone and is 32 bytes wide.
#[verifier::external_body]
fn sha3_256_bytes(data: &Vec<u8>) -> (r: Vec<u8>)
    ensures
        r@ == sha3_256_of(data@),
        r@.len() == 32,
{
    sha3::Sha3_256::digest(data).to_vec()
}

/// Relies on sha3::Sha3_512 (Digest::digest): the digest depends on the
/// input bytes alone and is 64 bytes wide.
#[verifier::external_body]
fn sha3_512_bytes(data: &Vec<u8>) -> (r: Vec<u8>)
    ensures
        r@ == sha3_512_of(data@),
        r@.len() == 64,
{
    sha3::Sha3_512::digest(data).to_vec()
}

/// Digest a complete file content with the configured algorithm. The width
/// of the result always matches the algorithm's native output size.
pub fn digest_bytes(alg: &Algorithm, data: &Vec<u8>) -> (r: Vec<u8>)
    ensures
        r@ == spec_digest(*alg, data@),
        r@.len() == alg.spec_digest_size(),
{
    match alg {
        Algorithm::SHA2_256 => sha2_256_bytes(data),
        Algorithm::SHA2_512 => sha2_512_bytes(data),
        Algorithm::SHA3_256 => sha3_256_bytes(data),
        Algorithm::SHA3_512 => sha3_512_bytes(data),
    }
}

/// Digest determinism: under one algorithm, byte-identical contents always
/// produce the same digest, whatever the files' names or locations.
pub proof fn lemma_digest_deterministic(alg: Algorithm, a: Seq<u8>, b: Seq<u8>)
    requires
        a == b,
    ensures
        spec_digest(alg, a) == spec_digest(alg, b),
{
}

} // verus!
