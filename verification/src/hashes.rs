use bitcoin::hashes::Hash as _;
use vstd::prelude::*;

verus! {

/// The RIPEMD160 hash of a byte string.
pub uninterp spec fn ripemd160_of(data: Seq<u8>) -> Seq<u8>;

/// The SHA1 hash of a byte string.
pub uninterp spec fn sha1_of(data: Seq<u8>) -> Seq<u8>;

/// The SHA256 hash of a byte string.
pub uninterp spec fn sha256_of(data: Seq<u8>) -> Seq<u8>;

/// The RIPEMD160 hash of the SHA256 hash of a byte string.
pub open spec fn hash160_of(data: Seq<u8>) -> Seq<u8> {
    ripemd160_of(sha256_of(data))
}

/// The SHA256 hash of the SHA256 hash of a byte string.
pub open spec fn hash256_of(data: Seq<u8>) -> Seq<u8> {
    sha256_of(sha256_of(data))
}

/// Calls `bitcoin::hashes::ripemd160::Hash::hash`. The contract names the result, which depends
/// on the bytes alone, and claims that it has 20 bytes.
#[verifier::external_body]
pub(crate) fn ripemd160(data: &[u8]) -> (r: [u8; 20])
    ensures
        r@ == ripemd160_of(data@),
        r@.len() == 20,
{
    bitcoin::hashes::ripemd160::Hash::hash(data).to_byte_array()
}

/// Calls `bitcoin::hashes::sha1::Hash::hash`. The contract names the result, which depends on
/// the bytes alone, and claims that it has 20 bytes.
#[verifier::external_body]
pub(crate) fn sha1(data: &[u8]) -> (r: [u8; 20])
    ensures
        r@ == sha1_of(data@),
        r@.len() == 20,
{
    bitcoin::hashes::sha1::Hash::hash(data).to_byte_array()
}

/// Calls `bitcoin::hashes::sha256::Hash::hash`. The contract names the result, which depends on
/// the bytes alone, and claims that it has 32 bytes.
#[verifier::external_body]
pub(crate) fn sha256(data: &[u8]) -> (r: [u8; 32])
    ensures
        r@ == sha256_of(data@),
        r@.len() == 32,
{
    bitcoin::hashes::sha256::Hash::hash(data).to_byte_array()
}

/// Calls `bitcoin::hashes::hash160::Hash::hash`. The contract claims that the result is the
/// RIPEMD160 hash of the SHA256 hash, of 20 bytes.
#[verifier::external_body]
pub(crate) fn hash160(data: &[u8]) -> (r: [u8; 20])
    ensures
        r@ == hash160_of(data@),
        r@.len() == 20,
{
    bitcoin::hashes::hash160::Hash::hash(data).to_byte_array()
}

/// Calls `bitcoin::hashes::sha256d::Hash::hash`. The contract claims that the result is the
/// SHA256 hash of the SHA256 hash, of 32 bytes.
#[verifier::external_body]
pub(crate) fn hash256(data: &[u8]) -> (r: [u8; 32])
    ensures
        r@ == hash256_of(data@),
        r@.len() == 32,
{
    bitcoin::hashes::sha256d::Hash::hash(data).to_byte_array()
}

} // verus!
