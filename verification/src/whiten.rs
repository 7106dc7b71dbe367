//! Whitening of a bit sequence with SHA3-256.
//!
//! The bits are packed into bytes, the bytes are hashed, and the 32 bytes of
//! the digest are unpacked into 256 bits. The empty sequence is not hashed:
//! it stays empty.

use crate::codec::{
    bits_to_bytes, bytes_to_bits, is_bit_seq, lemma_unpacked_is_bit_seq, packed, unpacked,
};
use sha3::{Digest, Sha3_256};
use vstd::prelude::*;

verus! {

/// The SHA3-256 digest of `data`. Its 32 bytes are not spelled out here:
/// the hash is computed by the `sha3` crate and taken on trust.
pub uninterp spec fn sha3_256_digest(data: Seq<u8>) -> [u8; 32];

/// Calls `sha3::Sha3_256::digest`, the one-shot form of the `Digest` trait:
/// a fresh hasher is fed `data` and finalized. The contract claims only that
/// the returned bytes are the SHA3-256 digest of `data`, a function of the
/// input bytes alone; the digest's length of 32 is carried by the type.
#[verifier::external_body]
fn sha3_256(data: &[u8]) -> (digest: [u8; 32])
    ensures
        digest == sha3_256_digest(data@),
{
    Sha3_256::digest(data).into()
}

/// The whitened form of `bits`: nothing for no bits, and otherwise the 256
/// bits of the SHA3-256 digest of the packed bits.
pub open spec fn whitened(bits: Seq<u8>) -> Seq<u8> {
    if bits.len() == 0 {
        Seq::empty()
    } else {
        unpacked(sha3_256_digest(packed(bits))@)
    }
}

/// Mixes a bit sequence of any length into exactly 256 bits; the empty
/// sequence gives the empty sequence and nothing is hashed.
pub fn hash_randomness(bits: &[u8]) -> (out: Vec<u8>)
    ensures
        out@ == whitened(bits@),
        bits@.len() == 0 ==> out@.len() == 0,
        bits@.len() > 0 ==> out@.len() == 256,
        is_bit_seq(out@),
{
    if bits.len() == 0 {
        return Vec::new();
    }
    let bytes = bits_to_bytes(bits);
    let digest = sha3_256(bytes.as_slice());
    bytes_to_bits(digest.as_slice())
}

/// Whitening collapses every non-empty input to 256 bits and leaves the
/// empty input empty.
pub proof fn lemma_whitened_len(bits: Seq<u8>)
    ensures
        whitened(bits).len() == (if bits.len() == 0 { 0nat } else { 256nat }),
{
}

/// Whatever goes in, what comes out of the whitener is a bit sequence.
pub proof fn lemma_whitened_is_bit_seq(bits: Seq<u8>)
    ensures
        is_bit_seq(whitened(bits)),
{
    if bits.len() > 0 {
        lemma_unpacked_is_bit_seq(sha3_256_digest(packed(bits))@);
    }
}

/// Whitening is a function of the input bits: equal inputs give equal
/// outputs.
pub proof fn lemma_whitened_deterministic(a: Seq<u8>, b: Seq<u8>)
    requires
        a == b,
    ensures
        whitened(a) == whitened(b),
{
}

} // verus!
