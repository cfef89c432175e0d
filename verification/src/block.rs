//! The block record: an immutable entry linking to its predecessor by hash
//! and carrying a proof-of-work nonce.
use crate::encoding::lemma_hex_encode_props;
use crate::hashing::generate_hash;
use crate::hashing::lemma_matches_on_digest;
use crate::hashing::sha256_of;
use crate::hashing::spec_block_hash;
use crate::hashing::spec_hash_preimage;
use crate::hashing::spec_matches_difficulty;
use vstd::prelude::*;

verus! {

/// One block of the chain. `timestamp` is an absolute instant in UTC epoch
/// seconds; `hash` and `prev_hash` are lowercase hex digests; `difficulty`
/// is the number of leading zero bytes the digest must exhibit.
#[derive(Clone)]
pub struct Block {
    pub index: u32,
    pub timestamp: i64,
    pub data: String,
    pub hash: String,
    pub prev_hash: String,
    pub nonce: u32,
    pub difficulty: usize,
}

/// The block's stored hash is the 64-digit hex fingerprint of its other
/// fields.
pub open spec fn spec_block_hash_ok(b: Block) -> bool {
    &&& b.hash@ == spec_block_hash(b.index, b.prev_hash@, b.timestamp, b.data@, b.nonce)
    &&& b.hash@.len() == 64
}

/// Proof-of-work, read off the raw digest: a block whose stored hash is the
/// fingerprint of its fields and meets its difficulty carries a SHA-256
/// digest whose first `difficulty` bytes are zero — and such a difficulty is
/// at most the digest's 32 bytes.
pub proof fn lemma_block_pow_digest(b: Block)
    requires
        spec_block_hash_ok(b),
        spec_matches_difficulty(b.hash@, b.difficulty),
    ensures
        b.difficulty <= 32,
        forall|j: int|
            0 <= j < b.difficulty ==> sha256_of(
                spec_hash_preimage(b.index, b.prev_hash@, b.timestamp, b.data@, b.nonce),
            )[j] == 0,
{
    let digest = sha256_of(spec_hash_preimage(b.index, b.prev_hash@, b.timestamp, b.data@, b.nonce));
    lemma_hex_encode_props(digest);
    lemma_matches_on_digest(digest, b.difficulty);
}

impl Block {
    /// Builds a block, computing its hash from the other fields.
    pub fn new(
        index: u32,
        timestamp: i64,
        data: &str,
        prev_hash: &str,
        nonce: u32,
        difficulty: usize,
    ) -> (r: Block)
        ensures
            r.index == index,
            r.timestamp == timestamp,
            r.data@ == data@,
            r.prev_hash@ == prev_hash@,
            r.nonce == nonce,
            r.difficulty == difficulty,
            spec_block_hash_ok(r),
    {
        Block {
            index,
            timestamp,
            data: data.to_owned(),
            nonce,
            difficulty,
            hash: generate_hash(index, prev_hash, timestamp, data, nonce),
            prev_hash: prev_hash.to_owned(),
        }
    }
}

} // verus!
