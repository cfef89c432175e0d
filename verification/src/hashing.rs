//! The block fingerprint and the proof-of-work difficulty test.
//!
//! A block's fingerprint is SHA-256 over the concatenation, with no
//! separators, of: the decimal index, the predecessor's hex hash, the decimal
//! epoch-second timestamp, the raw data text, and the decimal nonce. Callers
//! see the digest as its 64-character lowercase hex encoding.
use crate::encoding::hex_encode;
use crate::encoding::i64_to_dec;
use crate::encoding::lemma_hex_digit_zero;
use crate::encoding::lemma_hex_encode_decodes;
use crate::encoding::spec_dec_int;
use crate::encoding::spec_dec_nat;
use crate::encoding::spec_hex_byte;
use crate::encoding::spec_hex_encode;
use crate::encoding::spec_hex_ok;
use crate::encoding::u64_to_dec;
use sha2::Digest;
use sha2::Sha256;
use vstd::prelude::*;
use vstd::string::StrSliceExecFns;
use vstd::string::StringExecFns;

verus! {

/// The SHA-256 digest of a text, as a function of its characters alone.
pub uninterp spec fn sha256_of(s: Seq<char>) -> Seq<u8>;

/// Relies on `sha2::Sha256` (SHA-256 of FIPS 180-4): the digest is a pure
/// function of the input bytes — hence of the characters, through UTF-8 —
/// and is exactly 32 bytes long.
#[verifier::external_body]
fn sha256_digest(s: &str) -> (r: Vec<u8>)
    ensures
        r@ == sha256_of(s@),
        r@.len() == 32,
{
    Sha256::digest(s.as_bytes()).to_vec()
}

/// The text a block's fingerprint is computed over.
pub open spec fn spec_hash_preimage(
    index: u32,
    prev_hash: Seq<char>,
    timestamp: i64,
    data: Seq<char>,
    nonce: u32,
) -> Seq<char> {
    spec_dec_nat(index as nat) + prev_hash + spec_dec_int(timestamp as int) + data + spec_dec_nat(
        nonce as nat,
    )
}

/// The hex form of a block's fingerprint.
pub open spec fn spec_block_hash(
    index: u32,
    prev_hash: Seq<char>,
    timestamp: i64,
    data: Seq<char>,
    nonce: u32,
) -> Seq<char> {
    spec_hex_encode(sha256_of(spec_hash_preimage(index, prev_hash, timestamp, data, nonce)))
}

/// Computes a block's fingerprint: SHA-256 over the concatenated fields,
/// rendered as 64 lowercase hex digits.
pub fn generate_hash(
    index: u32,
    prev_hash: &str,
    timestamp: i64,
    data: &str,
    nonce: u32,
) -> (r: String)
    ensures
        r@ == spec_block_hash(index, prev_hash@, timestamp, data@, nonce),
        r@.len() == 64,
        spec_hex_ok(r@),
{
    let mut s = u64_to_dec(index as u64);
    s.append(prev_hash);
    let ts = i64_to_dec(timestamp);
    s.append(ts.as_str());
    s.append(data);
    let non = u64_to_dec(nonce as u64);
    s.append(non.as_str());
    let digest = sha256_digest(s.as_str());
    let r = hex_encode(digest.as_slice());
    proof {
        lemma_hex_encode_decodes(digest@);
    }
    r
}

/// A hex digest matches difficulty `d` when it decodes to at least `d` bytes
/// and its first `d` bytes are zero.
pub open spec fn spec_matches_difficulty(h: Seq<char>, d: usize) -> bool {
    2 * d <= h.len() && forall|j: int| 0 <= j < d ==> #[trigger] spec_hex_byte(h, j) == 0
}

/// A difficulty-`d` fingerprint has at least `d` leading zero bytes: checks
/// the decoded prefix of the hex digest, byte for byte.
pub fn hash_matches_difficulty(hash: &str, difficulty: usize) -> (r: bool)
    requires
        spec_hex_ok(hash@),
    ensures
        r == spec_matches_difficulty(hash@, difficulty),
{
    let n = hash.unicode_len();
    if difficulty > n / 2 {
        return false;
    }
    let mut j: usize = 0;
    while j < difficulty
        invariant
            spec_hex_ok(hash@),
            2 * difficulty <= hash@.len(),
            hash@.len() <= usize::MAX,
            j <= difficulty,
            forall|k: int| 0 <= k < j ==> #[trigger] spec_hex_byte(hash@, k) == 0,
        decreases difficulty - j,
    {
        let c1 = hash.get_char(2 * j);
        let c2 = hash.get_char(2 * j + 1);
        proof {
            lemma_hex_digit_zero(hash@[2 * (j as int)]);
            lemma_hex_digit_zero(hash@[2 * (j as int) + 1]);
        }
        if !(c1 == '0' && c2 == '0') {
            proof {
                assert(spec_hex_byte(hash@, j as int) != 0);
            }
            return false;
        }
        proof {
            assert(spec_hex_byte(hash@, j as int) == 0);
        }
        j += 1;
    }
    true
}

/// The fingerprint text matches its difficulty exactly when the raw digest
/// carries that many leading zero bytes.
pub proof fn lemma_matches_on_digest(digest: Seq<u8>, d: usize)
    requires
        digest.len() == 32,
    ensures
        spec_matches_difficulty(spec_hex_encode(digest), d) <==> (d <= 32 && forall|j: int|
            0 <= j < d ==> digest[j] == 0),
{
    lemma_hex_encode_decodes(digest);
    let h = spec_hex_encode(digest);
    if d <= 32 {
        if forall|j: int| 0 <= j < d ==> digest[j] == 0 {
            assert forall|j: int| 0 <= j < d implies #[trigger] spec_hex_byte(h, j) == 0 by {
                assert(spec_hex_byte(h, j) == digest[j]);
                assert(digest[j] == 0);
            }
        }
        if spec_matches_difficulty(h, d) {
            assert forall|j: int| 0 <= j < d implies digest[j] == 0 by {
                assert(spec_hex_byte(h, j) == digest[j]);
                assert(spec_hex_byte(h, j) == 0);
            }
        }
    }
}

} // verus!
