use ediscoin::find_block;
use sha2::Digest;
use ediscoin::generate_hash;
use ediscoin::is_valid_chain;
use ediscoin::Block;
use ediscoin::Blockchain;

#[test]
fn hash_is_sha256_of_concatenated_fields() {
    // The fingerprint of (index 0, empty prev hash, timestamp 0, empty data,
    // nonce 0) is SHA-256 of the text "000".
    assert_eq!(
        generate_hash(0, "", 0, "", 0),
        "2ac9a6746aca543af8dff39894cfe8173afba21eb01c6fae33d52947222855ef"
    );
    // Negative timestamps render with a minus sign: SHA-256 of "42ab-7xy123".
    assert_eq!(
        generate_hash(42, "ab", -7, "xy", 123),
        "fc632dfd1aade98d8d6a721500098ea6d24f3a0eb8f3bfc5cc24266a235aeda5"
    );
}

#[test]
fn hash_agrees_with_direct_sha256() {
    let expected = hex::encode(sha2::Sha256::digest("7deadbeef-455more12".as_bytes()));
    assert_eq!(generate_hash(7, "deadbeef", -455, "more", 12), expected);
}

#[test]
fn mining_at_difficulty_zero_returns_nonce_zero() {
    let b = find_block(1, "aa", 1_700_000_000, "payload", 0).unwrap();
    assert_eq!(b.nonce, 0);
    assert_eq!(b.index, 1);
    assert_eq!(b.timestamp, 1_700_000_000);
    assert_eq!(b.data, "payload");
    assert_eq!(b.prev_hash, "aa");
    assert_eq!(b.difficulty, 0);
    assert_eq!(b.hash, generate_hash(1, "aa", 1_700_000_000, "payload", 0));
}

#[test]
fn mining_meets_the_difficulty() {
    // One zero byte: the digest must open with two hex zeros; the search
    // tries nonces from zero and stops at the first that fits.
    let b = find_block(1, "00", 1_700_000_000, "pow", 1).unwrap();
    assert!(b.hash.starts_with("00"));
    assert_eq!(b.hash, generate_hash(1, "00", 1_700_000_000, "pow", b.nonce));
    for n in 0..b.nonce {
        assert!(!generate_hash(1, "00", 1_700_000_000, "pow", n).starts_with("00"));
    }
}

#[test]
fn grows_a_valid_chain_from_genesis() {
    let genesis = Block::new(0, chrono::Utc::now().timestamp(), "", &"0".repeat(64), 0, 0);
    let mut blockchain = Blockchain::new(genesis);

    let data = ["d0", "d1", "d2", "d3"];
    for d in data {
        assert!(blockchain.generate_next_block(d));
    }

    assert_eq!(blockchain.chain.len(), 5);
    assert!(is_valid_chain(&blockchain));
    for i in 1..5 {
        assert_eq!(blockchain.chain[i].prev_hash, blockchain.chain[i - 1].hash);
        assert_eq!(blockchain.chain[i].index, blockchain.chain[i - 1].index + 1);
        assert_eq!(blockchain.chain[i].data, data[i - 1]);
    }
}
