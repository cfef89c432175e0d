use ediscoin::cumulative_difficulty;
use ediscoin::hash_matches_difficulty;
use ediscoin::is_valid_block_at;
use ediscoin::is_valid_blocks_at;
use ediscoin::is_valid_chain;
use ediscoin::is_valid_timestamp;
use ediscoin::is_valid_timestamp_at;
use ediscoin::Block;
use ediscoin::Blockchain;

fn now() -> i64 {
    chrono::Utc::now().timestamp()
}

#[test]
fn gets_cumulative_difficulty() {
    let genesis_block = Block::new(0, now(), "", "", 0, 0);
    let easy_block = Block::new(0, now(), "", "", 0, 2);
    let hard_block = Block::new(0, now(), "", "", 0, 8);
    let mut blockchain = Blockchain::new(genesis_block);

    blockchain.add_block(easy_block);
    blockchain.add_block(hard_block);

    assert_eq!(cumulative_difficulty(&blockchain.chain), 261);
}

#[test]
fn validates_block_timestamps() {
    let root_time = now();
    let genesis_block = Block::new(0, root_time, "", "", 0, 0);
    let valid_block = Block::new(0, root_time + 50, "", "", 0, 0);
    let another_valid_block = Block::new(0, root_time - 50, "", "", 0, 0);

    assert!(is_valid_timestamp(&valid_block, &genesis_block));
    assert!(is_valid_timestamp(&another_valid_block, &genesis_block));
}

#[test]
fn invalidates_invalid_block_timestamps() {
    let root_time = now();
    let genesis_block = Block::new(0, root_time, "", "", 0, 0);
    let invalid_block = Block::new(0, root_time + 70, "", "", 0, 0);
    let another_invalid_block = Block::new(0, root_time - 70, "", "", 0, 0);

    assert!(!is_valid_timestamp(&invalid_block, &genesis_block));
    assert!(!is_valid_timestamp(&another_invalid_block, &genesis_block));
}

#[test]
fn validates_single_block_chain() {
    // The genesis predecessor hash is the all-zero digest: 64 hex zeros.
    let genesis = Block::new(0, 0, "", &"0".repeat(64), 0, 0);
    let chain = Blockchain::new(genesis);

    assert!(is_valid_chain(&chain));
}

#[test]
fn validates_hash_matches_difficulty() {
    let hash = hex::encode([0; 64]);

    assert!(hash_matches_difficulty(&hash, 5));
}

#[test]
fn timestamp_boundaries_are_strict() {
    let t0 = 1_700_000_000i64;
    let prev = Block::new(0, t0, "", "", 0, 0);

    // Exactly 60 s into the future of the validator's clock: rejected.
    let future_edge = Block::new(1, t0 + 60, "", "", 0, 0);
    assert!(!is_valid_timestamp_at(&future_edge, &prev, t0));
    // One second inside the bound: accepted.
    let future_ok = Block::new(1, t0 + 59, "", "", 0, 0);
    assert!(is_valid_timestamp_at(&future_ok, &prev, t0));

    // Exactly 60 s before the predecessor: rejected.
    let past_edge = Block::new(1, t0 - 60, "", "", 0, 0);
    assert!(!is_valid_timestamp_at(&past_edge, &prev, t0));
    // One second inside the bound: accepted.
    let past_ok = Block::new(1, t0 - 59, "", "", 0, 0);
    assert!(is_valid_timestamp_at(&past_ok, &prev, t0));

    // The loose-clock window in both directions, as absolute offsets.
    assert!(is_valid_timestamp_at(&Block::new(1, t0 + 50, "", "", 0, 0), &prev, t0));
    assert!(is_valid_timestamp_at(&Block::new(1, t0 - 50, "", "", 0, 0), &prev, t0));
    assert!(!is_valid_timestamp_at(&Block::new(1, t0 + 70, "", "", 0, 0), &prev, t0));
    assert!(!is_valid_timestamp_at(&Block::new(1, t0 - 70, "", "", 0, 0), &prev, t0));
}

#[test]
fn rejects_tampered_chains() {
    let genesis = Block::new(0, 1000, "", &"0".repeat(64), 0, 0);
    let second = Block::new(1, 1001, "payload", &genesis.hash, 0, 0);
    let mut chain = Blockchain::new(genesis.clone());
    chain.add_block(second.clone());
    assert!(is_valid_chain(&chain));

    // Wrong index.
    let bad_index = Block::new(3, 1001, "payload", &genesis.hash, 0, 0);
    let mut c = Blockchain::new(genesis.clone());
    c.add_block(bad_index);
    assert!(!is_valid_chain(&c));

    // Broken predecessor link.
    let bad_link = Block::new(1, 1001, "payload", &"0".repeat(64), 0, 0);
    let mut c = Blockchain::new(genesis.clone());
    c.add_block(bad_link);
    assert!(!is_valid_chain(&c));

    // Tampered payload: the stored hash no longer fingerprints the fields.
    let mut tampered = second.clone();
    tampered.data = "other".to_string();
    let mut c = Blockchain::new(genesis.clone());
    c.add_block(tampered);
    assert!(!is_valid_chain(&c));

    // A genesis with a non-zero predecessor hash is not well-formed.
    let bad_genesis = Block::new(0, 1000, "", &("00a0".to_string() + &"0".repeat(60)), 0, 0);
    assert!(!is_valid_chain(&Blockchain::new(bad_genesis)));

    // The genesis predecessor hash is one digest long: neither an empty run
    // of zeros nor a doubled one is well-formed.
    let empty_genesis = Block::new(0, 1000, "", "", 0, 0);
    assert!(!is_valid_chain(&Blockchain::new(empty_genesis)));
    let long_genesis = Block::new(0, 1000, "", &hex::encode([0; 64]), 0, 0);
    assert!(!is_valid_chain(&Blockchain::new(long_genesis)));

    // A genesis whose index is not zero is not well-formed.
    let bad_genesis_index = Block::new(2, 1000, "", &"0".repeat(64), 0, 0);
    assert!(!is_valid_chain(&Blockchain::new(bad_genesis_index)));

    // An empty chain is never valid.
    let mut emptied = Blockchain::new(genesis);
    emptied.chain.clear();
    assert!(!is_valid_chain(&emptied));
}

#[test]
fn chain_validation_applies_the_temporal_rule() {
    let t0 = 1_700_000_000i64;
    let genesis = Block::new(0, t0, "", &"0".repeat(64), 0, 0);

    // Inside the window: accepted at clock reading t0.
    let ok = Block::new(1, t0 + 50, "", &genesis.hash, 0, 0);
    assert!(is_valid_block_at(&ok, &genesis, t0));
    assert!(is_valid_blocks_at(&vec![genesis.clone(), ok], t0));

    // Too far before the predecessor: rejected, however sound otherwise.
    let too_old = Block::new(1, t0 - 70, "", &genesis.hash, 0, 0);
    assert!(!is_valid_block_at(&too_old, &genesis, t0));
    assert!(!is_valid_blocks_at(&vec![genesis.clone(), too_old], t0));

    // Too far into the validator's future: rejected too.
    let too_new = Block::new(1, t0 + 70, "", &genesis.hash, 0, 0);
    assert!(!is_valid_block_at(&too_new, &genesis, t0));
    assert!(!is_valid_blocks_at(&vec![genesis, too_new], t0));
}
