use ediscoin::get_adjusted_difficulty;
use sha2::Digest;
use ediscoin::get_difficulty;
use ediscoin::hash_matches_difficulty;
use ediscoin::Block;
use ediscoin::Blockchain;
use ediscoin::DIFFICULTY_ADJUSTMENT_INTERVAL;

// A chain of `n` blocks at `spacing` seconds apart, every block carrying
// `difficulty`. Hash validity is irrelevant to difficulty selection.
fn spaced_chain(n: u32, spacing: i64, difficulty: usize) -> Blockchain {
    let mut chain = Blockchain::new(Block::new(0, 0, "", &"0".repeat(64), 0, difficulty));
    for i in 1..n {
        let prev_hash = chain.get_latest_block().hash.clone();
        chain.add_block(Block::new(i, i as i64 * spacing, "", &prev_hash, 0, difficulty));
    }
    chain
}

#[test]
fn retarget_fires_exactly_at_the_adjustment_interval() {
    assert_eq!(DIFFICULTY_ADJUSTMENT_INTERVAL, 10);

    // Head index 10: a retarget is due. The window of ten 10-second blocks
    // took the expected time, so the difficulty is kept.
    let on_boundary = spaced_chain(11, 10, 3);
    assert_eq!(get_difficulty(&on_boundary), 3);

    // Head index 9: no retarget; the head's difficulty is returned as is,
    // however fast the blocks came.
    let below_boundary = spaced_chain(10, 1, 3);
    assert_eq!(get_difficulty(&below_boundary), 3);
}

#[test]
fn retarget_raises_when_mining_ran_fast() {
    // Ten blocks one second apart: the window took 10 s, under half the
    // expected 100 s, so the difficulty rises by one.
    let fast = spaced_chain(11, 1, 3);
    assert_eq!(get_difficulty(&fast), 4);
    assert_eq!(get_adjusted_difficulty(&fast), 4);
}

#[test]
fn retarget_lowers_when_mining_ran_slow() {
    // Ten blocks thirty seconds apart: the window took 300 s, over double
    // the expected 100 s, so the difficulty falls by one.
    let slow = spaced_chain(11, 30, 3);
    assert_eq!(get_difficulty(&slow), 2);
}

// An eleven-block chain where only the retarget window's endpoints matter:
// the block one interval back carries timestamp 0 and the head `span`.
fn window_chain(span: i64, difficulty: usize) -> Blockchain {
    let mut chain = Blockchain::new(Block::new(0, 0, "", &"0".repeat(64), 0, difficulty));
    for i in 1..11u32 {
        let prev_hash = chain.get_latest_block().hash.clone();
        let ts = if i == 10 { span } else { 0 };
        chain.add_block(Block::new(i, ts, "", &prev_hash, 0, difficulty));
    }
    chain
}

#[test]
fn retarget_keeps_difficulty_inside_the_band() {
    // A 200 s window is exactly double the expected time: not over it, so
    // the difficulty is kept.
    assert_eq!(get_difficulty(&window_chain(200, 3)), 3);
    // A 50 s window is exactly half the expected time: not under it, kept.
    assert_eq!(get_difficulty(&window_chain(50, 3)), 3);
    // One second outside either edge tips the decision.
    assert_eq!(get_difficulty(&window_chain(201, 3)), 2);
    assert_eq!(get_difficulty(&window_chain(49, 3)), 4);
}

#[test]
fn retarget_floors_difficulty_at_zero() {
    let slow_at_zero = spaced_chain(11, 30, 0);
    assert_eq!(get_difficulty(&slow_at_zero), 0);
}

#[test]
fn all_zero_digest_matches_its_whole_length() {
    // The all-zero 32-byte digest, as 64 hex zeros.
    let hash = hex::encode([0u8; 32]);
    assert_eq!(hash.len(), 64);
    assert!(hash_matches_difficulty(&hash, 5));
    assert!(hash_matches_difficulty(&hash, 10));
    assert!(hash_matches_difficulty(&hash, 32));
    assert!(!hash_matches_difficulty(&hash, 33));
}

#[test]
fn difficulty_zero_matches_any_digest() {
    let hash = hex::encode(sha2::Sha256::digest(b"anything"));
    assert!(hash_matches_difficulty(&hash, 0));
}
