use ediscoin::find_block;
use ediscoin::is_valid_chain;
use ediscoin::Block;
use ediscoin::Blockchain;

fn block_to_value(b: &Block) -> serde_json::Value {
    let mut m = serde_json::Map::new();
    m.insert("index".to_string(), serde_json::Value::from(b.index));
    m.insert("timestamp".to_string(), serde_json::Value::from(b.timestamp));
    m.insert("data".to_string(), serde_json::Value::from(b.data.clone()));
    m.insert("hash".to_string(), serde_json::Value::from(b.hash.clone()));
    m.insert("prev_hash".to_string(), serde_json::Value::from(b.prev_hash.clone()));
    m.insert("nonce".to_string(), serde_json::Value::from(b.nonce));
    m.insert("difficulty".to_string(), serde_json::Value::from(b.difficulty as u64));
    serde_json::Value::Object(m)
}

fn value_to_block(v: &serde_json::Value) -> Block {
    Block {
        index: v["index"].as_u64().unwrap() as u32,
        timestamp: v["timestamp"].as_i64().unwrap(),
        data: v["data"].as_str().unwrap().to_string(),
        hash: v["hash"].as_str().unwrap().to_string(),
        prev_hash: v["prev_hash"].as_str().unwrap().to_string(),
        nonce: v["nonce"].as_u64().unwrap() as u32,
        difficulty: v["difficulty"].as_u64().unwrap() as usize,
    }
}

fn round_trip(chain: &Blockchain) -> Blockchain {
    let values: Vec<serde_json::Value> = chain.chain.iter().map(block_to_value).collect();
    let text = serde_json::to_string(&serde_json::Value::Array(values)).unwrap();
    let parsed: serde_json::Value = serde_json::from_str(&text).unwrap();
    let blocks: Vec<Block> = parsed.as_array().unwrap().iter().map(value_to_block).collect();
    Blockchain { chain: blocks }
}

#[test]
fn json_round_trip_preserves_validation() {
    // A valid chain survives the trip and still validates.
    let genesis = Block::new(0, 1_700_000_000, "", &"0".repeat(64), 0, 0);
    let mut chain = Blockchain::new(genesis);
    let prev_hash = chain.get_latest_block().hash.clone();
    chain.add_block(find_block(1, &prev_hash, 1_700_000_001, "hello", 0).unwrap());
    assert!(is_valid_chain(&chain));
    let back = round_trip(&chain);
    assert!(is_valid_chain(&back));
    assert_eq!(back.chain[1].hash, chain.chain[1].hash);

    // An invalid chain stays invalid after the trip.
    let mut broken = round_trip(&chain);
    broken.chain[1].data = "tampered".to_string();
    assert!(!is_valid_chain(&broken));
    let broken_back = round_trip(&broken);
    assert!(!is_valid_chain(&broken_back));
}
