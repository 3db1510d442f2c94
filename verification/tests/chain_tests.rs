use hashchain::Block;
use hashchain::Blockchain;
use hashchain::VerifyError;

#[test]
fn empty_chain_verifies() {
    let chain = Blockchain::new(3);
    assert_eq!(chain.blocks.len(), 0);
    assert!(chain.verify_chain().is_ok());
}

#[test]
fn single_block_verifies() {
    let mut chain = Blockchain::new(0);
    chain.add("only".to_string());
    assert_eq!(chain.blocks.len(), 1);
    assert!(chain.blocks[0].prev_hash.is_none());
    assert!(chain.verify_chain().is_ok());
}

#[test]
fn iter_of_empty_chain_is_empty() {
    let chain = Blockchain::new(2);
    assert!(chain.iter().is_empty());
}

#[test]
fn mined_nonce_is_smallest() {
    let mut chain = Blockchain::new(1);
    chain.add_with_timestamp("pay".to_string(), "2001-02-03 04:05:06 UTC".to_string());
    let mined = &chain.blocks[0];
    for smaller in 0..mined.nonce {
        let candidate = Block {
            prev_hash: mined.prev_hash.clone(),
            timestamp: mined.timestamp.clone(),
            transaction: mined.transaction.clone(),
            nonce: smaller,
        };
        assert!(!chain.check_hash(&chain.hash_block(&candidate)));
    }
    assert!(chain.check_hash(&chain.hash_block(mined)));
}

#[test]
fn add_increases_length_by_one() {
    let mut chain = Blockchain::new(1);
    for (i, payload) in ["a", "b", "c", "d"].iter().enumerate() {
        chain.add(payload.to_string());
        assert_eq!(chain.blocks.len(), i + 1);
        let hash = chain.hash_block(&chain.blocks[i]);
        assert!(hash.starts_with('0'));
    }
    assert!(chain.verify_chain().is_ok());
}

#[test]
fn three_blocks_difficulty_zero() {
    let mut chain = Blockchain::new(0);
    chain.add("a".to_string());
    chain.add("b".to_string());
    chain.add("c".to_string());
    assert!(chain.verify_chain().is_ok());
    let tail_first: Vec<&Block> = chain.iter();
    let payloads: Vec<&str> = tail_first.iter().map(|b| b.transaction.as_str()).collect();
    assert_eq!(payloads, ["c", "b", "a"]);
    assert!(tail_first[2].prev_hash.is_none());
    assert!(tail_first[0].prev_hash.is_some());
    assert!(tail_first[1].prev_hash.is_some());
}

#[test]
fn five_blocks_difficulty_three() {
    // Fixed timestamps keep the mining work deterministic and small enough
    // for a test; `add` itself only differs in reading the clock.
    let stamps = [
        "2001-01-01 00:00:01.000015 UTC",
        "2001-01-01 00:00:02.000015 UTC",
        "2001-01-01 00:00:03.000082 UTC",
        "2001-01-01 00:00:04.000002 UTC",
        "2001-01-01 00:00:05.000008 UTC",
    ];
    let mut chain = Blockchain::new(3);
    for (payload, stamp) in ["asdfadfas", "foo", "bar", "baz", "egg"].iter().zip(stamps) {
        chain.add_with_timestamp(payload.to_string(), stamp.to_string());
    }
    assert!(chain.verify_chain().is_ok());
    for block in &chain.blocks {
        let hash = chain.hash_block(block);
        assert!(hash.starts_with("000"));
    }
}

#[test]
fn hash_is_deterministic() {
    let mut chain = Blockchain::new(0);
    chain.add_with_timestamp("pay".to_string(), "2001-02-03 04:05:06 UTC".to_string());
    let first = chain.hash_block(&chain.blocks[0]);
    let second = chain.hash_block(&chain.blocks[0]);
    assert_eq!(first, second);
    let copy = Block {
        prev_hash: chain.blocks[0].prev_hash.clone(),
        timestamp: chain.blocks[0].timestamp.clone(),
        transaction: chain.blocks[0].transaction.clone(),
        nonce: chain.blocks[0].nonce,
    };
    assert_eq!(chain.hash_block(&copy), first);
}

#[test]
fn hash_depends_on_every_field() {
    let chain = Blockchain::new(0);
    let base = Block {
        prev_hash: None,
        timestamp: "2001-02-03 04:05:06 UTC".to_string(),
        transaction: "pay".to_string(),
        nonce: 7,
    };
    let base_hash = chain.hash_block(&base);
    assert_eq!(base_hash.len(), 44);

    let mut other_transaction = Block {
        prev_hash: None,
        timestamp: "2001-02-03 04:05:06 UTC".to_string(),
        transaction: "pax".to_string(),
        nonce: 7,
    };
    assert_ne!(chain.hash_block(&other_transaction), base_hash);
    other_transaction.transaction = "yap".to_string();
    assert_ne!(chain.hash_block(&other_transaction), base_hash);

    let other_timestamp = Block {
        prev_hash: None,
        timestamp: "2001-02-03 04:05:07 UTC".to_string(),
        transaction: "pay".to_string(),
        nonce: 7,
    };
    assert_ne!(chain.hash_block(&other_timestamp), base_hash);

    let other_nonce = Block {
        prev_hash: None,
        timestamp: "2001-02-03 04:05:06 UTC".to_string(),
        transaction: "pay".to_string(),
        nonce: 8,
    };
    assert_ne!(chain.hash_block(&other_nonce), base_hash);

    let with_link = Block {
        prev_hash: Some(base_hash.clone()),
        timestamp: "2001-02-03 04:05:06 UTC".to_string(),
        transaction: "pay".to_string(),
        nonce: 7,
    };
    assert_ne!(chain.hash_block(&with_link), base_hash);
    assert_ne!(chain.hash_block(&with_link), base.transaction);
}

#[test]
fn check_hash_counts_leading_zeros() {
    let chain = Blockchain::new(3);
    assert!(chain.check_hash("000abc"));
    assert!(!chain.check_hash("00abcd"));
    assert!(!chain.check_hash("abc000"));
    // Shorter hashes are accepted when all their characters are zeros.
    assert!(chain.check_hash("00"));
    assert!(chain.check_hash(""));
    let lax = Blockchain::new(0);
    assert!(lax.check_hash("anything"));
}

#[test]
fn tamper_middle_transaction_mismatch() {
    let mut chain = Blockchain::new(0);
    chain.add_with_timestamp("a".to_string(), "2001-01-01 00:00:01 UTC".to_string());
    chain.add_with_timestamp("b".to_string(), "2001-01-01 00:00:02 UTC".to_string());
    chain.add_with_timestamp("c".to_string(), "2001-01-01 00:00:03 UTC".to_string());
    chain.blocks[1].transaction = "evil".to_string();
    match chain.verify_chain() {
        Err(VerifyError::HashMismatch { link, expected, actual }) => {
            assert_eq!(link, 2);
            assert_eq!(expected, chain.blocks[2].prev_hash.clone().unwrap());
            assert_eq!(actual, chain.hash_block(&chain.blocks[1]));
            assert_ne!(expected, actual);
        }
        other => panic!("expected a hash mismatch at link 2, got {:?}", other.is_ok()),
    }
}

#[test]
fn tamper_timestamp_mismatch() {
    let mut chain = Blockchain::new(0);
    chain.add("a".to_string());
    chain.add("b".to_string());
    chain.blocks[0].timestamp = "1999-12-31 23:59:59 UTC".to_string();
    match chain.verify_chain() {
        Err(VerifyError::HashMismatch { link, .. }) => assert_eq!(link, 1),
        other => panic!("expected a hash mismatch at link 1, got {:?}", other.is_ok()),
    }
}

#[test]
fn tamper_nonce_mismatch() {
    let mut chain = Blockchain::new(0);
    chain.add("a".to_string());
    chain.add("b".to_string());
    chain.add("c".to_string());
    chain.blocks[0].nonce = chain.blocks[0].nonce.wrapping_add(1);
    match chain.verify_chain() {
        Err(VerifyError::HashMismatch { link, .. }) => assert_eq!(link, 1),
        other => panic!("expected a hash mismatch at link 1, got {:?}", other.is_ok()),
    }
}

#[test]
fn tamper_cached_hash_mismatch() {
    let mut chain = Blockchain::new(0);
    chain.add("a".to_string());
    chain.add("b".to_string());
    chain.add("c".to_string());
    chain.blocks[2].prev_hash = Some("invalid hash".to_string());
    match chain.verify_chain() {
        Err(VerifyError::HashMismatch { link, expected, actual }) => {
            assert_eq!(link, 2);
            assert_eq!(expected, "invalid hash");
            assert_eq!(actual, chain.hash_block(&chain.blocks[1]));
        }
        other => panic!("expected a hash mismatch at link 2, got {:?}", other.is_ok()),
    }
}

#[test]
fn missing_link_reported_as_mismatch() {
    let mut chain = Blockchain::new(0);
    chain.add("a".to_string());
    chain.add("b".to_string());
    chain.blocks[1].prev_hash = None;
    match chain.verify_chain() {
        Err(VerifyError::HashMismatch { link, expected, .. }) => {
            assert_eq!(link, 1);
            assert_eq!(expected, "");
        }
        other => panic!("expected a hash mismatch at link 1, got {:?}", other.is_ok()),
    }
}

#[test]
fn relinked_tampered_block_fails_difficulty() {
    let mut chain = Blockchain::new(3);
    chain.add_with_timestamp("a".to_string(), "2001-01-01 00:00:01.000010 UTC".to_string());
    chain.add_with_timestamp("b".to_string(), "2001-01-01 00:00:02.000001 UTC".to_string());
    assert!(chain.verify_chain().is_ok());
    chain.blocks[0].transaction = "evil".to_string();
    let relinked = chain.hash_block(&chain.blocks[0]);
    chain.blocks[1].prev_hash = Some(relinked.clone());
    match chain.verify_chain() {
        Err(VerifyError::InvalidHash { link, hash }) => {
            assert_eq!(link, 1);
            assert_eq!(hash, relinked);
            assert!(!hash.starts_with("000"));
        }
        other => panic!("expected an invalid hash at link 1, got {:?}", other.is_ok()),
    }
}

#[test]
fn raised_difficulty_fails_as_invalid_hash() {
    let mut chain = Blockchain::new(0);
    chain.add("a".to_string());
    chain.add("b".to_string());
    assert!(chain.verify_chain().is_ok());
    chain.difficulty = 6;
    match chain.verify_chain() {
        Err(VerifyError::InvalidHash { link, .. }) => assert_eq!(link, 1),
        other => panic!("expected an invalid hash at link 1, got {:?}", other.is_ok()),
    }
}
