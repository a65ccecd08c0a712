use ziggurat::codec::Hash256;
use ziggurat::message::Message;
use ziggurat::node::{
    expected_blocks_inv, expected_headers, find_block, locate_chain, seed_step, serve_getdata,
    SeedError, SeedStage,
};
use ziggurat::payload::{Block, BlockHeader, Inv, InvHash, LocatorHashes, Nonce, ObjectKind, Tx};

/// A small chain whose blocks link by their real hashes.
fn chain(n: usize) -> Vec<Block> {
    let mut blocks: Vec<Block> = Vec::new();
    let mut prev = Hash256::zeroed();
    for i in 0..n {
        let header = BlockHeader {
            version: 4,
            prev_block: prev,
            merkle_root: Hash256::new([i as u8; 32]),
            final_sapling_root: Hash256::zeroed(),
            timestamp: 1_600_000_000 + i as u32,
            bits: 0x1f07_ffff,
            nonce: Hash256::new([0x40 + i as u8; 32]),
            solution: vec![i as u8; 3],
        };
        let block = Block::new(header, vec![Tx(vec![i as u8, 9])]);
        prev = block.double_sha256();
        blocks.push(block);
    }
    blocks
}

fn hashes(blocks: &[Block]) -> Vec<Hash256> {
    blocks.iter().map(|b| b.double_sha256()).collect()
}

#[test]
fn seeding_script_runs_to_completion() {
    let blocks = chain(4);
    let nonce = Nonce(77);
    let genesis_hash = blocks[0].double_sha256();

    // Step one: the node asks for headers from genesis, unlimited.
    let query = Message::GetHeaders(LocatorHashes::new(vec![genesis_hash], Hash256::zeroed()));
    let (stage, replies) = seed_step(SeedStage::AwaitGetHeaders, &query, &blocks, nonce).unwrap();
    assert_eq!(stage, SeedStage::AwaitGetData);
    assert_eq!(replies.len(), 1);
    match &replies[0] {
        Message::Headers(h) => {
            assert_eq!(h.headers.len(), 3);
            assert_eq!(h.headers[0].0, blocks[1].header);
            assert_eq!(h.headers[2].0, blocks[3].header);
        },
        other => panic!("expected headers, got {:?}", other),
    }

    // Step two: the node requests exactly the announced blocks.
    let inv = Inv::new(blocks[1..].iter().map(|b| b.inv_hash()).collect());
    let query = Message::GetData(inv);
    let (stage, replies) = seed_step(SeedStage::AwaitGetData, &query, &blocks, nonce).unwrap();
    assert_eq!(stage, SeedStage::AwaitPong);
    assert_eq!(replies.len(), 4);
    assert_eq!(replies[0], Message::Block(blocks[1].clone()));
    assert_eq!(replies[2], Message::Block(blocks[3].clone()));
    assert_eq!(replies[3], Message::Ping(nonce));

    // Step three: the matching pong finishes the exchange.
    let (stage, replies) =
        seed_step(SeedStage::AwaitPong, &Message::Pong(nonce), &blocks, nonce).unwrap();
    assert_eq!(stage, SeedStage::Done);
    assert!(replies.is_empty());
}

#[test]
fn seeding_script_refuses_wrong_queries() {
    let blocks = chain(3);
    let nonce = Nonce(1);

    // A locator that does not start at genesis.
    let bad = Message::GetHeaders(LocatorHashes::new(
        vec![blocks[1].double_sha256()],
        Hash256::zeroed(),
    ));
    assert_eq!(
        seed_step(SeedStage::AwaitGetHeaders, &bad, &blocks, nonce).unwrap_err(),
        SeedError::QueryMismatch
    );

    // The wrong kind of message for the stage.
    assert_eq!(
        seed_step(SeedStage::AwaitGetHeaders, &Message::GetAddr, &blocks, nonce).unwrap_err(),
        SeedError::UnexpectedMessage
    );

    // A getdata missing one of the announced blocks.
    let short = Inv::new(vec![blocks[1].inv_hash()]);
    assert_eq!(
        seed_step(SeedStage::AwaitGetData, &Message::GetData(short), &blocks, nonce).unwrap_err(),
        SeedError::QueryMismatch
    );

    // A pong with the wrong nonce.
    assert_eq!(
        seed_step(SeedStage::AwaitPong, &Message::Pong(Nonce(2)), &blocks, nonce).unwrap_err(),
        SeedError::QueryMismatch
    );
}

#[test]
fn get_blocks_unlimited_yields_all_children() {
    let blocks = chain(11);
    let h = hashes(&blocks);
    // For each block below the tip, its unlimited inventory is all of its
    // children.
    for i in 0..10 {
        let inv = expected_blocks_inv(&blocks, i, Hash256::zeroed());
        let expected: Vec<InvHash> = blocks[i + 1..].iter().map(|b| b.inv_hash()).collect();
        assert_eq!(inv, Inv::new(expected));
    }
    // The tip has no children: nothing to announce.
    let tip_inv = expected_blocks_inv(&blocks, 10, Hash256::zeroed());
    assert_eq!(tip_inv, Inv::empty());
    let _ = h;
}

#[test]
fn get_blocks_stop_hash_is_excluded() {
    let blocks = chain(11);
    let h = hashes(&blocks);
    let inv = expected_blocks_inv(&blocks, 0, h[2]);
    assert_eq!(inv, Inv::new(vec![blocks[1].inv_hash()]));
    // A stop at or before the locator block bounds the range to nothing.
    assert_eq!(expected_blocks_inv(&blocks, 2, h[2]), Inv::empty());
    assert_eq!(expected_blocks_inv(&blocks, 2, h[0]), Inv::empty());
}

#[test]
fn get_headers_ranges() {
    let blocks = chain(3);
    let h = hashes(&blocks);
    // Every valid range (start, stop): the headers strictly after the
    // locator block, up to and including the stop block — and the empty
    // list when the stop names the locator block itself.
    let ranges = [(0usize, 0usize), (0, 1), (0, 2), (1, 1), (1, 2), (2, 2)];
    for (start, stop) in ranges {
        let headers = expected_headers(&blocks, start, h[stop]);
        assert_eq!(headers.headers.len(), stop - start, "range ({}, {})", start, stop);
        for (k, entry) in headers.headers.iter().enumerate() {
            assert_eq!(entry.0, blocks[start + 1 + k].header, "range ({}, {})", start, stop);
        }
    }
    // A stop before the locator also yields nothing.
    let headers = expected_headers(&blocks, 2, h[0]);
    assert!(headers.headers.is_empty());
    // Unlimited from each position.
    for i in 0..3 {
        let headers = expected_headers(&blocks, i, Hash256::zeroed());
        assert_eq!(headers.headers.len(), 2 - i);
    }
}

#[test]
fn off_chain_locators_are_skipped() {
    let blocks = chain(4);
    let h = hashes(&blocks);
    // Unknown hashes are passed over until a known one is found.
    let locators = vec![Hash256::new([19; 32]), Hash256::new([22; 32]), h[1]];
    assert_eq!(locate_chain(&blocks, &locators), Some(1));
    assert_eq!(locate_chain(&blocks, &vec![Hash256::new([19; 32])]), None);
    assert_eq!(find_block(&blocks, h[3]), Some(3));
    assert_eq!(find_block(&blocks, Hash256::new([19; 32])), None);
}

#[test]
fn get_data_serves_blocks_and_not_founds() {
    let blocks = chain(3);
    let missing = InvHash::new(ObjectKind::Block, Hash256::new([17; 32]));
    let query = Inv::new(vec![
        blocks[0].inv_hash(),
        missing,
        blocks[1].inv_hash(),
        blocks[2].inv_hash(),
        missing,
    ]);
    let replies = serve_getdata(&blocks, &query);
    assert_eq!(replies.len(), 5);
    assert_eq!(replies[0], Message::Block(blocks[0].clone()));
    assert_eq!(replies[1], Message::NotFound(Inv::new(vec![missing])));
    assert_eq!(replies[2], Message::Block(blocks[1].clone()));
    assert_eq!(replies[3], Message::Block(blocks[2].clone()));
    assert_eq!(replies[4], Message::NotFound(Inv::new(vec![missing])));
    // A transaction entry is not served from the chain.
    let tx_query = Inv::new(vec![blocks[0].txs[0].inv_hash()]);
    let replies = serve_getdata(&blocks, &tx_query);
    assert_eq!(replies[0], Message::NotFound(tx_query));
}
