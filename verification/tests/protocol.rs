use sha2::Digest;

use ziggurat::codec::{Hash256, NodeAddr, Wire};
use ziggurat::digest::double_sha256;
use ziggurat::filter::{Filter, FilterAction, MessageFilter};
use ziggurat::message::{Message, Network, MAX_PAYLOAD};
use ziggurat::payload::{
    Addr, Block, BlockHeader, Inv, InvHash, LocatorHashes, Nonce, ObjectKind, Reject, Tx, Version,
};
use ziggurat::CodecError;

fn sample_header(tag: u8) -> BlockHeader {
    BlockHeader {
        version: 4,
        prev_block: Hash256::new([tag; 32]),
        merkle_root: Hash256::new([tag.wrapping_add(1); 32]),
        final_sapling_root: Hash256::zeroed(),
        timestamp: 1_600_000_000,
        bits: 0x1f07_ffff,
        nonce: Hash256::new([tag.wrapping_add(2); 32]),
        solution: vec![tag; 5],
    }
}

fn sample_block(tag: u8) -> Block {
    Block::new(sample_header(tag), vec![Tx(vec![tag, 1, 2, 3])])
}

fn frame_roundtrip(m: Message) {
    let bytes = m.to_bytes(Network::Testnet).unwrap();
    let mut pos = 0usize;
    let back = Message::from_bytes(&bytes, &mut pos, Network::Testnet).unwrap();
    assert_eq!(back, m);
    assert_eq!(pos, bytes.len());
}

#[test]
fn framing_roundtrip_every_payload_kind() {
    let addr_a = NodeAddr { ip_hi: 1, ip_lo: 2, port: 8233 };
    let addr_b = NodeAddr { ip_hi: 3, ip_lo: 4, port: 8234 };
    frame_roundtrip(Message::Version(Version::new(addr_a, addr_b, 1_600_000_000, Nonce(0x42))));
    frame_roundtrip(Message::Verack);
    frame_roundtrip(Message::Ping(Nonce(7)));
    frame_roundtrip(Message::Pong(Nonce(7)));
    frame_roundtrip(Message::GetAddr);
    frame_roundtrip(Message::Addr(Addr::empty()));
    frame_roundtrip(Message::GetHeaders(LocatorHashes::new(
        vec![Hash256::new([9; 32])],
        Hash256::zeroed(),
    )));
    frame_roundtrip(Message::GetBlocks(LocatorHashes::new(
        vec![Hash256::new([9; 32]), Hash256::new([8; 32])],
        Hash256::new([7; 32]),
    )));
    frame_roundtrip(Message::Inv(Inv::new(vec![sample_block(1).inv_hash()])));
    frame_roundtrip(Message::GetData(Inv::new(vec![sample_block(2).inv_hash()])));
    frame_roundtrip(Message::NotFound(Inv::empty()));
    frame_roundtrip(Message::Block(sample_block(3)));
    frame_roundtrip(Message::Tx(Tx(vec![1, 2, 3])));
    frame_roundtrip(Message::MemPool);
    frame_roundtrip(Message::Reject(Reject(b"malformed".to_vec())));
}

#[test]
fn frame_header_layout() {
    let bytes = Message::Ping(Nonce(0x0102_0304_0506_0708)).to_bytes(Network::Testnet).unwrap();
    // Testnet magic.
    assert_eq!(&bytes[0..4], &[0xFA, 0x1A, 0xF9, 0xBF]);
    // Null-padded command.
    assert_eq!(&bytes[4..16], b"ping\0\0\0\0\0\0\0\0");
    // Payload length, little-endian.
    assert_eq!(&bytes[16..20], &[8, 0, 0, 0]);
    // Checksum plus the nonce payload.
    assert_eq!(bytes.len(), 24 + 8);
    assert_eq!(&bytes[24..32], &[8, 7, 6, 5, 4, 3, 2, 1]);
}

#[test]
fn frame_rejects_wrong_magic() {
    let bytes = Message::Verack.to_bytes(Network::Testnet).unwrap();
    let mut pos = 0usize;
    let e = Message::from_bytes(&bytes, &mut pos, Network::Mainnet).unwrap_err();
    assert_eq!(e, CodecError::InvalidData);
    assert_eq!(pos, 0);
}

#[test]
fn frame_rejects_bad_checksum() {
    let mut bytes = Message::Ping(Nonce(1)).to_bytes(Network::Testnet).unwrap();
    bytes[20] = bytes[20].wrapping_add(1);
    let mut pos = 0usize;
    let e = Message::from_bytes(&bytes, &mut pos, Network::Testnet).unwrap_err();
    assert_eq!(e, CodecError::InvalidData);
}

#[test]
fn frame_rejects_unknown_command() {
    let mut bytes = Message::Verack.to_bytes(Network::Testnet).unwrap();
    bytes[4] = b'z';
    // The checksum still matches (it covers the payload only), so the
    // unknown command is what gets rejected.
    let mut pos = 0usize;
    let e = Message::from_bytes(&bytes, &mut pos, Network::Testnet).unwrap_err();
    assert_eq!(e, CodecError::InvalidData);
}

#[test]
fn frame_rejects_wrong_length() {
    // A verack whose header claims one payload byte: the byte is there and
    // checksummed, but a verack payload must be empty.
    let mut bytes = Message::Verack.to_bytes(Network::Testnet).unwrap();
    let payload = [0xAAu8];
    let digest = sha2::Sha256::digest(sha2::Sha256::digest(payload));
    bytes[16] = 1;
    bytes[20..24].copy_from_slice(&digest[0..4]);
    bytes.push(0xAA);
    let mut pos = 0usize;
    let e = Message::from_bytes(&bytes, &mut pos, Network::Testnet).unwrap_err();
    assert_eq!(e, CodecError::InvalidData);
}

#[test]
fn frame_truncated_is_eof() {
    let bytes = Message::Ping(Nonce(1)).to_bytes(Network::Testnet).unwrap();
    let mut pos = 0usize;
    let e = Message::from_bytes(&bytes[..20], &mut pos, Network::Testnet).unwrap_err();
    assert_eq!(e, CodecError::UnexpectedEof);
    let mut pos2 = 0usize;
    let e2 = Message::from_bytes(&bytes[..30], &mut pos2, Network::Testnet).unwrap_err();
    assert_eq!(e2, CodecError::UnexpectedEof);
}

#[test]
fn oversize_payload_is_refused_on_write() {
    let tx = Tx(vec![0u8; MAX_PAYLOAD as usize + 1]);
    let e = Message::Tx(tx).to_bytes(Network::Testnet).unwrap_err();
    assert_eq!(e, CodecError::InvalidData);
}

#[test]
fn object_kind_above_three_is_invalid_data() {
    let mut buf: Vec<u8> = Vec::new();
    ObjectKind::Block.encode(&mut buf).unwrap();
    assert_eq!(buf, vec![2, 0, 0, 0]);
    let bad = vec![7u8, 0, 0, 0];
    let mut pos = 0usize;
    let e = ObjectKind::decode(&bad, &mut pos).unwrap_err();
    assert_eq!(e, CodecError::InvalidData);
    let short = vec![1u8, 0];
    let mut pos2 = 0usize;
    let e2 = ObjectKind::decode(&short, &mut pos2).unwrap_err();
    assert_eq!(e2, CodecError::UnexpectedEof);
}

#[test]
fn inv_roundtrip_and_kinds() {
    let block_entry = InvHash::new(ObjectKind::Block, Hash256::new([3; 32]));
    let tx_entry = InvHash::new(ObjectKind::Tx, Hash256::new([4; 32]));
    let uniform = Inv::new(vec![block_entry, block_entry]);
    let mixed = Inv::new(vec![block_entry, tx_entry]);
    assert!(!uniform.has_mixed_kinds());
    assert!(!Inv::empty().has_mixed_kinds());
    assert!(mixed.has_mixed_kinds());

    let mut buf: Vec<u8> = Vec::new();
    mixed.encode(&mut buf).unwrap();
    assert_eq!(buf.len(), 1 + 2 * 36);
    let mut pos = 0usize;
    let back = Inv::decode(&buf, &mut pos).unwrap();
    assert_eq!(back, mixed);
}

#[test]
fn double_sha256_matches_the_outside_digest() {
    let data = b"The quick brown fox jumps over the lazy dog";
    let h = double_sha256(data);
    let expected = sha2::Sha256::digest(sha2::Sha256::digest(data));
    let mut buf: Vec<u8> = Vec::new();
    h.encode(&mut buf).unwrap();
    assert_eq!(buf, expected.as_slice());
    // And it is not the input handed back: hashing different data differs.
    assert_ne!(double_sha256(b"a"), double_sha256(b"b"));
}

#[test]
fn block_identity_is_the_header_digest() {
    let block = sample_block(5);
    // The block's hash is the double digest of exactly its header bytes.
    let mut header_bytes: Vec<u8> = Vec::new();
    block.header.encode(&mut header_bytes).unwrap();
    let expected = sha2::Sha256::digest(sha2::Sha256::digest(&header_bytes));
    let mut got: Vec<u8> = Vec::new();
    block.double_sha256().encode(&mut got).unwrap();
    assert_eq!(got, expected.as_slice());
    // Its gossip identity is a block-kind entry carrying that hash.
    let inv = block.inv_hash();
    assert_eq!(inv.kind, ObjectKind::Block);
    assert_eq!(inv.hash, block.header.double_sha256());
    // A transaction's identity hashes the transaction's own wire bytes.
    let tx = &block.txs[0];
    let tx_inv = tx.inv_hash();
    assert_eq!(tx_inv.kind, ObjectKind::Tx);
    assert_eq!(tx_inv.hash, tx.double_sha256());
}

#[test]
fn filter_auto_replies() {
    let f = MessageFilter::with_all_auto_reply();
    match f.action_for(&Message::Ping(Nonce(9))) {
        FilterAction::Reply(m) => assert_eq!(m, Message::Pong(Nonce(9))),
        other => panic!("expected a pong reply, got {:?}", other),
    }
    match f.action_for(&Message::GetAddr) {
        FilterAction::Reply(m) => assert_eq!(m, Message::Addr(Addr::empty())),
        other => panic!("expected an empty addr reply, got {:?}", other),
    }
    let inv = Inv::new(vec![InvHash::new(ObjectKind::Block, Hash256::new([1; 32]))]);
    match f.action_for(&Message::GetData(inv.clone())) {
        FilterAction::Reply(m) => assert_eq!(m, Message::NotFound(inv)),
        other => panic!("expected a not-found reply, got {:?}", other),
    }
    // Auto-replied commands without a canned answer are absorbed.
    assert_eq!(f.action_for(&Message::Addr(Addr::empty())), FilterAction::Ignore);
}

#[test]
fn reject_frame_carries_its_bytes() {
    // A reject notice travels opaquely: the frame delimits it and the
    // bytes come back as sent.
    let bytes = Message::Reject(Reject(vec![1, 2, 3])).to_bytes(Network::Testnet).unwrap();
    assert_eq!(&bytes[4..16], b"reject\0\0\0\0\0\0");
    assert_eq!(&bytes[24..], &[1, 2, 3]);
    let mut pos = 0usize;
    let back = Message::from_bytes(&bytes, &mut pos, Network::Testnet).unwrap();
    assert_eq!(back, Message::Reject(Reject(vec![1, 2, 3])));
    // The filter can forward or absorb it like any other command.
    let f = MessageFilter::with_all_auto_reply();
    assert_eq!(f.action_for(&Message::Reject(Reject(vec![]))), FilterAction::Ignore);
    let g = f.with_reject_filter(Filter::Disabled);
    assert_eq!(g.action_for(&Message::Reject(Reject(vec![]))), FilterAction::Forward);
}

#[test]
fn filter_disabled_forwards_and_drop_silences() {
    let f = MessageFilter::with_all_auto_reply().with_ping_filter(Filter::Disabled);
    assert_eq!(f.action_for(&Message::Ping(Nonce(1))), FilterAction::Forward);
    let g = MessageFilter::with_all_disabled().with_ping_filter(Filter::Drop);
    assert_eq!(g.action_for(&Message::Ping(Nonce(1))), FilterAction::Ignore);
    assert_eq!(g.action_for(&Message::MemPool), FilterAction::Forward);
}
