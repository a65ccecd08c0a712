use ziggurat::codec::{Hash256, NetworkAddr, NodeAddr, VarInt, VarStr, Wire};
use ziggurat::CodecError;

fn roundtrip_varint(v: u64) -> Vec<u8> {
    let mut buf: Vec<u8> = Vec::new();
    VarInt(v).encode(&mut buf).unwrap();
    let mut pos = 0usize;
    let back = VarInt::decode(&buf, &mut pos).unwrap();
    assert_eq!(back, VarInt(v));
    assert_eq!(pos, buf.len());
    buf
}

#[test]
fn varint_canonical_forms() {
    assert_eq!(roundtrip_varint(0), vec![0]);
    assert_eq!(roundtrip_varint(0xFC), vec![0xFC]);
    assert_eq!(roundtrip_varint(0xFD), vec![0xFD, 0xFD, 0x00]);
    assert_eq!(roundtrip_varint(0xFFFF), vec![0xFD, 0xFF, 0xFF]);
    assert_eq!(roundtrip_varint(0x1_0000), vec![0xFE, 0x00, 0x00, 0x01, 0x00]);
    assert_eq!(
        roundtrip_varint(0xFFFF_FFFF),
        vec![0xFE, 0xFF, 0xFF, 0xFF, 0xFF]
    );
    assert_eq!(
        roundtrip_varint(0x1_0000_0000),
        vec![0xFF, 0, 0, 0, 0, 1, 0, 0, 0]
    );
    assert_eq!(
        roundtrip_varint(u64::MAX),
        vec![0xFF, 0xFF, 0xFF, 0xFF, 0xFF, 0xFF, 0xFF, 0xFF, 0xFF]
    );
}

#[test]
fn varint_noncanonical_accepted() {
    // 5 carried in the two-byte form: wider than necessary, still read.
    let bytes = vec![0xFDu8, 0x05, 0x00];
    let mut pos = 0usize;
    let v = VarInt::decode(&bytes, &mut pos).unwrap();
    assert_eq!(v, VarInt(5));
    assert_eq!(pos, 3);
}

#[test]
fn varint_strict_refuses_noncanonical() {
    // The canonical form is read as usual.
    let canonical = vec![0xFDu8, 0xFD, 0x00];
    let mut pos = 0usize;
    assert_eq!(VarInt::decode_strict(&canonical, &mut pos).unwrap(), VarInt(0xFD));
    assert_eq!(pos, 3);
    // The same value carried wider is malformed under the strict policy.
    let wide = vec![0xFDu8, 0x05, 0x00];
    let mut pos = 0usize;
    let e = VarInt::decode_strict(&wide, &mut pos).unwrap_err();
    assert_eq!(e, CodecError::InvalidData);
    assert_eq!(pos, 0);
}

#[test]
fn varint_short_input_is_eof() {
    let bytes = vec![0xFDu8, 0x01];
    let mut pos = 0usize;
    let e = VarInt::decode(&bytes, &mut pos).unwrap_err();
    assert_eq!(e, CodecError::UnexpectedEof);
    assert_eq!(pos, 0);
}

#[test]
fn hash_new_encodes_its_bytes() {
    let h = Hash256::new([17u8; 32]);
    let mut buf: Vec<u8> = Vec::new();
    h.encode(&mut buf).unwrap();
    assert_eq!(buf, vec![17u8; 32]);
    let mut pos = 0usize;
    let back = Hash256::decode(&buf, &mut pos).unwrap();
    assert_eq!(back, h);
    assert_eq!(pos, 32);
}

#[test]
fn zero_hash_is_the_stop_sentinel() {
    let z = Hash256::zeroed();
    assert!(z.is_zero());
    assert!(!Hash256::new([1u8; 32]).is_zero());
    let mut buf: Vec<u8> = Vec::new();
    z.encode(&mut buf).unwrap();
    assert_eq!(buf, vec![0u8; 32]);
}

#[test]
fn varstr_roundtrip() {
    let s = VarStr(b"MagicBean:4.1.1".to_vec());
    let mut buf: Vec<u8> = Vec::new();
    s.encode(&mut buf).unwrap();
    assert_eq!(buf[0] as usize, b"MagicBean:4.1.1".len());
    let mut pos = 0usize;
    let back = VarStr::decode(&buf, &mut pos).unwrap();
    assert_eq!(back, s);
    assert_eq!(pos, buf.len());
}

#[test]
fn varstr_truncated_body_is_eof() {
    let bytes = vec![5u8, b'a', b'b'];
    let mut pos = 0usize;
    let e = VarStr::decode(&bytes, &mut pos).unwrap_err();
    assert_eq!(e, CodecError::UnexpectedEof);
}

#[test]
fn node_addr_port_is_big_endian() {
    let a = NodeAddr { ip_hi: 0, ip_lo: 0, port: 0x1234 };
    let mut buf: Vec<u8> = Vec::new();
    a.encode(&mut buf).unwrap();
    assert_eq!(buf.len(), 18);
    assert_eq!(buf[16], 0x12);
    assert_eq!(buf[17], 0x34);
    let mut pos = 0usize;
    let back = NodeAddr::decode(&buf, &mut pos).unwrap();
    assert_eq!(back, a);
}

#[test]
fn network_addr_roundtrip() {
    let a = NetworkAddr {
        timestamp: 1_600_000_000,
        services: 1,
        addr: NodeAddr { ip_hi: 0xFFFF_0000_0000_0000, ip_lo: 0x0100_007F_0000_0000, port: 18233 },
    };
    let mut buf: Vec<u8> = Vec::new();
    a.encode(&mut buf).unwrap();
    assert_eq!(buf.len(), 30);
    let mut pos = 0usize;
    let back = NetworkAddr::decode(&buf, &mut pos).unwrap();
    assert_eq!(back, a);
    assert_eq!(pos, 30);
}
