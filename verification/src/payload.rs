//! Typed payloads of the wire protocol: inventory vectors, the version
//! record, peer lists, block locators, block headers, blocks and
//! transactions.
//!
//! Every payload follows the codec discipline of [`crate::codec`]: a
//! canonical `enc_*` spec, an exact `dec_*` spec, and executable methods
//! proved against them.

use vstd::prelude::*;
use vstd::bytes::*;

use crate::CodecError;
use crate::codec::{
    decode_list, enc_hash, enc_list, enc_netaddr, enc_nodeaddr, enc_varint, enc_varstr,
    encode_list, dec_hash, dec_list, dec_netaddr, dec_nodeaddr, dec_u32, dec_u64, dec_u8,
    dec_varint, dec_varstr, hash_of_bytes, lemma_list_roundtrip, lemma_varint_roundtrip,
    read_u32, read_u64, read_u8, seq_view, write_u32, write_u64, Hash256, NetworkAddr, NodeAddr,
    Parsed, VarInt, VarStr, Wire,
};

verus! {

// ---------------------------------------------------------------------------
// Inventory objects
// ---------------------------------------------------------------------------

/// The kind of an object announced in an inventory vector.
#[derive(Clone, Copy, Debug, PartialEq, Eq, Structural)]
pub enum ObjectKind {
    Error,
    Tx,
    Block,
    FilteredBlock,
}

/// The wire code of an inventory object kind.
pub open spec fn kind_code(k: ObjectKind) -> u32 {
    match k {
        ObjectKind::Error => 0,
        ObjectKind::Tx => 1,
        ObjectKind::Block => 2,
        ObjectKind::FilteredBlock => 3,
    }
}

/// The four little-endian bytes of an inventory object kind.
pub open spec fn enc_kind(k: ObjectKind) -> Seq<u8> {
    spec_u32_to_le_bytes(kind_code(k))
}

/// A code above 3 is rejected as malformed; it never aborts the process.
pub open spec fn dec_kind(s: Seq<u8>) -> Parsed<ObjectKind> {
    match dec_u32(s) {
        Err(e) => Err(e),
        Ok(p) => if p.0 == 0 {
            Ok((ObjectKind::Error, 4))
        } else if p.0 == 1 {
            Ok((ObjectKind::Tx, 4))
        } else if p.0 == 2 {
            Ok((ObjectKind::Block, 4))
        } else if p.0 == 3 {
            Ok((ObjectKind::FilteredBlock, 4))
        } else {
            Err(CodecError::InvalidData)
        },
    }
}

impl ObjectKind {
    /// Writes the four-byte code.
    pub fn encode(&self, buffer: &mut Vec<u8>) -> (r: Result<(), CodecError>)
        ensures
            r == Ok::<(), CodecError>(()),
            final(buffer)@ == old(buffer)@ + enc_kind(*self),
    {
        let code: u32 = match self {
            ObjectKind::Error => 0,
            ObjectKind::Tx => 1,
            ObjectKind::Block => 2,
            ObjectKind::FilteredBlock => 3,
        };
        write_u32(code, buffer);
        Ok(())
    }

    /// Reads a kind; a code above 3 yields `InvalidData`.
    pub fn decode(bytes: &[u8], pos: &mut usize) -> (r: Result<Self, CodecError>)
        requires
            *old(pos) <= bytes@.len(),
        ensures
            *old(pos) <= *final(pos) <= bytes@.len(),
            match dec_kind(bytes@.skip(*old(pos) as int)) {
                Ok(p) => r matches Ok(v) && v == p.0 && *final(pos) == *old(pos) + p.1,
                Err(e) => r == Err::<ObjectKind, CodecError>(e) && *final(pos) == *old(pos),
            },
    {
        let start: usize = *pos;
        let code = match read_u32(bytes, pos) {
            Ok(v) => v,
            Err(e) => {
                return Err(e);
            },
        };
        match code {
            0 => Ok(ObjectKind::Error),
            1 => Ok(ObjectKind::Tx),
            2 => Ok(ObjectKind::Block),
            3 => Ok(ObjectKind::FilteredBlock),
            _ => {
                *pos = start;
                Err(CodecError::InvalidData)
            },
        }
    }
}

/// The roundtrip of the kind code: each code parses back to its kind.
pub proof fn lemma_kind_roundtrip(k: ObjectKind, tail: Seq<u8>)
    ensures
        dec_kind(enc_kind(k) + tail) == Ok::<(ObjectKind, int), CodecError>((k, 4)),
{
    lemma_auto_spec_u32_to_from_le_bytes();
    assert((enc_kind(k) + tail).subrange(0, 4) =~= enc_kind(k));
}

/// An inventory entry: an object kind and the object's hash.
#[derive(Clone, Copy, Debug, PartialEq, Eq, Structural)]
pub struct InvHash {
    pub kind: ObjectKind,
    pub hash: Hash256,
}

/// The 36 wire bytes of an inventory entry.
pub open spec fn enc_invhash(v: InvHash) -> Seq<u8> {
    enc_kind(v.kind) + enc_hash(v.hash)
}

pub open spec fn dec_invhash(s: Seq<u8>) -> Parsed<InvHash> {
    match dec_kind(s) {
        Err(e) => Err(e),
        Ok(p) => match dec_hash(s.skip(4)) {
            Err(e) => Err(e),
            Ok(q) => Ok((InvHash { kind: p.0, hash: q.0 }, 36)),
        },
    }
}

impl View for InvHash {
    type V = InvHash;

    open spec fn view(&self) -> InvHash {
        *self
    }
}

impl InvHash {
    /// An inventory entry from its parts.
    pub fn new(kind: ObjectKind, hash: Hash256) -> (r: InvHash)
        ensures
            r == (InvHash { kind, hash }),
    {
        InvHash { kind, hash }
    }

    /// Writes the 36 wire bytes.
    pub fn encode(&self, buffer: &mut Vec<u8>) -> (r: Result<(), CodecError>)
        ensures
            r == Ok::<(), CodecError>(()),
            final(buffer)@ == old(buffer)@ + enc_invhash(*self),
    {
        let _ = self.kind.encode(buffer);
        let _ = self.hash.encode(buffer);
        assert(buffer@ =~= old(buffer)@ + enc_invhash(*self));
        Ok(())
    }

    /// Reads one entry, exactly as `dec_invhash` parses it.
    pub fn decode(bytes: &[u8], pos: &mut usize) -> (r: Result<Self, CodecError>)
        requires
            *old(pos) <= bytes@.len(),
        ensures
            *old(pos) <= *final(pos) <= bytes@.len(),
            match dec_invhash(bytes@.skip(*old(pos) as int)) {
                Ok(p) => r matches Ok(v) && v == p.0 && *final(pos) == *old(pos) + p.1,
                Err(e) => r == Err::<InvHash, CodecError>(e) && *final(pos) == *old(pos),
            },
    {
        let start: usize = *pos;
        let kind = match ObjectKind::decode(bytes, pos) {
            Ok(v) => v,
            Err(e) => {
                return Err(e);
            },
        };
        let hash = match Hash256::decode(bytes, pos) {
            Ok(v) => v,
            Err(e) => {
                *pos = start;
                return Err(e);
            },
        };
        proof {
            assert(bytes@.skip(start as int).skip(4) =~= bytes@.skip(start + 4));
        }
        Ok(InvHash { kind, hash })
    }
}

impl Wire for InvHash {
    open spec fn enc(v: InvHash) -> Seq<u8> {
        enc_invhash(v)
    }

    open spec fn dec(s: Seq<u8>) -> Parsed<InvHash> {
        dec_invhash(s)
    }

    open spec fn wf(v: InvHash) -> bool {
        true
    }

    proof fn roundtrip(v: InvHash, tail: Seq<u8>) {
        lemma_auto_spec_u32_to_from_le_bytes();
        let s = enc_invhash(v) + tail;
        assert(s =~= enc_kind(v.kind) + (enc_hash(v.hash) + tail));
        lemma_kind_roundtrip(v.kind, enc_hash(v.hash) + tail);
        assert(s.skip(4) =~= enc_hash(v.hash) + tail);
        Hash256::roundtrip(v.hash, tail);
    }

    fn encode(&self, buffer: &mut Vec<u8>) -> (r: Result<(), CodecError>) {
        InvHash::encode(self, buffer)
    }

    fn decode(bytes: &[u8], pos: &mut usize) -> (r: Result<Self, CodecError>) {
        InvHash::decode(bytes, pos)
    }
}

// ---------------------------------------------------------------------------
// Inv: an inventory vector
// ---------------------------------------------------------------------------

/// An inventory vector, as carried by `inv`, `getdata` and `notfound`: a
/// count followed by that many entries.
#[derive(Clone, Debug, PartialEq, Eq)]
pub struct Inv {
    inventory: Vec<InvHash>,
}

/// The wire bytes of an inventory vector.
pub open spec fn enc_inv(v: Seq<InvHash>) -> Seq<u8> {
    enc_varint(v.len() as u64) + enc_list::<InvHash>(v)
}

pub open spec fn dec_inv(s: Seq<u8>) -> Parsed<Seq<InvHash>> {
    match dec_varint(s) {
        Err(e) => Err(e),
        Ok(p) => match dec_list::<InvHash>(s.skip(p.1), p.0 as nat) {
            Err(e) => Err(e),
            Ok(q) => Ok((q.0, p.1 + q.1)),
        },
    }
}

impl View for Inv {
    type V = Seq<InvHash>;

    closed spec fn view(&self) -> Seq<InvHash> {
        self.inventory@
    }
}

impl Wire for Inv {
    open spec fn enc(v: Seq<InvHash>) -> Seq<u8> {
        enc_inv(v)
    }

    open spec fn dec(s: Seq<u8>) -> Parsed<Seq<InvHash>> {
        dec_inv(s)
    }

    open spec fn wf(v: Seq<InvHash>) -> bool {
        v.len() <= u64::MAX
    }

    proof fn roundtrip(v: Seq<InvHash>, tail: Seq<u8>) {
        let n = v.len() as u64;
        let body = enc_list::<InvHash>(v);
        let s = enc_inv(v) + tail;
        assert(s =~= enc_varint(n) + (body + tail));
        lemma_varint_roundtrip(n, body + tail);
        let k = enc_varint(n).len() as int;
        assert(s.skip(k) =~= body + tail);
        lemma_list_roundtrip::<InvHash>(v, tail);
    }

    fn encode(&self, buffer: &mut Vec<u8>) -> (r: Result<(), CodecError>) {
        Inv::encode(self, buffer)
    }

    fn decode(bytes: &[u8], pos: &mut usize) -> (r: Result<Self, CodecError>) {
        Inv::decode(bytes, pos)
    }
}

impl Inv {
    /// Writes the count, then each entry.
    pub fn encode(&self, buffer: &mut Vec<u8>) -> (r: Result<(), CodecError>)
        ensures
            r == Ok::<(), CodecError>(()),
            final(buffer)@ == old(buffer)@ + enc_inv(self@),
    {
        let count = VarInt(self.inventory.len() as u64);
        let _ = count.encode(buffer);
        let _ = encode_list(&self.inventory, buffer);
        proof {
            assert(seq_view(self.inventory@) =~= self.inventory@);
            assert(buffer@ =~= old(buffer)@ + enc_inv(self@));
        }
        Ok(())
    }

    /// Reads an inventory vector, exactly as `dec_inv` parses it.
    pub fn decode(bytes: &[u8], pos: &mut usize) -> (r: Result<Self, CodecError>)
        requires
            *old(pos) <= bytes@.len(),
        ensures
            *old(pos) <= *final(pos) <= bytes@.len(),
            match dec_inv(bytes@.skip(*old(pos) as int)) {
                Ok(p) => r matches Ok(v) && v@ == p.0 && *final(pos) == *old(pos) + p.1,
                Err(e) => r == Err::<Inv, CodecError>(e) && *final(pos) == *old(pos),
            },
    {
        let start: usize = *pos;
        let count = match VarInt::decode(bytes, pos) {
            Ok(v) => v,
            Err(e) => {
                return Err(e);
            },
        };
        proof {
            assert(bytes@.skip(start as int).skip((*pos - start) as int) =~= bytes@.skip(
                *pos as int,
            ));
        }
        let inventory = match decode_list::<InvHash>(bytes, pos, count.0) {
            Ok(v) => v,
            Err(e) => {
                *pos = start;
                return Err(e);
            },
        };
        proof {
            assert(seq_view(inventory@) =~= inventory@);
        }
        Ok(Inv { inventory })
    }

    /// An inventory vector over the given entries.
    pub fn new(inventory: Vec<InvHash>) -> (r: Inv)
        ensures
            r@ == inventory@,
    {
        Inv { inventory }
    }

    /// An empty inventory vector.
    pub fn empty() -> (r: Inv)
        ensures
            r@ == Seq::<InvHash>::empty(),
    {
        Inv { inventory: Vec::new() }
    }

    /// A copy of this inventory vector.
    pub fn cloned(&self) -> (r: Inv)
        ensures
            r@ == self@,
    {
        let mut inventory: Vec<InvHash> = Vec::new();
        let n = self.inventory.len();
        for i in 0..n
            invariant
                n == self.inventory@.len(),
                inventory@ == self.inventory@.take(i as int),
        {
            inventory.push(self.inventory[i]);
            assert(inventory@ =~= self.inventory@.take(i + 1));
        }
        assert(self.inventory@.take(n as int) =~= self.inventory@);
        Inv { inventory }
    }

    /// The entries, in order.
    pub fn inventory(&self) -> (r: &Vec<InvHash>)
        ensures
            r@ == self@,
    {
        &self.inventory
    }

    /// Whether two entries of different kinds stand in the vector: the
    /// protocol-violation signal a node is expected to reject.
    pub fn has_mixed_kinds(&self) -> (r: bool)
        ensures
            r == exists|i: int, j: int|
                0 <= i < self@.len() && 0 <= j < self@.len() && self@[i].kind != self@[j].kind,
    {
        let n = self.inventory.len();
        if n == 0 {
            return false;
        }
        let first = self.inventory[0].kind;
        for i in 1..n
            invariant
                n == self@.len(),
                0 < n,
                first == self@[0].kind,
                forall|j: int| 0 <= j < i ==> self@[j].kind == first,
        {
            if !kind_eq(self.inventory[i].kind, first) {
                return true;
            }
        }
        false
    }
}

/// Compares two inventory object kinds.
pub fn kind_eq(a: ObjectKind, b: ObjectKind) -> (r: bool)
    ensures
        r == (a == b),
{
    match (a, b) {
        (ObjectKind::Error, ObjectKind::Error) => true,
        (ObjectKind::Tx, ObjectKind::Tx) => true,
        (ObjectKind::Block, ObjectKind::Block) => true,
        (ObjectKind::FilteredBlock, ObjectKind::FilteredBlock) => true,
        _ => false,
    }
}

// ---------------------------------------------------------------------------
// Nonce
// ---------------------------------------------------------------------------

/// The eight-byte nonce carried by `ping` and `pong`, and by `version` to
/// guard against self-connections.
#[derive(Clone, Copy, Debug, PartialEq, Eq, Structural)]
pub struct Nonce(pub u64);

impl Default for Nonce {
    /// The zero nonce.
    fn default() -> (r: Self)
        ensures
            r == Nonce(0),
    {
        Nonce(0)
    }
}

/// The `reject` payload, carried as the raw bytes its frame delimits: the
/// harness observes reject notices but does not interpret their fields.
#[derive(Clone, Debug, PartialEq, Eq)]
pub struct Reject(pub Vec<u8>);

impl View for Reject {
    type V = Seq<u8>;

    open spec fn view(&self) -> Seq<u8> {
        self.0@
    }
}

// ---------------------------------------------------------------------------
// Signed little-endian integers (two's complement on the wire)
// ---------------------------------------------------------------------------

pub open spec fn enc_i32(x: i32) -> Seq<u8> {
    spec_u32_to_le_bytes(x as u32)
}

pub open spec fn dec_i32(s: Seq<u8>) -> Parsed<i32> {
    match dec_u32(s) {
        Err(e) => Err(e),
        Ok(p) => Ok((p.0 as i32, 4)),
    }
}

pub open spec fn enc_i64(x: i64) -> Seq<u8> {
    spec_u64_to_le_bytes(x as u64)
}

pub open spec fn dec_i64(s: Seq<u8>) -> Parsed<i64> {
    match dec_u64(s) {
        Err(e) => Err(e),
        Ok(p) => Ok((p.0 as i64, 8)),
    }
}

/// Writes a little-endian `i32`, two's complement.
pub fn write_i32(v: i32, buffer: &mut Vec<u8>)
    ensures
        final(buffer)@ == old(buffer)@ + enc_i32(v),
{
    write_u32(v as u32, buffer);
}

/// Writes a little-endian `i64`, two's complement.
pub fn write_i64(v: i64, buffer: &mut Vec<u8>)
    ensures
        final(buffer)@ == old(buffer)@ + enc_i64(v),
{
    write_u64(v as u64, buffer);
}

/// Reads a little-endian `i32`.
pub fn read_i32(bytes: &[u8], pos: &mut usize) -> (r: Result<i32, CodecError>)
    requires
        *old(pos) <= bytes@.len(),
    ensures
        *old(pos) <= *final(pos) <= bytes@.len(),
        match dec_i32(bytes@.skip(*old(pos) as int)) {
            Ok(p) => r == Ok::<i32, CodecError>(p.0) && *final(pos) == *old(pos) + p.1,
            Err(e) => r == Err::<i32, CodecError>(e) && *final(pos) == *old(pos),
        },
{
    match read_u32(bytes, pos) {
        Ok(v) => Ok(v as i32),
        Err(e) => Err(e),
    }
}

/// Reads a little-endian `i64`.
pub fn read_i64(bytes: &[u8], pos: &mut usize) -> (r: Result<i64, CodecError>)
    requires
        *old(pos) <= bytes@.len(),
    ensures
        *old(pos) <= *final(pos) <= bytes@.len(),
        match dec_i64(bytes@.skip(*old(pos) as int)) {
            Ok(p) => r == Ok::<i64, CodecError>(p.0) && *final(pos) == *old(pos) + p.1,
            Err(e) => r == Err::<i64, CodecError>(e) && *final(pos) == *old(pos),
        },
{
    match read_u64(bytes, pos) {
        Ok(v) => Ok(v as i64),
        Err(e) => Err(e),
    }
}

/// An `i32` survives the trip through its unsigned wire form.
pub proof fn lemma_i32_roundtrip(x: i32, tail: Seq<u8>)
    ensures
        dec_i32(enc_i32(x) + tail) == Ok::<(i32, int), CodecError>((x, 4)),
{
    lemma_auto_spec_u32_to_from_le_bytes();
    assert((enc_i32(x) + tail).subrange(0, 4) =~= enc_i32(x));
    assert(((x as u32) as i32) == x) by (bit_vector);
}

/// An `i64` survives the trip through its unsigned wire form.
pub proof fn lemma_i64_roundtrip(x: i64, tail: Seq<u8>)
    ensures
        dec_i64(enc_i64(x) + tail) == Ok::<(i64, int), CodecError>((x, 8)),
{
    lemma_auto_spec_u64_to_from_le_bytes();
    assert((enc_i64(x) + tail).subrange(0, 8) =~= enc_i64(x));
    assert(((x as u64) as i64) == x) by (bit_vector);
}

// ---------------------------------------------------------------------------
// Version
// ---------------------------------------------------------------------------

/// The protocol version this library speaks.
pub const PROTOCOL_VERSION: u32 = 170_013;

/// An endpoint as it stands inside a `version` payload: service bits and
/// address, with no timestamp.
#[derive(Clone, Copy, Debug, PartialEq, Eq, Structural)]
pub struct VersionAddr {
    pub services: u64,
    pub addr: NodeAddr,
}

/// The 26 wire bytes of a `version` endpoint.
pub open spec fn enc_versionaddr(a: VersionAddr) -> Seq<u8> {
    spec_u64_to_le_bytes(a.services) + enc_nodeaddr(a.addr)
}

pub open spec fn dec_versionaddr(s: Seq<u8>) -> Parsed<VersionAddr> {
    if s.len() < 26 {
        Err(CodecError::UnexpectedEof)
    } else {
        match dec_nodeaddr(s.skip(8)) {
            Err(e) => Err(e),
            Ok(p) => Ok(
                (
                    VersionAddr {
                        services: spec_u64_from_le_bytes(s.subrange(0, 8)),
                        addr: p.0,
                    },
                    26,
                ),
            ),
        }
    }
}

impl VersionAddr {
    /// An endpoint with no service bits.
    pub fn new(addr: NodeAddr) -> (r: VersionAddr)
        ensures
            r == (VersionAddr { services: 0, addr }),
    {
        VersionAddr { services: 0, addr }
    }

    /// Writes the 26 wire bytes.
    pub fn encode(&self, buffer: &mut Vec<u8>) -> (r: Result<(), CodecError>)
        ensures
            r == Ok::<(), CodecError>(()),
            final(buffer)@ == old(buffer)@ + enc_versionaddr(*self),
    {
        write_u64(self.services, buffer);
        let _ = self.addr.encode(buffer);
        assert(buffer@ =~= old(buffer)@ + enc_versionaddr(*self));
        Ok(())
    }

    /// Reads the 26 wire bytes.
    pub fn decode(bytes: &[u8], pos: &mut usize) -> (r: Result<Self, CodecError>)
        requires
            *old(pos) <= bytes@.len(),
        ensures
            *old(pos) <= *final(pos) <= bytes@.len(),
            match dec_versionaddr(bytes@.skip(*old(pos) as int)) {
                Ok(p) => r matches Ok(v) && v == p.0 && *final(pos) == *old(pos) + p.1,
                Err(e) => r == Err::<VersionAddr, CodecError>(e) && *final(pos) == *old(pos),
            },
    {
        let start: usize = *pos;
        let ghost rest = bytes@.skip(start as int);
        if bytes.len() - *pos < 26 {
            return Err(CodecError::UnexpectedEof);
        }
        let services = match read_u64(bytes, pos) {
            Ok(v) => v,
            Err(e) => { return Err(e); },
        };
        let addr = match NodeAddr::decode(bytes, pos) {
            Ok(v) => v,
            Err(e) => { *pos = start; return Err(e); },
        };
        proof {
            assert(rest.subrange(0, 8) =~= rest.subrange(0, 8));
            assert(rest.skip(8) =~= bytes@.skip(start + 8));
        }
        Ok(VersionAddr { services, addr })
    }
}

/// The roundtrip of a `version` endpoint.
pub proof fn lemma_versionaddr_roundtrip(a: VersionAddr, tail: Seq<u8>)
    ensures
        dec_versionaddr(enc_versionaddr(a) + tail) == Ok::<(VersionAddr, int), CodecError>((a, 26)),
{
    lemma_auto_spec_u64_to_from_le_bytes();
    let s = enc_versionaddr(a) + tail;
    assert(s.subrange(0, 8) =~= spec_u64_to_le_bytes(a.services));
    assert(s.skip(8) =~= enc_nodeaddr(a.addr) + tail);
    NodeAddr::roundtrip(a.addr, tail);
}

/// The model of a `version` payload.
pub struct VersionV {
    pub version: i32,
    pub services: u64,
    pub timestamp: i64,
    pub addr_recv: VersionAddr,
    pub addr_from: VersionAddr,
    pub nonce: u64,
    pub user_agent: Seq<u8>,
    pub start_height: i32,
    pub relay: bool,
}

/// The `version` payload: the handshake's opening statement.
#[derive(Clone, Debug, PartialEq, Eq)]
pub struct Version {
    pub version: i32,
    pub services: u64,
    pub timestamp: i64,
    pub addr_recv: VersionAddr,
    pub addr_from: VersionAddr,
    pub nonce: Nonce,
    pub user_agent: VarStr,
    pub start_height: i32,
    pub relay: bool,
}

pub open spec fn enc_version(v: VersionV) -> Seq<u8> {
    enc_i32(v.version) + spec_u64_to_le_bytes(v.services) + enc_i64(v.timestamp)
        + enc_versionaddr(v.addr_recv) + enc_versionaddr(v.addr_from) + spec_u64_to_le_bytes(
        v.nonce,
    ) + enc_varstr(v.user_agent) + enc_i32(v.start_height) + seq![
        if v.relay {
            1u8
        } else {
            0u8
        },
    ]
}

pub open spec fn dec_version(s: Seq<u8>) -> Parsed<VersionV> {
    match dec_i32(s) {
        Err(e) => Err(e),
        Ok(pv) => match dec_u64(s.skip(4)) {
            Err(e) => Err(e),
            Ok(ps) => match dec_i64(s.skip(12)) {
                Err(e) => Err(e),
                Ok(pt) => match dec_versionaddr(s.skip(20)) {
                    Err(e) => Err(e),
                    Ok(pr) => match dec_versionaddr(s.skip(46)) {
                        Err(e) => Err(e),
                        Ok(pf) => match dec_u64(s.skip(72)) {
                            Err(e) => Err(e),
                            Ok(pn) => match dec_varstr(s.skip(80)) {
                                Err(e) => Err(e),
                                Ok(pu) => match dec_i32(s.skip(80 + pu.1)) {
                                    Err(e) => Err(e),
                                    Ok(ph) => match dec_u8(s.skip(84 + pu.1)) {
                                        Err(e) => Err(e),
                                        Ok(pb) => Ok(
                                            (
                                                VersionV {
                                                    version: pv.0,
                                                    services: ps.0,
                                                    timestamp: pt.0,
                                                    addr_recv: pr.0,
                                                    addr_from: pf.0,
                                                    nonce: pn.0,
                                                    user_agent: pu.0,
                                                    start_height: ph.0,
                                                    relay: pb.0 != 0,
                                                },
                                                85 + pu.1,
                                            ),
                                        ),
                                    },
                                },
                            },
                        },
                    },
                },
            },
        },
    }
}

impl View for Version {
    type V = VersionV;

    open spec fn view(&self) -> VersionV {
        VersionV {
            version: self.version,
            services: self.services,
            timestamp: self.timestamp,
            addr_recv: self.addr_recv,
            addr_from: self.addr_from,
            nonce: self.nonce.0,
            user_agent: self.user_agent@,
            start_height: self.start_height,
            relay: self.relay,
        }
    }
}

impl Wire for Version {
    open spec fn enc(v: VersionV) -> Seq<u8> {
        enc_version(v)
    }

    open spec fn dec(s: Seq<u8>) -> Parsed<VersionV> {
        dec_version(s)
    }

    open spec fn wf(v: VersionV) -> bool {
        v.user_agent.len() <= u64::MAX
    }

    #[verifier::rlimit(60)]
    #[verifier::spinoff_prover]
    proof fn roundtrip(v: VersionV, tail: Seq<u8>) {
        lemma_auto_spec_u32_to_from_le_bytes();
        lemma_auto_spec_u64_to_from_le_bytes();
        let s = enc_version(v) + tail;
        let ua = enc_varstr(v.user_agent);
        let k = ua.len() as int;
        let relay_byte: u8 = if v.relay {
            1u8
        } else {
            0u8
        };
        let tail2 = enc_versionaddr(v.addr_from) + spec_u64_to_le_bytes(v.nonce) + ua + enc_i32(
            v.start_height,
        ) + seq![relay_byte] + tail;
        lemma_i32_roundtrip(v.version, s.skip(4));
        assert(s =~= enc_i32(v.version) + s.skip(4));
        assert(s.skip(4).subrange(0, 8) =~= spec_u64_to_le_bytes(v.services));
        assert(s.skip(12).subrange(0, 8) =~= spec_u64_to_le_bytes(v.timestamp as u64));
        let ts = v.timestamp;
        assert(((ts as u64) as i64) == ts) by (bit_vector);
        assert(s.skip(20) =~= enc_versionaddr(v.addr_recv) + tail2);
        lemma_versionaddr_roundtrip(v.addr_recv, tail2);
        let tail3 = spec_u64_to_le_bytes(v.nonce) + ua + enc_i32(v.start_height) + seq![relay_byte]
            + tail;
        assert(s.skip(46) =~= enc_versionaddr(v.addr_from) + tail3);
        lemma_versionaddr_roundtrip(v.addr_from, tail3);
        assert(s.skip(72).subrange(0, 8) =~= spec_u64_to_le_bytes(v.nonce));
        assert(s.skip(80) =~= ua + (enc_i32(v.start_height) + seq![relay_byte] + tail));
        VarStr::roundtrip(v.user_agent, enc_i32(v.start_height) + seq![relay_byte] + tail);
        assert(dec_varstr(s.skip(80)) == Ok::<(Seq<u8>, int), CodecError>((v.user_agent, k)));
        assert(s.skip(80 + k).subrange(0, 4) =~= enc_i32(v.start_height));
        let sh = v.start_height;
        assert(((sh as u32) as i32) == sh) by (bit_vector);
        assert(s.skip(84 + k)[0] == relay_byte);
        assert(s.skip(84 + k).len() >= 1);
    }

    fn encode(&self, buffer: &mut Vec<u8>) -> (r: Result<(), CodecError>) {
        write_i32(self.version, buffer);
        write_u64(self.services, buffer);
        write_i64(self.timestamp, buffer);
        let _ = self.addr_recv.encode(buffer);
        let _ = self.addr_from.encode(buffer);
        write_u64(self.nonce.0, buffer);
        let _ = self.user_agent.encode(buffer);
        write_i32(self.start_height, buffer);
        if self.relay {
            buffer.push(1u8);
        } else {
            buffer.push(0u8);
        }
        assert(buffer@ =~= old(buffer)@ + enc_version(self@));
        Ok(())
    }

    fn decode(bytes: &[u8], pos: &mut usize) -> (r: Result<Self, CodecError>) {
        let start: usize = *pos;
        let ghost rest = bytes@.skip(start as int);
        let version = match read_i32(bytes, pos) {
            Ok(v) => v,
            Err(e) => { return Err(e); },
        };
        proof {
            assert(rest.skip(4) =~= bytes@.skip(start + 4));
        }
        let services = match read_u64(bytes, pos) {
            Ok(v) => v,
            Err(e) => { *pos = start; return Err(e); },
        };
        proof {
            assert(rest.skip(12) =~= bytes@.skip(start + 12));
        }
        let timestamp = match read_i64(bytes, pos) {
            Ok(v) => v,
            Err(e) => { *pos = start; return Err(e); },
        };
        proof {
            assert(rest.skip(20) =~= bytes@.skip(start + 20));
        }
        let addr_recv = match VersionAddr::decode(bytes, pos) {
            Ok(v) => v,
            Err(e) => { *pos = start; return Err(e); },
        };
        proof {
            assert(rest.skip(46) =~= bytes@.skip(start + 46));
        }
        let addr_from = match VersionAddr::decode(bytes, pos) {
            Ok(v) => v,
            Err(e) => { *pos = start; return Err(e); },
        };
        proof {
            assert(rest.skip(72) =~= bytes@.skip(start + 72));
        }
        let nonce = match read_u64(bytes, pos) {
            Ok(v) => v,
            Err(e) => { *pos = start; return Err(e); },
        };
        proof {
            assert(rest.skip(80) =~= bytes@.skip(start + 80));
        }
        let user_agent = match VarStr::decode(bytes, pos) {
            Ok(v) => v,
            Err(e) => { *pos = start; return Err(e); },
        };
        proof {
            assert(rest.skip(80 + (*pos - start - 80)) =~= bytes@.skip(*pos as int));
        }
        let start_height = match read_i32(bytes, pos) {
            Ok(v) => v,
            Err(e) => { *pos = start; return Err(e); },
        };
        proof {
            assert(rest.skip(84 + (*pos - start - 84)) =~= bytes@.skip(*pos as int));
        }
        let relay_byte = match read_u8(bytes, pos) {
            Ok(v) => v,
            Err(e) => { *pos = start; return Err(e); },
        };
        Ok(
            Version {
                version,
                services,
                timestamp,
                addr_recv,
                addr_from,
                nonce: Nonce(nonce),
                user_agent,
                start_height,
                relay: relay_byte != 0,
            },
        )
    }
}

impl Version {
    /// A fresh `version` statement between two endpoints, carrying the
    /// library's protocol version. The caller supplies the wall-clock
    /// timestamp and the connection's nonce; this library takes no clock
    /// and draws no randomness here.
    pub fn new(addr_recv: NodeAddr, addr_from: NodeAddr, timestamp: i64, nonce: Nonce) -> (r:
        Version)
        ensures
            r.version == PROTOCOL_VERSION as i32,
            r.services == 1u64,
            r.timestamp == timestamp,
            r.addr_recv == (VersionAddr { services: 1, addr: addr_recv }),
            r.addr_from == (VersionAddr { services: 1, addr: addr_from }),
            r.nonce == nonce,
            r.user_agent@ == Seq::<u8>::empty(),
            r.start_height == 0,
            r.relay == false,
    {
        Version {
            version: PROTOCOL_VERSION as i32,
            services: 1,
            timestamp,
            addr_recv: VersionAddr { services: 1, addr: addr_recv },
            addr_from: VersionAddr { services: 1, addr: addr_from },
            nonce,
            user_agent: VarStr::empty(),
            start_height: 0,
            relay: false,
        }
    }
}

// ---------------------------------------------------------------------------
// Addr: a gossiped peer list
// ---------------------------------------------------------------------------

/// The `addr` payload: a count followed by that many peer records, each
/// with its timestamp.
#[derive(Clone, Debug, PartialEq, Eq)]
pub struct Addr {
    addrs: Vec<NetworkAddr>,
}

pub open spec fn enc_addr(v: Seq<NetworkAddr>) -> Seq<u8> {
    enc_varint(v.len() as u64) + enc_list::<NetworkAddr>(v)
}

pub open spec fn dec_addr(s: Seq<u8>) -> Parsed<Seq<NetworkAddr>> {
    match dec_varint(s) {
        Err(e) => Err(e),
        Ok(p) => match dec_list::<NetworkAddr>(s.skip(p.1), p.0 as nat) {
            Err(e) => Err(e),
            Ok(q) => Ok((q.0, p.1 + q.1)),
        },
    }
}

impl View for Addr {
    type V = Seq<NetworkAddr>;

    closed spec fn view(&self) -> Seq<NetworkAddr> {
        self.addrs@
    }
}

impl Wire for Addr {
    open spec fn enc(v: Seq<NetworkAddr>) -> Seq<u8> {
        enc_addr(v)
    }

    open spec fn dec(s: Seq<u8>) -> Parsed<Seq<NetworkAddr>> {
        dec_addr(s)
    }

    open spec fn wf(v: Seq<NetworkAddr>) -> bool {
        v.len() <= u64::MAX
    }

    proof fn roundtrip(v: Seq<NetworkAddr>, tail: Seq<u8>) {
        let n = v.len() as u64;
        let body = enc_list::<NetworkAddr>(v);
        let s = enc_addr(v) + tail;
        assert(s =~= enc_varint(n) + (body + tail));
        lemma_varint_roundtrip(n, body + tail);
        let k = enc_varint(n).len() as int;
        assert(s.skip(k) =~= body + tail);
        lemma_list_roundtrip::<NetworkAddr>(v, tail);
    }

    fn encode(&self, buffer: &mut Vec<u8>) -> (r: Result<(), CodecError>) {
        let count = VarInt(self.addrs.len() as u64);
        let _ = count.encode(buffer);
        let _ = encode_list(&self.addrs, buffer);
        proof {
            assert(seq_view(self.addrs@) =~= self.addrs@);
            assert(buffer@ =~= old(buffer)@ + enc_addr(self@));
        }
        Ok(())
    }

    fn decode(bytes: &[u8], pos: &mut usize) -> (r: Result<Self, CodecError>) {
        let start: usize = *pos;
        let count = match VarInt::decode(bytes, pos) {
            Ok(v) => v,
            Err(e) => { return Err(e); },
        };
        proof {
            assert(bytes@.skip(start as int).skip((*pos - start) as int) =~= bytes@.skip(
                *pos as int,
            ));
        }
        let addrs = match decode_list::<NetworkAddr>(bytes, pos, count.0) {
            Ok(v) => v,
            Err(e) => { *pos = start; return Err(e); },
        };
        proof {
            assert(seq_view(addrs@) =~= addrs@);
        }
        Ok(Addr { addrs })
    }
}

impl Addr {
    /// A peer list over the given records.
    pub fn new(addrs: Vec<NetworkAddr>) -> (r: Addr)
        ensures
            r@ == addrs@,
    {
        Addr { addrs }
    }

    /// An empty peer list.
    pub fn empty() -> (r: Addr)
        ensures
            r@ == Seq::<NetworkAddr>::empty(),
    {
        Addr { addrs: Vec::new() }
    }

    /// The records, in order.
    pub fn addrs(&self) -> (r: &Vec<NetworkAddr>)
        ensures
            r@ == self@,
    {
        &self.addrs
    }
}

// ---------------------------------------------------------------------------
// LocatorHashes: the query of getheaders / getblocks
// ---------------------------------------------------------------------------

/// The model of a locator query.
pub struct LocatorHashesV {
    pub version: u32,
    pub locators: Seq<Hash256>,
    pub stop: Hash256,
}

/// The query payload of `getheaders` and `getblocks`: the sender's protocol
/// version, an ordered list of block hashes (newest first, towards genesis)
/// and a stop hash, where the all-zero hash means "no limit".
#[derive(Clone, Debug, PartialEq, Eq)]
pub struct LocatorHashes {
    pub version: u32,
    pub block_locator_hashes: Vec<Hash256>,
    pub hash_stop: Hash256,
}

pub open spec fn enc_locator(v: LocatorHashesV) -> Seq<u8> {
    spec_u32_to_le_bytes(v.version) + enc_varint(v.locators.len() as u64) + enc_list::<Hash256>(
        v.locators,
    ) + enc_hash(v.stop)
}

pub open spec fn dec_locator(s: Seq<u8>) -> Parsed<LocatorHashesV> {
    match dec_u32(s) {
        Err(e) => Err(e),
        Ok(pv) => match dec_varint(s.skip(4)) {
            Err(e) => Err(e),
            Ok(pn) => match dec_list::<Hash256>(s.skip(4 + pn.1), pn.0 as nat) {
                Err(e) => Err(e),
                Ok(pl) => match dec_hash(s.skip(4 + pn.1 + pl.1)) {
                    Err(e) => Err(e),
                    Ok(ps) => Ok(
                        (
                            LocatorHashesV { version: pv.0, locators: pl.0, stop: ps.0 },
                            4 + pn.1 + pl.1 + 32,
                        ),
                    ),
                },
            },
        },
    }
}

impl View for LocatorHashes {
    type V = LocatorHashesV;

    open spec fn view(&self) -> LocatorHashesV {
        LocatorHashesV {
            version: self.version,
            locators: self.block_locator_hashes@,
            stop: self.hash_stop,
        }
    }
}

impl Wire for LocatorHashes {
    open spec fn enc(v: LocatorHashesV) -> Seq<u8> {
        enc_locator(v)
    }

    open spec fn dec(s: Seq<u8>) -> Parsed<LocatorHashesV> {
        dec_locator(s)
    }

    open spec fn wf(v: LocatorHashesV) -> bool {
        v.locators.len() <= u64::MAX
    }

    proof fn roundtrip(v: LocatorHashesV, tail: Seq<u8>) {
        lemma_auto_spec_u32_to_from_le_bytes();
        let n = v.locators.len() as u64;
        let body = enc_list::<Hash256>(v.locators);
        let s = enc_locator(v) + tail;
        assert(s.subrange(0, 4) =~= spec_u32_to_le_bytes(v.version));
        assert(s.skip(4) =~= enc_varint(n) + (body + (enc_hash(v.stop) + tail)));
        lemma_varint_roundtrip(n, body + (enc_hash(v.stop) + tail));
        let k = enc_varint(n).len() as int;
        assert(s.skip(4 + k) =~= body + (enc_hash(v.stop) + tail));
        lemma_list_roundtrip::<Hash256>(v.locators, enc_hash(v.stop) + tail);
        assert(s.skip(4 + k + body.len()) =~= enc_hash(v.stop) + tail);
        Hash256::roundtrip(v.stop, tail);
    }

    fn encode(&self, buffer: &mut Vec<u8>) -> (r: Result<(), CodecError>) {
        write_u32(self.version, buffer);
        let count = VarInt(self.block_locator_hashes.len() as u64);
        let _ = count.encode(buffer);
        let _ = encode_list(&self.block_locator_hashes, buffer);
        let _ = self.hash_stop.encode(buffer);
        proof {
            assert(seq_view(self.block_locator_hashes@) =~= self.block_locator_hashes@);
            assert(buffer@ =~= old(buffer)@ + enc_locator(self@));
        }
        Ok(())
    }

    fn decode(bytes: &[u8], pos: &mut usize) -> (r: Result<Self, CodecError>) {
        let start: usize = *pos;
        let ghost rest = bytes@.skip(start as int);
        let version = match read_u32(bytes, pos) {
            Ok(v) => v,
            Err(e) => { return Err(e); },
        };
        proof {
            assert(rest.skip(4) =~= bytes@.skip(start + 4));
        }
        let count = match VarInt::decode(bytes, pos) {
            Ok(v) => v,
            Err(e) => { *pos = start; return Err(e); },
        };
        proof {
            assert(rest.skip((*pos - start) as int) =~= bytes@.skip(*pos as int));
        }
        let block_locator_hashes = match decode_list::<Hash256>(bytes, pos, count.0) {
            Ok(v) => v,
            Err(e) => { *pos = start; return Err(e); },
        };
        proof {
            assert(rest.skip((*pos - start) as int) =~= bytes@.skip(*pos as int));
        }
        let hash_stop = match Hash256::decode(bytes, pos) {
            Ok(v) => v,
            Err(e) => { *pos = start; return Err(e); },
        };
        proof {
            assert(seq_view(block_locator_hashes@) =~= block_locator_hashes@);
        }
        Ok(LocatorHashes { version, block_locator_hashes, hash_stop })
    }
}

impl LocatorHashes {
    /// A locator query carrying the library's protocol version.
    pub fn new(block_locator_hashes: Vec<Hash256>, hash_stop: Hash256) -> (r: LocatorHashes)
        ensures
            r.version == PROTOCOL_VERSION,
            r.block_locator_hashes@ == block_locator_hashes@,
            r.hash_stop == hash_stop,
    {
        LocatorHashes { version: PROTOCOL_VERSION, block_locator_hashes, hash_stop }
    }
}

// ---------------------------------------------------------------------------
// Transactions and blocks
// ---------------------------------------------------------------------------

/// A transaction, carried as an opaque length-prefixed byte blob: the codec
/// frames it and hashes it, and does not look inside. Its gossip identity
/// is the double-SHA-256 of its wire bytes.
#[derive(Clone, Debug, PartialEq, Eq)]
pub struct Tx(pub Vec<u8>);

pub open spec fn enc_tx(v: Seq<u8>) -> Seq<u8> {
    enc_varint(v.len() as u64) + v
}

pub open spec fn dec_tx(s: Seq<u8>) -> Parsed<Seq<u8>> {
    dec_varstr(s)
}

impl View for Tx {
    type V = Seq<u8>;

    open spec fn view(&self) -> Seq<u8> {
        self.0@
    }
}

impl Wire for Tx {
    open spec fn enc(v: Seq<u8>) -> Seq<u8> {
        enc_tx(v)
    }

    open spec fn dec(s: Seq<u8>) -> Parsed<Seq<u8>> {
        dec_tx(s)
    }

    open spec fn wf(v: Seq<u8>) -> bool {
        v.len() <= u64::MAX
    }

    proof fn roundtrip(v: Seq<u8>, tail: Seq<u8>) {
        VarStr::roundtrip(v, tail);
        assert(enc_tx(v) =~= enc_varstr(v));
    }

    fn encode(&self, buffer: &mut Vec<u8>) -> (r: Result<(), CodecError>) {
        let n = VarInt(self.0.len() as u64);
        let _ = n.encode(buffer);
        let mut body = self.0.clone();
        buffer.append(&mut body);
        assert(buffer@ =~= old(buffer)@ + enc_tx(self@));
        Ok(())
    }

    fn decode(bytes: &[u8], pos: &mut usize) -> (r: Result<Self, CodecError>) {
        match VarStr::decode(bytes, pos) {
            Ok(v) => Ok(Tx(v.0)),
            Err(e) => Err(e),
        }
    }
}

/// The model of a block header.
pub struct HeaderV {
    pub version: i32,
    pub prev_block: Hash256,
    pub merkle_root: Hash256,
    pub final_sapling_root: Hash256,
    pub timestamp: u32,
    pub bits: u32,
    pub nonce: Hash256,
    pub solution: Seq<u8>,
}

/// A block header. The `nonce` field is an arbitrary 32-byte value, held in
/// the same four-word wire form as a hash; `solution` is the length-prefixed
/// Equihash solution. The block's hash is the double-SHA-256 of exactly
/// these bytes, in this order.
#[derive(Clone, Debug, PartialEq, Eq)]
pub struct BlockHeader {
    pub version: i32,
    pub prev_block: Hash256,
    pub merkle_root: Hash256,
    pub final_sapling_root: Hash256,
    pub timestamp: u32,
    pub bits: u32,
    pub nonce: Hash256,
    pub solution: Vec<u8>,
}

pub open spec fn enc_header(v: HeaderV) -> Seq<u8> {
    enc_i32(v.version) + enc_hash(v.prev_block) + enc_hash(v.merkle_root) + enc_hash(
        v.final_sapling_root,
    ) + spec_u32_to_le_bytes(v.timestamp) + spec_u32_to_le_bytes(v.bits) + enc_hash(v.nonce)
        + enc_varstr(v.solution)
}

pub open spec fn dec_header(s: Seq<u8>) -> Parsed<HeaderV> {
    match dec_i32(s) {
        Err(e) => Err(e),
        Ok(pv) => match dec_hash(s.skip(4)) {
            Err(e) => Err(e),
            Ok(pp) => match dec_hash(s.skip(36)) {
                Err(e) => Err(e),
                Ok(pm) => match dec_hash(s.skip(68)) {
                    Err(e) => Err(e),
                    Ok(pf) => match dec_u32(s.skip(100)) {
                        Err(e) => Err(e),
                        Ok(pt) => match dec_u32(s.skip(104)) {
                            Err(e) => Err(e),
                            Ok(pb) => match dec_hash(s.skip(108)) {
                                Err(e) => Err(e),
                                Ok(pn) => match dec_varstr(s.skip(140)) {
                                    Err(e) => Err(e),
                                    Ok(ps) => Ok(
                                        (
                                            HeaderV {
                                                version: pv.0,
                                                prev_block: pp.0,
                                                merkle_root: pm.0,
                                                final_sapling_root: pf.0,
                                                timestamp: pt.0,
                                                bits: pb.0,
                                                nonce: pn.0,
                                                solution: ps.0,
                                            },
                                            140 + ps.1,
                                        ),
                                    ),
                                },
                            },
                        },
                    },
                },
            },
        },
    }
}

impl View for BlockHeader {
    type V = HeaderV;

    open spec fn view(&self) -> HeaderV {
        HeaderV {
            version: self.version,
            prev_block: self.prev_block,
            merkle_root: self.merkle_root,
            final_sapling_root: self.final_sapling_root,
            timestamp: self.timestamp,
            bits: self.bits,
            nonce: self.nonce,
            solution: self.solution@,
        }
    }
}

impl Wire for BlockHeader {
    open spec fn enc(v: HeaderV) -> Seq<u8> {
        enc_header(v)
    }

    open spec fn dec(s: Seq<u8>) -> Parsed<HeaderV> {
        dec_header(s)
    }

    open spec fn wf(v: HeaderV) -> bool {
        v.solution.len() <= u64::MAX
    }

    proof fn roundtrip(v: HeaderV, tail: Seq<u8>) {
        lemma_auto_spec_u32_to_from_le_bytes();
        lemma_auto_spec_u64_to_from_le_bytes();
        let s = enc_header(v) + tail;
        lemma_i32_roundtrip(v.version, s.skip(4));
        assert(s =~= enc_i32(v.version) + s.skip(4));
        assert(s.skip(4) =~= enc_hash(v.prev_block) + s.skip(36));
        Hash256::roundtrip(v.prev_block, s.skip(36));
        assert(s.skip(36) =~= enc_hash(v.merkle_root) + s.skip(68));
        Hash256::roundtrip(v.merkle_root, s.skip(68));
        assert(s.skip(68) =~= enc_hash(v.final_sapling_root) + s.skip(100));
        Hash256::roundtrip(v.final_sapling_root, s.skip(100));
        assert(s.skip(100).subrange(0, 4) =~= spec_u32_to_le_bytes(v.timestamp));
        assert(s.skip(104).subrange(0, 4) =~= spec_u32_to_le_bytes(v.bits));
        assert(s.skip(108) =~= enc_hash(v.nonce) + s.skip(140));
        Hash256::roundtrip(v.nonce, s.skip(140));
        assert(s.skip(140) =~= enc_varstr(v.solution) + tail);
        VarStr::roundtrip(v.solution, tail);
    }

    fn encode(&self, buffer: &mut Vec<u8>) -> (r: Result<(), CodecError>) {
        write_i32(self.version, buffer);
        let _ = self.prev_block.encode(buffer);
        let _ = self.merkle_root.encode(buffer);
        let _ = self.final_sapling_root.encode(buffer);
        write_u32(self.timestamp, buffer);
        write_u32(self.bits, buffer);
        let _ = self.nonce.encode(buffer);
        let n = VarInt(self.solution.len() as u64);
        let _ = n.encode(buffer);
        let mut body = self.solution.clone();
        buffer.append(&mut body);
        assert(buffer@ =~= old(buffer)@ + enc_header(self@));
        Ok(())
    }

    fn decode(bytes: &[u8], pos: &mut usize) -> (r: Result<Self, CodecError>) {
        let start: usize = *pos;
        let ghost rest = bytes@.skip(start as int);
        let version = match read_i32(bytes, pos) {
            Ok(v) => v,
            Err(e) => { return Err(e); },
        };
        proof {
            assert(rest.skip(4) =~= bytes@.skip(start + 4));
        }
        let prev_block = match Hash256::decode(bytes, pos) {
            Ok(v) => v,
            Err(e) => { *pos = start; return Err(e); },
        };
        proof {
            assert(rest.skip(36) =~= bytes@.skip(start + 36));
        }
        let merkle_root = match Hash256::decode(bytes, pos) {
            Ok(v) => v,
            Err(e) => { *pos = start; return Err(e); },
        };
        proof {
            assert(rest.skip(68) =~= bytes@.skip(start + 68));
        }
        let final_sapling_root = match Hash256::decode(bytes, pos) {
            Ok(v) => v,
            Err(e) => { *pos = start; return Err(e); },
        };
        proof {
            assert(rest.skip(100) =~= bytes@.skip(start + 100));
        }
        let timestamp = match read_u32(bytes, pos) {
            Ok(v) => v,
            Err(e) => { *pos = start; return Err(e); },
        };
        proof {
            assert(rest.skip(104) =~= bytes@.skip(start + 104));
        }
        let bits = match read_u32(bytes, pos) {
            Ok(v) => v,
            Err(e) => { *pos = start; return Err(e); },
        };
        proof {
            assert(rest.skip(108) =~= bytes@.skip(start + 108));
        }
        let nonce = match Hash256::decode(bytes, pos) {
            Ok(v) => v,
            Err(e) => { *pos = start; return Err(e); },
        };
        proof {
            assert(rest.skip(140) =~= bytes@.skip(start + 140));
        }
        let solution = match VarStr::decode(bytes, pos) {
            Ok(v) => v,
            Err(e) => { *pos = start; return Err(e); },
        };
        Ok(
            BlockHeader {
                version,
                prev_block,
                merkle_root,
                final_sapling_root,
                timestamp,
                bits,
                nonce,
                solution: solution.0,
            },
        )
    }
}

impl BlockHeader {
    /// A copy of this header.
    pub fn cloned(&self) -> (r: BlockHeader)
        ensures
            r@ == self@,
    {
        BlockHeader {
            version: self.version,
            prev_block: self.prev_block,
            merkle_root: self.merkle_root,
            final_sapling_root: self.final_sapling_root,
            timestamp: self.timestamp,
            bits: self.bits,
            nonce: self.nonce,
            solution: self.solution.clone(),
        }
    }
}

/// One entry of a `headers` payload: a block header followed by its
/// transaction count, which is always zero there.
#[derive(Clone, Debug, PartialEq, Eq)]
pub struct HeadersEntry(pub BlockHeader);

pub open spec fn enc_headers_entry(v: HeaderV) -> Seq<u8> {
    enc_header(v) + enc_varint(0)
}

pub open spec fn dec_headers_entry(s: Seq<u8>) -> Parsed<HeaderV> {
    match dec_header(s) {
        Err(e) => Err(e),
        Ok(p) => match dec_varint(s.skip(p.1)) {
            Err(e) => Err(e),
            Ok(q) => if q.0 == 0 {
                Ok((p.0, p.1 + q.1))
            } else {
                Err(CodecError::InvalidData)
            },
        },
    }
}

impl View for HeadersEntry {
    type V = HeaderV;

    open spec fn view(&self) -> HeaderV {
        self.0@
    }
}

impl Wire for HeadersEntry {
    open spec fn enc(v: HeaderV) -> Seq<u8> {
        enc_headers_entry(v)
    }

    open spec fn dec(s: Seq<u8>) -> Parsed<HeaderV> {
        dec_headers_entry(s)
    }

    open spec fn wf(v: HeaderV) -> bool {
        v.solution.len() <= u64::MAX
    }

    proof fn roundtrip(v: HeaderV, tail: Seq<u8>) {
        let s = enc_headers_entry(v) + tail;
        assert(s =~= enc_header(v) + (enc_varint(0) + tail));
        BlockHeader::roundtrip(v, enc_varint(0) + tail);
        let k = enc_header(v).len() as int;
        assert(s.skip(k) =~= enc_varint(0) + tail);
        lemma_varint_roundtrip(0, tail);
    }

    fn encode(&self, buffer: &mut Vec<u8>) -> (r: Result<(), CodecError>) {
        let _ = self.0.encode(buffer);
        let zero = VarInt(0);
        let _ = zero.encode(buffer);
        assert(buffer@ =~= old(buffer)@ + enc_headers_entry(self@));
        Ok(())
    }

    fn decode(bytes: &[u8], pos: &mut usize) -> (r: Result<Self, CodecError>) {
        let start: usize = *pos;
        let header = match BlockHeader::decode(bytes, pos) {
            Ok(v) => v,
            Err(e) => { return Err(e); },
        };
        proof {
            assert(bytes@.skip(start as int).skip((*pos - start) as int) =~= bytes@.skip(
                *pos as int,
            ));
        }
        let count = match VarInt::decode(bytes, pos) {
            Ok(v) => v,
            Err(e) => { *pos = start; return Err(e); },
        };
        if count.0 != 0 {
            *pos = start;
            return Err(CodecError::InvalidData);
        }
        Ok(HeadersEntry(header))
    }
}

/// The `headers` payload: a count followed by that many header entries.
#[derive(Clone, Debug, PartialEq, Eq)]
pub struct Headers {
    pub headers: Vec<HeadersEntry>,
}

pub open spec fn enc_headers(v: Seq<HeaderV>) -> Seq<u8> {
    enc_varint(v.len() as u64) + enc_list::<HeadersEntry>(v)
}

pub open spec fn dec_headers(s: Seq<u8>) -> Parsed<Seq<HeaderV>> {
    match dec_varint(s) {
        Err(e) => Err(e),
        Ok(p) => match dec_list::<HeadersEntry>(s.skip(p.1), p.0 as nat) {
            Err(e) => Err(e),
            Ok(q) => Ok((q.0, p.1 + q.1)),
        },
    }
}

impl View for Headers {
    type V = Seq<HeaderV>;

    open spec fn view(&self) -> Seq<HeaderV> {
        seq_view(self.headers@)
    }
}

impl Wire for Headers {
    open spec fn enc(v: Seq<HeaderV>) -> Seq<u8> {
        enc_headers(v)
    }

    open spec fn dec(s: Seq<u8>) -> Parsed<Seq<HeaderV>> {
        dec_headers(s)
    }

    open spec fn wf(v: Seq<HeaderV>) -> bool {
        v.len() <= u64::MAX && forall|i: int|
            0 <= i < v.len() ==> (#[trigger] v[i]).solution.len() <= u64::MAX
    }

    proof fn roundtrip(v: Seq<HeaderV>, tail: Seq<u8>) {
        let n = v.len() as u64;
        let body = enc_list::<HeadersEntry>(v);
        let s = enc_headers(v) + tail;
        assert(s =~= enc_varint(n) + (body + tail));
        lemma_varint_roundtrip(n, body + tail);
        let k = enc_varint(n).len() as int;
        assert(s.skip(k) =~= body + tail);
        lemma_list_roundtrip::<HeadersEntry>(v, tail);
    }

    fn encode(&self, buffer: &mut Vec<u8>) -> (r: Result<(), CodecError>) {
        let count = VarInt(self.headers.len() as u64);
        let _ = count.encode(buffer);
        let _ = encode_list(&self.headers, buffer);
        proof {
            assert(buffer@ =~= old(buffer)@ + enc_headers(self@));
        }
        Ok(())
    }

    #[verifier::rlimit(60)]
    #[verifier::spinoff_prover]
    fn decode(bytes: &[u8], pos: &mut usize) -> (r: Result<Self, CodecError>) {
        let start: usize = *pos;
        let count = match VarInt::decode(bytes, pos) {
            Ok(v) => v,
            Err(e) => { return Err(e); },
        };
        proof {
            assert(bytes@.skip(start as int).skip((*pos - start) as int) =~= bytes@.skip(
                *pos as int,
            ));
        }
        let headers = match decode_list::<HeadersEntry>(bytes, pos, count.0) {
            Ok(v) => v,
            Err(e) => { *pos = start; return Err(e); },
        };
        Ok(Headers { headers })
    }
}

impl Headers {
    /// A `headers` payload over the given entries.
    pub fn new(headers: Vec<HeadersEntry>) -> (r: Headers)
        ensures
            r@ == seq_view(headers@),
    {
        Headers { headers }
    }

    /// An empty `headers` payload.
    pub fn empty() -> (r: Headers)
        ensures
            r@ == Seq::<HeaderV>::empty(),
    {
        let headers: Vec<HeadersEntry> = Vec::new();
        proof {
            assert(seq_view(headers@) =~= Seq::<HeaderV>::empty());
        }
        Headers { headers }
    }
}

/// The model of a block.
pub struct BlockV {
    pub header: HeaderV,
    pub txs: Seq<Seq<u8>>,
}

/// The `block` payload: a header followed by a counted list of
/// transactions.
#[derive(Clone, Debug, PartialEq, Eq)]
pub struct Block {
    pub header: BlockHeader,
    pub txs: Vec<Tx>,
}

pub open spec fn enc_block(v: BlockV) -> Seq<u8> {
    enc_header(v.header) + enc_varint(v.txs.len() as u64) + enc_list::<Tx>(v.txs)
}

pub open spec fn dec_block(s: Seq<u8>) -> Parsed<BlockV> {
    match dec_header(s) {
        Err(e) => Err(e),
        Ok(ph) => match dec_varint(s.skip(ph.1)) {
            Err(e) => Err(e),
            Ok(pn) => match dec_list::<Tx>(s.skip(ph.1 + pn.1), pn.0 as nat) {
                Err(e) => Err(e),
                Ok(pt) => Ok((BlockV { header: ph.0, txs: pt.0 }, ph.1 + pn.1 + pt.1)),
            },
        },
    }
}

impl View for Block {
    type V = BlockV;

    open spec fn view(&self) -> BlockV {
        BlockV { header: self.header@, txs: seq_view(self.txs@) }
    }
}

impl Wire for Block {
    open spec fn enc(v: BlockV) -> Seq<u8> {
        enc_block(v)
    }

    open spec fn dec(s: Seq<u8>) -> Parsed<BlockV> {
        dec_block(s)
    }

    open spec fn wf(v: BlockV) -> bool {
        v.header.solution.len() <= u64::MAX && v.txs.len() <= u64::MAX && forall|i: int|
            0 <= i < v.txs.len() ==> (#[trigger] v.txs[i]).len() <= u64::MAX
    }

    #[verifier::rlimit(100)]
    #[verifier::spinoff_prover]
    proof fn roundtrip(v: BlockV, tail: Seq<u8>) {
        let n = v.txs.len() as u64;
        let body = enc_list::<Tx>(v.txs);
        let s = enc_block(v) + tail;
        assert(s =~= enc_header(v.header) + (enc_varint(n) + (body + tail)));
        BlockHeader::roundtrip(v.header, enc_varint(n) + (body + tail));
        let h = enc_header(v.header).len() as int;
        assert(s.skip(h) =~= enc_varint(n) + (body + tail));
        lemma_varint_roundtrip(n, body + tail);
        let k = enc_varint(n).len() as int;
        assert(s.skip(h + k) =~= body + tail);
        lemma_list_roundtrip::<Tx>(v.txs, tail);
    }

    fn encode(&self, buffer: &mut Vec<u8>) -> (r: Result<(), CodecError>) {
        let _ = self.header.encode(buffer);
        let count = VarInt(self.txs.len() as u64);
        let _ = count.encode(buffer);
        let _ = encode_list(&self.txs, buffer);
        proof {
            assert(buffer@ =~= old(buffer)@ + enc_block(self@));
        }
        Ok(())
    }

    fn decode(bytes: &[u8], pos: &mut usize) -> (r: Result<Self, CodecError>) {
        let start: usize = *pos;
        let header = match BlockHeader::decode(bytes, pos) {
            Ok(v) => v,
            Err(e) => { return Err(e); },
        };
        proof {
            assert(bytes@.skip(start as int).skip((*pos - start) as int) =~= bytes@.skip(
                *pos as int,
            ));
        }
        let ghost mid1 = *pos;
        let count = match VarInt::decode(bytes, pos) {
            Ok(v) => v,
            Err(e) => { *pos = start; return Err(e); },
        };
        proof {
            assert(bytes@.skip(start as int).skip((*pos - start) as int) =~= bytes@.skip(
                *pos as int,
            ));
        }
        let txs = match decode_list::<Tx>(bytes, pos, count.0) {
            Ok(v) => v,
            Err(e) => { *pos = start; return Err(e); },
        };
        Ok(Block { header, txs })
    }
}

impl Block {
    /// A copy of this block.
    pub fn cloned(&self) -> (r: Block)
        ensures
            r@ == self@,
    {
        let mut txs: Vec<Tx> = Vec::new();
        let n = self.txs.len();
        for i in 0..n
            invariant
                n == self.txs@.len(),
                txs@.len() == i,
                forall|j: int| 0 <= j < i ==> (#[trigger] txs@[j])@ == self.txs@[j]@,
        {
            txs.push(Tx(self.txs[i].0.clone()));
        }
        let r = Block { header: self.header.cloned(), txs };
        assert(r@.txs =~= self@.txs);
        r
    }

    /// A block from its header and transactions.
    pub fn new(header: BlockHeader, txs: Vec<Tx>) -> (r: Block)
        ensures
            r.header == header,
            r.txs == txs,
    {
        Block { header, txs }
    }
}

} // verus!
