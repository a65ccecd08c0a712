//! The double-SHA-256 digest and the hash identities built on it: the
//! block hash (over the header bytes) and the transaction hash (over the
//! transaction's wire bytes), each doubling as the object's gossip
//! identity.

use vstd::prelude::*;

use sha2::Digest;

use crate::codec::{hash_of_bytes, Hash256, Wire};
use crate::payload::{enc_header, enc_tx, Block, BlockHeader, HeaderV, InvHash, ObjectKind, Tx};

verus! {

/// The double-SHA-256 digest of a byte string: SHA-256 applied twice. Its
/// value is a function of the input bytes alone; nothing further is assumed
/// of it here.
pub uninterp spec fn sha256d(data: Seq<u8>) -> Seq<u8>;

/// Relies on sha2::Sha256: the digest is a function of the input bytes
/// alone, and is 32 bytes long.
#[verifier::external_body]
pub(crate) fn sha256d_bytes(data: &[u8]) -> (r: Vec<u8>)
    ensures
        r@ == sha256d(data@),
        r@.len() == 32,
{
    let first = sha2::Sha256::digest(data);
    let second = sha2::Sha256::digest(first.as_slice());
    second.as_slice().to_vec()
}

/// The double-SHA-256 digest of a byte string, as a 32-byte hash value.
pub open spec fn hash256d(data: Seq<u8>) -> Hash256 {
    hash_of_bytes(sha256d(data))
}

/// Computes the double-SHA-256 digest of a byte string.
pub fn double_sha256(data: &[u8]) -> (h: Hash256)
    ensures
        h == hash256d(data@),
{
    let digest = sha256d_bytes(data);
    Hash256::from_bytes(&digest)
}

/// A block's hash: the double-SHA-256 of its header bytes, in wire order.
pub open spec fn header_hash(h: HeaderV) -> Hash256 {
    hash256d(enc_header(h))
}

/// A transaction's hash: the double-SHA-256 of its wire bytes.
pub open spec fn tx_hash(t: Seq<u8>) -> Hash256 {
    hash256d(enc_tx(t))
}

impl BlockHeader {
    /// The header's double-SHA-256 hash: the block's identity.
    pub fn double_sha256(&self) -> (h: Hash256)
        ensures
            h == header_hash(self@),
    {
        let mut bytes: Vec<u8> = Vec::new();
        let _ = self.encode(&mut bytes);
        double_sha256(bytes.as_slice())
    }
}

impl Block {
    /// The block's hash: the double-SHA-256 of its header bytes.
    pub fn double_sha256(&self) -> (h: Hash256)
        ensures
            h == header_hash(self@.header),
    {
        self.header.double_sha256()
    }

    /// The block's gossip identity: a block-kind inventory entry carrying
    /// its hash.
    pub fn inv_hash(&self) -> (r: InvHash)
        ensures
            r == (InvHash { kind: ObjectKind::Block, hash: header_hash(self@.header) }),
    {
        InvHash { kind: ObjectKind::Block, hash: self.double_sha256() }
    }
}

impl Tx {
    /// The transaction's hash over its wire bytes.
    pub fn double_sha256(&self) -> (h: Hash256)
        ensures
            h == tx_hash(self@),
    {
        let mut bytes: Vec<u8> = Vec::new();
        let _ = self.encode(&mut bytes);
        double_sha256(bytes.as_slice())
    }

    /// The transaction's gossip identity: a tx-kind inventory entry
    /// carrying its hash.
    pub fn inv_hash(&self) -> (r: InvHash)
        ensures
            r == (InvHash { kind: ObjectKind::Tx, hash: tx_hash(self@) }),
    {
        InvHash { kind: ObjectKind::Tx, hash: self.double_sha256() }
    }
}

} // verus!
