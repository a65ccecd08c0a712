//! The message envelope: a 24-byte header (network magic, null-padded
//! command, payload length, checksum) in front of a typed payload, and the
//! tagged sum of every message this library speaks.
//!
//! The checksum is the first four bytes of the double-SHA-256 of the
//! payload. The payload length is bounded to keep a frame's memory in
//! check; a longer declared length is malformed.

use vstd::prelude::*;
use vstd::bytes::*;
use vstd::slice::{slice_index_get, slice_subrange};

use crate::CodecError;
use crate::codec::{dec_u64, read_u64, write_u32, write_u64, NetworkAddr, Parsed, Wire};
use crate::digest::{sha256d, sha256d_bytes};
use crate::payload::{
    dec_addr, dec_block, dec_headers, dec_inv, dec_locator, dec_version, enc_addr, enc_block,
    enc_headers, enc_inv, enc_locator, enc_version, Addr, Block, BlockV, HeaderV, Headers, Inv,
    InvHash, LocatorHashes, LocatorHashesV, Nonce, Reject, Tx, Version, VersionV,
};

verus! {

/// The maximum accepted payload length: 32 MiB.
pub const MAX_PAYLOAD: u32 = 0x0200_0000;

/// A command of the protocol, as named in a frame header.
#[derive(Clone, Copy, Debug, PartialEq, Eq, Structural)]
pub enum Command {
    Version,
    Verack,
    Ping,
    Pong,
    GetAddr,
    Addr,
    GetHeaders,
    Headers,
    GetBlocks,
    Inv,
    GetData,
    NotFound,
    Block,
    Tx,
    MemPool,
    Reject,
}

/// The network a frame belongs to, named by its four magic bytes.
#[derive(Clone, Copy, Debug, PartialEq, Eq, Structural)]
pub enum Network {
    Mainnet,
    Testnet,
    Regtest,
}

/// The four magic bytes of a network.
pub open spec fn magic(n: Network) -> Seq<u8> {
    match n {
        Network::Mainnet => seq![0x24u8, 0xE9, 0x27, 0x64],
        Network::Testnet => seq![0xFAu8, 0x1A, 0xF9, 0xBF],
        Network::Regtest => seq![0xAAu8, 0xE8, 0x3F, 0x5F],
    }
}

/// Appends the four magic bytes.
pub fn write_magic(n: Network, buffer: &mut Vec<u8>)
    ensures
        final(buffer)@ == old(buffer)@ + magic(n),
{
    match n {
        Network::Mainnet => {
            buffer.push(0x24);
            buffer.push(0xE9);
            buffer.push(0x27);
            buffer.push(0x64);
        },
        Network::Testnet => {
            buffer.push(0xFA);
            buffer.push(0x1A);
            buffer.push(0xF9);
            buffer.push(0xBF);
        },
        Network::Regtest => {
            buffer.push(0xAA);
            buffer.push(0xE8);
            buffer.push(0x3F);
            buffer.push(0x5F);
        },
    }
    assert(buffer@ =~= old(buffer)@ + magic(n));
}

/// Compares four bytes to a network's magic.
fn eq_magic(bytes: &[u8], n: Network) -> (r: bool)
    requires
        bytes@.len() == 4,
    ensures
        r == (bytes@ == magic(n)),
{
    let mut v: Vec<u8> = Vec::new();
    write_magic(n, &mut v);
    assert(v@ =~= magic(n));
    let mut i: usize = 0;
    while i < 4
        invariant
            v@ == magic(n),
            bytes@.len() == 4,
            v@.len() == 4,
            0 <= i <= 4,
            forall|j: int| 0 <= j < i ==> bytes@[j] == v@[j],
        decreases 4 - i,
    {
        if *slice_index_get(bytes, i) != v[i] {
            assert(bytes@[i as int] != v@[i as int]);
            return false;
        }
        i = i + 1;
    }
    assert(bytes@ =~= v@);
    true
}

pub open spec fn cmd_bytes(c: Command) -> Seq<u8> {
    match c {
        Command::Version => seq![118u8, 101, 114, 115, 105, 111, 110, 0, 0, 0, 0, 0],
        Command::Verack => seq![118u8, 101, 114, 97, 99, 107, 0, 0, 0, 0, 0, 0],
        Command::Ping => seq![112u8, 105, 110, 103, 0, 0, 0, 0, 0, 0, 0, 0],
        Command::Pong => seq![112u8, 111, 110, 103, 0, 0, 0, 0, 0, 0, 0, 0],
        Command::GetAddr => seq![103u8, 101, 116, 97, 100, 100, 114, 0, 0, 0, 0, 0],
        Command::Addr => seq![97u8, 100, 100, 114, 0, 0, 0, 0, 0, 0, 0, 0],
        Command::GetHeaders => seq![103u8, 101, 116, 104, 101, 97, 100, 101, 114, 115, 0, 0],
        Command::Headers => seq![104u8, 101, 97, 100, 101, 114, 115, 0, 0, 0, 0, 0],
        Command::GetBlocks => seq![103u8, 101, 116, 98, 108, 111, 99, 107, 115, 0, 0, 0],
        Command::Inv => seq![105u8, 110, 118, 0, 0, 0, 0, 0, 0, 0, 0, 0],
        Command::GetData => seq![103u8, 101, 116, 100, 97, 116, 97, 0, 0, 0, 0, 0],
        Command::NotFound => seq![110u8, 111, 116, 102, 111, 117, 110, 100, 0, 0, 0, 0],
        Command::Block => seq![98u8, 108, 111, 99, 107, 0, 0, 0, 0, 0, 0, 0],
        Command::Tx => seq![116u8, 120, 0, 0, 0, 0, 0, 0, 0, 0, 0, 0],
        Command::MemPool => seq![109u8, 101, 109, 112, 111, 111, 108, 0, 0, 0, 0, 0],
        Command::Reject => seq![114u8, 101, 106, 101, 99, 116, 0, 0, 0, 0, 0, 0],
    }
}

/// Appends the 12 null-padded command bytes.
pub fn write_command(c: Command, buffer: &mut Vec<u8>)
    ensures
        final(buffer)@ == old(buffer)@ + cmd_bytes(c),
{
    match c {
        Command::Version => {
            buffer.push(118);
            buffer.push(101);
            buffer.push(114);
            buffer.push(115);
            buffer.push(105);
            buffer.push(111);
            buffer.push(110);
            buffer.push(0);
            buffer.push(0);
            buffer.push(0);
            buffer.push(0);
            buffer.push(0);
        },
        Command::Verack => {
            buffer.push(118);
            buffer.push(101);
            buffer.push(114);
            buffer.push(97);
            buffer.push(99);
            buffer.push(107);
            buffer.push(0);
            buffer.push(0);
            buffer.push(0);
            buffer.push(0);
            buffer.push(0);
            buffer.push(0);
        },
        Command::Ping => {
            buffer.push(112);
            buffer.push(105);
            buffer.push(110);
            buffer.push(103);
            buffer.push(0);
            buffer.push(0);
            buffer.push(0);
            buffer.push(0);
            buffer.push(0);
            buffer.push(0);
            buffer.push(0);
            buffer.push(0);
        },
        Command::Pong => {
            buffer.push(112);
            buffer.push(111);
            buffer.push(110);
            buffer.push(103);
            buffer.push(0);
            buffer.push(0);
            buffer.push(0);
            buffer.push(0);
            buffer.push(0);
            buffer.push(0);
            buffer.push(0);
            buffer.push(0);
        },
        Command::GetAddr => {
            buffer.push(103);
            buffer.push(101);
            buffer.push(116);
            buffer.push(97);
            buffer.push(100);
            buffer.push(100);
            buffer.push(114);
            buffer.push(0);
            buffer.push(0);
            buffer.push(0);
            buffer.push(0);
            buffer.push(0);
        },
        Command::Addr => {
            buffer.push(97);
            buffer.push(100);
            buffer.push(100);
            buffer.push(114);
            buffer.push(0);
            buffer.push(0);
            buffer.push(0);
            buffer.push(0);
            buffer.push(0);
            buffer.push(0);
            buffer.push(0);
            buffer.push(0);
        },
        Command::GetHeaders => {
            buffer.push(103);
            buffer.push(101);
            buffer.push(116);
            buffer.push(104);
            buffer.push(101);
            buffer.push(97);
            buffer.push(100);
            buffer.push(101);
            buffer.push(114);
            buffer.push(115);
            buffer.push(0);
            buffer.push(0);
        },
        Command::Headers => {
            buffer.push(104);
            buffer.push(101);
            buffer.push(97);
            buffer.push(100);
            buffer.push(101);
            buffer.push(114);
            buffer.push(115);
            buffer.push(0);
            buffer.push(0);
            buffer.push(0);
            buffer.push(0);
            buffer.push(0);
        },
        Command::GetBlocks => {
            buffer.push(103);
            buffer.push(101);
            buffer.push(116);
            buffer.push(98);
            buffer.push(108);
            buffer.push(111);
            buffer.push(99);
            buffer.push(107);
            buffer.push(115);
            buffer.push(0);
            buffer.push(0);
            buffer.push(0);
        },
        Command::Inv => {
            buffer.push(105);
            buffer.push(110);
            buffer.push(118);
            buffer.push(0);
            buffer.push(0);
            buffer.push(0);
            buffer.push(0);
            buffer.push(0);
            buffer.push(0);
            buffer.push(0);
            buffer.push(0);
            buffer.push(0);
        },
        Command::GetData => {
            buffer.push(103);
            buffer.push(101);
            buffer.push(116);
            buffer.push(100);
            buffer.push(97);
            buffer.push(116);
            buffer.push(97);
            buffer.push(0);
            buffer.push(0);
            buffer.push(0);
            buffer.push(0);
            buffer.push(0);
        },
        Command::NotFound => {
            buffer.push(110);
            buffer.push(111);
            buffer.push(116);
            buffer.push(102);
            buffer.push(111);
            buffer.push(117);
            buffer.push(110);
            buffer.push(100);
            buffer.push(0);
            buffer.push(0);
            buffer.push(0);
            buffer.push(0);
        },
        Command::Block => {
            buffer.push(98);
            buffer.push(108);
            buffer.push(111);
            buffer.push(99);
            buffer.push(107);
            buffer.push(0);
            buffer.push(0);
            buffer.push(0);
            buffer.push(0);
            buffer.push(0);
            buffer.push(0);
            buffer.push(0);
        },
        Command::Tx => {
            buffer.push(116);
            buffer.push(120);
            buffer.push(0);
            buffer.push(0);
            buffer.push(0);
            buffer.push(0);
            buffer.push(0);
            buffer.push(0);
            buffer.push(0);
            buffer.push(0);
            buffer.push(0);
            buffer.push(0);
        },
        Command::MemPool => {
            buffer.push(109);
            buffer.push(101);
            buffer.push(109);
            buffer.push(112);
            buffer.push(111);
            buffer.push(111);
            buffer.push(108);
            buffer.push(0);
            buffer.push(0);
            buffer.push(0);
            buffer.push(0);
            buffer.push(0);
        },
        Command::Reject => {
            buffer.push(114);
            buffer.push(101);
            buffer.push(106);
            buffer.push(101);
            buffer.push(99);
            buffer.push(116);
            buffer.push(0);
            buffer.push(0);
            buffer.push(0);
            buffer.push(0);
            buffer.push(0);
            buffer.push(0);
        },
    }
    assert(buffer@ =~= old(buffer)@ + cmd_bytes(c));
}

/// The command named by 12 header bytes, if any.
pub open spec fn command_of_bytes(s: Seq<u8>) -> Option<Command> {
    if s == cmd_bytes(Command::Version) {
        Some(Command::Version)
    } else if s == cmd_bytes(Command::Verack) {
        Some(Command::Verack)
    } else if s == cmd_bytes(Command::Ping) {
        Some(Command::Ping)
    } else if s == cmd_bytes(Command::Pong) {
        Some(Command::Pong)
    } else if s == cmd_bytes(Command::GetAddr) {
        Some(Command::GetAddr)
    } else if s == cmd_bytes(Command::Addr) {
        Some(Command::Addr)
    } else if s == cmd_bytes(Command::GetHeaders) {
        Some(Command::GetHeaders)
    } else if s == cmd_bytes(Command::Headers) {
        Some(Command::Headers)
    } else if s == cmd_bytes(Command::GetBlocks) {
        Some(Command::GetBlocks)
    } else if s == cmd_bytes(Command::Inv) {
        Some(Command::Inv)
    } else if s == cmd_bytes(Command::GetData) {
        Some(Command::GetData)
    } else if s == cmd_bytes(Command::NotFound) {
        Some(Command::NotFound)
    } else if s == cmd_bytes(Command::Block) {
        Some(Command::Block)
    } else if s == cmd_bytes(Command::Tx) {
        Some(Command::Tx)
    } else if s == cmd_bytes(Command::MemPool) {
        Some(Command::MemPool)
    } else if s == cmd_bytes(Command::Reject) {
        Some(Command::Reject)
    } else {
        None
    }
}

/// Every command's 12 bytes name that command and no other.
pub proof fn lemma_command_roundtrip(c: Command)
    ensures
        command_of_bytes(cmd_bytes(c)) == Some(c),
{
    match c {
        Command::Version => {
            // first in the chain
        },
        Command::Verack => {
            assert(cmd_bytes(Command::Verack) != cmd_bytes(Command::Version)) by {
                assert(cmd_bytes(Command::Verack)[3] == 97);
                assert(cmd_bytes(Command::Version)[3] == 115);
            }
        },
        Command::Ping => {
            assert(cmd_bytes(Command::Ping) != cmd_bytes(Command::Version)) by {
                assert(cmd_bytes(Command::Ping)[0] == 112);
                assert(cmd_bytes(Command::Version)[0] == 118);
            }
            assert(cmd_bytes(Command::Ping) != cmd_bytes(Command::Verack)) by {
                assert(cmd_bytes(Command::Ping)[0] == 112);
                assert(cmd_bytes(Command::Verack)[0] == 118);
            }
        },
        Command::Pong => {
            assert(cmd_bytes(Command::Pong) != cmd_bytes(Command::Version)) by {
                assert(cmd_bytes(Command::Pong)[0] == 112);
                assert(cmd_bytes(Command::Version)[0] == 118);
            }
            assert(cmd_bytes(Command::Pong) != cmd_bytes(Command::Verack)) by {
                assert(cmd_bytes(Command::Pong)[0] == 112);
                assert(cmd_bytes(Command::Verack)[0] == 118);
            }
            assert(cmd_bytes(Command::Pong) != cmd_bytes(Command::Ping)) by {
                assert(cmd_bytes(Command::Pong)[1] == 111);
                assert(cmd_bytes(Command::Ping)[1] == 105);
            }
        },
        Command::GetAddr => {
            assert(cmd_bytes(Command::GetAddr) != cmd_bytes(Command::Version)) by {
                assert(cmd_bytes(Command::GetAddr)[0] == 103);
                assert(cmd_bytes(Command::Version)[0] == 118);
            }
            assert(cmd_bytes(Command::GetAddr) != cmd_bytes(Command::Verack)) by {
                assert(cmd_bytes(Command::GetAddr)[0] == 103);
                assert(cmd_bytes(Command::Verack)[0] == 118);
            }
            assert(cmd_bytes(Command::GetAddr) != cmd_bytes(Command::Ping)) by {
                assert(cmd_bytes(Command::GetAddr)[0] == 103);
                assert(cmd_bytes(Command::Ping)[0] == 112);
            }
            assert(cmd_bytes(Command::GetAddr) != cmd_bytes(Command::Pong)) by {
                assert(cmd_bytes(Command::GetAddr)[0] == 103);
                assert(cmd_bytes(Command::Pong)[0] == 112);
            }
        },
        Command::Addr => {
            assert(cmd_bytes(Command::Addr) != cmd_bytes(Command::Version)) by {
                assert(cmd_bytes(Command::Addr)[0] == 97);
                assert(cmd_bytes(Command::Version)[0] == 118);
            }
            assert(cmd_bytes(Command::Addr) != cmd_bytes(Command::Verack)) by {
                assert(cmd_bytes(Command::Addr)[0] == 97);
                assert(cmd_bytes(Command::Verack)[0] == 118);
            }
            assert(cmd_bytes(Command::Addr) != cmd_bytes(Command::Ping)) by {
                assert(cmd_bytes(Command::Addr)[0] == 97);
                assert(cmd_bytes(Command::Ping)[0] == 112);
            }
            assert(cmd_bytes(Command::Addr) != cmd_bytes(Command::Pong)) by {
                assert(cmd_bytes(Command::Addr)[0] == 97);
                assert(cmd_bytes(Command::Pong)[0] == 112);
            }
            assert(cmd_bytes(Command::Addr) != cmd_bytes(Command::GetAddr)) by {
                assert(cmd_bytes(Command::Addr)[0] == 97);
                assert(cmd_bytes(Command::GetAddr)[0] == 103);
            }
        },
        Command::GetHeaders => {
            assert(cmd_bytes(Command::GetHeaders) != cmd_bytes(Command::Version)) by {
                assert(cmd_bytes(Command::GetHeaders)[0] == 103);
                assert(cmd_bytes(Command::Version)[0] == 118);
            }
            assert(cmd_bytes(Command::GetHeaders) != cmd_bytes(Command::Verack)) by {
                assert(cmd_bytes(Command::GetHeaders)[0] == 103);
                assert(cmd_bytes(Command::Verack)[0] == 118);
            }
            assert(cmd_bytes(Command::GetHeaders) != cmd_bytes(Command::Ping)) by {
                assert(cmd_bytes(Command::GetHeaders)[0] == 103);
                assert(cmd_bytes(Command::Ping)[0] == 112);
            }
            assert(cmd_bytes(Command::GetHeaders) != cmd_bytes(Command::Pong)) by {
                assert(cmd_bytes(Command::GetHeaders)[0] == 103);
                assert(cmd_bytes(Command::Pong)[0] == 112);
            }
            assert(cmd_bytes(Command::GetHeaders) != cmd_bytes(Command::GetAddr)) by {
                assert(cmd_bytes(Command::GetHeaders)[3] == 104);
                assert(cmd_bytes(Command::GetAddr)[3] == 97);
            }
            assert(cmd_bytes(Command::GetHeaders) != cmd_bytes(Command::Addr)) by {
                assert(cmd_bytes(Command::GetHeaders)[0] == 103);
                assert(cmd_bytes(Command::Addr)[0] == 97);
            }
        },
        Command::Headers => {
            assert(cmd_bytes(Command::Headers) != cmd_bytes(Command::Version)) by {
                assert(cmd_bytes(Command::Headers)[0] == 104);
                assert(cmd_bytes(Command::Version)[0] == 118);
            }
            assert(cmd_bytes(Command::Headers) != cmd_bytes(Command::Verack)) by {
                assert(cmd_bytes(Command::Headers)[0] == 104);
                assert(cmd_bytes(Command::Verack)[0] == 118);
            }
            assert(cmd_bytes(Command::Headers) != cmd_bytes(Command::Ping)) by {
                assert(cmd_bytes(Command::Headers)[0] == 104);
                assert(cmd_bytes(Command::Ping)[0] == 112);
            }
            assert(cmd_bytes(Command::Headers) != cmd_bytes(Command::Pong)) by {
                assert(cmd_bytes(Command::Headers)[0] == 104);
                assert(cmd_bytes(Command::Pong)[0] == 112);
            }
            assert(cmd_bytes(Command::Headers) != cmd_bytes(Command::GetAddr)) by {
                assert(cmd_bytes(Command::Headers)[0] == 104);
                assert(cmd_bytes(Command::GetAddr)[0] == 103);
            }
            assert(cmd_bytes(Command::Headers) != cmd_bytes(Command::Addr)) by {
                assert(cmd_bytes(Command::Headers)[0] == 104);
                assert(cmd_bytes(Command::Addr)[0] == 97);
            }
            assert(cmd_bytes(Command::Headers) != cmd_bytes(Command::GetHeaders)) by {
                assert(cmd_bytes(Command::Headers)[0] == 104);
                assert(cmd_bytes(Command::GetHeaders)[0] == 103);
            }
        },
        Command::GetBlocks => {
            assert(cmd_bytes(Command::GetBlocks) != cmd_bytes(Command::Version)) by {
                assert(cmd_bytes(Command::GetBlocks)[0] == 103);
                assert(cmd_bytes(Command::Version)[0] == 118);
            }
            assert(cmd_bytes(Command::GetBlocks) != cmd_bytes(Command::Verack)) by {
                assert(cmd_bytes(Command::GetBlocks)[0] == 103);
                assert(cmd_bytes(Command::Verack)[0] == 118);
            }
            assert(cmd_bytes(Command::GetBlocks) != cmd_bytes(Command::Ping)) by {
                assert(cmd_bytes(Command::GetBlocks)[0] == 103);
                assert(cmd_bytes(Command::Ping)[0] == 112);
            }
            assert(cmd_bytes(Command::GetBlocks) != cmd_bytes(Command::Pong)) by {
                assert(cmd_bytes(Command::GetBlocks)[0] == 103);
                assert(cmd_bytes(Command::Pong)[0] == 112);
            }
            assert(cmd_bytes(Command::GetBlocks) != cmd_bytes(Command::GetAddr)) by {
                assert(cmd_bytes(Command::GetBlocks)[3] == 98);
                assert(cmd_bytes(Command::GetAddr)[3] == 97);
            }
            assert(cmd_bytes(Command::GetBlocks) != cmd_bytes(Command::Addr)) by {
                assert(cmd_bytes(Command::GetBlocks)[0] == 103);
                assert(cmd_bytes(Command::Addr)[0] == 97);
            }
            assert(cmd_bytes(Command::GetBlocks) != cmd_bytes(Command::GetHeaders)) by {
                assert(cmd_bytes(Command::GetBlocks)[3] == 98);
                assert(cmd_bytes(Command::GetHeaders)[3] == 104);
            }
            assert(cmd_bytes(Command::GetBlocks) != cmd_bytes(Command::Headers)) by {
                assert(cmd_bytes(Command::GetBlocks)[0] == 103);
                assert(cmd_bytes(Command::Headers)[0] == 104);
            }
        },
        Command::Inv => {
            assert(cmd_bytes(Command::Inv) != cmd_bytes(Command::Version)) by {
                assert(cmd_bytes(Command::Inv)[0] == 105);
                assert(cmd_bytes(Command::Version)[0] == 118);
            }
            assert(cmd_bytes(Command::Inv) != cmd_bytes(Command::Verack)) by {
                assert(cmd_bytes(Command::Inv)[0] == 105);
                assert(cmd_bytes(Command::Verack)[0] == 118);
            }
            assert(cmd_bytes(Command::Inv) != cmd_bytes(Command::Ping)) by {
                assert(cmd_bytes(Command::Inv)[0] == 105);
                assert(cmd_bytes(Command::Ping)[0] == 112);
            }
            assert(cmd_bytes(Command::Inv) != cmd_bytes(Command::Pong)) by {
                assert(cmd_bytes(Command::Inv)[0] == 105);
                assert(cmd_bytes(Command::Pong)[0] == 112);
            }
            assert(cmd_bytes(Command::Inv) != cmd_bytes(Command::GetAddr)) by {
                assert(cmd_bytes(Command::Inv)[0] == 105);
                assert(cmd_bytes(Command::GetAddr)[0] == 103);
            }
            assert(cmd_bytes(Command::Inv) != cmd_bytes(Command::Addr)) by {
                assert(cmd_bytes(Command::Inv)[0] == 105);
                assert(cmd_bytes(Command::Addr)[0] == 97);
            }
            assert(cmd_bytes(Command::Inv) != cmd_bytes(Command::GetHeaders)) by {
                assert(cmd_bytes(Command::Inv)[0] == 105);
                assert(cmd_bytes(Command::GetHeaders)[0] == 103);
            }
            assert(cmd_bytes(Command::Inv) != cmd_bytes(Command::Headers)) by {
                assert(cmd_bytes(Command::Inv)[0] == 105);
                assert(cmd_bytes(Command::Headers)[0] == 104);
            }
            assert(cmd_bytes(Command::Inv) != cmd_bytes(Command::GetBlocks)) by {
                assert(cmd_bytes(Command::Inv)[0] == 105);
                assert(cmd_bytes(Command::GetBlocks)[0] == 103);
            }
        },
        Command::GetData => {
            assert(cmd_bytes(Command::GetData) != cmd_bytes(Command::Version)) by {
                assert(cmd_bytes(Command::GetData)[0] == 103);
                assert(cmd_bytes(Command::Version)[0] == 118);
            }
            assert(cmd_bytes(Command::GetData) != cmd_bytes(Command::Verack)) by {
                assert(cmd_bytes(Command::GetData)[0] == 103);
                assert(cmd_bytes(Command::Verack)[0] == 118);
            }
            assert(cmd_bytes(Command::GetData) != cmd_bytes(Command::Ping)) by {
                assert(cmd_bytes(Command::GetData)[0] == 103);
                assert(cmd_bytes(Command::Ping)[0] == 112);
            }
            assert(cmd_bytes(Command::GetData) != cmd_bytes(Command::Pong)) by {
                assert(cmd_bytes(Command::GetData)[0] == 103);
                assert(cmd_bytes(Command::Pong)[0] == 112);
            }
            assert(cmd_bytes(Command::GetData) != cmd_bytes(Command::GetAddr)) by {
                assert(cmd_bytes(Command::GetData)[3] == 100);
                assert(cmd_bytes(Command::GetAddr)[3] == 97);
            }
            assert(cmd_bytes(Command::GetData) != cmd_bytes(Command::Addr)) by {
                assert(cmd_bytes(Command::GetData)[0] == 103);
                assert(cmd_bytes(Command::Addr)[0] == 97);
            }
            assert(cmd_bytes(Command::GetData) != cmd_bytes(Command::GetHeaders)) by {
                assert(cmd_bytes(Command::GetData)[3] == 100);
                assert(cmd_bytes(Command::GetHeaders)[3] == 104);
            }
            assert(cmd_bytes(Command::GetData) != cmd_bytes(Command::Headers)) by {
                assert(cmd_bytes(Command::GetData)[0] == 103);
                assert(cmd_bytes(Command::Headers)[0] == 104);
            }
            assert(cmd_bytes(Command::GetData) != cmd_bytes(Command::GetBlocks)) by {
                assert(cmd_bytes(Command::GetData)[3] == 100);
                assert(cmd_bytes(Command::GetBlocks)[3] == 98);
            }
            assert(cmd_bytes(Command::GetData) != cmd_bytes(Command::Inv)) by {
                assert(cmd_bytes(Command::GetData)[0] == 103);
                assert(cmd_bytes(Command::Inv)[0] == 105);
            }
        },
        Command::NotFound => {
            assert(cmd_bytes(Command::NotFound) != cmd_bytes(Command::Version)) by {
                assert(cmd_bytes(Command::NotFound)[0] == 110);
                assert(cmd_bytes(Command::Version)[0] == 118);
            }
            assert(cmd_bytes(Command::NotFound) != cmd_bytes(Command::Verack)) by {
                assert(cmd_bytes(Command::NotFound)[0] == 110);
                assert(cmd_bytes(Command::Verack)[0] == 118);
            }
            assert(cmd_bytes(Command::NotFound) != cmd_bytes(Command::Ping)) by {
                assert(cmd_bytes(Command::NotFound)[0] == 110);
                assert(cmd_bytes(Command::Ping)[0] == 112);
            }
            assert(cmd_bytes(Command::NotFound) != cmd_bytes(Command::Pong)) by {
                assert(cmd_bytes(Command::NotFound)[0] == 110);
                assert(cmd_bytes(Command::Pong)[0] == 112);
            }
            assert(cmd_bytes(Command::NotFound) != cmd_bytes(Command::GetAddr)) by {
                assert(cmd_bytes(Command::NotFound)[0] == 110);
                assert(cmd_bytes(Command::GetAddr)[0] == 103);
            }
            assert(cmd_bytes(Command::NotFound) != cmd_bytes(Command::Addr)) by {
                assert(cmd_bytes(Command::NotFound)[0] == 110);
                assert(cmd_bytes(Command::Addr)[0] == 97);
            }
            assert(cmd_bytes(Command::NotFound) != cmd_bytes(Command::GetHeaders)) by {
                assert(cmd_bytes(Command::NotFound)[0] == 110);
                assert(cmd_bytes(Command::GetHeaders)[0] == 103);
            }
            assert(cmd_bytes(Command::NotFound) != cmd_bytes(Command::Headers)) by {
                assert(cmd_bytes(Command::NotFound)[0] == 110);
                assert(cmd_bytes(Command::Headers)[0] == 104);
            }
            assert(cmd_bytes(Command::NotFound) != cmd_bytes(Command::GetBlocks)) by {
                assert(cmd_bytes(Command::NotFound)[0] == 110);
                assert(cmd_bytes(Command::GetBlocks)[0] == 103);
            }
            assert(cmd_bytes(Command::NotFound) != cmd_bytes(Command::Inv)) by {
                assert(cmd_bytes(Command::NotFound)[0] == 110);
                assert(cmd_bytes(Command::Inv)[0] == 105);
            }
            assert(cmd_bytes(Command::NotFound) != cmd_bytes(Command::GetData)) by {
                assert(cmd_bytes(Command::NotFound)[0] == 110);
                assert(cmd_bytes(Command::GetData)[0] == 103);
            }
        },
        Command::Block => {
            assert(cmd_bytes(Command::Block) != cmd_bytes(Command::Version)) by {
                assert(cmd_bytes(Command::Block)[0] == 98);
                assert(cmd_bytes(Command::Version)[0] == 118);
            }
            assert(cmd_bytes(Command::Block) != cmd_bytes(Command::Verack)) by {
                assert(cmd_bytes(Command::Block)[0] == 98);
                assert(cmd_bytes(Command::Verack)[0] == 118);
            }
            assert(cmd_bytes(Command::Block) != cmd_bytes(Command::Ping)) by {
                assert(cmd_bytes(Command::Block)[0] == 98);
                assert(cmd_bytes(Command::Ping)[0] == 112);
            }
            assert(cmd_bytes(Command::Block) != cmd_bytes(Command::Pong)) by {
                assert(cmd_bytes(Command::Block)[0] == 98);
                assert(cmd_bytes(Command::Pong)[0] == 112);
            }
            assert(cmd_bytes(Command::Block) != cmd_bytes(Command::GetAddr)) by {
                assert(cmd_bytes(Command::Block)[0] == 98);
                assert(cmd_bytes(Command::GetAddr)[0] == 103);
            }
            assert(cmd_bytes(Command::Block) != cmd_bytes(Command::Addr)) by {
                assert(cmd_bytes(Command::Block)[0] == 98);
                assert(cmd_bytes(Command::Addr)[0] == 97);
            }
            assert(cmd_bytes(Command::Block) != cmd_bytes(Command::GetHeaders)) by {
                assert(cmd_bytes(Command::Block)[0] == 98);
                assert(cmd_bytes(Command::GetHeaders)[0] == 103);
            }
            assert(cmd_bytes(Command::Block) != cmd_bytes(Command::Headers)) by {
                assert(cmd_bytes(Command::Block)[0] == 98);
                assert(cmd_bytes(Command::Headers)[0] == 104);
            }
            assert(cmd_bytes(Command::Block) != cmd_bytes(Command::GetBlocks)) by {
                assert(cmd_bytes(Command::Block)[0] == 98);
                assert(cmd_bytes(Command::GetBlocks)[0] == 103);
            }
            assert(cmd_bytes(Command::Block) != cmd_bytes(Command::Inv)) by {
                assert(cmd_bytes(Command::Block)[0] == 98);
                assert(cmd_bytes(Command::Inv)[0] == 105);
            }
            assert(cmd_bytes(Command::Block) != cmd_bytes(Command::GetData)) by {
                assert(cmd_bytes(Command::Block)[0] == 98);
                assert(cmd_bytes(Command::GetData)[0] == 103);
            }
            assert(cmd_bytes(Command::Block) != cmd_bytes(Command::NotFound)) by {
                assert(cmd_bytes(Command::Block)[0] == 98);
                assert(cmd_bytes(Command::NotFound)[0] == 110);
            }
        },
        Command::Tx => {
            assert(cmd_bytes(Command::Tx) != cmd_bytes(Command::Version)) by {
                assert(cmd_bytes(Command::Tx)[0] == 116);
                assert(cmd_bytes(Command::Version)[0] == 118);
            }
            assert(cmd_bytes(Command::Tx) != cmd_bytes(Command::Verack)) by {
                assert(cmd_bytes(Command::Tx)[0] == 116);
                assert(cmd_bytes(Command::Verack)[0] == 118);
            }
            assert(cmd_bytes(Command::Tx) != cmd_bytes(Command::Ping)) by {
                assert(cmd_bytes(Command::Tx)[0] == 116);
                assert(cmd_bytes(Command::Ping)[0] == 112);
            }
            assert(cmd_bytes(Command::Tx) != cmd_bytes(Command::Pong)) by {
                assert(cmd_bytes(Command::Tx)[0] == 116);
                assert(cmd_bytes(Command::Pong)[0] == 112);
            }
            assert(cmd_bytes(Command::Tx) != cmd_bytes(Command::GetAddr)) by {
                assert(cmd_bytes(Command::Tx)[0] == 116);
                assert(cmd_bytes(Command::GetAddr)[0] == 103);
            }
            assert(cmd_bytes(Command::Tx) != cmd_bytes(Command::Addr)) by {
                assert(cmd_bytes(Command::Tx)[0] == 116);
                assert(cmd_bytes(Command::Addr)[0] == 97);
            }
            assert(cmd_bytes(Command::Tx) != cmd_bytes(Command::GetHeaders)) by {
                assert(cmd_bytes(Command::Tx)[0] == 116);
                assert(cmd_bytes(Command::GetHeaders)[0] == 103);
            }
            assert(cmd_bytes(Command::Tx) != cmd_bytes(Command::Headers)) by {
                assert(cmd_bytes(Command::Tx)[0] == 116);
                assert(cmd_bytes(Command::Headers)[0] == 104);
            }
            assert(cmd_bytes(Command::Tx) != cmd_bytes(Command::GetBlocks)) by {
                assert(cmd_bytes(Command::Tx)[0] == 116);
                assert(cmd_bytes(Command::GetBlocks)[0] == 103);
            }
            assert(cmd_bytes(Command::Tx) != cmd_bytes(Command::Inv)) by {
                assert(cmd_bytes(Command::Tx)[0] == 116);
                assert(cmd_bytes(Command::Inv)[0] == 105);
            }
            assert(cmd_bytes(Command::Tx) != cmd_bytes(Command::GetData)) by {
                assert(cmd_bytes(Command::Tx)[0] == 116);
                assert(cmd_bytes(Command::GetData)[0] == 103);
            }
            assert(cmd_bytes(Command::Tx) != cmd_bytes(Command::NotFound)) by {
                assert(cmd_bytes(Command::Tx)[0] == 116);
                assert(cmd_bytes(Command::NotFound)[0] == 110);
            }
            assert(cmd_bytes(Command::Tx) != cmd_bytes(Command::Block)) by {
                assert(cmd_bytes(Command::Tx)[0] == 116);
                assert(cmd_bytes(Command::Block)[0] == 98);
            }
        },
        Command::MemPool => {
            assert(cmd_bytes(Command::MemPool) != cmd_bytes(Command::Version)) by {
                assert(cmd_bytes(Command::MemPool)[0] == 109);
                assert(cmd_bytes(Command::Version)[0] == 118);
            }
            assert(cmd_bytes(Command::MemPool) != cmd_bytes(Command::Verack)) by {
                assert(cmd_bytes(Command::MemPool)[0] == 109);
                assert(cmd_bytes(Command::Verack)[0] == 118);
            }
            assert(cmd_bytes(Command::MemPool) != cmd_bytes(Command::Ping)) by {
                assert(cmd_bytes(Command::MemPool)[0] == 109);
                assert(cmd_bytes(Command::Ping)[0] == 112);
            }
            assert(cmd_bytes(Command::MemPool) != cmd_bytes(Command::Pong)) by {
                assert(cmd_bytes(Command::MemPool)[0] == 109);
                assert(cmd_bytes(Command::Pong)[0] == 112);
            }
            assert(cmd_bytes(Command::MemPool) != cmd_bytes(Command::GetAddr)) by {
                assert(cmd_bytes(Command::MemPool)[0] == 109);
                assert(cmd_bytes(Command::GetAddr)[0] == 103);
            }
            assert(cmd_bytes(Command::MemPool) != cmd_bytes(Command::Addr)) by {
                assert(cmd_bytes(Command::MemPool)[0] == 109);
                assert(cmd_bytes(Command::Addr)[0] == 97);
            }
            assert(cmd_bytes(Command::MemPool) != cmd_bytes(Command::GetHeaders)) by {
                assert(cmd_bytes(Command::MemPool)[0] == 109);
                assert(cmd_bytes(Command::GetHeaders)[0] == 103);
            }
            assert(cmd_bytes(Command::MemPool) != cmd_bytes(Command::Headers)) by {
                assert(cmd_bytes(Command::MemPool)[0] == 109);
                assert(cmd_bytes(Command::Headers)[0] == 104);
            }
            assert(cmd_bytes(Command::MemPool) != cmd_bytes(Command::GetBlocks)) by {
                assert(cmd_bytes(Command::MemPool)[0] == 109);
                assert(cmd_bytes(Command::GetBlocks)[0] == 103);
            }
            assert(cmd_bytes(Command::MemPool) != cmd_bytes(Command::Inv)) by {
                assert(cmd_bytes(Command::MemPool)[0] == 109);
                assert(cmd_bytes(Command::Inv)[0] == 105);
            }
            assert(cmd_bytes(Command::MemPool) != cmd_bytes(Command::GetData)) by {
                assert(cmd_bytes(Command::MemPool)[0] == 109);
                assert(cmd_bytes(Command::GetData)[0] == 103);
            }
            assert(cmd_bytes(Command::MemPool) != cmd_bytes(Command::NotFound)) by {
                assert(cmd_bytes(Command::MemPool)[0] == 109);
                assert(cmd_bytes(Command::NotFound)[0] == 110);
            }
            assert(cmd_bytes(Command::MemPool) != cmd_bytes(Command::Block)) by {
                assert(cmd_bytes(Command::MemPool)[0] == 109);
                assert(cmd_bytes(Command::Block)[0] == 98);
            }
            assert(cmd_bytes(Command::MemPool) != cmd_bytes(Command::Tx)) by {
                assert(cmd_bytes(Command::MemPool)[0] == 109);
                assert(cmd_bytes(Command::Tx)[0] == 116);
            }
        },
        Command::Reject => {
            assert(cmd_bytes(Command::Reject) != cmd_bytes(Command::Version)) by {
                assert(cmd_bytes(Command::Reject)[0] == 114);
                assert(cmd_bytes(Command::Version)[0] == 118);
            }
            assert(cmd_bytes(Command::Reject) != cmd_bytes(Command::Verack)) by {
                assert(cmd_bytes(Command::Reject)[0] == 114);
                assert(cmd_bytes(Command::Verack)[0] == 118);
            }
            assert(cmd_bytes(Command::Reject) != cmd_bytes(Command::Ping)) by {
                assert(cmd_bytes(Command::Reject)[0] == 114);
                assert(cmd_bytes(Command::Ping)[0] == 112);
            }
            assert(cmd_bytes(Command::Reject) != cmd_bytes(Command::Pong)) by {
                assert(cmd_bytes(Command::Reject)[0] == 114);
                assert(cmd_bytes(Command::Pong)[0] == 112);
            }
            assert(cmd_bytes(Command::Reject) != cmd_bytes(Command::GetAddr)) by {
                assert(cmd_bytes(Command::Reject)[0] == 114);
                assert(cmd_bytes(Command::GetAddr)[0] == 103);
            }
            assert(cmd_bytes(Command::Reject) != cmd_bytes(Command::Addr)) by {
                assert(cmd_bytes(Command::Reject)[0] == 114);
                assert(cmd_bytes(Command::Addr)[0] == 97);
            }
            assert(cmd_bytes(Command::Reject) != cmd_bytes(Command::GetHeaders)) by {
                assert(cmd_bytes(Command::Reject)[0] == 114);
                assert(cmd_bytes(Command::GetHeaders)[0] == 103);
            }
            assert(cmd_bytes(Command::Reject) != cmd_bytes(Command::Headers)) by {
                assert(cmd_bytes(Command::Reject)[0] == 114);
                assert(cmd_bytes(Command::Headers)[0] == 104);
            }
            assert(cmd_bytes(Command::Reject) != cmd_bytes(Command::GetBlocks)) by {
                assert(cmd_bytes(Command::Reject)[0] == 114);
                assert(cmd_bytes(Command::GetBlocks)[0] == 103);
            }
            assert(cmd_bytes(Command::Reject) != cmd_bytes(Command::Inv)) by {
                assert(cmd_bytes(Command::Reject)[0] == 114);
                assert(cmd_bytes(Command::Inv)[0] == 105);
            }
            assert(cmd_bytes(Command::Reject) != cmd_bytes(Command::GetData)) by {
                assert(cmd_bytes(Command::Reject)[0] == 114);
                assert(cmd_bytes(Command::GetData)[0] == 103);
            }
            assert(cmd_bytes(Command::Reject) != cmd_bytes(Command::NotFound)) by {
                assert(cmd_bytes(Command::Reject)[0] == 114);
                assert(cmd_bytes(Command::NotFound)[0] == 110);
            }
            assert(cmd_bytes(Command::Reject) != cmd_bytes(Command::Block)) by {
                assert(cmd_bytes(Command::Reject)[0] == 114);
                assert(cmd_bytes(Command::Block)[0] == 98);
            }
            assert(cmd_bytes(Command::Reject) != cmd_bytes(Command::Tx)) by {
                assert(cmd_bytes(Command::Reject)[0] == 114);
                assert(cmd_bytes(Command::Tx)[0] == 116);
            }
            assert(cmd_bytes(Command::Reject) != cmd_bytes(Command::MemPool)) by {
                assert(cmd_bytes(Command::Reject)[0] == 114);
                assert(cmd_bytes(Command::MemPool)[0] == 109);
            }
        },
    }
}


/// Compares twelve bytes to a command's wire name.
fn eq_cmd(bytes: &[u8], c: Command) -> (r: bool)
    requires
        bytes@.len() == 12,
    ensures
        r == (bytes@ == cmd_bytes(c)),
{
    let mut v: Vec<u8> = Vec::new();
    write_command(c, &mut v);
    assert(v@ =~= cmd_bytes(c));
    let mut i: usize = 0;
    while i < 12
        invariant
            v@ == cmd_bytes(c),
            bytes@.len() == 12,
            v@.len() == 12,
            0 <= i <= 12,
            forall|j: int| 0 <= j < i ==> bytes@[j] == v@[j],
        decreases 12 - i,
    {
        if *slice_index_get(bytes, i) != v[i] {
            assert(bytes@[i as int] != v@[i as int]);
            return false;
        }
        i = i + 1;
    }
    assert(bytes@ =~= v@);
    true
}

/// Reads the command named by twelve header bytes.
pub fn parse_command(bytes: &[u8]) -> (r: Option<Command>)
    requires
        bytes@.len() == 12,
    ensures
        r == command_of_bytes(bytes@),
{
    if eq_cmd(bytes, Command::Version) {
        Some(Command::Version)
    } else if eq_cmd(bytes, Command::Verack) {
        Some(Command::Verack)
    } else if eq_cmd(bytes, Command::Ping) {
        Some(Command::Ping)
    } else if eq_cmd(bytes, Command::Pong) {
        Some(Command::Pong)
    } else if eq_cmd(bytes, Command::GetAddr) {
        Some(Command::GetAddr)
    } else if eq_cmd(bytes, Command::Addr) {
        Some(Command::Addr)
    } else if eq_cmd(bytes, Command::GetHeaders) {
        Some(Command::GetHeaders)
    } else if eq_cmd(bytes, Command::Headers) {
        Some(Command::Headers)
    } else if eq_cmd(bytes, Command::GetBlocks) {
        Some(Command::GetBlocks)
    } else if eq_cmd(bytes, Command::Inv) {
        Some(Command::Inv)
    } else if eq_cmd(bytes, Command::GetData) {
        Some(Command::GetData)
    } else if eq_cmd(bytes, Command::NotFound) {
        Some(Command::NotFound)
    } else if eq_cmd(bytes, Command::Block) {
        Some(Command::Block)
    } else if eq_cmd(bytes, Command::Tx) {
        Some(Command::Tx)
    } else if eq_cmd(bytes, Command::MemPool) {
        Some(Command::MemPool)
    } else if eq_cmd(bytes, Command::Reject) {
        Some(Command::Reject)
    } else {
        None
    }
}

// ---------------------------------------------------------------------------
// Message: the tagged sum of every command's payload
// ---------------------------------------------------------------------------

/// The model of a message.
pub enum MessageV {
    Version(VersionV),
    Verack,
    Ping(u64),
    Pong(u64),
    GetAddr,
    Addr(Seq<NetworkAddr>),
    GetHeaders(LocatorHashesV),
    Headers(Seq<HeaderV>),
    GetBlocks(LocatorHashesV),
    Inv(Seq<InvHash>),
    GetData(Seq<InvHash>),
    NotFound(Seq<InvHash>),
    Block(BlockV),
    Tx(Seq<u8>),
    MemPool,
    Reject(Seq<u8>),
}

/// A message of the protocol: one typed payload under its command.
#[derive(Clone, Debug, PartialEq, Eq)]
pub enum Message {
    Version(Version),
    Verack,
    Ping(Nonce),
    Pong(Nonce),
    GetAddr,
    Addr(Addr),
    GetHeaders(LocatorHashes),
    Headers(Headers),
    GetBlocks(LocatorHashes),
    Inv(Inv),
    GetData(Inv),
    NotFound(Inv),
    Block(Block),
    Tx(Tx),
    MemPool,
    Reject(Reject),
}

impl View for Message {
    type V = MessageV;

    open spec fn view(&self) -> MessageV {
        match self {
            Message::Version(v) => MessageV::Version(v@),
            Message::Verack => MessageV::Verack,
            Message::Ping(n) => MessageV::Ping(n.0),
            Message::Pong(n) => MessageV::Pong(n.0),
            Message::GetAddr => MessageV::GetAddr,
            Message::Addr(a) => MessageV::Addr(a@),
            Message::GetHeaders(l) => MessageV::GetHeaders(l@),
            Message::Headers(h) => MessageV::Headers(h@),
            Message::GetBlocks(l) => MessageV::GetBlocks(l@),
            Message::Inv(i) => MessageV::Inv(i@),
            Message::GetData(i) => MessageV::GetData(i@),
            Message::NotFound(i) => MessageV::NotFound(i@),
            Message::Block(b) => MessageV::Block(b@),
            Message::Tx(t) => MessageV::Tx(t@),
            Message::MemPool => MessageV::MemPool,
            Message::Reject(r) => MessageV::Reject(r@),
        }
    }
}

/// The command that names a message on the wire.
pub open spec fn command_of(m: MessageV) -> Command {
    match m {
        MessageV::Version(_) => Command::Version,
        MessageV::Verack => Command::Verack,
        MessageV::Ping(_) => Command::Ping,
        MessageV::Pong(_) => Command::Pong,
        MessageV::GetAddr => Command::GetAddr,
        MessageV::Addr(_) => Command::Addr,
        MessageV::GetHeaders(_) => Command::GetHeaders,
        MessageV::Headers(_) => Command::Headers,
        MessageV::GetBlocks(_) => Command::GetBlocks,
        MessageV::Inv(_) => Command::Inv,
        MessageV::GetData(_) => Command::GetData,
        MessageV::NotFound(_) => Command::NotFound,
        MessageV::Block(_) => Command::Block,
        MessageV::Tx(_) => Command::Tx,
        MessageV::MemPool => Command::MemPool,
        MessageV::Reject(_) => Command::Reject,
    }
}

/// The payload bytes of a message, without the envelope.
pub open spec fn enc_payload(m: MessageV) -> Seq<u8> {
    match m {
        MessageV::Version(v) => enc_version(v),
        MessageV::Verack => Seq::empty(),
        MessageV::Ping(n) => spec_u64_to_le_bytes(n),
        MessageV::Pong(n) => spec_u64_to_le_bytes(n),
        MessageV::GetAddr => Seq::empty(),
        MessageV::Addr(a) => enc_addr(a),
        MessageV::GetHeaders(l) => enc_locator(l),
        MessageV::Headers(h) => enc_headers(h),
        MessageV::GetBlocks(l) => enc_locator(l),
        MessageV::Inv(i) => enc_inv(i),
        MessageV::GetData(i) => enc_inv(i),
        MessageV::NotFound(i) => enc_inv(i),
        MessageV::Block(b) => enc_block(b),
        MessageV::Tx(t) => crate::payload::enc_tx(t),
        MessageV::MemPool => Seq::empty(),
        MessageV::Reject(b) => b,
    }
}

/// The parse of a command's payload from its delimited body.
pub open spec fn dec_payload(c: Command, s: Seq<u8>) -> Parsed<MessageV> {
    match c {
        Command::Version => match dec_version(s) {
            Err(e) => Err(e),
            Ok(p) => Ok((MessageV::Version(p.0), p.1)),
        },
        Command::Verack => Ok((MessageV::Verack, 0)),
        Command::Ping => match dec_u64(s) {
            Err(e) => Err(e),
            Ok(p) => Ok((MessageV::Ping(p.0), p.1)),
        },
        Command::Pong => match dec_u64(s) {
            Err(e) => Err(e),
            Ok(p) => Ok((MessageV::Pong(p.0), p.1)),
        },
        Command::GetAddr => Ok((MessageV::GetAddr, 0)),
        Command::Addr => match dec_addr(s) {
            Err(e) => Err(e),
            Ok(p) => Ok((MessageV::Addr(p.0), p.1)),
        },
        Command::GetHeaders => match dec_locator(s) {
            Err(e) => Err(e),
            Ok(p) => Ok((MessageV::GetHeaders(p.0), p.1)),
        },
        Command::Headers => match dec_headers(s) {
            Err(e) => Err(e),
            Ok(p) => Ok((MessageV::Headers(p.0), p.1)),
        },
        Command::GetBlocks => match dec_locator(s) {
            Err(e) => Err(e),
            Ok(p) => Ok((MessageV::GetBlocks(p.0), p.1)),
        },
        Command::Inv => match dec_inv(s) {
            Err(e) => Err(e),
            Ok(p) => Ok((MessageV::Inv(p.0), p.1)),
        },
        Command::GetData => match dec_inv(s) {
            Err(e) => Err(e),
            Ok(p) => Ok((MessageV::GetData(p.0), p.1)),
        },
        Command::NotFound => match dec_inv(s) {
            Err(e) => Err(e),
            Ok(p) => Ok((MessageV::NotFound(p.0), p.1)),
        },
        Command::Block => match dec_block(s) {
            Err(e) => Err(e),
            Ok(p) => Ok((MessageV::Block(p.0), p.1)),
        },
        Command::Tx => match crate::payload::dec_tx(s) {
            Err(e) => Err(e),
            Ok(p) => Ok((MessageV::Tx(p.0), p.1)),
        },
        Command::MemPool => Ok((MessageV::MemPool, 0)),
        Command::Reject => Ok((MessageV::Reject(s), s.len() as int)),
    }
}

/// Which model messages an executable message can hold.
pub open spec fn wf_message(m: MessageV) -> bool {
    match m {
        MessageV::Version(v) => <Version as Wire>::wf(v),
        MessageV::Addr(a) => <Addr as Wire>::wf(a),
        MessageV::GetHeaders(l) => <LocatorHashes as Wire>::wf(l),
        MessageV::Headers(h) => <Headers as Wire>::wf(h),
        MessageV::GetBlocks(l) => <LocatorHashes as Wire>::wf(l),
        MessageV::Inv(i) => <Inv as Wire>::wf(i),
        MessageV::GetData(i) => <Inv as Wire>::wf(i),
        MessageV::NotFound(i) => <Inv as Wire>::wf(i),
        MessageV::Block(b) => <Block as Wire>::wf(b),
        MessageV::Tx(t) => <Tx as Wire>::wf(t),
        _ => true,
    }
}

/// The four checksum bytes of a payload: the first four bytes of its
/// double-SHA-256 digest.
pub open spec fn checksum(payload: Seq<u8>) -> Seq<u8> {
    seq![
        sha256d(payload)[0],
        sha256d(payload)[1],
        sha256d(payload)[2],
        sha256d(payload)[3],
    ]
}

/// The full frame of a message: magic, command, payload length, checksum,
/// payload.
pub open spec fn enc_message(n: Network, m: MessageV) -> Seq<u8> {
    let payload = enc_payload(m);
    magic(n) + cmd_bytes(command_of(m)) + spec_u32_to_le_bytes(payload.len() as u32) + checksum(
        payload,
    ) + payload
}

/// The parse of a frame: the magic must match the network, the command must
/// be known, the declared length must be within bounds and available, the
/// checksum must match, and the payload must fill the declared length
/// exactly.
pub open spec fn dec_message(n: Network, s: Seq<u8>) -> Parsed<MessageV> {
    if s.len() < 24 {
        Err(CodecError::UnexpectedEof)
    } else if s.subrange(0, 4) != magic(n) {
        Err(CodecError::InvalidData)
    } else {
        match command_of_bytes(s.subrange(4, 16)) {
            None => Err(CodecError::InvalidData),
            Some(c) => {
                let len = spec_u32_from_le_bytes(s.subrange(16, 20)) as int;
                if len > MAX_PAYLOAD {
                    Err(CodecError::InvalidData)
                } else if s.len() < 24 + len {
                    Err(CodecError::UnexpectedEof)
                } else {
                    let body = s.subrange(24, 24 + len);
                    if s.subrange(20, 24) != checksum(body) {
                        Err(CodecError::InvalidData)
                    } else {
                        match dec_payload(c, body) {
                            Err(_) => Err(CodecError::InvalidData),
                            Ok(p) => if p.1 == len {
                                Ok((p.0, 24 + len))
                            } else {
                                Err(CodecError::InvalidData)
                            },
                        }
                    }
                }
            },
        }
    }
}

/// The magic is four bytes long, whatever the network.
pub proof fn lemma_magic_len(n: Network)
    ensures
        magic(n).len() == 4,
{
    match n {
        Network::Mainnet => assert(magic(Network::Mainnet).len() == 4),
        Network::Testnet => assert(magic(Network::Testnet).len() == 4),
        Network::Regtest => assert(magic(Network::Regtest).len() == 4),
    }
}

/// A command's wire name is twelve bytes long.
pub proof fn lemma_cmd_len(c: Command)
    ensures
        cmd_bytes(c).len() == 12,
{
    match c {
        Command::Version => assert(cmd_bytes(Command::Version).len() == 12),
        Command::Verack => assert(cmd_bytes(Command::Verack).len() == 12),
        Command::Ping => assert(cmd_bytes(Command::Ping).len() == 12),
        Command::Pong => assert(cmd_bytes(Command::Pong).len() == 12),
        Command::GetAddr => assert(cmd_bytes(Command::GetAddr).len() == 12),
        Command::Addr => assert(cmd_bytes(Command::Addr).len() == 12),
        Command::GetHeaders => assert(cmd_bytes(Command::GetHeaders).len() == 12),
        Command::Headers => assert(cmd_bytes(Command::Headers).len() == 12),
        Command::GetBlocks => assert(cmd_bytes(Command::GetBlocks).len() == 12),
        Command::Inv => assert(cmd_bytes(Command::Inv).len() == 12),
        Command::GetData => assert(cmd_bytes(Command::GetData).len() == 12),
        Command::NotFound => assert(cmd_bytes(Command::NotFound).len() == 12),
        Command::Block => assert(cmd_bytes(Command::Block).len() == 12),
        Command::Tx => assert(cmd_bytes(Command::Tx).len() == 12),
        Command::MemPool => assert(cmd_bytes(Command::MemPool).len() == 12),
        Command::Reject => assert(cmd_bytes(Command::Reject).len() == 12),
    }
}

/// Compares four bytes to the first four bytes of a digest.
fn eq_prefix4(a: &[u8], d: &Vec<u8>) -> (r: bool)
    requires
        a@.len() == 4,
        d@.len() >= 4,
    ensures
        r == (a@ == d@.subrange(0, 4)),
{
    let mut i: usize = 0;
    while i < 4
        invariant
            a@.len() == 4,
            d@.len() >= 4,
            0 <= i <= 4,
            forall|j: int| 0 <= j < i ==> a@[j] == d@.subrange(0, 4)[j],
        decreases 4 - i,
    {
        if *slice_index_get(a, i) != d[i] {
            assert(a@[i as int] != d@.subrange(0, 4)[i as int]);
            return false;
        }
        i = i + 1;
    }
    assert(a@ =~= d@.subrange(0, 4));
    true
}

impl Message {
    /// Writes the full frame of this message for the given network. The one
    /// input rejected is a payload over the length bound.
    #[verifier::rlimit(100)]
    #[verifier::spinoff_prover]
    pub fn to_bytes(&self, network: Network) -> (r: Result<Vec<u8>, CodecError>)
        ensures
            match r {
                Ok(out) => out@ == enc_message(network, self@) && enc_payload(self@).len()
                    <= MAX_PAYLOAD,
                Err(e) => e == CodecError::InvalidData && enc_payload(self@).len() > MAX_PAYLOAD,
            },
    {
        let mut payload: Vec<u8> = Vec::new();
        let c: Command = match self {
            Message::Version(v) => {
                let _ = v.encode(&mut payload);
                Command::Version
            },
            Message::Verack => Command::Verack,
            Message::Ping(n) => {
                write_u64(n.0, &mut payload);
                Command::Ping
            },
            Message::Pong(n) => {
                write_u64(n.0, &mut payload);
                Command::Pong
            },
            Message::GetAddr => Command::GetAddr,
            Message::Addr(a) => {
                let _ = a.encode(&mut payload);
                Command::Addr
            },
            Message::GetHeaders(l) => {
                let _ = l.encode(&mut payload);
                Command::GetHeaders
            },
            Message::Headers(h) => {
                let _ = h.encode(&mut payload);
                Command::Headers
            },
            Message::GetBlocks(l) => {
                let _ = l.encode(&mut payload);
                Command::GetBlocks
            },
            Message::Inv(i) => {
                let _ = i.encode(&mut payload);
                Command::Inv
            },
            Message::GetData(i) => {
                let _ = i.encode(&mut payload);
                Command::GetData
            },
            Message::NotFound(i) => {
                let _ = i.encode(&mut payload);
                Command::NotFound
            },
            Message::Block(b) => {
                let _ = b.encode(&mut payload);
                Command::Block
            },
            Message::Tx(t) => {
                let _ = t.encode(&mut payload);
                Command::Tx
            },
            Message::MemPool => Command::MemPool,
            Message::Reject(r) => {
                let mut body = r.0.clone();
                payload.append(&mut body);
                Command::Reject
            },
        };
        proof {
            assert(payload@ =~= enc_payload(self@));
            assert(c == command_of(self@));
        }
        if payload.len() > MAX_PAYLOAD as usize {
            return Err(CodecError::InvalidData);
        }
        let mut out: Vec<u8> = Vec::new();
        write_magic(network, &mut out);
        write_command(c, &mut out);
        write_u32(payload.len() as u32, &mut out);
        let digest = sha256d_bytes(payload.as_slice());
        out.push(digest[0]);
        out.push(digest[1]);
        out.push(digest[2]);
        out.push(digest[3]);
        proof {
            assert(seq![digest@[0], digest@[1], digest@[2], digest@[3]] =~= checksum(payload@));
        }
        let mut body = payload;
        out.append(&mut body);
        proof {
            assert(out@ =~= enc_message(network, self@));
        }
        Ok(out)
    }

    /// Reads one full frame from the cursor, exactly as `dec_message`
    /// parses it.
    #[verifier::rlimit(100)]
    #[verifier::spinoff_prover]
    pub fn from_bytes(bytes: &[u8], pos: &mut usize, network: Network) -> (r: Result<
        Message,
        CodecError,
    >)
        requires
            *old(pos) <= bytes@.len(),
        ensures
            *old(pos) <= *final(pos) <= bytes@.len(),
            match dec_message(network, bytes@.skip(*old(pos) as int)) {
                Ok(p) => r matches Ok(m) && m@ == p.0 && *final(pos) == *old(pos) + p.1,
                Err(e) => r == Err::<Message, CodecError>(e) && *final(pos) == *old(pos),
            },
    {
        let start: usize = *pos;
        let ghost rest = bytes@.skip(start as int);
        if bytes.len() - start < 24 {
            return Err(CodecError::UnexpectedEof);
        }
        let magic_slice = slice_subrange(bytes, start, start + 4);
        proof {
            assert(magic_slice@ =~= rest.subrange(0, 4));
        }
        if !eq_magic(magic_slice, network) {
            return Err(CodecError::InvalidData);
        }
        let cmd_slice = slice_subrange(bytes, start + 4, start + 16);
        proof {
            assert(cmd_slice@ =~= rest.subrange(4, 16));
        }
        let c = match parse_command(cmd_slice) {
            Some(c) => c,
            None => {
                return Err(CodecError::InvalidData);
            },
        };
        let len_slice = slice_subrange(bytes, start + 16, start + 20);
        proof {
            assert(len_slice@ =~= rest.subrange(16, 20));
        }
        let length = u32_from_le_bytes(len_slice);
        if length > MAX_PAYLOAD {
            return Err(CodecError::InvalidData);
        }
        let length_us = length as usize;
        if bytes.len() - start - 24 < length_us {
            return Err(CodecError::UnexpectedEof);
        }
        let body = slice_subrange(bytes, start + 24, start + 24 + length_us);
        proof {
            assert(body@ =~= rest.subrange(24, 24 + length as int));
        }
        let digest = sha256d_bytes(body);
        let ck = slice_subrange(bytes, start + 20, start + 24);
        proof {
            assert(ck@ =~= rest.subrange(20, 24));
        }
        proof {
            assert(digest@.subrange(0, 4) =~= checksum(body@));
        }
        if !eq_prefix4(ck, &digest) {
            return Err(CodecError::InvalidData);
        }
        let mut ppos: usize = 0;
        proof {
            assert(body@.skip(0) =~= body@);
        }
        let m: Message = match c {
            Command::Version => match Version::decode(body, &mut ppos) {
                Ok(v) => Message::Version(v),
                Err(_) => {
                    return Err(CodecError::InvalidData);
                },
            },
            Command::Verack => Message::Verack,
            Command::Ping => match read_u64(body, &mut ppos) {
                Ok(n) => Message::Ping(Nonce(n)),
                Err(_) => {
                    return Err(CodecError::InvalidData);
                },
            },
            Command::Pong => match read_u64(body, &mut ppos) {
                Ok(n) => Message::Pong(Nonce(n)),
                Err(_) => {
                    return Err(CodecError::InvalidData);
                },
            },
            Command::GetAddr => Message::GetAddr,
            Command::Addr => match Addr::decode(body, &mut ppos) {
                Ok(a) => Message::Addr(a),
                Err(_) => {
                    return Err(CodecError::InvalidData);
                },
            },
            Command::GetHeaders => match LocatorHashes::decode(body, &mut ppos) {
                Ok(l) => Message::GetHeaders(l),
                Err(_) => {
                    return Err(CodecError::InvalidData);
                },
            },
            Command::Headers => match Headers::decode(body, &mut ppos) {
                Ok(h) => Message::Headers(h),
                Err(_) => {
                    return Err(CodecError::InvalidData);
                },
            },
            Command::GetBlocks => match LocatorHashes::decode(body, &mut ppos) {
                Ok(l) => Message::GetBlocks(l),
                Err(_) => {
                    return Err(CodecError::InvalidData);
                },
            },
            Command::Inv => match Inv::decode(body, &mut ppos) {
                Ok(i) => Message::Inv(i),
                Err(_) => {
                    return Err(CodecError::InvalidData);
                },
            },
            Command::GetData => match Inv::decode(body, &mut ppos) {
                Ok(i) => Message::GetData(i),
                Err(_) => {
                    return Err(CodecError::InvalidData);
                },
            },
            Command::NotFound => match Inv::decode(body, &mut ppos) {
                Ok(i) => Message::NotFound(i),
                Err(_) => {
                    return Err(CodecError::InvalidData);
                },
            },
            Command::Block => match Block::decode(body, &mut ppos) {
                Ok(b) => Message::Block(b),
                Err(_) => {
                    return Err(CodecError::InvalidData);
                },
            },
            Command::Tx => match Tx::decode(body, &mut ppos) {
                Ok(t) => Message::Tx(t),
                Err(_) => {
                    return Err(CodecError::InvalidData);
                },
            },
            Command::MemPool => Message::MemPool,
            Command::Reject => {
                let raw = vstd::slice::slice_to_vec(body);
                ppos = length_us;
                proof {
                    assert(raw@ == body@);
                }
                Message::Reject(Reject(raw))
            },
        };
        if ppos != length_us {
            return Err(CodecError::InvalidData);
        }
        *pos = start + 24 + length_us;
        Ok(m)
    }
}

/// The payload roundtrip: a well-formed message's payload parses back
/// under its own command, consuming all of it.
#[verifier::rlimit(100)]
#[verifier::spinoff_prover]
pub proof fn lemma_payload_roundtrip(m: MessageV)
    requires
        wf_message(m),
    ensures
        dec_payload(command_of(m), enc_payload(m)) == Ok::<(MessageV, int), CodecError>(
            (m, enc_payload(m).len() as int),
        ),
{
    lemma_auto_spec_u64_to_from_le_bytes();
    match m {
        MessageV::Version(v) => {
            Version::roundtrip(v, Seq::empty());
            assert(enc_version(v) + Seq::<u8>::empty() =~= enc_version(v));
        },
        MessageV::Ping(nn) => {
            assert(spec_u64_to_le_bytes(nn).subrange(0, 8) =~= spec_u64_to_le_bytes(nn));
        },
        MessageV::Pong(nn) => {
            assert(spec_u64_to_le_bytes(nn).subrange(0, 8) =~= spec_u64_to_le_bytes(nn));
        },
        MessageV::Addr(a) => {
            Addr::roundtrip(a, Seq::empty());
            assert(enc_addr(a) + Seq::<u8>::empty() =~= enc_addr(a));
        },
        MessageV::GetHeaders(l) => {
            LocatorHashes::roundtrip(l, Seq::empty());
            assert(enc_locator(l) + Seq::<u8>::empty() =~= enc_locator(l));
        },
        MessageV::Headers(h) => {
            Headers::roundtrip(h, Seq::empty());
            assert(enc_headers(h) + Seq::<u8>::empty() =~= enc_headers(h));
        },
        MessageV::GetBlocks(l) => {
            LocatorHashes::roundtrip(l, Seq::empty());
            assert(enc_locator(l) + Seq::<u8>::empty() =~= enc_locator(l));
        },
        MessageV::Inv(i) => {
            Inv::roundtrip(i, Seq::empty());
            assert(enc_inv(i) + Seq::<u8>::empty() =~= enc_inv(i));
        },
        MessageV::GetData(i) => {
            Inv::roundtrip(i, Seq::empty());
            assert(enc_inv(i) + Seq::<u8>::empty() =~= enc_inv(i));
        },
        MessageV::NotFound(i) => {
            Inv::roundtrip(i, Seq::empty());
            assert(enc_inv(i) + Seq::<u8>::empty() =~= enc_inv(i));
        },
        MessageV::Block(b) => {
            Block::roundtrip(b, Seq::empty());
            assert(enc_block(b) + Seq::<u8>::empty() =~= enc_block(b));
        },
        MessageV::Tx(t) => {
            Tx::roundtrip(t, Seq::empty());
            assert(crate::payload::enc_tx(t) + Seq::<u8>::empty() =~= crate::payload::enc_tx(t));
        },
        _ => {},
    }
}

/// The framing roundtrip: a well-formed message within the length bound
/// parses back from its own frame, whatever follows it.
#[verifier::rlimit(100)]
#[verifier::spinoff_prover]
pub proof fn lemma_message_roundtrip(n: Network, m: MessageV, tail: Seq<u8>)
    requires
        wf_message(m),
        enc_payload(m).len() <= MAX_PAYLOAD,
    ensures
        dec_message(n, enc_message(n, m) + tail) == Ok::<(MessageV, int), CodecError>(
            (m, enc_message(n, m).len() as int),
        ),
{
    lemma_auto_spec_u32_to_from_le_bytes();
    let payload = enc_payload(m);
    let c = command_of(m);
    lemma_magic_len(n);
    lemma_cmd_len(c);
    let s = enc_message(n, m) + tail;
    assert(enc_message(n, m).len() == 24 + payload.len());
    assert(s.subrange(0, 4) =~= magic(n));
    assert(s.subrange(4, 16) =~= cmd_bytes(c));
    lemma_command_roundtrip(c);
    assert(s.subrange(16, 20) =~= spec_u32_to_le_bytes(payload.len() as u32));
    let len = spec_u32_from_le_bytes(s.subrange(16, 20)) as int;
    assert(len == payload.len());
    assert(s.subrange(24, 24 + len) =~= payload);
    assert(s.subrange(20, 24) =~= checksum(payload));
    lemma_payload_roundtrip(m);
}

} // verus!
