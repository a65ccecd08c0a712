//! Node-supervisor logic: the action to take once the subject node has
//! started, the scripted seeding exchange that serves it an initial chain,
//! and the block-service arithmetic a seeded node is expected to answer
//! with (which inventory for a `getblocks`, which headers for a
//! `getheaders`, which blocks or not-founds for a `getdata`).
//!
//! Everything here is a pure function of the chain and the messages; the
//! process and socket handling around it lives outside the library.

use vstd::prelude::*;

use crate::codec::{zero_hash, Hash256, Wire};
use crate::digest::header_hash;
use crate::message::{Message, MessageV};
use crate::payload::{
    Block, BlockV, HeaderV, Headers, HeadersEntry, Inv, InvHash, LocatorHashesV, Nonce,
    ObjectKind,
};

verus! {

/// What to do right after the subject node starts.
pub enum Action {
    /// Nothing: just start it.
    NoAction,
    /// Wait for the node to open a connection to a local listener, then
    /// drop it: a readiness probe.
    WaitForConnection,
    /// Serve the node the first so-many blocks of the fixture chain over
    /// a temporary peer, then drop the connection.
    SeedWithTestnetBlocks(usize),
}

/// Where the scripted seeding exchange stands.
#[derive(Clone, Copy, Debug, PartialEq, Eq, Structural)]
pub enum SeedStage {
    /// Waiting for the node to ask for headers from genesis.
    AwaitGetHeaders,
    /// Waiting for the node to request the announced blocks.
    AwaitGetData,
    /// Blocks sent; waiting for the pong that confirms the node drained
    /// them.
    AwaitPong,
    /// The exchange is complete.
    Done,
}

/// Why a seeding step refused a message.
#[derive(Clone, Copy, Debug, PartialEq, Eq, Structural)]
pub enum SeedError {
    /// A message of the wrong kind for this stage.
    UnexpectedMessage,
    /// The right kind of query, with the wrong contents.
    QueryMismatch,
}

/// The headers served while seeding: every block after genesis, in order.
pub open spec fn seed_headers(chain: Seq<BlockV>) -> Seq<HeaderV> {
    Seq::new((chain.len() - 1) as nat, |i: int| chain[i + 1].header)
}

/// The inventory the node must request while being seeded: every block
/// after genesis, in order.
pub open spec fn seed_inv(chain: Seq<BlockV>) -> Seq<InvHash> {
    Seq::new(
        (chain.len() - 1) as nat,
        |i: int|
            InvHash { kind: ObjectKind::Block, hash: header_hash(chain[i + 1].header) },
    )
}

/// The block messages served while seeding, in order.
pub open spec fn seed_blocks(chain: Seq<BlockV>) -> Seq<MessageV> {
    Seq::new((chain.len() - 1) as nat, |i: int| MessageV::Block(chain[i + 1]))
}

/// Whether a locator query asks for everything after genesis: its one
/// locator hash is the genesis hash and its stop is the zero sentinel.
pub open spec fn genesis_locator_ok(l: LocatorHashesV, chain: Seq<BlockV>) -> bool {
    l.locators == seq![header_hash(chain[0].header)] && l.stop == zero_hash()
}

/// The seeding script: await a `getheaders` from genesis and answer the
/// chain's headers; await a `getdata` for exactly those blocks and answer
/// the blocks followed by a ping; await the matching pong. Anything else
/// refuses the message and leaves the stage where it was.
pub open spec fn seed_step_spec(
    stage: SeedStage,
    m: MessageV,
    chain: Seq<BlockV>,
    nonce: u64,
) -> Result<(SeedStage, Seq<MessageV>), SeedError> {
    match stage {
        SeedStage::AwaitGetHeaders => match m {
            MessageV::GetHeaders(l) => if genesis_locator_ok(l, chain) {
                Ok((SeedStage::AwaitGetData, seq![MessageV::Headers(seed_headers(chain))]))
            } else {
                Err(SeedError::QueryMismatch)
            },
            _ => Err(SeedError::UnexpectedMessage),
        },
        SeedStage::AwaitGetData => match m {
            MessageV::GetData(i) => if i == seed_inv(chain) {
                Ok((SeedStage::AwaitPong, seed_blocks(chain).push(MessageV::Ping(nonce))))
            } else {
                Err(SeedError::QueryMismatch)
            },
            _ => Err(SeedError::UnexpectedMessage),
        },
        SeedStage::AwaitPong => match m {
            MessageV::Pong(n) => if n == nonce {
                Ok((SeedStage::Done, Seq::empty()))
            } else {
                Err(SeedError::QueryMismatch)
            },
            _ => Err(SeedError::UnexpectedMessage),
        },
        SeedStage::Done => Err(SeedError::UnexpectedMessage),
    }
}

/// One step of the seeding exchange, exactly as `seed_step_spec` says:
/// the replies to send, or the reason the inbound message was refused.
pub fn seed_step(stage: SeedStage, msg: &Message, blocks: &Vec<Block>, ping_nonce: Nonce) -> (r:
    Result<(SeedStage, Vec<Message>), SeedError>)
    requires
        blocks@.len() >= 1,
    ensures
        match seed_step_spec(stage, msg@, seq_view_blocks(blocks@), ping_nonce.0) {
            Ok(p) => r matches Ok(q) && q.0 == p.0 && seq_view_msgs(q.1@) == p.1,
            Err(e) => r == Err::<(SeedStage, Vec<Message>), SeedError>(e),
        },
{
    let ghost chain = seq_view_blocks(blocks@);
    match stage {
        SeedStage::AwaitGetHeaders => match msg {
            Message::GetHeaders(l) => {
                let genesis = blocks[0].double_sha256();
                if l.block_locator_hashes.len() == 1 && l.block_locator_hashes[0] == genesis
                    && l.hash_stop.is_zero() {
                    proof {
                        assert(l@.locators =~= seq![header_hash(chain[0].header)]);
                    }
                    let n = blocks.len();
                    let mut entries: Vec<HeadersEntry> = Vec::new();
                    let mut i: usize = 1;
                    while i < n
                        invariant
                            1 <= i <= n,
                            n == blocks@.len(),
                            chain == seq_view_blocks(blocks@),
                            entries@.len() == i - 1,
                            forall|j: int|
                                0 <= j < i - 1 ==> (#[trigger] entries@[j])@ == chain[j + 1].header,
                        decreases n - i,
                    {
                        entries.push(HeadersEntry(blocks[i].header.cloned()));
                        i = i + 1;
                    }
                    let reply = Message::Headers(Headers::new(entries));
                    proof {
                        assert(reply@ matches MessageV::Headers(h) && h =~= seed_headers(chain));
                    }
                    let mut replies: Vec<Message> = Vec::new();
                    replies.push(reply);
                    proof {
                        assert(seq_view_msgs(replies@) =~= seq![
                            MessageV::Headers(seed_headers(chain)),
                        ]);
                    }
                    Ok((SeedStage::AwaitGetData, replies))
                } else {
                    proof {
                        if l@.locators == seq![header_hash(chain[0].header)] && l@.stop
                            == zero_hash() {
                            assert(l.block_locator_hashes@.len() == 1);
                            assert(l.block_locator_hashes@[0] == header_hash(chain[0].header));
                        }
                    }
                    Err(SeedError::QueryMismatch)
                }
            },
            _ => Err(SeedError::UnexpectedMessage),
        },
        SeedStage::AwaitGetData => match msg {
            Message::GetData(inv) => {
                let n = blocks.len();
                let items = inv.inventory();
                if items.len() == n - 1 {
                    let mut i: usize = 1;
                    while i < n
                        invariant
                            1 <= i <= n,
                            n == blocks@.len(),
                            chain == seq_view_blocks(blocks@),
                            items@.len() == n - 1,
                            items@ == inv@,
                            msg@ == MessageV::GetData(inv@),
                            stage == SeedStage::AwaitGetData,
                            forall|j: int| 0 <= j < i - 1 ==> inv@[j] == seed_inv(chain)[j],
                        decreases n - i,
                    {
                        let expected = blocks[i].inv_hash();
                        proof {
                            assert(chain[i as int] == blocks@[i as int]@);
                            assert(seed_inv(chain)[i - 1] == InvHash {
                                kind: ObjectKind::Block,
                                hash: header_hash(chain[i as int].header),
                            });
                        }
                        if !(items[i - 1] == expected) {
                            proof {
                                assert(inv@[i - 1] != seed_inv(chain)[i - 1]);
                                if inv@ == seed_inv(chain) {
                                    assert(inv@[i - 1] == seed_inv(chain)[i - 1]);
                                }
                            }
                            return Err(SeedError::QueryMismatch);
                        }
                        i = i + 1;
                    }
                    proof {
                        assert(inv@ =~= seed_inv(chain));
                    }
                    let mut replies: Vec<Message> = Vec::new();
                    let mut i: usize = 1;
                    while i < n
                        invariant
                            1 <= i <= n,
                            n == blocks@.len(),
                            chain == seq_view_blocks(blocks@),
                            replies@.len() == i - 1,
                            forall|j: int|
                                0 <= j < i - 1 ==> (#[trigger] replies@[j])@ == MessageV::Block(
                                    chain[j + 1],
                                ),
                        decreases n - i,
                    {
                        replies.push(Message::Block(blocks[i].cloned()));
                        i = i + 1;
                    }
                    replies.push(Message::Ping(ping_nonce));
                    proof {
                        assert(seq_view_msgs(replies@) =~= seed_blocks(chain).push(
                            MessageV::Ping(ping_nonce.0),
                        ));
                    }
                    Ok((SeedStage::AwaitPong, replies))
                } else {
                    proof {
                        assert(inv@.len() != seed_inv(chain).len());
                        assert(inv@ != seed_inv(chain));
                    }
                    Err(SeedError::QueryMismatch)
                }
            },
            _ => Err(SeedError::UnexpectedMessage),
        },
        SeedStage::AwaitPong => match msg {
            Message::Pong(n) => {
                if n.0 == ping_nonce.0 {
                    let replies: Vec<Message> = Vec::new();
                    proof {
                        assert(seq_view_msgs(replies@) =~= Seq::<MessageV>::empty());
                    }
                    Ok((SeedStage::Done, replies))
                } else {
                    Err(SeedError::QueryMismatch)
                }
            },
            _ => Err(SeedError::UnexpectedMessage),
        },
        SeedStage::Done => Err(SeedError::UnexpectedMessage),
    }
}

/// The models of a sequence of blocks.
pub open spec fn seq_view_blocks(s: Seq<Block>) -> Seq<BlockV> {
    s.map_values(|b: Block| b@)
}

/// The models of a sequence of messages.
pub open spec fn seq_view_msgs(s: Seq<Message>) -> Seq<MessageV> {
    s.map_values(|m: Message| m@)
}

// ---------------------------------------------------------------------------
// Block-service expectations
// ---------------------------------------------------------------------------

/// The first index at or after `j` whose block hashes to `h`, if any.
pub open spec fn spec_find_from(chain: Seq<BlockV>, h: Hash256, j: int) -> Option<int>
    decreases chain.len() - j,
{
    if j < 0 || j >= chain.len() {
        None
    } else if header_hash(chain[j].header) == h {
        Some(j)
    } else {
        spec_find_from(chain, h, j + 1)
    }
}

/// The index of the first locator hash that names a block of the chain:
/// how a node finds where a peer's view forks from its own.
pub open spec fn spec_locate(chain: Seq<BlockV>, locators: Seq<Hash256>) -> Option<int>
    decreases locators.len(),
{
    if locators.len() == 0 {
        None
    } else {
        match spec_find_from(chain, locators[0], 0) {
            Some(i) => Some(i),
            None => spec_locate(chain, locators.skip(1)),
        }
    }
}

/// Where the stop hash bounds a block-service range: the index of the
/// first block carrying the stop hash, or the chain's length when no
/// block does, and for the zero sentinel, which stops nowhere.
pub open spec fn stop_index(chain: Seq<BlockV>, stop: Hash256) -> int {
    if stop == zero_hash() {
        chain.len() as int
    } else {
        match spec_find_from(chain, stop, 0) {
            Some(k) => k,
            None => chain.len() as int,
        }
    }
}

/// The block inventory a node answers a `getblocks` whose locator names
/// block `from`: the blocks strictly after it, up to the stop block,
/// which is excluded. The zero sentinel and an unknown stop hash bound
/// nothing; a stop at or before the locator block leaves the range empty.
pub open spec fn spec_inv_range(chain: Seq<BlockV>, from: int, stop: Hash256) -> Seq<InvHash> {
    let end = stop_index(chain, stop);
    if end <= from + 1 {
        Seq::empty()
    } else {
        Seq::new(
            (end - from - 1) as nat,
            |i: int|
                InvHash { kind: ObjectKind::Block, hash: header_hash(chain[from + 1 + i].header) },
        )
    }
}

/// The headers a node answers a `getheaders` whose locator names block
/// `from`: the headers strictly after it, up to and including the stop
/// block. The zero sentinel and an unknown stop hash bound nothing; a
/// stop at or before the locator block leaves the range empty.
pub open spec fn spec_headers_range(chain: Seq<BlockV>, from: int, stop: Hash256) -> Seq<HeaderV> {
    let k = stop_index(chain, stop);
    let end = if k < chain.len() {
        k + 1
    } else {
        chain.len() as int
    };
    if end <= from + 1 {
        Seq::empty()
    } else {
        Seq::new((end - from - 1) as nat, |i: int| chain[from + 1 + i].header)
    }
}

/// The unlimited block range: under the zero stop sentinel, a locator
/// naming block `from` is answered with exactly all of its children, in
/// chain order.
pub proof fn lemma_unlimited_blocks_inv(chain: Seq<BlockV>, from: int)
    requires
        0 <= from < chain.len(),
    ensures
        spec_inv_range(chain, from, zero_hash()).len() == chain.len() - from - 1,
        forall|i: int|
            0 <= i < chain.len() - from - 1 ==> #[trigger] spec_inv_range(
                chain,
                from,
                zero_hash(),
            )[i] == (InvHash {
                kind: ObjectKind::Block,
                hash: header_hash(chain[from + 1 + i].header),
            }),
{
}

/// The unlimited header range: under the zero stop sentinel, all headers
/// after the locator block come back, in chain order.
pub proof fn lemma_unlimited_headers(chain: Seq<BlockV>, from: int)
    requires
        0 <= from < chain.len(),
    ensures
        spec_headers_range(chain, from, zero_hash()).len() == chain.len() - from - 1,
        forall|i: int|
            0 <= i < chain.len() - from - 1 ==> #[trigger] spec_headers_range(
                chain,
                from,
                zero_hash(),
            )[i] == chain[from + 1 + i].header,
{
}

/// A stop hash at or before the locator block leaves the header range
/// empty: in particular, a query whose stop names the locator block
/// itself is answered with no headers.
pub proof fn lemma_headers_range_empty_at_stop(chain: Seq<BlockV>, from: int, stop: Hash256)
    requires
        0 <= from < chain.len(),
        stop_index(chain, stop) <= from,
    ensures
        spec_headers_range(chain, from, stop) == Seq::<HeaderV>::empty(),
{
}

/// Finds the first block of the chain with the given hash.
pub fn find_block(blocks: &Vec<Block>, h: Hash256) -> (r: Option<usize>)
    ensures
        match r {
            Some(i) => spec_find_from(seq_view_blocks(blocks@), h, 0) == Some(i as int) && i
                < blocks@.len(),
            None => spec_find_from(seq_view_blocks(blocks@), h, 0) is None,
        },
{
    let ghost chain = seq_view_blocks(blocks@);
    let n = blocks.len();
    let mut j: usize = 0;
    while j < n
        invariant
            0 <= j <= n,
            n == blocks@.len(),
            chain == seq_view_blocks(blocks@),
            spec_find_from(chain, h, 0) == spec_find_from(chain, h, j as int),
        decreases n - j,
    {
        let bh = blocks[j].double_sha256();
        if bh == h {
            return Some(j);
        }
        j = j + 1;
    }
    None
}

/// Finds the first locator hash that names a block of the chain, and
/// that block's index.
pub fn locate_chain(blocks: &Vec<Block>, locators: &Vec<Hash256>) -> (r: Option<usize>)
    ensures
        match r {
            Some(i) => spec_locate(seq_view_blocks(blocks@), locators@) == Some(i as int) && i
                < blocks@.len(),
            None => spec_locate(seq_view_blocks(blocks@), locators@) is None,
        },
{
    let ghost chain = seq_view_blocks(blocks@);
    let n = locators.len();
    let mut t: usize = 0;
    proof {
        assert(locators@.skip(0) =~= locators@);
    }
    while t < n
        invariant
            0 <= t <= n,
            n == locators@.len(),
            chain == seq_view_blocks(blocks@),
            spec_locate(chain, locators@) == spec_locate(chain, locators@.skip(t as int)),
        decreases n - t,
    {
        proof {
            assert(locators@.skip(t as int)[0] == locators@[t as int]);
        }
        match find_block(blocks, locators[t]) {
            Some(i) => {
                return Some(i);
            },
            None => {},
        }
        proof {
            assert(locators@.skip(t as int).skip(1) =~= locators@.skip(t + 1));
        }
        t = t + 1;
    }
    None
}

/// The inventory a seeded node is expected to answer a `getblocks` whose
/// locator names block `from`: the blocks after it, up to the stop hash
/// (excluded; the zero sentinel bounds nothing).
pub fn expected_blocks_inv(blocks: &Vec<Block>, from: usize, stop: Hash256) -> (r: Inv)
    requires
        from < blocks@.len(),
    ensures
        r@ == spec_inv_range(seq_view_blocks(blocks@), from as int, stop),
{
    let ghost chain = seq_view_blocks(blocks@);
    let n = blocks.len();
    let end: usize = if stop.is_zero() {
        n
    } else {
        match find_block(blocks, stop) {
            Some(k) => k,
            None => n,
        }
    };
    proof {
        assert(end as int == stop_index(chain, stop));
    }
    let count: usize = if end > from + 1 {
        end - from - 1
    } else {
        0
    };
    let mut entries: Vec<InvHash> = Vec::new();
    for i in 0..count
        invariant
            end <= n,
            n == blocks@.len(),
            chain == seq_view_blocks(blocks@),
            count == if end > from + 1 {
                end - from - 1
            } else {
                0
            },
            from + 1 + count <= n,
            entries@.len() == i,
            forall|t: int|
                0 <= t < i ==> #[trigger] entries@[t] == (InvHash {
                    kind: ObjectKind::Block,
                    hash: header_hash(chain[from + 1 + t].header),
                }),
    {
        let bh = blocks[from + 1 + i].double_sha256();
        proof {
            assert(chain[from + 1 + i] == blocks@[from + 1 + i]@);
        }
        entries.push(InvHash { kind: ObjectKind::Block, hash: bh });
    }
    proof {
        assert(entries@ =~= spec_inv_range(chain, from as int, stop));
    }
    Inv::new(entries)
}

/// The headers a seeded node is expected to answer a `getheaders` whose
/// locator names block `from`: the headers after it, up to the stop hash
/// (included; the zero sentinel bounds nothing; a stop at or before the
/// locator yields none).
pub fn expected_headers(blocks: &Vec<Block>, from: usize, stop: Hash256) -> (r: Headers)
    requires
        from < blocks@.len(),
    ensures
        r@ == spec_headers_range(seq_view_blocks(blocks@), from as int, stop),
{
    let ghost chain = seq_view_blocks(blocks@);
    let n = blocks.len();
    let end: usize = if stop.is_zero() {
        n
    } else {
        match find_block(blocks, stop) {
            Some(k) => k + 1,
            None => n,
        }
    };
    proof {
        let k = stop_index(chain, stop);
        assert(end as int == if k < chain.len() {
            k + 1
        } else {
            chain.len() as int
        });
    }
    let count: usize = if end > from + 1 {
        end - from - 1
    } else {
        0
    };
    let mut entries: Vec<HeadersEntry> = Vec::new();
    for i in 0..count
        invariant
            end <= n,
            n == blocks@.len(),
            chain == seq_view_blocks(blocks@),
            count == if end > from + 1 {
                end - from - 1
            } else {
                0
            },
            from + 1 + count <= n,
            entries@.len() == i,
            forall|t: int|
                0 <= t < i ==> (#[trigger] entries@[t])@ == chain[from + 1 + t].header,
    {
        entries.push(HeadersEntry(blocks[from + 1 + i].header.cloned()));
        proof {
            assert(chain[from + 1 + i] == blocks@[from + 1 + i]@);
        }
    }
    proof {
        assert(seq_view_entries(entries@) =~= spec_headers_range(chain, from as int, stop));
    }
    Headers::new(entries)
}

/// The models of a sequence of header entries.
pub open spec fn seq_view_entries(s: Seq<HeadersEntry>) -> Seq<HeaderV> {
    s.map_values(|e: HeadersEntry| e@)
}

/// What one `getdata` entry is answered with: the block itself when a
/// block of the chain is named, and a one-entry not-found otherwise.
pub open spec fn spec_serve_one(chain: Seq<BlockV>, entry: InvHash) -> MessageV {
    if entry.kind == ObjectKind::Block && spec_find_from(chain, entry.hash, 0) is Some {
        MessageV::Block(chain[spec_find_from(chain, entry.hash, 0)->0])
    } else {
        MessageV::NotFound(seq![entry])
    }
}

/// The replies a seeded node is expected to answer a `getdata` with: one
/// reply per entry, in order, each a block or a one-entry not-found.
pub fn serve_getdata(blocks: &Vec<Block>, inv: &Inv) -> (r: Vec<Message>)
    ensures
        r@.len() == inv@.len(),
        forall|i: int|
            0 <= i < inv@.len() ==> (#[trigger] r@[i])@ == spec_serve_one(
                seq_view_blocks(blocks@),
                inv@[i],
            ),
{
    let ghost chain = seq_view_blocks(blocks@);
    let items = inv.inventory();
    let n = items.len();
    let mut replies: Vec<Message> = Vec::new();
    for i in 0..n
        invariant
            n == items@.len(),
            items@ == inv@,
            chain == seq_view_blocks(blocks@),
            replies@.len() == i,
            forall|j: int|
                0 <= j < i ==> (#[trigger] replies@[j])@ == spec_serve_one(chain, inv@[j]),
    {
        let entry = items[i];
        let is_block = match entry.kind {
            ObjectKind::Block => true,
            _ => false,
        };
        if is_block {
            match find_block(blocks, entry.hash) {
                Some(k) => {
                    replies.push(Message::Block(blocks[k].cloned()));
                },
                None => {
                    let mut one: Vec<InvHash> = Vec::new();
                    one.push(entry);
                    proof {
                        assert(one@ =~= seq![entry]);
                    }
                    replies.push(Message::NotFound(Inv::new(one)));
                },
            }
        } else {
            let mut one: Vec<InvHash> = Vec::new();
            one.push(entry);
            proof {
                assert(one@ =~= seq![entry]);
            }
            replies.push(Message::NotFound(Inv::new(one)));
        }
    }
    replies
}

} // verus!
