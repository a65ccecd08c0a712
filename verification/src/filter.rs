//! The message filter: the policy that maps each inbound command, once a
//! connection is established, to an automatic canned reply, a delivery to
//! the test's receive queue, or silence.
//!
//! `version` and `verack` never reach the filter: the handshake state
//! machine owns them.

use vstd::prelude::*;

use crate::message::{Message, MessageV};
use crate::payload::{Addr, Headers, Inv, Nonce};

verus! {

/// What to do with one command.
///
/// `Enabled` answers it internally with the canned response; `Disabled`
/// hands it to the test's queue; `Drop` discards it silently.
#[derive(Clone, Copy, Debug, PartialEq, Eq, Structural)]
pub enum Filter {
    Enabled,
    Disabled,
    Drop,
}

/// What the peer does with one inbound established-state message.
#[derive(Clone, Debug, PartialEq, Eq)]
pub enum FilterAction {
    /// Send this reply back to the message's sender.
    Reply(Message),
    /// Push the message onto the test-facing queue.
    Forward,
    /// Discard the message.
    Ignore,
}

/// The per-command policy of a synthetic peer.
#[derive(Clone, Copy, Debug, PartialEq, Eq, Structural)]
pub struct MessageFilter {
    pub ping: Filter,
    pub pong: Filter,
    pub getaddr: Filter,
    pub addr: Filter,
    pub getheaders: Filter,
    pub headers: Filter,
    pub getblocks: Filter,
    pub inv: Filter,
    pub getdata: Filter,
    pub notfound: Filter,
    pub block: Filter,
    pub tx: Filter,
    pub mempool: Filter,
    pub reject: Filter,
}

/// The filter entry that governs a message, by its command.
/// `version` and `verack` are mapped to `Drop` here: the handshake state
/// machine consumes them before the filter is consulted.
pub open spec fn filter_of(f: MessageFilter, m: MessageV) -> Filter {
    match m {
        MessageV::Version(_) => Filter::Drop,
        MessageV::Verack => Filter::Drop,
        MessageV::Ping(_) => f.ping,
        MessageV::Pong(_) => f.pong,
        MessageV::GetAddr => f.getaddr,
        MessageV::Addr(_) => f.addr,
        MessageV::GetHeaders(_) => f.getheaders,
        MessageV::Headers(_) => f.headers,
        MessageV::GetBlocks(_) => f.getblocks,
        MessageV::Inv(_) => f.inv,
        MessageV::GetData(_) => f.getdata,
        MessageV::NotFound(_) => f.notfound,
        MessageV::Block(_) => f.block,
        MessageV::Tx(_) => f.tx,
        MessageV::MemPool => f.mempool,
        MessageV::Reject(_) => f.reject,
    }
}

/// The canned reply of an auto-replied command, if it has one: pong for
/// ping (echoing the nonce), an empty header list for getheaders, an empty
/// peer list for getaddr, not-found for getdata; every other auto-replied
/// command is absorbed silently.
pub open spec fn auto_reply_of(m: MessageV) -> Option<MessageV> {
    match m {
        MessageV::Ping(n) => Some(MessageV::Pong(n)),
        MessageV::GetHeaders(_) => Some(MessageV::Headers(Seq::empty())),
        MessageV::GetAddr => Some(MessageV::Addr(Seq::empty())),
        MessageV::GetData(i) => Some(MessageV::NotFound(i)),
        _ => None,
    }
}

impl MessageFilter {
    /// The policy that answers every command internally.
    pub fn with_all_auto_reply() -> (r: MessageFilter)
        ensures
            r == MessageFilter::uniform(Filter::Enabled),
    {
        MessageFilter {
            ping: Filter::Enabled,
            pong: Filter::Enabled,
            getaddr: Filter::Enabled,
            addr: Filter::Enabled,
            getheaders: Filter::Enabled,
            headers: Filter::Enabled,
            getblocks: Filter::Enabled,
            inv: Filter::Enabled,
            getdata: Filter::Enabled,
            notfound: Filter::Enabled,
            block: Filter::Enabled,
            tx: Filter::Enabled,
            mempool: Filter::Enabled,
            reject: Filter::Enabled,
        }
    }

    /// The policy that hands every command to the test.
    pub fn with_all_disabled() -> (r: MessageFilter)
        ensures
            r == MessageFilter::uniform(Filter::Disabled),
    {
        MessageFilter {
            ping: Filter::Disabled,
            pong: Filter::Disabled,
            getaddr: Filter::Disabled,
            addr: Filter::Disabled,
            getheaders: Filter::Disabled,
            headers: Filter::Disabled,
            getblocks: Filter::Disabled,
            inv: Filter::Disabled,
            getdata: Filter::Disabled,
            notfound: Filter::Disabled,
            block: Filter::Disabled,
            tx: Filter::Disabled,
            mempool: Filter::Disabled,
            reject: Filter::Disabled,
        }
    }

    /// The same entry for every command.
    pub open spec fn uniform(f: Filter) -> MessageFilter {
        MessageFilter {
            ping: f,
            pong: f,
            getaddr: f,
            addr: f,
            getheaders: f,
            headers: f,
            getblocks: f,
            inv: f,
            getdata: f,
            notfound: f,
            block: f,
            tx: f,
            mempool: f,
            reject: f,
        }
    }

    /// Replaces the `ping` entry.
    pub fn with_ping_filter(self, f: Filter) -> (r: MessageFilter)
        ensures
            r == (MessageFilter { ping: f, ..self }),
    {
        MessageFilter { ping: f, ..self }
    }

    /// Replaces the `pong` entry.
    pub fn with_pong_filter(self, f: Filter) -> (r: MessageFilter)
        ensures
            r == (MessageFilter { pong: f, ..self }),
    {
        MessageFilter { pong: f, ..self }
    }

    /// Replaces the `getaddr` entry.
    pub fn with_getaddr_filter(self, f: Filter) -> (r: MessageFilter)
        ensures
            r == (MessageFilter { getaddr: f, ..self }),
    {
        MessageFilter { getaddr: f, ..self }
    }

    /// Replaces the `addr` entry.
    pub fn with_addr_filter(self, f: Filter) -> (r: MessageFilter)
        ensures
            r == (MessageFilter { addr: f, ..self }),
    {
        MessageFilter { addr: f, ..self }
    }

    /// Replaces the `getheaders` entry.
    pub fn with_getheaders_filter(self, f: Filter) -> (r: MessageFilter)
        ensures
            r == (MessageFilter { getheaders: f, ..self }),
    {
        MessageFilter { getheaders: f, ..self }
    }

    /// Replaces the `headers` entry.
    pub fn with_headers_filter(self, f: Filter) -> (r: MessageFilter)
        ensures
            r == (MessageFilter { headers: f, ..self }),
    {
        MessageFilter { headers: f, ..self }
    }

    /// Replaces the `getblocks` entry.
    pub fn with_getblocks_filter(self, f: Filter) -> (r: MessageFilter)
        ensures
            r == (MessageFilter { getblocks: f, ..self }),
    {
        MessageFilter { getblocks: f, ..self }
    }

    /// Replaces the `inv` entry.
    pub fn with_inv_filter(self, f: Filter) -> (r: MessageFilter)
        ensures
            r == (MessageFilter { inv: f, ..self }),
    {
        MessageFilter { inv: f, ..self }
    }

    /// Replaces the `getdata` entry.
    pub fn with_getdata_filter(self, f: Filter) -> (r: MessageFilter)
        ensures
            r == (MessageFilter { getdata: f, ..self }),
    {
        MessageFilter { getdata: f, ..self }
    }

    /// Replaces the `notfound` entry.
    pub fn with_notfound_filter(self, f: Filter) -> (r: MessageFilter)
        ensures
            r == (MessageFilter { notfound: f, ..self }),
    {
        MessageFilter { notfound: f, ..self }
    }

    /// Replaces the `block` entry.
    pub fn with_block_filter(self, f: Filter) -> (r: MessageFilter)
        ensures
            r == (MessageFilter { block: f, ..self }),
    {
        MessageFilter { block: f, ..self }
    }

    /// Replaces the `tx` entry.
    pub fn with_tx_filter(self, f: Filter) -> (r: MessageFilter)
        ensures
            r == (MessageFilter { tx: f, ..self }),
    {
        MessageFilter { tx: f, ..self }
    }

    /// Replaces the `mempool` entry.
    pub fn with_mempool_filter(self, f: Filter) -> (r: MessageFilter)
        ensures
            r == (MessageFilter { mempool: f, ..self }),
    {
        MessageFilter { mempool: f, ..self }
    }

    /// Replaces the `reject` entry.
    pub fn with_reject_filter(self, f: Filter) -> (r: MessageFilter)
        ensures
            r == (MessageFilter { reject: f, ..self }),
    {
        MessageFilter { reject: f, ..self }
    }

    /// Classifies one inbound established-state message: the canned reply
    /// where its command is auto-replied and has one, silence where it is
    /// auto-replied without one or dropped, and delivery to the test where
    /// it is disabled.
    pub fn action_for(&self, msg: &Message) -> (r: FilterAction)
        ensures
            filter_of(*self, msg@) == Filter::Disabled ==> r == FilterAction::Forward,
            filter_of(*self, msg@) == Filter::Drop ==> r == FilterAction::Ignore,
            filter_of(*self, msg@) == Filter::Enabled ==> match auto_reply_of(msg@) {
                Some(reply) => r matches FilterAction::Reply(out) && out@ == reply,
                None => r == FilterAction::Ignore,
            },
    {
        let f = match msg {
            Message::Version(_) => Filter::Drop,
            Message::Verack => Filter::Drop,
            Message::Ping(_) => self.ping,
            Message::Pong(_) => self.pong,
            Message::GetAddr => self.getaddr,
            Message::Addr(_) => self.addr,
            Message::GetHeaders(_) => self.getheaders,
            Message::Headers(_) => self.headers,
            Message::GetBlocks(_) => self.getblocks,
            Message::Inv(_) => self.inv,
            Message::GetData(_) => self.getdata,
            Message::NotFound(_) => self.notfound,
            Message::Block(_) => self.block,
            Message::Tx(_) => self.tx,
            Message::MemPool => self.mempool,
            Message::Reject(_) => self.reject,
        };
        match f {
            Filter::Disabled => FilterAction::Forward,
            Filter::Drop => FilterAction::Ignore,
            Filter::Enabled => match msg {
                Message::Ping(n) => FilterAction::Reply(Message::Pong(*n)),
                Message::GetHeaders(_) => FilterAction::Reply(Message::Headers(Headers::empty())),
                Message::GetAddr => FilterAction::Reply(Message::Addr(Addr::empty())),
                Message::GetData(i) => FilterAction::Reply(Message::NotFound(i.cloned())),
                _ => FilterAction::Ignore,
            },
        }
    }
}

impl Default for MessageFilter {
    /// The default policy answers every command internally.
    fn default() -> (r: Self)
        ensures
            r == MessageFilter::uniform(Filter::Enabled),
    {
        MessageFilter::with_all_auto_reply()
    }
}

/// Whether a message matches the pong awaited for a nonce: the convenience
/// check behind a ping of a known nonce.
pub fn is_matching_pong(nonce: Nonce, msg: &Message) -> (r: bool)
    ensures
        r == (msg@ == MessageV::Pong(nonce.0)),
{
    match msg {
        Message::Pong(n) => n.0 == nonce.0,
        _ => false,
    }
}

} // verus!
