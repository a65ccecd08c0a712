//! The crawler's knowledge of the network: the nodes it has heard of and
//! the undirected connections it has observed between them, with freshness
//! bookkeeping and connect scheduling.
//!
//! Times are unix seconds (`now` parameters); a handshake duration is
//! milliseconds. A connection is an unordered pair: equality is symmetric
//! in the endpoints, and its canonical key orders them, so that any
//! fingerprint computed from the key agrees for `(a, b)` and `(b, a)`.

use vstd::prelude::*;

use crate::codec::{NodeAddr, VarStr};

verus! {

/// The elapsed seconds before a connection is regarded as inactive.
pub const LAST_SEEN_CUTOFF: u64 = 600;

/// Connection attempts to a node stop after this many consecutive
/// failures.
pub const MAX_CONNECTION_FAILURES: u8 = 5;

/// The base of the retry backoff: a failed node is retried after
/// `RETRY_BASE_SECS * 2^failures` seconds.
pub const RETRY_BASE_SECS: u64 = 30;

/// The model of a crawler's record of one node.
pub struct KnownNodeV {
    pub last_connected: Option<u64>,
    pub last_attempt: Option<u64>,
    pub handshake_time: Option<u64>,
    pub protocol_version: Option<u32>,
    pub user_agent: Option<Seq<u8>>,
    pub services: Option<u64>,
    pub connection_failures: u8,
}

/// A node encountered in the network or obtained from one of the peers.
/// The address is not a field: it is the key under which the record
/// stands in the node map.
#[derive(Clone, Debug)]
pub struct KnownNode {
    /// When the node was last successfully connected to (unix seconds).
    pub last_connected: Option<u64>,
    /// When a connection to the node was last attempted (unix seconds).
    pub last_attempt: Option<u64>,
    /// How long the handshake took (milliseconds).
    pub handshake_time: Option<u64>,
    /// The node's protocol version.
    pub protocol_version: Option<u32>,
    /// The node's user agent.
    pub user_agent: Option<VarStr>,
    /// The node's service bits.
    pub services: Option<u64>,
    /// The number of consecutive connection failures.
    pub connection_failures: u8,
}

impl View for KnownNode {
    type V = KnownNodeV;

    open spec fn view(&self) -> KnownNodeV {
        KnownNodeV {
            last_connected: self.last_connected,
            last_attempt: self.last_attempt,
            handshake_time: self.handshake_time,
            protocol_version: self.protocol_version,
            user_agent: match self.user_agent {
                Some(ua) => Some(ua@),
                None => None,
            },
            services: self.services,
            connection_failures: self.connection_failures,
        }
    }
}

/// The record of a node nothing is known about yet.
pub open spec fn default_node() -> KnownNodeV {
    KnownNodeV {
        last_connected: None,
        last_attempt: None,
        handshake_time: None,
        protocol_version: None,
        user_agent: None,
        services: None,
        connection_failures: 0,
    }
}

impl Default for KnownNode {
    /// A record with nothing known yet.
    fn default() -> (r: Self)
        ensures
            r@ == default_node(),
    {
        KnownNode {
            last_connected: None,
            last_attempt: None,
            handshake_time: None,
            protocol_version: None,
            user_agent: None,
            services: None,
            connection_failures: 0,
        }
    }
}

/// A connection observed in the network: an unordered pair of endpoints
/// and when it was last seen (unix seconds).
#[derive(Clone, Copy, Debug)]
pub struct KnownConnection {
    /// One of the two sides of the connection.
    pub a: NodeAddr,
    /// The other side of the connection.
    pub b: NodeAddr,
    /// When the connection was last seen.
    pub last_seen: u64,
}

/// Two connections are the same when their endpoint pairs agree as
/// unordered pairs; when they were last seen does not enter.
pub open spec fn conn_eq(x: KnownConnection, y: KnownConnection) -> bool {
    (x.a == y.a && x.b == y.b) || (x.a == y.b && x.b == y.a)
}

/// Whether a connection joins the unordered pair `{a, b}`.
pub open spec fn conn_matches(c: KnownConnection, a: NodeAddr, b: NodeAddr) -> bool {
    (c.a == a && c.b == b) || (c.a == b && c.b == a)
}

/// Whether some entry of `s` is the same connection as `c`.
pub open spec fn conn_in(s: Seq<KnownConnection>, c: KnownConnection) -> bool {
    exists|k: int| 0 <= k < s.len() && conn_eq(#[trigger] s[k], c)
}

/// Whether `c` stands in `s` as an entry, value and all.
pub open spec fn entry_in(s: Seq<KnownConnection>, c: KnownConnection) -> bool {
    exists|k: int| 0 <= k < s.len() && #[trigger] s[k] == c
}

/// Whether `c` stands among the first `n` entries of `s`, value and all.
pub open spec fn in_prefix(s: Seq<KnownConnection>, n: int, c: KnownConnection) -> bool {
    exists|k: int| 0 <= k < n && #[trigger] s[k] == c
}

/// Two snapshots with the same node entries know the same addresses.
proof fn lemma_same_nodes_same_has(n1: KnownNetwork, n2: KnownNetwork, a: NodeAddr)
    requires
        n1.nodes_seq() == n2.nodes_seq(),
        n1.spec_has_node(a),
    ensures
        n2.spec_has_node(a),
{
    let w = choose|w: int| 0 <= w < n1.nodes_seq().len() && (#[trigger] n1.nodes_seq()[w]).0 == a;
    assert((n2.nodes_seq()[w]).0 == a);
}

/// Whether `c` joins `source` with one of the listed addresses.
pub open spec fn pair_listed(source: NodeAddr, addrs: Seq<NodeAddr>, c: KnownConnection) -> bool {
    exists|t: int| 0 <= t < addrs.len() && conn_matches(c, source, #[trigger] addrs[t])
}

/// Sameness of connections is transitive.
pub proof fn lemma_conn_eq_trans(x: KnownConnection, y: KnownConnection, z: KnownConnection)
    requires
        conn_eq(x, y),
        conn_eq(y, z),
    ensures
        conn_eq(x, z),
{
}

impl PartialEq for KnownConnection {
    fn eq(&self, other: &Self) -> (r: bool) {
        (self.a == other.a && self.b == other.b) || (self.a == other.b && self.b == other.a)
    }
}

impl vstd::std_specs::cmp::PartialEqSpecImpl for KnownConnection {
    open spec fn obeys_eq_spec() -> bool {
        true
    }

    open spec fn eq_spec(&self, other: &KnownConnection) -> bool {
        conn_eq(*self, *other)
    }
}

impl Eq for KnownConnection {

}

impl KnownConnection {
    /// A connection between two endpoints, seen now.
    pub fn new(a: NodeAddr, b: NodeAddr, now: u64) -> (r: KnownConnection)
        ensures
            r == (KnownConnection { a, b, last_seen: now }),
    {
        KnownConnection { a, b, last_seen: now }
    }
}

/// A total order on endpoints: by the packed IP words, then the port.
pub open spec fn addr_le(x: NodeAddr, y: NodeAddr) -> bool {
    if x.ip_hi != y.ip_hi {
        x.ip_hi < y.ip_hi
    } else if x.ip_lo != y.ip_lo {
        x.ip_lo < y.ip_lo
    } else {
        x.port <= y.port
    }
}

/// The canonical key of a connection: its endpoints in order. Two
/// connections are `conn_eq` exactly when their keys agree, so any
/// fingerprint drawn from the key is symmetric in the endpoints.
pub open spec fn conn_key(c: KnownConnection) -> (NodeAddr, NodeAddr) {
    if addr_le(c.a, c.b) {
        (c.a, c.b)
    } else {
        (c.b, c.a)
    }
}

/// Connection symmetry: `(a, b)` and `(b, a)` are the same connection,
/// and their canonical keys, hence any fingerprints drawn from them,
/// agree.
pub proof fn lemma_connection_symmetry(a: NodeAddr, b: NodeAddr, t1: u64, t2: u64)
    ensures
        conn_eq(KnownConnection { a, b, last_seen: t1 }, KnownConnection { b, a, last_seen: t2 }),
        conn_key(KnownConnection { a, b, last_seen: t1 }) == conn_key(
            KnownConnection { b, a, last_seen: t2 },
        ),
{
}

/// Equal connections have equal canonical keys, and conversely.
pub proof fn lemma_conn_eq_iff_key_eq(x: KnownConnection, y: KnownConnection)
    ensures
        conn_eq(x, y) <==> conn_key(x) == conn_key(y),
{
}

/// The list of nodes and connections the crawler is aware of.
pub struct KnownNetwork {
    nodes: Vec<(NodeAddr, KnownNode)>,
    connections: Vec<KnownConnection>,
}

impl KnownNetwork {
    /// The raw node entries (module-internal).
    closed spec fn nodes_seq(self) -> Seq<(NodeAddr, KnownNode)> {
        self.nodes@
    }

    /// The node map as a sequence of keyed records.
    pub closed spec fn nodes_view(self) -> Seq<(NodeAddr, KnownNodeV)> {
        self.nodes@.map_values(|p: (NodeAddr, KnownNode)| (p.0, p.1@))
    }

    /// The observed connections.
    pub closed spec fn conns_view(self) -> Seq<KnownConnection> {
        self.connections@
    }

    /// Whether an address stands in the node map.
    pub closed spec fn spec_has_node(self, a: NodeAddr) -> bool {
        exists|i: int| 0 <= i < self.nodes@.len() && (#[trigger] self.nodes@[i]).0 == a
    }

    /// Whether the unordered pair `{a, b}` stands among the connections.
    pub closed spec fn spec_has_conn(self, a: NodeAddr, b: NodeAddr) -> bool {
        exists|i: int|
            0 <= i < self.connections@.len() && conn_matches(
                #[trigger] self.connections@[i],
                a,
                b,
            )
    }

    /// The structural invariant: node keys are unique, connections are
    /// pairwise distinct as unordered pairs, and every connection's
    /// endpoints stand in the node map.
    pub closed spec fn wf(self) -> bool {
        &&& forall|i: int, j: int|
            0 <= i < j < self.nodes@.len() ==> (#[trigger] self.nodes@[i]).0 != (
            #[trigger] self.nodes@[j]).0
        &&& forall|i: int, j: int|
            0 <= i < j < self.connections@.len() ==> !conn_eq(
                #[trigger] self.connections@[i],
                #[trigger] self.connections@[j],
            )
        &&& forall|i: int|
            0 <= i < self.connections@.len() ==> self.spec_has_node(
                (#[trigger] self.connections@[i]).a,
            ) && self.spec_has_node(self.connections@[i].b)
    }

    /// An empty map of the network.
    pub fn new() -> (r: KnownNetwork)
        ensures
            r.wf(),
            r.nodes_view() == Seq::<(NodeAddr, KnownNodeV)>::empty(),
            r.conns_view() == Seq::<KnownConnection>::empty(),
    {
        let r = KnownNetwork { nodes: Vec::new(), connections: Vec::new() };
        proof {
            assert(r.nodes_view() =~= Seq::<(NodeAddr, KnownNodeV)>::empty());
        }
        r
    }

    /// The position of an address in the node map, if it stands there.
    fn find_node(&self, addr: NodeAddr) -> (r: Option<usize>)
        ensures
            match r {
                Some(i) => i < self.nodes@.len() && self.nodes@[i as int].0 == addr,
                None => !self.spec_has_node(addr),
            },
    {
        let n = self.nodes.len();
        for i in 0..n
            invariant
                n == self.nodes@.len(),
                forall|j: int| 0 <= j < i ==> (#[trigger] self.nodes@[j]).0 != addr,
        {
            if self.nodes[i].0 == addr {
                return Some(i);
            }
        }
        None
    }

    /// The position of the unordered pair `{a, b}` among the connections,
    /// if it stands there.
    fn find_conn(&self, a: NodeAddr, b: NodeAddr) -> (r: Option<usize>)
        ensures
            match r {
                Some(i) => i < self.connections@.len() && conn_matches(
                    self.connections@[i as int],
                    a,
                    b,
                ),
                None => !self.spec_has_conn(a, b),
            },
    {
        let n = self.connections.len();
        for i in 0..n
            invariant
                n == self.connections@.len(),
                forall|j: int| 0 <= j < i ==> !conn_matches(#[trigger] self.connections@[j], a, b),
        {
            let c = self.connections[i];
            if (c.a == a && c.b == b) || (c.a == b && c.b == a) {
                return Some(i);
            }
        }
        None
    }

    /// Puts an address into the node map with a default record, if it is
    /// not there yet. Existing records and all connections stand as they
    /// were.
    fn insert_node_default(&mut self, addr: NodeAddr)
        requires
            old(self).wf(),
        ensures
            final(self).wf(),
            final(self).connections@ == old(self).connections@,
            old(self).nodes@.len() <= final(self).nodes@.len() <= old(self).nodes@.len() + 1,
            forall|j: int|
                0 <= j < old(self).nodes@.len() ==> #[trigger] final(self).nodes@[j]
                    == old(self).nodes@[j],
            final(self).spec_has_node(addr),
            forall|a: NodeAddr|
                #[trigger] final(self).spec_has_node(a) <==> old(self).spec_has_node(a) || a
                    == addr,
            forall|j: int|
                old(self).nodes@.len() <= j < final(self).nodes@.len()
                    ==> (#[trigger] final(self).nodes@[j]).0 == addr
                    && final(self).nodes@[j].1@ == default_node(),
    {
        match self.find_node(addr) {
            Some(_) => {},
            None => {
                self.nodes.push((addr, KnownNode::default()));
                assert forall|a: NodeAddr|
                    #[trigger] self.spec_has_node(a) <==> old(self).spec_has_node(a) || a
                        == addr by {
                    if self.spec_has_node(a) {
                        let i = choose|i: int|
                            0 <= i < self.nodes@.len() && (#[trigger] self.nodes@[i]).0 == a;
                        if i < old(self).nodes@.len() {
                            assert(old(self).nodes@[i].0 == a);
                        }
                    }
                    if old(self).spec_has_node(a) {
                        let i = choose|i: int|
                            0 <= i < old(self).nodes@.len() && (#[trigger] old(self).nodes@[i]).0
                                == a;
                        assert(self.nodes@[i].0 == a);
                    }
                    if a == addr {
                        assert(self.nodes@[self.nodes@.len() - 1].0 == a);
                    }
                }
            },
        }
    }

    /// Extends the node map with every endpoint of every known
    /// connection. Connections and existing records stand as they were.
    pub fn update_nodes(&mut self)
        requires
            old(self).wf(),
        ensures
            final(self).wf(),
            final(self).conns_view() == old(self).conns_view(),
            forall|j: int|
                0 <= j < old(self).nodes_view().len() ==> #[trigger] final(self).nodes_view()[j]
                    == old(self).nodes_view()[j],
            final(self).nodes_view().len() >= old(self).nodes_view().len(),
            forall|a: NodeAddr|
                #[trigger] final(self).spec_has_node(a) <==> old(self).spec_has_node(a),
    {
        let n = self.connections.len();
        for i in 0..n
            invariant
                self.wf(),
                n == self.connections@.len(),
                self.connections@ == old(self).connections@,
                forall|j: int|
                    0 <= j < old(self).nodes@.len() ==> #[trigger] self.nodes@[j]
                        == old(self).nodes@[j],
                self.nodes@.len() >= old(self).nodes@.len(),
                forall|a: NodeAddr|
                    #[trigger] self.spec_has_node(a) <==> old(self).spec_has_node(a),
        {
            let c = self.connections[i];
            proof {
                assert(old(self).spec_has_node(c.a) && old(self).spec_has_node(c.b));
            }
            self.insert_node_default(c.a);
            self.insert_node_default(c.b);
        }
    }

    /// Whether a listed address pair got a fresh connection entry.
    pub open spec fn fresh_conn_at(self, a: NodeAddr, b: NodeAddr, now: u64) -> bool {
        exists|j: int|
            0 <= j < self.conns_view().len() && conn_matches(#[trigger] self.conns_view()[j], a, b)
                && self.conns_view()[j].last_seen == now
    }

    /// Inserts the connection `{source, addr}` seen `now`, or refreshes it
    /// if an entry with those endpoints already stands. The node map is
    /// untouched; every other connection keeps its value.
    fn upsert_conn(&mut self, source: NodeAddr, addr: NodeAddr, now: u64)
        requires
            old(self).wf(),
            old(self).spec_has_node(source),
            old(self).spec_has_node(addr),
        ensures
            final(self).wf(),
            final(self).nodes@ == old(self).nodes@,
            final(self).fresh_conn_at(source, addr, now),
            forall|k: int|
                0 <= k < old(self).connections@.len() ==> conn_in(
                    final(self).connections@,
                    #[trigger] old(self).connections@[k],
                ),
            forall|k: int|
                0 <= k < old(self).connections@.len() && !conn_matches(
                    #[trigger] old(self).connections@[k],
                    source,
                    addr,
                ) ==> entry_in(final(self).connections@, old(self).connections@[k]),
            forall|j: int|
                0 <= j < final(self).connections@.len() ==> entry_in(
                    old(self).connections@,
                    #[trigger] final(self).connections@[j],
                ) || conn_matches(final(self).connections@[j], source, addr),
    {
        let ghost pre = self.connections@;
        let fresh = KnownConnection { a: source, b: addr, last_seen: now };
        match self.find_conn(source, addr) {
            Some(j0) => {
                self.connections.set(j0, fresh);
                proof {
                    let cur = self.connections@;
                    assert(conn_matches(pre[j0 as int], source, addr));
                    assert(cur[j0 as int] == fresh);
                    assert(self.conns_view()[j0 as int] == fresh);
                    assert(conn_matches(self.conns_view()[j0 as int], source, addr)
                        && self.conns_view()[j0 as int].last_seen == now);
                    assert(self.fresh_conn_at(source, addr, now));
                    assert(self.nodes_seq() == old(self).nodes_seq());
                    assert forall|i2: int|
                        0 <= i2 < cur.len() implies self.spec_has_node((#[trigger] cur[i2]).a)
                        && self.spec_has_node(cur[i2].b) by {
                        if i2 != j0 {
                            assert(cur[i2] == pre[i2]);
                            lemma_same_nodes_same_has(*old(self), *self, pre[i2].a);
                            lemma_same_nodes_same_has(*old(self), *self, pre[i2].b);
                        } else {
                            lemma_same_nodes_same_has(*old(self), *self, source);
                            lemma_same_nodes_same_has(*old(self), *self, addr);
                        }
                    }
                    assert forall|k: int|
                        0 <= k < pre.len() implies conn_in(cur, #[trigger] pre[k]) by {
                        if k == j0 {
                            assert(conn_eq(cur[j0 as int], pre[k]));
                        } else {
                            assert(conn_eq(cur[k], pre[k]));
                        }
                    }
                    assert forall|k: int|
                        0 <= k < pre.len() && !conn_matches(
                            #[trigger] pre[k],
                            source,
                            addr,
                        ) implies entry_in(cur, pre[k]) by {
                        assert(k != j0);
                        assert(cur[k] == pre[k]);
                    }
                    assert forall|j: int|
                        0 <= j < cur.len() implies entry_in(pre, #[trigger] cur[j])
                        || conn_matches(cur[j], source, addr) by {
                        if j != j0 {
                            assert(pre[j] == cur[j]);
                        }
                    }
                    assert forall|p: int, q: int|
                        0 <= p < q < cur.len() implies !conn_eq(
                        #[trigger] cur[p],
                        #[trigger] cur[q],
                    ) by {
                        if p == j0 {
                            assert(!conn_eq(pre[p], pre[q]));
                            assert(conn_eq(cur[p], pre[p]));
                        } else if q == j0 {
                            assert(!conn_eq(pre[p], pre[q]));
                            assert(conn_eq(cur[q], pre[q]));
                        }
                    }
                }
            },
            None => {
                self.connections.push(fresh);
                proof {
                    let cur = self.connections@;
                    let nlen = cur.len() - 1;
                    assert(cur[nlen] == fresh);
                    assert(self.conns_view()[nlen] == fresh);
                    assert(conn_matches(self.conns_view()[nlen], source, addr)
                        && self.conns_view()[nlen].last_seen == now);
                    assert(self.fresh_conn_at(source, addr, now));
                    assert(self.nodes_seq() == old(self).nodes_seq());
                    assert forall|i2: int|
                        0 <= i2 < cur.len() implies self.spec_has_node((#[trigger] cur[i2]).a)
                        && self.spec_has_node(cur[i2].b) by {
                        if i2 < nlen {
                            assert(cur[i2] == pre[i2]);
                            lemma_same_nodes_same_has(*old(self), *self, pre[i2].a);
                            lemma_same_nodes_same_has(*old(self), *self, pre[i2].b);
                        } else {
                            lemma_same_nodes_same_has(*old(self), *self, source);
                            lemma_same_nodes_same_has(*old(self), *self, addr);
                        }
                    }
                    assert forall|k: int|
                        0 <= k < pre.len() implies conn_in(cur, #[trigger] pre[k]) by {
                        assert(conn_eq(cur[k], pre[k]));
                    }
                    assert forall|k: int|
                        0 <= k < pre.len() && !conn_matches(
                            #[trigger] pre[k],
                            source,
                            addr,
                        ) implies entry_in(cur, pre[k]) by {
                        assert(cur[k] == pre[k]);
                    }
                    assert forall|j: int|
                        0 <= j < cur.len() implies entry_in(pre, #[trigger] cur[j])
                        || conn_matches(cur[j], source, addr) by {
                        if j < nlen {
                            assert(pre[j] == cur[j]);
                        }
                    }
                    assert forall|p: int, q: int|
                        0 <= p < q < cur.len() implies !conn_eq(
                        #[trigger] cur[p],
                        #[trigger] cur[q],
                    ) by {
                        if q == nlen {
                            assert(!conn_matches(pre[p], source, addr));
                            assert(cur[p] == pre[p]);
                        }
                    }
                }
            },
        }
    }

    /// Extends the known network with gossip heard from `source`: for each
    /// listed address, the connection `{source, addr}` is inserted, or its
    /// `last_seen` refreshed to `now` if it was already known; `source` and
    /// every listed address are upserted into the node map. No connection
    /// is dropped, none is invented, and existing node records are
    /// untouched.
    #[verifier::rlimit(100)]
    #[verifier::spinoff_prover]
    pub fn add_addrs(&mut self, source: NodeAddr, listening_addrs: &Vec<NodeAddr>, now: u64)
        requires
            old(self).wf(),
        ensures
            final(self).wf(),
            forall|i: int|
                0 <= i < listening_addrs@.len() ==> final(self).fresh_conn_at(
                    source,
                    #[trigger] listening_addrs@[i],
                    now,
                ),
            forall|k: int|
                0 <= k < old(self).conns_view().len() ==> conn_in(
                    final(self).conns_view(),
                    #[trigger] old(self).conns_view()[k],
                ),
            forall|j: int|
                0 <= j < final(self).conns_view().len() ==> entry_in(
                    old(self).conns_view(),
                    #[trigger] final(self).conns_view()[j],
                ) || pair_listed(source, listening_addrs@, final(self).conns_view()[j]),
            final(self).spec_has_node(source),
            forall|i: int|
                0 <= i < listening_addrs@.len() ==> final(self).spec_has_node(
                    #[trigger] listening_addrs@[i],
                ),
            forall|a: NodeAddr|
                #[trigger] final(self).spec_has_node(a) <==> old(self).spec_has_node(a) || a
                    == source || listening_addrs@.contains(a),
            forall|j: int|
                0 <= j < old(self).nodes_view().len() ==> #[trigger] final(self).nodes_view()[j]
                    == old(self).nodes_view()[j],
            forall|j: int|
                old(self).nodes_view().len() <= j < final(self).nodes_view().len() ==> (
                #[trigger] final(self).nodes_view()[j]).1 == default_node(),
    {
        let ghost conns0 = self.connections@;
        let ghost nodes0 = self.nodes@;
        self.insert_node_default(source);
        proof {
            assert forall|k: int|
                0 <= k < conns0.len() implies conn_in(
                self.connections@,
                #[trigger] conns0[k],
            ) by {
                assert(conn_eq(self.connections@[k], conns0[k]));
            }
            assert forall|j: int|
                0 <= j < self.connections@.len() implies entry_in(
                conns0,
                #[trigger] self.connections@[j],
            ) by {
                assert(conns0[j] == self.connections@[j]);
            }
        }
        let n = listening_addrs.len();
        for i in 0..n
            invariant
                self.wf(),
                n == listening_addrs@.len(),
                forall|t: int|
                    0 <= t < i ==> self.fresh_conn_at(source, #[trigger] listening_addrs@[t], now),
                forall|k: int|
                    0 <= k < conns0.len() ==> conn_in(self.connections@, #[trigger] conns0[k]),
                forall|j: int|
                    0 <= j < self.connections@.len() ==> entry_in(
                        conns0,
                        #[trigger] self.connections@[j],
                    ) || pair_listed(source, listening_addrs@.take(i as int), self.connections@[j]),
                self.spec_has_node(source),
                forall|t: int| 0 <= t < i ==> self.spec_has_node(#[trigger] listening_addrs@[t]),
                forall|a: NodeAddr|
                    #[trigger] self.spec_has_node(a) <==> (exists|k: int|
                        0 <= k < nodes0.len() && (#[trigger] nodes0[k]).0 == a) || a == source || (
                    exists|t: int| 0 <= t < i && listening_addrs@[t] == a),
                nodes0.len() <= self.nodes@.len(),
                forall|j: int| 0 <= j < nodes0.len() ==> #[trigger] self.nodes@[j] == nodes0[j],
                forall|j: int|
                    nodes0.len() <= j < self.nodes@.len() ==> (#[trigger] self.nodes@[j]).1@
                        == default_node(),
        {
            let addr = listening_addrs[i];
            self.insert_node_default(addr);
            let ghost mid = *self;
            let ghost pre = self.connections@;
            self.upsert_conn(source, addr, now);
            proof {
                let cur = self.connections@;
                assert(self.nodes_seq() == mid.nodes_seq());
                assert forall|a: NodeAddr|
                    #[trigger] self.spec_has_node(a) <==> mid.spec_has_node(a) by {
                    if self.spec_has_node(a) {
                        lemma_same_nodes_same_has(*self, mid, a);
                    }
                    if mid.spec_has_node(a) {
                        lemma_same_nodes_same_has(mid, *self, a);
                    }
                }
                assert forall|t: int|
                    0 <= t < i + 1 implies self.fresh_conn_at(
                    source,
                    #[trigger] listening_addrs@[t],
                    now,
                ) by {
                    if t < i {
                        let w = choose|w: int|
                            0 <= w < pre.len() && conn_matches(
                                #[trigger] pre[w],
                                source,
                                listening_addrs@[t],
                            ) && pre[w].last_seen == now;
                        if conn_matches(pre[w], source, addr) {
                            let f = choose|f: int|
                                0 <= f < cur.len() && conn_matches(
                                    #[trigger] cur[f],
                                    source,
                                    addr,
                                ) && cur[f].last_seen == now;
                            assert(conn_matches(cur[f], source, listening_addrs@[t])
                                && cur[f].last_seen == now);
                        } else {
                            let w2 = choose|w2: int|
                                0 <= w2 < cur.len() && #[trigger] cur[w2] == pre[w];
                            assert(conn_matches(cur[w2], source, listening_addrs@[t])
                                && cur[w2].last_seen == now);
                        }
                    }
                }
                assert forall|k: int|
                    0 <= k < conns0.len() implies conn_in(cur, #[trigger] conns0[k]) by {
                    let w = choose|w: int|
                        0 <= w < pre.len() && conn_eq(#[trigger] pre[w], conns0[k]);
                    let f = choose|f: int| 0 <= f < cur.len() && conn_eq(#[trigger] cur[f], pre[w]);
                    lemma_conn_eq_trans(cur[f], pre[w], conns0[k]);
                }
                assert forall|a: NodeAddr|
                    #[trigger] self.spec_has_node(a) <==> (exists|k: int|
                        0 <= k < nodes0.len() && (#[trigger] nodes0[k]).0 == a) || a == source || (
                    exists|t: int| 0 <= t < i + 1 && listening_addrs@[t] == a) by {
                    assert(mid.spec_has_node(a) <==> (exists|k: int|
                        0 <= k < nodes0.len() && (#[trigger] nodes0[k]).0 == a) || a == source || (
                    exists|t: int| 0 <= t < i && listening_addrs@[t] == a) || a == addr);
                    if a == listening_addrs@[i as int] {
                        assert(0 <= i < i + 1 && listening_addrs@[i as int] == a);
                    }
                    if exists|t: int| 0 <= t < i + 1 && listening_addrs@[t] == a {
                        let t = choose|t: int| 0 <= t < i + 1 && listening_addrs@[t] == a;
                        if t < i {
                            assert(mid.spec_has_node(a));
                        } else {
                            assert(a == addr);
                        }
                    }
                }
                assert forall|t: int|
                    0 <= t < i + 1 implies self.spec_has_node(#[trigger] listening_addrs@[t]) by {
                    assert(0 <= t < i + 1 && listening_addrs@[t] == listening_addrs@[t]);
                }
                assert forall|j: int|
                    0 <= j < cur.len() implies entry_in(conns0, #[trigger] cur[j]) || pair_listed(
                    source,
                    listening_addrs@.take(i + 1),
                    cur[j],
                ) by {
                    if entry_in(pre, cur[j]) {
                        let w = choose|w: int| 0 <= w < pre.len() && #[trigger] pre[w] == cur[j];
                        if !entry_in(conns0, pre[w]) {
                            let t = choose|t: int|
                                0 <= t < listening_addrs@.take(i as int).len() && conn_matches(
                                    pre[w],
                                    source,
                                    #[trigger] listening_addrs@.take(i as int)[t],
                                );
                            assert(listening_addrs@.take(i + 1)[t] == listening_addrs@[t]);
                            assert(conn_matches(cur[j], source, listening_addrs@.take(i + 1)[t]));
                        }
                    } else {
                        assert(conn_matches(cur[j], source, addr));
                        assert(listening_addrs@.take(i + 1)[i as int] == listening_addrs@[i as int]);
                        assert(conn_matches(cur[j], source, listening_addrs@.take(i + 1)[i as int]));
                    }
                }
            }
        }
        proof {
            assert(listening_addrs@.take(n as int) =~= listening_addrs@);
            assert forall|a: NodeAddr|
                #[trigger] final(self).spec_has_node(a) <==> old(self).spec_has_node(a) || a
                    == source || listening_addrs@.contains(a) by {
                if listening_addrs@.contains(a) {
                    let t = choose|t: int|
                        0 <= t < listening_addrs@.len() && #[trigger] listening_addrs@[t] == a;
                    assert(0 <= t < n && listening_addrs@[t] == a);
                }
            }
        }
    }

    /// A snapshot of the known connections.
    pub fn connections(&self) -> (r: Vec<KnownConnection>)
        ensures
            r@ == self.conns_view(),
    {
        let mut r: Vec<KnownConnection> = Vec::new();
        let n = self.connections.len();
        for i in 0..n
            invariant
                n == self.connections@.len(),
                r@ == self.connections@.take(i as int),
        {
            r.push(self.connections[i]);
            assert(r@ =~= self.connections@.take(i + 1));
        }
        assert(self.connections@.take(n as int) =~= self.connections@);
        r
    }

    /// A snapshot of the known nodes, as keyed records.
    pub fn nodes(&self) -> (r: Vec<(NodeAddr, KnownNode)>)
        ensures
            r@.len() == self.nodes_view().len(),
            forall|j: int|
                0 <= j < r@.len() ==> ((#[trigger] r@[j]).0, r@[j].1@) == self.nodes_view()[j],
    {
        let mut r: Vec<(NodeAddr, KnownNode)> = Vec::new();
        let n = self.nodes.len();
        for i in 0..n
            invariant
                n == self.nodes@.len(),
                r@.len() == i,
                forall|j: int|
                    0 <= j < i ==> ((#[trigger] r@[j]).0, r@[j].1@) == (
                    self.nodes@[j].0,
                    self.nodes@[j].1@,
                ),
        {
            let entry = &self.nodes[i];
            let node = KnownNode {
                last_connected: entry.1.last_connected,
                last_attempt: entry.1.last_attempt,
                handshake_time: entry.1.handshake_time,
                protocol_version: entry.1.protocol_version,
                user_agent: match &entry.1.user_agent {
                    Some(ua) => Some(VarStr(clone_bytes(&ua.0))),
                    None => None,
                },
                services: entry.1.services,
                connection_failures: entry.1.connection_failures,
            };
            r.push((entry.0, node));
        }
        r
    }

    /// The number of known connections.
    pub fn num_connections(&self) -> (r: usize)
        ensures
            r == self.conns_view().len(),
    {
        self.connections.len()
    }

    /// The number of known nodes.
    pub fn num_nodes(&self) -> (r: usize)
        ensures
            r == self.nodes_view().len(),
    {
        self.nodes.len()
    }

    /// Prunes the connections last seen more than `LAST_SEEN_CUTOFF`
    /// seconds ago: exactly the fresh ones stay, with their values, and
    /// the node map is untouched.
    pub fn remove_old_connections(&mut self, now: u64)
        requires
            old(self).wf(),
        ensures
            final(self).wf(),
            forall|j: int|
                0 <= j < final(self).conns_view().len() ==> conn_fresh(
                    #[trigger] final(self).conns_view()[j],
                    now,
                ) && entry_in(old(self).conns_view(), final(self).conns_view()[j]),
            forall|k: int|
                0 <= k < old(self).conns_view().len() && conn_fresh(
                    #[trigger] old(self).conns_view()[k],
                    now,
                ) ==> entry_in(final(self).conns_view(), old(self).conns_view()[k]),
            final(self).nodes_view() == old(self).nodes_view(),
    {
        let mut kept: Vec<KnownConnection> = Vec::new();
        let n = self.connections.len();
        for i in 0..n
            invariant
                n == self.connections@.len(),
                self.wf(),
                self.connections@ == old(self).connections@,
                self.nodes@ == old(self).nodes@,
                forall|j: int| 0 <= j < kept@.len() ==> conn_fresh(#[trigger] kept@[j], now),
                forall|j: int|
                    0 <= j < kept@.len() ==> in_prefix(
                        self.connections@,
                        i as int,
                        #[trigger] kept@[j],
                    ),
                forall|k: int|
                    0 <= k < i && conn_fresh(#[trigger] self.connections@[k], now) ==> entry_in(
                        kept@,
                        self.connections@[k],
                    ),
                forall|p: int, q: int|
                    0 <= p < q < kept@.len() ==> !conn_eq(#[trigger] kept@[p], #[trigger] kept@[q]),
        {
            let c = self.connections[i];
            let keep = if now >= c.last_seen {
                now - c.last_seen <= LAST_SEEN_CUTOFF
            } else {
                true
            };
            proof {
                assert(keep == conn_fresh(c, now));
            }
            let ghost kept_pre = kept@;
            if keep {
                kept.push(c);
                proof {
                    let nlen = kept@.len() - 1;
                    assert(kept@[nlen] == self.connections@[i as int]);
                    assert forall|j: int|
                        0 <= j < kept@.len() implies in_prefix(
                        self.connections@,
                        i + 1,
                        #[trigger] kept@[j],
                    ) by {
                        if j < nlen {
                            let w = choose|w: int|
                                0 <= w < i && #[trigger] self.connections@[w] == kept_pre[j];
                            assert(self.connections@[w] == kept@[j]);
                        } else {
                            assert(self.connections@[i as int] == kept@[j]);
                        }
                    }
                    assert forall|k: int|
                        0 <= k < i + 1 && conn_fresh(
                            #[trigger] self.connections@[k],
                            now,
                        ) implies entry_in(kept@, self.connections@[k]) by {
                        if k < i {
                            let w = choose|w: int|
                                0 <= w < kept_pre.len() && #[trigger] kept_pre[w]
                                    == self.connections@[k];
                            assert(kept@[w] == self.connections@[k]);
                        } else {
                            assert(kept@[nlen] == self.connections@[k]);
                        }
                    }
                    assert forall|p: int, q: int|
                        0 <= p < q < kept@.len() implies !conn_eq(
                        #[trigger] kept@[p],
                        #[trigger] kept@[q],
                    ) by {
                        if q == nlen {
                            let w = choose|w: int|
                                0 <= w < i && #[trigger] self.connections@[w] == kept_pre[p];
                            assert(!conn_eq(self.connections@[w], self.connections@[i as int]));
                        }
                    }
                }
            } else {
                proof {
                    assert forall|k: int|
                        0 <= k < i + 1 && conn_fresh(
                            #[trigger] self.connections@[k],
                            now,
                        ) implies entry_in(kept@, self.connections@[k]) by {
                        if k < i {
                            let w = choose|w: int|
                                0 <= w < kept_pre.len() && #[trigger] kept_pre[w]
                                    == self.connections@[k];
                            assert(kept@[w] == self.connections@[k]);
                        } else {
                            assert(!conn_fresh(self.connections@[k], now));
                        }
                    }
                }
            }
        }
        let ghost conns_old = self.connections@;
        self.connections = kept;
        proof {
            assert forall|j: int|
                0 <= j < self.connections@.len() implies entry_in(
                conns_old,
                #[trigger] self.connections@[j],
            ) && self.spec_has_node(self.connections@[j].a) && self.spec_has_node(
                self.connections@[j].b,
            ) by {
                assert(in_prefix(conns_old, n as int, self.connections@[j]));
                let k = choose|k: int| 0 <= k < n && #[trigger] conns_old[k]
                    == self.connections@[j];
                assert(conns_old[k] == self.connections@[j]);
                assert(old(self).spec_has_node(conns_old[k].a));
                assert(old(self).spec_has_node(conns_old[k].b));
                assert(self.nodes_seq() == old(self).nodes_seq());
                lemma_same_nodes_same_has(*old(self), *self, conns_old[k].a);
                lemma_same_nodes_same_has(*old(self), *self, conns_old[k].b);
            }
            assert(self.nodes_view() =~= old(self).nodes_view());
        }
    }

    /// The record under an address, or the default record if the address
    /// is unknown.
    pub closed spec fn record_of(self, a: NodeAddr) -> KnownNodeV {
        if self.spec_has_node(a) {
            let i = choose|i: int| 0 <= i < self.nodes@.len() && (#[trigger] self.nodes@[i]).0 == a;
            self.nodes@[i].1@
        } else {
            default_node()
        }
    }

    /// Each entry of the node map carries the record that `record_of`
    /// reads under its key.
    pub proof fn lemma_nodes_view_record(self, j: int)
        requires
            self.wf(),
            0 <= j < self.nodes_view().len(),
        ensures
            self.record_of(self.nodes_view()[j].0) == self.nodes_view()[j].1,
    {
        let a = self.nodes@[j].0;
        assert(self.spec_has_node(a));
        let w = choose|i: int| 0 <= i < self.nodes@.len() && (#[trigger] self.nodes@[i]).0 == a;
        if w != j {
            assert(false);
        }
    }

    /// Whether to try connecting to a node now: only if it is not already
    /// connected, has not failed too often, and its last attempt is older
    /// than the exponential backoff.
    pub fn should_connect(&self, addr: NodeAddr, connected: bool, now: u64) -> (r: bool)
        requires
            self.wf(),
        ensures
            r == spec_should_connect(self.record_of(addr), connected, now),
    {
        if connected {
            return false;
        }
        let (failures, last_attempt) = match self.find_node(addr) {
            Some(i) => {
                proof {
                    self.lemma_nodes_view_record(i as int);
                }
                (self.nodes[i].1.connection_failures, self.nodes[i].1.last_attempt)
            },
            None => (0u8, None),
        };
        if failures >= MAX_CONNECTION_FAILURES {
            return false;
        }
        match last_attempt {
            None => true,
            Some(t) => {
                let mut b: u64 = RETRY_BASE_SECS;
                let mut j: u8 = 0;
                while j < failures
                    invariant
                        j <= failures < MAX_CONNECTION_FAILURES,
                        b == RETRY_BASE_SECS * pow2(j as nat),
                        b <= 480,
                    decreases failures - j,
                {
                    proof {
                        lemma_pow2_bound(j as nat);
                        lemma_pow2_bound((j + 1) as nat);
                    }
                    b = b * 2;
                    j = j + 1;
                }
                if now < t {
                    false
                } else {
                    now - t >= b
                }
            },
        }
    }

    /// Marks one more consecutive failure to connect to `addr`, counting
    /// saturated at the top, and stamps the attempt time. Everything else
    /// stands as it was.
    pub fn record_connection_failure(&mut self, addr: NodeAddr, now: u64)
        requires
            old(self).wf(),
        ensures
            final(self).wf(),
            final(self).conns_view() == old(self).conns_view(),
            final(self).spec_has_node(addr),
            forall|a: NodeAddr|
                #[trigger] final(self).spec_has_node(a) <==> old(self).spec_has_node(a) || a
                    == addr,
            final(self).record_of(addr) == (KnownNodeV {
                last_attempt: Some(now),
                connection_failures: if old(self).record_of(addr).connection_failures < 255 {
                    (old(self).record_of(addr).connection_failures + 1) as u8
                } else {
                    255u8
                },
                ..old(self).record_of(addr)
            }),
            forall|a: NodeAddr|
                a != addr ==> #[trigger] final(self).record_of(a) == old(self).record_of(a),
    {
        let rec = self.take_record(addr);
        let failures = if rec.connection_failures < 255 {
            rec.connection_failures + 1
        } else {
            255
        };
        let updated = KnownNode { last_attempt: Some(now), connection_failures: failures, ..rec };
        self.put_record(addr, updated);
    }

    /// Marks a successful connection to `addr`: stamps the time and clears
    /// the failure count. Everything else stands as it was.
    pub fn record_connection_success(&mut self, addr: NodeAddr, now: u64)
        requires
            old(self).wf(),
        ensures
            final(self).wf(),
            final(self).conns_view() == old(self).conns_view(),
            final(self).spec_has_node(addr),
            forall|a: NodeAddr|
                #[trigger] final(self).spec_has_node(a) <==> old(self).spec_has_node(a) || a
                    == addr,
            final(self).record_of(addr) == (KnownNodeV {
                last_connected: Some(now),
                connection_failures: 0,
                ..old(self).record_of(addr)
            }),
            forall|a: NodeAddr|
                a != addr ==> #[trigger] final(self).record_of(a) == old(self).record_of(a),
    {
        let rec = self.take_record(addr);
        let updated = KnownNode { last_connected: Some(now), connection_failures: 0, ..rec };
        self.put_record(addr, updated);
    }

    /// Records what a peer's `version` statement said of it, and how long
    /// its handshake took. Everything else stands as it was.
    pub fn record_version(
        &mut self,
        addr: NodeAddr,
        protocol_version: u32,
        user_agent: VarStr,
        services: u64,
        handshake_time_ms: u64,
    )
        requires
            old(self).wf(),
        ensures
            final(self).wf(),
            final(self).conns_view() == old(self).conns_view(),
            final(self).spec_has_node(addr),
            forall|a: NodeAddr|
                #[trigger] final(self).spec_has_node(a) <==> old(self).spec_has_node(a) || a
                    == addr,
            final(self).record_of(addr) == (KnownNodeV {
                protocol_version: Some(protocol_version),
                user_agent: Some(user_agent@),
                services: Some(services),
                handshake_time: Some(handshake_time_ms),
                ..old(self).record_of(addr)
            }),
            forall|a: NodeAddr|
                a != addr ==> #[trigger] final(self).record_of(a) == old(self).record_of(a),
    {
        let rec = self.take_record(addr);
        let updated = KnownNode {
            protocol_version: Some(protocol_version),
            user_agent: Some(user_agent),
            services: Some(services),
            handshake_time: Some(handshake_time_ms),
            ..rec
        };
        self.put_record(addr, updated);
    }

    /// Removes and returns the record under `addr`, or a default record if
    /// the address is unknown; `put_record` puts its successor back.
    fn take_record(&mut self, addr: NodeAddr) -> (r: KnownNode)
        requires
            old(self).wf(),
        ensures
            r@ == old(self).record_of(addr),
            final(self).wf(),
            final(self).connections@ == old(self).connections@,
            forall|j: int|
                0 <= j < old(self).nodes@.len() ==> #[trigger] final(self).nodes@[j] == old(
                    self,
                ).nodes@[j],
            final(self).spec_has_node(addr),
            final(self).nodes@[final(self).node_index(addr)].0 == addr,
            forall|a: NodeAddr|
                #[trigger] final(self).spec_has_node(a) <==> old(self).spec_has_node(a) || a
                    == addr,
            forall|a: NodeAddr|
                a != addr ==> #[trigger] final(self).record_of(a) == old(self).record_of(a),
    {
        self.insert_node_default(addr);
        let i = match self.find_node(addr) {
            Some(i) => i,
            None => {
                proof {
                    assert(false);
                }
                0
            },
        };
        proof {
            self.lemma_nodes_view_record(i as int);
            if old(self).spec_has_node(addr) {
                let w = choose|w: int|
                    0 <= w < old(self).nodes@.len() && (#[trigger] old(self).nodes@[w]).0 == addr;
                assert(self.nodes@[w] == old(self).nodes@[w]);
                if i != w {
                    assert(false);
                }
                assert(old(self).record_of(addr) == old(self).nodes@[
                    choose|k: int|
                        0 <= k < old(self).nodes@.len() && (#[trigger] old(self).nodes@[k]).0
                            == addr
                ].1@);
                old(self).lemma_record_unique(addr, w);
            }
            assert forall|a: NodeAddr|
                a != addr implies #[trigger] final(self).record_of(a) == old(self).record_of(
                a,
            ) by {
                self.lemma_record_stable(*old(self), a);
            }
        }
        let entry = &self.nodes[i];
        let node = KnownNode {
            last_connected: entry.1.last_connected,
            last_attempt: entry.1.last_attempt,
            handshake_time: entry.1.handshake_time,
            protocol_version: entry.1.protocol_version,
            user_agent: match &entry.1.user_agent {
                Some(ua) => Some(VarStr(clone_bytes(&ua.0))),
                None => None,
            },
            services: entry.1.services,
            connection_failures: entry.1.connection_failures,
        };
        node
    }

    /// The index of an address in the node map.
    closed spec fn node_index(self, a: NodeAddr) -> int {
        choose|i: int| 0 <= i < self.nodes@.len() && (#[trigger] self.nodes@[i]).0 == a
    }

    /// A known key's chosen index carries that key.
    proof fn lemma_record_unique(self, a: NodeAddr, w: int)
        requires
            self.wf(),
            0 <= w < self.nodes@.len(),
            self.nodes@[w].0 == a,
        ensures
            self.node_index(a) == w,
            self.record_of(a) == self.nodes@[w].1@,
    {
        assert(self.spec_has_node(a));
        let i = self.node_index(a);
        assert(0 <= i < self.nodes@.len() && self.nodes@[i].0 == a);
        if i != w {
            assert(false);
        }
    }

    /// Records under other keys do not move when entries under one key
    /// stay put.
    proof fn lemma_record_stable(self, other: KnownNetwork, a: NodeAddr)
        requires
            self.wf(),
            other.wf(),
            forall|j: int|
                0 <= j < other.nodes@.len() ==> #[trigger] self.nodes@[j] == other.nodes@[j],
            self.nodes@.len() >= other.nodes@.len(),
            forall|j: int|
                other.nodes@.len() <= j < self.nodes@.len() ==> (#[trigger] self.nodes@[j]).0 != a,
        ensures
            self.record_of(a) == other.record_of(a),
    {
        if other.spec_has_node(a) {
            let w = choose|w: int|
                0 <= w < other.nodes@.len() && (#[trigger] other.nodes@[w]).0 == a;
            assert(self.nodes@[w].0 == a);
            self.lemma_record_unique(a, w);
            other.lemma_record_unique(a, w);
        } else {
            if self.spec_has_node(a) {
                let w = choose|w: int|
                    0 <= w < self.nodes@.len() && (#[trigger] self.nodes@[w]).0 == a;
                if w < other.nodes@.len() {
                    assert(other.nodes@[w].0 == a);
                    assert(false);
                }
            }
        }
    }

    /// Replaces the record under `addr`, which must stand in the map.
    fn put_record(&mut self, addr: NodeAddr, node: KnownNode)
        requires
            old(self).wf(),
            old(self).spec_has_node(addr),
            old(self).nodes@[old(self).node_index(addr)].0 == addr,
        ensures
            final(self).wf(),
            final(self).connections@ == old(self).connections@,
            final(self).conns_view() == old(self).conns_view(),
            final(self).spec_has_node(addr),
            forall|a: NodeAddr|
                #[trigger] final(self).spec_has_node(a) <==> old(self).spec_has_node(a),
            final(self).record_of(addr) == node@,
            forall|a: NodeAddr|
                a != addr ==> #[trigger] final(self).record_of(a) == old(self).record_of(a),
    {
        let i = match self.find_node(addr) {
            Some(i) => i,
            None => {
                proof {
                    assert(false);
                }
                0
            },
        };
        proof {
            old(self).lemma_record_unique(addr, i as int);
        }
        self.nodes.set(i, (addr, node));
        proof {
            assert forall|a: NodeAddr|
                #[trigger] self.spec_has_node(a) <==> old(self).spec_has_node(a) by {
                if self.spec_has_node(a) {
                    let w = choose|w: int|
                        0 <= w < self.nodes@.len() && (#[trigger] self.nodes@[w]).0 == a;
                    assert(old(self).nodes@[w].0 == a);
                }
                if old(self).spec_has_node(a) {
                    let w = choose|w: int|
                        0 <= w < old(self).nodes@.len() && (#[trigger] old(self).nodes@[w]).0 == a;
                    if w == i {
                        assert(self.nodes@[i as int].0 == a);
                    } else {
                        assert(self.nodes@[w].0 == a);
                    }
                }
            }
            self.lemma_record_unique(addr, i as int);
            assert forall|a: NodeAddr|
                a != addr implies #[trigger] self.record_of(a) == old(self).record_of(a) by {
                if old(self).spec_has_node(a) {
                    let w = choose|w: int|
                        0 <= w < old(self).nodes@.len() && (#[trigger] old(self).nodes@[w]).0 == a;
                    assert(w != i);
                    assert(self.nodes@[w].0 == a);
                    self.lemma_record_unique(a, w);
                    old(self).lemma_record_unique(a, w);
                } else {
                    if self.spec_has_node(a) {
                        let w = choose|w: int|
                            0 <= w < self.nodes@.len() && (#[trigger] self.nodes@[w]).0 == a;
                        if w == i {
                            assert(false);
                        } else {
                            assert(old(self).nodes@[w].0 == a);
                            assert(false);
                        }
                    }
                }
            }
            assert forall|i2: int|
                0 <= i2 < self.connections@.len() implies self.spec_has_node(
                (#[trigger] self.connections@[i2]).a,
            ) && self.spec_has_node(self.connections@[i2].b) by {
                assert(old(self).spec_has_node(old(self).connections@[i2].a));
                assert(old(self).spec_has_node(old(self).connections@[i2].b));
            }
        }
    }
}

/// How many seconds to wait after `failures` consecutive failures before
/// trying a node again.
pub open spec fn backoff_secs(failures: u8) -> int {
    RETRY_BASE_SECS * pow2(failures as nat)
}

/// The connect-scheduling rule over one node record: not already
/// connected, not failed out, and past the backoff since the last attempt.
pub open spec fn spec_should_connect(n: KnownNodeV, connected: bool, now: u64) -> bool {
    &&& !connected
    &&& n.connection_failures < MAX_CONNECTION_FAILURES
    &&& match n.last_attempt {
        Some(t) => now >= t + backoff_secs(n.connection_failures),
        None => true,
    }
}

/// Two to the power `n`.
pub open spec fn pow2(n: nat) -> nat
    decreases n,
{
    if n == 0 {
        1
    } else {
        2 * pow2((n - 1) as nat)
    }
}

/// Small powers of two stay small.
proof fn lemma_pow2_bound(n: nat)
    requires
        n <= 4,
    ensures
        pow2(n) <= 16,
{
    reveal_with_fuel(pow2, 5);
}

impl Default for KnownNetwork {
    /// An empty map of the network.
    fn default() -> (r: Self)
        ensures
            r.wf(),
            r.nodes_view() == Seq::<(NodeAddr, KnownNodeV)>::empty(),
            r.conns_view() == Seq::<KnownConnection>::empty(),
    {
        KnownNetwork::new()
    }
}

/// A connection is fresh when it was seen within the cutoff.
pub open spec fn conn_fresh(c: KnownConnection, now: u64) -> bool {
    now - c.last_seen <= LAST_SEEN_CUTOFF
}

/// A copy of a byte vector.
fn clone_bytes(v: &Vec<u8>) -> (r: Vec<u8>)
    ensures
        r@ == v@,
{
    let mut r: Vec<u8> = Vec::new();
    let n = v.len();
    for i in 0..n
        invariant
            n == v@.len(),
            r@ == v@.take(i as int),
    {
        r.push(v[i]);
        assert(r@ =~= v@.take(i + 1));
    }
    assert(v@.take(n as int) =~= v@);
    r
}

} // verus!
