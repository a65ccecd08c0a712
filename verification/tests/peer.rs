use ziggurat::codec::{NodeAddr, VarStr};
use ziggurat::filter::is_matching_pong;
use ziggurat::handshake::{Handshake, HandshakeAction};
use ziggurat::message::Message;
use ziggurat::network::{
    KnownConnection, KnownNetwork, KnownNode, LAST_SEEN_CUTOFF, MAX_CONNECTION_FAILURES,
};
use ziggurat::payload::{Nonce, Version};

fn addr(tag: u64) -> NodeAddr {
    NodeAddr { ip_hi: tag, ip_lo: !tag, port: (8000 + tag) as u16 }
}

fn version_msg(nonce: u64) -> Message {
    Message::Version(Version::new(addr(1), addr(2), 1_600_000_000, Nonce(nonce)))
}

#[test]
fn handshake_initiator_flow() {
    // We dial: our version goes out, the peer answers with its version and
    // verack, we ack back; the connection is then established.
    let (h, action) = Handshake::start_outbound(0x42);
    assert_eq!(action, HandshakeAction::SendVersion);
    assert!(!h.is_established());

    let (h, action) = h.on_message(&version_msg(7));
    assert_eq!(action, HandshakeAction::SendVerack);
    let (h, action) = h.on_message(&Message::Verack);
    assert_eq!(action, HandshakeAction::NoOp);
    assert!(h.is_established());

    // Once established, traffic goes to the filter.
    let (h, action) = h.on_message(&Message::GetAddr);
    assert_eq!(action, HandshakeAction::RouteToFilter);
    assert!(h.is_established());
}

#[test]
fn handshake_responder_flow() {
    // The peer dials us: its version arrives first, we answer with ours
    // and a verack, and its verack completes the handshake.
    let h = Handshake::start_inbound(0x42);
    let (h, action) = h.on_message(&version_msg(0x43));
    assert_eq!(action, HandshakeAction::SendVerack);
    let h = h.version_sent();
    let (h, action) = h.on_message(&Message::Verack);
    assert_eq!(action, HandshakeAction::NoOp);
    assert!(h.is_established());
}

#[test]
fn handshake_rejects_non_version_first() {
    // Anything but a version before the handshake closes the connection.
    let h = Handshake::start_inbound(1);
    let (h, action) = h.on_message(&Message::GetAddr);
    assert_eq!(action, HandshakeAction::CloseConnection);
    assert!(h.closed);
    // And a closed connection stays closed.
    let (h, action) = h.on_message(&version_msg(9));
    assert_eq!(action, HandshakeAction::NoOp);
    assert!(h.closed);
}

#[test]
fn handshake_rejects_reused_nonce() {
    // A version carrying the nonce we ourselves sent is a self-connection.
    let (h, _) = Handshake::start_outbound(0x42);
    let (h, action) = h.on_message(&version_msg(0x42));
    assert_eq!(action, HandshakeAction::CloseConnection);
    assert!(h.closed);
}

#[test]
fn handshake_rejects_verack_before_version_sent() {
    let h = Handshake::start_inbound(1);
    let (h, action) = h.on_message(&Message::Verack);
    assert_eq!(action, HandshakeAction::CloseConnection);
    assert!(h.closed);
}

#[test]
fn pong_matching() {
    assert!(is_matching_pong(Nonce(5), &Message::Pong(Nonce(5))));
    assert!(!is_matching_pong(Nonce(5), &Message::Pong(Nonce(6))));
    assert!(!is_matching_pong(Nonce(5), &Message::Ping(Nonce(5))));
}

#[test]
fn connection_symmetry() {
    let c1 = KnownConnection::new(addr(1), addr(2), 100);
    let c2 = KnownConnection::new(addr(2), addr(1), 999);
    // Equality is symmetric in the endpoints and blind to last_seen.
    assert_eq!(c1, c2);
    assert_ne!(c1, KnownConnection::new(addr(1), addr(3), 100));
}

#[test]
fn add_addrs_closes_the_node_map() {
    let mut net = KnownNetwork::new();
    let peers = vec![addr(2), addr(3)];
    net.add_addrs(addr(1), &peers, 50);
    // {source} union peers is in the node map.
    assert_eq!(net.num_nodes(), 3);
    assert_eq!(net.num_connections(), 2);
    let keys: Vec<NodeAddr> = net.nodes().iter().map(|p| p.0).collect();
    assert!(keys.contains(&addr(1)));
    assert!(keys.contains(&addr(2)));
    assert!(keys.contains(&addr(3)));
}

#[test]
fn add_addrs_refreshes_last_seen_without_duplicating() {
    let mut net = KnownNetwork::new();
    net.add_addrs(addr(1), &vec![addr(2)], 50);
    // The reverse orientation is the same undirected edge.
    net.add_addrs(addr(2), &vec![addr(1)], 80);
    assert_eq!(net.num_connections(), 1);
    assert_eq!(net.connections()[0].last_seen, 80);
    assert_eq!(net.num_nodes(), 2);
}

#[test]
fn prune_removes_stale_connections() {
    let mut net = KnownNetwork::new();
    net.add_addrs(addr(1), &vec![addr(2)], 0);
    net.add_addrs(addr(1), &vec![addr(3)], 500);
    // At the cutoff boundary the older connection still stands.
    net.remove_old_connections(LAST_SEEN_CUTOFF);
    assert_eq!(net.num_connections(), 2);
    // One second past the cutoff it is pruned; the younger one stays.
    net.remove_old_connections(LAST_SEEN_CUTOFF + 1);
    assert_eq!(net.num_connections(), 1);
    let survivor = net.connections()[0];
    assert_eq!(survivor.last_seen, 500);
    // Nodes are never pruned.
    assert_eq!(net.num_nodes(), 3);
}

#[test]
fn should_connect_applies_failures_and_backoff() {
    let mut net = KnownNetwork::new();
    // An unknown, unconnected address is fair game.
    assert!(net.should_connect(addr(9), false, 0));
    // A connected one is not.
    assert!(!net.should_connect(addr(9), true, 0));

    // One failure at t=1000: backoff doubles from 30 to 60 seconds.
    net.record_connection_failure(addr(9), 1000);
    assert!(!net.should_connect(addr(9), false, 1059));
    assert!(net.should_connect(addr(9), false, 1060));

    // Failing out stops the attempts entirely.
    for _ in 0..MAX_CONNECTION_FAILURES {
        net.record_connection_failure(addr(9), 1000);
    }
    assert!(!net.should_connect(addr(9), false, u64::MAX));

    // A success clears the count.
    net.record_connection_success(addr(9), 2000);
    assert!(net.should_connect(addr(9), false, 2000));
}

#[test]
fn record_version_fills_the_node_record() {
    let mut net = KnownNetwork::new();
    net.record_version(addr(4), 170_013, VarStr(b"MagicBean".to_vec()), 1, 35);
    let nodes = net.nodes();
    let entry: &(NodeAddr, KnownNode) = nodes.iter().find(|p| p.0 == addr(4)).unwrap();
    assert_eq!(entry.1.protocol_version, Some(170_013));
    assert_eq!(entry.1.services, Some(1));
    assert_eq!(entry.1.handshake_time, Some(35));
    assert_eq!(entry.1.user_agent.as_ref().unwrap().0, b"MagicBean".to_vec());
}

#[test]
fn default_node_knows_nothing() {
    let n = KnownNode::default();
    assert_eq!(n.connection_failures, 0);
    assert!(n.last_connected.is_none());
    assert!(n.user_agent.is_none());
}
