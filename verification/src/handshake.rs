//! The per-connection handshake state machine. Both sides send `version`
//! and then `verack`, in either order; a connection is established once all
//! four have passed. A `version` carrying a nonce this peer itself sent is
//! a self-connection and is dropped; any other message before the
//! handshake has finished closes the connection.

use vstd::prelude::*;

use crate::message::{Message, MessageV};

verus! {

/// What the connection's owner must do after a handshake step.
#[derive(Clone, Copy, Debug, PartialEq, Eq, Structural)]
pub enum HandshakeAction {
    /// Send our `version`.
    SendVersion,
    /// Send our `verack`.
    SendVerack,
    /// Drop the connection.
    CloseConnection,
    /// Hand the message to the message filter.
    RouteToFilter,
    /// Nothing to do.
    NoOp,
}

/// The handshake state of one connection: which of the four statements
/// have passed, the nonce our own `version` carries, and whether the
/// connection has been closed.
#[derive(Clone, Copy, Debug, PartialEq, Eq, Structural)]
pub struct Handshake {
    pub our_nonce: u64,
    pub version_sent: bool,
    pub version_received: bool,
    pub verack_sent: bool,
    pub verack_received: bool,
    pub closed: bool,
}

/// A connection is established once both sides have sent `version` and
/// `verack` and it has not been closed.
pub open spec fn established(h: Handshake) -> bool {
    h.version_sent && h.version_received && h.verack_sent && h.verack_received && !h.closed
}

/// A connection that is neither established nor closed.
pub open spec fn pre_established(h: Handshake) -> bool {
    !established(h) && !h.closed
}

/// The transition of the handshake on one inbound message.
///
/// Before establishment: a `version` with our own nonce closes the
/// connection (the self-connect guard); any other `version` is recorded and
/// acknowledged with `verack`; a `verack` is accepted only after our
/// `version` went out; everything else closes the connection. After
/// establishment every message is routed through the filter. On a closed
/// connection nothing happens.
pub open spec fn handshake_step(h: Handshake, m: MessageV) -> (Handshake, HandshakeAction) {
    if h.closed {
        (h, HandshakeAction::NoOp)
    } else if established(h) {
        (h, HandshakeAction::RouteToFilter)
    } else {
        match m {
            MessageV::Version(v) => if v.nonce == h.our_nonce {
                (Handshake { closed: true, ..h }, HandshakeAction::CloseConnection)
            } else {
                (
                    Handshake { version_received: true, verack_sent: true, ..h },
                    HandshakeAction::SendVerack,
                )
            },
            MessageV::Verack => if h.version_sent && !h.verack_received {
                (Handshake { verack_received: true, ..h }, HandshakeAction::NoOp)
            } else {
                (Handshake { closed: true, ..h }, HandshakeAction::CloseConnection)
            },
            _ => (Handshake { closed: true, ..h }, HandshakeAction::CloseConnection),
        }
    }
}

impl Handshake {
    /// The state of a fresh outbound connection: our `version`, carrying
    /// `nonce`, goes out at once.
    pub fn start_outbound(nonce: u64) -> (r: (Handshake, HandshakeAction))
        ensures
            r.0 == (Handshake {
                our_nonce: nonce,
                version_sent: true,
                version_received: false,
                verack_sent: false,
                verack_received: false,
                closed: false,
            }),
            r.1 == HandshakeAction::SendVersion,
    {
        (
            Handshake {
                our_nonce: nonce,
                version_sent: true,
                version_received: false,
                verack_sent: false,
                verack_received: false,
                closed: false,
            },
            HandshakeAction::SendVersion,
        )
    }

    /// The state of a fresh accepted connection: nothing has passed yet;
    /// `nonce` is what our own `version` will carry.
    pub fn start_inbound(nonce: u64) -> (r: Handshake)
        ensures
            r == (Handshake {
                our_nonce: nonce,
                version_sent: false,
                version_received: false,
                verack_sent: false,
                verack_received: false,
                closed: false,
            }),
    {
        Handshake {
            our_nonce: nonce,
            version_sent: false,
            version_received: false,
            verack_sent: false,
            verack_received: false,
            closed: false,
        }
    }

    /// Records that our `version` went out.
    pub fn version_sent(self) -> (r: Handshake)
        ensures
            r == (Handshake { version_sent: true, ..self }),
    {
        Handshake { version_sent: true, ..self }
    }

    /// Whether this connection is established.
    pub fn is_established(&self) -> (r: bool)
        ensures
            r == established(*self),
    {
        self.version_sent && self.version_received && self.verack_sent && self.verack_received
            && !self.closed
    }

    /// Applies one inbound message to the handshake, exactly as
    /// `handshake_step` says.
    pub fn on_message(self, msg: &Message) -> (r: (Handshake, HandshakeAction))
        ensures
            r == handshake_step(self, msg@),
    {
        if self.closed {
            return (self, HandshakeAction::NoOp);
        }
        if self.is_established() {
            return (self, HandshakeAction::RouteToFilter);
        }
        match msg {
            Message::Version(v) => {
                if v.nonce.0 == self.our_nonce {
                    (Handshake { closed: true, ..self }, HandshakeAction::CloseConnection)
                } else {
                    (
                        Handshake { version_received: true, verack_sent: true, ..self },
                        HandshakeAction::SendVerack,
                    )
                }
            },
            Message::Verack => {
                if self.version_sent && !self.verack_received {
                    (Handshake { verack_received: true, ..self }, HandshakeAction::NoOp)
                } else {
                    (Handshake { closed: true, ..self }, HandshakeAction::CloseConnection)
                }
            },
            _ => (Handshake { closed: true, ..self }, HandshakeAction::CloseConnection),
        }
    }
}

/// The self-connect guard: before establishment, a `version` whose nonce
/// is the one we ourselves sent closes the connection, whatever else it
/// carries and whatever else has passed.
pub proof fn lemma_self_connect_rejected(h: Handshake, m: MessageV)
    requires
        pre_established(h),
        m matches MessageV::Version(v) && v.nonce == h.our_nonce,
    ensures
        handshake_step(h, m).0.closed,
        handshake_step(h, m).1 == HandshakeAction::CloseConnection,
{
}

/// A connection once closed stays closed: no message reopens it.
pub proof fn lemma_closed_is_final(h: Handshake, m: MessageV)
    requires
        h.closed,
    ensures
        handshake_step(h, m).0 == h,
        handshake_step(h, m).1 == HandshakeAction::NoOp,
{
}

/// Before establishment, anything but `version` and `verack` closes the
/// connection.
pub proof fn lemma_pre_handshake_rejection(h: Handshake, m: MessageV)
    requires
        pre_established(h),
        !(m is Version),
        !(m is Verack),
    ensures
        handshake_step(h, m).0.closed,
        handshake_step(h, m).1 == HandshakeAction::CloseConnection,
{
}

/// Relies on rand::random: a fresh arbitrary nonce; nothing is assumed of
/// its value.
#[verifier::external_body]
pub fn random_nonce() -> u64 {
    rand::random()
}

/// Opens an outbound handshake under a freshly drawn nonce. Whatever value
/// the nonce takes, the state records only our `version` as sent and the
/// action is to send it.
pub fn start_outbound_fresh() -> (r: (Handshake, HandshakeAction))
    ensures
        r.0.version_sent,
        !r.0.version_received,
        !r.0.verack_sent,
        !r.0.verack_received,
        !r.0.closed,
        r.1 == HandshakeAction::SendVersion,
{
    let nonce = random_nonce();
    Handshake::start_outbound(nonce)
}

} // verus!
