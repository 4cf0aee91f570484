use vstd::prelude::*;

verus! {

/// Where one accepted connection stands.
#[derive(Clone, Copy, Debug, PartialEq, Eq, Structural)]
pub enum ConnState {
    /// Accepted; no admission token drawn yet.
    Accepted,
    /// Admitted, and the TLS handshake is under way.
    Handshaking,
    /// Admitted and serving requests.
    Serving,
    /// Closed; its token, if it had one, is given back.
    Closed,
}

/// What happened to a connection.
#[derive(Clone, Copy, Debug, PartialEq, Eq, Structural)]
pub enum ConnEvent {
    /// A non-blocking attempt to draw an admission token: whether one was
    /// free.
    Permit(bool),
    /// The TLS handshake ended: whether it succeeded.
    Handshake(bool),
    /// Serving ended, for whatever reason.
    Ended,
}

/// The next state of a connection. Without a free token a connection is
/// closed at once rather than queued; a failed handshake closes it; with TLS
/// configured, serving starts only after a handshake.
pub open spec fn conn_next(tls: bool, s: ConnState, e: ConnEvent) -> ConnState {
    match (s, e) {
        (ConnState::Accepted, ConnEvent::Permit(got)) => if !got {
            ConnState::Closed
        } else if tls {
            ConnState::Handshaking
        } else {
            ConnState::Serving
        },
        (ConnState::Handshaking, ConnEvent::Handshake(ok)) => if ok {
            ConnState::Serving
        } else {
            ConnState::Closed
        },
        (ConnState::Serving, ConnEvent::Ended) => ConnState::Closed,
        (ConnState::Closed, _) => ConnState::Closed,
        _ => ConnState::Closed,
    }
}

/// Whether a connection in this state holds an admission token.
pub open spec fn holds_token(s: ConnState) -> bool {
    s == ConnState::Handshaking || s == ConnState::Serving
}

/// Moves one connection to its next state. Each connection has its own
/// state, so this never touches another connection.
pub fn advance(tls: bool, s: ConnState, e: ConnEvent) -> (r: ConnState)
    ensures
        r == conn_next(tls, s, e),
        s == ConnState::Accepted && e == ConnEvent::Permit(false) ==> r == ConnState::Closed,
        holds_token(r) ==> holds_token(s) || (s == ConnState::Accepted && e == ConnEvent::Permit(true)),
{
    match (s, e) {
        (ConnState::Accepted, ConnEvent::Permit(got)) => if !got {
            ConnState::Closed
        } else if tls {
            ConnState::Handshaking
        } else {
            ConnState::Serving
        },
        (ConnState::Handshaking, ConnEvent::Handshake(ok)) => if ok {
            ConnState::Serving
        } else {
            ConnState::Closed
        },
        _ => ConnState::Closed,
    }
}

} // verus!
