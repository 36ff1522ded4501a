//! The handshake negotiator: decides whether an inbound request may switch
//! protocols, and computes the response headers when it may.
//!
//! The request must carry `Upgrade: websocket` (else the caller answers 405)
//! and a `Sec-WebSocket-Key` (else 400). On success the response carries
//! `Upgrade: websocket`, `Connection: Upgrade`, and the accept token derived
//! from the client's key. This component only classifies and computes; all
//! I/O stays with the caller.

use vstd::prelude::*;
use crate::key::{accept_token_of, convert_key};

verus! {

/// The request headers relevant to the protocol switch, extracted by the
/// caller: the value of `Upgrade` and of `Sec-WebSocket-Key`, where present.
pub struct HandshakeRequest {
    pub upgrade: Option<String>,
    pub key: Option<String>,
}

/// Why a request was refused the upgrade.
pub enum HandshakeError {
    /// The request is not a websocket upgrade; surfaced as HTTP 405.
    NotWebSocket,
    /// The request lacks `Sec-WebSocket-Key`; surfaced as HTTP 400.
    MissingKey,
}

impl HandshakeError {
    /// The HTTP status the caller answers with.
    pub fn status_code(&self) -> (r: u16)
        ensures
            r == (match self {
                HandshakeError::NotWebSocket => 405u16,
                HandshakeError::MissingKey => 400u16,
            }),
    {
        match self {
            HandshakeError::NotWebSocket => 405,
            HandshakeError::MissingKey => 400,
        }
    }
}

/// The headers of the `101 Switching Protocols` response.
pub struct UpgradeResponse {
    /// Value for the `Upgrade` response header.
    pub upgrade: String,
    /// Value for the `Connection` response header.
    pub connection: String,
    /// Value for the `Sec-WebSocket-Accept` response header.
    pub accept: String,
}

/// Whether the request asks for the websocket protocol: an `Upgrade` header
/// is present and its value is exactly `websocket`.
pub open spec fn is_websocket_upgrade(req: HandshakeRequest) -> bool {
    req.upgrade matches Some(u) && u@ == "websocket"@
}

/// Decides the protocol switch. Succeeds exactly on a websocket upgrade
/// request that carries a key, and then owes the accept token derived from
/// that key; refuses everything else with the error naming what was missing.
pub fn negotiate(req: &HandshakeRequest) -> (r: Result<UpgradeResponse, HandshakeError>)
    ensures
        match r {
            Ok(resp) => {
                &&& is_websocket_upgrade(*req)
                &&& req.key matches Some(k) && resp.accept@ == accept_token_of(k@)
                &&& resp.upgrade@ == "websocket"@
                &&& resp.connection@ == "Upgrade"@
            },
            Err(e) => match e {
                HandshakeError::NotWebSocket => !is_websocket_upgrade(*req),
                HandshakeError::MissingKey => is_websocket_upgrade(*req) && req.key is None,
            },
        },
{
    let websocket: String = "websocket".to_owned();
    let is_upgrade = match &req.upgrade {
        Some(u) => *u == websocket,
        None => false,
    };
    if !is_upgrade {
        return Err(HandshakeError::NotWebSocket);
    }
    match &req.key {
        None => Err(HandshakeError::MissingKey),
        Some(k) => {
            let accept = convert_key(k.as_str());
            Ok(UpgradeResponse { upgrade: websocket, connection: "Upgrade".to_owned(), accept })
        },
    }
}

} // verus!
