//! The per-connection worker, as a state machine: what each connection does
//! next, given what just happened. The caller owns the socket, the clock and
//! the JSON codec; it feeds events in and performs the decided transitions,
//! so every lifecycle decision is made here and nowhere else.
//!
//! A connection negotiates the handshake (`Handshaking`), then alternates
//! ingesting frames and fanning out unseen log entries (`Streaming`), and ends
//! (`Closed`) when the stream ends, a frame cannot be decoded, or a write
//! fails. A payload that decoded as text but did not parse as a message is
//! dropped without closing the connection.

use vstd::prelude::*;
use crate::log::{ChatMessage, Cursor, MessageLog};

verus! {

/// Where a connection stands in its life.
#[derive(Clone, Copy, PartialEq, Eq, Structural, Debug)]
pub enum ConnState {
    /// The upgrade request is being negotiated.
    Handshaking,
    /// The stream is live: frames are read and log entries forwarded.
    Streaming,
    /// Terminal: the worker ends and never touches the log again.
    Closed,
}

/// What just happened on a connection.
#[derive(Clone, Copy, PartialEq, Eq, Structural, Debug)]
pub enum ConnEvent {
    /// The handshake succeeded and the switching response went out.
    HandshakeAccepted,
    /// The handshake was refused and the error status went out.
    HandshakeRejected,
    /// A text frame arrived and its payload parsed as a message.
    MessageReceived,
    /// A text frame arrived but its payload was not a valid message.
    PayloadRejected,
    /// Unseen log entries were framed and written out.
    FanOutDelivered,
    /// The stream ended or a frame could not be decoded.
    StreamEnded,
    /// Writing a frame to the client failed.
    WriteFailed,
}

/// The connection lifecycle: the handshake's outcome leaves `Handshaking`;
/// while `Streaming`, traffic keeps the stream alive — including a rejected
/// payload, which is dropped — and only a dead stream or a failed write
/// closes it; `Closed` is terminal. An event foreign to the current state
/// changes nothing.
pub open spec fn step_spec(s: ConnState, e: ConnEvent) -> ConnState {
    match s {
        ConnState::Handshaking => match e {
            ConnEvent::HandshakeAccepted => ConnState::Streaming,
            ConnEvent::HandshakeRejected => ConnState::Closed,
            _ => ConnState::Handshaking,
        },
        ConnState::Streaming => match e {
            ConnEvent::StreamEnded => ConnState::Closed,
            ConnEvent::WriteFailed => ConnState::Closed,
            _ => ConnState::Streaming,
        },
        ConnState::Closed => ConnState::Closed,
    }
}

/// Advances a connection by one event.
pub fn step(s: ConnState, e: ConnEvent) -> (r: ConnState)
    ensures
        r == step_spec(s, e),
{
    match s {
        ConnState::Handshaking => match e {
            ConnEvent::HandshakeAccepted => ConnState::Streaming,
            ConnEvent::HandshakeRejected => ConnState::Closed,
            _ => ConnState::Handshaking,
        },
        ConnState::Streaming => match e {
            ConnEvent::StreamEnded => ConnState::Closed,
            ConnEvent::WriteFailed => ConnState::Closed,
            _ => ConnState::Streaming,
        },
        ConnState::Closed => ConnState::Closed,
    }
}

/// Applies one submission to the log: a payload that parsed as a message is
/// appended; one that did not is dropped and the log is left exactly as it
/// was. Used both by the HTTP submission path and by the frame reader.
pub fn ingest(log: &mut MessageLog, parsed: Option<ChatMessage>) -> (appended: bool)
    ensures
        match parsed {
            Some(m) => appended && final(log)@ == old(log)@.push(m@),
            None => !appended && final(log)@ == old(log)@,
        },
{
    match parsed {
        Some(m) => {
            log.append(m);
            true
        },
        None => false,
    }
}

/// One `Streaming` iteration's log work: ingest whatever the frame reader
/// produced, then hand back everything this connection has not yet been sent,
/// in log order, advancing its cursor past all of it.
pub fn streaming_iteration(
    log: &mut MessageLog,
    cursor: &mut Cursor,
    parsed: Option<ChatMessage>,
) -> (out: Vec<ChatMessage>)
    requires
        old(cursor).last_sent <= old(log)@.len(),
    ensures
        final(log)@ == (match parsed {
            Some(m) => old(log)@.push(m@),
            None => old(log)@,
        }),
        final(cursor).last_sent == final(log)@.len(),
        out@.map_values(|m: ChatMessage| m@) == final(log)@.subrange(
            old(cursor).last_sent as int,
            final(log)@.len() as int,
        ),
{
    let _ = ingest(log, parsed);
    log.collect_unsent(cursor)
}

} // verus!
