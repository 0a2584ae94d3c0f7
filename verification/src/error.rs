//! Failure taxonomy for the bot's query-dispatch pipeline.

use vstd::prelude::*;

verus! {

/// Every way handling one update can fail.
///
/// Decoder failures (`InvalidLevel`, `MalformedCount`) mean the upstream
/// service sent data outside its documented shape; `NotACommand` means a
/// raw string lacked the `/` sigil; `TransportError` and `DecodeError`
/// are reported by the network layer so callers can tell "could not reach
/// or parse the service" from `EmptySearchResult`, a well-formed envelope
/// with no payload. Variants carry the offending value for diagnostics.
#[derive(Debug, Clone)]
pub enum BotError {
    InvalidLevel(i64),
    MalformedCount,
    NotACommand(String),
    TransportError(String),
    DecodeError(String),
    EmptySearchResult(String),
}

} // verus!
