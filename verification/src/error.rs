//! Error taxonomy of the switch.

use vstd::prelude::*;

verus! {

/// The ways a received datagram can fail to parse as a protocol message.
#[derive(Debug, Clone, Copy, PartialEq, Eq)]
pub enum ProtocolFault {
    /// Fewer than the five header bytes were available.
    MessageTooShort,
    /// The header declared more payload bytes than the buffer holds.
    IncompletePayload,
    /// The kind byte is not one of the four defined message kinds.
    UnknownMessageType(u8),
}

/// Top-level error type of the switch.
#[derive(Debug, Clone, PartialEq, Eq)]
pub enum VswitchError {
    /// A transport or interface I/O failure, described in words.
    IoError(String),
    /// A failure of the local interface device, described in words.
    TunError(String),
    /// A startup configuration problem, described in words.
    ConfigError(String),
    /// A received datagram that does not parse as a protocol message.
    InvalidProtocolMessage(ProtocolFault),
}

} // verus!
