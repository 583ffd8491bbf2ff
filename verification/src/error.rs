//! The ways in which a session can fail.

use vstd::prelude::*;

verus! {

/// A reply that the protocol does not allow.
#[derive(Clone, Copy, Debug, PartialEq, Eq, Structural)]
pub enum Violation {
    /// The version reply holds no opening marker of a capability tag.
    MissingPrefix,
    /// The version reply holds no closing marker after the opening one.
    MissingSuffix,
    /// The capability tag holds this byte, which is no capability code.
    UnknownCapability(u8),
    /// An acknowledgement differs from the literal that the protocol fixes.
    UnexpectedAck,
    /// A reply filled the line buffer before its terminator came.
    ReplyTooLong,
}

/// Why an operation was given up.
#[derive(Clone, Copy, Debug, PartialEq, Eq, Structural)]
pub enum Error {
    /// The serial line or the byte source reported a fault, or timed out.
    TransportFault,
    /// The device sent something that the protocol does not allow.
    ProtocolViolation(Violation),
    /// The device cannot name its chip, or names one that is not known.
    DeviceNotRecognized,
    /// The device offers no write buffer, the only way of writing there is.
    WriteBufferMissing,
    /// The image holds more bytes than the flash.
    InputTooLarge { size: u64, capacity: u64 },
}

} // verus!
