use vstd::prelude::*;

verus! {

/// Everything that can go wrong in the protocol logic.
#[derive(Debug, Clone, PartialEq, Eq)]
pub enum Error {
    /// A free-form failure described by its message.
    Custom(String),
    /// An address string without a `host:port` separator.
    InvalidAddress(String),
    /// A connection identifier that the registry does not hold.
    ServerReceiverNotFound,
    /// A failure of the underlying byte stream, other than a read timeout.
    IO(String),
    /// Bytes that do not form one well-formed frame of the current version.
    MalformedPacket,
    /// A packet that the connection's current state does not allow.
    ProtocolViolation,
    /// The registry's lock could not be taken.
    LockFailure,
    /// A `Data` packet built without a payload.
    MissingPayload,
    /// A payload too large for the frame's one-byte length field.
    SerializationError,
}

} // verus!
