use vstd::prelude::*;

verus! {

/// Why a transfer session failed.
#[derive(Debug, Clone, Copy, PartialEq, Eq, Structural)]
pub enum TransferError {
    /// A read or write on the channel failed.
    TransportError,
    /// The peer sent a frame that the protocol does not allow at this point:
    /// a foreign message id or a checksum that does not match the body.
    ProtocolViolation,
    /// The peer did not acknowledge the START or END frame.
    HandshakeRejected,
    /// The peer did not acknowledge a DATA frame.
    TransmissionInterrupted,
    /// A frame or a compressed payload could not be decoded.
    DecodeError,
    /// A payload could not be turned into JSON.
    PayloadError,
}

} // verus!
