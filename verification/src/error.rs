//! Error taxonomy shared across the stack layers.

use vstd::prelude::*;

verus! {

/// Reason a frame could not be decoded from raw bytes.
#[derive(Clone, Copy, Debug, PartialEq, Eq, Structural)]
pub enum DecodeError {
    /// The buffer ended before the field being read.
    NotEnoughBytes,
    /// The frame control field carried an unknown frame type.
    InvalidFrameType,
    /// An address mode outside the supported set.
    InvalidAddressMode,
    /// A command identifier outside the supported set.
    InvalidCommand,
    /// A value no frame of this profile carries.
    InvalidValue,
}

/// Errors raised by the MAC layers; `E` is the radio driver's own error type.
#[derive(Clone, Debug, PartialEq, Eq, Structural)]
pub enum CoreError<E> {
    /// RX/TX queue or buffer exhausted; recoverable by caller back-off.
    BufferFull,
    /// A redundant transmit request while one is active.
    TransmitPending,
    /// Retry limit exceeded or CSMA clear-channel assessment exhausted.
    TransmitFailed,
    /// A malformed frame was received.
    DecodeError(DecodeError),
    /// Transparent wrap of an underlying radio driver error.
    Radio(E),
    /// An acknowledgement or association deadline passed.
    Timeout,
    /// The radio state refused the operation.
    Busy,
}

impl<E> crate::MacError for CoreError<E> {
    /// Whether this error signals queue exhaustion, the back-pressure case.
    fn queue_full(&self) -> (r: bool)
        ensures
            r == (*self matches CoreError::BufferFull),
    {
        match self {
            CoreError::BufferFull => true,
            _ => false,
        }
    }
}

} // verus!
