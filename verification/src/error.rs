//! What can go wrong, by the layer that finds it.

use crate::packet::ElU8;
use vstd::prelude::*;

verus! {

/// No object specifier can be built from a sequence that is not three bytes
/// long. This is a mistake of the caller, not a malformed frame.
#[derive(Clone, Copy, Debug, PartialEq, Eq, Structural)]
pub enum EojError {
    InvalidLength,
}

/// Why a byte buffer is no frame.
#[derive(Clone, Copy, Debug, PartialEq, Eq, Structural)]
pub enum FrameError {
    /// Fewer than the twelve bytes of the fixed part.
    TooShort,
    /// The first two bytes are not the protocol's two header bytes.
    InvalidHeader,
    /// The service byte is none of the sixteen codes.
    InvalidServiceCode,
    /// The buffer ends inside a property that the count announces.
    PropertyTruncated,
}

/// Why a frame is not the response that an interpreter looks for.
#[derive(Clone, Copy, Debug, PartialEq, Eq, Structural)]
pub enum ResponseError {
    /// The service is not one of the three normal responses.
    NotAResponse,
    /// Source or destination is not the object that the response requires.
    AddressMismatch,
    /// No property with this code is in the frame.
    MissingProperty(ElU8),
    /// A required property is too short for what it must hold.
    MalformedProperty,
    /// The instance list has no count byte or ends inside a specifier.
    InvalidInstanceList,
}

/// A failure of the datagram transport, as the event loop reports it.
#[derive(Clone, Copy, Debug, PartialEq, Eq, Structural)]
pub enum TransportError {
    TransportSendFailed,
    TransportReceiveFailed,
}

} // verus!
