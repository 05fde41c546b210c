//! The protocol's error type.

use vstd::prelude::*;

verus! {

/// Every way an encode or decode step of the protocol can fail.
#[derive(Clone, Copy, Debug, PartialEq, Eq, Structural)]
pub enum ProtocolError {
    PayloadTooLarge(usize),
    UnknownMessageType(u8),
    InvalidMagic,
    UnsupportedVersion,
    InvalidLength,
    Truncated,
    CrcMismatch,
    CobsMalformed,
    PacketTooLong,
    InvalidUtf8,
    StringTooLong,
    InvalidValue,
    InvalidSession,
    RevisionConflict,
}

} // verus!
