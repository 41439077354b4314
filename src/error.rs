use vstd::prelude::*;

verus! {

/// Why a value or a message could not be marshaled.
#[derive(Clone, Copy, Debug, PartialEq, Eq, Structural)]
pub enum DbusError {
    /// A serial of zero.
    InvalidSerial,
    /// A header field that is `Invalid`, or whose code does not match its value.
    InvalidHeaderField,
    /// A field that the message type requires is absent.
    MissingHeaderField,
    /// A message of type `MessageType::Invalid`.
    InvalidMessageType,
    /// A body argument that cannot be marshaled: a signature longer than 255 bytes.
    InvalidArgument,
    /// Array data longer than `MAX_ARRAY_LEN` bytes.
    ArrayTooLong,
    /// The body length in the header differs from the encoded body.
    BodyLengthMismatch,
    /// The whole message would exceed `MAX_MESSAGE_SIZE` bytes.
    MessageTooLarge,
}

} // verus!
