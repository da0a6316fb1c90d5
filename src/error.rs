use vstd::prelude::*;

verus! {

/// Why a byte sequence or a server's answer could not be understood.
#[derive(Clone, Copy, Debug, PartialEq, Eq, Structural)]
pub enum ProtocolError {
    /// A VarInt ran on for five bytes without a terminating byte.
    VarIntTooLong,
    /// The input ended before the value being read was complete.
    UnexpectedEnd,
    /// A length prefix was negative.
    NegativeLength,
    /// A string's bytes were not UTF-8.
    InvalidUtf8,
    /// A boolean byte was neither 0 nor 1.
    InvalidBool,
    /// The zlib compressor reported a failure.
    CompressionFailed,
    /// A compressed body was not a valid zlib stream.
    DecompressionFailed,
    /// A length does not fit in the protocol's 32-bit length fields.
    TooLarge,
    /// The server closed the login with a Disconnect packet.
    Disconnected,
    /// The server answered with a packet id that the probe does not expect.
    UnexpectedPacketId(i32),
}

} // verus!
