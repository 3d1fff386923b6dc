use vstd::prelude::*;

verus! {

/// Every way a run of the tool can fail.
///
/// The fields carry the offending command-line text, or the description that
/// the operating system or driver gave for a failed operation.
#[derive(Debug, Clone, PartialEq, Eq)]
pub enum ToolError {
    /// An address field that is not IPv4 dotted-quad notation.
    InvalidAddress(String),
    /// A port field that is not a 16-bit unsigned integer.
    InvalidPort(String),
    /// A baud-rate field that is not a 32-bit unsigned integer.
    InvalidBaudRate(String),
    /// A payload token that is not exactly one byte in hexadecimal.
    InvalidHexByte(String),
    /// The TCP connection could not be established.
    ConnectFailed(String),
    /// The serial port could not be opened.
    PortOpenFailed(String),
    /// The UDP transport, which the tool does not implement.
    NotImplemented,
    /// Writing the payload to the transport failed.
    WriteFailed(String),
}

} // verus!
