use vstd::prelude::*;

verus! {

/// What the codec reports about bytes or a message it does not accept.
#[derive(Debug, PartialEq, Eq, Structural, Clone, Copy)]
pub enum MessageError {
    /// A parse was asked for under a type other than the message's own.
    InvalidType,
    /// A fixed-width payload whose length is not count times width.
    InvalidDataLength,
    /// A string payload that does not end in a NUL byte.
    InvalidData,
    /// A header byte with an unknown status or type nibble, or no header at all.
    InvalidHeaderBits,
}

/// Failures of the server's startup operations.
#[derive(Debug)]
pub enum ServerError {
    UnableToStartServer(String),
    ServerNotYetStarted,
}

/// Failures seen by a caller of the client transport.
#[derive(Debug)]
pub enum ClientError {
    UnableToStartStream(String),
    StreamNotStarted,
    CantWriteToStream(String),
    CantReadFromStream(String),
    ServerError(String),
    MessageError(MessageError),
}

} // verus!
