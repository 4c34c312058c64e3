//! Errors of this library, and the error codes servers send in `Error` frames.

use vstd::prelude::*;

verus! {

/// The kind of a transport failure.
#[derive(Debug, Clone, Copy, PartialEq, Eq, Structural)]
pub enum IoKind {
    /// The peer closed the stream before a full frame arrived.
    UnexpectedEof,
    /// Any other read or write failure.
    Other,
}

/// Why a broker shut down; carried by every `ConnectionClosed` error.
#[derive(Debug, Clone, Copy, PartialEq, Eq, Structural)]
pub enum CloseCause {
    /// A read or write on the socket failed, or the peer closed it.
    Io(IoKind),
    /// The server referenced a request tag the client never issued.
    UnknownTag,
    /// A frame arrived with a command kind the client cannot accept.
    UnknownCommand,
    /// A reply payload could not be decoded.
    Decode,
    /// The caller closed the broker.
    Explicit,
}

/// Every failure this library distinguishes.
#[derive(Debug, Clone, Copy, PartialEq, Eq, Structural)]
pub enum Error {
    /// A transport failure; fatal to the broker.
    Io(IoKind),
    /// The tag-struct decoder met a type tag byte it does not know.
    UnknownValueTag(u8),
    /// The server referenced a request tag the client never issued; fatal.
    UnknownTag,
    /// A frame arrived with a command kind the client cannot accept; fatal.
    UnknownCommand,
    /// A payload or a value could not be decoded.
    Decode,
    /// A payload is too large for the frame layout.
    PayloadTooLarge,
    /// The server answered a request with an `Error` frame; the broker survives.
    ServerError(ErrorKind),
    /// The outbound queue is at capacity; the caller may retry.
    QueueFull,
    /// Every request tag is taken by a pending request.
    TagSpaceExhausted,
    /// The broker has shut down; every later call fails with this.
    ConnectionClosed(CloseCause),
}


/// An error code carried by a server-sent `Error` frame; the codes match
/// the sound server's published error table.
#[allow(non_camel_case_types)]
#[derive(Debug, Clone, Copy, PartialEq, Eq, Structural)]
pub enum ErrorKind {
    /// No error
    NoError,
    /// Access failure
    Access,
    /// Unknown command
    Command,
    /// Invalid argument
    Invalid,
    /// Entity exists
    Exist,
    /// No such entity
    NoEntity,
    /// Connection refused
    ConnectionRefused,
    /// Protocol error
    Protocol,
    /// Timeout
    Timeout,
    /// No authentication key
    AuthKey,
    /// Internal error
    Internal,
    /// Connection terminated
    ConnectionTerminated,
    /// Entity killed
    Killed,
    /// Invalid server
    InvalidServer,
    /// Module initialization failed
    ModInitFailed,
    /// Bad state
    BadState,
    /// No data
    NoData,
    /// Incompatible protocol version
    Version,
    /// Data too large
    TooLarge,
    /// Operation not supported
    NotSupported,
    /// The error code was unknown to the client
    Unknown,
    /// Extension does not exist
    NoExtension,
    /// Obsolete functionality
    Obsolete,
    /// Missing implementation
    NotImplemented,
    /// The caller forked without exec and tried to reuse the context
    Forked,
    /// An I/O error happened
    Io,
    /// Device or resource busy
    Busy,
}

impl ErrorKind {
    /// The code that stands for this value on the wire.
    pub open spec fn code(self) -> u32 {
        match self {
            ErrorKind::NoError => 0,
            ErrorKind::Access => 1,
            ErrorKind::Command => 2,
            ErrorKind::Invalid => 3,
            ErrorKind::Exist => 4,
            ErrorKind::NoEntity => 5,
            ErrorKind::ConnectionRefused => 6,
            ErrorKind::Protocol => 7,
            ErrorKind::Timeout => 8,
            ErrorKind::AuthKey => 9,
            ErrorKind::Internal => 10,
            ErrorKind::ConnectionTerminated => 11,
            ErrorKind::Killed => 12,
            ErrorKind::InvalidServer => 13,
            ErrorKind::ModInitFailed => 14,
            ErrorKind::BadState => 15,
            ErrorKind::NoData => 16,
            ErrorKind::Version => 17,
            ErrorKind::TooLarge => 18,
            ErrorKind::NotSupported => 19,
            ErrorKind::Unknown => 20,
            ErrorKind::NoExtension => 21,
            ErrorKind::Obsolete => 22,
            ErrorKind::NotImplemented => 23,
            ErrorKind::Forked => 24,
            ErrorKind::Io => 25,
            ErrorKind::Busy => 26,
        }
    }

    /// The value a wire code stands for, if any.
    pub open spec fn from_code(c: u32) -> Option<ErrorKind> {
        match c {
            0 => Some(ErrorKind::NoError),
            1 => Some(ErrorKind::Access),
            2 => Some(ErrorKind::Command),
            3 => Some(ErrorKind::Invalid),
            4 => Some(ErrorKind::Exist),
            5 => Some(ErrorKind::NoEntity),
            6 => Some(ErrorKind::ConnectionRefused),
            7 => Some(ErrorKind::Protocol),
            8 => Some(ErrorKind::Timeout),
            9 => Some(ErrorKind::AuthKey),
            10 => Some(ErrorKind::Internal),
            11 => Some(ErrorKind::ConnectionTerminated),
            12 => Some(ErrorKind::Killed),
            13 => Some(ErrorKind::InvalidServer),
            14 => Some(ErrorKind::ModInitFailed),
            15 => Some(ErrorKind::BadState),
            16 => Some(ErrorKind::NoData),
            17 => Some(ErrorKind::Version),
            18 => Some(ErrorKind::TooLarge),
            19 => Some(ErrorKind::NotSupported),
            20 => Some(ErrorKind::Unknown),
            21 => Some(ErrorKind::NoExtension),
            22 => Some(ErrorKind::Obsolete),
            23 => Some(ErrorKind::NotImplemented),
            24 => Some(ErrorKind::Forked),
            25 => Some(ErrorKind::Io),
            26 => Some(ErrorKind::Busy),
            _ => None,
        }
    }

    pub fn to_u32(self) -> (c: u32)
        ensures
            c == self.code(),
    {
        match self {
            ErrorKind::NoError => 0,
            ErrorKind::Access => 1,
            ErrorKind::Command => 2,
            ErrorKind::Invalid => 3,
            ErrorKind::Exist => 4,
            ErrorKind::NoEntity => 5,
            ErrorKind::ConnectionRefused => 6,
            ErrorKind::Protocol => 7,
            ErrorKind::Timeout => 8,
            ErrorKind::AuthKey => 9,
            ErrorKind::Internal => 10,
            ErrorKind::ConnectionTerminated => 11,
            ErrorKind::Killed => 12,
            ErrorKind::InvalidServer => 13,
            ErrorKind::ModInitFailed => 14,
            ErrorKind::BadState => 15,
            ErrorKind::NoData => 16,
            ErrorKind::Version => 17,
            ErrorKind::TooLarge => 18,
            ErrorKind::NotSupported => 19,
            ErrorKind::Unknown => 20,
            ErrorKind::NoExtension => 21,
            ErrorKind::Obsolete => 22,
            ErrorKind::NotImplemented => 23,
            ErrorKind::Forked => 24,
            ErrorKind::Io => 25,
            ErrorKind::Busy => 26,
        }
    }

    pub fn from_u32(c: u32) -> (r: Option<ErrorKind>)
        ensures
            r == ErrorKind::from_code(c),
    {
        match c {
            0 => Some(ErrorKind::NoError),
            1 => Some(ErrorKind::Access),
            2 => Some(ErrorKind::Command),
            3 => Some(ErrorKind::Invalid),
            4 => Some(ErrorKind::Exist),
            5 => Some(ErrorKind::NoEntity),
            6 => Some(ErrorKind::ConnectionRefused),
            7 => Some(ErrorKind::Protocol),
            8 => Some(ErrorKind::Timeout),
            9 => Some(ErrorKind::AuthKey),
            10 => Some(ErrorKind::Internal),
            11 => Some(ErrorKind::ConnectionTerminated),
            12 => Some(ErrorKind::Killed),
            13 => Some(ErrorKind::InvalidServer),
            14 => Some(ErrorKind::ModInitFailed),
            15 => Some(ErrorKind::BadState),
            16 => Some(ErrorKind::NoData),
            17 => Some(ErrorKind::Version),
            18 => Some(ErrorKind::TooLarge),
            19 => Some(ErrorKind::NotSupported),
            20 => Some(ErrorKind::Unknown),
            21 => Some(ErrorKind::NoExtension),
            22 => Some(ErrorKind::Obsolete),
            23 => Some(ErrorKind::NotImplemented),
            24 => Some(ErrorKind::Forked),
            25 => Some(ErrorKind::Io),
            26 => Some(ErrorKind::Busy),
            _ => None,
        }
    }

    /// Decoding the code of a value gives that value back.
    pub proof fn lemma_code_round_trip(self)
        ensures
            ErrorKind::from_code(self.code()) == Some(self),
    {
    }

    /// Encoding a decoded code gives that code back.
    pub proof fn lemma_from_code_round_trip(c: u32)
        ensures
            ErrorKind::from_code(c) matches Some(v) ==> v.code() == c,
    {
    }


}

} // verus!
