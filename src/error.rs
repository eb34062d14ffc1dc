use vstd::prelude::*;

use crate::crypto;

verus! {

/// Coarse classes of failure, as an I/O layer reports them.
#[derive(Clone, Copy, Debug, PartialEq, Eq, Structural)]
pub enum ErrorKind {
    UnexpectedEof,
    WriteZero,
    ConnectionRefused,
    Other,
}

/// Protocol failures of a connection; each one ends the connection.
#[derive(Clone, Copy, Debug, PartialEq, Eq, Structural)]
pub enum ProtoError {
    /// The cryptographic layer failed.
    Crypto(crypto::Error),
    /// The system random generator failed.
    Random,
    /// A record announced a sealed length beyond the buffer.
    RecordTooLarge(usize),
    /// A record's sealed payload was not as long as its header announced.
    RecordLenMismatch,
    /// The SOCKS version byte was not 5.
    SocksVersion(u8),
    /// The client offered no "no authentication" method.
    NoAuthMethod,
    /// The SOCKS command was not CONNECT.
    UnsupportedCommand(u8),
    /// The address type byte was none of IPv4, domain name, IPv6.
    UnknownAtyp(u8),
    /// An address encoding had the wrong length for its type.
    BadAddress,
    /// A domain name was not valid UTF-8.
    InvalidDomain,
    /// The request named a user digest that is not in the user table.
    UnknownUser,
    /// The request's sealed length was too small to hold a request.
    RequestTooShort,
    /// The request's fields did not add up to its length.
    RequestLenMismatch,
    /// The request's version byte was not the protocol's.
    VersionMismatch(u8),
    /// The server's reply was too short to hold its fields.
    ResponseTooShort,
    /// The server does not support the requested cipher.
    CipherRejected,
    /// The server failed to generate keys.
    ServerInternal,
    /// The server could not connect to the destination.
    RemoteFailed,
    /// The server's reply code is none of the known ones.
    UnknownResponse(u8),
    /// The keys in the server's reply had the wrong length.
    KeyLenMismatch,
}

impl crypto::Error {
    /// The I/O class this failure is reported under.
    pub fn kind(&self) -> (r: ErrorKind)
        ensures
            r == ErrorKind::Other,
    {
        ErrorKind::Other
    }
}

impl ProtoError {
    /// The I/O class this failure is reported under.
    pub fn kind(&self) -> (r: ErrorKind)
        ensures
            r == ErrorKind::Other,
    {
        ErrorKind::Other
    }
}

} // verus!
