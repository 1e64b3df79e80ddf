use vstd::prelude::*;

verus! {

/// Why a hexadecimal text could not be decoded.
#[derive(Debug, Clone, Copy, PartialEq, Eq, Structural)]
pub enum HexError {
    /// A byte that is not a hexadecimal digit, and its position.
    InvalidHexCharacter { c: char, index: usize },
    /// The text has an odd number of bytes.
    OddLength,
    /// The decoded length does not fit the destination.
    InvalidStringLength,
}

/// The errors of the library.
#[derive(Debug, Clone)]
pub enum Error {
    /// A block time could not be turned into a date.
    Timestamp(String),
    /// A script or address kind that is not handled.
    CurrentlyNotSupported(String),
    /// A referenced transaction id does not have the expected length.
    TxId(String),
    /// A script (or other hexadecimal field) has an odd length.
    ScriptInvalid(String),
    /// A text could not be parsed as a number.
    FromStr(String),
    /// The server refused a broadcast transaction; its answer.
    BroadcastTransaction(String),
    /// A blockchain connector of another kind was given.
    UnableToDowncastBlockchainConnector(String),
    /// A hexadecimal text could not be decoded.
    Hex(HexError),
    /// A length does not fit into a single byte.
    TryFromInt,
    /// A date could not be formatted.
    TimeFormat,
}

impl Error {
    /// The two errors are of the same kind and carry the same text or value.
    pub open spec fn same_as(self, other: Error) -> bool {
        match (self, other) {
            (Error::Timestamp(a), Error::Timestamp(b)) => a@ == b@,
            (Error::CurrentlyNotSupported(a), Error::CurrentlyNotSupported(b)) => a@ == b@,
            (Error::TxId(a), Error::TxId(b)) => a@ == b@,
            (Error::ScriptInvalid(a), Error::ScriptInvalid(b)) => a@ == b@,
            (Error::FromStr(a), Error::FromStr(b)) => a@ == b@,
            (Error::BroadcastTransaction(a), Error::BroadcastTransaction(b)) => a@ == b@,
            (Error::UnableToDowncastBlockchainConnector(a), Error::UnableToDowncastBlockchainConnector(b)) => a@ == b@,
            (Error::Hex(a), Error::Hex(b)) => a == b,
            (Error::TryFromInt, Error::TryFromInt) => true,
            (Error::TimeFormat, Error::TimeFormat) => true,
            _ => false,
        }
    }
}

} // verus!
