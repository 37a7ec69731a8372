//! Constants and error kinds shared by the quotes commands.
use vstd::prelude::*;

verus! {

/// Market identifier as carried by some replies.
#[derive(Debug, Copy, Clone, PartialEq, Eq)]
pub enum TdxMarket {
    Unknown,
}

pub const DEFAULT_RETRY_TIMES: usize = 3;
/// Size of a response header on the wire.
pub const MESSAGE_HEADER_BYTES: usize = 0x10;
/// Largest compressed response body that is accepted.
pub const MESSAGE_MAX_BYTES: usize = 0x8000;

pub const POOL_INITED: usize = 1;
pub const POOL_MAX: usize = 10;
/// Connection timeout in seconds.
pub const CONN_TIMEOUT: u64 = 10;
/// Receive timeout in seconds.
pub const RECV_TIMEOUT: u64 = 5;

/// Errors of the quotes protocol layer.
#[derive(Debug, Clone, Copy, PartialEq, Eq)]
pub enum QuotesError {
    /// A response body larger than the protocol allows.
    BadData,
    /// A server entry without host or port.
    InvalidServerAddress,
    /// A feature that is not available.
    Unimplemented(&'static str),
    /// A variable-length integer, time or date ran past the end of the data.
    BufferUnderflow,
    /// A fixed-size field ran past the end of the data.
    UnexpectedEof,
    /// A response body shorter than the command's minimum.
    ResponseTooShort,
    /// A record of a list reply is cut off.
    EntryTruncated,
    /// A hex string with an odd number of digits.
    OddHexLength,
    /// A hex string with a character that is not a hex digit.
    InvalidHexDigit,
    /// A quotes request without any stock.
    EmptyRequest,
    /// A quotes request with more stocks than one request may carry.
    TooManyStocks,
    /// A request that serialized to no bytes.
    EmptyPayload,
    /// A compressed body that could not be inflated.
    Decompress,
    /// A text that could not be converted between encodings.
    Encoding,
    /// A security code that is not six characters long.
    InvalidSecurityCode,
    /// A request count above the command's limit.
    CountExceeded,
    /// No server to connect to.
    NoServers,
    /// A date and time that could not be read, or moved past the calendar's
    /// range.
    InvalidDateTime,
    /// A reply whose integer arithmetic would leave `i32`.
    Overflow,
}

} // verus!
