//! Client-side codec for the TDX market-quotes protocol: security-code
//! classification, wire-format decoding helpers and the request/response
//! packages of the standard quotes commands.

pub mod exchange;
pub mod internal;
pub mod proto;
pub mod quotes;
