//! Internal helpers: wire-format decoding, hex text and text conversion.
pub mod bytes;
pub mod helpers;
pub mod datetime;
pub mod hex;
pub mod text;
