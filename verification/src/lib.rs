//! Wire-format codec for SOME/IP service discovery messages.
//!
//! The crate converts between raw byte buffers and typed views of them:
//! the packet envelope, the fixed-size entries, the options with their
//! common header, and the length-prefixed configuration strings. Every
//! accessor carries a contract over the bytes of the buffer it wraps.

pub mod buffer;
pub mod config;
pub mod entries;
pub mod error;
pub mod field;
pub mod options;
pub mod packet;
pub mod prelude;
pub mod repr;
pub mod text;
