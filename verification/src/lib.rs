//! A DNS stub resolver core with a small HTTP text layer.
//!
//! The library builds raw DNS query packets for A-record lookups, parses the
//! raw response bytes back into a structured answer, and formats and parses
//! the line-based HTTP messages that sit on top of it. All byte layouts are
//! explicit and big-endian; nothing here performs I/O. Sockets and streams
//! live with the caller, which hands buffers in and takes plain values back.

pub mod errors;
pub mod header;
pub mod helpers;
pub mod http;
pub mod message;
pub mod name;
pub mod resolver;
pub mod response;
pub mod split;
