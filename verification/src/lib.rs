//! The logic of a small file server that speaks HTTP/1.0, one request per
//! connection, and of the key-value service that ships beside it.
//!
//! Everything here works on plain bytes: the caller reads from the socket and
//! the file system and hands over what it found; the library decides what goes
//! back on the wire.

pub mod text;
pub mod mime;
pub mod response;
pub mod resolve;
pub mod listing;
pub mod request;
pub mod handler;
pub mod runs;
pub mod kv;
