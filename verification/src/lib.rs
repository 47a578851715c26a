//! Health probe for a replicated key-value store.
//!
//! The library answers one question: is the probed node a healthy, stable
//! primary? It holds the verified core of the probe: the line-protocol
//! codec, the replication-status resolver (a state machine over reply
//! lines), the parsers for its reply fields, and the mapping from a
//! resolution outcome to an HTTP status code. Opening the encrypted
//! connection and serving HTTP are left to the surrounding binary, which
//! feeds reply lines in and carries commands out.

pub mod codec;
pub mod options;
pub mod parse;
pub mod rejections;
pub mod resolver;
pub mod verdict;
