//! A read-only query engine for the MaxMind DB binary file format.
//!
//! Given an IPv4 or IPv6 address, the reader walks a binary prefix trie
//! packed at the front of the file and decodes a typed record from the
//! file's data section. Every decoding step is specified against a
//! mathematical model of the format and verified.

pub mod decode;
pub mod errors;
pub mod format;
pub mod metadata;
pub mod models;
pub mod reader;

pub use errors::Error;
pub use reader::{AnonymousIp, Asn, City, ConnectionType, Country, Domain, Enterprise, Isp, Reader};
