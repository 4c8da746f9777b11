//! A caching DNS forwarder's core: the wire codec, the bounded record cache
//! with its persistence format, the cache serving policies, the upstream
//! dispatch decisions and the per-query stage chain.

pub mod buffer;
pub mod bytes;
pub mod cache;
pub mod config;
pub mod cursor;
pub mod filter;
pub mod handler;
pub mod protocol;
pub mod system;
