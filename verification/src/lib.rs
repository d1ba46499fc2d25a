//! A durable, append-only record store: a record codec that frames opaque
//! payloads with a fixed-width little-endian length header, and an append
//! store that tracks buffered writes, a logical size, and offset-addressed
//! reads over the framed bytes.

pub mod codec;
pub mod store;
