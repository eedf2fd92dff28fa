//! Encoding and decoding of Certificate Transparency (RFC 6962) leaf records:
//! a length-prefixed vector container, fixed-width big-endian integers,
//! tagged unions and the Merkle tree leaf record family built on them.

pub mod error;
pub mod uint;
pub mod codec;
pub mod width;
pub mod vector;
pub mod tlsvec;
pub mod record;
pub mod entry;
pub mod api;
pub mod server;
pub mod theorems;
