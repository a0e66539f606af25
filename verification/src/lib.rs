//! A length-prefixed, type-tagged, checksummed binary record and its four-byte
//! type identifier, with verified decoding and encoding.

pub mod big_endian;
pub mod checksum;
pub mod chunk;
pub mod chunk_type;
pub mod text;
