//! The payload encoding: a self-describing binary format of integers, strings,
//! arrays and maps (CBOR).
pub mod head;
pub mod value;
pub mod encode;
pub mod decode;
pub mod laws;
pub mod access;
