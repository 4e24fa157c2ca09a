//! The Flat binary format of programs.

pub mod bits;
pub mod decoder;
pub mod encoder;
pub mod zigzag;
pub mod encode;
pub mod data;
pub mod decode;
pub mod roundtrip;
pub mod cbor_roundtrip;
