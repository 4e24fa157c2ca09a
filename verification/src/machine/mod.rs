//! The CEK machine that evaluates terms.

pub mod value;
pub mod bitwise;
pub mod crypto;
pub mod error;
pub mod semantics;
pub mod runtime;
pub mod calls;
pub mod discharge;
pub mod cek;
pub mod continuation;
pub mod evaluation;
pub mod byte_laws;
pub mod bit_laws;
pub mod binding_laws;
pub mod budget_laws;
