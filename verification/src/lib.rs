//! An evaluator toolkit for Untyped Plutus Core: execution budgets and
//! cost functions, the Flat binary encoding, built-in function metadata
//! and the CEK machine that runs programs.

pub mod binder;
pub mod builtin;
pub mod bytecode;
pub mod constant;
pub mod cost_model;
pub mod flat;
pub mod integer;
pub mod ledger_value;
pub mod machine;
pub mod program;
pub mod term;
pub mod syn;
