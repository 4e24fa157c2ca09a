//! Execution budgets, cost functions and memory-size measures used to charge
//! evaluation steps and built-in calls.

pub mod builtin_costs;
pub mod costing;
pub mod ex_budget;
pub mod machine_costs;
pub mod saturating;
pub mod value;
pub mod tables;
pub mod cost_laws;
