//! Production-process tracking: entities kept in keyed document
//! collections, the rules that keep their embedded copies in step, and the
//! planning arithmetic that turns a process's sprint history into targets
//! for the next sprint.
//!
//! Quantities (formula weights, sprint targets and actuals) are integers
//! counted in thousandths of a unit; timestamps are milliseconds since the
//! Unix epoch.

pub mod runtime;
pub mod audit;
pub mod fornecedor;
pub mod item;
pub mod text;
pub mod quantity;
pub mod user;
pub mod sprint;
pub mod formula;
pub mod processo;
pub mod cascade;
pub mod store;
pub mod laws;
pub mod trial;
pub mod catalog;
