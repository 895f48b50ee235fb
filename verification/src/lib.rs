//! Fitting rules for ships: the integer side of the dogma engine.
//!
//! The modules mirror the stages of a fit calculation. Everything that
//! decides *which* effect lands on *which* item, and every validation rule
//! whose inputs are counts, identifiers or states, is stated and proved here.

pub mod calculate;
pub mod constant;
pub mod fit;
pub mod protobuf;
pub mod validate;
