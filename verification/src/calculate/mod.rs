//! Stages of the fit calculation that work on identifiers and states.

pub mod item;
pub mod pass_2;
pub mod pass_4;
pub mod pass_5;
pub mod pass_6;
