//! Checked integer arithmetic: a running-value calculator with a bounded,
//! ordered history, a calculator that records operations as data and can
//! replay them, and free helpers with checked, saturating and wrapping
//! overflow policies.

pub mod accumulator;
pub mod calculator;
pub mod checked;
pub mod error;
pub mod saturating;
pub mod shapes;
pub mod text;
pub mod wrapping;
