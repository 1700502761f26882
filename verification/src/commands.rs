//! Decision logic behind the `capture`, `encode`, `rule` and `daemon` commands.

pub mod capture;
pub mod encode;
pub mod rule;
pub mod daemon;
pub mod notify;
