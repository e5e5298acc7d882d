//! Single-field changes to a planned logical monitor.

pub mod primary;
