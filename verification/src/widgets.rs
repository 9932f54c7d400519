//! Widgets of the monitor's user interface.

pub mod barchart;
pub mod block;
