//! Verified core of a terminal system monitor: the bar chart widget's layout
//! (which bars fit, how tall each one is, where every cell, value and label
//! goes), the styles and text it carries, and the GPU statistics record.

pub mod layout;
pub mod style;
pub mod text;
pub mod widgets;
pub mod nvml;
pub mod ui;
