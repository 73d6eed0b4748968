//! Verified core of a panel applet that monitors CPU, memory, network, disk
//! and GPU usage: its settings model, the texts it shows, and the decisions
//! its update loop takes.
pub mod config;
pub mod text;
pub mod format;
pub mod tooltip;
pub mod panel;
pub mod applet;
pub mod sensors;
pub mod double;
