//! Frame-aware CPU frequency governor: the control logic.
//!
//! Jank samples from the compositor are windowed and reduced to one value per
//! window; each CPU cluster turns the workload it observes into an index into
//! its frequency table, ramping up in bursts and down one step at a time; a
//! per-cluster actor owns the hardware and switches between a governed and an
//! idle mode.

pub mod cycles;
pub mod dispatch;
pub mod error;
pub mod extension;
pub mod insider;
pub mod order;
pub mod refresh;
pub mod schedule;
pub mod sensor;
pub mod shared;
pub mod table;
pub mod text;
