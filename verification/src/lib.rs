//! A request-throughput meter: a counter that is bumped once per hit, read by
//! observers, and drained on a fixed cadence into a throughput report.

pub mod counter;
pub mod decimal;
pub mod handlers;
pub mod history;
pub mod resetter;
