//! Time tracking per project: date-range parsing, the open/closed session
//! state machine, the log's line format and the aggregation of hours.

pub mod aggregate;
pub mod controller;
pub mod logfile;
pub mod range;
pub mod session;
pub mod time;
