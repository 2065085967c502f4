//! Observation of loopback TCP traffic to a set of monitored ports, and the
//! append-only per-port time series that records it.
//!
//! A captured frame is classified ([`frame`]), filtered by its ports
//! ([`dispatch`]) and, where it brings payload to a monitored port, handed to
//! the storage writer ([`writer`]) as an observation. The writer decides what
//! is written to which file and returns that as file operations ([`ops`]);
//! [`image`] says what the operations do to the files, and [`stored`] proves
//! what a reader of the files finds afterwards.

pub mod args;
pub mod capture;
pub mod column;
pub mod dispatch;
pub mod frame;
pub mod generator;
pub mod image;
pub mod literal_bytes;
pub mod ops;
pub mod report;
pub mod stored;
pub mod text;
pub mod writer;
