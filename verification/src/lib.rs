//! Core of a bounded-concurrency TCP port scanner.
//!
//! A scan probes every port of an inclusive range against one target address,
//! with at most a fixed number of probes in flight at any instant. The
//! [`coordinator::Coordinator`] state machine drives a run: it admits probes
//! through a fixed-capacity [`pool::AdmissionPool`], dispatches one
//! [`probe::ProbeRequest`] per port in ascending order, and declares the run
//! complete only once every dispatched probe has finished. The connection
//! attempts themselves are network I/O and live outside this crate; callers
//! feed each attempt's [`probe::ProbeOutcome`] back into the coordinator and
//! print the [`coordinator::OutputEvent`]s it hands out.

pub mod address;
pub mod coordinator;
pub mod pool;
pub mod probe;
