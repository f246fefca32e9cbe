//! Core of a bounded-concurrency load generator.
//!
//! A run issues requests against one target for a fixed time, under a limit
//! on concurrency and, optionally, on rate, and ends with a report of
//! latencies, sizes, the requests per second and the failures. This library
//! makes every decision of such a run and performs none of its actions: it
//! holds no socket, no clock and no lock. A caller drives it, action by
//! action, and reports back what happened.
//!
//! - [`config`]: the validated settings of a run.
//! - [`headers`]: the header set, read from a JSON object.
//! - [`dispatch`]: the decisions of the main loop.
//! - [`task`]: the steps of one request.
//! - [`admission`]: the permits that bound the requests in flight.
//! - [`pacing`]: the instants at which requests may be submitted.
//! - [`metrics`]: the accumulated record of a run.
//! - [`stats`]: the summary of a sequence of samples.
//! - [`report`]: the report and its assembly.
//! - [`roots`], [`wide`], [`text`]: the arithmetic and the text handling
//!   underneath.

pub mod admission;
pub mod config;
pub mod dispatch;
pub mod headers;
pub mod metrics;
pub mod pacing;
pub mod report;
pub mod roots;
pub mod stats;
pub mod task;
pub mod text;
pub mod wide;
