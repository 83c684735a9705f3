//! Event-coalescing and job-dispatch core of a directory-watching transcoding daemon.
//!
//! Raw file-system notifications are filtered, collapsed per path until the path has
//! been quiet for the configured delay, and turned into at most one job per path at a
//! time. Jobs wait in a bounded first-in-first-out queue for one of a fixed number of
//! workers; their outcomes decide between retry, success and terminal failure.
//!
//! The crate does no I/O and keeps no clock: every entry point takes plain values and
//! the current time, and answers with the next state and the action to perform.
//!
//! - [`config`]: the resolved configuration and how it is put together.
//! - [`event`], [`path`], [`normalizer`]: notifications and their filters.
//! - [`tracker`], [`queue`], [`pool`], [`timers`], [`job`], [`backoff`]: the parts.
//! - [`model`]: the pipeline as a state machine over mathematical values.
//! - [`dispatcher`]: the executable pipeline, which computes the steps of the model.
//! - [`safety`]: the invariant of the state machine; [`laws`]: what follows for users.

pub mod backoff;
pub mod config;
pub mod dispatcher;
pub mod event;
pub mod job;
pub mod laws;
pub mod model;
pub mod normalizer;
pub mod path;
pub mod pool;
pub mod queue;
pub mod safety;
pub mod timers;
pub mod tracker;
