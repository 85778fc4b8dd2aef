//! A log-forwarding agent: it follows a growing text file from its end, wraps
//! each new line in a timestamped event, and hands the event to a sink that
//! may be down.
//!
//! The library decides and the process around it acts. The process owns the
//! file, the clock and the connection; it reports what happened as an
//! [`agent::Input`], and the [`agent::Agent`] answers with the one
//! [`agent::Action`] to perform next.
//!
//! - [`tail`]: the read cursor, and the splitting of what is read into lines.
//! - [`event`]: the event made of a line, and its JSON payload.
//! - [`clock`]: instants of the wall clock and their RFC 3339 text.
//! - [`config`]: what an agent is started with, and where that is found.
//! - [`model`]: the agent as a state machine over mathematical values.
//! - [`agent`]: the executable agent, which does what the model says.
//! - [`safety`]: what holds of every run: each appended line is forwarded
//!   once and in order, nothing older is, timestamps follow the clock, and a
//!   stopped agent does nothing more.
//! - [`json`], [`text`]: what is taken from `serde_json` and from `core::str`.
//! - [`error`]: why an agent stops.

pub mod agent;
pub mod clock;
pub mod config;
pub mod error;
pub mod event;
pub mod json;
pub mod model;
pub mod safety;
pub mod tail;
pub mod text;
