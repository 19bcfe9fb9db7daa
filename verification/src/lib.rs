//! Request-scoped correlation identifiers and the start-up composition of
//! diagnostic sinks for an HTTP service.
//!
//! * [`header`] states what the web framework's header types do.
//! * [`requestid`] decides what a response carries once its handler is done.
//! * [`directive`] follows the parser of filter directives to where it cuts.
//! * [`filter`] chooses the directives of the log filter.
//! * [`config`] reads the configuration of the diagnostics pipeline.
//! * [`setup`] decides which sinks a process runs with and in what order they
//!   are built and installed.

pub mod config;
pub mod directive;
pub mod filter;
pub mod header;
pub mod requestid;
pub mod setup;
