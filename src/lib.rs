//! Per-node container lifecycle coordination for a scheduler plugin that
//! runs every task of a job step inside one rootless container.
//!
//! The library holds the decisions: the names and paths a step uses, the
//! state machines that elect one importer, one starter and one stopper per
//! node, the bounded waits, and the plan that imports a container's
//! environment into a task. The plugin around it performs the I/O.
pub mod args;
pub mod config;
pub mod coord;
pub mod engine;
pub mod env;
pub mod import;
pub mod job;
pub mod naming;
pub mod text;
pub mod wait;
