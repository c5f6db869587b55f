//! A local, durable workflow orchestrator: the rules by which workflows are
//! scheduled, dispatched, journaled, parked and resumed.
//!
//! The library holds the decisions of the daemon and of its clients as
//! functions from plain values to plain values. Reading the clock, the database
//! and the sockets, and spawning processes, is left to the program around it.

pub mod api;
pub mod calendar_laws;
pub mod cli;
pub mod client;
pub mod clock;
pub mod config;
pub mod cron_laws;
pub mod daemon;
pub mod dispatch_laws;
pub mod journal_laws;
pub mod json;
pub mod launch;
pub mod laws;
pub mod order;
pub mod page_laws;
pub mod paths;
pub mod place_laws;
pub mod protocol;
pub mod reply_laws;
pub mod rows;
pub mod schedule_laws;
pub mod scheduler;
pub mod screen_laws;
pub mod server;
pub mod store;
pub mod tables;
pub mod text;
pub mod tui;
pub mod value_laws;
pub mod worker;
pub mod worker_laws;
pub mod workflow_laws;
