//! An event-sourced hotel reservation core: a reservation aggregate, an
//! append-only event log with optimistic concurrency, and a materialized
//! read view kept up to date from the committed events.

mod keyed;
pub mod commands;
pub mod events;
pub mod aggregate;
pub mod event_log;
pub mod queries;
pub mod runtime;
