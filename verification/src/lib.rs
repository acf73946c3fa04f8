//! An event-sourced command-handling engine.
//!
//! A command is turned into a sequence of immutable domain events, persisted
//! to an append-only per-entity stream guarded by optimistic concurrency.
//! The functional core of a domain is a decider: `initial_state`, `decide`,
//! `evolve` and `is_terminal`. The dispatcher replays a stream through
//! `evolve`, consults `is_terminal`, lets `decide` produce new events, and
//! appends them at the exact revision that was read.


pub mod bridge;
pub mod codec;
pub mod command;
pub mod decider;
pub mod eventsourcing;
pub mod monitoring;
pub mod multi;
pub mod stream;
