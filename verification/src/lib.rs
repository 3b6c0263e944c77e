//! A change-detection collection engine for watched web pages.
//!
//! The library holds the verified core of a page watcher: the persistent
//! dedup store contract, the per-run orchestrator that turns extracted links
//! into novelty counts, the retry and scheduling decisions, and the
//! composition of summary notifications. Network I/O, HTML extraction and
//! the process scaffolding live outside the library and hand it plain values.

pub mod collection;
pub mod config;
pub mod counter;
pub mod database;
pub mod decimal;
pub mod notify;
pub mod page;
pub mod pushover;
pub mod retry;
pub mod sched;
pub mod stats;
