//! Build-on-save watcher: the decisions that turn file changes into
//! rebuilds, stated and proved as state machines over plain values.

pub mod aggregator;
pub mod config;
pub mod executor;
pub mod retry;
pub mod run_loop;
pub mod watcher;
