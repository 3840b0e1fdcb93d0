//! Event-driven proving pipeline for a layer-2 rollup.
//!
//! The library ingests ordered layer-1 commit/finalize events, maintains the
//! in-memory record of which batches and bundles exist and what has been
//! proved, and derives the batch- and bundle-proof requests that remain to be
//! issued. All state transitions and request derivations are verified; the
//! surrounding I/O (RPC clients, channels, retry loops) lives outside the
//! library and hands it plain values.

pub mod batch_state;
pub mod block_tracer;
pub mod bundle_state;
pub mod config;
pub mod event_log_fetcher;
pub mod event_log_parser;
pub mod state_manager;
pub mod task_manager;
pub mod types;
