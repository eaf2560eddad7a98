//! Shared-ownership handles over a single control block.
//!
//! A control block holds two counters and a payload slot. Strong handles own
//! the payload; weak handles keep only the allocation alive. The `model`
//! module states the control block's state machine and proves its lifecycle
//! laws; the `handle` module gives the executable operations, each pinned to
//! one step of that state machine; the `channel` module holds a one-shot
//! handoff cell with the same explicit-state treatment.

pub mod channel;
pub mod group;
pub mod handle;
pub mod model;
