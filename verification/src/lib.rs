//! Verified core of a local multi-agent workbench: task graphs, an
//! append-only journal, layered memory, permission decisions, and the
//! deterministic scheduling / gating / merging rules around them.

pub mod daemon;
pub mod demo;
pub mod error;
pub mod external;
pub mod text;
pub mod types;
pub mod worktree;
pub mod gate;
pub mod graph;
pub mod json;
pub mod acp;
pub mod journal;
pub mod memory;
pub mod merge;
pub mod orphans;
pub mod pathutil;
pub mod permissions;
pub mod scheduler;
pub mod store;
