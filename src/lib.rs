//! The execution core of a demand-driven, memoizing build engine: typed
//! parameter bags, rule-graph-directed selection, task and generator steps,
//! leaf-node decisions, and the command-line option reader.

pub mod text;
pub mod params;
pub mod failure;
pub mod rules;
pub mod select;
pub mod task;
pub mod digest;
pub mod download;
pub mod process;
pub mod snapshot;
pub mod node;
pub mod scope;
pub mod args;
