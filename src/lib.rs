//! Batched field-element hashing over a pool of exclusive compute contexts,
//! and an incremental column/tree builder that consumes it.

pub mod builder;
pub mod cl;
pub mod element;
pub mod hasher;
pub mod marshal;
pub mod pool;
pub mod tree_model;

pub use builder::{BuildError, ColumnTreeBuilder, HashJob, UniformRoot, COLUMN_ARITY};
pub use cl::{to_u32, ClError, ClResult, Selector};
pub use element::{u64s_into_fr, Element};
pub use hasher::{GPUBatchHasher, GPUConstants, HashError, HashStep, Kernel, Strength};
pub use pool::ContextPool;
