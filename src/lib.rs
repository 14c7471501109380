//! Control plane of a background worker that hosts many vector indexes: the
//! registry of live indexes, its crash-safe record, the orphan reaper, and
//! the small shared-mutable cells the rest is built from.
pub mod cells;
pub mod registry;
pub mod reaper;
