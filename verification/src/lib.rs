//! A double-buffered hand-off store for keyed entries.
//!
//! Writers accumulate keyed entries in a write-target store; a reader
//! periodically drains everything accumulated since the previous drain by
//! swapping the roles of two interchangeable stores. Within one window the
//! last write for a key wins; a drain returns each surviving entry exactly
//! once and leaves the buffer empty.

pub mod buffer;
pub mod cache;
pub mod laws;
