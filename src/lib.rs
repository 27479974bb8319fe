//! Runtime-checked access control for shared mutable state.
//!
//! A process-wide [`lock::LockDb`] hands out lock identities and tracks how each
//! lock is borrowed; sessions record which locks they hold and in which mode, and
//! lock-governed cells grant access to their value only to sessions holding the
//! governing lock. Entities expose their components by typed key through a
//! visitor protocol. A document tree, dirty-notification queues and to-do items
//! are built on top.

pub mod borrow;
pub mod cell;
pub mod entity;
pub mod ir;
pub mod laws;
pub mod lock;
pub mod model;
pub mod reserve;
pub mod signal;
pub mod tree;
