//! A file store addressed by a single path segment.
//!
//! A request names a file and, by its method, one of four operations on it:
//! delete, retrieve, store under the given name, or store under a fresh name
//! made of the given prefix and a random three-digit suffix.  This crate holds
//! the decisions of such a store and proves them against their contracts; it
//! performs no file access and no network access itself.  A driver hands it
//! the body of a request piece by piece, performs the file actions it asks
//! for, and reports how each went.

pub mod naming;
pub mod error;
pub mod buffer;
pub mod response;
pub mod operation;
pub mod transfer;
pub mod model;
pub mod concurrency;
