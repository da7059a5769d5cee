//! Columnar, archetype-organized component storage with validated views.
//!
//! Entities that share a component-type set form an archetype; each archetype
//! stores one contiguous column per component type, all columns sharing one
//! row order. Queries are described by views (`Read`, `Write`,
//! `TrackedWrite`), checked against held access permissions before any data
//! is touched, matched to archetypes by filters, and consumed through a
//! splittable, random-access fetch suitable for divide-and-conquer
//! parallelism. Every mutable access advances a per-column version counter,
//! the basis of change detection.

pub mod filter;
pub mod indexed;
pub mod permissions;
pub mod storage;
pub mod tracked_write;
pub mod view;
