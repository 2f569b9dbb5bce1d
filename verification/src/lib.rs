//! A single-pointer, atomically reference-counted, immutable string handle.
//!
//! An [`ArcStr`] is one share of ownership over an immutable text record.
//! A record is either *dynamic* — heap-allocated, shared through an atomic
//! reference count, and freed exactly when its last share drops — or
//! *static* — embedded in the program for its whole lifetime, never counted
//! and never freed. Both kinds are read through the same handle type.
//!
//! The crate is organised in three layers:
//! - [`header`] holds the packed header word that stores a record's length
//!   together with the static/dynamic discriminant bit;
//! - [`protocol`] states and proves the reference-count state machine that
//!   governs cloning and dropping of dynamic records;
//! - [`arc_str`] is the public facade: construction, views, equality,
//!   ordering, share-count and identity queries.

pub mod arc_str;
pub mod header;
pub mod protocol;

pub use arc_str::ArcStr;
pub use arc_str::RawArcStr;
pub use arc_str::StaticArcStrInner;
