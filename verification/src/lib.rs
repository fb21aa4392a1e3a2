//! A virtual-filesystem projection of a container runtime's live state.
//!
//! The library holds the projection engine itself: the identifier codec that
//! maps a container's identity string to a 64-bit filesystem identifier and
//! back, the time-bounded cache of the daemon's container listing, and the
//! directory-resolution dispatch that answers `lookup`, `getattr` and
//! `readdir` requests from a cache snapshot.  The kernel transport and the
//! runtime API client are external collaborators: callers feed the engine
//! plain values (inodes, names, offsets, fetched listings, clock readings)
//! and carry its answers back out.

pub mod containers;
pub mod docker;
pub mod docker_strategy;
pub mod parent_directories;
pub mod text;
