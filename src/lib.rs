//! Locating, installing and caching the neocmakelsp language server binary.
//!
//! The decisions of the resolution pipeline live here, verified; the host
//! calls (PATH lookup, release queries, downloads, file system access) are
//! made by the caller, which feeds their outcomes back as events.

pub mod version;
pub mod platform;
pub mod install;
pub mod resolver;
