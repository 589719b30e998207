//! Structural plumbing for a version-control host: packet framing and the
//! filter conversation, tree snapshots, tree diff, three-way merge and
//! conflict rendering.

pub mod config;
pub mod diff;
pub mod drivers;
pub mod error;
pub mod filters;
pub mod git_fuse;
pub mod graft;
pub mod merge;
pub mod pktline;
pub mod protocol;
pub mod render;
pub mod syntax;
pub mod text;
pub mod tree;
