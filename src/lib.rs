//! Packaging of LÖVE games: the archive of a project's files, the executables
//! that fuse it with an engine runtime, and the rewrite of a macOS bundle's
//! metadata descriptor.

pub mod archive;
pub mod exclude;
pub mod fuse;
pub mod naming;
pub mod plan;
pub mod plist;
pub mod text;
pub mod types;
