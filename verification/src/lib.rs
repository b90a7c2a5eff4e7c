//! Verified core of a disk-cleanup tool: the cleanup catalogue, the safety
//! guard in front of every deletion, path-template expansion, and the
//! accounting of what a scan or a cleanup found and freed.

pub mod stats;
pub mod text;
pub mod glob;
pub mod winpath;
pub mod guard;
pub mod template;
pub mod expand;
pub mod scan;
pub mod targets;
pub mod outcome;
