//! A recursive file search: walks a directory tree snapshot, matches file
//! names (and optionally file contents) against compiled patterns, and
//! collects the matching paths, reporting progress along the way.

pub mod laws;
pub mod pattern;
pub mod progress;
pub mod search;
pub mod stylized;
