//! Development-loop server core: fingerprints a source tree, detects changes
//! between polls, decides when the build artifact must be rebuilt, and renders
//! the dirty/fresh signal sent to connected clients.

pub mod checksum;
pub mod store;
pub mod tree;
pub mod scan;
pub mod artifact;
pub mod server;
