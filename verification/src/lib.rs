//! Topology collection and correlation engine for a managed host.
//!
//! The library inspects a remote host through a caller-supplied command
//! executor, parses the semi-structured text the host's diagnostic commands
//! print into typed records, correlates those records across layers with
//! deterministic string-matching rules, and assembles a node/edge graph with
//! stable identifiers, per-node status and an aggregate summary.

pub mod collect;
pub mod correlate;
pub mod extract;
pub mod graph;
pub mod laws;
pub mod text;
pub mod types;
