//! Verified core of a tool that runs a user command against a sequence of
//! historical revisions of a version-controlled tree, one revision at a time,
//! in a shared scratch workspace.
//!
//! The library holds the parts with real invariants: exit-status
//! classification and display, the timestamp naming scheme and retention rule
//! for scratch workspaces, the construction of the process invocation, and
//! the sequencing engine that orders every collaborator call of a run.
//! Filesystem, process and version-control work is performed by an unverified
//! driver that obeys the engine's actions.

pub mod engine;
pub mod invocation;
pub mod status;
pub mod timestamp;
