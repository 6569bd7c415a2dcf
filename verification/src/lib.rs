//! Orchestration core for a document-conversion service: option parsing,
//! workspace isolation, converter argument construction, artifact location,
//! and retention sweeping.

use vstd::prelude::*;

pub mod artifact;
pub mod invoke;
pub mod options;
pub mod strnum;
pub mod sweep;
pub mod text;
pub mod workspace;

verus! {

/// Seconds between two retention sweep passes.
pub const CLEANUP_INTERVAL_SECS: u64 = 600;

/// Age in seconds past which a stored artifact or staged upload may be deleted.
pub const FILE_MAX_AGE_SECS: u64 = 3 * 60 * 60;

} // verus!
