//! Checkpoint validity: when may a stage be skipped.
//!
//! An artifact is a named output file. It is valid exactly when it exists
//! and has non-zero size; no content inspection is performed, so a
//! truncated-but-nonempty file counts as valid (an accepted limitation of
//! the design). The caller observes existence and size on disk and hands
//! them here as plain values.

use vstd::prelude::*;

verus! {

/// What was observed of an artifact on disk: whether a file of that name
/// exists, and its size in bytes (0 when it does not exist).
pub struct ArtifactObservation {
    pub exists: bool,
    pub size: u64,
}

/// The validity predicate: the artifact exists and is non-empty.
pub open spec fn spec_is_valid(obs: ArtifactObservation) -> bool {
    obs.exists && obs.size > 0
}

/// Decides whether an observed artifact is valid, i.e. whether the stage
/// that produces it may be skipped.
pub fn is_valid(obs: &ArtifactObservation) -> (r: bool)
    ensures
        r == spec_is_valid(*obs),
{
    obs.exists && obs.size > 0
}

} // verus!
