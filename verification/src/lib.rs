//! A verified state-replay harness core: it resolves a live state
//! specification to a baseline block, re-derives the state just before that
//! block, assembles the exact wire payload for re-executing the block, and
//! drives an execution engine with optional proof capture.

pub mod block;
pub mod codec;
pub mod execute_block;
pub mod externalities;
pub mod inherents;
pub mod payload;
pub mod state;

use vstd::prelude::*;

verus! {

/// The error taxonomy surfaced by every step of the replay flow.
///
/// Every error is reported to the top-level caller as a typed result;
/// none is swallowed.
#[derive(Debug, Clone, PartialEq, Eq)]
pub enum ReplayError {
    /// Invalid or contradictory flags or state specifications; reported
    /// before any network access is attempted.
    Configuration,
    /// The selected state-spec variant is not permitted by the caller's
    /// policy (the replay flow requires a live source).
    Unsupported,
    /// The remote source is unreachable or the connection was lost.
    StateUnavailable,
    /// The requested block identifier does not exist on the remote source.
    BlockNotFound,
    /// Chain-identity mismatch at externalities-build time, with the two
    /// mismatching identifiers.
    Compatibility { on_chain_name: Vec<u8>, candidate_name: Vec<u8> },
    /// The candidate version does not exceed the on-chain version while the
    /// monotonic-version gate is enabled.
    VersionNotIncreased { on_chain_version: u32, candidate_version: u32 },
    /// The invoked entry point aborted.
    ExecutionTrap,
    /// The target binary lacks the requested diagnostic entry point.
    EntryPointMissing,
    /// Payload or output (de)serialization failure.
    Encoding,
}

/// The three independent runtime-compatibility switches evaluated once, at
/// externalities-build time.
#[derive(Debug, Clone, Copy, PartialEq, Eq, Structural)]
pub struct RuntimeChecks {
    /// Reject state whose chain identity differs from the executor's.
    pub name_matches: bool,
    /// Require the candidate version to exceed the on-chain version.
    pub version_increases: bool,
    /// Assume the diagnostic entry point is present; execution fails later
    /// if the target binary lacks it.
    pub try_runtime_feature_enabled: bool,
}

/// The checks the replay flow applies when fetching the baseline state:
/// the identity check is configurable, the version gate is always off, and
/// the diagnostic entry point is assumed present.
pub fn replay_runtime_checks(disable_spec_name_check: bool) -> (r: RuntimeChecks)
    ensures
        r.name_matches == !disable_spec_name_check,
        !r.version_increases,
        r.try_runtime_feature_enabled,
{
    RuntimeChecks {
        name_matches: !disable_spec_name_check,
        version_increases: false,
        try_runtime_feature_enabled: true,
    }
}

} // verus!
