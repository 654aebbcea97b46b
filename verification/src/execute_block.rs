//! The replay orchestrator: resolves the previous-block state of a live
//! source, fetches the block to execute, normalizes it, assembles the call
//! payload, and drives the execution engine with optional proof capture.
//!
//! Every outside operation — a header query, a state fetch, a block fetch,
//! the engine call — is issued by the driver: the orchestrator hands it an
//! `Action`, the driver performs it and hands back what came of it, and the
//! orchestrator decides the next step.

use crate::block::{spec_normalize, Block, Header};
use crate::externalities::{
    kv_view, Externalities, FetchedState, Proof, RuntimeInfo,
};
use crate::payload::{assemble_payload, spec_encode_payload, TryStateSelect};
use crate::state::{
    resolve_live, resolved_from_latest, spec_hex, LiveState, State,
};
use crate::{replay_runtime_checks, ReplayError};
use vstd::pervasive::unreached;
use vstd::prelude::*;

verus! {

/// Shared configuration for one replay invocation.
#[derive(Debug, Clone, Copy, PartialEq, Eq, Structural)]
pub struct SharedParams {
    /// Accept state whose chain identity differs from the executor's.
    pub disable_spec_name_check: bool,
    /// Record a proof of every state access performed during execution.
    pub export_proof: bool,
}

/// Configuration for the replay command.
#[derive(Debug, Clone)]
pub struct Command {
    /// Which try-state targets the engine checks after applying the block.
    pub try_state: TryStateSelect,
    /// The endpoint to fetch the block from; may be left out when the state
    /// spec is live, whose endpoint then serves both purposes.
    pub block_ws_uri: Option<String>,
    /// The state spec to replay on top of.
    pub state: State,
}

/// The endpoint the command fetches blocks from, or the configuration error
/// when none is available.
pub open spec fn spec_block_ws_uri(c: Command) -> Result<Seq<char>, ReplayError> {
    match c.block_ws_uri {
        Some(u) => Ok(u@),
        None => match c.state {
            State::Live(l) => Ok(l.uri@),
            State::Snap { .. } => Err(ReplayError::Configuration),
        },
    }
}

impl Command {
    /// The endpoint blocks are fetched from: the explicit flag when given,
    /// else the live spec's own endpoint. A snapshot spec embeds none, so
    /// without the explicit flag it is a configuration error.
    pub fn block_ws_uri(&self) -> (r: Result<String, ReplayError>)
        ensures
            (match r {
                Ok(u) => Ok::<Seq<char>, ReplayError>(u@),
                Err(e) => Err(e),
            }) == spec_block_ws_uri(*self),
    {
        match (&self.block_ws_uri, &self.state) {
            (Some(u), State::Snap { .. }) => Ok(u.clone()),
            (Some(u), State::Live(_)) => Ok(u.clone()),
            (None, State::Live(l)) => Ok(l.uri.clone()),
            (None, State::Snap { .. }) => Err(ReplayError::Configuration),
        }
    }
}

/// The single outside operation the driver performs next.
pub enum Action {
    /// Query the best-block header, with no argument; report its hash.
    FetchLatestHeader,
    /// Query the header at the given identifier; report it.
    FetchHeader { at: String },
    /// Fetch the key-value state at the given identifier from the endpoint.
    FetchState { uri: String, at: String },
    /// Fetch the full block at the given identifier.
    FetchBlock { at: String },
    /// Call the named engine entry point with the payload, reading and
    /// writing through the overlay; recording is already set.
    Invoke { ext: Externalities, entry_point: String, payload: Vec<u8>, proof_mode: bool },
}

/// What the engine reported back from one invocation.
pub enum EngineEvent {
    /// The entry point returned output bytes.
    Completed { output: Vec<u8> },
    /// The entry point aborted.
    Trapped,
    /// The target binary lacks the entry point.
    MissingEntryPoint,
}

/// The terminal result of one replay invocation: the raw output or the
/// failure, and the proof when capture was requested — a failed call still
/// yields the partial proof of what was touched before the failure.
pub struct ReplayOutcome {
    pub output: Result<Vec<u8>, ReplayError>,
    pub proof: Option<Proof>,
}

/// Where the flow stands between two outside operations.
pub enum Phase {
    /// Waiting for the best-block hash that resolves a spec without an
    /// explicit identifier.
    AwaitLatestHeader { live: LiveState },
    /// Waiting for the header at the resolved baseline, whose parent hash
    /// names the previous-block state.
    AwaitBaselineHeader { live: LiveState },
    /// Waiting for the key-value state of the previous block.
    AwaitState { live: LiveState, execute_at: String },
    /// Waiting for the full block to execute.
    AwaitBlock { ext: Externalities, execute_at: String },
    /// Waiting for the engine to finish.
    AwaitEngine { proof_mode: bool },
}

/// Whether the phase is waiting for the engine, and with what capture mode.
pub open spec fn phase_proof_mode(p: Phase) -> Option<bool> {
    match p {
        Phase::AwaitEngine { proof_mode } => Some(proof_mode),
        _ => None,
    }
}

/// The replay flow's state between two driver round trips.
pub struct Orchestrator {
    pub uri: String,
    pub try_state: TryStateSelect,
    pub shared: SharedParams,
    pub candidate: RuntimeInfo,
    pub phase: Phase,
}

/// The configuration fields never change across steps.
pub open spec fn same_config(a: Orchestrator, b: Orchestrator) -> bool {
    &&& a.uri == b.uri
    &&& a.try_state == b.try_state
    &&& a.shared == b.shared
    &&& a.candidate == b.candidate
}

impl Orchestrator {
    /// The phase data is internally consistent.
    pub open spec fn wf(self) -> bool {
        &&& self.try_state@.wf()
        &&& match self.phase {
            Phase::AwaitLatestHeader { live } => live.at is None,
            Phase::AwaitBaselineHeader { live } => live.at is Some,
            Phase::AwaitState { live, execute_at } => live.at is Some,
            Phase::AwaitBlock { ext, execute_at } => {
                &&& ext.wf()
                &&& ext.pending_view() == Seq::<(Seq<u8>, Seq<u8>)>::empty()
                &&& ext.recorded_view() == Seq::<(Seq<u8>, Option<Seq<u8>>)>::empty()
                &&& !ext.is_recording()
            },
            Phase::AwaitEngine { proof_mode } => true,
        }
    }

    /// Starts the replay flow. The endpoint is resolved and the spec is
    /// required to be live before any outside action is requested: a
    /// snapshot spec fails here, with no network call made — without an
    /// explicit endpoint it is a configuration error, with one it is an
    /// unsupported spec, never a silent fallback.
    pub fn init(shared: SharedParams, command: Command, candidate: RuntimeInfo) -> (r: Result<
        (Orchestrator, Action),
        ReplayError,
    >)
        requires
            command.try_state@.wf(),
        ensures
            r is Err <==> !(command.state matches State::Live(_)),
            match r {
                Ok(oa) => {
                    &&& oa.0.wf()
                    &&& oa.0.try_state == command.try_state
                    &&& oa.0.shared == shared
                    &&& oa.0.candidate == candidate
                    &&& Ok::<Seq<char>, ReplayError>(oa.0.uri@) == spec_block_ws_uri(command)
                    &&& match command.state {
                        State::Live(l) => {
                            &&& (l.at is Some ==> ((oa.0.phase
                                matches Phase::AwaitBaselineHeader { live } && live == l) && (oa.1
                                matches Action::FetchHeader { at } && at@ == l.at->0@)))
                            &&& (l.at is None ==> (oa.0.phase matches Phase::AwaitLatestHeader {
                                live,
                            } && live == l && oa.1 is FetchLatestHeader))
                        },
                        _ => false,
                    }
                },
                Err(e) => {
                    &&& command.state matches State::Snap { .. }
                    &&& (command.block_ws_uri is None ==> e == ReplayError::Configuration)
                    &&& (command.block_ws_uri is Some ==> e == ReplayError::Unsupported)
                },
            },
    {
        let uri = match command.block_ws_uri() {
            Ok(u) => u,
            Err(e) => {
                return Err(e);
            },
        };
        let live = match command.state {
            State::Live(l) => l,
            State::Snap { .. } => {
                return Err(ReplayError::Unsupported);
            },
        };
        if live.at.is_some() {
            let at = match &live.at {
                Some(a) => a.clone(),
                None => unreached(),
            };
            let orch = Orchestrator {
                uri,
                try_state: command.try_state,
                shared,
                candidate,
                phase: Phase::AwaitBaselineHeader { live },
            };
            Ok((orch, Action::FetchHeader { at }))
        } else {
            let orch = Orchestrator {
                uri,
                try_state: command.try_state,
                shared,
                candidate,
                phase: Phase::AwaitLatestHeader { live },
            };
            Ok((orch, Action::FetchLatestHeader))
        }
    }

    /// Consumes the best-block hash of the latest-header query: it becomes
    /// the resolved baseline identifier, and the header at that identifier
    /// is requested next. A query that reported no block is a missing-block
    /// failure.
    pub fn on_latest_header(self, latest_hash: Option<Vec<u8>>) -> (r: Result<
        (Orchestrator, Action),
        ReplayError,
    >)
        requires
            self.wf(),
            self.phase matches Phase::AwaitLatestHeader { .. },
        ensures
            r is Err <==> latest_hash is None,
            match r {
                Ok(oa) => {
                    &&& latest_hash is Some
                    &&& oa.0.wf()
                    &&& same_config(self, oa.0)
                    &&& oa.0.phase matches Phase::AwaitBaselineHeader { live }
                        && resolved_from_latest(live, self.uri, latest_hash->0@)
                    &&& oa.1 matches Action::FetchHeader { at } && at@ == spec_hex(
                        latest_hash->0@,
                    )
                },
                Err(e) => e == ReplayError::BlockNotFound,
            },
    {
        let live = match self.phase {
            Phase::AwaitLatestHeader { live } => live,
            _ => unreached(),
        };
        let resolved = match resolve_live(live, self.uri.clone(), latest_hash.as_ref()) {
            Ok(l) => l,
            Err(e) => {
                return Err(e);
            },
        };
        let at = match &resolved.at {
            Some(a) => a.clone(),
            None => unreached(),
        };
        let orch = Orchestrator {
            uri: self.uri,
            try_state: self.try_state,
            shared: self.shared,
            candidate: self.candidate,
            phase: Phase::AwaitBaselineHeader { live: resolved },
        };
        Ok((orch, Action::FetchHeader { at }))
    }

    /// Consumes the header at the resolved baseline: its parent hash names
    /// the previous block, whose state — the state just before the baseline
    /// block — is requested next, under a spec that differs from the
    /// resolved one only in its identifier. The baseline identifier itself
    /// stays the execute target: the flow executes the block whose parent
    /// state it fetches, never anything further ahead.
    pub fn on_baseline_header(self, header: Option<Header>) -> (r: Result<
        (Orchestrator, Action),
        ReplayError,
    >)
        requires
            self.wf(),
            self.phase matches Phase::AwaitBaselineHeader { .. },
        ensures
            r is Err <==> header is None,
            match r {
                Ok(oa) => {
                    &&& header is Some
                    &&& oa.0.wf()
                    &&& same_config(self, oa.0)
                    &&& (self.phase matches Phase::AwaitBaselineHeader { live: base }
                        && (oa.0.phase matches Phase::AwaitState { live, execute_at } && ({
                        &&& live.at is Some
                        &&& live.at->0@ == spec_hex(header->0.parent_hash@)
                        &&& live.uri == base.uri
                        &&& live.pallet == base.pallet
                        &&& live.hashed_prefixes == base.hashed_prefixes
                        &&& live.child_tree == base.child_tree
                        &&& execute_at@ == base.at->0@
                        &&& oa.1 matches Action::FetchState { uri, at } && uri@ == base.uri@
                            && at@ == spec_hex(header->0.parent_hash@)
                    })))
                },
                Err(e) => e == ReplayError::BlockNotFound,
            },
    {
        let base = match self.phase {
            Phase::AwaitBaselineHeader { live } => live,
            _ => unreached(),
        };
        let hdr = match header {
            Some(h) => h,
            None => {
                return Err(ReplayError::BlockNotFound);
            },
        };
        let execute_at = match &base.at {
            Some(a) => a.clone(),
            None => unreached(),
        };
        let prev_at = crate::state::hex_encoded(&hdr.parent_hash);
        let action_uri = base.uri.clone();
        let action_at = prev_at.clone();
        let prev_live = LiveState {
            uri: base.uri,
            at: Some(prev_at),
            pallet: base.pallet,
            hashed_prefixes: base.hashed_prefixes,
            child_tree: base.child_tree,
        };
        let orch = Orchestrator {
            uri: self.uri,
            try_state: self.try_state,
            shared: self.shared,
            candidate: self.candidate,
            phase: Phase::AwaitState { live: prev_live, execute_at },
        };
        Ok((orch, Action::FetchState { uri: action_uri, at: action_at }))
    }

    /// Consumes the fetched previous-block state: the compatibility gates
    /// are evaluated once, here — the identity check as configured, the
    /// version gate always off in this flow — and on success the overlay is
    /// built and the block to execute is requested next.
    pub fn on_state(self, fetched: FetchedState) -> (r: Result<
        (Orchestrator, Action),
        ReplayError,
    >)
        requires
            self.wf(),
            self.phase matches Phase::AwaitState { .. },
        ensures
            r is Err <==> (!self.shared.disable_spec_name_check && fetched.spec_name@
                != self.candidate.spec_name@),
            match r {
                Ok(oa) => {
                    &&& oa.0.wf()
                    &&& same_config(self, oa.0)
                    &&& (self.phase matches Phase::AwaitState { live, execute_at: ea }
                        && (oa.0.phase matches Phase::AwaitBlock { ext, execute_at } && ({
                        &&& ext.committed_view() == kv_view(fetched.entries@)
                        &&& execute_at == ea
                        &&& oa.1 matches Action::FetchBlock { at } && at == ea
                    })))
                },
                Err(e) => e matches ReplayError::Compatibility {
                    on_chain_name,
                    candidate_name,
                } && on_chain_name@ == fetched.spec_name@ && candidate_name@
                    == self.candidate.spec_name@,
            },
    {
        let (live, execute_at) = match self.phase {
            Phase::AwaitState { live, execute_at } => (live, execute_at),
            _ => unreached(),
        };
        let checks = replay_runtime_checks(self.shared.disable_spec_name_check);
        let ext = match Externalities::build(fetched, checks, &self.candidate, None) {
            Ok(ext) => ext,
            Err(e) => {
                return Err(e);
            },
        };
        let action_at = execute_at.clone();
        let orch = Orchestrator {
            uri: self.uri,
            try_state: self.try_state,
            shared: self.shared,
            candidate: self.candidate,
            phase: Phase::AwaitBlock { ext, execute_at },
        };
        Ok((orch, Action::FetchBlock { at: action_at }))
    }

    /// Consumes the fetched block to execute: it is normalized — its last
    /// digest item stripped — the call payload is assembled with both
    /// safety checks force-disabled, recording is set as configured, and
    /// the engine call is requested. A missing block is fatal; a block the
    /// wire scheme cannot carry is an encoding failure.
    pub fn on_block(self, block: Option<Block>) -> (r: Result<
        (Orchestrator, Action),
        ReplayError,
    >)
        requires
            self.wf(),
            self.phase matches Phase::AwaitBlock { .. },
        ensures
            match r {
                Ok(oa) => {
                    &&& block is Some && block->0@.wf()
                    &&& oa.0.wf()
                    &&& same_config(self, oa.0)
                    &&& oa.0.phase matches Phase::AwaitEngine { proof_mode } && proof_mode
                        == self.shared.export_proof
                    &&& (self.phase matches Phase::AwaitBlock { ext: given, execute_at }
                        && (oa.1 matches Action::Invoke { ext, entry_point, payload, proof_mode }
                        && ({
                        &&& ext.wf()
                        &&& ext.committed_view() == given.committed_view()
                        &&& ext.pending_view() == Seq::<(Seq<u8>, Seq<u8>)>::empty()
                        &&& ext.recorded_view() == Seq::<(Seq<u8>, Option<Seq<u8>>)>::empty()
                        &&& ext.is_recording() == self.shared.export_proof
                        &&& entry_point@ == "TryRuntime_execute_block"@
                        &&& payload@ == spec_encode_payload(
                            spec_normalize(block->0@),
                            false,
                            false,
                            self.try_state@,
                        )
                        &&& proof_mode == self.shared.export_proof
                    })))
                },
                Err(e) => {
                    ||| (block is None && e == ReplayError::BlockNotFound)
                    ||| (block is Some && !block->0@.wf() && e == ReplayError::Encoding)
                },
            },
    {
        let (mut ext, execute_at) = match self.phase {
            Phase::AwaitBlock { ext, execute_at } => (ext, execute_at),
            _ => unreached(),
        };
        let b = match block {
            Some(b) => b,
            None => {
                return Err(ReplayError::BlockNotFound);
            },
        };
        if !check_block_encodable(&b) {
            return Err(ReplayError::Encoding);
        }
        let normalized = crate::block::normalize_block(b);
        let state_root_check = false;
        let signature_check = false;
        let payload = assemble_payload(
            &normalized,
            state_root_check,
            signature_check,
            &self.try_state,
        );
        ext.set_recording(self.shared.export_proof);
        let orch = Orchestrator {
            uri: self.uri,
            try_state: self.try_state,
            shared: self.shared,
            candidate: self.candidate,
            phase: Phase::AwaitEngine { proof_mode: self.shared.export_proof },
        };
        Ok(
            (
                orch,
                Action::Invoke {
                    ext,
                    entry_point: "TryRuntime_execute_block".to_owned(),
                    payload,
                    proof_mode: self.shared.export_proof,
                },
            ),
        )
    }

    /// Consumes what the engine reported. The proof accumulated in the
    /// overlay is extracted first — whatever the outcome, so a trapped call
    /// still yields the partial proof — and is an artifact only when capture
    /// was requested. A completed call commits its pending writes without
    /// changing what a reader sees; a trapped or missing entry point
    /// discards them, leaving the overlay exactly at the baseline.
    pub fn on_engine(self, ext: Externalities, event: EngineEvent) -> (r: (
        ReplayOutcome,
        Externalities,
    ))
        requires
            self.wf(),
            self.phase matches Phase::AwaitEngine { .. },
            ext.wf(),
        ensures
            r.1.wf(),
            r.0.proof is Some <==> phase_proof_mode(self.phase) == Some(true),
            phase_proof_mode(self.phase) == Some(true) ==> r.0.proof->0.accesses@.len()
                == ext.recorded_view().len() && crate::externalities::access_view(
                r.0.proof->0.accesses@,
            ) == ext.recorded_view(),
            match event {
                EngineEvent::Completed { output } => {
                    &&& r.0.output == Ok::<Vec<u8>, ReplayError>(output)
                    &&& r.1.committed_view() == ext.pending_view() + ext.committed_view()
                    &&& r.1.pending_view() == Seq::<(Seq<u8>, Seq<u8>)>::empty()
                    &&& forall|k: Seq<u8>| #[trigger] r.1.visible(k) == ext.visible(k)
                },
                EngineEvent::Trapped => {
                    &&& r.0.output == Err::<Vec<u8>, ReplayError>(ReplayError::ExecutionTrap)
                    &&& r.1.committed_view() == ext.committed_view()
                    &&& r.1.pending_view() == Seq::<(Seq<u8>, Seq<u8>)>::empty()
                },
                EngineEvent::MissingEntryPoint => {
                    &&& r.0.output == Err::<Vec<u8>, ReplayError>(ReplayError::EntryPointMissing)
                    &&& r.1.committed_view() == ext.committed_view()
                    &&& r.1.pending_view() == Seq::<(Seq<u8>, Seq<u8>)>::empty()
                },
            },
    {
        let proof_mode = match self.phase {
            Phase::AwaitEngine { proof_mode } => proof_mode,
            _ => unreached(),
        };
        let mut ext = ext;
        let taken = ext.take_proof();
        let proof = if proof_mode {
            Some(taken)
        } else {
            None
        };
        match event {
            EngineEvent::Completed { output } => {
                ext.commit();
                (ReplayOutcome { output: Ok(output), proof }, ext)
            },
            EngineEvent::Trapped => {
                ext.rollback();
                (ReplayOutcome { output: Err(ReplayError::ExecutionTrap), proof }, ext)
            },
            EngineEvent::MissingEntryPoint => {
                ext.rollback();
                (ReplayOutcome { output: Err(ReplayError::EntryPointMissing), proof }, ext)
            },
        }
    }
}

/// Whether the wire scheme can carry the block: 32-byte roots, and digest
/// and extrinsic lists whose counts and item lengths fit the compact form.
pub fn check_block_encodable(b: &Block) -> (r: bool)
    ensures
        r == b@.wf(),
{
    if b.header.parent_hash.len() != 32 || b.header.state_root.len() != 32
        || b.header.extrinsics_root.len() != 32 {
        return false;
    }
    if !check_items_encodable(&b.header.digest) {
        return false;
    }
    if !check_items_encodable(&b.extrinsics) {
        return false;
    }
    true
}

/// Whether every item of a list is short enough for the compact form.
fn check_items_encodable(items: &Vec<Vec<u8>>) -> (r: bool)
    ensures
        r == crate::codec::items_encodable(items.deep_view()),
{
    if items.len() as u64 > u32::MAX as u64 {
        return false;
    }
    let mut i: usize = 0;
    while i < items.len()
        invariant
            i <= items@.len(),
            items.deep_view().len() == items@.len(),
            items@.len() <= u32::MAX,
            forall|j: int| 0 <= j < i ==> #[trigger] items.deep_view()[j].len() <= u32::MAX,
        decreases items@.len() - i,
    {
        assert(items.deep_view()[i as int].len() == items@[i as int]@.len());
        if items[i].len() as u64 > u32::MAX as u64 {
            return false;
        }
        i += 1;
    }
    true
}

} // verus!
