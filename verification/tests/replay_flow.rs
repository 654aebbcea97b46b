//! Flow tests: spec resolution, the orchestrator's step sequence, the
//! compatibility gates, proof capture, and the selector's command surface.

use try_replay::block::{Block, Header};
use try_replay::execute_block::{Action, Command, EngineEvent, Orchestrator, SharedParams};
use try_replay::externalities::{Externalities, FetchedState, RuntimeInfo};
use try_replay::payload::{assemble_payload, parse_try_state, TryStateSelect};
use try_replay::state::{resolve_live, LiveState, State};
use try_replay::{replay_runtime_checks, ReplayError};

fn live(uri: &str, at: Option<&str>) -> LiveState {
    LiveState {
        uri: uri.to_string(),
        at: at.map(|s| s.to_string()),
        pallet: Vec::new(),
        hashed_prefixes: Vec::new(),
        child_tree: false,
    }
}

fn sample_header(number: u32, parent: u8) -> Header {
    Header {
        parent_hash: vec![parent; 32],
        number,
        state_root: vec![0x22; 32],
        extrinsics_root: vec![0x33; 32],
        digest: vec![vec![1], vec![2]],
    }
}

fn candidate(name: &[u8], version: u32) -> RuntimeInfo {
    RuntimeInfo { spec_name: name.to_vec(), spec_version: version }
}

fn fetched(name: &[u8], version: u32) -> FetchedState {
    FetchedState {
        entries: vec![(b"key-a".to_vec(), b"val-a".to_vec())],
        spec_name: name.to_vec(),
        spec_version: version,
    }
}

#[test]
fn resolve_keeps_explicit_identifier() {
    let spec = live("ws://a", Some("00ff"));
    let resolved = resolve_live(spec, "ws://b".to_string(), Some(&vec![0xaa; 32])).unwrap();
    assert_eq!(resolved.at.as_deref(), Some("00ff"));
    assert_eq!(resolved.uri, "ws://a");
}

#[test]
fn resolve_uses_latest_header_hash() {
    let hash: Vec<u8> = vec![0xab, 0xcd, 0x01];
    let resolved = resolve_live(live("ws://a", None), "ws://b".to_string(), Some(&hash)).unwrap();
    assert_eq!(resolved.at.as_deref(), Some("abcd01"));
    assert_eq!(resolved.at.as_deref(), Some(hex::encode(&hash).as_str()));
    assert_eq!(resolved.uri, "ws://b");
    // Resolving again with the identifier passed explicitly lands on the
    // same baseline.
    let explicit = resolve_live(live("ws://b", Some("abcd01")), "ws://b".to_string(), None)
        .unwrap();
    assert_eq!(explicit.at, resolved.at);
}

#[test]
fn resolve_without_any_block_fails() {
    let r = resolve_live(live("ws://a", None), "ws://b".to_string(), None);
    assert!(matches!(r, Err(ReplayError::BlockNotFound)));
}

#[test]
fn snapshot_spec_is_rejected_before_any_action() {
    let shared = SharedParams { disable_spec_name_check: false, export_proof: false };
    // With an explicit endpoint the spec itself is unsupported.
    let cmd = Command {
        try_state: TryStateSelect::All,
        block_ws_uri: Some("ws://a".to_string()),
        state: State::Snap { path: Some("chain.snap".to_string()) },
    };
    match Orchestrator::init(shared, cmd, candidate(b"runtime", 2)) {
        Err(e) => assert_eq!(e, ReplayError::Unsupported),
        Ok(_) => panic!("a snapshot spec must not start the flow"),
    }
    // Without one it is a configuration error.
    let cmd = Command {
        try_state: TryStateSelect::All,
        block_ws_uri: None,
        state: State::Snap { path: None },
    };
    match Orchestrator::init(shared, cmd, candidate(b"runtime", 2)) {
        Err(e) => assert_eq!(e, ReplayError::Configuration),
        Ok(_) => panic!("a snapshot spec without an endpoint must not start the flow"),
    }
}

#[test]
fn runtime_checks_for_replay_fix_the_version_gate() {
    let checks = replay_runtime_checks(false);
    assert!(checks.name_matches);
    assert!(!checks.version_increases);
    assert!(checks.try_runtime_feature_enabled);
    let checks = replay_runtime_checks(true);
    assert!(!checks.name_matches);
}

#[test]
fn build_rejects_chain_identity_mismatch() {
    let checks = replay_runtime_checks(false);
    let r = Externalities::build(fetched(b"alpha", 5), checks, &candidate(b"beta", 9), None);
    match r {
        Err(ReplayError::Compatibility { on_chain_name, candidate_name }) => {
            assert_eq!(on_chain_name, b"alpha".to_vec());
            assert_eq!(candidate_name, b"beta".to_vec());
        }
        _ => panic!("the identity gate must reject a mismatch"),
    }
    // Disabling the check lets the mismatch through.
    let checks = replay_runtime_checks(true);
    assert!(Externalities::build(fetched(b"alpha", 5), checks, &candidate(b"beta", 9), None).is_ok());
}

#[test]
fn build_rejects_non_increasing_version_when_gated() {
    let checks = try_replay::RuntimeChecks {
        name_matches: false,
        version_increases: true,
        try_runtime_feature_enabled: true,
    };
    let r = Externalities::build(fetched(b"alpha", 5), checks, &candidate(b"alpha", 5), None);
    match r {
        Err(ReplayError::VersionNotIncreased { on_chain_version, candidate_version }) => {
            assert_eq!(on_chain_version, 5);
            assert_eq!(candidate_version, 5);
        }
        _ => panic!("the version gate must reject a non-increasing version"),
    }
    assert!(Externalities::build(fetched(b"alpha", 5), checks, &candidate(b"alpha", 6), None).is_ok());
}

#[test]
fn overrides_shadow_the_fetched_entries() {
    let checks = replay_runtime_checks(true);
    let patch = vec![
        (b"key-a".to_vec(), b"patched".to_vec()),
        (b"key-b".to_vec(), b"added".to_vec()),
    ];
    let mut ext = Externalities::build(fetched(b"x", 1), checks, &candidate(b"y", 1), Some(patch))
        .unwrap();
    assert_eq!(ext.read(&b"key-a".to_vec()), Some(b"patched".to_vec()));
    assert_eq!(ext.read(&b"key-b".to_vec()), Some(b"added".to_vec()));
}

#[test]
fn end_to_end_trap_yields_partial_proof_and_no_side_effects() {
    let shared = SharedParams { disable_spec_name_check: false, export_proof: true };
    let cmd = Command {
        try_state: TryStateSelect::All,
        block_ws_uri: None,
        state: State::Live(live("ws://node", None)),
    };
    let best_hash: Vec<u8> = vec![0x64; 32];

    let (orch, action) = Orchestrator::init(shared, cmd, candidate(b"runtime", 2)).unwrap();
    assert!(matches!(action, Action::FetchLatestHeader));

    let (orch, action) = orch.on_latest_header(Some(best_hash.clone())).unwrap();
    let best_hex = hex::encode(&best_hash);
    match &action {
        Action::FetchHeader { at } => assert_eq!(at, &best_hex),
        _ => panic!("the baseline header comes next"),
    }

    // The header at the baseline: its parent names the previous block.
    let baseline_header = sample_header(100, 0x63);
    let (orch, action) = orch.on_baseline_header(Some(baseline_header)).unwrap();
    let parent_hex = hex::encode(vec![0x63u8; 32]);
    match &action {
        Action::FetchState { uri, at } => {
            assert_eq!(uri, "ws://node");
            assert_eq!(at, &parent_hex);
        }
        _ => panic!("the previous-block state comes next"),
    }

    let (orch, action) = orch.on_state(fetched(b"runtime", 2)).unwrap();
    match &action {
        Action::FetchBlock { at } => assert_eq!(at, &best_hex),
        _ => panic!("the block to execute comes next"),
    }

    // The block at the baseline identifier, sealed with one extra digest
    // item.
    let block = Block { header: sample_header(100, 0x63), extrinsics: vec![vec![7, 7]] };
    let expected_normalized = Block {
        header: Header { digest: vec![vec![1]], ..sample_header(100, 0x63) },
        extrinsics: vec![vec![7, 7]],
    };
    let (orch, action) = orch.on_block(Some(block)).unwrap();
    let (mut ext, entry_point, payload, proof_mode) = match action {
        Action::Invoke { ext, entry_point, payload, proof_mode } => {
            (ext, entry_point, payload, proof_mode)
        }
        _ => panic!("the engine call comes last"),
    };
    assert_eq!(entry_point, "TryRuntime_execute_block");
    assert!(proof_mode);
    assert_eq!(
        payload,
        assemble_payload(&expected_normalized, false, false, &TryStateSelect::All)
    );

    // A simulated engine: one read, one write, then a trap.
    let read = ext.read(&b"key-a".to_vec());
    assert_eq!(read, Some(b"val-a".to_vec()));
    ext.write(b"key-a".to_vec(), b"poisoned".to_vec());
    assert_eq!(ext.read(&b"key-a".to_vec()), Some(b"poisoned".to_vec()));

    let (outcome, mut ext) = orch.on_engine(ext, EngineEvent::Trapped);
    assert_eq!(outcome.output, Err(ReplayError::ExecutionTrap));
    let proof = outcome.proof.expect("a trapped call still yields the partial proof");
    assert_eq!(proof.accesses, vec![(b"key-a".to_vec(), Some(b"val-a".to_vec()))]);
    // No persisted side effects: the overlay reads exactly the baseline.
    assert_eq!(ext.read(&b"key-a".to_vec()), Some(b"val-a".to_vec()));
}

#[test]
fn completed_call_commits_writes_and_no_proof_without_capture() {
    let shared = SharedParams { disable_spec_name_check: true, export_proof: false };
    let cmd = Command {
        try_state: TryStateSelect::RoundRobin(3),
        block_ws_uri: Some("ws://other".to_string()),
        state: State::Live(live("ws://node", Some("ff00"))),
    };
    let (orch, action) = Orchestrator::init(shared, cmd, candidate(b"other", 1)).unwrap();
    match &action {
        Action::FetchHeader { at } => assert_eq!(at, "ff00"),
        _ => panic!("an explicit identifier still needs its header"),
    }
    let (orch, _) = orch.on_baseline_header(Some(sample_header(9, 0x08))).unwrap();
    let (orch, _) = orch.on_state(fetched(b"node-runtime", 7)).unwrap();
    let block = Block { header: sample_header(9, 0x08), extrinsics: vec![] };
    let (orch, action) = orch.on_block(Some(block)).unwrap();
    let mut ext = match action {
        Action::Invoke { ext, proof_mode, .. } => {
            assert!(!proof_mode);
            ext
        }
        _ => panic!("the engine call comes last"),
    };
    ext.write(b"fresh".to_vec(), b"value".to_vec());
    let (outcome, mut ext) = orch.on_engine(ext, EngineEvent::Completed { output: vec![1] });
    assert_eq!(outcome.output, Ok(vec![1]));
    assert!(outcome.proof.is_none());
    assert_eq!(ext.read(&b"fresh".to_vec()), Some(b"value".to_vec()));
    assert_eq!(ext.read(&b"key-a".to_vec()), Some(b"val-a".to_vec()));
}

#[test]
fn successful_capture_yields_a_proof_that_replays_the_reads() {
    let shared = SharedParams { disable_spec_name_check: true, export_proof: true };
    let cmd = Command {
        try_state: TryStateSelect::All,
        block_ws_uri: None,
        state: State::Live(live("ws://node", Some("0a"))),
    };
    let (orch, _) = Orchestrator::init(shared, cmd, candidate(b"r", 1)).unwrap();
    let (orch, _) = orch.on_baseline_header(Some(sample_header(4, 0x03))).unwrap();
    let (orch, _) = orch.on_state(fetched(b"whatever", 1)).unwrap();
    let block = Block { header: sample_header(4, 0x03), extrinsics: vec![] };
    let (orch, action) = orch.on_block(Some(block)).unwrap();
    let mut ext = match action {
        Action::Invoke { ext, .. } => ext,
        _ => panic!("the engine call comes last"),
    };
    // A simulated engine: two reads, one of a missing key.
    let hit = ext.read(&b"key-a".to_vec());
    let miss = ext.read(&b"ghost-key".to_vec());
    let (outcome, _) = orch.on_engine(ext, EngineEvent::Completed { output: vec![] });
    let proof = outcome.proof.expect("capture was requested");
    assert!(!proof.accesses.is_empty());
    // Replaying against the proof alone answers exactly as the baseline did.
    assert_eq!(proof.lookup(&b"key-a".to_vec()), Some(hit));
    assert_eq!(proof.lookup(&b"ghost-key".to_vec()), Some(miss));
    assert_eq!(proof.lookup(&b"never-touched".to_vec()), None);
}

#[test]
fn missing_block_and_missing_header_are_fatal() {
    let shared = SharedParams { disable_spec_name_check: true, export_proof: false };
    let cmd = Command {
        try_state: TryStateSelect::Nothing,
        block_ws_uri: None,
        state: State::Live(live("ws://node", Some("aa"))),
    };
    let (orch, _) = Orchestrator::init(shared, cmd.clone(), candidate(b"r", 1)).unwrap();
    assert_eq!(orch.on_baseline_header(None).err(), Some(ReplayError::BlockNotFound));
    let (orch, _) = Orchestrator::init(shared, cmd, candidate(b"r", 1)).unwrap();
    let (orch, _) = orch.on_baseline_header(Some(sample_header(2, 0x01))).unwrap();
    let (orch, _) = orch.on_state(fetched(b"r", 1)).unwrap();
    assert_eq!(orch.on_block(None).err(), Some(ReplayError::BlockNotFound));
}

#[test]
fn a_block_the_wire_scheme_cannot_carry_is_an_encoding_failure() {
    let shared = SharedParams { disable_spec_name_check: true, export_proof: false };
    let cmd = Command {
        try_state: TryStateSelect::All,
        block_ws_uri: None,
        state: State::Live(live("ws://node", Some("0b"))),
    };
    let (orch, _) = Orchestrator::init(shared, cmd, candidate(b"r", 1)).unwrap();
    let (orch, _) = orch.on_baseline_header(Some(sample_header(4, 0x03))).unwrap();
    let (orch, _) = orch.on_state(fetched(b"r", 1)).unwrap();
    // A root of the wrong width cannot be carried.
    let bad = Block {
        header: Header {
            parent_hash: vec![0x03; 31],
            number: 4,
            state_root: vec![0x22; 32],
            extrinsics_root: vec![0x33; 32],
            digest: vec![],
        },
        extrinsics: vec![],
    };
    assert_eq!(orch.on_block(Some(bad)).err(), Some(ReplayError::Encoding));
}

#[test]
fn a_missing_entry_point_discards_writes() {
    let shared = SharedParams { disable_spec_name_check: true, export_proof: false };
    let cmd = Command {
        try_state: TryStateSelect::All,
        block_ws_uri: None,
        state: State::Live(live("ws://node", Some("0c"))),
    };
    let (orch, _) = Orchestrator::init(shared, cmd, candidate(b"r", 1)).unwrap();
    let (orch, _) = orch.on_baseline_header(Some(sample_header(4, 0x03))).unwrap();
    let (orch, _) = orch.on_state(fetched(b"r", 1)).unwrap();
    let block = Block { header: sample_header(4, 0x03), extrinsics: vec![] };
    let (orch, action) = orch.on_block(Some(block)).unwrap();
    let mut ext = match action {
        Action::Invoke { ext, .. } => ext,
        _ => panic!("the engine call comes last"),
    };
    ext.write(b"key-a".to_vec(), b"never-committed".to_vec());
    let (outcome, mut ext) = orch.on_engine(ext, EngineEvent::MissingEntryPoint);
    assert_eq!(outcome.output, Err(ReplayError::EntryPointMissing));
    assert!(outcome.proof.is_none());
    assert_eq!(ext.read(&b"key-a".to_vec()), Some(b"val-a".to_vec()));
}

#[test]
fn parse_try_state_accepts_the_fixed_words() {
    assert!(matches!(parse_try_state(&b"all".to_vec()), Ok(TryStateSelect::All)));
    assert!(matches!(parse_try_state(&b"All".to_vec()), Ok(TryStateSelect::All)));
    assert!(matches!(parse_try_state(&b"none".to_vec()), Ok(TryStateSelect::Nothing)));
    assert!(matches!(parse_try_state(&b"None".to_vec()), Ok(TryStateSelect::Nothing)));
}

#[test]
fn parse_try_state_reads_round_robin_counts() {
    match parse_try_state(&b"rr-10".to_vec()) {
        Ok(TryStateSelect::RoundRobin(n)) => assert_eq!(n, 10),
        _ => panic!("a round-robin count must parse"),
    }
    match parse_try_state(&b"rr-0".to_vec()) {
        Ok(TryStateSelect::RoundRobin(n)) => assert_eq!(n, 0),
        _ => panic!("a zero count must parse"),
    }
    match parse_try_state(&b"rr-4294967295".to_vec()) {
        Ok(TryStateSelect::RoundRobin(n)) => assert_eq!(n, u32::MAX),
        _ => panic!("the largest count must parse"),
    }
    assert!(matches!(parse_try_state(&b"rr-".to_vec()), Err(ReplayError::Configuration)));
    assert!(matches!(parse_try_state(&b"rr-12x".to_vec()), Err(ReplayError::Configuration)));
    assert!(matches!(
        parse_try_state(&b"rr-4294967296".to_vec()),
        Err(ReplayError::Configuration)
    ));
}

#[test]
fn parse_try_state_splits_pallet_lists() {
    match parse_try_state(&b"Staking, System".to_vec()) {
        Ok(TryStateSelect::Only(names)) => {
            assert_eq!(names, vec![b"Staking".to_vec(), b"System".to_vec()]);
        }
        _ => panic!("a pallet list must parse"),
    }
    match parse_try_state(&b"Balances".to_vec()) {
        Ok(TryStateSelect::Only(names)) => assert_eq!(names, vec![b"Balances".to_vec()]),
        _ => panic!("a single pallet must parse"),
    }
}
