//! The execution-ready state overlay: the fetched baseline key-value state,
//! the compatibility gates evaluated once at build time, the pending writes
//! of the current invocation, and the optional access recording that yields
//! a proof.

use crate::{ReplayError, RuntimeChecks};
use vstd::prelude::*;

verus! {

/// A key-value state fetched from a live source at the baseline block,
/// together with the chain identity and version it reported.
#[derive(Debug, Clone)]
pub struct FetchedState {
    pub entries: Vec<(Vec<u8>, Vec<u8>)>,
    pub spec_name: Vec<u8>,
    pub spec_version: u32,
}

/// The chain identity and version of the candidate executor.
#[derive(Debug, Clone)]
pub struct RuntimeInfo {
    pub spec_name: Vec<u8>,
    pub spec_version: u32,
}

/// The mathematical model of a key-value store: earlier entries shadow
/// later ones.
pub open spec fn kv_view(v: Seq<(Vec<u8>, Vec<u8>)>) -> Seq<(Seq<u8>, Seq<u8>)> {
    Seq::new(v.len(), |i: int| (v[i].0@, v[i].1@))
}

/// Looks a key up: the first matching entry wins.
pub open spec fn lookup(entries: Seq<(Seq<u8>, Seq<u8>)>, key: Seq<u8>) -> Option<Seq<u8>>
    decreases entries.len(),
{
    if entries.len() == 0 {
        None
    } else if entries[0].0 == key {
        Some(entries[0].1)
    } else {
        lookup(entries.drop_first(), key)
    }
}

/// Looking up in a concatenation consults the front store first.
pub proof fn lemma_lookup_concat(a: Seq<(Seq<u8>, Seq<u8>)>, b: Seq<(Seq<u8>, Seq<u8>)>, key: Seq<u8>)
    ensures
        lookup(a + b, key) == if lookup(a, key) is Some {
            lookup(a, key)
        } else {
            lookup(b, key)
        },
    decreases a.len(),
{
    if a.len() == 0 {
        assert(a + b =~= b);
    } else {
        assert((a + b)[0] == a[0]);
        assert((a + b).drop_first() =~= a.drop_first() + b);
        lemma_lookup_concat(a.drop_first(), b, key);
    }
}

/// The model of a recorded access log: key, and the value the baseline
/// reported for it (absent when the key was not present).
pub open spec fn access_view(v: Seq<(Vec<u8>, Option<Vec<u8>>)>) -> Seq<(Seq<u8>, Option<Seq<u8>>)> {
    Seq::new(
        v.len(),
        |i: int|
            (
                v[i].0@,
                match v[i].1 {
                    Some(x) => Some(x@),
                    None => None,
                },
            ),
    )
}

/// Looks a key up in an access log: the first matching access wins.
pub open spec fn access_lookup(log: Seq<(Seq<u8>, Option<Seq<u8>>)>, key: Seq<u8>) -> Option<
    Option<Seq<u8>>,
>
    decreases log.len(),
{
    if log.len() == 0 {
        None
    } else if log[0].0 == key {
        Some(log[0].1)
    } else {
        access_lookup(log.drop_first(), key)
    }
}

/// A compact record of the state accesses one invocation performed, from
/// which an independent verifier can re-derive the same answers without the
/// full state. Created fresh per invocation and returned to the caller.
#[derive(Debug, Clone)]
pub struct Proof {
    pub accesses: Vec<(Vec<u8>, Option<Vec<u8>>)>,
}

impl Proof {
    /// Replays one access against the proof alone: what the baseline
    /// answered for this key, or `None` when the key was never touched.
    pub fn lookup(&self, key: &Vec<u8>) -> (r: Option<Option<Vec<u8>>>)
        ensures
            (match r {
                Some(Some(v)) => Some(Some(v@)),
                Some(None) => Some(None),
                None => None::<Option<Seq<u8>>>,
            }) == access_lookup(access_view(self.accesses@), key@),
    {
        let mut i: usize = 0;
        let ghost log = access_view(self.accesses@);
        assert(log.skip(0) =~= log);
        while i < self.accesses.len()
            invariant
                i <= self.accesses@.len(),
                log == access_view(self.accesses@),
                access_lookup(log, key@) == access_lookup(log.skip(i as int), key@),
            decreases self.accesses@.len() - i,
        {
            proof {
                assert(log.skip(i as int)[0] == log[i as int]);
                assert(log.skip(i as int).drop_first() =~= log.skip(i + 1));
            }
            if bytes_eq(&self.accesses[i].0, key) {
                return Some(clone_opt_bytes(&self.accesses[i].1));
            }
            i += 1;
        }
        assert(log.skip(log.len() as int) =~= Seq::<(Seq<u8>, Option<Seq<u8>>)>::empty());
        None
    }
}

/// The mutable state overlay handed to the execution engine during a call.
/// The committed store is the baseline; writes of the current invocation
/// stay pending until the call completes, and are discarded if it traps.
#[derive(Debug)]
pub struct Externalities {
    committed: Vec<(Vec<u8>, Vec<u8>)>,
    pending: Vec<(Vec<u8>, Vec<u8>)>,
    recording: bool,
    recorded: Vec<(Vec<u8>, Option<Vec<u8>>)>,
}

impl Externalities {
    /// The baseline store visible to readers once pending writes are set
    /// aside.
    pub closed spec fn committed_view(self) -> Seq<(Seq<u8>, Seq<u8>)> {
        kv_view(self.committed@)
    }

    /// The writes of the current invocation, newest first.
    pub closed spec fn pending_view(self) -> Seq<(Seq<u8>, Seq<u8>)> {
        kv_view(self.pending@)
    }

    /// Whether accesses are being recorded for a proof.
    pub closed spec fn is_recording(self) -> bool {
        self.recording
    }

    /// The accesses recorded so far, oldest first.
    pub closed spec fn recorded_view(self) -> Seq<(Seq<u8>, Option<Seq<u8>>)> {
        access_view(self.recorded@)
    }

    /// Every recorded access reports exactly what the baseline store holds
    /// for its key.
    pub closed spec fn wf(self) -> bool {
        forall|i: int|
            0 <= i < self.recorded@.len() ==> #[trigger] access_view(self.recorded@)[i].1 == lookup(
                kv_view(self.committed@),
                access_view(self.recorded@)[i].0,
            )
    }

    /// What a reader of the overlay sees for a key: the newest pending write
    /// if there is one, else the baseline.
    pub open spec fn visible(self, key: Seq<u8>) -> Option<Seq<u8>> {
        if lookup(self.pending_view(), key) is Some {
            lookup(self.pending_view(), key)
        } else {
            lookup(self.committed_view(), key)
        }
    }

    /// Builds the overlay from a fetched state after evaluating the
    /// compatibility gates once: a chain-identity mismatch is rejected when
    /// the identity check is on, and a non-increasing version is rejected
    /// when the monotonic-version gate is on. No re-validation happens after
    /// this point. An optional patch set is laid over the fetched entries,
    /// earlier patches shadowing later ones and all of them the baseline.
    pub fn build(
        state: FetchedState,
        checks: RuntimeChecks,
        candidate: &RuntimeInfo,
        overrides: Option<Vec<(Vec<u8>, Vec<u8>)>>,
    ) -> (r: Result<Externalities, ReplayError>)
        ensures
            match r {
                Ok(ext) => {
                    &&& ext.wf()
                    &&& ext.committed_view() == (match overrides {
                        Some(p) => kv_view(p@),
                        None => Seq::<(Seq<u8>, Seq<u8>)>::empty(),
                    }) + kv_view(state.entries@)
                    &&& ext.pending_view() == Seq::<(Seq<u8>, Seq<u8>)>::empty()
                    &&& !ext.is_recording()
                    &&& ext.recorded_view() == Seq::<(Seq<u8>, Option<Seq<u8>>)>::empty()
                    &&& (checks.name_matches ==> state.spec_name@ == candidate.spec_name@)
                    &&& (checks.version_increases ==> candidate.spec_version
                        > state.spec_version)
                },
                Err(e) => {
                    ||| (checks.name_matches && state.spec_name@ != candidate.spec_name@ && (
                    e matches ReplayError::Compatibility { on_chain_name, candidate_name }
                        && on_chain_name@ == state.spec_name@ && candidate_name@
                        == candidate.spec_name@))
                    ||| (checks.version_increases && candidate.spec_version <= state.spec_version
                        && e == (ReplayError::VersionNotIncreased {
                        on_chain_version: state.spec_version,
                        candidate_version: candidate.spec_version,
                    }))
                },
            },
            r is Err ==> (checks.name_matches && state.spec_name@ != candidate.spec_name@) || (
            checks.version_increases && candidate.spec_version <= state.spec_version),
            r is Ok <== !(checks.name_matches && state.spec_name@ != candidate.spec_name@) && !(
            checks.version_increases && candidate.spec_version <= state.spec_version),
    {
        if checks.name_matches && !bytes_eq(&state.spec_name, &candidate.spec_name) {
            return Err(
                ReplayError::Compatibility {
                    on_chain_name: state.spec_name,
                    candidate_name: clone_bytes(&candidate.spec_name),
                },
            );
        }
        if checks.version_increases && candidate.spec_version <= state.spec_version {
            return Err(
                ReplayError::VersionNotIncreased {
                    on_chain_version: state.spec_version,
                    candidate_version: candidate.spec_version,
                },
            );
        }
        let mut entries = state.entries;
        let ghost base = kv_view(entries@);
        match overrides {
            None => {
                assert(Seq::<(Seq<u8>, Seq<u8>)>::empty() + base =~= base);
            },
            Some(mut patch) => {
                let ghost patch_view = kv_view(patch@);
                while patch.len() > 0
                    invariant
                        kv_view(patch@) + kv_view(entries@) == patch_view + base,
                    decreases patch@.len(),
                {
                    let ghost pend = kv_view(patch@);
                    let ghost comm = kv_view(entries@);
                    let e = match patch.pop() {
                        Some(e) => e,
                        None => vstd::pervasive::unreached(),
                    };
                    entries.insert(0, e);
                    proof {
                        assert(kv_view(patch@) =~= pend.drop_last());
                        assert(kv_view(entries@) =~= seq![pend.last()] + comm);
                        assert(kv_view(patch@) + kv_view(entries@) =~= pend + comm);
                    }
                }
                proof {
                    assert(kv_view(patch@) =~= Seq::<(Seq<u8>, Seq<u8>)>::empty());
                    assert(kv_view(patch@) + kv_view(entries@) =~= kv_view(entries@));
                }
            },
        }
        let ext = Externalities {
            committed: entries,
            pending: Vec::new(),
            recording: false,
            recorded: Vec::new(),
        };
        assert(ext.pending_view() =~= Seq::<(Seq<u8>, Seq<u8>)>::empty());
        assert(ext.recorded_view() =~= Seq::<(Seq<u8>, Option<Seq<u8>>)>::empty());
        Ok(ext)
    }

    /// Turns access recording on or off for the coming invocation.
    pub fn set_recording(&mut self, on: bool)
        requires
            old(self).wf(),
        ensures
            final(self).wf(),
            final(self).is_recording() == on,
            final(self).committed_view() == old(self).committed_view(),
            final(self).pending_view() == old(self).pending_view(),
            final(self).recorded_view() == old(self).recorded_view(),
    {
        self.recording = on;
    }

    /// Reads a key through the overlay: the newest pending write wins, else
    /// the baseline answers, and a baseline answer is recorded when
    /// recording is on.
    pub fn read(&mut self, key: &Vec<u8>) -> (r: Option<Vec<u8>>)
        requires
            old(self).wf(),
        ensures
            final(self).wf(),
            (match r {
                Some(v) => Some(v@),
                None => None,
            }) == old(self).visible(key@),
            final(self).committed_view() == old(self).committed_view(),
            final(self).pending_view() == old(self).pending_view(),
            final(self).is_recording() == old(self).is_recording(),
            final(self).recorded_view() == if old(self).is_recording() && lookup(
                old(self).pending_view(),
                key@,
            ) is None {
                old(self).recorded_view().push((key@, lookup(old(self).committed_view(), key@)))
            } else {
                old(self).recorded_view()
            },
    {
        match lookup_exec(&self.pending, key) {
            Some(v) => Some(v),
            None => {
                let v = lookup_exec(&self.committed, key);
                if self.recording {
                    let ghost before = access_view(self.recorded@);
                    self.recorded.push((clone_bytes(key), clone_opt_bytes(&v)));
                    proof {
                        assert(access_view(self.recorded@) =~= before.push(
                            (key@, lookup(kv_view(self.committed@), key@)),
                        ));
                    }
                }
                v
            },
        }
    }

    /// Stages a write for the current invocation; it shadows older writes
    /// and the baseline but commits only when the invocation completes.
    pub fn write(&mut self, key: Vec<u8>, value: Vec<u8>)
        requires
            old(self).wf(),
        ensures
            final(self).wf(),
            final(self).pending_view() == seq![(key@, value@)] + old(self).pending_view(),
            final(self).committed_view() == old(self).committed_view(),
            final(self).is_recording() == old(self).is_recording(),
            final(self).recorded_view() == old(self).recorded_view(),
    {
        let ghost before = kv_view(self.pending@);
        self.pending.insert(0, (key, value));
        proof {
            assert(kv_view(self.pending@) =~= seq![(key@, value@)] + before);
        }
    }

    /// Extracts the proof accumulated so far and stops recording; the log
    /// starts afresh.
    pub fn take_proof(&mut self) -> (r: Proof)
        requires
            old(self).wf(),
        ensures
            final(self).wf(),
            access_view(r.accesses@) == old(self).recorded_view(),
            final(self).recorded_view() == Seq::<(Seq<u8>, Option<Seq<u8>>)>::empty(),
            !final(self).is_recording(),
            final(self).committed_view() == old(self).committed_view(),
            final(self).pending_view() == old(self).pending_view(),
    {
        self.recording = false;
        let mut taken: Vec<(Vec<u8>, Option<Vec<u8>>)> = Vec::new();
        std::mem::swap(&mut taken, &mut self.recorded);
        assert(access_view(self.recorded@) =~= Seq::<(Seq<u8>, Option<Seq<u8>>)>::empty());
        Proof { accesses: taken }
    }

    /// Commits the pending writes of a completed invocation into the
    /// visible store; what a reader sees does not change.
    pub fn commit(&mut self)
        requires
            old(self).wf(),
            old(self).recorded_view() == Seq::<(Seq<u8>, Option<Seq<u8>>)>::empty(),
        ensures
            final(self).wf(),
            final(self).committed_view() == old(self).pending_view() + old(self).committed_view(),
            final(self).pending_view() == Seq::<(Seq<u8>, Seq<u8>)>::empty(),
            final(self).is_recording() == old(self).is_recording(),
            final(self).recorded_view() == Seq::<(Seq<u8>, Option<Seq<u8>>)>::empty(),
            forall|k: Seq<u8>| #[trigger] final(self).visible(k) == old(self).visible(k),
    {
        while self.pending.len() > 0
            invariant
                access_view(self.recorded@) == Seq::<(Seq<u8>, Option<Seq<u8>>)>::empty(),
                self.recording == old(self).recording,
                kv_view(self.pending@) + kv_view(self.committed@) == old(self).pending_view()
                    + old(self).committed_view(),
            decreases self.pending@.len(),
        {
            let ghost pend = kv_view(self.pending@);
            let ghost comm = kv_view(self.committed@);
            let e = match self.pending.pop() {
                Some(e) => e,
                None => {
                    return ;
                },
            };
            self.committed.insert(0, e);
            proof {
                assert(kv_view(self.pending@) =~= pend.drop_last());
                assert(kv_view(self.committed@) =~= seq![pend.last()] + comm);
                assert(kv_view(self.pending@) + kv_view(self.committed@) =~= pend + comm);
            }
        }
        proof {
            assert(kv_view(self.pending@) =~= Seq::<(Seq<u8>, Seq<u8>)>::empty());
            assert(Seq::<(Seq<u8>, Seq<u8>)>::empty() + kv_view(self.committed@) =~= kv_view(
                self.committed@,
            ));
            assert(self.wf()) by {
                assert(self.recorded@.len() == 0);
            }
            assert forall|k: Seq<u8>| #[trigger] self.visible(k) == old(self).visible(k) by {
                lemma_lookup_concat(old(self).pending_view(), old(self).committed_view(), k);
            }
        }
    }

    /// Discards the pending writes of a failed invocation: the visible
    /// store is exactly the baseline again.
    pub fn rollback(&mut self)
        requires
            old(self).wf(),
        ensures
            final(self).wf(),
            final(self).committed_view() == old(self).committed_view(),
            final(self).pending_view() == Seq::<(Seq<u8>, Seq<u8>)>::empty(),
            final(self).is_recording() == old(self).is_recording(),
            final(self).recorded_view() == old(self).recorded_view(),
    {
        self.pending.clear();
        assert(kv_view(self.pending@) =~= Seq::<(Seq<u8>, Seq<u8>)>::empty());
    }
}

/// Law: the proof is faithful to the baseline — any key the log answers, it
/// answers with exactly what the baseline holds, so replaying the recorded
/// accesses against the proof alone reproduces the baseline's answers.
pub proof fn lemma_proof_faithful(ext: Externalities, key: Seq<u8>)
    requires
        ext.wf(),
        access_lookup(ext.recorded_view(), key) is Some,
    ensures
        access_lookup(ext.recorded_view(), key) == Some(lookup(ext.committed_view(), key)),
{
    lemma_access_lookup_faithful(ext.recorded_view(), ext.committed_view(), key);
}

/// The inductive core of the proof-faithfulness law.
proof fn lemma_access_lookup_faithful(
    log: Seq<(Seq<u8>, Option<Seq<u8>>)>,
    store: Seq<(Seq<u8>, Seq<u8>)>,
    key: Seq<u8>,
)
    requires
        forall|i: int| 0 <= i < log.len() ==> #[trigger] log[i].1 == lookup(store, log[i].0),
        access_lookup(log, key) is Some,
    ensures
        access_lookup(log, key) == Some(lookup(store, key)),
    decreases log.len(),
{
    if log.len() > 0 {
        if log[0].0 == key {
        } else {
            assert(forall|i: int|
                0 <= i < log.drop_first().len() ==> #[trigger] log.drop_first()[i].1 == lookup(
                    store,
                    log.drop_first()[i].0,
                ));
            lemma_access_lookup_faithful(log.drop_first(), store, key);
        }
    }
}

/// Compares two byte strings.
pub fn bytes_eq(a: &Vec<u8>, b: &Vec<u8>) -> (r: bool)
    ensures
        r == (a@ == b@),
{
    if a.len() != b.len() {
        return false;
    }
    let mut i: usize = 0;
    while i < a.len()
        invariant
            a@.len() == b@.len(),
            i <= a@.len(),
            forall|j: int| 0 <= j < i ==> a@[j] == b@[j],
        decreases a@.len() - i,
    {
        if a[i] != b[i] {
            return false;
        }
        i += 1;
    }
    proof {
        assert(a@ =~= b@);
    }
    true
}

/// Copies a byte string.
pub fn clone_bytes(a: &Vec<u8>) -> (r: Vec<u8>)
    ensures
        r@ == a@,
{
    let mut out: Vec<u8> = Vec::new();
    crate::codec::push_all(&mut out, a);
    out
}

/// Copies an optional byte string.
fn clone_opt_bytes(a: &Option<Vec<u8>>) -> (r: Option<Vec<u8>>)
    ensures
        (match r {
            Some(v) => Some(v@),
            None => None,
        }) == (match a {
            Some(v) => Some(v@),
            None => None::<Seq<u8>>,
        }),
{
    match a {
        Some(v) => Some(clone_bytes(v)),
        None => None,
    }
}

/// Looks a key up in a key-value list, first match wins.
pub(crate) fn lookup_exec(entries: &Vec<(Vec<u8>, Vec<u8>)>, key: &Vec<u8>) -> (r: Option<Vec<u8>>)
    ensures
        (match r {
            Some(v) => Some(v@),
            None => None,
        }) == lookup(kv_view(entries@), key@),
{
    let mut i: usize = 0;
    assert(kv_view(entries@).skip(0) =~= kv_view(entries@));
    while i < entries.len()
        invariant
            i <= entries@.len(),
            lookup(kv_view(entries@), key@) == lookup(kv_view(entries@).skip(i as int), key@),
        decreases entries@.len() - i,
    {
        proof {
            assert(kv_view(entries@).skip(i as int)[0] == (entries@[i as int].0@, entries@[
            i as int].1@));
            assert(kv_view(entries@).skip(i as int).drop_first() =~= kv_view(entries@).skip(i
                + 1));
        }
        if bytes_eq(&entries[i].0, key) {
            return Some(clone_bytes(&entries[i].1));
        }
        i += 1;
    }
    assert(kv_view(entries@).skip(entries@.len() as int) =~= Seq::<(Seq<u8>, Seq<u8>)>::empty());
    None
}

} // verus!
