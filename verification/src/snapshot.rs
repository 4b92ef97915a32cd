//! Snapshot store: the state view, root and change set of each proposal, by
//! consensus digest, with the bookkeeping of which digests are persisted and
//! which are being persisted.

use crate::change_set::{
    among, lemma_among_all, lemma_among_step, merge_all, ChangeSet, ChangeSetView,
};
use crate::overlay::OverlayState;
use crate::primitives::{WordKey, B256};
use std::collections::BTreeMap;
use std::collections::BTreeSet;
use vstd::prelude::*;

verus! {

/// The identifier that consensus gives to a block proposal: 32 opaque bytes.
#[derive(Clone, Copy, Debug, PartialEq, Eq, Structural, Hash, PartialOrd, Ord)]
pub struct ConsensusDigest {
    /// The first sixteen bytes, as a big-endian number.
    pub hi: u128,
    /// The last sixteen bytes, as a big-endian number.
    pub lo: u128,
}

impl View for ConsensusDigest {
    type V = WordKey;

    open spec fn view(&self) -> WordKey {
        (self.hi, self.lo)
    }
}

impl ConsensusDigest {
    /// The digest whose 32 bytes all equal `byte`.
    pub fn repeat_byte(byte: u8) -> (d: ConsensusDigest)
        ensures
            d.hi == byte * 0x0101_0101_0101_0101_0101_0101_0101_0101,
            d.lo == d.hi,
    {
        let b: u128 = byte as u128;
        let half: u128 = b * 0x0101_0101_0101_0101_0101_0101_0101_0101;
        ConsensusDigest { hi: half, lo: half }
    }

    /// The key under which this digest stands in an ordered map.
    pub fn key(&self) -> (k: WordKey)
        ensures
            k == self@,
    {
        (self.hi, self.lo)
    }
}

/// Where a digest stands on its way to durable storage.
#[derive(Clone, Copy, Debug, PartialEq, Eq, Structural)]
pub enum DigestStatus {
    /// No snapshot is recorded for the digest.
    Unknown,
    /// A snapshot is recorded; it is neither persisted nor being persisted.
    Pending,
    /// The digest is part of a commit that is under way.
    Persisting,
    /// The digest is durably committed.
    Persisted,
}

/// Why the chain of unpersisted ancestors of a digest cannot be built.
#[derive(Clone, Copy, Debug, PartialEq, Eq, Structural)]
pub enum BrokenChain {
    /// A digest on the way has no snapshot.
    MissingSnapshot,
    /// A snapshot on the way is not persisted and names no parent.
    MissingParent,
}

impl BrokenChain {
    /// The failure in words.
    pub fn message(&self) -> (text: &'static str)
        ensures
            text@ == (match self {
                BrokenChain::MissingSnapshot => "missing snapshot"@,
                BrokenChain::MissingParent => "missing parent snapshot"@,
            }),
    {
        match self {
            BrokenChain::MissingSnapshot => "missing snapshot",
            BrokenChain::MissingParent => "missing parent snapshot",
        }
    }
}

/// The recorded outcome of executing one proposal.
#[verifier::reject_recursive_types(S)]
pub struct LedgerSnapshot<S> {
    /// The digest of the parent proposal; `None` for genesis.
    pub parent: Option<ConsensusDigest>,
    /// The state view that holds the changes up to this digest.
    pub state: OverlayState<S>,
    /// The state root computed for this snapshot.
    pub state_root: B256,
    /// The change set that executing the block gave.
    pub changes: ChangeSet,
}

impl<S: Clone> Clone for LedgerSnapshot<S> {
    fn clone(&self) -> (copy: Self)
        ensures
            copy.parent == self.parent,
            copy.state_root == self.state_root,
            copy.changes@ == self.changes@,
            copy.state.delta() == self.state.delta(),
    {
        LedgerSnapshot {
            parent: self.parent,
            state: self.state.clone(),
            state_root: self.state_root,
            changes: self.changes.clone(),
        }
    }
}

/// The digests from `digest` back to the last persisted ancestor, the newest
/// first, as the parent links of `snapshots` give them; or why the walk breaks.
pub open spec fn ancestor_walk<S>(
    snapshots: Map<WordKey, LedgerSnapshot<S>>,
    persisted: Set<WordKey>,
    rank: Map<WordKey, nat>,
    digest: WordKey,
) -> Result<Seq<WordKey>, BrokenChain>
    decreases rank[digest],
    when ranked(snapshots, persisted, rank)
{
    if persisted.contains(digest) {
        Ok(Seq::empty())
    } else if !snapshots.contains_key(digest) {
        Err(BrokenChain::MissingSnapshot)
    } else {
        match snapshots[digest].parent {
            None => Err(BrokenChain::MissingParent),
            Some(parent) => match ancestor_walk(snapshots, persisted, rank, parent@) {
                Ok(rest) => Ok(seq![digest] + rest),
                Err(e) => Err(e),
            },
        }
    }
}

/// Whether `rank` orders the unpersisted snapshots: each one that names a
/// parent names a recorded one of lower rank. The parent links of such
/// snapshots then form no cycle.
pub open spec fn ranked<S>(
    snapshots: Map<WordKey, LedgerSnapshot<S>>,
    persisted: Set<WordKey>,
    rank: Map<WordKey, nat>,
) -> bool {
    forall|d: WordKey|
        #![trigger snapshots[d]]
        snapshots.contains_key(d) && !persisted.contains(d) ==> (snapshots[d].parent matches Some(
            p,
        ) ==> snapshots.contains_key(p@) && rank[p@] < rank[d])
}

/// The key of the parent that `snapshot` names, if it names one.
pub open spec fn parent_key<S>(snapshot: LedgerSnapshot<S>) -> Option<WordKey> {
    match snapshot.parent {
        Some(p) => Some(p@),
        None => None,
    }
}

/// The change sets of the snapshots of `chain`, in the order of `chain`.
pub open spec fn chain_changes<S>(
    snapshots: Map<WordKey, LedgerSnapshot<S>>,
    chain: Seq<WordKey>,
) -> Seq<ChangeSetView> {
    Seq::new(chain.len(), |i: int| snapshots[chain[i]].changes@)
}

/// The keys of a sequence of digests.
pub open spec fn digest_keys(chain: Seq<ConsensusDigest>) -> Seq<WordKey> {
    Seq::new(chain.len(), |i: int| chain[i]@)
}

/// The snapshots by digest, and which digests are persisted or being persisted.
#[verifier::reject_recursive_types(S)]
pub struct SnapshotStore<S> {
    snapshots: BTreeMap<WordKey, LedgerSnapshot<S>>,
    persisted: BTreeSet<WordKey>,
    persisting: BTreeSet<WordKey>,
    rank: Ghost<Map<WordKey, nat>>,
}

impl<S: Clone> Clone for SnapshotStore<S> {
    fn clone(&self) -> (copy: Self)
        ensures
            copy.snapshots() == self.snapshots(),
            copy.persisted() == self.persisted(),
            copy.persisting() == self.persisting(),
            copy.rank() == self.rank(),
    {
        SnapshotStore {
            snapshots: self.snapshots.clone(),
            persisted: self.persisted.clone(),
            persisting: self.persisting.clone(),
            rank: Ghost(self.rank@),
        }
    }
}

impl<S> SnapshotStore<S> {
    /// Whether the store is well formed: the parent links of its unpersisted
    /// snapshots lead to recorded snapshots and form no cycle.
    pub open spec fn wf(&self) -> bool {
        ranked(self.snapshots(), self.persisted(), self.rank())
    }

    /// The recorded snapshots, by digest.
    pub closed spec fn snapshots(&self) -> Map<WordKey, LedgerSnapshot<S>> {
        self.snapshots@
    }

    /// The digests that are durably committed.
    pub closed spec fn persisted(&self) -> Set<WordKey> {
        self.persisted@
    }

    /// The digests that a commit under way has claimed.
    pub closed spec fn persisting(&self) -> Set<WordKey> {
        self.persisting@
    }

    /// A rank that orders the unpersisted snapshots below their children.
    pub closed spec fn rank(&self) -> Map<WordKey, nat> {
        self.rank@
    }

    /// Where `digest` stands.
    pub open spec fn status_of(&self, digest: WordKey) -> DigestStatus {
        if self.persisted().contains(digest) {
            DigestStatus::Persisted
        } else if self.persisting().contains(digest) {
            DigestStatus::Persisting
        } else if self.snapshots().contains_key(digest) {
            DigestStatus::Pending
        } else {
            DigestStatus::Unknown
        }
    }

    /// Whether a commit of `chain` may start: no digest of it is persisted or
    /// being persisted.
    pub open spec fn persistable(&self, chain: Seq<ConsensusDigest>) -> bool {
        forall|i: int|
            0 <= i < chain.len() ==> !self.persisted().contains(#[trigger] chain[i]@)
                && !self.persisting().contains(chain[i]@)
    }

    /// The unpersisted ancestors of `digest`, the newest first, or why the
    /// chain is broken.
    pub open spec fn unpersisted_chain(&self, digest: WordKey) -> Result<Seq<WordKey>, BrokenChain> {
        ancestor_walk(self.snapshots(), self.persisted(), self.rank(), digest)
    }

    /// The store that holds the genesis snapshot alone, as persisted.
    pub fn new(genesis_digest: ConsensusDigest, genesis_snapshot: LedgerSnapshot<S>) -> (store: Self)
        ensures
            store.wf(),
            store.snapshots() == Map::<WordKey, LedgerSnapshot<S>>::empty().insert(
                genesis_digest@,
                genesis_snapshot,
            ),
            store.persisted() == Set::<WordKey>::empty().insert(genesis_digest@),
            store.persisting() == Set::<WordKey>::empty(),
    {
        let mut snapshots: BTreeMap<WordKey, LedgerSnapshot<S>> = BTreeMap::new();
        snapshots.insert(genesis_digest.key(), genesis_snapshot);
        let mut persisted: BTreeSet<WordKey> = BTreeSet::new();
        persisted.insert(genesis_digest.key());
        let persisting: BTreeSet<WordKey> = BTreeSet::new();
        SnapshotStore { snapshots, persisted, persisting, rank: Ghost(Map::empty()) }
    }

    /// The snapshot of `digest`, if one is recorded.
    pub fn get(&self, digest: &ConsensusDigest) -> (snapshot: Option<&LedgerSnapshot<S>>)
        ensures
            snapshot is Some == self.snapshots().contains_key(digest@),
            snapshot matches Some(s) ==> *s == self.snapshots()[digest@],
    {
        self.snapshots.get(&digest.key())
    }

    /// Whether a snapshot is recorded for `digest`.
    pub fn contains(&self, digest: &ConsensusDigest) -> (known: bool)
        ensures
            known == self.snapshots().contains_key(digest@),
    {
        self.snapshots.contains_key(&digest.key())
    }

    /// Whether `digest` is durably committed.
    pub fn is_persisted(&self, digest: &ConsensusDigest) -> (persisted: bool)
        ensures
            persisted == self.persisted().contains(digest@),
    {
        self.persisted.contains(&digest.key())
    }

    /// Where `digest` stands.
    pub fn status(&self, digest: &ConsensusDigest) -> (status: DigestStatus)
        ensures
            status == self.status_of(digest@),
    {
        let key = digest.key();
        if self.persisted.contains(&key) {
            DigestStatus::Persisted
        } else if self.persisting.contains(&key) {
            DigestStatus::Persisting
        } else if self.snapshots.contains_key(&key) {
            DigestStatus::Pending
        } else {
            DigestStatus::Unknown
        }
    }

    /// Records `snapshot` under a digest that has none yet. Its parent, where
    /// it names one, has a snapshot already.
    pub fn insert(&mut self, digest: ConsensusDigest, snapshot: LedgerSnapshot<S>)
        requires
            old(self).wf(),
            !old(self).snapshots().contains_key(digest@),
            snapshot.parent matches Some(p) ==> old(self).snapshots().contains_key(p@),
        ensures
            final(self).wf(),
            final(self).snapshots() == old(self).snapshots().insert(digest@, snapshot),
            final(self).persisted() == old(self).persisted(),
            final(self).persisting() == old(self).persisting(),
    {
        let ghost above: nat = match snapshot.parent {
            Some(p) => self.rank@[p@] + 1,
            None => 0,
        };
        let ghost before = self.snapshots@;
        self.rank = Ghost(self.rank@.insert(digest@, above));
        self.snapshots.insert(digest.key(), snapshot);
    }

    /// Whether a commit of `chain` may start: every digest of it is neither
    /// persisted nor being persisted. The answer holds for as long as the
    /// caller keeps the store to itself; `try_persisting_chain` tests and
    /// claims in one step.
    pub fn can_persist_chain(&self, chain: &[ConsensusDigest]) -> (free: bool)
        ensures
            free == self.persistable(chain@),
    {
        let mut i: usize = 0;
        while i < chain.len()
            invariant
                i <= chain@.len(),
                forall|j: int|
                    0 <= j < i ==> !self.persisted().contains(#[trigger] chain@[j]@)
                        && !self.persisting().contains(chain@[j]@),
            decreases chain@.len() - i,
        {
            let key = chain[i].key();
            if self.persisted.contains(&key) || self.persisting.contains(&key) {
                return false;
            }
            i = i + 1;
        }
        true
    }

    /// Claims every digest of `chain` for a commit that starts.
    pub fn mark_persisting_chain(&mut self, chain: &[ConsensusDigest])
        requires
            old(self).wf(),
        ensures
            final(self).wf(),
            final(self).persisting() == old(self).persisting().union(digest_keys(chain@).to_set()),
            final(self).persisted() == old(self).persisted(),
            final(self).snapshots() == old(self).snapshots(),
            final(self).rank() == old(self).rank(),
    {
        let ghost before = self.persisting@;
        let mut i: usize = 0;
        proof {
            lemma_among_all(digest_keys(chain@));
        }
        while i < chain.len()
            invariant
                i <= chain@.len(),
                self.persisted@ == old(self).persisted@,
                self.snapshots@ == old(self).snapshots@,
                self.rank@ == old(self).rank@,
                forall|k: WordKey|
                    #![trigger self.persisting@.contains(k)]
                    self.persisting@.contains(k) <==> before.contains(k) || among(
                        digest_keys(chain@),
                        i as int,
                        k,
                    ),
            decreases chain@.len() - i,
        {
            proof {
                lemma_among_step(digest_keys(chain@), i as int);
                assert(digest_keys(chain@)[i as int] == chain@[i as int]@);
            }
            self.persisting.insert(chain[i].key());
            i = i + 1;
        }
        proof {
            let keys = digest_keys(chain@);
            lemma_among_all(keys);
            assert(self.persisting@ =~= before.union(keys.to_set()));
        }
    }

    /// Claims every digest of `chain` for a commit, where a commit of it may
    /// start, and says whether it did; else the store stays as it is. The
    /// test and the claim are one step: no other caller can come between.
    pub fn try_persisting_chain(&mut self, chain: &[ConsensusDigest]) -> (claimed: bool)
        requires
            old(self).wf(),
        ensures
            final(self).wf(),
            claimed == old(self).persistable(chain@),
            final(self).persisting() == (if claimed {
                old(self).persisting().union(digest_keys(chain@).to_set())
            } else {
                old(self).persisting()
            }),
            final(self).persisted() == old(self).persisted(),
            final(self).snapshots() == old(self).snapshots(),
            final(self).rank() == old(self).rank(),
    {
        if self.can_persist_chain(chain) {
            self.mark_persisting_chain(chain);
            true
        } else {
            false
        }
    }

    /// Releases every digest of `chain` after a commit that failed, so that
    /// the commit can be tried again.
    pub fn clear_persisting_chain(&mut self, chain: &[ConsensusDigest])
        requires
            old(self).wf(),
        ensures
            final(self).wf(),
            final(self).persisting() == old(self).persisting().difference(
                digest_keys(chain@).to_set(),
            ),
            final(self).persisted() == old(self).persisted(),
            final(self).snapshots() == old(self).snapshots(),
            final(self).rank() == old(self).rank(),
    {
        let ghost before = self.persisting@;
        let mut i: usize = 0;
        proof {
            lemma_among_all(digest_keys(chain@));
        }
        while i < chain.len()
            invariant
                i <= chain@.len(),
                self.persisted@ == old(self).persisted@,
                self.snapshots@ == old(self).snapshots@,
                self.rank@ == old(self).rank@,
                forall|k: WordKey|
                    #![trigger self.persisting@.contains(k)]
                    self.persisting@.contains(k) <==> before.contains(k) && !among(
                        digest_keys(chain@),
                        i as int,
                        k,
                    ),
            decreases chain@.len() - i,
        {
            proof {
                lemma_among_step(digest_keys(chain@), i as int);
                assert(digest_keys(chain@)[i as int] == chain@[i as int]@);
            }
            let key = chain[i].key();
            self.persisting.remove(&key);
            i = i + 1;
        }
        proof {
            let keys = digest_keys(chain@);
            lemma_among_all(keys);
            assert(self.persisting@ =~= before.difference(keys.to_set()));
        }
    }

    /// Records every digest of `chain` as durably committed.
    pub fn mark_persisted_chain(&mut self, chain: &[ConsensusDigest])
        requires
            old(self).wf(),
        ensures
            final(self).wf(),
            final(self).persisted() == old(self).persisted().union(digest_keys(chain@).to_set()),
            final(self).persisting() == old(self).persisting(),
            final(self).snapshots() == old(self).snapshots(),
            final(self).rank() == old(self).rank(),
    {
        let ghost before = self.persisted@;
        let mut i: usize = 0;
        proof {
            lemma_among_all(digest_keys(chain@));
        }
        while i < chain.len()
            invariant
                i <= chain@.len(),
                self.persisting@ == old(self).persisting@,
                self.snapshots@ == old(self).snapshots@,
                self.rank@ == old(self).rank@,
                self.wf(),
                forall|k: WordKey|
                    #![trigger self.persisted@.contains(k)]
                    self.persisted@.contains(k) <==> before.contains(k) || among(
                        digest_keys(chain@),
                        i as int,
                        k,
                    ),
            decreases chain@.len() - i,
        {
            proof {
                lemma_among_step(digest_keys(chain@), i as int);
                assert(digest_keys(chain@)[i as int] == chain@[i as int]@);
            }
            self.persisted.insert(chain[i].key());
            i = i + 1;
        }
        proof {
            let keys = digest_keys(chain@);
            lemma_among_all(keys);
            assert(self.persisted@ =~= before.union(keys.to_set()));
        }
    }

    /// The unpersisted ancestors of `digest` up to `digest` itself, the oldest
    /// first, and their change sets merged in that order. For a persisted
    /// digest both are empty. A digest on the way without a snapshot, or an
    /// unpersisted one without a parent, breaks the chain.
    pub fn merged_changes_for_persist(&self, digest: ConsensusDigest) -> (r: Result<
        (Vec<ConsensusDigest>, ChangeSet),
        BrokenChain,
    >)
        requires
            self.wf(),
        ensures
            match self.unpersisted_chain(digest@) {
                Ok(path) => r matches Ok((chain, merged)) && digest_keys(chain@) == path.reverse()
                    && merged@ == merge_all(chain_changes(self.snapshots(), path.reverse())),
                Err(e) => r == Err::<(Vec<ConsensusDigest>, ChangeSet), BrokenChain>(e),
            },
            self.persisted().contains(digest@) ==> (r matches Ok((chain, merged)) && chain@.len() == 0
                && merged@ == Map::<crate::primitives::AddressKey, crate::change_set::AccountUpdateView>::empty()),
    {
        let ghost snaps = self.snapshots@;
        let ghost done = self.persisted@;
        let ghost rank = self.rank@;
        let mut newest_first: Vec<ConsensusDigest> = Vec::new();
        let mut current = digest;
        assert(digest_keys(newest_first@) + Seq::<WordKey>::empty() =~= Seq::<WordKey>::empty());
        while !self.persisted.contains(&current.key())
            invariant
                snaps == self.snapshots@,
                done == self.persisted@,
                rank == self.rank@,
                ranked(snaps, done, rank),
                forall|j: int|
                    0 <= j < newest_first@.len() ==> snaps.contains_key(#[trigger] newest_first@[j]@),
                match ancestor_walk(snaps, done, rank, current@) {
                    Ok(rest) => ancestor_walk(snaps, done, rank, digest@) == Ok::<
                        Seq<WordKey>,
                        BrokenChain,
                    >(digest_keys(newest_first@) + rest),
                    Err(e) => ancestor_walk(snaps, done, rank, digest@) == Err::<
                        Seq<WordKey>,
                        BrokenChain,
                    >(e),
                },
            decreases rank[current@],
        {
            let snapshot = match self.snapshots.get(&current.key()) {
                Some(snapshot) => snapshot,
                None => {
                    return Err(BrokenChain::MissingSnapshot);
                },
            };
            let ghost before = digest_keys(newest_first@);
            newest_first.push(current);
            let parent = match snapshot.parent {
                Some(parent) => parent,
                None => {
                    return Err(BrokenChain::MissingParent);
                },
            };
            proof {
                assert(snaps[current@].parent == Some(parent));
                assert(digest_keys(newest_first@) =~= before + seq![current@]);
                match ancestor_walk(snaps, done, rank, parent@) {
                    Ok(rest) => {
                        assert(before + (seq![current@] + rest) =~= digest_keys(newest_first@)
                            + rest);
                    },
                    Err(_) => {},
                }
            }
            current = parent;
        }
        proof {
            assert(digest_keys(newest_first@) + Seq::<WordKey>::empty() =~= digest_keys(
                newest_first@,
            ));
        }
        let ghost path = digest_keys(newest_first@);
        if newest_first.len() == 0 {
            proof {
                assert(path.reverse() =~= path);
                assert(chain_changes(snaps, path.reverse()) =~= Seq::<ChangeSetView>::empty());
            }
            return Ok((Vec::new(), ChangeSet::default()));
        }
        let n = newest_first.len();
        let mut chain: Vec<ConsensusDigest> = Vec::new();
        let mut i: usize = 0;
        while i < n
            invariant
                n == newest_first@.len(),
                i <= n,
                chain@.len() == i,
                forall|j: int| 0 <= j < i ==> chain@[j] == newest_first@[n - 1 - j],
            decreases n - i,
        {
            chain.push(newest_first[n - 1 - i]);
            i = i + 1;
        }
        proof {
            assert(digest_keys(chain@) =~= path.reverse());
        }
        let ghost ordered = digest_keys(chain@);
        let mut merged = ChangeSet::default();
        let mut k: usize = 0;
        proof {
            assert(chain_changes(snaps, ordered.take(0)) =~= Seq::<ChangeSetView>::empty());
        }
        while k < n
            invariant
                n == chain@.len(),
                k <= n,
                snaps == self.snapshots@,
                ordered == digest_keys(chain@),
                forall|j: int| 0 <= j < n ==> snaps.contains_key(#[trigger] chain@[j]@),
                merged@ == merge_all(chain_changes(snaps, ordered.take(k as int))),
            decreases n - k,
        {
            let step = chain[k];
            let snapshot = self.snapshots.get(&step.key()).unwrap();
            proof {
                let upto = chain_changes(snaps, ordered.take(k + 1));
                assert(upto.drop_last() =~= chain_changes(snaps, ordered.take(k as int)));
                assert(upto.last() == snaps[step@].changes@);
            }
            merged.merge(snapshot.changes.clone());
            k = k + 1;
        }
        proof {
            assert(ordered.take(n as int) =~= ordered);
        }
        Ok((chain, merged))
    }
}

/// A chain whose commit failed can be tried again: once its digests are
/// released, and none of them is persisted, a commit of the chain may start.
pub proof fn lemma_cleared_chain_is_persistable<S>(
    store: SnapshotStore<S>,
    cleared: SnapshotStore<S>,
    chain: Seq<ConsensusDigest>,
)
    requires
        forall|i: int| 0 <= i < chain.len() ==> !store.persisted().contains(#[trigger] chain[i]@),
        cleared.persisted() == store.persisted(),
        cleared.persisting() == store.persisting().difference(digest_keys(chain).to_set()),
    ensures
        cleared.persistable(chain),
{
    assert forall|i: int| 0 <= i < chain.len() implies !cleared.persisted().contains(
        #[trigger] chain[i]@,
    ) && !cleared.persisting().contains(chain[i]@) by {
        assert(digest_keys(chain)[i] == chain[i]@);
        assert(digest_keys(chain).contains(chain[i]@));
    }
}

/// Claiming a chain and releasing it again leaves a chain that could be
/// committed as free as it was.
pub proof fn lemma_failed_commit_is_retryable<S>(
    before: SnapshotStore<S>,
    marked: SnapshotStore<S>,
    cleared: SnapshotStore<S>,
    chain: Seq<ConsensusDigest>,
)
    requires
        before.persistable(chain),
        marked.persisted() == before.persisted(),
        marked.persisting() == before.persisting().union(digest_keys(chain).to_set()),
        cleared.persisted() == marked.persisted(),
        cleared.persisting() == marked.persisting().difference(digest_keys(chain).to_set()),
    ensures
        cleared.persistable(chain),
{
    lemma_cleared_chain_is_persistable(marked, cleared, chain);
}

/// The chain of a persisted digest is empty, and so is its merged change set.
pub proof fn lemma_persisted_chain_is_empty<S>(store: SnapshotStore<S>, digest: ConsensusDigest)
    requires
        store.wf(),
        store.persisted().contains(digest@),
    ensures
        store.unpersisted_chain(digest@) == Ok::<Seq<WordKey>, BrokenChain>(Seq::empty()),
        merge_all(chain_changes(store.snapshots(), Seq::<WordKey>::empty())) == Map::<
            crate::primitives::AddressKey,
            crate::change_set::AccountUpdateView,
        >::empty(),
{
    assert(chain_changes(store.snapshots(), Seq::<WordKey>::empty()) =~= Seq::<
        ChangeSetView,
    >::empty());
}

/// The chain of an unpersisted digest, the oldest first: it ends in the
/// digest itself, each digest in it is recorded and unpersisted, each names
/// the one before it as its parent, and the parent of the first is persisted.
pub proof fn lemma_chain_follows_parents<S>(store: SnapshotStore<S>, digest: WordKey)
    requires
        store.wf(),
        store.unpersisted_chain(digest) is Ok,
        !store.persisted().contains(digest),
    ensures
        ({
            let chain = store.unpersisted_chain(digest)->Ok_0.reverse();
            &&& chain.len() > 0
            &&& chain.last() == digest
            &&& forall|i: int|
                0 <= i < chain.len() ==> store.snapshots().contains_key(#[trigger] chain[i])
                    && !store.persisted().contains(chain[i])
            &&& forall|i: int|
                0 < i < chain.len() ==> parent_key(#[trigger] store.snapshots()[chain[i]]) == Some(
                    chain[i - 1],
                )
            &&& parent_key(store.snapshots()[chain[0]]) is Some
            &&& store.persisted().contains(parent_key(store.snapshots()[chain[0]])->Some_0)
        }),
    decreases store.rank()[digest],
{
    let parent = store.snapshots()[digest].parent->Some_0;
    let path = store.unpersisted_chain(digest)->Ok_0;
    let rest = store.unpersisted_chain(parent@)->Ok_0;
    assert(path == seq![digest] + rest);
    let chain = path.reverse();
    if store.persisted().contains(parent@) {
        assert(rest =~= Seq::<WordKey>::empty());
        assert(chain =~= seq![digest]);
    } else {
        lemma_chain_follows_parents(store, parent@);
        let older = rest.reverse();
        assert(chain =~= older + seq![digest]);
        assert forall|i: int| 0 < i < chain.len() implies parent_key(
            #[trigger] store.snapshots()[chain[i]],
        ) == Some(chain[i - 1]) by {
            if i < older.len() {
                assert(chain[i] == older[i]);
            } else {
                assert(chain[i] == digest);
                assert(chain[i - 1] == older.last());
            }
        }
    }
}

} // verus!
