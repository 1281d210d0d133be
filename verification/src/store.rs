//! The store: the swappable published snapshot, the slot arena, the scan
//! lock, and the refresh/consolidate/snapshot operations.
//!
//! Reading the published snapshot or a slot's bundle is a lock-free atomic
//! load of a reference-counted value. Publishing is one atomic swap: a reader
//! sees the entirely old or entirely new snapshot, never a mix. Consolidation
//! passes are serialized by the scan lock; first-time initialization of one
//! slot is serialized by that slot's own lock.

use vstd::prelude::*;
use vstd::rwlock::RwLock;

use crate::bundle::{arc_clone, init_bundle_if_empty, IndexAndPacks};
use crate::paths::{bytes_equal, clone_bytes, pack_subdir};
use crate::plan::{published_slot_list, reconcile};
use crate::scan::{append_candidates, sort_by_mtime_desc, FileEntry, ScanItem};
use crate::slotmap::{LooseStore, SharedCounter, SlotIndexMarker, SlotMapIndex};
use crate::slotmap::{decide_refresh, RefreshAction};
use crate::{Error, RefreshMode};

verus! {

/// The published slot-map snapshot, swappable as one atomic unit.
///
/// Relies on arc_swap::ArcSwap over a reference-counted `SlotMapIndex`:
/// loads are lock-free, a store is one atomic swap, and an old snapshot
/// stays alive while any holder retains it.
#[verifier::external_body]
struct SnapshotCell {
    inner: arc_swap::ArcSwap<SlotMapIndex>,
}

impl SnapshotCell {
    /// Relies on arc_swap::ArcSwap::from_pointee to hold the initial value.
    #[verifier::external_body]
    fn new(v: SlotMapIndex) -> SnapshotCell {
        SnapshotCell { inner: arc_swap::ArcSwap::from_pointee(v) }
    }

    /// Relies on arc_swap::ArcSwapAny::load_full: returns the currently
    /// published snapshot. Another thread may publish at any moment, so
    /// nothing is stated of the value.
    #[verifier::external_body]
    fn load(&self) -> std::sync::Arc<SlotMapIndex> {
        self.inner.load_full()
    }

    /// Relies on arc_swap::ArcSwapAny::store: atomically publishes `v`.
    #[verifier::external_body]
    fn publish(&self, v: std::sync::Arc<SlotMapIndex>) {
        self.inner.store(v)
    }
}

/// One slot's swappable optional bundle.
///
/// Relies on arc_swap::ArcSwap over a reference-counted optional bundle:
/// lock-free loads, atomic replacement.
#[verifier::external_body]
#[verifier::reject_recursive_types(I)]
#[verifier::reject_recursive_types(D)]
#[verifier::reject_recursive_types(M)]
struct BundleCell<I, D, M> {
    inner: arc_swap::ArcSwap<Option<IndexAndPacks<I, D, M>>>,
}

impl<I, D, M> BundleCell<I, D, M> {
    /// Relies on arc_swap::ArcSwap::from_pointee; the slot starts empty.
    #[verifier::external_body]
    fn new_empty() -> BundleCell<I, D, M> {
        BundleCell { inner: arc_swap::ArcSwap::from_pointee(None) }
    }

    /// Relies on arc_swap::ArcSwapAny::load_full: returns the slot's current
    /// contents. Another thread may replace them at any moment, so nothing is
    /// stated of the value.
    #[verifier::external_body]
    fn get(&self) -> std::sync::Arc<Option<IndexAndPacks<I, D, M>>> {
        self.inner.load_full()
    }

    /// Relies on arc_swap::ArcSwapAny::store: atomically replaces the slot's
    /// contents.
    #[verifier::external_body]
    fn set(&self, v: std::sync::Arc<Option<IndexAndPacks<I, D, M>>>) {
        self.inner.store(v)
    }
}

/// A fixed-identity slot: its bundle cell plus the lock that serializes its
/// one-time initialization.
#[verifier::reject_recursive_types(I)]
#[verifier::reject_recursive_types(D)]
#[verifier::reject_recursive_types(M)]
pub struct Slot<I, D, M> {
    files: BundleCell<I, D, M>,
    write: RwLock<u8, spec_fn(u8) -> bool>,
}

impl<I, D, M> Slot<I, D, M> {
    /// An empty slot.
    fn new() -> Slot<I, D, M> {
        Slot { files: BundleCell::new_empty(), write: RwLock::new(0u8, Ghost(|v: u8| true)) }
    }
}

/// The growable slot arena, republished as a whole on growth; the slots
/// themselves are reference-counted cells with a stable identity, so growth
/// never relocates a live slot.
///
/// Relies on arc_swap::ArcSwap over a reference-counted vector of slots.
#[verifier::external_body]
#[verifier::reject_recursive_types(I)]
#[verifier::reject_recursive_types(D)]
#[verifier::reject_recursive_types(M)]
struct SlotsCell<I, D, M> {
    inner: arc_swap::ArcSwap<Vec<std::sync::Arc<Slot<I, D, M>>>>,
}

impl<I, D, M> SlotsCell<I, D, M> {
    /// Relies on arc_swap::ArcSwap::from_pointee; the arena starts empty.
    #[verifier::external_body]
    fn new_empty() -> SlotsCell<I, D, M> {
        SlotsCell { inner: arc_swap::ArcSwap::from_pointee(Vec::new()) }
    }

    /// Relies on arc_swap::ArcSwapAny::load_full: returns the current arena.
    /// A concurrent consolidation may append slots at any moment, so nothing
    /// is stated of the value.
    #[verifier::external_body]
    fn get(&self) -> std::sync::Arc<Vec<std::sync::Arc<Slot<I, D, M>>>> {
        self.inner.load_full()
    }

    /// Relies on arc_swap::ArcSwapAny::store: atomically republishes the
    /// arena.
    #[verifier::external_body]
    fn set(&self, v: std::sync::Arc<Vec<std::sync::Arc<Slot<I, D, M>>>>) {
        self.inner.store(v)
    }
}

/// Every emitted entry's id is one of the live slot indices.
pub open spec fn entry_ids_live<I, D, M>(live: Seq<usize>, entries: Seq<IndexLookup<I, D, M>>) -> bool {
    forall|u: int| 0 <= u < entries.len() ==> live.contains((#[trigger] entries[u]).id)
}

/// The entries a snapshot emits for per-slot observations `(id, lookup)`, in
/// order: exactly the observations that yielded a lookup, each under its slot
/// index; the rest are omitted, not kept as placeholders.
pub open spec fn emitted_entries<I, D, M>(
    obs: Seq<(usize, Option<SingleOrMultiIndex<I, D, M>>)>,
) -> Seq<IndexLookup<I, D, M>>
    decreases obs.len(),
{
    if obs.len() == 0 {
        Seq::empty()
    } else {
        emitted_entries(obs.drop_last()) + (match obs.last().1 {
            Some(f) => seq![IndexLookup { file: f, id: obs.last().0 }],
            None => Seq::empty(),
        })
    }
}

/// At most one entry is emitted per observation.
proof fn lemma_emitted_len<I, D, M>(obs: Seq<(usize, Option<SingleOrMultiIndex<I, D, M>>)>)
    ensures
        emitted_entries(obs).len() <= obs.len(),
    decreases obs.len(),
{
    if obs.len() > 0 {
        lemma_emitted_len(obs.drop_last());
    }
}

/// Every emitted entry's id comes from one of the observations.
proof fn lemma_emitted_ids<I, D, M>(obs: Seq<(usize, Option<SingleOrMultiIndex<I, D, M>>)>)
    ensures
        forall|u: int|
            0 <= u < emitted_entries(obs).len() ==> exists|q: int|
                0 <= q < obs.len() && (#[trigger] emitted_entries(obs)[u]).id == obs[q].0,
    decreases obs.len(),
{
    if obs.len() > 0 {
        lemma_emitted_ids(obs.drop_last());
        assert forall|u: int| 0 <= u < emitted_entries(obs).len() implies exists|q: int|
            0 <= q < obs.len() && (#[trigger] emitted_entries(obs)[u]).id == obs[q].0 by {
            let shorter = emitted_entries(obs.drop_last());
            if u < shorter.len() {
                let q = choose|q: int|
                    0 <= q < obs.drop_last().len() && (#[trigger] emitted_entries(
                        obs.drop_last(),
                    )[u]).id == obs.drop_last()[q].0;
                assert(obs.drop_last()[q] == obs[q]);
                assert(emitted_entries(obs)[u] == shorter[u]);
            } else {
                assert(emitted_entries(obs)[u].id == obs[obs.len() - 1].0);
            }
        }
    }
}

/// Assemble the snapshot entries for the observed lookups: exactly the
/// emission law `emitted_entries` applied to the observations.
pub fn entries_for_observations<I, D, M>(
    obs: Vec<(usize, Option<SingleOrMultiIndex<I, D, M>>)>,
) -> (r: Vec<IndexLookup<I, D, M>>)
    ensures
        r@ == emitted_entries(obs@),
{
    let ghost allobs = obs@;
    let mut rest = obs;
    let mut r: Vec<IndexLookup<I, D, M>> = Vec::new();
    let total = rest.len();
    let mut i: usize = 0;
    proof {
        assert(allobs.len() == total);
        assert(allobs.take(0) =~= Seq::<(usize, Option<SingleOrMultiIndex<I, D, M>>)>::empty());
        assert(r@ =~= emitted_entries(allobs.take(0)));
        assert(rest@ =~= allobs.skip(0));
    }
    while rest.len() > 0
        invariant
            0 <= i <= allobs.len(),
            allobs.len() <= usize::MAX,
            i + rest@.len() == allobs.len(),
            rest@ == allobs.skip(i as int),
            r@ == emitted_entries(allobs.take(i as int)),
        decreases rest@.len(),
    {
        proof {
            assert(allobs.take(i + 1).drop_last() =~= allobs.take(i as int));
            assert(allobs.take(i + 1).last() == allobs[i as int]);
            assert(rest@[0] == allobs[i as int]);
        }
        let (id, entry) = rest.remove(0);
        proof {
            assert(rest@ =~= allobs.skip(i + 1));
        }
        match entry {
            Some(file) => {
                r.push(IndexLookup { file, id });
                proof {
                    assert(r@ =~= emitted_entries(allobs.take(i + 1)));
                }
            }
            None => {
                proof {
                    assert(r@ =~= emitted_entries(allobs.take(i + 1)));
                }
            }
        }
        i = i + 1;
    }
    proof {
        assert(allobs.take(allobs.len() as int) =~= allobs);
    }
    r
}

/// One coherent account of a collected snapshot: there is one observation
/// per live slot of the observed slot-map snapshot, paired index-by-index
/// with `slot_indices` (none when uninitialized), and the snapshot's entries
/// are exactly the emission law applied to those observations; its marker and
/// loose-store list are the observed snapshot's own.
pub open spec fn snapshot_observes<I, D, M>(
    s: Snapshot<I, D, M>,
    observed: SlotMapIndex,
    obs: Seq<(usize, Option<SingleOrMultiIndex<I, D, M>>)>,
) -> bool {
    &&& s.marker.generation == observed.generation
    &&& s.marker.state_id.serial == observed.serial
    &&& s.loose_dbs == observed.loose_dbs
    &&& obs.len() == (if observed.is_initialized_spec() {
        observed.slot_indices@.len() as int
    } else {
        0
    })
    &&& (forall|q: int| 0 <= q < obs.len() ==> (#[trigger] obs[q]).0 == observed.slot_indices@[q])
    &&& s.indices@ == emitted_entries(obs)
}

/// One ready-to-search index entry of a snapshot.
pub enum SingleOrMultiIndex<I, D, M> {
    /// A single pack index and, if already mapped, its pack data file.
    Single { index: std::sync::Arc<I>, data: Option<std::sync::Arc<D>> },
    /// A multi-pack-index and the data files it references, each present only
    /// if already mapped.
    Multi { index: std::sync::Arc<M>, data: Vec<Option<std::sync::Arc<D>>> },
}

/// A loaded index lookup plus the stable slot index it came from.
pub struct IndexLookup<I, D, M> {
    /// The loaded file handles.
    pub file: SingleOrMultiIndex<I, D, M>,
    /// The slot index, the stable identity pack ids refer to.
    pub id: usize,
}

/// A way to refer to a pack uniquely, namespaced by its indexing mechanism.
pub struct PackId {
    /// The slot index of the owning index; for a multi-pack-index this is the
    /// multi-index's own slot.
    pub index: usize,
    /// For a pack reached through a multi-pack-index, the offset of the pack
    /// within it.
    pub multipack_index: Option<usize>,
}

/// What a caller gets back from a refresh: the ready-to-search indices, the
/// shared loose-store list, and a fresh marker.
pub struct Snapshot<I, D, M> {
    /// Ready-to-search index lookups; entries whose index file is not yet
    /// mapped are omitted.
    pub indices: Vec<IndexLookup<I, D, M>>,
    /// Loose-object stores to search once packed objects were not found.
    pub loose_dbs: std::sync::Arc<Vec<LooseStore>>,
    /// What this state represents, for cheap later comparison.
    pub marker: SlotIndexMarker,
}

/// The outcome of a refresh that found something to hand back.
pub enum Outcome<I, D, M> {
    /// The generation changed: all previously issued pack ids are invalid and
    /// the caller must discard and re-resolve everything.
    Replace(Snapshot<I, D, M>),
    /// The generation is unchanged: previously issued pack ids remain valid
    /// and the caller may continue searching with the new snapshot.
    ReplaceStable(Snapshot<I, D, M>),
}

/// The snapshot an outcome hands back, stable or not.
pub open spec fn snapshot_of_outcome<I, D, M>(oc: Outcome<I, D, M>) -> Snapshot<I, D, M> {
    match oc {
        Outcome::Replace(s) => s,
        Outcome::ReplaceStable(s) => s,
    }
}

/// A snapshot of resource usage. Observability only: no behavioral contract.
#[derive(Debug, Clone, Copy, PartialEq, Eq, Structural)]
pub struct Metrics {
    pub num_handles: usize,
    pub num_refreshes: usize,
    pub open_indices: usize,
    pub known_indices: usize,
    pub open_packs: usize,
    pub known_packs: usize,
    pub unused_slots: usize,
}

/// The generation after a recycling consolidation: one more, wrapping in one
/// byte.
pub open spec fn next_generation(g: u8) -> u8 {
    if g == 255 {
        0
    } else {
        (g + 1) as u8
    }
}

/// A recycling consolidation never republishes the generation it retired:
/// the successor of a one-byte generation differs from it.
pub proof fn lemma_generation_changes(g: u8)
    ensures
        next_generation(g) != g,
{
}

/// A recycling consolidation invalidates every marker of the generation it
/// retired: after the generation moved on, such a marker is always answered
/// with a full, non-stable replace, under either refresh policy.
pub proof fn lemma_recycled_generation_always_replaces(
    mode: RefreshMode,
    marker: crate::slotmap::SlotIndexMarker,
    current: crate::slotmap::StateId,
)
    ensures
        crate::slotmap::refresh_decision(
            mode,
            marker,
            next_generation(marker.generation),
            current,
            true,
        ) == (crate::slotmap::RefreshAction::ReplacePublished { stable: false }),
{
    lemma_generation_changes(marker.generation);
}

/// Saturating successor of a snapshot serial.
pub open spec fn next_serial(s: u64) -> u64 {
    if s == u64::MAX {
        s
    } else {
        (s + 1) as u64
    }
}

/// The store: the published snapshot, the slot arena, the scan lock around
/// the canonical object directory, and the handle-liveness counters.
#[verifier::reject_recursive_types(I)]
#[verifier::reject_recursive_types(D)]
#[verifier::reject_recursive_types(M)]
pub struct Store<I, D, M> {
    index: SnapshotCell,
    slots: SlotsCell<I, D, M>,
    path: RwLock<Vec<u8>, spec_fn(Vec<u8>) -> bool>,
    objects_directory: Ghost<Seq<u8>>,
    num_handles_stable: SharedCounter,
    num_handles: SharedCounter,
    num_disk_state_consolidation: SharedCounter,
}

impl<I, D, M> Store<I, D, M> {
    /// The canonical object directory this store was created over: the scan
    /// lock holds exactly these bytes for the store's whole lifetime.
    pub closed spec fn directory_spec(&self) -> Seq<u8> {
        self.objects_directory@
    }

    /// The scan lock guards the canonical object directory and nothing else.
    #[verifier::type_invariant]
    spec fn scan_lock_holds_directory(self) -> bool {
        forall|v: Vec<u8>| self.path.inv(v) == (v@ == self.objects_directory@)
    }

    /// A store over one object database root. No disk is touched until the
    /// first refresh.
    pub fn at(objects_directory: Vec<u8>) -> (r: Store<I, D, M>)
        ensures
            r.directory_spec() == objects_directory@,
    {
        let ghost dir_bytes = objects_directory@;
        let path = RwLock::new(objects_directory, Ghost(|v: Vec<u8>| v@ == dir_bytes));
        Store {
            index: SnapshotCell::new(SlotMapIndex::new_uninitialized()),
            slots: SlotsCell::new_empty(),
            path,
            objects_directory: Ghost(dir_bytes),
            num_handles_stable: SharedCounter::new(0),
            num_handles: SharedCounter::new(0),
            num_disk_state_consolidation: SharedCounter::new(0),
        }
    }

    /// A new handle observes the store.
    pub fn register_handle(&self) {
        self.num_handles.increment();
    }

    /// A handle stopped observing the store.
    pub fn release_handle(&self) {
        self.num_handles.decrement();
    }

    /// A live handle now requires that issued pack ids stay resolvable; while
    /// any such handle exists, slots retire into garbage instead of being
    /// recycled.
    pub fn register_stable_handle(&self) {
        self.num_handles_stable.increment();
    }

    /// A stability-requiring handle was released.
    pub fn release_stable_handle(&self) {
        self.num_handles_stable.decrement();
    }

    /// The lookup entry a bundle yields, if its primary index is mapped.
    ///
    /// A bundle whose primary index file is not yet in memory yields nothing:
    /// callers map lazily through a separate path, not through snapshot
    /// collection. Data files are attached only where already mapped.
    pub fn lookup_of(b: &IndexAndPacks<I, D, M>) -> (r: Option<SingleOrMultiIndex<I, D, M>>)
        ensures
            match r {
                Some(l) => match (b, l) {
                    (IndexAndPacks::Index(ib), SingleOrMultiIndex::Single { index, data }) => ib
                        .index.loaded_spec() == Some(index) && data == ib.data.loaded_spec(),
                    (IndexAndPacks::MultiIndex(mb), SingleOrMultiIndex::Multi { index, data }) => mb
                        .multi_index.loaded_spec() == Some(index) && data@.len() == mb.data@.len()
                        && (forall|i: int|
                        0 <= i < data@.len() ==> #[trigger] data@[i] == mb.data@[i].loaded_spec()),
                    _ => false,
                },
                None => match b {
                    IndexAndPacks::Index(ib) => ib.index.loaded_spec() is None,
                    IndexAndPacks::MultiIndex(mb) => mb.multi_index.loaded_spec() is None,
                },
            },
    {
        match b {
            IndexAndPacks::Index(ib) => {
                match ib.index.loaded() {
                    Some(v) => {
                        let data = match ib.data.loaded() {
                            Some(w) => Some(arc_clone(w)),
                            None => None,
                        };
                        Some(SingleOrMultiIndex::Single { index: arc_clone(v), data })
                    }
                    None => None,
                }
            }
            IndexAndPacks::MultiIndex(mb) => {
                match mb.multi_index.loaded() {
                    Some(v) => {
                        let mut data: Vec<Option<std::sync::Arc<D>>> = Vec::new();
                        let mut i: usize = 0;
                        while i < mb.data.len()
                            invariant
                                0 <= i <= mb.data@.len(),
                                data@.len() == i,
                                forall|q: int|
                                    0 <= q < i ==> #[trigger] data@[q] == mb.data@[q].loaded_spec(),
                            decreases mb.data@.len() - i,
                        {
                            let entry = match mb.data[i].loaded() {
                                Some(w) => Some(arc_clone(w)),
                                None => None,
                            };
                            data.push(entry);
                            i = i + 1;
                        }
                        Some(SingleOrMultiIndex::Multi { index: arc_clone(v), data })
                    }
                    None => None,
                }
            }
        }
    }

    /// Assemble the caller-facing snapshot from one observed snapshot value
    /// and one observed arena. The per-slot cells are read first, into one
    /// observation per live slot in `slot_indices` order; the entries are
    /// then exactly `emitted_entries` of those observations (see
    /// `entries_for_observations` and `lookup_of` for the exact emission
    /// law): slots whose primary index is not yet mapped, or whose cell is
    /// empty, are omitted, never emitted as placeholders.
    fn collect_from(
        index: &std::sync::Arc<SlotMapIndex>,
        arena: &std::sync::Arc<Vec<std::sync::Arc<Slot<I, D, M>>>>,
    ) -> (s: Snapshot<I, D, M>)
        ensures
            s.marker.generation == index.generation,
            s.marker.state_id.serial == index.serial,
            s.loose_dbs == index.loose_dbs,
            s.indices@.len() <= index.slot_indices@.len(),
            entry_ids_live(index.slot_indices@, s.indices@),
            // the emission law: the entries are exactly the emitted part of
            // one observation per live slot, in slot order
            exists|obs: Seq<(usize, Option<SingleOrMultiIndex<I, D, M>>)>|
                snapshot_observes(s, **index, obs),
    {
        let mut obs: Vec<(usize, Option<SingleOrMultiIndex<I, D, M>>)> = Vec::new();
        if index.is_initialized() {
            let mut k: usize = 0;
            while k < index.slot_indices.len()
                invariant
                    0 <= k <= index.slot_indices@.len(),
                    obs@.len() == k,
                    forall|q: int| 0 <= q < k ==> (#[trigger] obs@[q]).0 == index.slot_indices@[q],
                decreases index.slot_indices@.len() - k,
            {
                let id = index.slot_indices[k];
                let mut entry: Option<SingleOrMultiIndex<I, D, M>> = None;
                if id < arena.len() {
                    let contents = arena[id].files.get();
                    match &*contents {
                        Some(b) => {
                            entry = Self::lookup_of(b);
                        }
                        None => {},
                    }
                }
                obs.push((id, entry));
                k = k + 1;
            }
        }
        proof {
            assert(forall|q: int|
                0 <= q < obs@.len() ==> (#[trigger] obs@[q]).0 == index.slot_indices@[q]);
            assert(obs@.len() == (if index.is_initialized_spec() {
                index.slot_indices@.len() as int
            } else {
                0
            }));
        }
        let ghost obs_view = obs@;
        let indices = entries_for_observations(obs);
        proof {
            lemma_emitted_len(obs_view);
            lemma_emitted_ids(obs_view);
            assert forall|u: int|
                0 <= u < indices@.len() implies index.slot_indices@.contains(
                (#[trigger] indices@[u]).id,
            ) by {
                let q = choose|q: int|
                    0 <= q < obs_view.len() && (#[trigger] emitted_entries(obs_view)[u]).id
                        == obs_view[q].0;
                assert(index.slot_indices@[q] == indices@[u].id);
            }
        }
        let s = Snapshot { indices, loose_dbs: arc_clone(&index.loose_dbs), marker: index.marker() };
        proof {
            assert(snapshot_observes(s, **index, obs_view));
        }
        s
    }

    /// The current state as a caller-facing snapshot; no disk is touched.
    ///
    /// The result is one coherent observation: the published snapshot is read
    /// once, every live slot's cell is read once, and the entries are exactly
    /// the emission law over those reads (`snapshot_observes`, built from
    /// `emitted_entries` and `lookup_of`); which snapshot and slot contents
    /// were current is the concurrent environment's choice, hence the
    /// existential.
    pub fn collect_snapshot(&self) -> (s: Snapshot<I, D, M>)
        ensures
            exists|observed: SlotMapIndex, obs: Seq<(usize, Option<SingleOrMultiIndex<I, D, M>>)>|
                snapshot_observes(s, observed, obs),
    {
        let index = self.index.load();
        let arena = self.slots.get();
        let s = Self::collect_from(&index, &arena);
        proof {
            let obs = choose|obs: Seq<(usize, Option<SingleOrMultiIndex<I, D, M>>)>|
                snapshot_observes(s, *index, obs);
            assert(snapshot_observes(s, *index, obs));
        }
        s
    }

    /// Wrap the currently published state as the outcome of a refresh, with
    /// no disk access: stable when previously issued pack ids remain valid.
    pub fn collect_replace_outcome(&self, is_stable: bool) -> (r: Outcome<I, D, M>)
        ensures
            r is ReplaceStable <==> is_stable,
            exists|observed: SlotMapIndex, obs: Seq<(usize, Option<SingleOrMultiIndex<I, D, M>>)>|
                snapshot_observes(snapshot_of_outcome(r), observed, obs),
    {
        let index = self.index.load();
        let arena = self.slots.get();
        let r = Self::collect_replace_outcome_from(&index, &arena, is_stable);
        proof {
            let obs = choose|obs: Seq<(usize, Option<SingleOrMultiIndex<I, D, M>>)>|
                snapshot_observes(snapshot_of_outcome(r), *index, obs);
            assert(snapshot_observes(snapshot_of_outcome(r), *index, obs));
        }
        r
    }

    /// Wrap the published state as the outcome of a refresh.
    fn collect_replace_outcome_from(
        index: &std::sync::Arc<SlotMapIndex>,
        arena: &std::sync::Arc<Vec<std::sync::Arc<Slot<I, D, M>>>>,
        is_stable: bool,
    ) -> (r: Outcome<I, D, M>)
        ensures
            match r {
                Outcome::ReplaceStable(s) => is_stable && s.marker.generation == index.generation,
                Outcome::Replace(s) => !is_stable && s.marker.generation == index.generation,
            },
            exists|obs: Seq<(usize, Option<SingleOrMultiIndex<I, D, M>>)>|
                snapshot_observes(snapshot_of_outcome(r), **index, obs),
    {
        let snapshot = Self::collect_from(index, arena);
        let ghost obs0 = choose|obs: Seq<(usize, Option<SingleOrMultiIndex<I, D, M>>)>|
            snapshot_observes(snapshot, **index, obs);
        let r = if is_stable {
            Outcome::ReplaceStable(snapshot)
        } else {
            Outcome::Replace(snapshot)
        };
        proof {
            assert(snapshot_observes(snapshot_of_outcome(r), **index, obs0));
        }
        r
    }

    /// The loose-store list over the object directories of one pass: one
    /// store per directory, in the given order (the canonical directory is
    /// handed in first, then the resolved alternates). The previous
    /// snapshot's list is reused, by reference, exactly when it already
    /// lists the same directories in the same order.
    fn loose_store_list(
        previous: &std::sync::Arc<Vec<LooseStore>>,
        db_paths: &Vec<Vec<u8>>,
    ) -> (r: std::sync::Arc<Vec<LooseStore>>)
        ensures
            r.len() == db_paths@.len(),
            forall|i: int| 0 <= i < db_paths@.len() ==> (#[trigger] r[i]).path@ == db_paths@[i]@,
            (previous.len() == db_paths@.len() && (forall|i: int|
                0 <= i < db_paths@.len() ==> (#[trigger] previous[i]).path@ == db_paths@[i]@))
                ==> r == *previous,
    {
        let mut same_dirs = previous.len() == db_paths.len();
        let mut ci: usize = 0;
        while ci < db_paths.len() && same_dirs
            invariant
                0 <= ci <= db_paths@.len(),
                same_dirs ==> previous.len() == db_paths@.len(),
                same_dirs ==> (forall|i: int|
                    0 <= i < ci ==> (#[trigger] previous[i]).path@ == db_paths@[i]@),
                !same_dirs ==> !(previous.len() == db_paths@.len() && (forall|i: int|
                    0 <= i < db_paths@.len() ==> (#[trigger] previous[i]).path@
                        == db_paths@[i]@)),
            decreases db_paths@.len() - ci,
        {
            if !bytes_equal(&previous[ci].path, &db_paths[ci]) {
                proof {
                    assert(previous[ci as int].path@ != db_paths@[ci as int]@);
                }
                same_dirs = false;
            }
            ci = ci + 1;
        }
        if same_dirs {
            arc_clone(previous)
        } else {
            proof {
                assert(!(previous.len() == db_paths@.len() && (forall|i: int|
                    0 <= i < db_paths@.len() ==> (#[trigger] previous[i]).path@
                        == db_paths@[i]@)));
            }
            let mut fresh: Vec<LooseStore> = Vec::new();
            let mut li: usize = 0;
            while li < db_paths.len()
                invariant
                    0 <= li <= db_paths@.len(),
                    fresh@.len() == li,
                    forall|i: int| 0 <= i < li ==> (#[trigger] fresh@[i]).path@ == db_paths@[i]@,
                decreases db_paths@.len() - li,
            {
                fresh.push(LooseStore::at(clone_bytes(&db_paths[li])));
                li = li + 1;
            }
            std::sync::Arc::new(fresh)
        }
    }

    /// Is slot-index stability required? It is whenever at least one live
    /// handle demands stable pack ids; only their absence permits recycling
    /// slots and bumping the generation. Other threads may register or
    /// release such handles at any moment, so nothing is stated of the
    /// result; the consolidation pass reads it once, under the scan lock.
    fn maintain_stable_indices(&self) -> bool {
        self.num_handles_stable.load() != 0
    }

    /// Initialize one slot's bundle exactly once, under the slot's own lock.
    ///
    /// What is written is decided by the contracted `init_bundle_if_empty`:
    /// only an empty slot receives a bundle, freshly bound to `path`, so this
    /// call never rebinds a slot. A slot already bound to a *different* path
    /// would be the programming error the design treats as unrecoverable; it
    /// cannot arise here, since the consolidation pass holds the scan lock
    /// and only calls this for slots its plan marked fresh (observed empty or
    /// newly appended).
    fn assure_slot_for_path(slot: &Slot<I, D, M>, path: Vec<u8>) {
        let (guard, handle) = slot.write.acquire_write();
        let current = slot.files.get();
        match init_bundle_if_empty(&*current, path) {
            Some(fresh) => {
                slot.files.set(std::sync::Arc::new(Some(fresh)));
            }
            None => {},
        }
        handle.release_write(guard);
    }

    /// Rescan disk and republish the slot map, serialized by the scan lock.
    ///
    /// The caller's view is `stable_base`: the generation its marker carries,
    /// or nothing when the store was not yet initialized. A stable outcome is
    /// returned exactly when the republished generation equals that base, so
    /// previously issued pack ids remain valid; keying stability to the
    /// caller's generation rather than the pre-lock one answers first contact
    /// with a full replace and agrees with the pre-lock generation on every
    /// path that reaches the rebuild. If another thread already consolidated
    /// while this one waited for the lock, its published result is adopted
    /// without further disk work. On any error the pass is abandoned whole:
    /// nothing is published.
    ///
    /// `resolve_alternates` lists the additional object directories reachable
    /// from the canonical one; `list_dir` lists one `pack` subdirectory,
    /// reporting `None` when it does not exist. Their failures surface
    /// unchanged.
    pub fn consolidate_with_disk_state<FA, FL>(
        &self,
        resolve_alternates: &FA,
        list_dir: &FL,
        stable_base: Option<u8>,
    ) -> (r: Result<Option<Outcome<I, D, M>>, Error>) where
        FA: Fn(&Vec<u8>) -> Result<Vec<Vec<u8>>, Error>,
        FL: Fn(&Vec<u8>) -> Result<Option<Vec<FileEntry>>, Error>,

        requires
            forall|p: &Vec<u8>| call_requires(*resolve_alternates, (p,)),
            forall|p: &Vec<u8>| call_requires(*list_dir, (p,)),
        ensures
            r matches Ok(o) ==> o is Some,
            r matches Ok(Some(Outcome::ReplaceStable(s))) ==> (stable_base matches Some(g)
                && s.marker.generation == g),
            r matches Ok(Some(Outcome::Replace(s))) ==> !(stable_base matches Some(g)
                && s.marker.generation == g),
            // whatever comes back is one coherent observation of one snapshot
            r matches Ok(Some(oc)) ==> (exists|
                observed: SlotMapIndex,
                obs: Seq<(usize, Option<SingleOrMultiIndex<I, D, M>>)>,
            | snapshot_observes(snapshot_of_outcome(oc), observed, obs)),
            // an error is one of the collaborators' own — the resolver is
            // asked exactly about the store's canonical directory — or the
            // machine limit on the number of slot indices was hit
            r matches Err(e) ==> (e == Error::Io || (exists|p: &Vec<u8>|
                p@ == self.directory_spec() && call_ensures(
                    *resolve_alternates,
                    (p,),
                    Result::<Vec<Vec<u8>>, Error>::Err(e),
                )) || (exists|p: &Vec<u8>|
                call_ensures(*list_dir, (p,), Result::<Option<Vec<FileEntry>>, Error>::Err(e)))),
    {
        proof {
            use_type_invariant(self);
        }
        let idx0 = self.index.load();
        let serial0 = idx0.serial;

        // take the scan lock only after recording the state seen before it
        let (dir, handle) = self.path.acquire_write();

        let idx = self.index.load();
        if idx.serial != serial0 {
            // someone else consolidated while we waited: adopt their result
            let stable = match stable_base {
                Some(g) => idx.generation == g,
                None => false,
            };
            let arena0 = self.slots.get();
            let oc = Self::collect_replace_outcome_from(&idx, &arena0, stable);
            proof {
                let obs0 = choose|obs: Seq<(usize, Option<SingleOrMultiIndex<I, D, M>>)>|
                    snapshot_observes(snapshot_of_outcome(oc), *idx, obs);
                assert(snapshot_observes(snapshot_of_outcome(oc), *idx, obs0));
            }
            handle.release_write(dir);
            return Ok(Some(oc));
        }

        let needs_stability = self.maintain_stable_indices();
        self.num_disk_state_consolidation.increment();

        // the canonical directory first, then its resolved alternates
        let mut db_paths: Vec<Vec<u8>> = Vec::new();
        db_paths.push(clone_bytes(&dir));
        match (resolve_alternates)(&dir) {
            Ok(alternates) => {
                let mut alts = alternates;
                while alts.len() > 0
                    decreases alts@.len(),
                {
                    db_paths.push(alts.remove(0));
                }
            }
            Err(e) => {
                handle.release_write(dir);
                return Err(e);
            }
        }

        // one loose store per directory, in order; reuse the shared list
        // when the directory list is unchanged
        let loose_dbs = Self::loose_store_list(&idx.loose_dbs, &db_paths);

        // scan every directory's pack subdirectory; absent ones are empty
        let mut candidates: Vec<ScanItem> = Vec::new();
        let mut di: usize = 0;
        while di < db_paths.len()
            invariant
                forall|p: &Vec<u8>| call_requires(*list_dir, (p,)),
                handle.rwlock() == self.path,
                self.path.inv(dir),
            decreases db_paths@.len() - di,
        {
            let pack = pack_subdir(&db_paths[di]);
            match (list_dir)(&pack) {
                Ok(Some(entries)) => {
                    append_candidates(&mut candidates, entries);
                }
                Ok(None) => {},
                Err(e) => {
                    handle.release_write(dir);
                    return Err(e);
                }
            }
            di = di + 1;
        }
        let sorted = sort_by_mtime_desc(candidates);

        // the path each slot is currently bound to, as observed now
        let arena = self.slots.get();
        let mut bound: Vec<Option<Vec<u8>>> = Vec::new();
        let mut bi: usize = 0;
        while bi < arena.len()
            invariant
                bound@.len() == bi,
                0 <= bi <= arena@.len(),
            decreases arena@.len() - bi,
        {
            let contents = arena[bi].files.get();
            match &*contents {
                Some(b) => {
                    bound.push(Some(clone_bytes(b.index_path())));
                }
                None => {
                    bound.push(None);
                }
            }
            bi = bi + 1;
        }

        let live_count = idx.slot_indices.len();
        let scan_count = sorted.len();
        if scan_count > usize::MAX - bound.len() || live_count > usize::MAX - scan_count {
            // more scanned files than slot indices can exist on this machine
            handle.release_write(dir);
            return Err(Error::Io);
        }
        let plan = reconcile(&idx.slot_indices, &bound, sorted, needs_stability);
        let ghost plan_assigned = plan.assigned@;
        let ghost plan_retired = plan.retired@;
        let slots_needed = plan.slots_needed;
        let bump_generation = plan.bump_generation;
        // the live list the new snapshot publishes, fixed by the plan alone
        let new_slot_indices = published_slot_list(&plan.assigned, &plan.retired, needs_stability);

        // grow the arena without relocating any live slot
        let mut local: Vec<std::sync::Arc<Slot<I, D, M>>> = Vec::new();
        let mut gi: usize = 0;
        while gi < arena.len()
            invariant
                local@.len() == gi,
                0 <= gi <= arena@.len(),
            decreases arena@.len() - gi,
        {
            local.push(arc_clone(&arena[gi]));
            gi = gi + 1;
        }
        while local.len() < slots_needed
            invariant
                local@.len() >= arena@.len(),
            decreases slots_needed - local@.len(),
        {
            local.push(std::sync::Arc::new(Slot::new()));
        }
        let arena_len = arena.len();
        let local_len = local.len();
        let local_arc = std::sync::Arc::new(local);
        self.slots.set(arc_clone(&local_arc));

        // bind fresh slots, in scan order
        let mut rest_asg = plan.assigned;
        let total_asg = rest_asg.len();
        let mut ai: usize = 0;
        proof {
            assert(plan_assigned.len() == total_asg);
            assert(rest_asg@ =~= plan_assigned.skip(0));
        }
        while rest_asg.len() > 0
            invariant
                0 <= ai <= plan_assigned.len(),
                plan_assigned.len() <= usize::MAX,
                ai + rest_asg@.len() == plan_assigned.len(),
                rest_asg@ == plan_assigned.skip(ai as int),
                local_arc@.len() == local_len,
                local_len >= slots_needed,
                local_len >= arena_len,
                forall|k: int|
                    0 <= k < plan_assigned.len() ==> (#[trigger] plan_assigned[k]).slot
                        < slots_needed,
            decreases rest_asg@.len(),
        {
            proof {
                assert(rest_asg@[0] == plan_assigned[ai as int]);
            }
            let a = rest_asg.remove(0);
            proof {
                assert(rest_asg@ =~= plan_assigned.skip(ai + 1));
            }
            if a.fresh {
                Self::assure_slot_for_path(&local_arc[a.slot], a.path);
            }
            ai = ai + 1;
        }

        // retire what vanished: garbage under stability, cleared otherwise
        let mut rest_ret = plan.retired;
        let total_ret = rest_ret.len();
        let ghost bound_view = bound@;
        let mut ri: usize = 0;
        proof {
            assert(plan_retired.len() == total_ret);
            assert(rest_ret@ =~= plan_retired.skip(0));
        }
        while rest_ret.len() > 0
            invariant
                0 <= ri <= plan_retired.len(),
                plan_retired.len() <= usize::MAX,
                ri + rest_ret@.len() == plan_retired.len(),
                rest_ret@ == plan_retired.skip(ri as int),
                local_arc@.len() == local_len,
                local_len >= arena_len,
                bound_view.len() == arena_len,
                forall|u: int|
                    0 <= u < plan_retired.len() ==> (#[trigger] plan_retired[u])
                        < bound_view.len(),
            decreases rest_ret@.len(),
        {
            proof {
                assert(rest_ret@[0] == plan_retired[ri as int]);
            }
            let j = rest_ret.remove(0);
            proof {
                assert(rest_ret@ =~= plan_retired.skip(ri + 1));
            }
            let slot = &local_arc[j];
            let (guard, slot_handle) = slot.write.acquire_write();
            if needs_stability {
                let current = slot.files.get();
                match &*current {
                    Some(b) => {
                        slot.files.set(std::sync::Arc::new(Some(b.retire_copy())));
                    }
                    None => {},
                }
            } else {
                slot.files.set(std::sync::Arc::new(None));
            }
            slot_handle.release_write(guard);
            ri = ri + 1;
        }

        // publish: one atomic swap, no intermediate state observable
        let generation = if bump_generation {
            if idx.generation == 255u8 {
                0u8
            } else {
                idx.generation + 1
            }
        } else {
            idx.generation
        };
        proof {
            if bump_generation {
                assert(generation == next_generation(idx.generation));
                lemma_generation_changes(idx.generation);
            }
        }
        let serial = if idx.serial == u64::MAX {
            idx.serial
        } else {
            idx.serial + 1
        };
        let next_index_to_load = if bump_generation {
            std::sync::Arc::new(SharedCounter::new(0))
        } else {
            arc_clone(&idx.next_index_to_load)
        };
        let loaded_indices = if bump_generation {
            std::sync::Arc::new(SharedCounter::new(0))
        } else {
            arc_clone(&idx.loaded_indices)
        };
        let published = std::sync::Arc::new(
            SlotMapIndex {
                slot_indices: new_slot_indices,
                loose_dbs,
                generation,
                serial,
                next_index_to_load,
                loaded_indices,
            },
        );
        self.index.publish(arc_clone(&published));

        let stable = match stable_base {
            Some(g) => generation == g,
            None => false,
        };
        let oc = Self::collect_replace_outcome_from(&published, &local_arc, stable);
        proof {
            let obs0 = choose|obs: Seq<(usize, Option<SingleOrMultiIndex<I, D, M>>)>|
                snapshot_observes(snapshot_of_outcome(oc), *published, obs);
            assert(snapshot_observes(snapshot_of_outcome(oc), *published, obs0));
        }
        handle.release_write(dir);
        Ok(Some(oc))
    }

    /// Refresh the caller's view, following its marker.
    ///
    /// `Ok(None)` is reported only under the `Never` policy: nothing
    /// observable changed since the marker was taken and disk may not be
    /// touched. A stable replace carries the caller's own generation, so its
    /// issued pack ids remain valid; anything else is a full replace or an
    /// error from the disk scan.
    pub fn load_one_index<FA, FL>(
        &self,
        refresh_mode: RefreshMode,
        marker: &SlotIndexMarker,
        resolve_alternates: &FA,
        list_dir: &FL,
    ) -> (r: Result<Option<Outcome<I, D, M>>, Error>) where
        FA: Fn(&Vec<u8>) -> Result<Vec<Vec<u8>>, Error>,
        FL: Fn(&Vec<u8>) -> Result<Option<Vec<FileEntry>>, Error>,

        requires
            forall|p: &Vec<u8>| call_requires(*resolve_alternates, (p,)),
            forall|p: &Vec<u8>| call_requires(*list_dir, (p,)),
        ensures
            r matches Ok(o) && o is None ==> refresh_mode == RefreshMode::Never,
            r matches Ok(Some(Outcome::ReplaceStable(s))) ==> s.marker.generation
                == marker.generation,
            // whatever comes back is one coherent observation of one snapshot
            r matches Ok(Some(oc)) ==> (exists|
                observed: SlotMapIndex,
                obs: Seq<(usize, Option<SingleOrMultiIndex<I, D, M>>)>,
            | snapshot_observes(snapshot_of_outcome(oc), observed, obs)),
            // an error is one of the collaborators' own — the resolver is
            // asked exactly about the store's canonical directory — or the
            // machine limit on the number of slot indices was hit
            r matches Err(e) ==> (e == Error::Io || (exists|p: &Vec<u8>|
                p@ == self.directory_spec() && call_ensures(
                    *resolve_alternates,
                    (p,),
                    Result::<Vec<Vec<u8>>, Error>::Err(e),
                )) || (exists|p: &Vec<u8>|
                call_ensures(*list_dir, (p,), Result::<Option<Vec<FileEntry>>, Error>::Err(e)))),
    {
        let index = self.index.load();
        if !index.is_initialized() {
            // first contact: load the initial slot map from disk
            return self.consolidate_with_disk_state(resolve_alternates, list_dir, None);
        }
        let current = index.state_id();
        match decide_refresh(refresh_mode, marker, index.generation, current, true) {
            RefreshAction::NothingNew => Ok(None),
            RefreshAction::Consolidate => self.consolidate_with_disk_state(
                resolve_alternates,
                list_dir,
                Some(marker.generation),
            ),
            RefreshAction::ReplacePublished { stable } => {
                let arena = self.slots.get();
                let oc = Self::collect_replace_outcome_from(&index, &arena, stable);
                proof {
                    let obs0 = choose|obs: Seq<(usize, Option<SingleOrMultiIndex<I, D, M>>)>|
                        snapshot_observes(snapshot_of_outcome(oc), *index, obs);
                    assert(snapshot_observes(snapshot_of_outcome(oc), *index, obs0));
                }
                Ok(Some(oc))
            }
        }
    }

    /// Lazily map the primary index file of the slot at `id`, through the
    /// external openers for its formats, and advance the shared loaded count
    /// once the attempt completes, so that other threads' markers notice.
    ///
    /// Returns `Ok(true)` when the slot's index is in memory afterwards
    /// (whether this call mapped it or an earlier one did), `Ok(false)` when
    /// there is nothing to map (no such slot, an empty slot, or a file now
    /// missing on disk), and any other opener failure unchanged, the slot
    /// left retryable.
    pub fn load_index_at<FI, FM>(&self, id: usize, open_index: FI, open_multi: FM) -> (r: Result<
        bool,
        crate::ondisk::LoadError,
    >) where
        FI: FnOnce(&Vec<u8>) -> Result<std::sync::Arc<I>, crate::ondisk::LoadError>,
        FM: FnOnce(&Vec<u8>) -> Result<std::sync::Arc<M>, crate::ondisk::LoadError>,

        requires
            forall|p: &Vec<u8>| call_requires(open_index, (p,)),
            forall|p: &Vec<u8>| call_requires(open_multi, (p,)),
        ensures
            r matches Err(e) ==> (e == crate::ondisk::LoadError::Other && ((exists|p: &Vec<u8>|
                call_ensures(
                    open_index,
                    (p,),
                    Result::<std::sync::Arc<I>, crate::ondisk::LoadError>::Err(e),
                )) || (exists|p: &Vec<u8>|
                call_ensures(
                    open_multi,
                    (p,),
                    Result::<std::sync::Arc<M>, crate::ondisk::LoadError>::Err(e),
                )))),
    {
        let index = self.index.load();
        let arena = self.slots.get();
        if id >= arena.len() {
            return Ok(false);
        }
        let slot = &arena[id];
        let (guard, slot_handle) = slot.write.acquire_write();
        let current = slot.files.get();
        let outcome: Result<bool, crate::ondisk::LoadError> = match &*current {
            None => Ok(false),
            Some(IndexAndPacks::Index(b)) => {
                if b.index.is_loaded() {
                    Ok(true)
                } else {
                    let mut file = crate::bundle::file_copy(&b.index);
                    let res: Result<bool, crate::ondisk::LoadError> = match file.do_load(
                        open_index,
                    ) {
                        Ok(Some(_)) => Ok(true),
                        Ok(None) => Ok(false),
                        Err(e) => Err(e),
                    };
                    let replacement = IndexAndPacks::Index(
                        crate::bundle::IndexFileBundle {
                            index: file,
                            data: crate::bundle::file_copy(&b.data),
                        },
                    );
                    slot.files.set(std::sync::Arc::new(Some(replacement)));
                    index.loaded_indices.increment();
                    res
                }
            }
            Some(IndexAndPacks::MultiIndex(mb)) => {
                if mb.multi_index.is_loaded() {
                    Ok(true)
                } else {
                    let mut file = crate::bundle::file_copy(&mb.multi_index);
                    let res: Result<bool, crate::ondisk::LoadError> = match file.do_load(
                        open_multi,
                    ) {
                        Ok(Some(_)) => Ok(true),
                        Ok(None) => Ok(false),
                        Err(e) => Err(e),
                    };
                    let mut data: Vec<crate::ondisk::OnDiskFile<std::sync::Arc<D>>> = Vec::new();
                    let mut q: usize = 0;
                    while q < mb.data.len()
                        decreases mb.data@.len() - q,
                    {
                        data.push(crate::bundle::file_copy(&mb.data[q]));
                        q = q + 1;
                    }
                    let replacement = IndexAndPacks::MultiIndex(
                        crate::bundle::MultiIndexFileBundle { multi_index: file, data },
                    );
                    slot.files.set(std::sync::Arc::new(Some(replacement)));
                    index.loaded_indices.increment();
                    res
                }
            }
        };
        slot_handle.release_write(guard);
        outcome
    }

    /// Resource usage, for observability only: the counts reflect one
    /// lock-free walk over the arena and carry no behavioral contract.
    pub fn metrics(&self) -> Metrics {
        let arena = self.slots.get();
        let mut open_indices: usize = 0;
        let mut known_indices: usize = 0;
        let mut open_packs: usize = 0;
        let mut known_packs: usize = 0;
        let mut unused_slots: usize = 0;
        let mut i: usize = 0;
        while i < arena.len()
            decreases arena@.len() - i,
        {
            let contents = arena[i].files.get();
            match &*contents {
                None => {
                    unused_slots = saturating_inc(unused_slots);
                }
                Some(IndexAndPacks::Index(b)) => {
                    known_indices = saturating_inc(known_indices);
                    if b.index.is_loaded() {
                        open_indices = saturating_inc(open_indices);
                    }
                    known_packs = saturating_inc(known_packs);
                    if b.data.is_loaded() {
                        open_packs = saturating_inc(open_packs);
                    }
                }
                Some(IndexAndPacks::MultiIndex(mb)) => {
                    known_indices = saturating_inc(known_indices);
                    if mb.multi_index.is_loaded() {
                        open_indices = saturating_inc(open_indices);
                    }
                    let mut q: usize = 0;
                    while q < mb.data.len()
                        decreases mb.data@.len() - q,
                    {
                        known_packs = saturating_inc(known_packs);
                        if mb.data[q].is_loaded() {
                            open_packs = saturating_inc(open_packs);
                        }
                        q = q + 1;
                    }
                }
            }
            i = i + 1;
        }
        Metrics {
            num_handles: self.num_handles.load(),
            num_refreshes: self.num_disk_state_consolidation.load(),
            open_indices,
            known_indices,
            open_packs,
            known_packs,
            unused_slots,
        }
    }
}

/// One more, capped at the machine limit.
fn saturating_inc(x: usize) -> (r: usize)
    ensures
        x < usize::MAX ==> r == x + 1,
        x == usize::MAX ==> r == x,
{
    if x < usize::MAX {
        x + 1
    } else {
        x
    }
}

} // verus!
