//! The immutable slot-map snapshot, the caller-held marker, and the refresh
//! decision it drives.
//!
//! A marker is a cheap bookmark `(generation, state fingerprint)`. The
//! fingerprint pairs the serial number of the published snapshot with the
//! shared count of completed index loads, so it changes exactly when the
//! snapshot is replaced or when another thread finishes loading one more
//! index.

use vstd::prelude::*;

use crate::RefreshMode;

verus! {

/// A loose-object store: an opaque handle over one object directory, used
/// only as an ordered list member.
#[derive(Clone)]
pub struct LooseStore {
    /// The object directory this store reads loose objects from.
    pub path: Vec<u8>,
}

impl LooseStore {
    /// A loose store over the given object directory.
    pub fn at(path: Vec<u8>) -> (r: Self)
        ensures
            r.path == path,
    {
        LooseStore { path }
    }
}

/// A monotonically increased counter shared between all snapshots of one
/// generation and any number of threads.
#[verifier::external_body]
pub struct SharedCounter {
    inner: std::sync::atomic::AtomicUsize,
}

impl SharedCounter {
    /// Relies on std::sync::atomic::AtomicUsize::new.
    #[verifier::external_body]
    pub fn new(v: usize) -> SharedCounter {
        SharedCounter { inner: std::sync::atomic::AtomicUsize::new(v) }
    }

    /// Relies on std::sync::atomic::AtomicUsize::load: other threads may
    /// change the value at any moment, so nothing is stated of the result.
    #[verifier::external_body]
    pub fn load(&self) -> usize {
        self.inner.load(std::sync::atomic::Ordering::SeqCst)
    }

    /// Relies on std::sync::atomic::AtomicUsize::fetch_add, wrapping on
    /// overflow.
    #[verifier::external_body]
    pub fn increment(&self) {
        self.inner.fetch_add(1, std::sync::atomic::Ordering::SeqCst);
    }

    /// Relies on std::sync::atomic::AtomicUsize::fetch_sub, wrapping on
    /// underflow.
    #[verifier::external_body]
    pub fn decrement(&self) {
        self.inner.fetch_sub(1, std::sync::atomic::Ordering::SeqCst);
    }
}

/// The state fingerprint: which published snapshot was observed, and how many
/// index loads had completed by then. Two fingerprints are equal exactly when
/// both components are.
#[derive(Clone, Copy, PartialEq, Eq, Structural, Debug)]
pub struct StateId {
    /// Serial number of the published snapshot, unique per publish.
    pub serial: u64,
    /// Value of the shared loaded-indices counter when observed.
    pub loaded: usize,
}

/// A caller-held bookmark: which slot layout generation the caller saw, and
/// the state fingerprint it last observed.
#[derive(Clone, Copy, PartialEq, Eq, Structural, Debug)]
pub struct SlotIndexMarker {
    /// Markers of different generations are incompatible: the layout was
    /// rebuilt and previously issued pack ids are invalid.
    pub generation: u8,
    /// Fingerprint of the observed snapshot and loading progress.
    pub state_id: StateId,
}

impl Default for SlotIndexMarker {
    /// The marker of a caller that has observed nothing yet.
    fn default() -> (r: Self)
        ensures
            r.generation == 0,
            r.state_id == (StateId { serial: 0, loaded: 0 }),
    {
        SlotIndexMarker { generation: 0, state_id: StateId { serial: 0, loaded: 0 } }
    }
}

/// An immutable snapshot of the slot map: which slots are live, the shared
/// loose-store list, the generation, and the shared loading-progress
/// counters.
pub struct SlotMapIndex {
    /// The slot indices at which an index or pack file is expected, ordered
    /// newest-modified first. The slots need not be loaded yet.
    pub slot_indices: Vec<usize>,
    /// Loose-object stores: the primary object directory first, then its
    /// resolved alternates. Shared by reference across snapshots when the
    /// directory list is unchanged.
    pub loose_dbs: std::sync::Arc<Vec<LooseStore>>,
    /// Changes only when slot identities were invalidated incompatibly.
    pub generation: u8,
    /// Unique serial number of this snapshot; every publish increases it.
    pub serial: u64,
    /// The next slot position a lazy loader should attempt, shared across all
    /// snapshots of one generation.
    pub next_index_to_load: std::sync::Arc<SharedCounter>,
    /// How many load attempts completed, shared across all snapshots of one
    /// generation; it feeds the state fingerprint.
    pub loaded_indices: std::sync::Arc<SharedCounter>,
}

impl SlotMapIndex {
    /// The fingerprint this snapshot yields when the loaded-indices counter
    /// reads `loaded`.
    pub open spec fn state_id_spec(&self, loaded: usize) -> StateId {
        StateId { serial: self.serial, loaded }
    }

    /// At least one loose store is known once the first consolidation ran.
    pub open spec fn is_initialized_spec(&self) -> bool {
        self.loose_dbs.len() > 0
    }

    /// The snapshot of a store that never consolidated: nothing is known.
    pub fn new_uninitialized() -> (r: Self)
        ensures
            r.slot_indices@.len() == 0,
            !r.is_initialized_spec(),
            r.generation == 0,
            r.serial == 0,
    {
        let empty: Vec<LooseStore> = Vec::new();
        SlotMapIndex {
            slot_indices: Vec::new(),
            loose_dbs: std::sync::Arc::new(empty),
            generation: 0,
            serial: 0,
            next_index_to_load: std::sync::Arc::new(SharedCounter::new(0)),
            loaded_indices: std::sync::Arc::new(SharedCounter::new(0)),
        }
    }

    /// The current state fingerprint: this snapshot's serial combined with
    /// the loading progress other threads may advance at any time.
    pub fn state_id(&self) -> (r: StateId)
        ensures
            r.serial == self.serial,
            exists|n: usize| r == self.state_id_spec(n),
    {
        let n = self.loaded_indices.load();
        proof {
            assert(StateId { serial: self.serial, loaded: n } == self.state_id_spec(n));
        }
        StateId { serial: self.serial, loaded: n }
    }

    /// The marker a caller keeps to compare against later observations.
    pub fn marker(&self) -> (r: SlotIndexMarker)
        ensures
            r.generation == self.generation,
            r.state_id.serial == self.serial,
    {
        SlotIndexMarker { generation: self.generation, state_id: self.state_id() }
    }

    /// True once at least one loose object store is known, the sign that the
    /// first consolidation has run.
    pub fn is_initialized(&self) -> (r: bool)
        ensures
            r == self.is_initialized_spec(),
    {
        self.loose_dbs.len() > 0
    }
}

/// What a refresh call decides to do, from the published state and the
/// caller's marker alone.
pub enum RefreshAction {
    /// Rescan disk and republish.
    Consolidate,
    /// Nothing observable changed and the policy forbids disk access.
    NothingNew,
    /// Hand back the published snapshot; `stable` says whether the caller's
    /// previously issued pack ids remain valid.
    ReplacePublished { stable: bool },
}

/// The refresh protocol, as a pure function of the caller's marker and the
/// observed published state: an uninitialized store always consolidates; a
/// marker from a retired generation is answered with a full replace from what
/// is already published; an unchanged fingerprint yields nothing new under
/// the `Never` policy and a rescan under `AfterAllIndicesLoaded`; a changed
/// fingerprint within the same generation yields a stable replace.
pub open spec fn refresh_decision(
    mode: RefreshMode,
    marker: SlotIndexMarker,
    generation: u8,
    current: StateId,
    initialized: bool,
) -> RefreshAction {
    if !initialized {
        RefreshAction::Consolidate
    } else if marker.generation != generation {
        RefreshAction::ReplacePublished { stable: false }
    } else if marker.state_id == current {
        if mode is Never {
            RefreshAction::NothingNew
        } else {
            RefreshAction::Consolidate
        }
    } else {
        RefreshAction::ReplacePublished { stable: true }
    }
}

/// Decide what a refresh call must do.
pub fn decide_refresh(
    mode: RefreshMode,
    marker: &SlotIndexMarker,
    generation: u8,
    current: StateId,
    initialized: bool,
) -> (r: RefreshAction)
    ensures
        r == refresh_decision(mode, *marker, generation, current, initialized),
{
    if !initialized {
        RefreshAction::Consolidate
    } else if marker.generation != generation {
        RefreshAction::ReplacePublished { stable: false }
    } else if marker.state_id == current {
        match mode {
            RefreshMode::Never => RefreshAction::NothingNew,
            RefreshMode::AfterAllIndicesLoaded => RefreshAction::Consolidate,
        }
    } else {
        RefreshAction::ReplacePublished { stable: true }
    }
}

/// Idempotence of refresh under the `Never` policy: a marker that matches the
/// published state yields `NothingNew`, and asking again with the same marker
/// against the same unchanged state yields `NothingNew` again.
pub proof fn lemma_refresh_never_idempotent(
    marker: SlotIndexMarker,
    generation: u8,
    current: StateId,
)
    requires
        marker.generation == generation,
        marker.state_id == current,
    ensures
        refresh_decision(RefreshMode::Never, marker, generation, current, true)
            is NothingNew,
{
}

/// A marker from a retired generation is always answered with a full,
/// non-stable replace, under either refresh policy.
pub proof fn lemma_stale_generation_full_replace(
    mode: RefreshMode,
    marker: SlotIndexMarker,
    generation: u8,
    current: StateId,
)
    requires
        marker.generation != generation,
    ensures
        refresh_decision(mode, marker, generation, current, true) == (
        RefreshAction::ReplacePublished { stable: false }),
{
}

/// Fingerprint sensitivity: the fingerprint is injective in the pair it
/// carries, so one more completed load (a changed counter, same snapshot)
/// changes it, and a marker holding the old fingerprint is answered with a
/// stable replace.
pub proof fn lemma_state_id_sensitive(
    snap: SlotMapIndex,
    before: usize,
    after: usize,
    marker: SlotIndexMarker,
)
    requires
        before != after,
        marker.generation == snap.generation,
        marker.state_id == snap.state_id_spec(before),
    ensures
        snap.state_id_spec(before) != snap.state_id_spec(after),
        refresh_decision(
            RefreshMode::Never,
            marker,
            snap.generation,
            snap.state_id_spec(after),
            true,
        ) == (RefreshAction::ReplacePublished { stable: true }),
{
}

} // verus!
