//! A concurrent, generation-versioned index over a changing set of pack-index
//! and loose-object directories.
//!
//! Many readers resolve object lookups against the currently published view
//! while a consolidation pass periodically rescans disk and republishes a new
//! one. Readers never block on the consolidating writer: the published view is
//! an immutable, reference-counted slot-map snapshot behind an atomically
//! swappable pointer, and slots keep their identity across rescans unless no
//! live handle requires stability, in which case retired slots may be recycled
//! under a new generation.

pub mod bundle;
pub mod ondisk;
pub mod paths;
pub mod plan;
pub mod scan;
pub mod slotmap;
pub mod store;

use vstd::prelude::*;

verus! {

/// Policy for how far a refresh call may go to discover new state.
#[derive(Clone, Copy, PartialEq, Eq, Structural, Debug)]
pub enum RefreshMode {
    /// Never touch disk; only report what is already published.
    Never,
    /// Rescan disk when nothing observable changed since the caller's marker.
    AfterAllIndicesLoaded,
}

/// Why a consolidation pass failed. No partial snapshot is ever published on
/// failure; the pass may simply be retried.
#[derive(Clone, PartialEq, Eq, Debug)]
pub enum Error {
    /// The object directory at the given path cannot be used as a directory.
    Inaccessible(Vec<u8>),
    /// A filesystem failure other than "not found" during scanning or stat.
    Io,
    /// The alternates resolver failed; its failure is surfaced unchanged.
    Alternate,
}

} // verus!
