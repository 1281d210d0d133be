//! File bundles: what one slot holds.
//!
//! A bundle is either one pack index with its sibling pack data file, or one
//! multi-pack-index with the data files it references. The loaded in-memory
//! handles are shared (reference-counted) so that clearing a slot never
//! invalidates a handle already given out in a snapshot.

use vstd::prelude::*;

use crate::ondisk::{OnDiskFile, OnDiskFileState};
use crate::paths::{data_path_of, is_idx_path, path_is_idx, single_data_path};

verus! {

/// Hand out another reference-counted handle to the same value.
///
/// Relies on std::sync::Arc::clone: the clone is a handle to the very same
/// allocation, hence the same value.
#[verifier::external_body]
pub fn arc_clone<T>(a: &std::sync::Arc<T>) -> (r: std::sync::Arc<T>)
    ensures
        r == *a,
{
    std::sync::Arc::clone(a)
}

/// One pack index file and its sibling pack data file.
pub struct IndexFileBundle<I, D> {
    pub index: OnDiskFile<std::sync::Arc<I>>,
    pub data: OnDiskFile<std::sync::Arc<D>>,
}

/// One multi-pack-index file and the pack data files it references. The data
/// list starts empty and is populated once the multi-pack-index itself has
/// been loaded and its referenced pack names are known.
pub struct MultiIndexFileBundle<M, D> {
    pub multi_index: OnDiskFile<std::sync::Arc<M>>,
    pub data: Vec<OnDiskFile<std::sync::Arc<D>>>,
}

/// What one slot holds: a single-index bundle or a multi-index bundle.
pub enum IndexAndPacks<I, D, M> {
    Index(IndexFileBundle<I, D>),
    MultiIndex(MultiIndexFileBundle<M, D>),
}

impl<I, D, M> IndexAndPacks<I, D, M> {
    /// The path of the bundle's primary index file.
    pub open spec fn index_path_spec(&self) -> Seq<u8> {
        match self {
            IndexAndPacks::Index(b) => b.index.path@,
            IndexAndPacks::MultiIndex(m) => m.multi_index.path@,
        }
    }

    /// A fresh bundle is bound to its path with nothing loaded yet.
    pub open spec fn is_fresh_for(&self, path: Seq<u8>) -> bool {
        match self {
            IndexAndPacks::Index(b) => is_idx_path(path) && b.index.path@ == path
                && b.index.state is Unloaded && b.data.path@ == data_path_of(path)
                && b.data.state is Unloaded,
            IndexAndPacks::MultiIndex(m) => !is_idx_path(path) && m.multi_index.path@ == path
                && m.multi_index.state is Unloaded && m.data.len() == 0,
        }
    }

    /// The path of the bundle's primary index file.
    pub fn index_path(&self) -> (r: &Vec<u8>)
        ensures
            r@ == self.index_path_spec(),
    {
        match self {
            IndexAndPacks::Index(b) => &b.index.path,
            IndexAndPacks::MultiIndex(m) => &m.multi_index.path,
        }
    }

    /// A not-yet-loaded single-index bundle: the pack data path is derived
    /// from the index path by swapping the extension.
    pub fn new_single(index_path: Vec<u8>) -> (r: Self)
        requires
            is_idx_path(index_path@),
        ensures
            r.is_fresh_for(index_path@),
            r is Index,
    {
        let data_path = single_data_path(&index_path);
        IndexAndPacks::Index(
            IndexFileBundle {
                index: OnDiskFile::new_unloaded(index_path),
                data: OnDiskFile::new_unloaded(data_path),
            },
        )
    }

    /// A not-yet-loaded multi-index bundle. Its referenced pack data files
    /// are discovered only after the multi-pack-index is loaded, so the data
    /// list starts empty.
    pub fn new_multi(index_path: Vec<u8>) -> (r: Self)
        requires
            !is_idx_path(index_path@),
        ensures
            r.is_fresh_for(index_path@),
            r is MultiIndex,
    {
        IndexAndPacks::MultiIndex(
            MultiIndexFileBundle { multi_index: OnDiskFile::new_unloaded(index_path), data: Vec::new() },
        )
    }

    /// The bundle for a freshly discovered scan path: single for `*.idx`,
    /// multi for the multi-pack-index.
    pub fn new_for_scan(index_path: Vec<u8>) -> (r: Self)
        ensures
            r.is_fresh_for(index_path@),
    {
        if path_is_idx(&index_path) {
            Self::new_single(index_path)
        } else {
            Self::new_multi(index_path)
        }
    }

    /// Populate the multi-index bundle's referenced pack data files: once the
    /// multi-pack-index itself has been loaded and the pack paths it
    /// references are known, each gets a not-yet-loaded data file, in the
    /// given order. A single-index bundle, or a multi-index bundle whose list
    /// was already populated, is returned as an identical twin, the given
    /// paths discarded. The primary index file is the very same shared value.
    pub fn with_multi_pack_data(&self, pack_paths: Vec<Vec<u8>>) -> (r: Self)
        ensures
            r.index_path_spec() == self.index_path_spec(),
            r is MultiIndex <==> self is MultiIndex,
            match (self, r) {
                (IndexAndPacks::Index(b), IndexAndPacks::Index(rb)) => rb.index.loaded_spec()
                    == b.index.loaded_spec() && rb.data.loaded_spec() == b.data.loaded_spec(),
                (IndexAndPacks::MultiIndex(m), IndexAndPacks::MultiIndex(rm)) => rm.multi_index
                    .loaded_spec() == m.multi_index.loaded_spec() && (m.data@.len() == 0
                    ==> rm.data@.len() == pack_paths@.len() && (forall|i: int|
                    0 <= i < pack_paths@.len() ==> (#[trigger] rm.data@[i]).path == pack_paths@[i]
                        && rm.data@[i].state is Unloaded)) && (m.data@.len() > 0 ==> rm.data@.len()
                    == m.data@.len()),
                _ => false,
            },
    {
        match self {
            IndexAndPacks::Index(b) => IndexAndPacks::Index(
                IndexFileBundle { index: file_copy(&b.index), data: file_copy(&b.data) },
            ),
            IndexAndPacks::MultiIndex(m) => {
                if m.data.len() == 0 {
                    let ghost all_paths = pack_paths@;
                    let mut rest = pack_paths;
                    let total = rest.len();
                    let mut data: Vec<OnDiskFile<std::sync::Arc<D>>> = Vec::new();
                    let mut i: usize = 0;
                    proof {
                        assert(all_paths.len() == total);
                        assert(rest@ =~= all_paths.skip(0));
                    }
                    while rest.len() > 0
                        invariant
                            0 <= i <= all_paths.len(),
                            all_paths.len() <= usize::MAX,
                            i + rest@.len() == all_paths.len(),
                            rest@ == all_paths.skip(i as int),
                            data@.len() == i,
                            forall|q: int|
                                0 <= q < i ==> (#[trigger] data@[q]).path == all_paths[q]
                                    && data@[q].state is Unloaded,
                        decreases rest@.len(),
                    {
                        proof {
                            assert(rest@[0] == all_paths[i as int]);
                        }
                        let path = rest.remove(0);
                        proof {
                            assert(rest@ =~= all_paths.skip(i + 1));
                        }
                        data.push(OnDiskFile::new_unloaded(path));
                        i = i + 1;
                    }
                    IndexAndPacks::MultiIndex(
                        MultiIndexFileBundle { multi_index: file_copy(&m.multi_index), data },
                    )
                } else {
                    let mut data: Vec<OnDiskFile<std::sync::Arc<D>>> = Vec::new();
                    let mut i: usize = 0;
                    while i < m.data.len()
                        invariant
                            0 <= i <= m.data@.len(),
                            data@.len() == i,
                        decreases m.data@.len() - i,
                    {
                        data.push(file_copy(&m.data[i]));
                        i = i + 1;
                    }
                    IndexAndPacks::MultiIndex(
                        MultiIndexFileBundle { multi_index: file_copy(&m.multi_index), data },
                    )
                }
            }
        }
    }

    /// Build the retired twin of the bundle: its path vanished from disk, but
    /// a live handle requires stability, so loaded values are retained as
    /// garbage instead of being dropped. The retained in-memory handles are
    /// the very same shared values.
    pub fn retire_copy(&self) -> (r: Self)
        ensures
            r.index_path_spec() == self.index_path_spec(),
            match (self, r) {
                (IndexAndPacks::Index(b), IndexAndPacks::Index(rb)) => rb.index.loaded_spec()
                    == b.index.loaded_spec() && !(rb.index.state is Loaded) && !(rb.index.state
                    is Unloaded) && rb.data.loaded_spec() == b.data.loaded_spec(),
                (IndexAndPacks::MultiIndex(m), IndexAndPacks::MultiIndex(rm)) => rm.multi_index
                    .loaded_spec() == m.multi_index.loaded_spec() && !(rm.multi_index.state
                    is Loaded) && !(rm.multi_index.state is Unloaded) && rm.data@.len()
                    == m.data@.len(),
                _ => false,
            },
            r is Index <==> self is Index,
    {
        match self {
            IndexAndPacks::Index(b) => IndexAndPacks::Index(
                IndexFileBundle { index: retire_file(&b.index), data: retire_file(&b.data) },
            ),
            IndexAndPacks::MultiIndex(m) => {
                let mut retired: Vec<OnDiskFile<std::sync::Arc<D>>> = Vec::new();
                let mut i: usize = 0;
                while i < m.data.len()
                    invariant
                        0 <= i <= m.data@.len(),
                        retired@.len() == i,
                    decreases m.data@.len() - i,
                {
                    retired.push(retire_file(&m.data[i]));
                    i = i + 1;
                }
                IndexAndPacks::MultiIndex(
                    MultiIndexFileBundle { multi_index: retire_file(&m.multi_index), data: retired },
                )
            }
        }
    }
}

/// What first-time initialization writes into a slot observed holding
/// `current`: a fresh bundle bound to `path` when the slot is empty, and
/// nothing otherwise — an existing binding is never replaced, whatever it is.
pub fn init_bundle_if_empty<I, D, M>(
    current: &Option<IndexAndPacks<I, D, M>>,
    path: Vec<u8>,
) -> (r: Option<IndexAndPacks<I, D, M>>)
    ensures
        r is Some <==> current is None,
        r matches Some(b) ==> b.is_fresh_for(path@),
{
    match current {
        None => Some(IndexAndPacks::new_for_scan(path)),
        Some(_) => None,
    }
}

/// A structural copy of one on-disk file; the held in-memory handle, if any,
/// is the very same shared value.
pub fn file_copy<T>(f: &OnDiskFile<std::sync::Arc<T>>) -> (r: OnDiskFile<std::sync::Arc<T>>)
    ensures
        r.path@ == f.path@,
        r.loaded_spec() == f.loaded_spec(),
        r.state is Unloaded <==> f.state is Unloaded,
        r.state is Missing <==> f.state is Missing,
        r.state is Loaded <==> f.state is Loaded,
        r.state is Garbage <==> f.state is Garbage,
{
    let path = crate::paths::clone_bytes(&f.path);
    let state = match &f.state {
        OnDiskFileState::Loaded(v) => OnDiskFileState::Loaded(arc_clone(v)),
        OnDiskFileState::Garbage(v) => OnDiskFileState::Garbage(arc_clone(v)),
        OnDiskFileState::Unloaded => OnDiskFileState::Unloaded,
        OnDiskFileState::Missing => OnDiskFileState::Missing,
    };
    OnDiskFile { path, state }
}

/// The retired twin of one on-disk file: a loaded value is retained as
/// garbage (sharing the same in-memory handle), anything else is missing.
pub fn retire_file<T>(f: &OnDiskFile<std::sync::Arc<T>>) -> (r: OnDiskFile<std::sync::Arc<T>>)
    ensures
        r.path@ == f.path@,
        r.loaded_spec() == f.loaded_spec(),
        !(r.state is Loaded),
        !(r.state is Unloaded),
{
    let path = crate::paths::clone_bytes(&f.path);
    let state = match &f.state {
        OnDiskFileState::Loaded(v) => OnDiskFileState::Garbage(arc_clone(v)),
        OnDiskFileState::Garbage(v) => OnDiskFileState::Garbage(arc_clone(v)),
        OnDiskFileState::Unloaded => OnDiskFileState::Missing,
        OnDiskFileState::Missing => OnDiskFileState::Missing,
    };
    OnDiskFile { path, state }
}

} // verus!
