use git_odb::bundle::IndexAndPacks;
use git_odb::ondisk::{LoadError, OnDiskFile, OnDiskFileState};
use git_odb::paths::{is_scan_candidate_path, pack_subdir, path_is_idx, single_data_path};
use git_odb::plan::reconcile;
use git_odb::scan::{append_candidates, sort_by_mtime_desc, FileEntry, ScanItem};
use git_odb::slotmap::{decide_refresh, RefreshAction, SlotIndexMarker, StateId};
use git_odb::RefreshMode;
use std::sync::Arc;

fn bytes(s: &str) -> Vec<u8> {
    s.as_bytes().to_vec()
}

#[test]
fn scan_filter_matches_the_disk_convention_exactly() {
    assert!(path_is_idx(&bytes("a/b.idx")));
    assert!(is_scan_candidate_path(&bytes("a/b.idx")));
    // a leading dot starts the file name, not an extension
    assert!(!path_is_idx(&bytes(".idx")));
    assert!(!is_scan_candidate_path(&bytes("pack/.idx")));
    assert!(!is_scan_candidate_path(&bytes("a/b.pack")));
    assert!(is_scan_candidate_path(&bytes("pack/multi-pack-index")));
    assert!(is_scan_candidate_path(&bytes("multi-pack-index")));
    assert!(!is_scan_candidate_path(&bytes("amulti-pack-index")));
    assert!(!is_scan_candidate_path(&bytes("pack/multi-pack-index2")));
    // with an extension it is an ordinary index file name
    assert!(is_scan_candidate_path(&bytes("multi-pack-index.idx")));
}

#[test]
fn data_path_swaps_the_extension() {
    assert_eq!(single_data_path(&bytes("dir/y.idx")), bytes("dir/y.pack"));
    assert_eq!(single_data_path(&bytes("p-1.idx")), bytes("p-1.pack"));
}

#[test]
fn pack_subdir_appends_the_component() {
    assert_eq!(pack_subdir(&bytes("obj")), bytes("obj/pack"));
}

#[test]
fn sorting_is_newest_first() {
    let items = vec![
        ScanItem { path: bytes("a"), mtime: 3 },
        ScanItem { path: bytes("b"), mtime: 9 },
        ScanItem { path: bytes("c"), mtime: 5 },
    ];
    let sorted = sort_by_mtime_desc(items);
    let times: Vec<u64> = sorted.iter().map(|i| i.mtime).collect();
    assert_eq!(times, vec![9, 5, 3]);
    assert_eq!(sorted[0].path, bytes("b"));
}

#[test]
fn candidates_keep_only_regular_index_files() {
    let mut out: Vec<ScanItem> = Vec::new();
    let entries = vec![
        FileEntry { path: bytes("p/a.idx"), mtime: 1, is_file: true },
        FileEntry { path: bytes("p/b.idx"), mtime: 2, is_file: false },
        FileEntry { path: bytes("p/c.pack"), mtime: 3, is_file: true },
        FileEntry { path: bytes("p/multi-pack-index"), mtime: 4, is_file: true },
    ];
    append_candidates(&mut out, entries);
    assert_eq!(out.len(), 2);
    assert_eq!(out[0].path, bytes("p/a.idx"));
    assert_eq!(out[1].path, bytes("p/multi-pack-index"));
}

#[test]
fn reconcile_carries_bound_slots_and_assigns_new_ones() {
    let live: Vec<usize> = vec![0];
    let bound: Vec<Option<Vec<u8>>> = vec![Some(bytes("p/a.idx"))];
    let scanned = vec![
        ScanItem { path: bytes("p/b.idx"), mtime: 9 },
        ScanItem { path: bytes("p/a.idx"), mtime: 5 },
    ];
    let plan = reconcile(&live, &bound, scanned, false);
    assert_eq!(plan.assigned.len(), 2);
    // the new path gets a new slot, the known path keeps slot 0
    assert!(plan.assigned[0].fresh);
    assert_eq!(plan.assigned[0].slot, 1);
    assert!(!plan.assigned[1].fresh);
    assert_eq!(plan.assigned[1].slot, 0);
    assert_eq!(plan.retired.len(), 0);
    assert!(!plan.bump_generation);
    assert_eq!(plan.slots_needed, 2);
}

#[test]
fn reconcile_retires_vanished_paths() {
    let live: Vec<usize> = vec![0, 1];
    let bound: Vec<Option<Vec<u8>>> = vec![Some(bytes("p/a.idx")), Some(bytes("p/b.idx"))];
    let scanned = vec![ScanItem { path: bytes("p/b.idx"), mtime: 1 }];
    // without stability the removal recycles and bumps the generation
    let plan = reconcile(&live, &bound, scanned, false);
    assert_eq!(plan.assigned.len(), 1);
    assert_eq!(plan.assigned[0].slot, 1);
    assert_eq!(plan.retired, vec![0]);
    assert!(plan.bump_generation);

    // with stability the same removal keeps the generation
    let scanned2 = vec![ScanItem { path: bytes("p/b.idx"), mtime: 1 }];
    let plan2 = reconcile(&live, &bound, scanned2, true);
    assert_eq!(plan2.retired, vec![0]);
    assert!(!plan2.bump_generation);
}

#[test]
fn reconcile_reuses_an_empty_slot_index() {
    let live: Vec<usize> = vec![1];
    let bound: Vec<Option<Vec<u8>>> = vec![None, Some(bytes("p/b.idx"))];
    let scanned = vec![
        ScanItem { path: bytes("p/b.idx"), mtime: 9 },
        ScanItem { path: bytes("p/c.idx"), mtime: 5 },
    ];
    let plan = reconcile(&live, &bound, scanned, false);
    assert_eq!(plan.assigned[0].slot, 1);
    assert!(plan.assigned[1].fresh);
    // the empty slot 0 is reused before the arena grows
    assert_eq!(plan.assigned[1].slot, 0);
    assert_eq!(plan.slots_needed, 2);
}

#[test]
fn do_load_follows_the_one_way_lifecycle() {
    // success: unloaded becomes loaded
    let mut f: OnDiskFile<u32> = OnDiskFile::new_unloaded(bytes("p/a.idx"));
    assert!(!f.is_loaded());
    let r = f.do_load(|_p: &Vec<u8>| Ok(42u32));
    assert_eq!(r.unwrap().copied(), Some(42));
    assert!(f.is_loaded());
    assert_eq!(f.loaded().copied(), Some(42));

    // not found: terminal, reported as absence
    let mut g: OnDiskFile<u32> = OnDiskFile::new_unloaded(bytes("p/b.idx"));
    let r2 = g.do_load(|_p: &Vec<u8>| Err(LoadError::NotFound));
    assert_eq!(r2.unwrap(), None);
    assert!(!g.is_loaded());
    assert!(matches!(g.state, OnDiskFileState::Missing));

    // other failures leave the file retryable
    let mut h: OnDiskFile<u32> = OnDiskFile::new_unloaded(bytes("p/c.idx"));
    let r3 = h.do_load(|_p: &Vec<u8>| Err(LoadError::Other));
    assert_eq!(r3.unwrap_err(), LoadError::Other);
    assert!(matches!(h.state, OnDiskFileState::Unloaded));
    let r4 = h.do_load(|_p: &Vec<u8>| Ok(7u32));
    assert_eq!(r4.unwrap().copied(), Some(7));
}

#[test]
fn bundles_bind_to_their_scan_path() {
    let b = IndexAndPacks::<u32, u32, u32>::new_for_scan(bytes("p/a.idx"));
    assert_eq!(b.index_path(), &bytes("p/a.idx"));
    match &b {
        IndexAndPacks::Index(ib) => {
            assert_eq!(ib.data.path, bytes("p/a.pack"));
            assert!(matches!(ib.index.state, OnDiskFileState::Unloaded));
        }
        _ => panic!("an idx path must make a single-index bundle"),
    }
    let m = IndexAndPacks::<u32, u32, u32>::new_for_scan(bytes("p/multi-pack-index"));
    match &m {
        IndexAndPacks::MultiIndex(mb) => assert_eq!(mb.data.len(), 0),
        _ => panic!("the multi-pack-index must make a multi-index bundle"),
    }
}

#[test]
fn multi_bundle_pack_data_is_populated_once() {
    let m = IndexAndPacks::<u32, u32, u32>::new_for_scan(bytes("p/multi-pack-index"));
    let filled = m.with_multi_pack_data(vec![bytes("p/x.pack"), bytes("p/y.pack")]);
    match &filled {
        IndexAndPacks::MultiIndex(mb) => {
            assert_eq!(mb.data.len(), 2);
            assert_eq!(mb.data[0].path, bytes("p/x.pack"));
            assert_eq!(mb.data[1].path, bytes("p/y.pack"));
            assert!(matches!(mb.data[0].state, OnDiskFileState::Unloaded));
            assert!(matches!(mb.data[1].state, OnDiskFileState::Unloaded));
        }
        _ => panic!("a multi-pack-index bundle must stay multi"),
    }
    // an already-populated list is kept, not replaced
    let again = filled.with_multi_pack_data(vec![bytes("p/z.pack")]);
    match &again {
        IndexAndPacks::MultiIndex(mb) => assert_eq!(mb.data.len(), 2),
        _ => panic!("a multi-pack-index bundle must stay multi"),
    }
    // a single-index bundle ignores the paths entirely
    let single = IndexAndPacks::<u32, u32, u32>::new_for_scan(bytes("p/a.idx"));
    let untouched = single.with_multi_pack_data(vec![bytes("p/z.pack")]);
    assert!(matches!(untouched, IndexAndPacks::Index(_)));
}

#[test]
fn retiring_a_bundle_keeps_loaded_values_as_garbage() {
    let mut b = IndexAndPacks::<u32, u32, u32>::new_for_scan(bytes("p/a.idx"));
    if let IndexAndPacks::Index(ib) = &mut b {
        let r = ib.index.do_load(|_p: &Vec<u8>| Ok(Arc::new(42u32)));
        assert!(r.is_ok());
    }
    let retired = b.retire_copy();
    match &retired {
        IndexAndPacks::Index(ib) => {
            assert!(matches!(ib.index.state, OnDiskFileState::Garbage(_)));
            assert_eq!(ib.index.loaded().map(|v| **v), Some(42));
            // the sibling data file was never loaded: nothing to retain
            assert!(matches!(ib.data.state, OnDiskFileState::Missing));
        }
        _ => panic!("retiring keeps the bundle's shape"),
    }
}

#[test]
fn refresh_decision_follows_the_protocol() {
    let sid = StateId { serial: 4, loaded: 2 };
    let marker = SlotIndexMarker { generation: 1, state_id: sid };

    // an uninitialized store always consolidates
    let r0 = decide_refresh(RefreshMode::Never, &marker, 1, sid, false);
    assert!(matches!(r0, RefreshAction::Consolidate));

    // a retired generation is answered from what is already published
    let r1 = decide_refresh(RefreshMode::Never, &marker, 2, sid, true);
    assert!(matches!(r1, RefreshAction::ReplacePublished { stable: false }));

    // an unchanged fingerprint yields nothing new, or a rescan on request
    let r2 = decide_refresh(RefreshMode::Never, &marker, 1, sid, true);
    assert!(matches!(r2, RefreshAction::NothingNew));
    let r3 = decide_refresh(RefreshMode::AfterAllIndicesLoaded, &marker, 1, sid, true);
    assert!(matches!(r3, RefreshAction::Consolidate));

    // progress within the generation yields a stable replace
    let newer = StateId { serial: 4, loaded: 3 };
    let r4 = decide_refresh(RefreshMode::Never, &marker, 1, newer, true);
    assert!(matches!(r4, RefreshAction::ReplacePublished { stable: true }));
}

#[test]
fn default_marker_observes_nothing() {
    let m = SlotIndexMarker::default();
    assert_eq!(m.generation, 0);
    assert_eq!(m.state_id, StateId { serial: 0, loaded: 0 });
}
