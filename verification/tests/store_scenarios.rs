use git_odb::ondisk::LoadError;
use git_odb::scan::FileEntry;
use git_odb::slotmap::SlotIndexMarker;
use git_odb::store::{Outcome, SingleOrMultiIndex, Snapshot, Store};
use git_odb::{Error, RefreshMode};
use std::sync::Arc;

type TestStore = Store<u32, u32, u32>;

fn bytes(s: &str) -> Vec<u8> {
    s.as_bytes().to_vec()
}

fn entry(path: &str, mtime: u64) -> FileEntry {
    FileEntry { path: bytes(path), mtime, is_file: true }
}

fn no_alternates(_d: &Vec<u8>) -> Result<Vec<Vec<u8>>, Error> {
    Ok(Vec::new())
}

fn lister(
    model: Vec<(Vec<u8>, Vec<FileEntry>)>,
) -> impl Fn(&Vec<u8>) -> Result<Option<Vec<FileEntry>>, Error> {
    move |p: &Vec<u8>| {
        for (dir, entries) in &model {
            if dir == p {
                return Ok(Some(entries.clone()));
            }
        }
        Ok(None)
    }
}

fn opener_by_suffix(path: &Vec<u8>) -> Result<Arc<u32>, LoadError> {
    if path.ends_with(b"b.idx") {
        Ok(Arc::new(9))
    } else {
        Ok(Arc::new(5))
    }
}

fn opener_multi(_path: &Vec<u8>) -> Result<Arc<u32>, LoadError> {
    Ok(Arc::new(77))
}

fn snapshot_of(outcome: Outcome<u32, u32, u32>) -> Snapshot<u32, u32, u32> {
    match outcome {
        Outcome::Replace(s) => s,
        Outcome::ReplaceStable(s) => s,
    }
}

#[test]
fn first_refresh_on_empty_directory_initializes() {
    let store: TestStore = Store::at(bytes("obj"));
    let marker = SlotIndexMarker::default();
    let out = store
        .load_one_index(RefreshMode::Never, &marker, &no_alternates, &lister(vec![]))
        .unwrap()
        .expect("first refresh must consolidate");
    let snap = snapshot_of(out);
    assert_eq!(snap.loose_dbs.len(), 1);
    assert_eq!(snap.loose_dbs[0].path, bytes("obj"));
    assert_eq!(snap.indices.len(), 0);

    // the returned marker is valid for a following nothing-new check
    let again = store
        .load_one_index(RefreshMode::Never, &snap.marker, &no_alternates, &lister(vec![]))
        .unwrap();
    assert!(again.is_none());
}

#[test]
fn refresh_is_idempotent_under_never_mode() {
    let store: TestStore = Store::at(bytes("obj"));
    let marker = SlotIndexMarker::default();
    let out = store
        .load_one_index(RefreshMode::Never, &marker, &no_alternates, &lister(vec![]))
        .unwrap()
        .unwrap();
    let snap = snapshot_of(out);
    let first = store
        .load_one_index(RefreshMode::Never, &snap.marker, &no_alternates, &lister(vec![]))
        .unwrap();
    let second = store
        .load_one_index(RefreshMode::Never, &snap.marker, &no_alternates, &lister(vec![]))
        .unwrap();
    assert!(first.is_none());
    assert!(second.is_none());
}

#[test]
fn two_indices_appear_newest_first() {
    let model = vec![(
        bytes("obj/pack"),
        vec![entry("obj/pack/a.idx", 5), entry("obj/pack/b.idx", 9)],
    )];
    let store: TestStore = Store::at(bytes("obj"));
    let marker = SlotIndexMarker::default();
    let out = store
        .load_one_index(RefreshMode::Never, &marker, &no_alternates, &lister(model))
        .unwrap()
        .unwrap();
    let snap = snapshot_of(out);
    // nothing mapped yet: entries are omitted, not placeholders
    assert_eq!(snap.indices.len(), 0);

    // map both indices lazily, then collect again
    assert_eq!(store.load_index_at(0, opener_by_suffix, opener_multi).unwrap(), true);
    assert_eq!(store.load_index_at(1, opener_by_suffix, opener_multi).unwrap(), true);
    let snap2 = store.collect_snapshot();
    assert_eq!(snap2.indices.len(), 2);
    // newest-modified first: b.idx (mtime 9) got slot 0, a.idx slot 1
    assert_eq!(snap2.indices[0].id, 0);
    assert_eq!(snap2.indices[1].id, 1);
    match &snap2.indices[0].file {
        SingleOrMultiIndex::Single { index, data } => {
            assert_eq!(**index, 9);
            assert!(data.is_none());
        }
        _ => panic!("expected a single-index entry"),
    }
    match &snap2.indices[1].file {
        SingleOrMultiIndex::Single { index, .. } => assert_eq!(**index, 5),
        _ => panic!("expected a single-index entry"),
    }
}

#[test]
fn deleted_index_without_stability_recycles_slot_and_bumps_generation() {
    let store: TestStore = Store::at(bytes("obj"));
    let marker = SlotIndexMarker::default();
    let model1 = vec![(bytes("obj/pack"), vec![entry("obj/pack/a.idx", 5)])];
    let out1 = store
        .load_one_index(RefreshMode::Never, &marker, &no_alternates, &lister(model1))
        .unwrap()
        .unwrap();
    let snap1 = snapshot_of(out1);
    let gen1 = snap1.marker.generation;

    // the file disappears; an explicit rescan drops the slot and bumps
    let out2 = store
        .load_one_index(
            RefreshMode::AfterAllIndicesLoaded,
            &snap1.marker,
            &no_alternates,
            &lister(vec![(bytes("obj/pack"), vec![])]),
        )
        .unwrap()
        .unwrap();
    let snap2 = match out2 {
        Outcome::Replace(s) => s,
        Outcome::ReplaceStable(_) => panic!("a recycling removal must not be stable"),
    };
    assert_ne!(snap2.marker.generation, gen1);
    assert_eq!(snap2.indices.len(), 0);

    // a marker from the prior generation always yields a full replace
    let stale = store
        .load_one_index(RefreshMode::Never, &snap1.marker, &no_alternates, &lister(vec![]))
        .unwrap()
        .unwrap();
    assert!(matches!(stale, Outcome::Replace(_)));

    // a later file reuses the freed slot index without growing the arena
    let model3 = vec![(bytes("obj/pack"), vec![entry("obj/pack/c.idx", 7)])];
    let out3 = store
        .load_one_index(
            RefreshMode::AfterAllIndicesLoaded,
            &snap2.marker,
            &no_alternates,
            &lister(model3),
        )
        .unwrap()
        .unwrap();
    let snap3 = snapshot_of(out3);
    assert_eq!(snap3.marker.generation, snap2.marker.generation);
    assert_eq!(store.load_index_at(0, opener_by_suffix, opener_multi).unwrap(), true);
    let m = store.metrics();
    assert_eq!(m.known_indices, 1);
    assert_eq!(m.unused_slots, 0);
}

#[test]
fn unchanged_directory_keeps_generation_on_rescan() {
    let store: TestStore = Store::at(bytes("obj"));
    let marker = SlotIndexMarker::default();
    let model = vec![(bytes("obj/pack"), vec![entry("obj/pack/a.idx", 5)])];
    let out1 = store
        .load_one_index(RefreshMode::Never, &marker, &no_alternates, &lister(model.clone()))
        .unwrap()
        .unwrap();
    let snap1 = snapshot_of(out1);

    // an explicit rescan of the same directory retires nothing: the slot is
    // carried forward and the generation stays
    let out2 = store
        .load_one_index(
            RefreshMode::AfterAllIndicesLoaded,
            &snap1.marker,
            &no_alternates,
            &lister(model),
        )
        .unwrap()
        .unwrap();
    let snap2 = match out2 {
        Outcome::ReplaceStable(s) => s,
        Outcome::Replace(_) => panic!("an unchanged directory must not bump the generation"),
    };
    assert_eq!(snap2.marker.generation, snap1.marker.generation);
    let m = store.metrics();
    assert_eq!(m.known_indices, 1);
    assert_eq!(m.unused_slots, 0);
}

#[test]
fn deleted_index_with_stable_handle_is_retained_as_garbage() {
    let store: TestStore = Store::at(bytes("obj"));
    let marker = SlotIndexMarker::default();
    let model1 = vec![(bytes("obj/pack"), vec![entry("obj/pack/a.idx", 5)])];
    let out1 = store
        .load_one_index(RefreshMode::Never, &marker, &no_alternates, &lister(model1))
        .unwrap()
        .unwrap();
    let snap1 = snapshot_of(out1);
    assert_eq!(store.load_index_at(0, opener_by_suffix, opener_multi).unwrap(), true);

    store.register_stable_handle();
    let fresh = store.collect_snapshot();
    let out2 = store
        .load_one_index(
            RefreshMode::AfterAllIndicesLoaded,
            &fresh.marker,
            &no_alternates,
            &lister(vec![(bytes("obj/pack"), vec![])]),
        )
        .unwrap()
        .unwrap();
    // the removal is generation-compatible: previously issued ids stay valid
    let snap2 = match out2 {
        Outcome::ReplaceStable(s) => s,
        Outcome::Replace(_) => panic!("a garbage-retaining removal must be stable"),
    };
    assert_eq!(snap2.marker.generation, snap1.marker.generation);
    // the retained entry is still resolvable through the snapshot
    assert_eq!(snap2.indices.len(), 1);
    assert_eq!(snap2.indices[0].id, 0);
    match &snap2.indices[0].file {
        SingleOrMultiIndex::Single { index, .. } => assert_eq!(**index, 5),
        _ => panic!("expected a single-index entry"),
    }
    store.release_stable_handle();
}

#[test]
fn lazy_load_progress_changes_state_id_and_yields_stable_replace() {
    let store: TestStore = Store::at(bytes("obj"));
    let marker = SlotIndexMarker::default();
    let model = vec![(bytes("obj/pack"), vec![entry("obj/pack/a.idx", 5)])];
    let out = store
        .load_one_index(RefreshMode::Never, &marker, &no_alternates, &lister(model))
        .unwrap()
        .unwrap();
    let snap = snapshot_of(out);

    // another caller finishes one lazy load; the structure is unchanged
    assert_eq!(store.load_index_at(0, opener_by_suffix, opener_multi).unwrap(), true);

    let out2 = store
        .load_one_index(RefreshMode::Never, &snap.marker, &no_alternates, &lister(vec![]))
        .unwrap()
        .expect("progress must be observable");
    match out2 {
        Outcome::ReplaceStable(s2) => {
            assert_eq!(s2.marker.generation, snap.marker.generation);
            assert_ne!(s2.marker.state_id, snap.marker.state_id);
            assert_eq!(s2.indices.len(), 1);
        }
        Outcome::Replace(_) => panic!("same generation must be handed back as stable"),
    }
}

#[test]
fn multi_pack_index_is_discovered_and_loaded() {
    let store: TestStore = Store::at(bytes("obj"));
    let marker = SlotIndexMarker::default();
    let model = vec![(
        bytes("obj/pack"),
        vec![entry("obj/pack/multi-pack-index", 3), entry("obj/pack/ignored.pack", 9)],
    )];
    let out = store
        .load_one_index(RefreshMode::Never, &marker, &no_alternates, &lister(model))
        .unwrap()
        .unwrap();
    let snap = snapshot_of(out);
    assert_eq!(snap.indices.len(), 0);
    assert_eq!(store.load_index_at(0, opener_by_suffix, opener_multi).unwrap(), true);
    let snap2 = store.collect_snapshot();
    assert_eq!(snap2.indices.len(), 1);
    match &snap2.indices[0].file {
        SingleOrMultiIndex::Multi { index, data } => {
            assert_eq!(**index, 77);
            assert_eq!(data.len(), 0);
        }
        _ => panic!("expected a multi-index entry"),
    }
}

#[test]
fn missing_index_file_is_terminal_and_other_errors_are_retryable() {
    let store: TestStore = Store::at(bytes("obj"));
    let marker = SlotIndexMarker::default();
    let model = vec![(bytes("obj/pack"), vec![entry("obj/pack/a.idx", 5)])];
    store
        .load_one_index(RefreshMode::Never, &marker, &no_alternates, &lister(model))
        .unwrap()
        .unwrap();

    // a transient failure leaves the slot retryable
    let failing = |_p: &Vec<u8>| -> Result<Arc<u32>, LoadError> { Err(LoadError::Other) };
    assert_eq!(
        store.load_index_at(0, failing, opener_multi).unwrap_err(),
        LoadError::Other
    );
    // the retry succeeds
    assert_eq!(store.load_index_at(0, opener_by_suffix, opener_multi).unwrap(), true);

    // a vanished file is terminal: later calls report absence without retrying
    let store2: TestStore = Store::at(bytes("obj"));
    let model2 = vec![(bytes("obj/pack"), vec![entry("obj/pack/a.idx", 5)])];
    store2
        .load_one_index(RefreshMode::Never, &SlotIndexMarker::default(), &no_alternates, &lister(model2))
        .unwrap()
        .unwrap();
    let not_found = |_p: &Vec<u8>| -> Result<Arc<u32>, LoadError> { Err(LoadError::NotFound) };
    assert_eq!(store2.load_index_at(0, not_found, opener_multi).unwrap(), false);
    let must_not_run = |_p: &Vec<u8>| -> Result<Arc<u32>, LoadError> {
        panic!("a missing file must not be probed again")
    };
    assert_eq!(store2.load_index_at(0, must_not_run, opener_multi).unwrap(), false);
}

#[test]
fn scan_errors_abort_the_pass_and_leave_state_usable() {
    let store: TestStore = Store::at(bytes("obj"));
    let marker = SlotIndexMarker::default();
    let failing_lister =
        |_p: &Vec<u8>| -> Result<Option<Vec<FileEntry>>, Error> { Err(Error::Io) };
    let r = store.load_one_index(RefreshMode::Never, &marker, &no_alternates, &failing_lister);
    match r {
        Err(e) => assert_eq!(e, Error::Io),
        Ok(_) => panic!("a failing scan must abort the pass"),
    }

    let failing_alternates =
        |_d: &Vec<u8>| -> Result<Vec<Vec<u8>>, Error> { Err(Error::Alternate) };
    let r2 = store.load_one_index(RefreshMode::Never, &marker, &failing_alternates, &lister(vec![]));
    match r2 {
        Err(e) => assert_eq!(e, Error::Alternate),
        Ok(_) => panic!("a failing resolver must abort the pass"),
    }

    // an unusable object directory surfaces as such
    let inaccessible =
        |d: &Vec<u8>| -> Result<Vec<Vec<u8>>, Error> { Err(Error::Inaccessible(d.clone())) };
    let r3 = store.load_one_index(RefreshMode::Never, &marker, &inaccessible, &lister(vec![]));
    match r3 {
        Err(e) => assert_eq!(e, Error::Inaccessible(bytes("obj"))),
        Ok(_) => panic!("an inaccessible directory must abort the pass"),
    }

    // a later pass may retry the whole consolidation and succeed
    let out = store
        .load_one_index(RefreshMode::Never, &marker, &no_alternates, &lister(vec![]))
        .unwrap();
    assert!(out.is_some());
}

#[test]
fn alternates_extend_the_loose_store_list_in_order() {
    let store: TestStore = Store::at(bytes("obj"));
    let marker = SlotIndexMarker::default();
    let alternates = |_d: &Vec<u8>| -> Result<Vec<Vec<u8>>, Error> {
        Ok(vec![bytes("alt1"), bytes("alt2")])
    };
    let model = vec![(bytes("alt2/pack"), vec![entry("alt2/pack/z.idx", 1)])];
    let out = store
        .load_one_index(RefreshMode::Never, &marker, &alternates, &lister(model))
        .unwrap()
        .unwrap();
    let snap = snapshot_of(out);
    assert_eq!(snap.loose_dbs.len(), 3);
    assert_eq!(snap.loose_dbs[0].path, bytes("obj"));
    assert_eq!(snap.loose_dbs[1].path, bytes("alt1"));
    assert_eq!(snap.loose_dbs[2].path, bytes("alt2"));
    let m = store.metrics();
    assert_eq!(m.known_indices, 1);
}
