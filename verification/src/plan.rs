//! Reconciling the slot map with a fresh directory scan.
//!
//! Given the previous snapshot's live slots, the path each slot is bound to,
//! and the sorted scan results, the plan says which slot serves each scanned
//! path (carrying bound slots forward and never rebinding one), which live
//! slots retire because their path vanished, and whether the generation must
//! change. It is a pure computation; applying it to the shared cells is the
//! store's job.

use vstd::prelude::*;

use crate::paths::bytes_equal;
use crate::scan::ScanItem;

verus! {

/// One scanned path and the slot that will serve it.
pub struct SlotAssignment {
    /// The slot index.
    pub slot: usize,
    /// The scanned path.
    pub path: Vec<u8>,
    /// True when the slot does not already hold this path and must be
    /// initialized; false when the binding is carried forward.
    pub fresh: bool,
}

/// What one consolidation pass will do to the slot map.
pub struct ReconcilePlan {
    /// One entry per scanned path, in scan order.
    pub assigned: Vec<SlotAssignment>,
    /// Live slots whose bound path is no longer on disk.
    pub retired: Vec<usize>,
    /// How many slots the arena needs afterwards.
    pub slots_needed: usize,
    /// True when a slot was removed non-stably, invalidating issued pack ids.
    pub bump_generation: bool,
}

/// Does some assignment use slot `j`?
pub open spec fn assigns_slot(asg: Seq<SlotAssignment>, j: usize) -> bool {
    exists|k: int| 0 <= k < asg.len() && asg[k].slot == j
}

/// The bytes slot `j` is bound to (empty when the slot holds nothing).
pub open spec fn bound_path(bound: Seq<Option<Vec<u8>>>, j: int) -> Seq<u8> {
    match bound[j] {
        Some(p) => p@,
        None => Seq::empty(),
    }
}

/// Is `j` one of the live slot indices?
pub open spec fn live_contains(live: Seq<usize>, j: usize) -> bool {
    exists|t: int| 0 <= t < live.len() && live[t] == j
}

/// Is some live slot bound to exactly the bytes `p`?
pub open spec fn live_has_bound_path(
    live: Seq<usize>,
    bound: Seq<Option<Vec<u8>>>,
    p: Seq<u8>,
) -> bool {
    exists|t: int|
        0 <= t < live.len() && (#[trigger] live[t]) < bound.len() && bound[live[t] as int] is Some
            && bound_path(bound, live[t] as int) == p
}

/// Does some scanned item carry exactly the bytes `p` as its path?
pub open spec fn scan_contains_path(scanned: Seq<ScanItem>, p: Seq<u8>) -> bool {
    exists|k: int| 0 <= k < scanned.len() && (#[trigger] scanned[k]).path@ == p
}

/// No two live slots are bound to the same bytes: the well-formedness the
/// store maintains, since a path is only ever bound to one slot.
pub open spec fn distinct_live_bindings(live: Seq<usize>, bound: Seq<Option<Vec<u8>>>) -> bool {
    forall|t1: int, t2: int|
        0 <= t1 < live.len() && 0 <= t2 < live.len() && (#[trigger] live[t1]) < bound.len() && (
        #[trigger] live[t2]) < bound.len() && bound[live[t1] as int] is Some && bound[live[t2] as int]
            is Some && bound_path(bound, live[t1] as int) == bound_path(bound, live[t2] as int)
            ==> live[t1] == live[t2]
}

/// No path is listed twice by one scan: what a directory walk yields, since a
/// full path names at most one file.
pub open spec fn distinct_scan_paths(scanned: Seq<ScanItem>) -> bool {
    forall|k1: int, k2: int|
        0 <= k1 < k2 < scanned.len() ==> (#[trigger] scanned[k1]).path@ != (
        #[trigger] scanned[k2]).path@
}

/// A path found among the first `i` scanned items is found among the first
/// `i + 1` as well.
proof fn lemma_scan_prefix(s: Seq<ScanItem>, i: int, p: Seq<u8>)
    requires
        0 <= i < s.len(),
        scan_contains_path(s.take(i), p),
    ensures
        scan_contains_path(s.take(i + 1), p),
{
    let k = choose|k: int| 0 <= k < s.take(i).len() && (#[trigger] s.take(i)[k]).path@ == p;
    assert(s.take(i + 1)[k].path@ == p);
}

/// Find the live, unclaimed slot already bound to `path`, if any.
fn find_match(
    live: &Vec<usize>,
    bound: &Vec<Option<Vec<u8>>>,
    claimed: &Vec<bool>,
    path: &Vec<u8>,
) -> (r: Option<usize>)
    requires
        claimed@.len() == bound@.len(),
    ensures
        match r {
            Some(j) => j < bound@.len() && (exists|t: int|
                0 <= t < live@.len() && live@[t] == j) && (bound@[j as int] matches Some(p)
                && p@ == path@) && !claimed@[j as int],
            None => forall|t: int|
                0 <= t < live@.len() ==> !(live@[t] < bound@.len() && (bound@[live@[t] as int] matches Some(p) && p@ == path@) && !claimed@[live@[t] as int]),
        },
{
    let mut t: usize = 0;
    while t < live.len()
        invariant
            0 <= t <= live@.len(),
            claimed@.len() == bound@.len(),
            forall|q: int|
                0 <= q < t ==> !(live@[q] < bound@.len() && (bound@[live@[q] as int] matches Some(p)
                    && p@ == path@) && !claimed@[live@[q] as int]),
        decreases live@.len() - t,
    {
        let j = live[t];
        if j < bound.len() && !claimed[j] {
            match &bound[j] {
                Some(p) => {
                    if bytes_equal(p, path) {
                        return Some(j);
                    }
                }
                None => {}
            }
        }
        t = t + 1;
    }
    None
}

/// Find an empty, unclaimed slot whose index can be reused, if any.
fn find_free(bound: &Vec<Option<Vec<u8>>>, claimed: &Vec<bool>) -> (r: Option<usize>)
    requires
        claimed@.len() == bound@.len(),
    ensures
        r matches Some(j) ==> j < bound@.len() && bound@[j as int] is None && !claimed@[j as int],
{
    let mut j: usize = 0;
    while j < bound.len()
        invariant
            claimed@.len() == bound@.len(),
        decreases bound@.len() - j,
    {
        if !claimed[j] {
            match &bound[j] {
                None => {
                    return Some(j);
                }
                Some(_) => {}
            }
        }
        j = j + 1;
    }
    None
}

/// One scan step that claims slot `j`, the unique live slot bound to the
/// step's path: every claimed bound slot's path stays scanned, and every
/// still-unclaimed live bound slot's path stays unscanned.
proof fn lemma_step_claimed(
    live: Seq<usize>,
    bound: Seq<Option<Vec<u8>>>,
    all: Seq<ScanItem>,
    i: int,
    old_claimed: Seq<bool>,
    new_claimed: Seq<bool>,
    j: usize,
)
    requires
        distinct_live_bindings(live, bound),
        0 <= i < all.len(),
        bound.len() <= usize::MAX,
        old_claimed.len() == bound.len(),
        j < bound.len(),
        new_claimed == old_claimed.update(j as int, true),
        live_contains(live, j),
        bound[j as int] is Some,
        bound_path(bound, j as int) == all[i].path@,
        forall|q: int|
            0 <= q < bound.len() && #[trigger] old_claimed[q] && bound[q] is Some
                ==> scan_contains_path(all.take(i), bound_path(bound, q)),
        forall|q: int|
            0 <= q < bound.len() && live_contains(live, q as usize) && bound[q] is Some && !(
            #[trigger] old_claimed[q]) ==> !scan_contains_path(all.take(i), bound_path(bound, q)),
    ensures
        forall|q: int|
            0 <= q < bound.len() && #[trigger] new_claimed[q] && bound[q] is Some
                ==> scan_contains_path(all.take(i + 1), bound_path(bound, q)),
        forall|q: int|
            0 <= q < bound.len() && live_contains(live, q as usize) && bound[q] is Some && !(
            #[trigger] new_claimed[q]) ==> !scan_contains_path(
                all.take(i + 1),
                bound_path(bound, q),
            ),
{
    assert(all.take(i + 1)[i].path@ == all[i].path@);
    assert forall|q: int|
        0 <= q < bound.len() && #[trigger] new_claimed[q] && bound[q]
            is Some implies scan_contains_path(all.take(i + 1), bound_path(bound, q)) by {
        if q == j as int {
            assert(all.take(i + 1)[i].path@ == bound_path(bound, q));
        } else {
            assert(old_claimed[q]);
            lemma_scan_prefix(all, i, bound_path(bound, q));
        }
    }
    assert forall|q: int|
        0 <= q < bound.len() && live_contains(live, q as usize) && bound[q] is Some && !(
        #[trigger] new_claimed[q]) implies !scan_contains_path(
        all.take(i + 1),
        bound_path(bound, q),
    ) by {
        assert(!old_claimed[q]);
        assert(!scan_contains_path(all.take(i), bound_path(bound, q)));
        if scan_contains_path(all.take(i + 1), bound_path(bound, q)) {
            let k = choose|k: int|
                0 <= k < all.take(i + 1).len() && (#[trigger] all.take(i + 1)[k]).path@
                    == bound_path(bound, q);
            if k < i {
                assert(all.take(i)[k].path@ == bound_path(bound, q));
                assert(false);
            } else {
                // two distinct live slots bound to the step's path
                assert(all.take(i + 1)[k].path@ == all[k].path@);
                assert(bound_path(bound, q) == all[i].path@);
                let t1 = choose|t: int| 0 <= t < live.len() && #[trigger] live[t] == q as usize;
                let t2 = choose|t: int| 0 <= t < live.len() && #[trigger] live[t] == j;
                assert(live[t1] as int == q);
                assert(bound_path(bound, live[t1] as int) == bound_path(bound, q));
                assert(bound_path(bound, live[t2] as int) == bound_path(bound, j as int));
                assert(live[t1] == live[t2]);
                assert(false);
            }
        }
    }
}

/// One scan step that claims no bound slot (the path matched no unclaimed
/// live slot): both walk facts carry to the longer prefix.
proof fn lemma_step_unclaimed(
    live: Seq<usize>,
    bound: Seq<Option<Vec<u8>>>,
    all: Seq<ScanItem>,
    i: int,
    old_claimed: Seq<bool>,
    new_claimed: Seq<bool>,
)
    requires
        0 <= i < all.len(),
        bound.len() <= usize::MAX,
        old_claimed.len() == bound.len(),
        new_claimed.len() == bound.len(),
        forall|q: int|
            0 <= q < bound.len() && bound[q] is Some ==> #[trigger] new_claimed[q]
                == old_claimed[q],
        forall|t: int|
            0 <= t < live.len() ==> !((#[trigger] live[t]) < bound.len() && bound[live[t] as int]
                is Some && bound_path(bound, live[t] as int) == all[i].path@ && !old_claimed[live[t] as int]),
        forall|q: int|
            0 <= q < bound.len() && #[trigger] old_claimed[q] && bound[q] is Some
                ==> scan_contains_path(all.take(i), bound_path(bound, q)),
        forall|q: int|
            0 <= q < bound.len() && live_contains(live, q as usize) && bound[q] is Some && !(
            #[trigger] old_claimed[q]) ==> !scan_contains_path(all.take(i), bound_path(bound, q)),
    ensures
        forall|q: int|
            0 <= q < bound.len() && #[trigger] new_claimed[q] && bound[q] is Some
                ==> scan_contains_path(all.take(i + 1), bound_path(bound, q)),
        forall|q: int|
            0 <= q < bound.len() && live_contains(live, q as usize) && bound[q] is Some && !(
            #[trigger] new_claimed[q]) ==> !scan_contains_path(
                all.take(i + 1),
                bound_path(bound, q),
            ),
{
    assert forall|q: int|
        0 <= q < bound.len() && #[trigger] new_claimed[q] && bound[q]
            is Some implies scan_contains_path(all.take(i + 1), bound_path(bound, q)) by {
        assert(old_claimed[q]);
        lemma_scan_prefix(all, i, bound_path(bound, q));
    }
    assert forall|q: int|
        0 <= q < bound.len() && live_contains(live, q as usize) && bound[q] is Some && !(
        #[trigger] new_claimed[q]) implies !scan_contains_path(
        all.take(i + 1),
        bound_path(bound, q),
    ) by {
        assert(!old_claimed[q]);
        assert(!scan_contains_path(all.take(i), bound_path(bound, q)));
        if scan_contains_path(all.take(i + 1), bound_path(bound, q)) {
            let k = choose|k: int|
                0 <= k < all.take(i + 1).len() && (#[trigger] all.take(i + 1)[k]).path@
                    == bound_path(bound, q);
            if k < i {
                assert(all.take(i)[k].path@ == bound_path(bound, q));
                assert(false);
            } else {
                assert(all.take(i + 1)[k].path@ == all[k].path@);
                assert(bound_path(bound, q) == all[i].path@);
                let t1 = choose|t: int| 0 <= t < live.len() && #[trigger] live[t] == q as usize;
                assert(live[t1] as int == q);
                assert(bound_path(bound, live[t1] as int) == all[i].path@);
                assert(false);
            }
        }
    }
}

/// Compute the consolidation plan.
///
/// Every scanned path gets a slot: a path already bound to a live slot keeps
/// exactly that slot (a slot is never rebound to a different path), and a new
/// path gets an empty slot's index or a brand-new one. Live slots whose path
/// was not scanned retire. The generation must change exactly when a retiring
/// slot is dropped non-stably, since issued pack ids then dangle; retiring
/// into garbage (stability required) keeps the generation.
pub fn reconcile(
    live: &Vec<usize>,
    bound: &Vec<Option<Vec<u8>>>,
    scanned: Vec<ScanItem>,
    needs_stability: bool,
) -> (r: ReconcilePlan)
    requires
        bound@.len() + scanned@.len() <= usize::MAX,
    ensures
        r.assigned@.len() == scanned@.len(),
        // each scanned path is served, in order, by its assigned slot
        forall|k: int| 0 <= k < scanned@.len() ==> #[trigger] r.assigned@[k].path == scanned@[k].path,
        // a carried-forward slot is live and bound to exactly this path
        forall|k: int|
            0 <= k < scanned@.len() && !(#[trigger] r.assigned@[k]).fresh ==> r.assigned@[k].slot
                < bound@.len() && (exists|t: int|
                0 <= t < live@.len() && live@[t] == r.assigned@[k].slot) && (bound@[r.assigned@[k].slot as int] matches Some(p) && p@ == scanned@[k].path@),
        // a fresh slot was empty or is newly appended: never a rebinding
        forall|k: int|
            0 <= k < scanned@.len() && (#[trigger] r.assigned@[k]).fresh ==> (r.assigned@[k].slot
                >= bound@.len() || bound@[r.assigned@[k].slot as int] is None),
        // no slot serves two scanned paths
        forall|k1: int, k2: int|
            0 <= k1 < k2 < scanned@.len() ==> (#[trigger] r.assigned@[k1]).slot != (
            #[trigger] r.assigned@[k2]).slot,
        // the arena is large enough for every assignment
        r.slots_needed >= bound@.len(),
        forall|k: int| 0 <= k < scanned@.len() ==> (#[trigger] r.assigned@[k]).slot < r.slots_needed,
        // retired slots are live, bound, not assigned, and listed once
        forall|t: int|
            0 <= t < r.retired@.len() ==> (#[trigger] r.retired@[t]) < bound@.len() && bound@[r
                .retired@[t] as int] is Some && (exists|q: int|
                0 <= q < live@.len() && live@[q] == r.retired@[t]) && !assigns_slot(
                r.assigned@,
                r.retired@[t],
            ),
        forall|t1: int, t2: int|
            0 <= t1 < t2 < r.retired@.len() ==> (#[trigger] r.retired@[t1]) != (
            #[trigger] r.retired@[t2]),
        // every bound live slot is either carried forward or retired
        forall|q: int|
            0 <= q < live@.len() && (#[trigger] live@[q]) < bound@.len() && bound@[live@[q] as int]
                is Some ==> assigns_slot(r.assigned@, live@[q]) || r.retired@.contains(live@[q]),
        r.retired@.len() <= live@.len(),
        // on well-formed input (each path bound to one slot, each path scanned
        // once), a retired slot's bound path is truly absent from the scan
        (distinct_live_bindings(live@, bound@) && distinct_scan_paths(scanned@)) ==> (forall|t: int|
            0 <= t < r.retired@.len() ==> !scan_contains_path(
                scanned@,
                bound_path(bound@, (#[trigger] r.retired@[t]) as int),
            )),
        // ... and a scanned path already bound to a live slot is carried
        // forward, never treated as fresh: an unchanged directory retires
        // nothing and so never changes the generation
        (distinct_live_bindings(live@, bound@) && distinct_scan_paths(scanned@)) ==> (forall|k: int|
            0 <= k < scanned@.len() && live_has_bound_path(
                live@,
                bound@,
                (#[trigger] scanned@[k]).path@,
            ) ==> !r.assigned@[k].fresh),
        // the generation changes exactly on a non-stable removal
        r.bump_generation == (!needs_stability && r.retired@.len() > 0),
{
    let bound_len = bound.len();
    let mut claimed: Vec<bool> = Vec::new();
    while claimed.len() < bound_len
        invariant
            claimed@.len() <= bound@.len(),
            bound_len == bound@.len(),
            forall|j: int| 0 <= j < claimed@.len() ==> claimed@[j] == false,
        decreases bound@.len() - claimed@.len(),
    {
        claimed.push(false);
    }

    let ghost all = scanned@;
    let ghost dl = distinct_live_bindings(live@, bound@) && distinct_scan_paths(all);
    let mut rest = scanned;
    let mut assigned: Vec<SlotAssignment> = Vec::new();
    let mut next_fresh: usize = bound_len;
    let mut i: usize = 0;
    proof {
        assert(rest@ =~= all.skip(0));
    }
    while rest.len() > 0
        invariant
            bound_len == bound@.len(),
            claimed@.len() == bound@.len(),
            0 <= i <= all.len(),
            i + rest@.len() == all.len(),
            all.len() + bound@.len() <= usize::MAX,
            rest@ == all.skip(i as int),
            assigned@.len() == i,
            next_fresh >= bound@.len(),
            next_fresh <= bound@.len() + i,
            forall|k: int| 0 <= k < i ==> #[trigger] assigned@[k].path == all[k].path,
            forall|k: int|
                0 <= k < i && !(#[trigger] assigned@[k]).fresh ==> assigned@[k].slot < bound@.len()
                    && (exists|t: int| 0 <= t < live@.len() && live@[t] == assigned@[k].slot) && (
                bound@[assigned@[k].slot as int] matches Some(p) && p@ == all[k].path@),
            forall|k: int|
                0 <= k < i && (#[trigger] assigned@[k]).fresh ==> (assigned@[k].slot >= bound@.len()
                    || bound@[assigned@[k].slot as int] is None),
            forall|k: int| 0 <= k < i ==> (#[trigger] assigned@[k]).slot < next_fresh,
            forall|k: int|
                0 <= k < i && (#[trigger] assigned@[k]).slot < bound@.len() ==> claimed@[assigned@[k].slot as int],
            forall|k1: int, k2: int|
                0 <= k1 < k2 < i ==> (#[trigger] assigned@[k1]).slot != (
                #[trigger] assigned@[k2]).slot,
            forall|j: int|
                0 <= j < claimed@.len() && #[trigger] claimed@[j] ==> assigns_slot(
                    assigned@,
                    j as usize,
                ),
            dl == (distinct_live_bindings(live@, bound@) && distinct_scan_paths(all)),
            // a claimed bound slot's path was scanned among the items so far
            dl ==> (forall|j: int|
                0 <= j < bound@.len() && #[trigger] claimed@[j] && bound@[j] is Some
                    ==> scan_contains_path(all.take(i as int), bound_path(bound@, j))),
            // an unclaimed live bound slot's path was not scanned so far
            dl ==> (forall|j: int|
                0 <= j < bound@.len() && live_contains(live@, j as usize) && bound@[j] is Some && !(
                #[trigger] claimed@[j]) ==> !scan_contains_path(
                    all.take(i as int),
                    bound_path(bound@, j),
                )),
            // a scanned path bound to a live slot was carried forward
            dl ==> (forall|k: int|
                0 <= k < i && live_has_bound_path(live@, bound@, all[k].path@) ==> !(
                #[trigger] assigned@[k]).fresh),
        decreases rest@.len(),
    {
        proof {
            assert(rest@[0] == all[i as int]);
        }
        let item = rest.remove(0);
        proof {
            assert(rest@ =~= all.skip(i + 1));
        }
        let ghost before = assigned@;
        let ghost claimed_before = claimed@;
        let ghost this_path = all[i as int].path@;
        let chosen: usize;
        let fresh: bool;
        match find_match(live, bound, &claimed, &item.path) {
            Some(j) => {
                claimed.set(j, true);
                chosen = j;
                fresh = false;
                proof {
                    assert(claimed@ == claimed_before.update(j as int, true));
                    assert(bound_path(bound@, j as int) == this_path);
                    assert(all.take(i + 1)[i as int].path@ == this_path);
                    assert(scan_contains_path(all.take(i + 1), this_path));
                    if dl {
                        lemma_step_claimed(live@, bound@, all, i as int, claimed_before, claimed@, j);
                    }
                }
            }
            None => {
                proof {
                    if dl && live_has_bound_path(live@, bound@, this_path) {
                        // the matching live slot must already be claimed, so
                        // its path was scanned earlier, contradicting the
                        // scan's distinct paths
                        let t0 = choose|t: int|
                            0 <= t < live@.len() && (#[trigger] live@[t]) < bound@.len()
                                && bound@[live@[t] as int] is Some && bound_path(
                                bound@,
                                live@[t] as int,
                            ) == this_path;
                        let j0 = live@[t0];
                        assert(claimed_before[j0 as int]);
                        assert(scan_contains_path(all.take(i as int), this_path));
                        let k0 = choose|k: int|
                            0 <= k < all.take(i as int).len() && (#[trigger] all.take(
                                i as int,
                            )[k]).path@ == this_path;
                        assert(all[k0].path@ == all[i as int].path@);
                        assert(false);
                    }
                }
                match find_free(bound, &claimed) {
                    Some(j) => {
                        claimed.set(j, true);
                        chosen = j;
                        fresh = true;
                        proof {
                            assert(claimed@ == claimed_before.update(j as int, true));
                            if dl {
                                lemma_step_unclaimed(
                                    live@,
                                    bound@,
                                    all,
                                    i as int,
                                    claimed_before,
                                    claimed@,
                                );
                            }
                        }
                    }
                    None => {
                        chosen = next_fresh;
                        next_fresh = next_fresh + 1;
                        fresh = true;
                        proof {
                            if dl {
                                lemma_step_unclaimed(
                                    live@,
                                    bound@,
                                    all,
                                    i as int,
                                    claimed_before,
                                    claimed@,
                                );
                            }
                        }
                    }
                }
            }
        }
        assigned.push(SlotAssignment { slot: chosen, path: item.path, fresh });
        proof {
            assert(forall|k: int| 0 <= k < before.len() ==> (#[trigger] before[k]) == assigned@[k]);
            assert(assigned@[i as int].slot == chosen);
            assert(forall|j: usize| assigns_slot(before, j) ==> assigns_slot(assigned@, j));
        }
        i = i + 1;
    }
    proof {
        assert(all.take(all.len() as int) =~= all);
    }

    // retire what was bound but not scanned
    let mut retired: Vec<usize> = Vec::new();
    let mut t: usize = 0;
    while t < live.len()
        invariant
            bound_len == bound@.len(),
            claimed@.len() == bound@.len(),
            0 <= t <= live@.len(),
            retired@.len() <= t,
            dl == (distinct_live_bindings(live@, bound@) && distinct_scan_paths(all)),
            dl ==> (forall|j: int|
                0 <= j < bound@.len() && live_contains(live@, j as usize) && bound@[j] is Some && !(
                #[trigger] claimed@[j]) ==> !scan_contains_path(all, bound_path(bound@, j))),
            dl ==> (forall|u: int|
                0 <= u < retired@.len() ==> !scan_contains_path(
                    all,
                    bound_path(bound@, (#[trigger] retired@[u]) as int),
                )),
            forall|k: int|
                0 <= k < assigned@.len() && (#[trigger] assigned@[k]).slot < bound@.len()
                    ==> claimed@[assigned@[k].slot as int],
            forall|u: int|
                0 <= u < retired@.len() ==> (#[trigger] retired@[u]) < bound@.len() && bound@[retired@[u] as int] is Some && (exists|q: int| 0 <= q < live@.len() && live@[q] == retired@[u])
                    && !assigns_slot(assigned@, retired@[u]),
            forall|u1: int, u2: int|
                0 <= u1 < u2 < retired@.len() ==> (#[trigger] retired@[u1]) != (
                #[trigger] retired@[u2]),
            forall|u: int|
                0 <= u < retired@.len() ==> claimed@[(#[trigger] retired@[u]) as int],
            forall|j: int|
                0 <= j < claimed@.len() && #[trigger] claimed@[j] ==> assigns_slot(
                    assigned@,
                    j as usize,
                ) || retired@.contains(j as usize),
            forall|q: int|
                0 <= q < t && (#[trigger] live@[q]) < bound@.len() && bound@[live@[q] as int]
                    is Some ==> assigns_slot(assigned@, live@[q]) || retired@.contains(live@[q]),
        decreases live@.len() - t,
    {
        let j = live[t];
        if j < bound_len && !claimed[j] {
            match &bound[j] {
                Some(_) => {
                    let ghost prev = retired@;
                    proof {
                        assert(!assigns_slot(assigned@, j));
                        if dl {
                            assert(live_contains(live@, j)) by {
                                assert(live@[t as int] == j);
                            }
                            assert(!scan_contains_path(all, bound_path(bound@, j as int)));
                        }
                    }
                    retired.push(j);
                    claimed.set(j, true);
                    proof {
                        assert(forall|u: int|
                            0 <= u < prev.len() ==> (#[trigger] prev[u]) == retired@[u]);
                        assert(retired@[retired@.len() - 1] == j);
                        assert(forall|x: usize| prev.contains(x) ==> retired@.contains(x));
                        assert(retired@.contains(j));
                    }
                }
                None => {}
            }
        }
        t = t + 1;
    }

    let bump_generation = !needs_stability && retired.len() > 0;
    ReconcilePlan { assigned, retired, slots_needed: next_fresh, bump_generation }
}

/// The live slot list one consolidation publishes: the assigned slots in
/// scan order and then, when stability is required, the garbage-retired
/// slots, so that entries a caller may still hold stay resolvable.
pub fn published_slot_list(
    assigned: &Vec<SlotAssignment>,
    retired: &Vec<usize>,
    needs_stability: bool,
) -> (r: Vec<usize>)
    requires
        assigned@.len() + retired@.len() <= usize::MAX,
    ensures
        r@.len() == assigned@.len() + (if needs_stability {
            retired@.len() as int
        } else {
            0
        }),
        forall|k: int| 0 <= k < assigned@.len() ==> r@[k] == (#[trigger] assigned@[k]).slot,
        needs_stability ==> (forall|u: int|
            0 <= u < retired@.len() ==> r@[assigned@.len() + u] == #[trigger] retired@[u]),
{
    let mut r: Vec<usize> = Vec::new();
    let mut k: usize = 0;
    while k < assigned.len()
        invariant
            0 <= k <= assigned@.len(),
            r@.len() == k,
            forall|q: int| 0 <= q < k ==> r@[q] == (#[trigger] assigned@[q]).slot,
        decreases assigned@.len() - k,
    {
        r.push(assigned[k].slot);
        k = k + 1;
    }
    if needs_stability {
        let mut u: usize = 0;
        while u < retired.len()
            invariant
                0 <= u <= retired@.len(),
                assigned@.len() + retired@.len() <= usize::MAX,
                r@.len() == assigned@.len() + u,
                forall|q: int| 0 <= q < assigned@.len() ==> r@[q] == (#[trigger] assigned@[q]).slot,
                forall|q: int| 0 <= q < u ==> r@[assigned@.len() + q] == #[trigger] retired@[q],
            decreases retired@.len() - u,
        {
            r.push(retired[u]);
            u = u + 1;
        }
    }
    r
}

} // verus!
