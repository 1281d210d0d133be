//! Directory-scan results: filtering the raw listing down to pack index
//! candidates and ordering them newest-modified first.
//!
//! The ordering is a recency heuristic that seeds search order; lookup layers
//! may reorder later.

use vstd::prelude::*;
use vstd::seq_lib::group_to_multiset_ensures;

use crate::paths::{is_scan_candidate, is_scan_candidate_path};

verus! {

/// One entry of a raw directory listing, as the external lister reports it.
#[derive(Clone)]
pub struct FileEntry {
    /// Full path of the entry.
    pub path: Vec<u8>,
    /// Modification time, in an arbitrary monotone unit.
    pub mtime: u64,
    /// Whether the entry is a regular file.
    pub is_file: bool,
}

/// A discovered pack index candidate and its modification time.
#[derive(Clone)]
pub struct ScanItem {
    /// Full path of the candidate.
    pub path: Vec<u8>,
    /// Modification time, used only to seed search order.
    pub mtime: u64,
}

/// Does the scan keep this directory entry?
pub open spec fn keeps_entry(e: FileEntry) -> bool {
    e.is_file && is_scan_candidate(e.path@)
}

/// The candidates of a raw listing, in listing order.
pub open spec fn candidates_of(s: Seq<FileEntry>) -> Seq<ScanItem>
    decreases s.len(),
{
    if s.len() == 0 {
        Seq::empty()
    } else {
        candidates_of(s.drop_last()) + (if keeps_entry(s.last()) {
            seq![ScanItem { path: s.last().path, mtime: s.last().mtime }]
        } else {
            Seq::empty()
        })
    }
}

/// Append to `out` the entries the scan filter keeps: regular files that are
/// pack indices (`*.idx`) or the multi-pack-index.
pub fn append_candidates(out: &mut Vec<ScanItem>, entries: Vec<FileEntry>)
    ensures
        final(out)@ == old(out)@ + candidates_of(entries@),
{
    let ghost start = out@;
    let ghost all = entries@;
    let mut rest = entries;
    let total = rest.len();
    let mut i: usize = 0;
    proof {
        assert(all.len() == total);
        assert(all.take(0) =~= Seq::<FileEntry>::empty());
        assert(out@ =~= start + candidates_of(all.take(0)));
        assert(rest@ =~= all.skip(0));
    }
    while rest.len() > 0
        invariant
            0 <= i <= all.len(),
            all.len() <= usize::MAX,
            i + rest@.len() == all.len(),
            rest@ == all.skip(i as int),
            out@ == start + candidates_of(all.take(i as int)),
        decreases rest@.len(),
    {
        proof {
            assert(all.take(i + 1).drop_last() =~= all.take(i as int));
            assert(all.take(i + 1).last() == all[i as int]);
            assert(rest@[0] == all[i as int]);
        }
        let ghost prev = rest@;
        let e = rest.remove(0);
        proof {
            assert(rest@ =~= all.skip(i + 1));
        }
        if e.is_file && is_scan_candidate_path(&e.path) {
            let item = ScanItem { path: e.path, mtime: e.mtime };
            out.push(item);
            proof {
                assert(out@ =~= start + candidates_of(all.take(i + 1)));
            }
        } else {
            proof {
                assert(out@ =~= start + candidates_of(all.take(i + 1)));
            }
        }
        i = i + 1;
    }
    proof {
        assert(all.take(all.len() as int) =~= all);
    }
}

/// Newest first: modification times never increase along the sequence.
pub open spec fn sorted_desc(s: Seq<ScanItem>) -> bool {
    forall|i: int, j: int| 0 <= i < j < s.len() ==> s[i].mtime >= s[j].mtime
}

/// Order the discovered candidates by modification time, newest first. The
/// result holds exactly the given items.
pub fn sort_by_mtime_desc(items: Vec<ScanItem>) -> (r: Vec<ScanItem>)
    ensures
        sorted_desc(r@),
        r@.to_multiset() == items@.to_multiset(),
        r@.len() == items@.len(),
{
    broadcast use group_to_multiset_ensures;

    let mut rest = items;
    let ghost orig = rest@;
    let mut out: Vec<ScanItem> = Vec::new();
    proof {
        assert(out@.to_multiset().add(rest@.to_multiset()) =~= orig.to_multiset());
    }
    while rest.len() > 0
        invariant
            out@.to_multiset().add(rest@.to_multiset()) == orig.to_multiset(),
            out@.len() + rest@.len() == orig.len(),
            sorted_desc(out@),
            forall|i: int, j: int|
                0 <= i < out@.len() && 0 <= j < rest@.len() ==> out@[i].mtime >= rest@[j].mtime,
        decreases rest@.len(),
    {
        let mut best: usize = 0;
        let mut k: usize = 1;
        while k < rest.len()
            invariant
                0 < rest@.len(),
                0 <= best < rest@.len(),
                1 <= k <= rest@.len(),
                forall|q: int| 0 <= q < k ==> rest@[best as int].mtime >= rest@[q].mtime,
            decreases rest@.len() - k,
        {
            if rest[k].mtime > rest[best].mtime {
                best = k;
            }
            k = k + 1;
        }
        let ghost prev = rest@;
        let ghost oout = out@;
        let picked = rest.remove(best);
        out.push(picked);
        proof {
            assert(forall|q: int|
                0 <= q < rest@.len() ==> rest@[q] == (if q < best {
                    prev[q]
                } else {
                    prev[q + 1]
                }));
            broadcast use group_to_multiset_ensures;

            assert(prev.contains(picked)) by {
                assert(prev[best as int] == picked);
            }
            assert(rest@ == prev.remove(best as int));
            assert(prev.remove(best as int).to_multiset() =~= prev.to_multiset().remove(
                prev[best as int],
            ));
            assert(out@ == oout.push(picked));
            assert(oout.push(picked).to_multiset() =~= oout.to_multiset().insert(picked));
            assert(out@.to_multiset().add(rest@.to_multiset()) =~= orig.to_multiset());
        }
    }
    proof {
        assert(rest@.to_multiset().len() == 0);
        assert(out@.to_multiset() =~= orig.to_multiset());
    }
    out
}

} // verus!
