//! Byte-level path logic.
//!
//! Paths are byte strings, as the on-disk convention is byte-oriented. The
//! scan filter accepts exactly the entries the directory layout dictates:
//! regular files whose extension is `idx`, and files named exactly
//! `multi-pack-index` with no extension.

use vstd::prelude::*;

verus! {

/// Byte values of the path characters the scan filter reads.
pub const B_SLASH: u8 = 47;

pub const B_DOT: u8 = 46;

pub const B_M: u8 = 109;

pub const B_U: u8 = 117;

pub const B_L: u8 = 108;

pub const B_T: u8 = 116;

pub const B_I: u8 = 105;

pub const B_DASH: u8 = 45;

pub const B_P: u8 = 112;

pub const B_A: u8 = 97;

pub const B_C: u8 = 99;

pub const B_K: u8 = 107;

pub const B_N: u8 = 110;

pub const B_D: u8 = 100;

pub const B_E: u8 = 101;

pub const B_X: u8 = 120;


/// Index of the first byte of the final path component: one past the last
/// `/`, or zero when there is none.
pub open spec fn basename_start(s: Seq<u8>) -> int
    decreases s.len(),
{
    if s.len() == 0 {
        0
    } else if s.last() == B_SLASH {
        s.len() as int
    } else {
        basename_start(s.drop_last())
    }
}

/// Index of the last `.` within the final path component, or -1 when the
/// component holds none.
pub open spec fn last_dot(s: Seq<u8>) -> int
    decreases s.len(),
{
    if s.len() == 0 {
        -1
    } else if s.last() == B_DOT {
        s.len() - 1
    } else if s.last() == B_SLASH {
        -1
    } else {
        last_dot(s.drop_last())
    }
}

/// The file name `multi-pack-index`, as bytes.
pub open spec fn multi_pack_index_name() -> Seq<u8> {
    seq![B_M, B_U, B_L, B_T, B_I, B_DASH, B_P, B_A, B_C, B_K, B_DASH, B_I, B_N, B_D, B_E, B_X]
}

/// The path's extension is exactly `idx`. A dot that starts the file name
/// does not begin an extension.
pub open spec fn is_idx_path(s: Seq<u8>) -> bool {
    let d = last_dot(s);
    d > basename_start(s) && d + 4 == s.len() && s[d + 1] == B_I && s[d + 2] == B_D && s[d + 3]
        == B_X
}

/// The path's file name is exactly `multi-pack-index`, which carries no
/// extension.
pub open spec fn is_multi_pack_index_path(s: Seq<u8>) -> bool {
    s.subrange(basename_start(s), s.len() as int) == multi_pack_index_name()
}

/// What the directory scan keeps: pack index files and the multi-pack-index.
pub open spec fn is_scan_candidate(s: Seq<u8>) -> bool {
    is_idx_path(s) || is_multi_pack_index_path(s)
}

/// The sibling data file of a single pack index: same path with the `idx`
/// extension replaced by `pack`.
pub open spec fn data_path_of(s: Seq<u8>) -> Seq<u8> {
    s.take(last_dot(s)) + seq![B_DOT, B_P, B_A, B_C, B_K]
}

/// The `pack` subdirectory of an object directory.
pub open spec fn pack_dir_of(dir: Seq<u8>) -> Seq<u8> {
    dir + seq![B_SLASH, B_P, B_A, B_C, B_K]
}

proof fn lemma_take_one_more(s: Seq<u8>, i: int)
    requires
        0 <= i < s.len(),
    ensures
        s.take(i + 1).drop_last() == s.take(i),
        s.take(i + 1).last() == s[i],
        s.take(i + 1).len() == i + 1,
{
    assert(s.take(i + 1).drop_last() =~= s.take(i));
}

/// Locate the final path component and its last dot in one pass.
fn scan_name(v: &Vec<u8>) -> (r: (usize, Option<usize>))
    ensures
        r.0 == basename_start(v@),
        r.0 <= v@.len(),
        match r.1 {
            Some(d) => last_dot(v@) == d && d < v@.len(),
            None => last_dot(v@) == -1,
        },
{
    let mut name_start: usize = 0;
    let mut dot: Option<usize> = None;
    let mut i: usize = 0;
    proof {
        assert(v@.take(0) =~= Seq::<u8>::empty());
    }
    while i < v.len()
        invariant
            0 <= i <= v@.len(),
            name_start <= i,
            name_start == basename_start(v@.take(i as int)),
            match dot {
                Some(d) => last_dot(v@.take(i as int)) == d && d < i,
                None => last_dot(v@.take(i as int)) == -1,
            },
        decreases v@.len() - i,
    {
        proof {
            lemma_take_one_more(v@, i as int);
        }
        let b = v[i];
        if b == B_SLASH {
            name_start = i + 1;
            dot = None;
        } else if b == B_DOT {
            dot = Some(i);
        }
        i = i + 1;
    }
    proof {
        assert(v@.take(v@.len() as int) =~= v@);
    }
    (name_start, dot)
}

/// Does the path carry exactly the `idx` extension?
pub fn path_is_idx(v: &Vec<u8>) -> (r: bool)
    ensures
        r == is_idx_path(v@),
{
    let (name_start, dot) = scan_name(v);
    match dot {
        Some(d) => {
            d > name_start && v.len() - d == 4 && v[d + 1] == B_I && v[d + 2] == B_D && v[d + 3]
                == B_X
        }
        None => false,
    }
}

/// Does the path name a pack index file (`*.idx`) or the multi-pack-index?
pub fn is_scan_candidate_path(v: &Vec<u8>) -> (r: bool)
    ensures
        r == is_scan_candidate(v@),
{
    if path_is_idx(v) {
        return true;
    }
    let (name_start, _) = scan_name(v);
    name_is_multi_pack_index(v, name_start)
}

/// The byte at position `j` of the name `multi-pack-index`.
fn multi_name_byte(j: usize) -> (r: u8)
    requires
        j < 16,
    ensures
        r == multi_pack_index_name()[j as int],
{
    if j == 0 {
        B_M
    } else if j == 1 {
        B_U
    } else if j == 2 {
        B_L
    } else if j == 3 {
        B_T
    } else if j == 4 {
        B_I
    } else if j == 5 {
        B_DASH
    } else if j == 6 {
        B_P
    } else if j == 7 {
        B_A
    } else if j == 8 {
        B_C
    } else if j == 9 {
        B_K
    } else if j == 10 {
        B_DASH
    } else if j == 11 {
        B_I
    } else if j == 12 {
        B_N
    } else if j == 13 {
        B_D
    } else if j == 14 {
        B_E
    } else {
        B_X
    }
}

/// Compare the path's tail beginning at `n` against `multi-pack-index`.
fn name_is_multi_pack_index(v: &Vec<u8>, n: usize) -> (r: bool)
    requires
        n <= v@.len(),
    ensures
        r == (v@.subrange(n as int, v@.len() as int) == multi_pack_index_name()),
{
    let ghost name = v@.subrange(n as int, v@.len() as int);
    if v.len() - n != 16 {
        proof {
            assert(name.len() != 16);
        }
        return false;
    }
    let mut j: usize = 0;
    while j < 16
        invariant
            0 <= j <= 16,
            n + 16 == v@.len(),
            v@.len() <= usize::MAX,
            name == v@.subrange(n as int, v@.len() as int),
            forall|k: int| 0 <= k < j ==> v@[n + k] == multi_pack_index_name()[k],
        decreases 16 - j,
    {
        let expected = multi_name_byte(j);
        if v[n + j] != expected {
            proof {
                assert(name == v@.subrange(n as int, v@.len() as int));
                assert(v@[n + j] != multi_pack_index_name()[j as int]);
                assert(v@.subrange(n as int, v@.len() as int)[j as int] == v@[n + j]);
                if name == multi_pack_index_name() {
                    assert(name[j as int] == multi_pack_index_name()[j as int]);
                    assert(false);
                }
            }
            return false;
        }
        j = j + 1;
    }
    proof {
        assert(name =~= multi_pack_index_name());
    }
    true
}

/// Copy the bytes of a path.
pub fn clone_bytes(v: &Vec<u8>) -> (r: Vec<u8>)
    ensures
        r@ == v@,
{
    let mut out: Vec<u8> = Vec::new();
    let mut i: usize = 0;
    while i < v.len()
        invariant
            0 <= i <= v@.len(),
            out@ == v@.take(i as int),
        decreases v@.len() - i,
    {
        out.push(v[i]);
        proof {
            assert(out@ =~= v@.take(i + 1));
        }
        i = i + 1;
    }
    proof {
        assert(v@.take(v@.len() as int) =~= v@);
    }
    out
}

/// Are two paths the same bytes?
pub fn bytes_equal(a: &Vec<u8>, b: &Vec<u8>) -> (r: bool)
    ensures
        r == (a@ == b@),
{
    if a.len() != b.len() {
        return false;
    }
    let mut i: usize = 0;
    while i < a.len()
        invariant
            0 <= i <= a@.len(),
            a@.len() == b@.len(),
            forall|j: int| 0 <= j < i ==> a@[j] == b@[j],
        decreases a@.len() - i,
    {
        if a[i] != b[i] {
            return false;
        }
        i = i + 1;
    }
    proof {
        assert(a@ =~= b@);
    }
    true
}

/// Derive the pack data file path beside a single pack index file.
pub fn single_data_path(v: &Vec<u8>) -> (r: Vec<u8>)
    requires
        is_idx_path(v@),
    ensures
        r@ == data_path_of(v@),
{
    let (_, dot) = scan_name(v);
    let d = match dot {
        Some(d) => d,
        None => 0,
    };
    let mut out: Vec<u8> = Vec::new();
    let mut i: usize = 0;
    while i < d
        invariant
            0 <= i <= d,
            d <= v@.len(),
            out@ == v@.take(i as int),
        decreases d - i,
    {
        out.push(v[i]);
        proof {
            assert(out@ =~= v@.take(i + 1));
        }
        i = i + 1;
    }
    out.push(B_DOT);
    out.push(B_P);
    out.push(B_A);
    out.push(B_C);
    out.push(B_K);
    proof {
        assert(out@ =~= data_path_of(v@));
    }
    out
}

/// Append `/pack` to an object directory path.
pub fn pack_subdir(dir: &Vec<u8>) -> (r: Vec<u8>)
    ensures
        r@ == pack_dir_of(dir@),
{
    let mut out = clone_bytes(dir);
    out.push(B_SLASH);
    out.push(B_P);
    out.push(B_A);
    out.push(B_C);
    out.push(B_K);
    proof {
        assert(out@ =~= pack_dir_of(dir@));
    }
    out
}

} // verus!
