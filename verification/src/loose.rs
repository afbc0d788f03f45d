//! The index over loose files: each file's path hash paired with its position in the
//! list, sorted, so that a lookup is a binary search plus a scan of the files sharing the
//! key's hash.

use vstd::prelude::*;
use crate::bsa::directory::{hash_normalized, spec_name_hash};
use crate::paths::{normalize_bytes, normalize_seq, paths_equal, same_path};
use crate::vfs::loose_hit;

verus! {

/// The hash a loose path is filed under: the path hash of its normal form.
pub open spec fn loose_hash(p: Seq<u8>) -> u64 {
    spec_name_hash(normalize_seq(p))
}

/// Index entries in order: by hash, then by position.
pub open spec fn entry_lt(a: (u64, usize), b: (u64, usize)) -> bool {
    a.0 < b.0 || (a.0 == b.0 && a.1 < b.1)
}

/// `idx` indexes the first `n` of `loose`: strictly ordered, every entry a file's hash
/// and position, and every file below `n` present.
pub open spec fn index_covers(loose: Seq<Seq<u8>>, idx: Seq<(u64, usize)>, n: int) -> bool {
    &&& forall|a: int, b: int| 0 <= a < b < idx.len() ==> entry_lt(#[trigger] idx[a], #[trigger] idx[b])
    &&& forall|p: int|
        0 <= p < idx.len() ==> (#[trigger] idx[p]).1 < n && idx[p].0 == loose_hash(loose[idx[p].1 as int])
    &&& forall|i: int|
        #![trigger loose[i]]
        0 <= i < n ==> exists|p: int|
            0 <= p < idx.len() && #[trigger] idx[p] == (loose_hash(loose[i]), i as usize)
}

/// The loose-file index.
pub struct LooseIndex {
    entries: Vec<(u64, usize)>,
}

impl LooseIndex {
    /// Whether this indexes exactly the files of `loose`.
    pub closed spec fn indexes(self, loose: Seq<Seq<u8>>) -> bool {
        index_covers(loose, self.entries@, loose.len() as int)
    }

    /// An index over no files.
    pub fn empty() -> (x: LooseIndex)
        ensures
            x.indexes(Seq::<Seq<u8>>::empty()),
    {
        LooseIndex { entries: Vec::new() }
    }

    /// Index the files of `loose`.
    pub fn build(loose: &Vec<Vec<u8>>) -> (x: LooseIndex)
        ensures
            x.indexes(loose@.map_values(|p: Vec<u8>| p@)),
    {
        let ghost paths = loose@.map_values(|p: Vec<u8>| p@);
        let mut entries: Vec<(u64, usize)> = Vec::new();
        let mut k: usize = 0;
        while k < loose.len()
            invariant
                paths == loose@.map_values(|p: Vec<u8>| p@),
                k <= loose.len(),
                index_covers(paths, entries@, k as int),
            decreases loose.len() - k,
        {
            let norm = normalize_bytes(loose[k].as_slice());
            let h = hash_normalized(norm.as_slice());
            assert(h == loose_hash(paths[k as int]));
            // The first position whose hash exceeds `h`: every entry before it is smaller
            // than `(h, k)`, every entry from it on is larger.
            let mut lo: usize = 0;
            let mut hi: usize = entries.len();
            while lo < hi
                invariant
                    index_covers(paths, entries@, k as int),
                    hi <= entries@.len(),
                    lo <= hi,
                    forall|p: int| 0 <= p < lo ==> (#[trigger] entries@[p]).0 <= h,
                    forall|p: int| hi <= p < entries@.len() ==> (#[trigger] entries@[p]).0 > h,
                decreases hi - lo,
            {
                let mid = lo + (hi - lo) / 2;
                if entries[mid].0 <= h {
                    proof {
                        assert forall|p: int| 0 <= p < mid + 1 implies (#[trigger] entries@[p]).0 <= h by {
                            if p < mid {
                                assert(entry_lt(entries@[p], entries@[mid as int]));
                            }
                        }
                    }
                    lo = mid + 1;
                } else {
                    proof {
                        assert forall|p: int| mid <= p < entries@.len() implies (#[trigger] entries@[p]).0 > h by {
                            if p > mid {
                                assert(entry_lt(entries@[mid as int], entries@[p]));
                            }
                        }
                    }
                    hi = mid;
                }
            }
            let ghost before = entries@;
            entries.insert(lo, (h, k));
            proof {
                assert(entries@ == before.insert(lo as int, (h, k)));
                assert forall|a: int, b: int| 0 <= a < b < entries@.len() implies entry_lt(
                    #[trigger] entries@[a],
                    #[trigger] entries@[b],
                ) by {
                    if b < lo {
                        assert(entries@[a] == before[a] && entries@[b] == before[b]);
                    } else if b == lo {
                        assert(entries@[a] == before[a]);
                        assert(before[a].0 <= h && before[a].1 < k);
                    } else if a == lo {
                        assert(entries@[b] == before[b - 1]);
                        assert(before[b - 1].0 > h);
                    } else if a < lo {
                        assert(entries@[a] == before[a] && entries@[b] == before[b - 1]);
                        assert(entry_lt(before[a], before[b - 1])) by {
                            if a < b - 1 {
                            }
                        }
                        if a == b - 1 {
                            assert(before[a].0 <= h && before[b - 1].0 > h);
                        }
                    } else {
                        assert(entries@[a] == before[a - 1] && entries@[b] == before[b - 1]);
                    }
                }
                assert forall|p: int| 0 <= p < entries@.len() implies (#[trigger] entries@[p]).1 < k + 1
                    && entries@[p].0 == loose_hash(paths[entries@[p].1 as int]) by {
                    if p < lo {
                        assert(entries@[p] == before[p]);
                    } else if p > lo {
                        assert(entries@[p] == before[p - 1]);
                    }
                }
                assert forall|i: int| #![trigger paths[i]] 0 <= i < k + 1 implies exists|p: int|
                    0 <= p < entries@.len() && #[trigger] entries@[p] == (loose_hash(paths[i]), i as usize) by {
                    if i == k {
                        assert(entries@[lo as int] == (loose_hash(paths[i]), i as usize));
                    } else {
                        let q = choose|q: int| 0 <= q < before.len() && #[trigger] before[q] == (loose_hash(paths[i]), i as usize);
                        if q < lo {
                            assert(entries@[q] == before[q]);
                        } else {
                            assert(entries@[q + 1] == before[q]);
                        }
                    }
                }
            }
            k += 1;
        }
        LooseIndex { entries }
    }

    /// The position of the last file of `loose` whose path names `key`, if any.
    pub fn find(&self, loose: &Vec<Vec<u8>>, key: &[u8]) -> (r: Option<usize>)
        requires
            self.indexes(loose@.map_values(|p: Vec<u8>| p@)),
        ensures
            match r {
                Some(i) => i < loose@.len() && loose_hit(loose@.map_values(|p: Vec<u8>| p@), key@, loose@.len() as int)
                    == Some(i as int),
                None => loose_hit(loose@.map_values(|p: Vec<u8>| p@), key@, loose@.len() as int) is None,
            },
    {
        let ghost paths = loose@.map_values(|p: Vec<u8>| p@);
        let ghost n = loose@.len() as int;
        let entries = &self.entries;
        let norm = normalize_bytes(key);
        let h = hash_normalized(norm.as_slice());
        // The first position whose hash is at least `h`.
        let mut lo: usize = 0;
        let mut hi: usize = entries.len();
        while lo < hi
            invariant
                index_covers(paths, entries@, n),
                hi <= entries@.len(),
                lo <= hi,
                forall|p: int| 0 <= p < lo ==> (#[trigger] entries@[p]).0 < h,
                forall|p: int| hi <= p < entries@.len() ==> (#[trigger] entries@[p]).0 >= h,
            decreases hi - lo,
        {
            let mid = lo + (hi - lo) / 2;
            if entries[mid].0 < h {
                proof {
                    assert forall|p: int| 0 <= p < mid + 1 implies (#[trigger] entries@[p]).0 < h by {
                        if p < mid {
                            assert(entry_lt(entries@[p], entries@[mid as int]));
                        }
                    }
                }
                lo = mid + 1;
            } else {
                proof {
                    assert forall|p: int| mid <= p < entries@.len() implies (#[trigger] entries@[p]).0 >= h by {
                        if p > mid {
                            assert(entry_lt(entries@[mid as int], entries@[p]));
                        }
                    }
                }
                hi = mid;
            }
        }
        let start = lo;
        let len = loose.len();
        assert(len as int == n);
        let mut p = lo;
        let mut found: Option<usize> = None;
        while p < entries.len() && entries[p].0 == h
            invariant
                index_covers(paths, entries@, n),
                paths.len() == n,
                paths == loose@.map_values(|p: Vec<u8>| p@),
                h == spec_name_hash(normalize_seq(key@)),
                start <= p <= entries@.len(),
                n <= usize::MAX,
                forall|q: int| 0 <= q < start ==> (#[trigger] entries@[q]).0 < h,
                forall|q: int| start <= q < entries@.len() ==> (#[trigger] entries@[q]).0 >= h,
                forall|q: int| start <= q < p ==> (#[trigger] entries@[q]).0 == h,
                match found {
                    Some(f) => {
                        &&& (f as int) < n
                        &&& same_path(paths[f as int], key@)
                        &&& forall|q: int|
                            start <= q < p && same_path(paths[(#[trigger] entries@[q]).1 as int], key@)
                                ==> entries@[q].1 <= f
                    },
                    None => forall|q: int|
                        start <= q < p ==> !same_path(paths[(#[trigger] entries@[q]).1 as int], key@),
                },
            decreases entries@.len() - p,
        {
            let i = entries[p].1;
            assert(paths[i as int] == loose@[i as int]@);
            if paths_equal(loose[i].as_slice(), key) {
                proof {
                    assert forall|q: int|
                        start <= q < p + 1 && same_path(paths[(#[trigger] entries@[q]).1 as int], key@)
                            implies entries@[q].1 <= i by {
                        if q < p {
                            assert(entry_lt(entries@[q], entries@[p as int]));
                        }
                    }
                }
                found = Some(i);
            }
            p += 1;
        }
        proof {
            lemma_find_result(paths, key@, entries@, n, h, start as int, p as int, found);
        }
        found
    }
}

/// What the scan of the run filed under the key's hash found is the last file naming
/// the key.
proof fn lemma_find_result(
    paths: Seq<Seq<u8>>,
    key: Seq<u8>,
    idx: Seq<(u64, usize)>,
    n: int,
    h: u64,
    start: int,
    p: int,
    found: Option<usize>,
)
    requires
        index_covers(paths, idx, n),
        paths.len() == n,
        n <= usize::MAX,
        h == spec_name_hash(normalize_seq(key)),
        0 <= start <= p <= idx.len(),
        forall|q: int| 0 <= q < start ==> (#[trigger] idx[q]).0 < h,
        forall|q: int| start <= q < idx.len() ==> (#[trigger] idx[q]).0 >= h,
        forall|q: int| start <= q < p ==> (#[trigger] idx[q]).0 == h,
        p < idx.len() ==> idx[p].0 != h,
        match found {
            Some(f) => {
                &&& (f as int) < n
                &&& same_path(paths[f as int], key)
                &&& forall|q: int|
                    start <= q < p && same_path(paths[(#[trigger] idx[q]).1 as int], key) ==> idx[q].1 <= f
            },
            None => forall|q: int| start <= q < p ==> !same_path(paths[(#[trigger] idx[q]).1 as int], key),
        },
    ensures
        match found {
            Some(f) => loose_hit(paths, key, n) == Some(f as int),
            None => loose_hit(paths, key, n) is None,
        },
{
    // Every file naming the key is filed under `h`, so its entry lies in the scanned run.
    assert forall|i: int| 0 <= i < n && same_path(#[trigger] paths[i], key) implies exists|q: int|
        start <= q < p && #[trigger] idx[q] == (h, i as usize) by {
        let q = choose|q: int| 0 <= q < idx.len() && #[trigger] idx[q] == (loose_hash(paths[i]), i as usize);
        assert(loose_hash(paths[i]) == h);
        if q >= p {
            assert(p < idx.len());
            assert(idx[p].0 >= h);
            if q > p {
                assert(entry_lt(idx[p], idx[q]));
            }
        }
        assert(start <= q < p);
    }
    match found {
        Some(f) => {
            assert forall|j: int| f < j < n implies !same_path(#[trigger] paths[j], key) by {
                if same_path(paths[j], key) {
                    let q = choose|q: int| start <= q < p && #[trigger] idx[q] == (h, j as usize);
                    assert(idx[q].1 as int == j);
                }
            }
            lemma_loose_hit_last(paths, key, n, f as int);
        },
        None => {
            assert forall|j: int| 0 <= j < n implies !same_path(#[trigger] paths[j], key) by {
                if same_path(paths[j], key) {
                    let q = choose|q: int| start <= q < p && #[trigger] idx[q] == (h, j as usize);
                    assert(idx[q].1 as int == j);
                }
            }
            lemma_loose_hit_none(paths, key, n);
        },
    }
}

proof fn lemma_loose_hit_last(loose: Seq<Seq<u8>>, key: Seq<u8>, n: int, f: int)
    requires
        0 <= f < n <= loose.len(),
        same_path(loose[f], key),
        forall|j: int| f < j < n ==> !same_path(#[trigger] loose[j], key),
    ensures
        loose_hit(loose, key, n) == Some(f),
    decreases n,
{
    if n - 1 != f {
        lemma_loose_hit_last(loose, key, n - 1, f);
    }
}

pub(crate) proof fn lemma_loose_hit_none(loose: Seq<Seq<u8>>, key: Seq<u8>, n: int)
    requires
        n <= loose.len(),
        forall|j: int| 0 <= j < n ==> !same_path(#[trigger] loose[j], key),
    ensures
        loose_hit(loose, key, n) is None,
    decreases n,
{
    if n > 0 {
        lemma_loose_hit_none(loose, key, n - 1);
    }
}

} // verus!
