//! Stable selection of the first entries in ascending key order.

use vstd::prelude::*;

verus! {

/// Entry `i` comes before entry `j`: smaller key, or equal key and smaller
/// position (a stable order).
pub open spec fn before(keys: Seq<i128>, i: int, j: int) -> bool {
    keys[i] < keys[j] || (keys[i] == keys[j] && i < j)
}

/// `r` lists, in ascending stable key order, the first `limit` positions of
/// `keys` among those that `eligible` marks (all of them if fewer).
pub open spec fn ranked(keys: Seq<i128>, eligible: Seq<bool>, limit: int, r: Seq<usize>) -> bool {
    &&& r.len() <= limit
    &&& forall|a: int| 0 <= a < r.len() ==> (#[trigger] r[a]) < keys.len() && eligible[r[a] as int]
    &&& forall|a: int, b: int| 0 <= a < b < r.len() ==> before(keys, r[a] as int, r[b] as int)
    &&& forall|j: int|
        0 <= j < keys.len() && eligible[j] && !r.contains(j as usize) ==> r.len() == limit
            && forall|a: int| 0 <= a < r.len() ==> before(keys, #[trigger] r[a] as int, j)
}

/// The positions of `keys` marked by `eligible`, in ascending stable key
/// order, at most `limit` of them.
pub fn ascending_positions(keys: &Vec<i128>, eligible: &Vec<bool>, limit: usize) -> (r: Vec<usize>)
    requires
        keys@.len() == eligible@.len(),
    ensures
        ranked(keys@, eligible@, limit as int, r@),
{
    let n = keys.len();
    let mut r: Vec<usize> = Vec::new();
    while r.len() < limit
        invariant
            n == keys@.len(),
            n == eligible@.len(),
            r@.len() <= limit,
            forall|a: int| 0 <= a < r@.len() ==> (#[trigger] r@[a]) < n && eligible@[r@[a] as int],
            forall|a: int, b: int| 0 <= a < b < r@.len() ==> before(keys@, r@[a] as int, r@[b] as int),
            forall|j: int|
                0 <= j < n && eligible@[j] && r@.len() > 0 && !before(keys@, r@.last() as int, j)
                    ==> r@.contains(j as usize),
        decreases limit - r@.len(),
    {
        let mut best: Option<usize> = None;
        let mut j: usize = 0;
        while j < n
            invariant
                n == keys@.len(),
                n == eligible@.len(),
                j <= n,
                forall|a: int| 0 <= a < r@.len() ==> (#[trigger] r@[a]) < n,
                best matches Some(b) ==> b < j && eligible@[b as int] && (r@.len() == 0 || before(keys@, r@.last() as int, b as int)),
                forall|k: int|
                    0 <= k < j && eligible@[k] && (r@.len() == 0 || before(keys@, r@.last() as int, k))
                        ==> (best matches Some(b) && (b == k || before(keys@, b as int, k))),
            decreases n - j,
        {
            let after_last = if r.len() == 0 {
                true
            } else {
                let l = r[r.len() - 1];
                keys[l] < keys[j] || (keys[l] == keys[j] && l < j)
            };
            if eligible[j] && after_last {
                let better = match best {
                    None => true,
                    Some(b) => keys[j] < keys[b] || (keys[j] == keys[b] && j < b),
                };
                if better {
                    best = Some(j);
                }
            }
            j += 1;
        }
        match best {
            None => {
                proof {
                    assert forall|k: int| 0 <= k < n && eligible@[k] && !r@.contains(k as usize) implies r@.len() == limit as int
                        && forall|a: int| 0 <= a < r@.len() ==> before(keys@, #[trigger] r@[a] as int, k) by {
                        if r@.len() > 0 {
                            assert(!before(keys@, r@.last() as int, k) ==> r@.contains(k as usize));
                        }
                    }
                }
                assert(ranked(keys@, eligible@, limit as int, r@)) by {
                    assert forall|k: int| 0 <= k < n && eligible@[k] && !r@.contains(k as usize) implies false by {
                        if r@.len() > 0 {
                            assert(!before(keys@, r@.last() as int, k) ==> r@.contains(k as usize));
                        }
                    }
                }
                return r;
            },
            Some(b) => {
                let ghost old_r = r@;
                r.push(b);
                proof {
                    assert forall|a: int, c: int| 0 <= a < c < r@.len() implies before(keys@, r@[a] as int, r@[c] as int) by {
                        if c == r@.len() - 1 && a < c {
                            if a < old_r.len() - 1 {
                                assert(before(keys@, r@[a] as int, old_r.last() as int));
                            }
                        }
                    }
                    assert forall|k: int|
                        0 <= k < n && eligible@[k] && r@.len() > 0 && !before(keys@, r@.last() as int, k)
                            implies r@.contains(k as usize) by {
                        if k == b as int {
                            assert(r@[r@.len() - 1] == b);
                        } else if old_r.len() > 0 && !before(keys@, old_r.last() as int, k) {
                            assert(old_r.contains(k as usize));
                            let w = choose|w: int| 0 <= w < old_r.len() && old_r[w] == k as usize;
                            assert(r@[w] == k as usize);
                        } else {
                            assert(before(keys@, b as int, k));
                        }
                    }
                }
            },
        }
    }
    proof {
        assert forall|k: int| 0 <= k < n && eligible@[k] && !r@.contains(k as usize) implies r@.len() == limit as int
            && forall|a: int| 0 <= a < r@.len() ==> before(keys@, #[trigger] r@[a] as int, k) by {
            if r@.len() > 0 {
                assert(!before(keys@, r@.last() as int, k) ==> r@.contains(k as usize));
                assert forall|a: int| 0 <= a < r@.len() implies before(keys@, #[trigger] r@[a] as int, k) by {
                    if a < r@.len() - 1 {
                        assert(before(keys@, r@[a] as int, r@.last() as int));
                    }
                }
            }
        }
    }
    r
}

} // verus!
