//! Sets of cell indices kept as strictly increasing vectors.
//!
//! The transcript keeps its turn starts and its collapsed turns ordered so that membership can be
//! decided by binary search and "the greatest member at or before a row" by a backward scan.

use vstd::prelude::*;

verus! {

/// Strictly increasing: sorted and without duplicates.
pub open spec fn strictly_sorted(s: Seq<usize>) -> bool {
    forall|i: int, j: int| 0 <= i < j < s.len() ==> s[i] < s[j]
}

/// The last element, if any.
pub open spec fn last_of(s: Seq<usize>) -> Option<usize> {
    if s.len() == 0 {
        None
    } else {
        Some(s.last())
    }
}

/// Binary search over a strictly increasing vector.
pub fn sorted_contains(v: &Vec<usize>, x: usize) -> (r: bool)
    requires
        strictly_sorted(v@),
    ensures
        r == v@.contains(x),
{
    let mut low: usize = 0;
    let mut high: usize = v.len();
    while low < high
        invariant
            0 <= low <= high <= v.len(),
            strictly_sorted(v@),
            forall|i: int| 0 <= i < low ==> v@[i] < x,
            forall|i: int| high <= i < v.len() ==> v@[i] > x,
        decreases high - low,
    {
        let mid = low + (high - low) / 2;
        if v[mid] == x {
            assert(v@[mid as int] == x);
            return true;
        } else if v[mid] < x {
            low = mid + 1;
        } else {
            high = mid;
        }
    }
    proof {
        if v@.contains(x) {
            let k = choose|k: int| 0 <= k < v@.len() && v@[k] == x;
            assert(v@[k] == x);
        }
    }
    false
}

/// Inserts `x`, keeping the vector strictly increasing; returns whether it was absent.
pub fn sorted_insert(v: &mut Vec<usize>, x: usize) -> (r: bool)
    requires
        strictly_sorted(old(v)@),
    ensures
        strictly_sorted(final(v)@),
        final(v)@.to_set() == old(v)@.to_set().insert(x),
        r == !old(v)@.contains(x),
        !r ==> *final(v) == *old(v),
{
    let n = v.len();
    let mut i: usize = 0;
    while i < n && v[i] < x
        invariant
            0 <= i <= n,
            n == v.len(),
            strictly_sorted(v@),
            forall|k: int| 0 <= k < i ==> v@[k] < x,
        decreases n - i,
    {
        i += 1;
    }
    if i < n && v[i] == x {
        proof {
            assert(v@.to_set().insert(x) =~= v@.to_set()) by {
                assert(v@[i as int] == x);
            }
        }
        return false;
    }
    let ghost before = v@;
    v.insert(i, x);
    proof {
        assert(forall|k: int| i <= k < n ==> before[k] > x) by {
            assert forall|k: int| i <= k < n implies before[k] > x by {
                if k > i {
                    assert(before[i as int] < before[k]);
                }
            }
        }
        assert(v@ == before.insert(i as int, x));
        assert forall|a: int, b: int| 0 <= a < b < v@.len() implies v@[a] < v@[b] by {
            if b < i {
            } else if a < i && b == i {
            } else if a < i {
                assert(v@[b] == before[b - 1]);
            } else if a == i {
                assert(v@[b] == before[b - 1]);
            } else {
                assert(v@[a] == before[a - 1]);
                assert(v@[b] == before[b - 1]);
            }
        }
        assert forall|e: usize| v@.to_set().contains(e) == before.to_set().insert(x).contains(e) by {
            if e == x {
                assert(v@[i as int] == x);
            }
            if before.contains(e) {
                let k = choose|k: int| 0 <= k < before.len() && before[k] == e;
                if k < i {
                    assert(v@[k] == e);
                } else {
                    assert(v@[k + 1] == e);
                }
            }
            if v@.contains(e) {
                let k = choose|k: int| 0 <= k < v@.len() && v@[k] == e;
                if k < i {
                    assert(before[k] == e);
                } else if k > i {
                    assert(before[k - 1] == e);
                }
            }
        }
        assert(v@.to_set() =~= before.to_set().insert(x));
        assert(!before.contains(x)) by {
            if before.contains(x) {
                let k = choose|k: int| 0 <= k < before.len() && before[k] == x;
                if k < i {
                } else if k == i {
                } else {
                    assert(before[i as int] < before[k]);
                }
            }
        }
    }
    true
}

/// Removes `x` if present; returns whether it was present.
pub fn sorted_remove(v: &mut Vec<usize>, x: usize) -> (r: bool)
    requires
        strictly_sorted(old(v)@),
    ensures
        strictly_sorted(final(v)@),
        final(v)@.to_set() == old(v)@.to_set().remove(x),
        r == old(v)@.contains(x),
        !r ==> *final(v) == *old(v),
{
    let n = v.len();
    let mut i: usize = 0;
    while i < n && v[i] < x
        invariant
            0 <= i <= n,
            n == v.len(),
            strictly_sorted(v@),
            forall|k: int| 0 <= k < i ==> v@[k] < x,
        decreases n - i,
    {
        i += 1;
    }
    if i < n && v[i] == x {
        let ghost before = v@;
        v.remove(i);
        proof {
            assert(v@ == before.remove(i as int));
            assert forall|a: int, b: int| 0 <= a < b < v@.len() implies v@[a] < v@[b] by {
                if b < i {
                } else if a < i {
                    assert(v@[b] == before[b + 1]);
                } else {
                    assert(v@[a] == before[a + 1]);
                    assert(v@[b] == before[b + 1]);
                }
            }
            assert forall|e: usize| v@.to_set().contains(e) == before.to_set().remove(x).contains(e) by {
                if before.contains(e) && e != x {
                    let k = choose|k: int| 0 <= k < before.len() && before[k] == e;
                    if k < i {
                        assert(v@[k] == e);
                    } else {
                        assert(k != i);
                        assert(v@[k - 1] == e);
                    }
                }
                if v@.contains(e) {
                    let k = choose|k: int| 0 <= k < v@.len() && v@[k] == e;
                    if k < i {
                        assert(before[k] == e);
                        assert(e < x);
                    } else {
                        assert(before[k + 1] == e);
                        assert(before[i as int] < before[k + 1]);
                    }
                }
            }
            assert(v@.to_set() =~= before.to_set().remove(x));
            assert(before[i as int] == x);
        }
        return true;
    }
    proof {
        assert(!v@.contains(x)) by {
            if v@.contains(x) {
                let k = choose|k: int| 0 <= k < v@.len() && v@[k] == x;
                if k < i {
                } else if k == i {
                } else {
                    assert(v@[i as int] < v@[k]);
                }
            }
        }
        assert(v@.to_set().remove(x) =~= v@.to_set());
    }
    false
}

} // verus!
