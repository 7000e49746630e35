//! Helpers over vectors of identifier strings. Membership and distinctness
//! are stated at the level of string views (`Seq<char>`), which is the
//! granularity at which all sale and token identifiers are compared.

use vstd::prelude::*;

verus! {

/// The sequence of strings holds one whose view is `x`.
pub open spec fn has_str(s: Seq<String>, x: Seq<char>) -> bool {
    exists|i: int| 0 <= i < s.len() && s[i]@ == x
}

/// No two strings of the sequence share a view.
pub open spec fn distinct_views(s: Seq<String>) -> bool {
    forall|i: int, j: int| 0 <= i < j < s.len() ==> s[i]@ != s[j]@
}

/// Linear search for an identifier, by view equality.
pub fn vec_index_of_string(v: &Vec<String>, x: &String) -> (r: Option<usize>)
    ensures
        match r {
            Some(i) => i < v@.len() && v@[i as int]@ == x@,
            None => !has_str(v@, x@),
        },
{
    let mut i: usize = 0;
    while i < v.len()
        invariant
            i <= v@.len(),
            forall|j: int| 0 <= j < i ==> v@[j]@ != x@,
        decreases v@.len() - i,
    {
        if v[i] == *x {
            return Some(i);
        }
        i = i + 1;
    }
    None
}

/// Membership test for an identifier, by view equality.
pub fn vec_contains_string(v: &Vec<String>, x: &String) -> (r: bool)
    ensures
        r == has_str(v@, x@),
{
    match vec_index_of_string(v, x) {
        Some(i) => {
            assert(v@[i as int]@ == x@);
            true
        },
        None => false,
    }
}

/// Removes the identifier from the vector if present; order of the rest is
/// preserved. Under distinctness the named identifier is gone afterwards
/// and every other identifier's membership is unchanged.
pub fn vec_remove_string(v: &mut Vec<String>, x: &String) -> (r: bool)
    requires
        distinct_views(old(v)@),
    ensures
        r == has_str(old(v)@, x@),
        distinct_views(final(v)@),
        !has_str(final(v)@, x@),
        forall|y: Seq<char>| y != x@ ==> has_str(final(v)@, y) == has_str(old(v)@, y),
        final(v)@.len() == if r {
            old(v)@.len() - 1int
        } else {
            old(v)@.len() as int
        },
{
    match vec_index_of_string(v, x) {
        Some(i) => {
            let ghost pre = v@;
            v.remove(i);
            assert forall|k: int| 0 <= k < v@.len() implies v@[k] == if k < i {
                pre[k]
            } else {
                pre[k + 1]
            } by {}
            assert(has_str(pre, x@));
            assert forall|y: Seq<char>| y != x@ implies has_str(v@, y) == has_str(pre, y) by {
                if has_str(v@, y) {
                    let k = choose|k: int| 0 <= k < v@.len() && v@[k]@ == y;
                    if k < i {
                        assert(pre[k]@ == y);
                    } else {
                        assert(pre[k + 1]@ == y);
                    }
                }
                if has_str(pre, y) {
                    let k = choose|k: int| 0 <= k < pre.len() && pre[k]@ == y;
                    assert(k != i);
                    if k < i {
                        assert(v@[k]@ == y);
                    } else {
                        assert(v@[k - 1]@ == y);
                    }
                }
            }
            assert forall|k: int| 0 <= k < v@.len() implies v@[k]@ != x@ by {
                if k < i {
                    assert(v@[k] == pre[k]);
                } else {
                    assert(v@[k] == pre[k + 1]);
                }
            }
            true
        },
        None => false,
    }
}

/// Appends the identifier if it is not already present; afterwards it is a
/// member either way, and every other identifier's membership is unchanged.
pub fn vec_insert_string(v: &mut Vec<String>, x: String) -> (r: bool)
    requires
        distinct_views(old(v)@),
    ensures
        r == !has_str(old(v)@, x@),
        distinct_views(final(v)@),
        has_str(final(v)@, x@),
        forall|y: Seq<char>| y != x@ ==> has_str(final(v)@, y) == has_str(old(v)@, y),
        final(v)@.len() == if r {
            old(v)@.len() + 1int
        } else {
            old(v)@.len() as int
        },
{
    if vec_contains_string(v, &x) {
        false
    } else {
        let ghost pre = v@;
        v.push(x);
        assert(v@[pre.len() as int]@ == x@);
        assert forall|y: Seq<char>| y != x@ implies has_str(v@, y) == has_str(pre, y) by {
            if has_str(v@, y) {
                let k = choose|k: int| 0 <= k < v@.len() && v@[k]@ == y;
                assert(k < pre.len());
                assert(pre[k]@ == y);
            }
            if has_str(pre, y) {
                let k = choose|k: int| 0 <= k < pre.len() && pre[k]@ == y;
                assert(v@[k]@ == y);
            }
        }
        true
    }
}

/// Removes and returns the identifier at `i` in constant time; the order
/// of the rest is not preserved. Under distinctness the removed identifier
/// is gone afterwards and every other identifier's membership is unchanged.
pub fn vec_take_at(v: &mut Vec<String>, i: usize) -> (r: String)
    requires
        i < old(v)@.len(),
        distinct_views(old(v)@),
    ensures
        r == old(v)@[i as int],
        final(v)@.len() == old(v)@.len() - 1,
        distinct_views(final(v)@),
        !has_str(final(v)@, r@),
        forall|y: Seq<char>| y != r@ ==> has_str(final(v)@, y) == has_str(old(v)@, y),
{
    let ghost pre = v@;
    let r = v.swap_remove(i);
    proof {
        let n = pre.len() as int;
        assert(v@ =~= pre.update(i as int, pre[n - 1]).drop_last());
        assert forall|k: int| 0 <= k < v@.len() implies v@[k] == if k == i {
            pre[n - 1]
        } else {
            pre[k]
        } by {}
        assert forall|p: int, q: int| 0 <= p < q < v@.len() implies v@[p]@ != v@[q]@ by {}
        assert forall|k: int| 0 <= k < v@.len() implies v@[k]@ != r@ by {}
        assert forall|y: Seq<char>| y != r@ implies has_str(v@, y) == has_str(pre, y) by {
            if has_str(v@, y) {
                let k = choose|k: int| 0 <= k < v@.len() && v@[k]@ == y;
                if k == i {
                    assert(pre[n - 1]@ == y);
                } else {
                    assert(pre[k]@ == y);
                }
            }
            if has_str(pre, y) {
                let k = choose|k: int| 0 <= k < pre.len() && pre[k]@ == y;
                assert(k != i);
                if k == n - 1 {
                    if i < v@.len() {
                        assert(v@[i as int]@ == y);
                    }
                } else {
                    assert(v@[k]@ == y);
                }
            }
        }
    }
    r
}

/// An element-for-element copy of a vector of identifiers.
pub fn vec_copy_strings(v: &Vec<String>) -> (r: Vec<String>)
    ensures
        r@ == v@,
{
    let mut r: Vec<String> = Vec::new();
    let mut i: usize = 0;
    while i < v.len()
        invariant
            i <= v@.len(),
            r@.len() == i,
            forall|j: int| 0 <= j < i ==> r@[j] == v@[j],
        decreases v@.len() - i,
    {
        r.push(v[i].clone());
        i = i + 1;
    }
    proof {
        assert(r@ =~= v@);
    }
    r
}

} // verus!
