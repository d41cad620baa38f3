use vstd::prelude::*;
use crate::element::{Element, ElemV, reduce_model, wf_elem};

verus! {

/// The models of a vector of elements.
pub open spec fn elems_view(s: Seq<Element>) -> Seq<ElemV> {
    Seq::new(s.len(), |i: int| s[i]@)
}

/// Every element of the list is well formed.
pub open spec fn all_wf(s: Seq<ElemV>) -> bool {
    forall|i: int| 0 <= i < s.len() ==> wf_elem(#[trigger] s[i])
}

/// The first reducible ordered pair at or after scan position `(i, j)`;
/// scan order is `i` ascending, then `j` ascending over all `j != i`.
pub open spec fn find_from(s: Seq<ElemV>, i: int, j: int) -> Option<(int, int)>
    decreases s.len() - i, s.len() - j,
{
    if i < 0 || j < 0 || i >= s.len() {
        None
    } else if j >= s.len() {
        find_from(s, i + 1, 0)
    } else if i != j && reduce_model(s[i], s[j]) is Some {
        Some((i, j))
    } else {
        find_from(s, i, j + 1)
    }
}

/// The first reducible ordered pair of the list, if any.
pub open spec fn find_red(s: Seq<ElemV>) -> Option<(int, int)> {
    find_from(s, 0, 0)
}

/// A found pair is in bounds, distinct, and reducible.
pub proof fn lemma_find_from_sound(s: Seq<ElemV>, i: int, j: int)
    requires
        find_from(s, i, j) is Some,
    ensures
        ({
            let (a, b) = find_from(s, i, j).unwrap();
            0 <= a < s.len() && 0 <= b < s.len() && a != b && reduce_model(s[a], s[b]) is Some
        }),
    decreases s.len() - i, s.len() - j,
{
    if i < 0 || j < 0 || i >= s.len() {
    } else if j >= s.len() {
        lemma_find_from_sound(s, i + 1, 0);
    } else if i != j && reduce_model(s[i], s[j]) is Some {
    } else {
        lemma_find_from_sound(s, i, j + 1);
    }
}

/// The list after merging the pair `(i, j)`: the merged element replaces
/// position `i` and position `j` is removed.
pub open spec fn merge_at(s: Seq<ElemV>, i: int, j: int, m: ElemV) -> Seq<ElemV> {
    s.update(i, m).remove(j)
}

#[via_fn]
proof fn reduce_fix_decreases(s: Seq<ElemV>) {
    if find_red(s) is Some {
        lemma_find_from_sound(s, 0, 0);
    }
}

/// Exhaustive reduction: merge the first reducible pair and start over,
/// until no pair of the list reduces.
pub open spec fn reduce_fix(s: Seq<ElemV>) -> Seq<ElemV>
    decreases s.len(),
        via reduce_fix_decreases
{
    match find_red(s) {
        None => s,
        Some((i, j)) => reduce_fix(merge_at(s, i, j, reduce_model(s[i], s[j]).unwrap())),
    }
}

/// A merged element of a well formed list is well formed.
proof fn lemma_merge_wf(s: Seq<ElemV>, i: int, j: int)
    requires
        all_wf(s),
        0 <= i < s.len() && 0 <= j < s.len() && i != j,
        reduce_model(s[i], s[j]) is Some,
    ensures
        wf_elem(reduce_model(s[i], s[j]).unwrap()),
        all_wf(merge_at(s, i, j, reduce_model(s[i], s[j]).unwrap())),
{
    let m = reduce_model(s[i], s[j]).unwrap();
    assert(wf_elem(m));
    let t = merge_at(s, i, j, m);
    assert forall|k: int| 0 <= k < t.len() implies wf_elem(#[trigger] t[k]) by {
        if k < j {
            assert(t[k] == s.update(i, m)[k]);
        } else {
            assert(t[k] == s.update(i, m)[k + 1]);
        }
    }
}

/// The result of exhaustive reduction admits no further reduction.
pub proof fn lemma_reduce_fix_no_pair(s: Seq<ElemV>)
    ensures
        find_red(reduce_fix(s)) is None,
    decreases s.len(),
{
    match find_red(s) {
        None => {},
        Some((i, j)) => {
            lemma_find_from_sound(s, 0, 0);
            lemma_reduce_fix_no_pair(merge_at(s, i, j, reduce_model(s[i], s[j]).unwrap()));
        },
    }
}

/// Reduction is idempotent: reducing an already reduced list changes
/// nothing.
pub proof fn lemma_reduce_idempotent(s: Seq<ElemV>)
    ensures
        reduce_fix(reduce_fix(s)) == reduce_fix(s),
{
    lemma_reduce_fix_no_pair(s);
}

/// Find the first reducible ordered pair of the vector, in scan order.
fn find_pair(v: &Vec<Element>) -> (r: Option<(usize, usize)>)
    requires
        all_wf(elems_view(v@)),
    ensures
        r is None ==> find_red(elems_view(v@)) is None,
        r matches Some((i, j)) ==> find_red(elems_view(v@)) == Some((i as int, j as int)) && i
            < v@.len() && j < v@.len() && i != j && reduce_model(v@[i as int]@, v@[j as int]@)
            is Some,
{
    let ghost s = elems_view(v@);
    let n: usize = v.len();
    let mut i: usize = 0;
    while i < n
        invariant
            0 <= i <= n,
            n == v@.len(),
            s == elems_view(v@),
            all_wf(s),
            find_red(s) == find_from(s, i as int, 0),
        decreases n - i,
    {
        let mut j: usize = 0;
        while j < n
            invariant
                0 <= i < n,
                0 <= j <= n,
                n == v@.len(),
                s == elems_view(v@),
                all_wf(s),
                find_red(s) == find_from(s, i as int, j as int),
            decreases n - j,
        {
            if i != j {
                let m = v[i].reduce(&v[j]);
                if m.is_some() {
                    return Some((i, j));
                }
            }
            proof {
                assert(find_from(s, i as int, j as int) == find_from(s, i as int, j as int + 1));
            }
            j = j + 1;
        }
        proof {
            assert(find_from(s, i as int, n as int) == find_from(s, i as int + 1, 0));
        }
        i = i + 1;
    }
    proof {
        assert(find_from(s, n as int, 0) is None);
    }
    None
}

/// Reduce the element list to a fixed point: no two remaining elements can
/// merge. The result is exactly the exhaustive reduction of the input.
pub fn reduce_all(v: &mut Vec<Element>)
    requires
        all_wf(elems_view(old(v)@)),
    ensures
        elems_view(final(v)@) == reduce_fix(elems_view(old(v)@)),
        all_wf(elems_view(final(v)@)),
{
    let ghost orig = elems_view(v@);
    loop
        invariant
            orig == elems_view(old(v)@),
            all_wf(elems_view(v@)),
            reduce_fix(elems_view(v@)) == reduce_fix(orig),
        decreases v@.len(),
    {
        let ghost s = elems_view(v@);
        match find_pair(v) {
            None => {
                proof {
                    assert(reduce_fix(s) == s);
                }
                return ;
            },
            Some((i, j)) => {
                proof {
                    lemma_merge_wf(s, i as int, j as int);
                }
                let m = v[i].reduce(&v[j]).unwrap();
                v.set(i, m);
                v.remove(j);
                proof {
                    let t = merge_at(s, i as int, j as int, reduce_model(s[i as int], s[j as int]).unwrap());
                    assert(elems_view(v@) =~= t);
                }
            },
        }
    }
}

} // verus!
