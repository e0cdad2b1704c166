//! A stable host-side sort of the instance list by key.

use vstd::prelude::*;
use crate::keys::Instance;
use crate::keys::keys_sorted;

verus! {

/// `output` is `input` sorted by key, stably: `origin[k]` is the place in
/// `input` of the `k`-th instance of `output`, no place is used twice, the
/// keys never decrease, and instances with the same key keep their order.
pub open spec fn is_stable_sort(input: Seq<Instance>, output: Seq<Instance>, origin: Seq<int>) -> bool {
    &&& output.len() == input.len()
    &&& origin.len() == input.len()
    &&& forall|k: int|
        0 <= k < output.len() ==> 0 <= #[trigger] origin[k] < input.len() && output[k]
            == input[origin[k]]
    &&& forall|a: int, b: int| 0 <= a < b < output.len() ==> origin[a] != origin[b]
    &&& forall|a: int, b: int| 0 <= a < b < output.len() ==> output[a].key <= output[b].key
    &&& forall|a: int, b: int|
        0 <= a < b < output.len() && output[a].key == output[b].key ==> origin[a] < origin[b]
}

/// The state of the sort while the instance first at place `i` moves down and
/// has reached place `j`.
spec fn inserting(input: Seq<Instance>, v: Seq<Instance>, origin: Seq<int>, i: int, j: int) -> bool {
    &&& v.len() == input.len()
    &&& origin.len() == input.len()
    &&& 0 <= j <= i < v.len()
    &&& forall|k: int|
        0 <= k < v.len() ==> 0 <= #[trigger] origin[k] < input.len() && v[k] == input[origin[k]]
    &&& forall|a: int, b: int| 0 <= a < b < v.len() ==> origin[a] != origin[b]
    &&& forall|k: int| i < k < v.len() ==> #[trigger] origin[k] == k
    &&& origin[j] == i
    &&& forall|k: int| 0 <= k <= i && k != j ==> #[trigger] origin[k] < i
    &&& forall|a: int, b: int| 0 <= a < b <= i && a != j && b != j ==> v[a].key <= v[b].key
    &&& forall|a: int, b: int|
        0 <= a < b <= i && a != j && b != j && v[a].key == v[b].key ==> origin[a] < origin[b]
    &&& forall|b: int| j < b <= i ==> v[j].key < (#[trigger] v[b]).key
}

/// The first `i` instances are sorted stably among themselves and the others
/// have not moved.
spec fn sorted_upto(input: Seq<Instance>, v: Seq<Instance>, origin: Seq<int>, i: int) -> bool {
    &&& v.len() == input.len()
    &&& origin.len() == input.len()
    &&& 0 <= i <= v.len()
    &&& forall|k: int|
        0 <= k < v.len() ==> 0 <= #[trigger] origin[k] < input.len() && v[k] == input[origin[k]]
    &&& forall|a: int, b: int| 0 <= a < b < v.len() ==> origin[a] != origin[b]
    &&& forall|k: int| i <= k < v.len() ==> #[trigger] origin[k] == k
    &&& forall|k: int| 0 <= k < i ==> #[trigger] origin[k] < i
    &&& forall|a: int, b: int| 0 <= a < b < i ==> v[a].key <= v[b].key
    &&& forall|a: int, b: int|
        0 <= a < b < i && v[a].key == v[b].key ==> origin[a] < origin[b]
}

/// Sorts the instances by key. Instances with equal keys keep their order.
pub fn sort_instances(list: Vec<Instance>) -> (sorted: Vec<Instance>)
    ensures
        keys_sorted(sorted@),
        sorted@.to_multiset() == list@.to_multiset(),
        exists|origin: Seq<int>| is_stable_sort(list@, sorted@, origin),
{
    let ghost input = list@;
    let mut v: Vec<Instance> = list;
    let n: usize = v.len();
    let ghost mut origin: Seq<int> = Seq::new(n as nat, |k: int| k);
    let mut i: usize = 0;
    while i < n
        invariant
            n == input.len(),
            sorted_upto(input, v@, origin, i as int),
            v@.to_multiset() == input.to_multiset(),
        decreases n - i,
    {
        let mut j: usize = i;
        while j > 0 && v[j - 1].key > v[j].key
            invariant
                n == input.len(),
                i < n,
                inserting(input, v@, origin, i as int, j as int),
                v@.to_multiset() == input.to_multiset(),
            decreases j,
        {
            let lower: Instance = v[j - 1];
            let upper: Instance = v[j];
            let ghost v0 = v@;
            let ghost o0 = origin;
            v.set(j - 1, upper);
            let ghost v1 = v@;
            v.set(j, lower);
            proof {
                origin = o0.update(j - 1, o0[j as int]).update(j as int, o0[j - 1]);
                vstd::seq_lib::to_multiset_update(v0, j - 1, upper);
                vstd::seq_lib::to_multiset_update(v1, j as int, lower);
                assert(v@.to_multiset() =~= v0.to_multiset()) by {
                    broadcast use vstd::multiset::group_multiset_axioms;

                    assert(v1 == v0.update(j - 1, upper));
                    assert(v@ == v1.update(j as int, lower));
                    assert(v1[j as int] == upper);
                    assert(v0[j - 1] == lower);
                    v0.to_multiset_ensures();
                    assert(v0.contains(lower));
                    assert(v0.to_multiset().count(lower) > 0);
                }
                assert(inserting(input, v@, origin, i as int, j - 1)) by {
                    assert forall|a: int, b: int| 0 <= a < b < v@.len() implies origin[a]
                        != origin[b] by {
                        let a0 = if a == j - 1 {
                            j as int
                        } else if a == j {
                            j - 1
                        } else {
                            a
                        };
                        let b0 = if b == j - 1 {
                            j as int
                        } else if b == j {
                            j - 1
                        } else {
                            b
                        };
                        if a0 < b0 {
                            assert(o0[a0] != o0[b0]);
                        } else {
                            assert(o0[b0] != o0[a0]);
                        }
                    }
                    assert forall|a: int, b: int|
                        0 <= a < b <= i && a != j - 1 && b != j - 1 implies v@[a].key
                        <= v@[b].key && (v@[a].key == v@[b].key ==> origin[a] < origin[b]) by {
                        if b == j {
                            assert(v0[a].key <= v0[j - 1].key);
                            assert(v0[a].key == v0[j - 1].key ==> o0[a] < o0[j - 1]);
                        } else if a == j {
                            assert(v0[j - 1].key <= v0[b].key);
                            assert(v0[j - 1].key == v0[b].key ==> o0[j - 1] < o0[b]);
                        } else {
                            assert(v0[a].key <= v0[b].key);
                            assert(v0[a].key == v0[b].key ==> o0[a] < o0[b]);
                        }
                    }
                    assert forall|b: int| j - 1 < b <= i implies v@[j - 1].key < (
                    #[trigger] v@[b]).key by {
                        if b > j {
                            assert(v0[j as int].key < v0[b].key);
                        }
                    }
                }
            }
            j -= 1;
        }
        proof {
            assert(sorted_upto(input, v@, origin, i + 1)) by {
                assert forall|a: int, b: int| 0 <= a < b < i + 1 implies v@[a].key <= v@[b].key
                    && (v@[a].key == v@[b].key ==> origin[a] < origin[b]) by {
                    if b == j {
                        if a < j - 1 {
                            assert(v@[a].key <= v@[j - 1].key);
                        }
                        assert(origin[a] < i);
                    } else if a == j {
                        assert(v@[j as int].key < v@[b].key);
                    } else {
                    }
                }
            }
        }
        i += 1;
    }
    proof {
        assert(is_stable_sort(input, v@, origin));
    }
    v
}

} // verus!
