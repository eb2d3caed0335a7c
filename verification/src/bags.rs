//! Collections of keys compared without regard to their order.

use vstd::prelude::*;
use vstd::multiset::Multiset;
use crate::order::{
    key_le, key_not_after, lemma_key_antisymmetric, lemma_key_reflexive, lemma_key_total,
    lemma_key_transitive, orders_range, before, stable_order,
};

verus! {

/// The keys as plain sequences.
pub open spec fn key_views(keys: Seq<Vec<u128>>) -> Seq<Seq<u128>> {
    keys.map_values(|key: Vec<u128>| key@)
}

/// How often each key occurs.
pub open spec fn key_bag(keys: Seq<Vec<u128>>) -> Multiset<Seq<u128>> {
    key_views(keys).to_multiset()
}

pub open spec fn keys_sorted(keys: Seq<Seq<u128>>) -> bool {
    forall|i: int, j: int|
        #![trigger keys[i], keys[j]]
        0 <= i < j < keys.len() ==> key_le(keys[i], keys[j])
}

/// The elements at the positions, one after the other.
pub open spec fn picked<T>(s: Seq<T>, positions: Seq<usize>) -> Seq<T> {
    Seq::new(positions.len(), |i: int| s[positions[i] as int])
}

/// Every position of a sequence of `count` elements, once.
pub open spec fn rearranges(positions: Seq<usize>, count: nat) -> bool {
    &&& positions.len() == count
    &&& forall|p: int| 0 <= p < positions.len() ==> #[trigger] positions[p] < count
    &&& forall|x: usize| x < count ==> #[trigger] positions.contains(x)
    &&& positions.no_duplicates()
}

/// Rearranging a sequence keeps how often each element occurs.
pub proof fn lemma_picked_bag<T>(s: Seq<T>, positions: Seq<usize>)
    requires
        rearranges(positions, s.len()),
        s.len() <= usize::MAX,
    ensures
        picked(s, positions).to_multiset() == s.to_multiset(),
    decreases s.len(),
{
    broadcast use vstd::seq_lib::group_to_multiset_ensures;
    broadcast use vstd::multiset::group_multiset_axioms;

    let all = picked(s, positions);
    if s.len() == 0 {
        assert(all =~= s);
    } else {
        let last = (s.len() - 1) as usize;
        assert(positions.contains(last));
        let k = choose|k: int| 0 <= k < positions.len() && positions[k] == last;
        let rest = positions.remove(k);
        let head = s.drop_last();
        assert forall|p: int| 0 <= p < rest.len() implies #[trigger] rest[p] < head.len() by {
            if p < k {
                assert(rest[p] == positions[p] && positions[p] != positions[k]);
            } else {
                assert(rest[p] == positions[p + 1] && positions[p + 1] != positions[k]);
            }
        }
        assert forall|x: usize| x < head.len() implies #[trigger] rest.contains(x) by {
            assert(positions.contains(x));
            let at = choose|at: int| 0 <= at < positions.len() && positions[at] == x;
            if at < k {
                assert(rest[at] == x);
            } else {
                assert(rest[at - 1] == x);
            }
        }
        assert(rest.no_duplicates()) by {
            assert forall|i: int, j: int| 0 <= i < j < rest.len() implies rest[i] != rest[j] by {
                let a = if i < k {
                    i
                } else {
                    i + 1
                };
                let b = if j < k {
                    j
                } else {
                    j + 1
                };
                assert(positions[a] != positions[b]);
            }
        }
        lemma_picked_bag(head, rest);
        assert(all.remove(k) =~= picked(head, rest));
        assert(all[k] == s.last());
        assert(s =~= head.push(s.last()));
        assert(all.to_multiset().contains(s.last())) by {
            assert(all.contains(s.last()));
        }
        assert(all.remove(k).to_multiset() == all.to_multiset().remove(s.last()));
        assert(head.push(s.last()).to_multiset() =~= head.to_multiset().insert(s.last()));
        assert(all.to_multiset() =~= all.to_multiset().remove(s.last()).insert(s.last()));
    }
}

/// An order of all positions rearranges them.
pub proof fn lemma_order_rearranges(keys: Seq<Vec<u128>>, positions: Seq<usize>)
    requires
        orders_range(keys, 0, keys.len() as int, positions),
    ensures
        rearranges(positions, keys.len()),
        keys_sorted(key_views(picked(keys, positions))),
{
    assert forall|i: int, j: int| 0 <= i < j < positions.len() implies positions[i]
        != positions[j] by {
        assert(before(keys, positions[i] as int, positions[j] as int));
    }
    let views = key_views(picked(keys, positions));
    assert forall|i: int, j: int| #![trigger views[i], views[j]] 0 <= i < j < views.len() implies key_le(
        views[i],
        views[j],
    ) by {
        assert(before(keys, positions[i] as int, positions[j] as int));
    }
}

/// Sorted collections with the same keys are the same sequence.
pub proof fn lemma_sorted_bags_equal(a: Seq<Seq<u128>>, b: Seq<Seq<u128>>)
    requires
        keys_sorted(a),
        keys_sorted(b),
        a.to_multiset() == b.to_multiset(),
    ensures
        a == b,
    decreases a.len(),
{
    broadcast use vstd::seq_lib::group_to_multiset_ensures;
    broadcast use vstd::multiset::group_multiset_axioms;

    assert(a.to_multiset().len() == a.len() && b.to_multiset().len() == b.len());
    if a.len() == 0 {
        assert(a =~= b);
    } else {
        assert(b.contains(a[0])) by {
            assert(a.contains(a[0]));
            assert(a.to_multiset().count(a[0]) > 0);
            assert(b.to_multiset().count(a[0]) > 0);
        }
        assert(a.contains(b[0])) by {
            assert(b.contains(b[0]));
            assert(b.to_multiset().count(b[0]) > 0);
            assert(a.to_multiset().count(b[0]) > 0);
        }
        let i = choose|i: int| 0 <= i < b.len() && b[i] == a[0];
        let j = choose|j: int| 0 <= j < a.len() && a[j] == b[0];
        lemma_key_reflexive(a[0]);
        assert(key_le(b[0], a[0])) by {
            if i > 0 {
                assert(key_le(b[0], b[i]));
            }
        }
        assert(key_le(a[0], b[0])) by {
            if j > 0 {
                assert(key_le(a[0], a[j]));
            }
        }
        lemma_key_antisymmetric(a[0], b[0]);
        let ra = a.remove(0);
        let rb = b.remove(0);
        assert(ra.to_multiset() == a.to_multiset().remove(a[0]));
        assert(rb.to_multiset() == b.to_multiset().remove(b[0]));
        lemma_sorted_bags_equal(ra, rb);
        assert(a =~= seq![a[0]] + ra);
        assert(b =~= seq![b[0]] + rb);
    }
}

/// The keys in order.
pub fn sorted_keys(keys: &Vec<Vec<u128>>) -> (r: Vec<Vec<u128>>)
    ensures
        keys_sorted(key_views(r@)),
        key_bag(r@) == key_bag(keys@),
        r.len() == keys.len(),
{
    let positions = stable_order(keys);
    let mut out: Vec<Vec<u128>> = Vec::new();
    let mut i: usize = 0;
    while i < positions.len()
        invariant
            i <= positions.len(),
            orders_range(keys@, 0, keys.len() as int, positions@),
            out.len() == i,
            forall|k: int| 0 <= k < i ==> (#[trigger] out@[k])@ == keys@[positions@[k] as int]@,
        decreases positions.len() - i,
    {
        out.push(keys[positions[i]].clone());
        i = i + 1;
    }
    proof {
        lemma_order_rearranges(keys@, positions@);
        assert(key_views(out@) =~= key_views(picked(keys@, positions@)));
        assert(key_views(out@) =~= picked(key_views(keys@), positions@));
        lemma_picked_bag(key_views(keys@), positions@);
    }
    out
}

/// Two keys are one.
pub fn keys_equal(a: &Vec<u128>, b: &Vec<u128>) -> (r: bool)
    ensures
        r == (a@ == b@),
{
    if a.len() != b.len() {
        return false;
    }
    let mut i: usize = 0;
    while i < a.len()
        invariant
            i <= a.len(),
            a.len() == b.len(),
            forall|k: int| 0 <= k < i ==> a@[k] == b@[k],
        decreases a.len() - i,
    {
        if a[i] != b[i] {
            return false;
        }
        i = i + 1;
    }
    assert(a@ =~= b@);
    true
}

/// The same keys occur, equally often.
pub fn same_keys(a: &Vec<Vec<u128>>, b: &Vec<Vec<u128>>) -> (r: bool)
    ensures
        r == (key_bag(a@) == key_bag(b@)),
{
    proof {
        broadcast use vstd::seq_lib::group_to_multiset_ensures;

        assert(key_bag(a@).len() == a.len() && key_bag(b@).len() == b.len());
    }
    if a.len() != b.len() {
        return false;
    }
    let left = sorted_keys(a);
    let right = sorted_keys(b);
    let mut i: usize = 0;
    while i < left.len()
        invariant
            i <= left.len(),
            left.len() == right.len(),
            keys_sorted(key_views(left@)),
            keys_sorted(key_views(right@)),
            key_bag(left@) == key_bag(a@),
            key_bag(right@) == key_bag(b@),
            forall|k: int| 0 <= k < i ==> (#[trigger] left@[k])@ == right@[k]@,
        decreases left.len() - i,
    {
        if !keys_equal(&left[i], &right[i]) {
            proof {
                if key_bag(a@) == key_bag(b@) {
                    lemma_sorted_bags_equal(key_views(left@), key_views(right@));
                    assert(key_views(left@)[i as int] == key_views(right@)[i as int]);
                }
            }
            return false;
        }
        i = i + 1;
    }
    assert(key_views(left@) =~= key_views(right@));
    true
}

/// Where a key fills exactly the places of `lo..hi`, that is how often it occurs.
proof fn lemma_count_of_run(keys: Seq<Seq<u128>>, key: Seq<u128>, lo: int, hi: int)
    requires
        0 <= lo <= hi <= keys.len(),
        forall|i: int| 0 <= i < keys.len() ==> ((#[trigger] keys[i] == key) <==> lo <= i < hi),
    ensures
        keys.to_multiset().count(key) == hi - lo,
    decreases keys.len(),
{
    broadcast use vstd::seq_lib::group_to_multiset_ensures;
    broadcast use vstd::multiset::group_multiset_axioms;

    if keys.len() == 0 {
        assert(!keys.contains(key));
    } else {
        let head = keys.drop_last();
        assert(keys =~= head.push(keys.last()));
        let end = if hi == keys.len() && lo < hi {
            hi - 1
        } else if hi == keys.len() {
            lo
        } else {
            hi
        };
        assert(keys[keys.len() - 1] == keys.last());
        if lo == hi && hi == keys.len() {
            assert forall|i: int| 0 <= i < head.len() implies ((#[trigger] head[i] == key) <==> 0 <= i
                < 0) by {
                assert(head[i] == keys[i]);
            }
            lemma_count_of_run(head, key, 0, 0);
        } else {
            assert forall|i: int| 0 <= i < head.len() implies ((#[trigger] head[i] == key) <==> lo
                <= i < end) by {
                assert(head[i] == keys[i]);
            }
            lemma_count_of_run(head, key, lo, end);
        }
        assert(head.push(keys.last()).to_multiset() =~= head.to_multiset().insert(keys.last()));
    }
}

/// How many keys come before the key; with `after`, how many do not come after it.
fn boundary(sorted: &Vec<Vec<u128>>, key: &Vec<u128>, after: bool) -> (r: usize)
    requires
        keys_sorted(key_views(sorted@)),
    ensures
        r <= sorted.len(),
        forall|i: int|
            0 <= i < sorted.len() ==> (i < r <==> if after {
                key_le((#[trigger] sorted@[i])@, key@)
            } else {
                !key_le(key@, sorted@[i]@)
            }),
{
    let ghost views = key_views(sorted@);
    let mut lo: usize = 0;
    let mut hi: usize = sorted.len();
    while lo < hi
        invariant
            lo <= hi <= sorted.len(),
            views == key_views(sorted@),
            keys_sorted(views),
            forall|i: int|
                0 <= i < lo ==> if after {
                    key_le((#[trigger] sorted@[i])@, key@)
                } else {
                    !key_le(key@, sorted@[i]@)
                },
            forall|i: int|
                hi <= i < sorted.len() ==> if after {
                    !key_le((#[trigger] sorted@[i])@, key@)
                } else {
                    key_le(key@, sorted@[i]@)
                },
        decreases hi - lo,
    {
        let mid: usize = lo + (hi - lo) / 2;
        let below: bool = if after {
            key_not_after(&sorted[mid], key)
        } else {
            !key_not_after(key, &sorted[mid])
        };
        proof {
            let at = views[mid as int];
            assert forall|i: int| 0 <= i < sorted.len() && i != mid implies if i < mid {
                key_le((#[trigger] sorted@[i])@, at)
            } else {
                key_le(at, sorted@[i]@)
            } by {
                assert(views[i] == sorted@[i]@);
            }
            assert forall|i: int| 0 <= i < sorted.len() && (if below {
                i <= mid
            } else {
                i >= mid
            }) implies below == if after {
                key_le((#[trigger] sorted@[i])@, key@)
            } else {
                !key_le(key@, sorted@[i]@)
            } by {
                let other = sorted@[i]@;
                if i != mid {
                    if after && below {
                        lemma_key_transitive(other, at, key@);
                    } else if after {
                        if key_le(other, key@) {
                            lemma_key_transitive(at, other, key@);
                        }
                    } else if below {
                        if key_le(key@, other) {
                            lemma_key_transitive(key@, other, at);
                        }
                    } else {
                        lemma_key_transitive(key@, at, other);
                    }
                }
            }
        }
        if below {
            lo = mid + 1;
        } else {
            hi = mid;
        }
    }
    lo
}

/// How often a key occurs among sorted keys.
pub fn count_key(sorted: &Vec<Vec<u128>>, key: &Vec<u128>) -> (r: usize)
    requires
        keys_sorted(key_views(sorted@)),
    ensures
        r == key_bag(sorted@).count(key@),
{
    let lo: usize = boundary(sorted, key, false);
    let hi: usize = boundary(sorted, key, true);
    proof {
        let views = key_views(sorted@);
        lemma_key_reflexive(key@);
        if lo > hi {
            assert(!key_le(key@, sorted@[hi as int]@));
            assert(!key_le(sorted@[hi as int]@, key@));
            lemma_key_total(key@, sorted@[hi as int]@);
        }
        assert forall|i: int| 0 <= i < views.len() implies ((#[trigger] views[i] == key@) <==> lo
            <= i < hi) by {
            let other = sorted@[i]@;
            assert(views[i] == other);
            if lo <= i < hi {
                lemma_key_antisymmetric(other, key@);
            }
        }
        lemma_count_of_run(views, key@, lo as int, hi as int);
    }
    hi - lo
}

} // verus!
