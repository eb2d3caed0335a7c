//! Lexicographic keys and a stable order of positions by key.

use vstd::prelude::*;

verus! {

/// `a` is not after `b` in lexicographic order.
pub open spec fn key_le(a: Seq<u128>, b: Seq<u128>) -> bool
    decreases a.len(),
{
    if a.len() == 0 {
        true
    } else if b.len() == 0 {
        false
    } else if a[0] != b[0] {
        a[0] < b[0]
    } else {
        key_le(a.drop_first(), b.drop_first())
    }
}

/// Any two keys are comparable.
pub proof fn lemma_key_total(a: Seq<u128>, b: Seq<u128>)
    ensures
        key_le(a, b) || key_le(b, a),
    decreases a.len(),
{
    if a.len() > 0 && b.len() > 0 && a[0] == b[0] {
        lemma_key_total(a.drop_first(), b.drop_first());
    }
}

/// Keys that are not after one another are equal.
pub proof fn lemma_key_antisymmetric(a: Seq<u128>, b: Seq<u128>)
    requires
        key_le(a, b),
        key_le(b, a),
    ensures
        a == b,
    decreases a.len(),
{
    if a.len() > 0 && b.len() > 0 {
        lemma_key_antisymmetric(a.drop_first(), b.drop_first());
        assert(a =~= seq![a[0]] + a.drop_first());
        assert(b =~= seq![b[0]] + b.drop_first());
    } else {
        assert(a =~= b);
    }
}

pub proof fn lemma_key_transitive(a: Seq<u128>, b: Seq<u128>, c: Seq<u128>)
    requires
        key_le(a, b),
        key_le(b, c),
    ensures
        key_le(a, c),
    decreases a.len(),
{
    if a.len() > 0 && b.len() > 0 && c.len() > 0 && a[0] == b[0] && b[0] == c[0] {
        lemma_key_transitive(a.drop_first(), b.drop_first(), c.drop_first());
    }
}

pub proof fn lemma_key_reflexive(a: Seq<u128>)
    ensures
        key_le(a, a),
    decreases a.len(),
{
    if a.len() > 0 {
        lemma_key_reflexive(a.drop_first());
    }
}

/// Compare two keys.
pub fn key_not_after(a: &Vec<u128>, b: &Vec<u128>) -> (r: bool)
    ensures
        r == key_le(a@, b@),
{
    let mut i: usize = 0;
    assert(a@.skip(0) =~= a@);
    assert(b@.skip(0) =~= b@);
    while i < a.len()
        invariant
            i <= a.len(),
            i <= b.len(),
            key_le(a@, b@) == key_le(a@.skip(i as int), b@.skip(i as int)),
        decreases a.len() - i,
    {
        if i >= b.len() {
            return false;
        }
        if a[i] != b[i] {
            return a[i] < b[i];
        }
        assert(a@.skip(i as int).drop_first() =~= a@.skip(i + 1));
        assert(b@.skip(i as int).drop_first() =~= b@.skip(i + 1));
        i = i + 1;
    }
    true
}

/// Position `i` comes before position `j`: its key is smaller, or the keys are
/// equal and it stands first.
pub open spec fn before(keys: Seq<Vec<u128>>, i: int, j: int) -> bool {
    key_le(keys[i]@, keys[j]@) && (keys[i]@ == keys[j]@ ==> i < j)
}

/// Positions listed strictly in order.
pub open spec fn positions_ordered(keys: Seq<Vec<u128>>, positions: Seq<usize>) -> bool {
    forall|p: int, q: int|
        #![trigger positions[p], positions[q]]
        0 <= p < q < positions.len() ==> before(keys, positions[p] as int, positions[q] as int)
}

/// The positions of `lo..hi`, each exactly once, in order.
pub open spec fn orders_range(
    keys: Seq<Vec<u128>>,
    lo: int,
    hi: int,
    positions: Seq<usize>,
) -> bool {
    &&& positions.len() == hi - lo
    &&& forall|p: int| 0 <= p < positions.len() ==> lo <= #[trigger] positions[p] < hi
    &&& forall|x: usize| lo <= x < hi ==> #[trigger] positions.contains(x)
    &&& positions_ordered(keys, positions)
}

proof fn lemma_before_transitive(keys: Seq<Vec<u128>>, i: int, j: int, k: int)
    requires
        before(keys, i, j),
        before(keys, j, k),
    ensures
        before(keys, i, k),
{
    lemma_key_transitive(keys[i]@, keys[j]@, keys[k]@);
    if keys[i]@ == keys[k]@ {
        lemma_key_antisymmetric(keys[i]@, keys[j]@);
    }
}

/// Merge two ordered runs of neighbouring ranges.
fn merge_runs(
    keys: &Vec<Vec<u128>>,
    left: &Vec<usize>,
    right: &Vec<usize>,
    Ghost(lo): Ghost<int>,
    Ghost(mid): Ghost<int>,
    Ghost(hi): Ghost<int>,
) -> (r: Vec<usize>)
    requires
        0 <= lo <= mid <= hi <= keys.len(),
        orders_range(keys@, lo, mid, left@),
        orders_range(keys@, mid, hi, right@),
    ensures
        orders_range(keys@, lo, hi, r@),
{
    let mut out: Vec<usize> = Vec::new();
    let mut i: usize = 0;
    let mut j: usize = 0;
    while i < left.len() || j < right.len()
        invariant
            0 <= lo <= mid <= hi <= keys.len(),
            orders_range(keys@, lo, mid, left@),
            orders_range(keys@, mid, hi, right@),
            i <= left.len(),
            j <= right.len(),
            out.len() == i + j,
            forall|p: int| 0 <= p < out.len() ==> lo <= #[trigger] out@[p] < hi,
            forall|p: int| 0 <= p < i ==> out@.contains(#[trigger] left@[p]),
            forall|p: int| 0 <= p < j ==> out@.contains(#[trigger] right@[p]),
            positions_ordered(keys@, out@),
            forall|p: int, q: int|
                #![trigger out@[p], left@[q]]
                0 <= p < out.len() && i <= q < left.len() ==> before(
                    keys@,
                    out@[p] as int,
                    left@[q] as int,
                ),
            forall|p: int, q: int|
                #![trigger out@[p], right@[q]]
                0 <= p < out.len() && j <= q < right.len() ==> before(
                    keys@,
                    out@[p] as int,
                    right@[q] as int,
                ),
        decreases left.len() - i + right.len() - j,
    {
        let ghost prior = out@;
        let take_left: bool = if i >= left.len() {
            false
        } else if j >= right.len() {
            true
        } else {
            key_not_after(&keys[left[i]], &keys[right[j]])
        };
        if take_left {
            let x: usize = left[i];
            proof {
                assert forall|q: int| j <= q < right.len() implies #[trigger] before(
                    keys@,
                    x as int,
                    right@[q] as int,
                ) by {
                    assert(before(keys@, x as int, right@[j as int] as int));
                    if q > j {
                        assert(before(keys@, right@[j as int] as int, right@[q] as int));
                        lemma_before_transitive(
                            keys@,
                            x as int,
                            right@[j as int] as int,
                            right@[q] as int,
                        );
                    }
                }
            }
            out.push(x);
            i = i + 1;
            proof {
                assert(out@ =~= prior.push(x));
                assert forall|p: int| 0 <= p < i implies out@.contains(#[trigger] left@[p]) by {
                    if p == i - 1 {
                        assert(out@[prior.len() as int] == x);
                    } else {
                        let k = choose|k: int| 0 <= k < prior.len() && prior[k] == left@[p];
                        assert(out@[k] == left@[p]);
                    }
                }
                assert forall|p: int| 0 <= p < j implies out@.contains(#[trigger] right@[p]) by {
                    let k = choose|k: int| 0 <= k < prior.len() && prior[k] == right@[p];
                    assert(out@[k] == right@[p]);
                }
            }
        } else {
            let x: usize = right[j];
            proof {
                assert forall|q: int| i <= q < left.len() implies #[trigger] before(
                    keys@,
                    x as int,
                    left@[q] as int,
                ) by {
                    lemma_key_total(keys@[left@[i as int] as int]@, keys@[x as int]@);
                    assert(before(keys@, x as int, left@[i as int] as int));
                    if q > i {
                        assert(before(keys@, left@[i as int] as int, left@[q] as int));
                        lemma_before_transitive(
                            keys@,
                            x as int,
                            left@[i as int] as int,
                            left@[q] as int,
                        );
                    }
                }
            }
            out.push(x);
            j = j + 1;
            proof {
                assert(out@ =~= prior.push(x));
                assert forall|p: int| 0 <= p < i implies out@.contains(#[trigger] left@[p]) by {
                    let k = choose|k: int| 0 <= k < prior.len() && prior[k] == left@[p];
                    assert(out@[k] == left@[p]);
                }
                assert forall|p: int| 0 <= p < j implies out@.contains(#[trigger] right@[p]) by {
                    if p == j - 1 {
                        assert(out@[prior.len() as int] == x);
                    } else {
                        let k = choose|k: int| 0 <= k < prior.len() && prior[k] == right@[p];
                        assert(out@[k] == right@[p]);
                    }
                }
            }
        }
    }
    proof {
        assert forall|x: usize| lo <= x < hi implies #[trigger] out@.contains(x) by {
            if x < mid {
                assert(left@.contains(x));
                let p = choose|p: int| 0 <= p < left.len() && left@[p] == x;
                assert(out@.contains(left@[p]));
            } else {
                assert(right@.contains(x));
                let p = choose|p: int| 0 <= p < right.len() && right@[p] == x;
                assert(out@.contains(right@[p]));
            }
        }
    }
    out
}

fn order_range(keys: &Vec<Vec<u128>>, lo: usize, hi: usize) -> (r: Vec<usize>)
    requires
        lo <= hi <= keys.len(),
    ensures
        orders_range(keys@, lo as int, hi as int, r@),
    decreases hi - lo,
{
    if hi - lo == 0 {
        return Vec::new();
    }
    if hi - lo == 1 {
        let mut out: Vec<usize> = Vec::new();
        out.push(lo);
        assert(out@[0] == lo);
        return out;
    }
    let mid: usize = lo + (hi - lo) / 2;
    let left = order_range(keys, lo, mid);
    let right = order_range(keys, mid, hi);
    merge_runs(keys, &left, &right, Ghost(lo as int), Ghost(mid as int), Ghost(hi as int))
}

/// All positions, ordered by key; equal keys keep their order.
pub fn stable_order(keys: &Vec<Vec<u128>>) -> (r: Vec<usize>)
    ensures
        orders_range(keys@, 0, keys.len() as int, r@),
{
    order_range(keys, 0, keys.len())
}

/// The key that orders texts by their characters.
pub open spec fn text_key(text: Seq<char>) -> Seq<u128> {
    text.map_values(|c: char| (c as u32) as u128)
}

/// Characters with one number are one character.
proof fn lemma_char_number(a: char, b: char)
    requires
        (a as u32) as u128 == (b as u32) as u128,
    ensures
        a == b,
{
}

/// The key tells texts apart.
pub proof fn lemma_text_key_injective(a: Seq<char>, b: Seq<char>)
    requires
        text_key(a) == text_key(b),
    ensures
        a == b,
{
    assert(a.len() == text_key(a).len() && b.len() == text_key(b).len());
    assert forall|i: int| 0 <= i < a.len() implies a[i] == b[i] by {
        assert(text_key(a)[i] == text_key(b)[i]);
        assert(text_key(a)[i] == (a[i] as u32) as u128);
        lemma_char_number(a[i], b[i]);
    }
    assert(a =~= b);
}

/// The key of a text.
pub fn text_key_of(text: &str) -> (r: Vec<u128>)
    ensures
        r@ == text_key(text@),
{
    let chars = crate::text::chars_of(text);
    let mut key: Vec<u128> = Vec::new();
    let mut i: usize = 0;
    while i < chars.len()
        invariant
            i <= chars.len(),
            key@ == text_key(chars@.take(i as int)),
        decreases chars.len() - i,
    {
        key.push((chars[i] as u32) as u128);
        i = i + 1;
        assert(key@ =~= text_key(chars@.take(i as int)));
    }
    assert(chars@.take(chars@.len() as int) =~= chars@);
    key
}

/// Texts in strictly ascending order.
pub open spec fn texts_ascend(texts: Seq<String>) -> bool {
    forall|i: int, j: int|
        #![trigger texts[i], texts[j]]
        0 <= i < j < texts.len() ==> key_le(text_key(texts[i]@), text_key(texts[j]@)) && texts[i]@
            != texts[j]@
}

/// A text is among texts.
pub open spec fn has_text(texts: Seq<String>, text: Seq<char>) -> bool {
    exists|i: int| 0 <= i < texts.len() && (#[trigger] texts[i])@ == text
}

/// The texts without repeats, ascending.
pub fn sorted_distinct_texts(texts: &Vec<String>) -> (r: Vec<String>)
    ensures
        texts_ascend(r@),
        forall|text: Seq<char>| has_text(r@, text) <==> #[trigger] has_text(texts@, text),
{
    let mut keys: Vec<Vec<u128>> = Vec::new();
    let mut i: usize = 0;
    while i < texts.len()
        invariant
            i <= texts.len(),
            keys.len() == i,
            forall|j: int| 0 <= j < i ==> (#[trigger] keys@[j])@ == text_key(texts@[j]@),
        decreases texts.len() - i,
    {
        keys.push(text_key_of(texts[i].as_str()));
        i = i + 1;
    }
    let order = stable_order(&keys);
    let mut out: Vec<String> = Vec::new();
    let mut p: usize = 0;
    while p < order.len()
        invariant
            p <= order.len(),
            order.len() == texts.len(),
            keys.len() == texts.len(),
            forall|j: int| 0 <= j < keys.len() ==> (#[trigger] keys@[j])@ == text_key(texts@[j]@),
            orders_range(keys@, 0, keys.len() as int, order@),
            texts_ascend(out@),
            p > 0 ==> out.len() > 0 && out@.last()@ == texts@[order@[p - 1] as int]@,
            p == 0 ==> out.len() == 0,
            forall|k: int| 0 <= k < out.len() ==> has_text(texts@, (#[trigger] out@[k])@),
            forall|q: int| 0 <= q < p ==> has_text(out@, texts@[#[trigger] order@[q] as int]@),
        decreases order.len() - p,
    {
        let here: usize = order[p];
        let repeat: bool = if p > 0 {
            let earlier: usize = order[p - 1];
            crate::text::str_eq(texts[earlier].as_str(), texts[here].as_str())
        } else {
            false
        };
        let ghost before_out = out@;
        if !repeat {
            out.push(texts[here].clone());
            proof {
                assert(out@.last()@ == texts@[here as int]@);
                assert forall|a: int, b: int|
                    #![trigger out@[a], out@[b]]
                    0 <= a < b < out.len() implies key_le(
                    text_key(out@[a]@),
                    text_key(out@[b]@),
                ) && out@[a]@ != out@[b]@ by {
                    if b < before_out.len() {
                        assert(out@[a] == before_out[a] && out@[b] == before_out[b]);
                    } else {
                        let last = before_out.len() - 1;
                        let prior = order@[p - 1] as int;
                        assert(before(keys@, order@[p - 1] as int, order@[p as int] as int));
                        assert(keys@[prior]@ == text_key(texts@[prior]@));
                        assert(keys@[here as int]@ == text_key(texts@[here as int]@));
                        assert(out@[a] == before_out[a]);
                        if a < last {
                            assert(key_le(text_key(before_out[a]@), text_key(before_out[last]@)));
                            lemma_key_transitive(
                                text_key(out@[a]@),
                                text_key(before_out[last]@),
                                text_key(out@[b]@),
                            );
                            if out@[a]@ == out@[b]@ {
                                lemma_key_antisymmetric(
                                    text_key(out@[a]@),
                                    text_key(before_out[last]@),
                                );
                                lemma_text_key_injective(out@[a]@, before_out[last]@);
                            }
                        }
                    }
                }
                assert forall|q: int| 0 <= q < p + 1 implies has_text(
                    out@,
                    texts@[#[trigger] order@[q] as int]@,
                ) by {
                    if q < p {
                        assert(has_text(before_out, texts@[order@[q] as int]@));
                        let k = choose|k: int|
                            0 <= k < before_out.len() && (#[trigger] before_out[k])@
                                == texts@[order@[q] as int]@;
                        assert(out@[k] == before_out[k]);
                    } else {
                        assert(out@[out@.len() - 1]@ == texts@[here as int]@);
                    }
                }
                assert forall|k: int| 0 <= k < out.len() implies has_text(
                    texts@,
                    (#[trigger] out@[k])@,
                ) by {
                    if k < before_out.len() {
                        assert(out@[k] == before_out[k]);
                    } else {
                        assert(texts@[here as int]@ == out@[k]@);
                    }
                }
            }
        } else {
            proof {
                assert(has_text(out@, texts@[order@[p - 1] as int]@));
            }
        }
        p = p + 1;
    }
    proof {
        assert forall|text: Seq<char>| has_text(out@, text) <==> #[trigger] has_text(texts@, text) by {
            if has_text(out@, text) {
                let k = choose|k: int| 0 <= k < out.len() && (#[trigger] out@[k])@ == text;
                assert(has_text(texts@, out@[k]@));
            }
            if has_text(texts@, text) {
                let k = choose|k: int| 0 <= k < texts.len() && (#[trigger] texts@[k])@ == text;
                assert(order@.contains(k as usize));
                let q = choose|q: int| 0 <= q < order.len() && order@[q] == k as usize;
                assert(has_text(out@, texts@[order@[q] as int]@));
            }
        }
    }
    out
}

} // verus!
