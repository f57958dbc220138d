//! Stable sorting by text keys.

use vstd::prelude::*;

use crate::text::comes_before;

verus! {

/// Index `i` goes before index `j`: its key is smaller, or the keys are equal and `i` is smaller.
pub open spec fn goes_before(keys: Seq<Seq<char>>, i: int, j: int) -> bool {
    crate::text::text_before(keys[i], keys[j]) || (keys[i] == keys[j] && i < j)
}

/// `p` lists the indices of `keys`, each once, by rising key; equal keys keep their order.
pub open spec fn is_stable_order(keys: Seq<Seq<char>>, p: Seq<int>) -> bool {
    &&& p.len() == keys.len()
    &&& forall|a: int| 0 <= a < p.len() ==> 0 <= #[trigger] p[a] < keys.len()
    &&& forall|a: int, b: int| 0 <= a < b < p.len() ==> goes_before(keys, #[trigger] p[a], #[trigger] p[b])
    &&& forall|k: int| 0 <= k < keys.len() ==> #[trigger] p.contains(k)
}

/// The members of `items` at the indices that `p` lists, in that order.
pub open spec fn picked<T>(items: Seq<T>, p: Seq<int>) -> Seq<T> {
    Seq::new(p.len(), |k: int| items[p[k]])
}

/// `out` is `items` sorted by `keys`, the key of `items[i]` being `keys[i]`; items with equal
/// keys keep their order.
pub open spec fn is_stable_sort<T>(items: Seq<T>, keys: Seq<Seq<char>>, out: Seq<T>) -> bool {
    items.len() == keys.len() && exists|p: Seq<int>|
        #[trigger] is_stable_order(keys, p) && out == picked(items, p)
}

/// The key sequences of a vector of keys.
pub open spec fn key_views(keys: Seq<Vec<char>>) -> Seq<Seq<char>> {
    keys.map_values(|k: Vec<char>| k@)
}

proof fn lemma_goes_before_transitive(keys: Seq<Seq<char>>, i: int, j: int, k: int)
    requires
        goes_before(keys, i, j),
        goes_before(keys, j, k),
    ensures
        goes_before(keys, i, k),
{
    if crate::text::text_before(keys[i], keys[j]) && crate::text::text_before(keys[j], keys[k]) {
        crate::text::law_text_before_transitive(keys[i], keys[j], keys[k]);
    }
}

/// An index never goes before itself, and of two indices at most one goes before the other.
pub proof fn law_goes_before_strict(keys: Seq<Seq<char>>, i: int, j: int)
    ensures
        !goes_before(keys, i, i),
        goes_before(keys, i, j) ==> !goes_before(keys, j, i),
{
    crate::text::law_text_before_irreflexive(keys[i]);
    if goes_before(keys, i, j) && goes_before(keys, j, i) {
        lemma_goes_before_transitive(keys, i, j, i);
    }
}

/// There is one stable order only.
pub proof fn law_stable_order_unique(keys: Seq<Seq<char>>, p: Seq<int>, q: Seq<int>)
    requires
        is_stable_order(keys, p),
        is_stable_order(keys, q),
    ensures
        p == q,
{
    assert forall|a: int| 0 <= a < p.len() implies p[a] == q[a] by {
        lemma_unique_at(keys, p, q, a);
    }
    assert(p =~= q);
}

proof fn lemma_unique_at(keys: Seq<Seq<char>>, p: Seq<int>, q: Seq<int>, a: int)
    requires
        is_stable_order(keys, p),
        is_stable_order(keys, q),
        0 <= a < p.len(),
    ensures
        p[a] == q[a],
    decreases a,
{
    assert forall|b: int| 0 <= b < a implies p[b] == q[b] by {
        lemma_unique_at(keys, p, q, b);
    }
    assert(q.contains(p[a]));
    let i = choose|i: int| 0 <= i < q.len() && q[i] == p[a];
    assert(p.contains(q[a]));
    let j = choose|j: int| 0 <= j < p.len() && p[j] == q[a];
    if p[a] != q[a] {
        if i < a {
            law_goes_before_strict(keys, p[i], p[a]);
            assert(p[i] == p[a]);
        } else if j < a {
            law_goes_before_strict(keys, q[j], q[a]);
            assert(q[j] == q[a]);
        } else {
            law_goes_before_strict(keys, p[a], q[a]);
            assert(goes_before(keys, q[a], q[i]));
            assert(goes_before(keys, p[a], p[j]));
        }
    }
}

/// Where the last key goes in an order of the keys before it: behind everything that it does not
/// come before.
spec fn place(keys: Seq<Seq<char>>, p: Seq<int>, at: int) -> int
    decreases at,
{
    if at <= 0 || !crate::text::text_before(keys.last(), keys[p[at - 1]]) {
        at
    } else {
        place(keys, p, at - 1)
    }
}

proof fn lemma_place(keys: Seq<Seq<char>>, p: Seq<int>, at: int)
    requires
        0 <= at <= p.len(),
    ensures
        0 <= place(keys, p, at) <= at,
        forall|a: int|
            place(keys, p, at) <= a < at ==> crate::text::text_before(
                keys.last(),
                keys[#[trigger] p[a]],
            ),
        place(keys, p, at) > 0 ==> !crate::text::text_before(
            keys.last(),
            keys[p[place(keys, p, at) - 1]],
        ),
    decreases at,
{
    if at > 0 && crate::text::text_before(keys.last(), keys[p[at - 1]]) {
        lemma_place(keys, p, at - 1);
    }
}

/// Whatever the keys, there is a stable order.
pub proof fn law_stable_order_exists(keys: Seq<Seq<char>>) -> (p: Seq<int>)
    ensures
        is_stable_order(keys, p),
    decreases keys.len(),
{
    if keys.len() == 0 {
        Seq::empty()
    } else {
        let n = keys.len() - 1;
        let rest = keys.drop_last();
        let q = law_stable_order_exists(rest);
        let at = place(keys, q, q.len() as int);
        lemma_place(keys, q, q.len() as int);
        let p = q.insert(at, n);
        assert forall|a: int, b: int| 0 <= a < b < q.len() implies goes_before(
            keys,
            #[trigger] q[a],
            #[trigger] q[b],
        ) by {
            assert(goes_before(rest, q[a], q[b]));
        }
        assert forall|a: int| 0 <= a < at implies goes_before(keys, #[trigger] q[a], n) by {
            let last = q[at - 1];
            crate::text::law_text_before_total(keys[last], keys[n]);
            assert(goes_before(keys, last, n));
            if a < at - 1 {
                lemma_goes_before_transitive(keys, q[a], last, n);
            }
        }
        assert forall|k: int| 0 <= k < keys.len() implies #[trigger] p.contains(k) by {
            if k == n {
                assert(p[at] == n);
            } else {
                assert(q.contains(k));
                let j = choose|j: int| 0 <= j < q.len() && q[j] == k;
                if j < at {
                    assert(p[j] == k);
                } else {
                    assert(p[j + 1] == k);
                }
            }
        }
        p
    }
}

/// The stable order of `keys`.
pub fn stable_order(keys: &Vec<Vec<char>>) -> (r: Vec<usize>)
    ensures
        is_stable_order(key_views(keys@), r@.map_values(|i: usize| i as int)),
{
    let ghost kv = key_views(keys@);
    let mut p: Vec<usize> = Vec::new();
    let mut i: usize = 0;
    while i < keys.len()
        invariant
            i <= keys.len(),
            kv == key_views(keys@),
            p.len() == i,
            forall|a: int| 0 <= a < p.len() ==> 0 <= #[trigger] p[a] < i,
            forall|a: int, b: int|
                0 <= a < b < p.len() ==> goes_before(kv, #[trigger] p[a] as int, #[trigger] p[b] as int),
            forall|k: int| 0 <= k < i ==> #[trigger] p@.contains(k as usize),
        decreases keys.len() - i,
    {
        let mut at: usize = p.len();
        while at > 0 && comes_before(&keys[i], &keys[p[at - 1]])
            invariant
                i < keys.len(),
                kv == key_views(keys@),
                at <= p.len(),
                p.len() == i,
                forall|a: int| 0 <= a < p.len() ==> 0 <= #[trigger] p[a] < i,
                forall|a: int| at <= a < p.len() ==> goes_before(kv, i as int, #[trigger] p[a] as int),
            decreases at,
        {
            at = at - 1;
        }
        proof {
            assert forall|a: int| 0 <= a < at implies goes_before(kv, #[trigger] p[a] as int, i as int) by {
                let last = p[at - 1] as int;
                crate::text::law_text_before_total(kv[last], kv[i as int]);
                assert(goes_before(kv, last, i as int));
                if a < at - 1 {
                    lemma_goes_before_transitive(kv, p[a] as int, last, i as int);
                }
            }
        }
        let ghost before = p@;
        p.insert(at, i);
        proof {
            assert(p@ =~= before.insert(at as int, i));
            assert forall|k: int| 0 <= k < i + 1 implies #[trigger] p@.contains(k as usize) by {
                if k == i {
                    assert(p@[at as int] == i);
                } else {
                    assert(before.contains(k as usize));
                    let j = choose|j: int| 0 <= j < before.len() && before[j] == k as usize;
                    if j < at {
                        assert(p@[j] == k as usize);
                    } else {
                        assert(p@[j + 1] == k as usize);
                    }
                }
            }
        }
        i = i + 1;
    }
    proof {
        let q = p@.map_values(|i: usize| i as int);
        assert forall|k: int| 0 <= k < kv.len() implies #[trigger] q.contains(k) by {
            assert(p@.contains(k as usize));
            let j = choose|j: int| 0 <= j < p@.len() && p@[j] == k as usize;
            assert(q[j] == k);
        }
    }
    p
}

} // verus!
