//! Stable ordering of items by a pair of texts, compared lexicographically.

use vstd::prelude::*;

use crate::text::{lemma_text_lt_irreflexive, lemma_text_lt_total, lemma_text_lt_transitive, str_eq, text_less, text_lt};

verus! {

/// Lexicographic order on pairs of texts.
pub open spec fn pair_lt(a: (Seq<char>, Seq<char>), b: (Seq<char>, Seq<char>)) -> bool {
    text_lt(a.0, b.0) || (a.0 == b.0 && text_lt(a.1, b.1))
}

/// Texts of a list of key pairs.
pub open spec fn keys_view(keys: Seq<(String, String)>) -> Seq<(Seq<char>, Seq<char>)> {
    keys.map_values(|k: (String, String)| (k.0@, k.1@))
}

/// `ord` lists each position below `n` exactly once.
pub open spec fn is_permutation(ord: Seq<usize>, n: int) -> bool {
    &&& ord.len() == n
    &&& forall|i: int| 0 <= i < n ==> #[trigger] ord[i] < n
    &&& forall|i: int, j: int| 0 <= i < n && 0 <= j < n && i != j ==> ord[i] != ord[j]
}

/// `ord` visits the keys in ascending order, keys that compare equal in their given order.
pub open spec fn stable_sorted(keys: Seq<(Seq<char>, Seq<char>)>, ord: Seq<usize>) -> bool {
    &&& is_permutation(ord, keys.len() as int)
    &&& forall|i: int, j: int|
        0 <= i < j < ord.len() ==> !pair_lt(keys[ord[j] as int], keys[ord[i] as int])
    &&& forall|i: int, j: int|
        0 <= i < j < ord.len() && !pair_lt(keys[ord[i] as int], keys[ord[j] as int]) ==> ord[i] < ord[j]
}

pub proof fn lemma_pair_lt_irreflexive(a: (Seq<char>, Seq<char>))
    ensures
        !pair_lt(a, a),
{
    lemma_text_lt_irreflexive(a.0);
    lemma_text_lt_irreflexive(a.1);
}

pub proof fn lemma_pair_lt_transitive(a: (Seq<char>, Seq<char>), b: (Seq<char>, Seq<char>), c: (Seq<char>, Seq<char>))
    requires
        pair_lt(a, b),
        pair_lt(b, c),
    ensures
        pair_lt(a, c),
{
    if text_lt(a.0, b.0) && text_lt(b.0, c.0) {
        lemma_text_lt_transitive(a.0, b.0, c.0);
    }
    if a.0 == b.0 && b.0 == c.0 && text_lt(a.1, b.1) && text_lt(b.1, c.1) {
        lemma_text_lt_transitive(a.1, b.1, c.1);
    }
}

pub proof fn lemma_pair_lt_total(a: (Seq<char>, Seq<char>), b: (Seq<char>, Seq<char>))
    ensures
        pair_lt(a, b) || pair_lt(b, a) || a == b,
{
    lemma_text_lt_total(a.0, b.0);
    lemma_text_lt_total(a.1, b.1);
}

pub proof fn lemma_pair_lt_asymmetric(a: (Seq<char>, Seq<char>), b: (Seq<char>, Seq<char>))
    requires
        pair_lt(a, b),
    ensures
        !pair_lt(b, a),
{
    if pair_lt(b, a) {
        lemma_pair_lt_transitive(a, b, a);
        lemma_pair_lt_irreflexive(a);
    }
}

/// Whether key `a` comes before key `b`.
pub fn pair_less(a: &(String, String), b: &(String, String)) -> (r: bool)
    ensures
        r == pair_lt((a.0@, a.1@), (b.0@, b.1@)),
{
    text_less(a.0.as_str(), b.0.as_str()) || (str_eq(a.0.as_str(), b.0.as_str()) && text_less(
        a.1.as_str(),
        b.1.as_str(),
    ))
}

/// Positions of `keys` in stable ascending order of the keys.
pub fn stable_order(keys: &Vec<(String, String)>) -> (ord: Vec<usize>)
    ensures
        stable_sorted(keys_view(keys@), ord@),
{
    let ghost kv = keys_view(keys@);
    let mut ord: Vec<usize> = Vec::new();
    let mut idx: usize = 0;
    while idx < keys.len()
        invariant
            kv == keys_view(keys@),
            kv.len() == keys@.len(),
            idx <= keys@.len(),
            ord@.len() == idx,
            forall|i: int| 0 <= i < idx ==> #[trigger] ord@[i] < idx,
            forall|i: int, j: int| 0 <= i < idx && 0 <= j < idx && i != j ==> ord@[i] != ord@[j],
            forall|i: int, j: int|
                0 <= i < j < idx ==> !pair_lt(kv[ord@[j] as int], kv[ord@[i] as int]),
            forall|i: int, j: int|
                0 <= i < j < idx && !pair_lt(kv[ord@[i] as int], kv[ord@[j] as int]) ==> ord@[i] < ord@[j],
        decreases keys@.len() - idx,
    {
        let ghost x = kv[idx as int];
        let mut p: usize = ord.len();
        while p > 0
            invariant
                kv == keys_view(keys@),
                kv.len() == keys@.len(),
                idx < keys@.len(),
                ord@.len() == idx,
                forall|i: int| 0 <= i < idx ==> #[trigger] ord@[i] < idx,
                x == kv[idx as int],
                p <= ord@.len(),
                forall|q: int| p <= q < ord@.len() ==> pair_lt(x, #[trigger] kv[ord@[q] as int]),
            ensures
                p <= ord@.len(),
                forall|q: int| p <= q < ord@.len() ==> pair_lt(x, #[trigger] kv[ord@[q] as int]),
                p > 0 ==> !pair_lt(x, kv[ord@[p - 1] as int]),
            decreases p,
        {
            let before = pair_less(&keys[idx], &keys[ord[p - 1]]);
            if !before {
                break;
            }
            p -= 1;
        }
        let ghost old_ord = ord@;
        ord.insert(p, idx);
        proof {
            let n = ord@.len();
            assert(ord@ == old_ord.insert(p as int, idx));
            assert forall|i: int| 0 <= i < idx + 1 implies #[trigger] ord@[i] < idx + 1 by {
                if i < p {
                    assert(ord@[i] == old_ord[i]);
                } else if i > p {
                    assert(ord@[i] == old_ord[i - 1]);
                }
            }
            assert forall|i: int, j: int| 0 <= i < idx + 1 && 0 <= j < idx + 1 && i != j implies ord@[i] != ord@[j] by {
                let oi = if i < p { i } else { i - 1 };
                let oj = if j < p { j } else { j - 1 };
                if i != p && j != p {
                    assert(ord@[i] == old_ord[oi]);
                    assert(ord@[j] == old_ord[oj]);
                } else if i == p {
                    assert(ord@[j] == old_ord[oj]);
                    assert(old_ord[oj] < idx);
                } else {
                    assert(ord@[i] == old_ord[oi]);
                    assert(old_ord[oi] < idx);
                }
            }
            assert forall|i: int, j: int| 0 <= i < j < idx + 1 implies !pair_lt(
                kv[ord@[j] as int],
                kv[ord@[i] as int],
            ) && (!pair_lt(kv[ord@[i] as int], kv[ord@[j] as int]) ==> ord@[i] < ord@[j]) by {
                if j < p {
                    assert(ord@[i] == old_ord[i]);
                    assert(ord@[j] == old_ord[j]);
                } else if i > p {
                    assert(ord@[i] == old_ord[i - 1]);
                    assert(ord@[j] == old_ord[j - 1]);
                } else if i == p {
                    assert(ord@[j] == old_ord[j - 1]);
                    let y = kv[old_ord[j - 1] as int];
                    assert(pair_lt(x, y));
                    lemma_pair_lt_asymmetric(x, y);
                } else if j == p {
                    assert(ord@[i] == old_ord[i]);
                    let y = kv[old_ord[i] as int];
                    assert(old_ord[i] < idx);
                    let z = kv[old_ord[p - 1] as int];
                    assert(!pair_lt(x, z));
                    if pair_lt(x, y) {
                        if i < p - 1 {
                            assert(!pair_lt(z, y));
                            lemma_pair_lt_total(y, z);
                            if pair_lt(y, z) {
                                lemma_pair_lt_transitive(x, y, z);
                            }
                        }
                    }
                } else {
                    assert(i < p && p < j);
                    assert(ord@[i] == old_ord[i]);
                    assert(ord@[j] == old_ord[j - 1]);
                    let y = kv[old_ord[i] as int];
                    let w = kv[old_ord[j - 1] as int];
                    assert(!pair_lt(w, y));
                }
            }
        }
        idx += 1;
    }
    ord
}

/// Items rearranged by a permutation of their positions: the item at position `ord[t]`
/// comes `t`-th.
pub fn apply_order<T>(items: Vec<T>, ord: &Vec<usize>) -> (r: Vec<T>)
    requires
        is_permutation(ord@, items@.len() as int),
    ensures
        r@.len() == items@.len(),
        forall|t: int| 0 <= t < r@.len() ==> #[trigger] r@[t] == items@[ord@[t] as int],
{
    let ghost orig = items@;
    let mut slots: Vec<Option<T>> = Vec::new();
    let mut rest = items;
    while rest.len() > 0
        invariant
            slots@.len() + rest@.len() == orig.len(),
            forall|q: int| 0 <= q < slots@.len() ==> (#[trigger] slots@[q]) == Some(orig[q]),
            forall|q: int| 0 <= q < rest@.len() ==> (#[trigger] rest@[q]) == orig[slots@.len() + q],
        decreases rest@.len(),
    {
        let x = rest.remove(0);
        slots.push(Some(x));
    }
    let mut out: Vec<T> = Vec::new();
    let mut q: usize = 0;
    while q < ord.len()
        invariant
            is_permutation(ord@, orig.len() as int),
            slots@.len() == orig.len(),
            q <= ord@.len(),
            out@.len() == q,
            forall|t: int| 0 <= t < q ==> #[trigger] out@[t] == orig[ord@[t] as int],
            forall|t: int| q <= t < ord@.len() ==> #[trigger] slots@[ord@[t] as int] == Some(orig[ord@[t] as int]),
        decreases ord@.len() - q,
    {
        let t = ord[q];
        assert(slots@[t as int] == Some(orig[t as int]));
        let x = slots.remove(t);
        slots.insert(t, None);
        proof {
            assert forall|u: int| q + 1 <= u < ord@.len() implies #[trigger] slots@[ord@[u] as int] == Some(orig[ord@[u] as int]) by {
                assert(ord@[u] != ord@[q as int]);
            }
        }
        match x {
            Some(v) => {
                out.push(v);
            },
            None => {
                assert(false);
            },
        }
        q += 1;
    }
    out
}

} // verus!
