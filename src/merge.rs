//! Merge-by-key of coefficient lists: the model of term addition.
use vstd::prelude::*;
use vstd::std_specs::ops::AddSpec;
use crate::ga_term::{Entry, Index};

verus! {

/// The keys (basis index tuples) of a coefficient list, in order.
pub open spec fn keys<T>(s: Seq<Entry<T>>) -> Seq<Seq<Index>> {
    s.map_values(|e: Entry<T>| e.0)
}

/// Position of the first occurrence of `k` in `ks`, or -1 when absent.
pub open spec fn first_index_of(ks: Seq<Seq<Index>>, k: Seq<Index>) -> int
    decreases ks.len(),
{
    if ks.len() == 0 {
        -1
    } else {
        let p = first_index_of(ks.drop_last(), k);
        if p >= 0 {
            p
        } else if ks.last() == k {
            ks.len() - 1
        } else {
            -1
        }
    }
}

/// Keys after one entry keyed `k` has been merged in.
pub open spec fn accumulate_keys(ks: Seq<Seq<Index>>, k: Seq<Index>) -> Seq<Seq<Index>> {
    if first_index_of(ks, k) >= 0 {
        ks
    } else {
        ks.push(k)
    }
}

/// Keys of `merge(a, b)`: those of `a`, then each new key of `b` in order.
pub open spec fn merge_keys(ka: Seq<Seq<Index>>, kb: Seq<Seq<Index>>) -> Seq<Seq<Index>>
    decreases kb.len(),
{
    if kb.len() == 0 {
        ka
    } else {
        accumulate_keys(merge_keys(ka, kb.drop_last()), kb.last())
    }
}

/// Merge one entry: add its coefficient to the first entry with the same
/// key, or append it when there is none.
pub open spec fn accumulate<T: core::ops::Add<Output = T>>(s: Seq<Entry<T>>, e: Entry<T>) -> Seq<Entry<T>> {
    let p = first_index_of(keys(s), e.0);
    if p >= 0 {
        s.update(p, (e.0, s[p].1.add_spec(e.1)))
    } else {
        s.push(e)
    }
}

/// Sum of two coefficient lists: start from `a`, merge each entry of `b` in turn.
pub open spec fn merge<T: core::ops::Add<Output = T>>(a: Seq<Entry<T>>, b: Seq<Entry<T>>) -> Seq<Entry<T>>
    decreases b.len(),
{
    if b.len() == 0 {
        a
    } else {
        accumulate(merge(a, b.drop_last()), b.last())
    }
}

/// Addition of coefficients is defined on every pair of values.
pub open spec fn total_addition<T: core::ops::Add<Output = T>>() -> bool {
    forall|x: T, y: T| #[trigger] x.add_req(y)
}

/// Merging `e` into `m` adds only coefficients whose sum is defined.
pub open spec fn step_defined<T: core::ops::Add<Output = T>>(m: Seq<Entry<T>>, e: Entry<T>) -> bool {
    let p = first_index_of(keys(m), e.0);
    p >= 0 ==> m[p].1.add_req(e.1)
}

/// Every coefficient sum formed while merging `b` into `a` is defined.
pub open spec fn merge_defined<T: core::ops::Add<Output = T>>(a: Seq<Entry<T>>, b: Seq<Entry<T>>) -> bool {
    forall|i: int| 0 <= i < b.len() ==> step_defined(merge(a, b.take(i)), #[trigger] b[i])
}

/// The sums that adding `b` to `a` forms are defined: exactly those sums
/// where `+` follows its specification, all sums otherwise.
pub open spec fn addition_defined<T: core::ops::Add<Output = T>>(a: Seq<Entry<T>>, b: Seq<Entry<T>>) -> bool {
    if T::obeys_add_spec() {
        merge_defined(a, b)
    } else {
        total_addition::<T>()
    }
}

pub proof fn lemma_first_index_of(ks: Seq<Seq<Index>>, k: Seq<Index>)
    ensures
        -1 <= first_index_of(ks, k) < ks.len(),
        first_index_of(ks, k) == -1 <==> (forall|q: int| 0 <= q < ks.len() ==> ks[q] != k),
        first_index_of(ks, k) >= 0 ==> ks[first_index_of(ks, k)] == k,
        forall|q: int| 0 <= q < first_index_of(ks, k) ==> ks[q] != k,
    decreases ks.len(),
{
    if ks.len() > 0 {
        lemma_first_index_of(ks.drop_last(), k);
        let p = first_index_of(ks.drop_last(), k);
        if p < 0 && ks.last() != k {
            assert forall|q: int| 0 <= q < ks.len() implies ks[q] != k by {
                if q < ks.len() - 1 {
                    assert(ks.drop_last()[q] == ks[q]);
                }
            }
        }
        if p >= 0 {
            assert(ks.drop_last()[p] == ks[p]);
            assert forall|q: int| 0 <= q < p implies ks[q] != k by {
                assert(ks.drop_last()[q] == ks[q]);
            }
        }
        if p < 0 {
            assert forall|q: int| 0 <= q < ks.len() - 1 implies ks[q] != k by {
                assert(ks.drop_last()[q] == ks[q]);
            }
        }
    }
}

/// The first position holding `k` is the one that a scan from the front finds.
pub proof fn lemma_first_index_is(ks: Seq<Seq<Index>>, k: Seq<Index>, p: int)
    requires
        0 <= p < ks.len(),
        ks[p] == k,
        forall|q: int| 0 <= q < p ==> ks[q] != k,
    ensures
        first_index_of(ks, k) == p,
{
    lemma_first_index_of(ks, k);
}

/// The keys of a merge depend on the keys of its operands alone.
pub proof fn lemma_merge_keys<T: core::ops::Add<Output = T>>(a: Seq<Entry<T>>, b: Seq<Entry<T>>)
    ensures
        keys(merge(a, b)) == merge_keys(keys(a), keys(b)),
    decreases b.len(),
{
    if b.len() > 0 {
        lemma_merge_keys(a, b.drop_last());
        let m = merge(a, b.drop_last());
        let e = b.last();
        assert(keys(b).drop_last() =~= keys(b.drop_last()));
        assert(keys(b).last() == e.0);
        let p = first_index_of(keys(m), e.0);
        lemma_first_index_of(keys(m), e.0);
        if p >= 0 {
            assert(keys(m.update(p, (e.0, m[p].1.add_spec(e.1)))) =~= keys(m));
        } else {
            assert(keys(m.push(e)) =~= keys(m).push(e.0));
        }
    }
}


/// No key occurs twice in the list.
pub open spec fn unique_keys<T>(es: Seq<Entry<T>>) -> bool {
    keys(es).no_duplicates()
}

/// The coefficient of each key (the first entry's, should a key repeat).
pub open spec fn coefficient_map<T>(es: Seq<Entry<T>>) -> Map<Seq<Index>, T> {
    Map::new(|k: Seq<Index>| keys(es).contains(k), |k: Seq<Index>| es[first_index_of(keys(es), k)].1)
}

/// Key-wise sum of two coefficient maps; a key in one map only keeps its coefficient.
pub open spec fn summed<T: core::ops::Add<Output = T>>(
    ma: Map<Seq<Index>, T>,
    mb: Map<Seq<Index>, T>,
) -> Map<Seq<Index>, T> {
    Map::new(
        |k: Seq<Index>| ma.contains_key(k) || mb.contains_key(k),
        |k: Seq<Index>|
            if ma.contains_key(k) && mb.contains_key(k) {
                ma[k].add_spec(mb[k])
            } else if ma.contains_key(k) {
                ma[k]
            } else {
                mb[k]
            },
    )
}

proof fn lemma_first_index_push(ks: Seq<Seq<Index>>, x: Seq<Index>, k: Seq<Index>)
    ensures
        first_index_of(ks.push(x), k) == if first_index_of(ks, k) >= 0 {
            first_index_of(ks, k)
        } else if x == k {
            ks.len() as int
        } else {
            -1
        },
{
    assert(ks.push(x).drop_last() =~= ks);
}

proof fn lemma_contains_index(ks: Seq<Seq<Index>>, k: Seq<Index>)
    ensures
        ks.contains(k) <==> first_index_of(ks, k) >= 0,
{
    lemma_first_index_of(ks, k);
    if ks.contains(k) {
        let q = choose|q: int| 0 <= q < ks.len() && ks[q] == k;
        assert(ks[q] == k);
    }
    if first_index_of(ks, k) >= 0 {
        assert(ks[first_index_of(ks, k)] == k);
    }
}

/// One merge step on the coefficient map of a list with unique keys.
proof fn lemma_accumulate_map<T: core::ops::Add<Output = T>>(m: Seq<Entry<T>>, e: Entry<T>)
    requires
        unique_keys(m),
    ensures
        unique_keys(accumulate(m, e)),
        coefficient_map(accumulate(m, e)) == if keys(m).contains(e.0) {
            coefficient_map(m).insert(e.0, coefficient_map(m)[e.0].add_spec(e.1))
        } else {
            coefficient_map(m).insert(e.0, e.1)
        },
{
    let ks = keys(m);
    let p = first_index_of(ks, e.0);
    lemma_first_index_of(ks, e.0);
    lemma_contains_index(ks, e.0);
    let r = accumulate(m, e);
    if p >= 0 {
        assert(keys(r) =~= ks);
        assert forall|k: Seq<Index>| #[trigger] keys(r).contains(k) implies
            coefficient_map(r)[k] == coefficient_map(m).insert(e.0, coefficient_map(m)[e.0].add_spec(e.1))[k] by {
            lemma_first_index_of(ks, k);
            lemma_contains_index(ks, k);
        }
        assert(coefficient_map(r) =~= coefficient_map(m).insert(e.0, coefficient_map(m)[e.0].add_spec(e.1)));
    } else {
        let ks2 = keys(r);
        assert(ks2 =~= ks.push(e.0));
        assert(ks2.no_duplicates()) by {
            assert forall|i: int, j: int| 0 <= i < ks2.len() && 0 <= j < ks2.len() && i != j implies ks2[i] != ks2[j] by {
                if i < ks.len() && j < ks.len() {
                } else if i == ks.len() {
                    assert(ks[j] != e.0);
                } else {
                    assert(ks[i] != e.0);
                }
            }
        }
        assert forall|k: Seq<Index>| #[trigger] ks2.contains(k) <==> coefficient_map(m).insert(e.0, e.1).contains_key(k) by {
            lemma_contains_index(ks2, k);
            lemma_contains_index(ks, k);
            lemma_first_index_push(ks, e.0, k);
        }
        assert forall|k: Seq<Index>| #[trigger] ks2.contains(k) implies
            coefficient_map(r)[k] == coefficient_map(m).insert(e.0, e.1)[k] by {
            lemma_contains_index(ks2, k);
            lemma_contains_index(ks, k);
            lemma_first_index_push(ks, e.0, k);
            lemma_first_index_of(ks, k);
        }
        assert(coefficient_map(r) =~= coefficient_map(m).insert(e.0, e.1));
    }
}

/// For lists with unique keys, the merge has unique keys and its coefficient
/// map is the key-wise sum of the operands' maps.
pub proof fn lemma_merge_map<T: core::ops::Add<Output = T>>(a: Seq<Entry<T>>, b: Seq<Entry<T>>)
    requires
        unique_keys(a),
        unique_keys(b),
    ensures
        unique_keys(merge(a, b)),
        coefficient_map(merge(a, b)) == summed(coefficient_map(a), coefficient_map(b)),
    decreases b.len(),
{
    if b.len() == 0 {
        assert(keys(b) =~= Seq::<Seq<Index>>::empty());
        assert(summed(coefficient_map(a), coefficient_map(b)) =~= coefficient_map(a));
    } else {
        let b0 = b.drop_last();
        let e = b.last();
        let kb = keys(b);
        assert(keys(b0) =~= kb.drop_last());
        assert(unique_keys(b0)) by {
            assert forall|i: int, j: int| 0 <= i < keys(b0).len() && 0 <= j < keys(b0).len() && i != j implies keys(b0)[i] != keys(b0)[j] by {
                assert(keys(b0)[i] == kb[i] && keys(b0)[j] == kb[j]);
            }
        }
        lemma_merge_map(a, b0);
        let m = merge(a, b0);
        lemma_accumulate_map(m, e);
        let ma = coefficient_map(a);
        let mb0 = coefficient_map(b0);
        let mb = coefficient_map(b);
        assert(kb =~= keys(b0).push(e.0));
        assert(!keys(b0).contains(e.0)) by {
            if keys(b0).contains(e.0) {
                let q = choose|q: int| 0 <= q < keys(b0).len() && keys(b0)[q] == e.0;
                assert(kb[q] == kb[kb.len() - 1]);
            }
        }
        assert(mb =~= mb0.insert(e.0, e.1)) by {
            assert forall|k: Seq<Index>| #[trigger] kb.contains(k) <==> mb0.insert(e.0, e.1).contains_key(k) by {
                lemma_contains_index(kb, k);
                lemma_contains_index(keys(b0), k);
                lemma_first_index_push(keys(b0), e.0, k);
            }
            assert forall|k: Seq<Index>| #[trigger] kb.contains(k) implies mb[k] == mb0.insert(e.0, e.1)[k] by {
                lemma_contains_index(kb, k);
                lemma_contains_index(keys(b0), k);
                lemma_first_index_push(keys(b0), e.0, k);
                lemma_first_index_of(keys(b0), k);
            }
        }
        assert(coefficient_map(m).contains_key(e.0) == keys(m).contains(e.0));
        assert(!mb0.contains_key(e.0));
        assert(keys(m).contains(e.0) <==> ma.contains_key(e.0));
        assert(coefficient_map(merge(a, b)) =~= summed(ma, mb));
    }
}

/// The keys of a merge are those of either operand.
pub proof fn lemma_merge_keys_set(ka: Seq<Seq<Index>>, kb: Seq<Seq<Index>>)
    ensures
        merge_keys(ka, kb).to_set() == ka.to_set().union(kb.to_set()),
    decreases kb.len(),
{
    if kb.len() == 0 {
        assert(kb.to_set() =~= Set::<Seq<Index>>::empty());
        assert(ka.to_set().union(kb.to_set()) =~= ka.to_set());
    } else {
        let k0 = kb.drop_last();
        let k = kb.last();
        lemma_merge_keys_set(ka, k0);
        let m = merge_keys(ka, k0);
        lemma_contains_index(m, k);
        assert(kb =~= k0.push(k));
        k0.lemma_push_to_set_commute(k);
        if first_index_of(m, k) >= 0 {
            assert(merge_keys(ka, kb).to_set() =~= ka.to_set().union(kb.to_set()));
        } else {
            m.lemma_push_to_set_commute(k);
            assert(merge_keys(ka, kb).to_set() =~= ka.to_set().union(kb.to_set()));
        }
    }
}

/// A merge holds no more keys than its operands together.
pub proof fn lemma_merge_keys_len(ka: Seq<Seq<Index>>, kb: Seq<Seq<Index>>)
    ensures
        ka.len() <= merge_keys(ka, kb).len() <= ka.len() + kb.len(),
    decreases kb.len(),
{
    if kb.len() > 0 {
        lemma_merge_keys_len(ka, kb.drop_last());
    }
}

} // verus!
