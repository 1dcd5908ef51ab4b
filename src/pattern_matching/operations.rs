//! Operations over every shape of term: addition, scaling, rendering.
use vstd::prelude::*;
use vstd::std_specs::ops::{AddSpec, MulSpec};
use vstd::string::to_string_from_display_ensures;
use crate::ga_term::{
    blade_entry, bivector_entry, trivector_entry, vector_entry, BladeTerm, Entry, GATerm, Index,
};
use crate::merge::{
    accumulate, addition_defined, coefficient_map, first_index_of, keys, lemma_first_index_is,
    lemma_first_index_of, lemma_merge_keys, lemma_merge_keys_len, lemma_merge_keys_set, lemma_merge_map, merge,
    merge_keys, step_defined, summed, unique_keys,
};
use crate::pattern_matching::text::{render, rendered};

verus! {

/// A copy of a vector of plain values.
pub(crate) fn copy_vec<E: Copy>(v: &Vec<E>) -> (r: Vec<E>)
    ensures
        r@ == v@,
{
    let mut r: Vec<E> = Vec::new();
    let mut i: usize = 0;
    while i < v.len()
        invariant
            i <= v.len(),
            r@ == v@.take(i as int),
        decreases v.len() - i,
    {
        r.push(v[i]);
        i += 1;
        assert(r@ =~= v@.take(i as int));
    }
    assert(v@.take(v.len() as int) =~= v@);
    r
}

/// The entry list of `m`, whatever its shape, after merging the first `i`
/// entries of `b` into `a`: keys always, coefficients where `+` obeys its spec.
pub open spec fn merged_prefix<T: core::ops::Add<Output = T>>(
    m: Seq<Entry<T>>,
    a: Seq<Entry<T>>,
    b: Seq<Entry<T>>,
    i: int,
) -> bool {
    &&& keys(m) == merge_keys(keys(a), keys(b.take(i)))
    &&& T::obeys_add_spec() ==> m == merge(a, b.take(i))
}

/// One merge step on the entry view: `m` absorbs the entry `b[i]` at
/// position `p` (or at the end, `p == -1`).
proof fn lemma_merge_step<T: core::ops::Add<Output = T>>(
    m: Seq<Entry<T>>,
    m2: Seq<Entry<T>>,
    a: Seq<Entry<T>>,
    b: Seq<Entry<T>>,
    i: int,
    p: int,
    sum: T,
)
    requires
        0 <= i < b.len(),
        merged_prefix(m, a, b, i),
        p == first_index_of(keys(m), b[i].0),
        p >= 0 ==> m2 == m.update(p, (b[i].0, sum)),
        p >= 0 ==> (T::obeys_add_spec() ==> sum == m[p].1.add_spec(b[i].1)),
        p < 0 ==> m2 == m.push(b[i]),
    ensures
        merged_prefix(m2, a, b, i + 1),
{
    let bt = b.take(i + 1);
    assert(bt.drop_last() =~= b.take(i));
    assert(bt.last() == b[i]);
    assert(keys(bt).drop_last() =~= keys(b.take(i)));
    assert(keys(bt).last() == b[i].0);
    lemma_merge_keys(a, b.take(i));
    lemma_first_index_of(keys(m), b[i].0);
    if p >= 0 {
        assert(keys(m2) =~= keys(m));
    } else {
        assert(keys(m2) =~= keys(m).push(b[i].0));
    }
}

/// The sum formed at step `i` of a merge is defined.
proof fn lemma_sum_defined<T: core::ops::Add<Output = T>>(
    m: Seq<Entry<T>>,
    a: Seq<Entry<T>>,
    b: Seq<Entry<T>>,
    i: int,
    p: int,
    c: T,
)
    requires
        0 <= i < b.len(),
        addition_defined(a, b),
        merged_prefix(m, a, b, i),
        p == first_index_of(keys(m), b[i].0),
        0 <= p < m.len(),
        c == m[p].1,
    ensures
        c.add_req(b[i].1),
{
    if T::obeys_add_spec() {
        assert(step_defined(merge(a, b.take(i)), b[i]));
    }
}

fn vector_position<T>(v: &Vec<(Index, T)>, idx: Index) -> (r: usize)
    ensures
        r <= v.len(),
        r < v.len() ==> r as int == first_index_of(keys(v@.map_values(|e: (Index, T)| vector_entry(e))), seq![idx]),
        r == v.len() ==> first_index_of(keys(v@.map_values(|e: (Index, T)| vector_entry(e))), seq![idx]) == -1,
{
    let ghost ks = keys(v@.map_values(|e: (Index, T)| vector_entry(e)));
    let mut j: usize = 0;
    while j < v.len()
        invariant
            j <= v.len(),
            ks == keys(v@.map_values(|e: (Index, T)| vector_entry(e))),
            ks.len() == v.len(),
            forall|q: int| 0 <= q < j ==> ks[q] != seq![idx],
        decreases v.len() - j,
    {
        assert(ks[j as int] == seq![v[j as int].0]);
        if v[j].0 == idx {
            proof { lemma_first_index_is(ks, seq![idx], j as int); }
            return j;
        }
        assert(ks[j as int][0] != seq![idx][0]);
        j += 1;
    }
    proof { lemma_first_index_of(ks, seq![idx]); }
    j
}

fn add_vectors<T: Copy + core::ops::Add<Output = T>>(
    v1: &Vec<(Index, T)>,
    v2: &Vec<(Index, T)>,
) -> (r: Vec<(Index, T)>)
    requires
        addition_defined(v1@.map_values(|e: (Index, T)| vector_entry(e)), v2@.map_values(|e: (Index, T)| vector_entry(e))),
    ensures
        merged_prefix(
            r@.map_values(|e: (Index, T)| vector_entry(e)),
            v1@.map_values(|e: (Index, T)| vector_entry(e)),
            v2@.map_values(|e: (Index, T)| vector_entry(e)),
            v2.len() as int,
        ),
{
    let ghost a = v1@.map_values(|e: (Index, T)| vector_entry(e));
    let ghost b = v2@.map_values(|e: (Index, T)| vector_entry(e));
    let mut result = copy_vec(v1);
    let mut i: usize = 0;
    assert(b.take(0) =~= Seq::<Entry<T>>::empty());
    assert(keys(b.take(0)) =~= Seq::<Seq<Index>>::empty());
    while i < v2.len()
        invariant
            i <= v2.len(),
            addition_defined(a, b),
            a == v1@.map_values(|e: (Index, T)| vector_entry(e)),
            b == v2@.map_values(|e: (Index, T)| vector_entry(e)),
            merged_prefix(result@.map_values(|e: (Index, T)| vector_entry(e)), a, b, i as int),
        decreases v2.len() - i,
    {
        let (idx, coeff) = v2[i];
        let ghost m = result@.map_values(|e: (Index, T)| vector_entry(e));
        assert(b[i as int] == (seq![idx], coeff));
        let p = vector_position(&result, idx);
        if p < result.len() {
            let (k, c) = result[p];
            proof { lemma_sum_defined(m, a, b, i as int, p as int, c); }
            let sum = c + coeff;
            result.set(p, (k, sum));
            proof {
                lemma_first_index_of(keys(m), seq![idx]);
                assert(keys(m)[p as int] == seq![k]);
                assert(seq![k][0] == seq![idx][0]);
                assert(result@.map_values(|e: (Index, T)| vector_entry(e)) =~= m.update(p as int, (b[i as int].0, sum)));
                lemma_merge_step(m, result@.map_values(|e: (Index, T)| vector_entry(e)), a, b, i as int, p as int, sum);
            }
        } else {
            result.push((idx, coeff));
            proof {
                assert(result@.map_values(|e: (Index, T)| vector_entry(e)) =~= m.push(b[i as int]));
                lemma_merge_step(m, result@.map_values(|e: (Index, T)| vector_entry(e)), a, b, i as int, -1, coeff);
            }
        }
        i += 1;
    }
    assert(b.take(v2.len() as int) =~= b);
    result
}

fn bivector_position<T>(v: &Vec<(Index, Index, T)>, i1: Index, i2: Index) -> (r: usize)
    ensures
        r <= v.len(),
        r < v.len() ==> r as int == first_index_of(keys(v@.map_values(|e: (Index, Index, T)| bivector_entry(e))), seq![i1, i2]),
        r == v.len() ==> first_index_of(keys(v@.map_values(|e: (Index, Index, T)| bivector_entry(e))), seq![i1, i2]) == -1,
{
    let ghost ks = keys(v@.map_values(|e: (Index, Index, T)| bivector_entry(e)));
    let mut j: usize = 0;
    while j < v.len()
        invariant
            j <= v.len(),
            ks == keys(v@.map_values(|e: (Index, Index, T)| bivector_entry(e))),
            ks.len() == v.len(),
            forall|q: int| 0 <= q < j ==> ks[q] != seq![i1, i2],
        decreases v.len() - j,
    {
        assert(ks[j as int] == seq![v[j as int].0, v[j as int].1]);
        if v[j].0 == i1 && v[j].1 == i2 {
            proof { lemma_first_index_is(ks, seq![i1, i2], j as int); }
            return j;
        }
        assert(ks[j as int][0] != seq![i1, i2][0] || ks[j as int][1] != seq![i1, i2][1]);
        j += 1;
    }
    proof { lemma_first_index_of(ks, seq![i1, i2]); }
    j
}

fn add_bivectors<T: Copy + core::ops::Add<Output = T>>(
    v1: &Vec<(Index, Index, T)>,
    v2: &Vec<(Index, Index, T)>,
) -> (r: Vec<(Index, Index, T)>)
    requires
        addition_defined(v1@.map_values(|e: (Index, Index, T)| bivector_entry(e)), v2@.map_values(|e: (Index, Index, T)| bivector_entry(e))),
    ensures
        merged_prefix(
            r@.map_values(|e: (Index, Index, T)| bivector_entry(e)),
            v1@.map_values(|e: (Index, Index, T)| bivector_entry(e)),
            v2@.map_values(|e: (Index, Index, T)| bivector_entry(e)),
            v2.len() as int,
        ),
{
    let ghost a = v1@.map_values(|e: (Index, Index, T)| bivector_entry(e));
    let ghost b = v2@.map_values(|e: (Index, Index, T)| bivector_entry(e));
    let mut result = copy_vec(v1);
    let mut i: usize = 0;
    assert(b.take(0) =~= Seq::<Entry<T>>::empty());
    assert(keys(b.take(0)) =~= Seq::<Seq<Index>>::empty());
    while i < v2.len()
        invariant
            i <= v2.len(),
            addition_defined(a, b),
            a == v1@.map_values(|e: (Index, Index, T)| bivector_entry(e)),
            b == v2@.map_values(|e: (Index, Index, T)| bivector_entry(e)),
            merged_prefix(result@.map_values(|e: (Index, Index, T)| bivector_entry(e)), a, b, i as int),
        decreases v2.len() - i,
    {
        let (i1, i2, coeff) = v2[i];
        let ghost m = result@.map_values(|e: (Index, Index, T)| bivector_entry(e));
        assert(b[i as int] == (seq![i1, i2], coeff));
        let p = bivector_position(&result, i1, i2);
        if p < result.len() {
            let (k1, k2, c) = result[p];
            proof { lemma_sum_defined(m, a, b, i as int, p as int, c); }
            let sum = c + coeff;
            result.set(p, (k1, k2, sum));
            proof {
                lemma_first_index_of(keys(m), seq![i1, i2]);
                assert(keys(m)[p as int] == seq![k1, k2]);
                assert(seq![k1, k2][0] == seq![i1, i2][0]);
                assert(seq![k1, k2][1] == seq![i1, i2][1]);
                assert(result@.map_values(|e: (Index, Index, T)| bivector_entry(e)) =~= m.update(p as int, (b[i as int].0, sum)));
                lemma_merge_step(m, result@.map_values(|e: (Index, Index, T)| bivector_entry(e)), a, b, i as int, p as int, sum);
            }
        } else {
            result.push((i1, i2, coeff));
            proof {
                assert(result@.map_values(|e: (Index, Index, T)| bivector_entry(e)) =~= m.push(b[i as int]));
                lemma_merge_step(m, result@.map_values(|e: (Index, Index, T)| bivector_entry(e)), a, b, i as int, -1, coeff);
            }
        }
        i += 1;
    }
    assert(b.take(v2.len() as int) =~= b);
    result
}

fn trivector_position<T>(v: &Vec<(Index, Index, Index, T)>, i1: Index, i2: Index, i3: Index) -> (r: usize)
    ensures
        r <= v.len(),
        r < v.len() ==> r as int == first_index_of(keys(v@.map_values(|e: (Index, Index, Index, T)| trivector_entry(e))), seq![i1, i2, i3]),
        r == v.len() ==> first_index_of(keys(v@.map_values(|e: (Index, Index, Index, T)| trivector_entry(e))), seq![i1, i2, i3]) == -1,
{
    let ghost ks = keys(v@.map_values(|e: (Index, Index, Index, T)| trivector_entry(e)));
    let mut j: usize = 0;
    while j < v.len()
        invariant
            j <= v.len(),
            ks == keys(v@.map_values(|e: (Index, Index, Index, T)| trivector_entry(e))),
            ks.len() == v.len(),
            forall|q: int| 0 <= q < j ==> ks[q] != seq![i1, i2, i3],
        decreases v.len() - j,
    {
        assert(ks[j as int] == seq![v[j as int].0, v[j as int].1, v[j as int].2]);
        if v[j].0 == i1 && v[j].1 == i2 && v[j].2 == i3 {
            proof { lemma_first_index_is(ks, seq![i1, i2, i3], j as int); }
            return j;
        }
        assert(ks[j as int][0] != seq![i1, i2, i3][0] || ks[j as int][1] != seq![i1, i2, i3][1]
            || ks[j as int][2] != seq![i1, i2, i3][2]);
        j += 1;
    }
    proof { lemma_first_index_of(ks, seq![i1, i2, i3]); }
    j
}

fn add_trivectors<T: Copy + core::ops::Add<Output = T>>(
    v1: &Vec<(Index, Index, Index, T)>,
    v2: &Vec<(Index, Index, Index, T)>,
) -> (r: Vec<(Index, Index, Index, T)>)
    requires
        addition_defined(v1@.map_values(|e: (Index, Index, Index, T)| trivector_entry(e)), v2@.map_values(|e: (Index, Index, Index, T)| trivector_entry(e))),
    ensures
        merged_prefix(
            r@.map_values(|e: (Index, Index, Index, T)| trivector_entry(e)),
            v1@.map_values(|e: (Index, Index, Index, T)| trivector_entry(e)),
            v2@.map_values(|e: (Index, Index, Index, T)| trivector_entry(e)),
            v2.len() as int,
        ),
{
    let ghost a = v1@.map_values(|e: (Index, Index, Index, T)| trivector_entry(e));
    let ghost b = v2@.map_values(|e: (Index, Index, Index, T)| trivector_entry(e));
    let mut result = copy_vec(v1);
    let mut i: usize = 0;
    assert(b.take(0) =~= Seq::<Entry<T>>::empty());
    assert(keys(b.take(0)) =~= Seq::<Seq<Index>>::empty());
    while i < v2.len()
        invariant
            i <= v2.len(),
            addition_defined(a, b),
            a == v1@.map_values(|e: (Index, Index, Index, T)| trivector_entry(e)),
            b == v2@.map_values(|e: (Index, Index, Index, T)| trivector_entry(e)),
            merged_prefix(result@.map_values(|e: (Index, Index, Index, T)| trivector_entry(e)), a, b, i as int),
        decreases v2.len() - i,
    {
        let (i1, i2, i3, coeff) = v2[i];
        let ghost m = result@.map_values(|e: (Index, Index, Index, T)| trivector_entry(e));
        assert(b[i as int] == (seq![i1, i2, i3], coeff));
        let p = trivector_position(&result, i1, i2, i3);
        if p < result.len() {
            let (k1, k2, k3, c) = result[p];
            proof { lemma_sum_defined(m, a, b, i as int, p as int, c); }
            let sum = c + coeff;
            result.set(p, (k1, k2, k3, sum));
            proof {
                lemma_first_index_of(keys(m), seq![i1, i2, i3]);
                assert(keys(m)[p as int] == seq![k1, k2, k3]);
                assert(seq![k1, k2, k3][0] == seq![i1, i2, i3][0]);
                assert(seq![k1, k2, k3][1] == seq![i1, i2, i3][1]);
                assert(seq![k1, k2, k3][2] == seq![i1, i2, i3][2]);
                assert(result@.map_values(|e: (Index, Index, Index, T)| trivector_entry(e)) =~= m.update(p as int, (b[i as int].0, sum)));
                lemma_merge_step(m, result@.map_values(|e: (Index, Index, Index, T)| trivector_entry(e)), a, b, i as int, p as int, sum);
            }
        } else {
            result.push((i1, i2, i3, coeff));
            proof {
                assert(result@.map_values(|e: (Index, Index, Index, T)| trivector_entry(e)) =~= m.push(b[i as int]));
                lemma_merge_step(m, result@.map_values(|e: (Index, Index, Index, T)| trivector_entry(e)), a, b, i as int, -1, coeff);
            }
        }
        i += 1;
    }
    assert(b.take(v2.len() as int) =~= b);
    result
}


fn same_indices(a: &Vec<Index>, b: &Vec<Index>) -> (r: bool)
    ensures
        r == (a@ == b@),
{
    if a.len() != b.len() {
        return false;
    }
    let mut j: usize = 0;
    while j < a.len()
        invariant
            j <= a.len(),
            a.len() == b.len(),
            forall|q: int| 0 <= q < j ==> a@[q] == b@[q],
        decreases a.len() - j,
    {
        if a[j] != b[j] {
            return false;
        }
        j += 1;
    }
    assert(a@ =~= b@);
    true
}

pub(crate) fn copy_blade<T: Copy>(b: &BladeTerm<T>) -> (r: BladeTerm<T>)
    ensures
        blade_entry(r) == blade_entry(*b),
{
    BladeTerm { indices: copy_vec(&b.indices), coefficient: b.coefficient }
}

fn copy_blades<T: Copy>(v: &Vec<BladeTerm<T>>) -> (r: Vec<BladeTerm<T>>)
    ensures
        r@.map_values(|b: BladeTerm<T>| blade_entry(b)) == v@.map_values(|b: BladeTerm<T>| blade_entry(b)),
{
    let mut r: Vec<BladeTerm<T>> = Vec::new();
    let mut i: usize = 0;
    while i < v.len()
        invariant
            i <= v.len(),
            r.len() == i,
            forall|q: int| 0 <= q < i ==> blade_entry(#[trigger] r@[q]) == blade_entry(v@[q]),
        decreases v.len() - i,
    {
        r.push(copy_blade(&v[i]));
        i += 1;
    }
    assert(r@.map_values(|b: BladeTerm<T>| blade_entry(b)) =~= v@.map_values(|b: BladeTerm<T>| blade_entry(b)));
    r
}

fn blade_position<T>(v: &Vec<BladeTerm<T>>, indices: &Vec<Index>) -> (r: usize)
    ensures
        r <= v.len(),
        r < v.len() ==> r as int == first_index_of(keys(v@.map_values(|b: BladeTerm<T>| blade_entry(b))), indices@),
        r == v.len() ==> first_index_of(keys(v@.map_values(|b: BladeTerm<T>| blade_entry(b))), indices@) == -1,
{
    let ghost ks = keys(v@.map_values(|b: BladeTerm<T>| blade_entry(b)));
    let mut j: usize = 0;
    while j < v.len()
        invariant
            j <= v.len(),
            ks == keys(v@.map_values(|b: BladeTerm<T>| blade_entry(b))),
            ks.len() == v.len(),
            forall|q: int| 0 <= q < j ==> ks[q] != indices@,
        decreases v.len() - j,
    {
        assert(ks[j as int] == v[j as int].indices@);
        if same_indices(&v[j].indices, indices) {
            proof { lemma_first_index_is(ks, indices@, j as int); }
            return j;
        }
        j += 1;
    }
    proof { lemma_first_index_of(ks, indices@); }
    j
}

fn add_multivectors<T: Copy + core::ops::Add<Output = T>>(
    m1: &Vec<BladeTerm<T>>,
    m2: &Vec<BladeTerm<T>>,
) -> (r: Vec<BladeTerm<T>>)
    requires
        addition_defined(m1@.map_values(|b: BladeTerm<T>| blade_entry(b)), m2@.map_values(|b: BladeTerm<T>| blade_entry(b))),
    ensures
        merged_prefix(
            r@.map_values(|b: BladeTerm<T>| blade_entry(b)),
            m1@.map_values(|b: BladeTerm<T>| blade_entry(b)),
            m2@.map_values(|b: BladeTerm<T>| blade_entry(b)),
            m2.len() as int,
        ),
{
    let ghost a = m1@.map_values(|b: BladeTerm<T>| blade_entry(b));
    let ghost b = m2@.map_values(|b: BladeTerm<T>| blade_entry(b));
    let mut result = copy_blades(m1);
    let mut i: usize = 0;
    assert(b.take(0) =~= Seq::<Entry<T>>::empty());
    assert(keys(b.take(0)) =~= Seq::<Seq<Index>>::empty());
    while i < m2.len()
        invariant
            i <= m2.len(),
            addition_defined(a, b),
            a == m1@.map_values(|b: BladeTerm<T>| blade_entry(b)),
            b == m2@.map_values(|b: BladeTerm<T>| blade_entry(b)),
            merged_prefix(result@.map_values(|b: BladeTerm<T>| blade_entry(b)), a, b, i as int),
        decreases m2.len() - i,
    {
        let term = &m2[i];
        let ghost m = result@.map_values(|b: BladeTerm<T>| blade_entry(b));
        assert(b[i as int] == (term.indices@, term.coefficient));
        let p = blade_position(&result, &term.indices);
        if p < result.len() {
            proof {
                assert(m[p as int].1 == result@[p as int].coefficient);
                lemma_sum_defined(m, a, b, i as int, p as int, result@[p as int].coefficient);
            }
            let sum = result[p].coefficient + term.coefficient;
            let updated = BladeTerm { indices: copy_vec(&term.indices), coefficient: sum };
            proof {
                lemma_first_index_of(keys(m), term.indices@);
                assert(keys(m)[p as int] == m[p as int].0);
            }
            result.set(p, updated);
            proof {
                assert(result@.map_values(|b: BladeTerm<T>| blade_entry(b)) =~= m.update(p as int, (b[i as int].0, sum)));
                lemma_merge_step(m, result@.map_values(|b: BladeTerm<T>| blade_entry(b)), a, b, i as int, p as int, sum);
            }
        } else {
            result.push(copy_blade(term));
            proof {
                assert(result@.map_values(|b: BladeTerm<T>| blade_entry(b)) =~= m.push(b[i as int]));
                lemma_merge_step(m, result@.map_values(|b: BladeTerm<T>| blade_entry(b)), a, b, i as int, -1, term.coefficient);
            }
        }
        i += 1;
    }
    assert(b.take(m2.len() as int) =~= b);
    result
}

/// Sum of two terms of the same grade, merging coefficients by key; `None`
/// when the grades differ.
pub fn add<T: Copy + core::ops::Add<Output = T>>(lhs: &GATerm<T>, rhs: &GATerm<T>) -> (r: Option<GATerm<T>>)
    requires
        lhs.spec_grade() == rhs.spec_grade() ==> addition_defined(lhs.entries(), rhs.entries()),
    ensures
        r is None <==> lhs.spec_grade() != rhs.spec_grade(),
        r matches Some(t) ==> t.spec_grade() == lhs.spec_grade()
            && keys(t.entries()) == merge_keys(keys(lhs.entries()), keys(rhs.entries()))
            && (T::obeys_add_spec() ==> t.entries() == merge(lhs.entries(), rhs.entries()))
            && t.entries().len() <= lhs.entries().len() + rhs.entries().len()
            && (unique_keys(lhs.entries()) && unique_keys(rhs.entries()) ==> unique_keys(t.entries())),
{
    if lhs.grade() != rhs.grade() {
        return None;
    }
    let r = add_same_grade(lhs, rhs);
    proof {
        let (a, b) = (lhs.entries(), rhs.entries());
        assert(b.take(b.len() as int) =~= b);
        lemma_merge_keys_len(keys(a), keys(b));
        if unique_keys(a) && unique_keys(b) {
            lemma_merge_map(a, b);
            lemma_merge_keys(a, b);
        }
    }
    r
}

fn add_same_grade<T: Copy + core::ops::Add<Output = T>>(lhs: &GATerm<T>, rhs: &GATerm<T>) -> (r: Option<GATerm<T>>)
    requires
        addition_defined(lhs.entries(), rhs.entries()),
        lhs.spec_grade() == rhs.spec_grade(),
    ensures
        r matches Some(t) && t.spec_grade() == lhs.spec_grade()
            && merged_prefix(t.entries(), lhs.entries(), rhs.entries(), rhs.entries().len() as int),
{
    match (lhs, rhs) {
        (GATerm::Scalar(s1), GATerm::Scalar(s2)) => {
            proof {
                let a = lhs.entries();
                let b = rhs.entries();
                assert(b.take(0) =~= Seq::<Entry<T>>::empty());
                assert(keys(a) =~= seq![Seq::<Index>::empty()]);
                lemma_first_index_is(keys(a), Seq::<Index>::empty(), 0);
                if T::obeys_add_spec() {
                    assert(step_defined(merge(a, b.take(0)), b[0]));
                }
            }
            let r = GATerm::scalar(s1.value + s2.value);
            proof {
                let a = lhs.entries();
                let b = rhs.entries();
                let m = r.entries();
                assert(b.take(1) =~= b);
                assert(b.drop_last() =~= Seq::<Entry<T>>::empty());
                assert(keys(b) =~= seq![Seq::<Index>::empty()]);
                assert(keys(b).drop_last() =~= Seq::<Seq<Index>>::empty());
                assert(keys(a) =~= seq![Seq::<Index>::empty()]);
                lemma_first_index_is(keys(a), Seq::<Index>::empty(), 0);
                assert(keys(m) =~= keys(a));
                assert(merge_keys(keys(a), keys(b).drop_last()) == keys(a));
                assert(merge_keys(keys(a), keys(b)) == keys(a));
                assert(merge(a, b.drop_last()) == a);
                assert(merge(a, b) == a.update(0, (b[0].0, a[0].1.add_spec(b[0].1))));
                assert(T::obeys_add_spec() ==> m =~= a.update(0, (b[0].0, a[0].1.add_spec(b[0].1))));
            }
            Some(r)
        }
        (GATerm::Vector(v1), GATerm::Vector(v2)) => Some(GATerm::vector(add_vectors(v1, v2))),
        (GATerm::Bivector(b1), GATerm::Bivector(b2)) => Some(GATerm::bivector(add_bivectors(b1, b2))),
        (GATerm::Trivector(t1), GATerm::Trivector(t2)) => Some(GATerm::trivector(add_trivectors(t1, t2))),
        (GATerm::Multivector(m1), GATerm::Multivector(m2)) => Some(GATerm::multivector(add_multivectors(m1, m2))),
        _ => None,
    }
}


/// Every coefficient multiplied by `s`; keys unchanged.
pub open spec fn scaled<T: core::ops::Mul<S, Output = T>, S>(es: Seq<Entry<T>>, s: S) -> Seq<Entry<T>> {
    es.map_values(|e: Entry<T>| (e.0, e.1.mul_spec(s)))
}

/// Multiplying each coefficient of `es` by `s` is defined.
pub open spec fn scaling_defined<T: core::ops::Mul<S, Output = T>, S>(es: Seq<Entry<T>>, s: S) -> bool {
    forall|i: int| 0 <= i < es.len() ==> (#[trigger] es[i]).1.mul_req(s)
}

/// Multiply every coefficient of `term` by `scalar`, keeping its shape and keys.
pub fn scalar_multiply<T: Copy + core::ops::Mul<S, Output = T>, S: Copy>(scalar: S, term: &GATerm<T>) -> (r: GATerm<T>)
    requires
        scaling_defined(term.entries(), scalar),
    ensures
        r.spec_grade() == term.spec_grade(),
        keys(r.entries()) == keys(term.entries()),
        <T as MulSpec<S>>::obeys_mul_spec() ==> r.entries() == scaled(term.entries(), scalar),
{
    match term {
        GATerm::Scalar(s) => {
            assert(term.entries()[0].1 == s.value);
            let r = GATerm::scalar(s.value * scalar);
            assert(keys(r.entries()) =~= keys(term.entries()));
            assert(<T as MulSpec<S>>::obeys_mul_spec() ==> r.entries() =~= scaled(term.entries(), scalar));
            r
        }
        GATerm::Vector(v) => {
            assert forall|q: int| 0 <= q < v.len() implies (#[trigger] v@[q]).1.mul_req(scalar) by {
                assert(term.entries()[q] == vector_entry(v@[q]));
            }
            let mut out: Vec<(Index, T)> = Vec::new();
            let mut i: usize = 0;
            while i < v.len()
                invariant
                    i <= v.len(),
                    forall|q: int| 0 <= q < v.len() ==> (#[trigger] v@[q]).1.mul_req(scalar),
                    out.len() == i,
                    forall|q: int| 0 <= q < i ==> (#[trigger] out@[q]).0 == v@[q].0,
                    forall|q: int| 0 <= q < i ==> (<T as MulSpec<S>>::obeys_mul_spec() ==> (#[trigger] out@[q]).1 == v@[q].1.mul_spec(scalar)),
                decreases v.len() - i,
            {
                let (idx, c) = v[i];
                out.push((idx, c * scalar));
                i += 1;
            }
            let r = GATerm::vector(out);
            assert(keys(r.entries()) =~= keys(term.entries()));
            assert(<T as MulSpec<S>>::obeys_mul_spec() ==> r.entries() =~= scaled(term.entries(), scalar));
            r
        }
        GATerm::Bivector(b) => {
            assert forall|q: int| 0 <= q < b.len() implies (#[trigger] b@[q]).2.mul_req(scalar) by {
                assert(term.entries()[q] == bivector_entry(b@[q]));
            }
            let mut out: Vec<(Index, Index, T)> = Vec::new();
            let mut i: usize = 0;
            while i < b.len()
                invariant
                    i <= b.len(),
                    forall|q: int| 0 <= q < b.len() ==> (#[trigger] b@[q]).2.mul_req(scalar),
                    out.len() == i,
                    forall|q: int| 0 <= q < i ==> (#[trigger] out@[q]).0 == b@[q].0 && out@[q].1 == b@[q].1,
                    forall|q: int| 0 <= q < i ==> (<T as MulSpec<S>>::obeys_mul_spec() ==> (#[trigger] out@[q]).2 == b@[q].2.mul_spec(scalar)),
                decreases b.len() - i,
            {
                let (i1, i2, c) = b[i];
                out.push((i1, i2, c * scalar));
                i += 1;
            }
            let r = GATerm::bivector(out);
            assert(keys(r.entries()) =~= keys(term.entries()));
            assert(<T as MulSpec<S>>::obeys_mul_spec() ==> r.entries() =~= scaled(term.entries(), scalar));
            r
        }
        GATerm::Trivector(t) => {
            assert forall|q: int| 0 <= q < t.len() implies (#[trigger] t@[q]).3.mul_req(scalar) by {
                assert(term.entries()[q] == trivector_entry(t@[q]));
            }
            let mut out: Vec<(Index, Index, Index, T)> = Vec::new();
            let mut i: usize = 0;
            while i < t.len()
                invariant
                    i <= t.len(),
                    forall|q: int| 0 <= q < t.len() ==> (#[trigger] t@[q]).3.mul_req(scalar),
                    out.len() == i,
                    forall|q: int| 0 <= q < i ==> (#[trigger] out@[q]).0 == t@[q].0 && out@[q].1 == t@[q].1 && out@[q].2 == t@[q].2,
                    forall|q: int| 0 <= q < i ==> (<T as MulSpec<S>>::obeys_mul_spec() ==> (#[trigger] out@[q]).3 == t@[q].3.mul_spec(scalar)),
                decreases t.len() - i,
            {
                let (i1, i2, i3, c) = t[i];
                out.push((i1, i2, i3, c * scalar));
                i += 1;
            }
            let r = GATerm::trivector(out);
            assert(keys(r.entries()) =~= keys(term.entries()));
            assert(<T as MulSpec<S>>::obeys_mul_spec() ==> r.entries() =~= scaled(term.entries(), scalar));
            r
        }
        GATerm::Multivector(m) => {
            assert forall|q: int| 0 <= q < m.len() implies (#[trigger] m@[q]).coefficient.mul_req(scalar) by {
                assert(term.entries()[q] == blade_entry(m@[q]));
            }
            let mut out: Vec<BladeTerm<T>> = Vec::new();
            let mut i: usize = 0;
            while i < m.len()
                invariant
                    i <= m.len(),
                    forall|q: int| 0 <= q < m.len() ==> (#[trigger] m@[q]).coefficient.mul_req(scalar),
                    out.len() == i,
                    forall|q: int| 0 <= q < i ==> (#[trigger] out@[q]).indices@ == m@[q].indices@,
                    forall|q: int| 0 <= q < i ==> (<T as MulSpec<S>>::obeys_mul_spec() ==> (#[trigger] out@[q]).coefficient == m@[q].coefficient.mul_spec(scalar)),
                decreases m.len() - i,
            {
                let blade = &m[i];
                out.push(BladeTerm::new(copy_vec(&blade.indices), blade.coefficient * scalar));
                i += 1;
            }
            let r = GATerm::multivector(out);
            assert(keys(r.entries()) =~= keys(term.entries()));
            assert(<T as MulSpec<S>>::obeys_mul_spec() ==> r.entries() =~= scaled(term.entries(), scalar));
            r
        }
    }
}

/// A coefficient written by its `Display` impl.
fn coefficient_text<T: core::fmt::Display>(c: &T) -> (s: String)
    ensures
        to_string_from_display_ensures::<T>(c, s),
{
    c.to_string()
}

/// Text of a term, each coefficient written by its `Display` impl, as in
/// `Vector(e1:2, e2:3)`.
pub fn to_string<T: core::fmt::Display>(term: &GATerm<T>) -> (r: String)
    ensures
        exists|texts: GATerm<String>|
            texts.spec_grade() == term.spec_grade()
            && keys(texts.entries()) == keys(term.entries())
            && (forall|i: int| 0 <= i < term.entries().len()
                ==> to_string_from_display_ensures::<T>(&term.entries()[i].1, #[trigger] texts.entries()[i].1))
            && r@ == rendered(texts),
{
    let texts = crate::pattern_matching::combinators::map(term, coefficient_text::<T>);
    render(&texts)
}

/// Adding two terms of one grade gives every key the same coefficient
/// whichever term comes first, where coefficient addition commutes.
pub proof fn add_commutative<T: core::ops::Add<Output = T>>(a: GATerm<T>, b: GATerm<T>)
    requires
        a.spec_grade() == b.spec_grade(),
        unique_keys(a.entries()),
        unique_keys(b.entries()),
        forall|x: T, y: T| #[trigger] x.add_spec(y) == y.add_spec(x),
    ensures
        coefficient_map(merge(a.entries(), b.entries())) == coefficient_map(merge(b.entries(), a.entries())),
{
    lemma_merge_map(a.entries(), b.entries());
    lemma_merge_map(b.entries(), a.entries());
    let ma = coefficient_map(a.entries());
    let mb = coefficient_map(b.entries());
    assert(summed(ma, mb) =~= summed(mb, ma));
}

/// Adding two terms of one grade gives the same set of keys whichever term
/// comes first: the keys of either term. This holds for every coefficient type.
pub proof fn add_keys_commutative<T>(a: GATerm<T>, b: GATerm<T>)
    requires
        a.spec_grade() == b.spec_grade(),
    ensures
        merge_keys(keys(a.entries()), keys(b.entries())).to_set()
            == merge_keys(keys(b.entries()), keys(a.entries())).to_set(),
        merge_keys(keys(a.entries()), keys(b.entries())).to_set()
            == keys(a.entries()).to_set().union(keys(b.entries()).to_set()),
{
    lemma_merge_keys_set(keys(a.entries()), keys(b.entries()));
    lemma_merge_keys_set(keys(b.entries()), keys(a.entries()));
    assert(keys(a.entries()).to_set().union(keys(b.entries()).to_set())
        =~= keys(b.entries()).to_set().union(keys(a.entries()).to_set()));
}

/// Adding three terms of one grade gives every key the same coefficient
/// however the sums are grouped, where coefficient addition is associative.
pub proof fn add_associative<T: core::ops::Add<Output = T>>(a: GATerm<T>, b: GATerm<T>, c: GATerm<T>)
    requires
        a.spec_grade() == b.spec_grade(),
        b.spec_grade() == c.spec_grade(),
        unique_keys(a.entries()),
        unique_keys(b.entries()),
        unique_keys(c.entries()),
        forall|x: T, y: T, z: T| #[trigger] x.add_spec(y).add_spec(z) == x.add_spec(y.add_spec(z)),
    ensures
        coefficient_map(merge(merge(a.entries(), b.entries()), c.entries()))
            == coefficient_map(merge(a.entries(), merge(b.entries(), c.entries()))),
{
    let (ea, eb, ec) = (a.entries(), b.entries(), c.entries());
    lemma_merge_map(ea, eb);
    lemma_merge_map(merge(ea, eb), ec);
    lemma_merge_map(eb, ec);
    lemma_merge_map(ea, merge(eb, ec));
    let (ma, mb, mc) = (coefficient_map(ea), coefficient_map(eb), coefficient_map(ec));
    assert forall|k: Seq<Index>| #[trigger] summed(summed(ma, mb), mc).contains_key(k) implies
        summed(summed(ma, mb), mc)[k] == summed(ma, summed(mb, mc))[k] by {
        if ma.contains_key(k) && mb.contains_key(k) && mc.contains_key(k) {
            assert(ma[k].add_spec(mb[k]).add_spec(mc[k]) == ma[k].add_spec(mb[k].add_spec(mc[k])));
        }
    }
    assert(summed(summed(ma, mb), mc) =~= summed(ma, summed(mb, mc)));
}

/// Scaling by a unit of the coefficients leaves every entry unchanged.
pub proof fn scale_by_unit<T: core::ops::Mul<S, Output = T>, S>(x: GATerm<T>, one: S)
    requires
        forall|c: T| #[trigger] c.mul_spec(one) == c,
    ensures
        scaled(x.entries(), one) == x.entries(),
{
    assert(scaled(x.entries(), one) =~= x.entries());
}

proof fn lemma_scaled_merge<T: core::ops::Add<Output = T> + core::ops::Mul<S, Output = T>, S>(
    a: Seq<Entry<T>>,
    b: Seq<Entry<T>>,
    s: S,
)
    requires
        forall|x: T, y: T| #[trigger] x.add_spec(y).mul_spec(s) == x.mul_spec(s).add_spec(y.mul_spec(s)),
    ensures
        scaled(merge(a, b), s) == merge(scaled(a, s), scaled(b, s)),
    decreases b.len(),
{
    if b.len() == 0 {
        assert(scaled(b, s) =~= Seq::<Entry<T>>::empty());
    } else {
        lemma_scaled_merge(a, b.drop_last(), s);
        let m = merge(a, b.drop_last());
        let e = b.last();
        assert(scaled(b, s).drop_last() =~= scaled(b.drop_last(), s));
        assert(scaled(b, s).last() == (e.0, e.1.mul_spec(s)));
        assert(keys(scaled(m, s)) =~= keys(m));
        let p = first_index_of(keys(m), e.0);
        lemma_first_index_of(keys(m), e.0);
        if p >= 0 {
            assert(scaled(accumulate(m, e), s) =~= accumulate(scaled(m, s), (e.0, e.1.mul_spec(s))));
        } else {
            assert(scaled(accumulate(m, e), s) =~= accumulate(scaled(m, s), (e.0, e.1.mul_spec(s))));
        }
    }
}

/// Scaling a sum of two terms of one grade equals summing the scaled terms,
/// entry by entry, where scaling distributes over coefficient addition.
pub proof fn scale_distributes<T: core::ops::Add<Output = T> + core::ops::Mul<S, Output = T>, S>(
    s: S,
    a: GATerm<T>,
    b: GATerm<T>,
)
    requires
        a.spec_grade() == b.spec_grade(),
        forall|x: T, y: T| #[trigger] x.add_spec(y).mul_spec(s) == x.mul_spec(s).add_spec(y.mul_spec(s)),
    ensures
        scaled(merge(a.entries(), b.entries()), s) == merge(scaled(a.entries(), s), scaled(b.entries(), s)),
{
    lemma_scaled_merge(a.entries(), b.entries(), s);
}

} // verus!
