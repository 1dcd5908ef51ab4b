//! Structure-preserving maps, filters and folds over coefficients.
use vstd::prelude::*;
use crate::ga_term::{
    blade_entry, bivector_entry, trivector_entry, vector_entry, BladeTerm, Entry, GATerm, Index,
};
use crate::merge::keys;
use crate::pattern_matching::operations::{copy_blade, copy_vec};

verus! {

/// The elements of `es` whose flag in `bs` is set, in order.
pub open spec fn kept<E>(es: Seq<E>, bs: Seq<bool>) -> Seq<E>
    decreases es.len(),
{
    if es.len() == 0 || bs.len() == 0 {
        Seq::empty()
    } else {
        let rest = kept(es.drop_last(), bs.drop_last());
        if bs.last() {
            rest.push(es.last())
        } else {
            rest
        }
    }
}

proof fn lemma_kept_step<E>(es: Seq<E>, bs: Seq<bool>, i: int, b: bool)
    requires
        0 <= i < es.len(),
        bs.len() == i,
    ensures
        kept(es.take(i + 1), bs.push(b)) == if b {
            kept(es.take(i), bs).push(es[i])
        } else {
            kept(es.take(i), bs)
        },
{
    assert(es.take(i + 1).drop_last() =~= es.take(i));
    assert(bs.push(b).drop_last() =~= bs);
}

/// Apply `f` to every coefficient, keeping the shape and the keys.
pub fn map<T, U, F: Fn(&T) -> U>(term: &GATerm<T>, f: F) -> (r: GATerm<U>)
    requires
        forall|i: int| 0 <= i < term.entries().len() ==> f.requires((&term.entries()[i].1,)),
    ensures
        r.spec_grade() == term.spec_grade(),
        keys(r.entries()) == keys(term.entries()),
        forall|i: int| 0 <= i < term.entries().len() ==> f.ensures((&term.entries()[i].1,), #[trigger] r.entries()[i].1),
{
    match term {
        GATerm::Scalar(s) => {
            assert(term.entries()[0].1 == s.value);
            let r = GATerm::scalar(f(&s.value));
            assert(keys(r.entries()) =~= keys(term.entries()));
            r
        }
        GATerm::Vector(v) => {
            let ghost es = term.entries();
            assert(es == v@.map_values(|e: (Index, T)| vector_entry(e)));
            assert forall|q: int| 0 <= q < v.len() implies f.requires((&v@[q].1,)) by {
                assert(es[q] == vector_entry(v@[q]));
            }
            let mut out: Vec<(Index, U)> = Vec::new();
            let mut i: usize = 0;
            while i < v.len()
                invariant
                    i <= v.len(),
                    es == term.entries(),
                    es == v@.map_values(|e: (Index, T)| vector_entry(e)),
                    forall|q: int| 0 <= q < v.len() ==> f.requires((&v@[q].1,)),
                    out.len() == i,
                    forall|q: int| 0 <= q < i ==> (#[trigger] out@[q]).0 == v@[q].0 && f.ensures((&v@[q].1,), out@[q].1),
                decreases v.len() - i,
            {
                proof { assert(term.entries()[i as int] == vector_entry(v@[i as int])); }
                let e = &v[i];
                out.push((e.0, f(&e.1)));
                i += 1;
            }
            let r = GATerm::vector(out);
            assert(keys(r.entries()) =~= keys(term.entries()));
            r
        }
        GATerm::Bivector(v) => {
            let ghost es = term.entries();
            assert(es == v@.map_values(|e: (Index, Index, T)| bivector_entry(e)));
            assert forall|q: int| 0 <= q < v.len() implies f.requires((&v@[q].2,)) by {
                assert(es[q] == bivector_entry(v@[q]));
            }
            let mut out: Vec<(Index, Index, U)> = Vec::new();
            let mut i: usize = 0;
            while i < v.len()
                invariant
                    i <= v.len(),
                    es == term.entries(),
                    es == v@.map_values(|e: (Index, Index, T)| bivector_entry(e)),
                    forall|q: int| 0 <= q < v.len() ==> f.requires((&v@[q].2,)),
                    out.len() == i,
                    forall|q: int| 0 <= q < i ==> (#[trigger] out@[q]).0 == v@[q].0 && out@[q].1 == v@[q].1 && f.ensures((&v@[q].2,), out@[q].2),
                decreases v.len() - i,
            {
                proof { assert(term.entries()[i as int] == bivector_entry(v@[i as int])); }
                let e = &v[i];
                out.push((e.0, e.1, f(&e.2)));
                i += 1;
            }
            let r = GATerm::bivector(out);
            assert(keys(r.entries()) =~= keys(term.entries()));
            r
        }
        GATerm::Trivector(v) => {
            let ghost es = term.entries();
            assert(es == v@.map_values(|e: (Index, Index, Index, T)| trivector_entry(e)));
            assert forall|q: int| 0 <= q < v.len() implies f.requires((&v@[q].3,)) by {
                assert(es[q] == trivector_entry(v@[q]));
            }
            let mut out: Vec<(Index, Index, Index, U)> = Vec::new();
            let mut i: usize = 0;
            while i < v.len()
                invariant
                    i <= v.len(),
                    es == term.entries(),
                    es == v@.map_values(|e: (Index, Index, Index, T)| trivector_entry(e)),
                    forall|q: int| 0 <= q < v.len() ==> f.requires((&v@[q].3,)),
                    out.len() == i,
                    forall|q: int| 0 <= q < i ==> (#[trigger] out@[q]).0 == v@[q].0 && out@[q].1 == v@[q].1 && out@[q].2 == v@[q].2 && f.ensures((&v@[q].3,), out@[q].3),
                decreases v.len() - i,
            {
                proof { assert(term.entries()[i as int] == trivector_entry(v@[i as int])); }
                let e = &v[i];
                out.push((e.0, e.1, e.2, f(&e.3)));
                i += 1;
            }
            let r = GATerm::trivector(out);
            assert(keys(r.entries()) =~= keys(term.entries()));
            r
        }
        GATerm::Multivector(v) => {
            let ghost es = term.entries();
            assert(es == v@.map_values(|e: BladeTerm<T>| blade_entry(e)));
            assert forall|q: int| 0 <= q < v.len() implies f.requires((&v@[q].coefficient,)) by {
                assert(es[q] == blade_entry(v@[q]));
            }
            let mut out: Vec<BladeTerm<U>> = Vec::new();
            let mut i: usize = 0;
            while i < v.len()
                invariant
                    i <= v.len(),
                    es == term.entries(),
                    es == v@.map_values(|e: BladeTerm<T>| blade_entry(e)),
                    forall|q: int| 0 <= q < v.len() ==> f.requires((&v@[q].coefficient,)),
                    out.len() == i,
                    forall|q: int| 0 <= q < i ==> (#[trigger] out@[q]).indices@ == v@[q].indices@ && f.ensures((&v@[q].coefficient,), out@[q].coefficient),
                decreases v.len() - i,
            {
                proof { assert(term.entries()[i as int] == blade_entry(v@[i as int])); }
                let e = &v[i];
                out.push(BladeTerm::new(copy_vec(&e.indices), f(&e.coefficient)));
                i += 1;
            }
            let r = GATerm::multivector(out);
            assert(keys(r.entries()) =~= keys(term.entries()));
            r
        }
    }
}

/// Keep the coefficients for which `predicate` holds; a scalar is returned
/// unchanged.
pub fn filter<T: Copy, P: Fn(&T) -> bool>(term: &GATerm<T>, predicate: P) -> (r: GATerm<T>)
    requires
        forall|i: int| 0 <= i < term.entries().len() ==> predicate.requires((&term.entries()[i].1,)),
    ensures
        r.spec_grade() == term.spec_grade(),
        term is Scalar ==> r.entries() == term.entries(),
        !(term is Scalar) ==> exists|bs: Seq<bool>|
            bs.len() == term.entries().len()
            && (forall|i: int| 0 <= i < bs.len() ==> predicate.ensures((&term.entries()[i].1,), #[trigger] bs[i]))
            && r.entries() == kept(term.entries(), bs),
{
    match term {
        GATerm::Scalar(s) => GATerm::scalar(s.value),
        GATerm::Vector(v) => {
            let ghost es = term.entries();
            let ghost mut bs: Seq<bool> = Seq::empty();
            assert(es == v@.map_values(|e: (Index, T)| vector_entry(e)));
            assert forall|q: int| 0 <= q < v.len() implies predicate.requires((&v@[q].1,)) by {
                assert(es[q] == vector_entry(v@[q]));
            }
            let mut out: Vec<(Index, T)> = Vec::new();
            let mut i: usize = 0;
            assert(es.take(0) =~= Seq::<Entry<T>>::empty());
            assert(out@.map_values(|e: (Index, T)| vector_entry(e)) =~= Seq::<Entry<T>>::empty());
            while i < v.len()
                invariant
                    i <= v.len(),
                    es == term.entries(),
                    es == v@.map_values(|e: (Index, T)| vector_entry(e)),
                    forall|q: int| 0 <= q < v.len() ==> predicate.requires((&v@[q].1,)),
                    bs.len() == i,
                    forall|q: int| 0 <= q < i ==> predicate.ensures((&v@[q].1,), #[trigger] bs[q]),
                    out@.map_values(|e: (Index, T)| vector_entry(e)) == kept(es.take(i as int), bs),
                decreases v.len() - i,
            {
                let e = &v[i];
                let b = predicate(&e.1);
                proof {
                    assert(es[i as int] == vector_entry(v@[i as int]));
                    lemma_kept_step(es, bs, i as int, b);
                }
                let ghost old_out = out@;
                if b {
                    out.push(*e);
                    assert(out@.map_values(|e: (Index, T)| vector_entry(e)) =~= old_out.map_values(|e: (Index, T)| vector_entry(e)).push(es[i as int]));
                }
                proof { bs = bs.push(b); }
                i += 1;
            }
            assert(es.take(v.len() as int) =~= es);
            GATerm::vector(out)
        }
        GATerm::Bivector(v) => {
            let ghost es = term.entries();
            let ghost mut bs: Seq<bool> = Seq::empty();
            assert(es == v@.map_values(|e: (Index, Index, T)| bivector_entry(e)));
            assert forall|q: int| 0 <= q < v.len() implies predicate.requires((&v@[q].2,)) by {
                assert(es[q] == bivector_entry(v@[q]));
            }
            let mut out: Vec<(Index, Index, T)> = Vec::new();
            let mut i: usize = 0;
            assert(es.take(0) =~= Seq::<Entry<T>>::empty());
            assert(out@.map_values(|e: (Index, Index, T)| bivector_entry(e)) =~= Seq::<Entry<T>>::empty());
            while i < v.len()
                invariant
                    i <= v.len(),
                    es == term.entries(),
                    es == v@.map_values(|e: (Index, Index, T)| bivector_entry(e)),
                    forall|q: int| 0 <= q < v.len() ==> predicate.requires((&v@[q].2,)),
                    bs.len() == i,
                    forall|q: int| 0 <= q < i ==> predicate.ensures((&v@[q].2,), #[trigger] bs[q]),
                    out@.map_values(|e: (Index, Index, T)| bivector_entry(e)) == kept(es.take(i as int), bs),
                decreases v.len() - i,
            {
                let e = &v[i];
                let b = predicate(&e.2);
                proof {
                    assert(es[i as int] == bivector_entry(v@[i as int]));
                    lemma_kept_step(es, bs, i as int, b);
                }
                let ghost old_out = out@;
                if b {
                    out.push(*e);
                    assert(out@.map_values(|e: (Index, Index, T)| bivector_entry(e)) =~= old_out.map_values(|e: (Index, Index, T)| bivector_entry(e)).push(es[i as int]));
                }
                proof { bs = bs.push(b); }
                i += 1;
            }
            assert(es.take(v.len() as int) =~= es);
            GATerm::bivector(out)
        }
        GATerm::Trivector(v) => {
            let ghost es = term.entries();
            let ghost mut bs: Seq<bool> = Seq::empty();
            assert(es == v@.map_values(|e: (Index, Index, Index, T)| trivector_entry(e)));
            assert forall|q: int| 0 <= q < v.len() implies predicate.requires((&v@[q].3,)) by {
                assert(es[q] == trivector_entry(v@[q]));
            }
            let mut out: Vec<(Index, Index, Index, T)> = Vec::new();
            let mut i: usize = 0;
            assert(es.take(0) =~= Seq::<Entry<T>>::empty());
            assert(out@.map_values(|e: (Index, Index, Index, T)| trivector_entry(e)) =~= Seq::<Entry<T>>::empty());
            while i < v.len()
                invariant
                    i <= v.len(),
                    es == term.entries(),
                    es == v@.map_values(|e: (Index, Index, Index, T)| trivector_entry(e)),
                    forall|q: int| 0 <= q < v.len() ==> predicate.requires((&v@[q].3,)),
                    bs.len() == i,
                    forall|q: int| 0 <= q < i ==> predicate.ensures((&v@[q].3,), #[trigger] bs[q]),
                    out@.map_values(|e: (Index, Index, Index, T)| trivector_entry(e)) == kept(es.take(i as int), bs),
                decreases v.len() - i,
            {
                let e = &v[i];
                let b = predicate(&e.3);
                proof {
                    assert(es[i as int] == trivector_entry(v@[i as int]));
                    lemma_kept_step(es, bs, i as int, b);
                }
                let ghost old_out = out@;
                if b {
                    out.push(*e);
                    assert(out@.map_values(|e: (Index, Index, Index, T)| trivector_entry(e)) =~= old_out.map_values(|e: (Index, Index, Index, T)| trivector_entry(e)).push(es[i as int]));
                }
                proof { bs = bs.push(b); }
                i += 1;
            }
            assert(es.take(v.len() as int) =~= es);
            GATerm::trivector(out)
        }
        GATerm::Multivector(v) => {
            let ghost es = term.entries();
            let ghost mut bs: Seq<bool> = Seq::empty();
            assert(es == v@.map_values(|e: BladeTerm<T>| blade_entry(e)));
            assert forall|q: int| 0 <= q < v.len() implies predicate.requires((&v@[q].coefficient,)) by {
                assert(es[q] == blade_entry(v@[q]));
            }
            let mut out: Vec<BladeTerm<T>> = Vec::new();
            let mut i: usize = 0;
            assert(es.take(0) =~= Seq::<Entry<T>>::empty());
            assert(out@.map_values(|e: BladeTerm<T>| blade_entry(e)) =~= Seq::<Entry<T>>::empty());
            while i < v.len()
                invariant
                    i <= v.len(),
                    es == term.entries(),
                    es == v@.map_values(|e: BladeTerm<T>| blade_entry(e)),
                    forall|q: int| 0 <= q < v.len() ==> predicate.requires((&v@[q].coefficient,)),
                    bs.len() == i,
                    forall|q: int| 0 <= q < i ==> predicate.ensures((&v@[q].coefficient,), #[trigger] bs[q]),
                    out@.map_values(|e: BladeTerm<T>| blade_entry(e)) == kept(es.take(i as int), bs),
                decreases v.len() - i,
            {
                let e = &v[i];
                let b = predicate(&e.coefficient);
                proof {
                    assert(es[i as int] == blade_entry(v@[i as int]));
                    lemma_kept_step(es, bs, i as int, b);
                }
                let ghost old_out = out@;
                if b {
                    out.push(copy_blade(e));
                    assert(out@.map_values(|e: BladeTerm<T>| blade_entry(e)) =~= old_out.map_values(|e: BladeTerm<T>| blade_entry(e)).push(es[i as int]));
                }
                proof { bs = bs.push(b); }
                i += 1;
            }
            assert(es.take(v.len() as int) =~= es);
            GATerm::multivector(out)
        }
    }
}

/// Combine every coefficient, in order, into an accumulator starting at `initial`.
pub fn fold<T, Acc, F: Fn(Acc, &T) -> Acc>(term: &GATerm<T>, initial: Acc, f: F) -> (r: Acc)
    requires
        forall|i: int, acc: Acc| 0 <= i < term.entries().len() ==> #[trigger] f.requires((acc, &term.entries()[i].1)),
    ensures
        exists|accs: Seq<Acc>|
            accs.len() == term.entries().len() + 1
            && accs[0] == initial
            && accs.last() == r
            && forall|i: int| 0 <= i < term.entries().len() ==> f.ensures((accs[i], &term.entries()[i].1), #[trigger] accs[i + 1]),
{
    match term {
        GATerm::Scalar(s) => {
            assert(term.entries()[0].1 == s.value);
            let r = f(initial, &s.value);
            assert(seq![initial, r].last() == r);
            r
        }
        GATerm::Vector(v) => {
            let ghost es = term.entries();
            let ghost mut accs: Seq<Acc> = seq![initial];
            assert(es == v@.map_values(|e: (Index, T)| vector_entry(e)));
            assert forall|q: int, a: Acc| 0 <= q < v.len() implies f.requires((a, &v@[q].1)) by {
                assert(es[q] == vector_entry(v@[q]));
                assert(f.requires((a, &term.entries()[q].1)));
            }
            let mut acc = initial;
            let mut i: usize = 0;
            while i < v.len()
                invariant
                    i <= v.len(),
                    es == term.entries(),
                    es == v@.map_values(|e: (Index, T)| vector_entry(e)),
                    forall|q: int, a: Acc| 0 <= q < v.len() ==> f.requires((a, &v@[q].1)),
                    accs.len() == i + 1,
                    accs[0] == initial,
                    accs.last() == acc,
                    forall|q: int| 0 <= q < i ==> f.ensures((accs[q], &v@[q].1), #[trigger] accs[q + 1]),
                decreases v.len() - i,
            {
                proof { assert(es[i as int] == vector_entry(v@[i as int])); }
                let e = &v[i];
                acc = f(acc, &e.1);
                proof { accs = accs.push(acc); }
                i += 1;
            }
            acc
        }
        GATerm::Bivector(v) => {
            let ghost es = term.entries();
            let ghost mut accs: Seq<Acc> = seq![initial];
            assert(es == v@.map_values(|e: (Index, Index, T)| bivector_entry(e)));
            assert forall|q: int, a: Acc| 0 <= q < v.len() implies f.requires((a, &v@[q].2)) by {
                assert(es[q] == bivector_entry(v@[q]));
                assert(f.requires((a, &term.entries()[q].1)));
            }
            let mut acc = initial;
            let mut i: usize = 0;
            while i < v.len()
                invariant
                    i <= v.len(),
                    es == term.entries(),
                    es == v@.map_values(|e: (Index, Index, T)| bivector_entry(e)),
                    forall|q: int, a: Acc| 0 <= q < v.len() ==> f.requires((a, &v@[q].2)),
                    accs.len() == i + 1,
                    accs[0] == initial,
                    accs.last() == acc,
                    forall|q: int| 0 <= q < i ==> f.ensures((accs[q], &v@[q].2), #[trigger] accs[q + 1]),
                decreases v.len() - i,
            {
                proof { assert(es[i as int] == bivector_entry(v@[i as int])); }
                let e = &v[i];
                acc = f(acc, &e.2);
                proof { accs = accs.push(acc); }
                i += 1;
            }
            acc
        }
        GATerm::Trivector(v) => {
            let ghost es = term.entries();
            let ghost mut accs: Seq<Acc> = seq![initial];
            assert(es == v@.map_values(|e: (Index, Index, Index, T)| trivector_entry(e)));
            assert forall|q: int, a: Acc| 0 <= q < v.len() implies f.requires((a, &v@[q].3)) by {
                assert(es[q] == trivector_entry(v@[q]));
                assert(f.requires((a, &term.entries()[q].1)));
            }
            let mut acc = initial;
            let mut i: usize = 0;
            while i < v.len()
                invariant
                    i <= v.len(),
                    es == term.entries(),
                    es == v@.map_values(|e: (Index, Index, Index, T)| trivector_entry(e)),
                    forall|q: int, a: Acc| 0 <= q < v.len() ==> f.requires((a, &v@[q].3)),
                    accs.len() == i + 1,
                    accs[0] == initial,
                    accs.last() == acc,
                    forall|q: int| 0 <= q < i ==> f.ensures((accs[q], &v@[q].3), #[trigger] accs[q + 1]),
                decreases v.len() - i,
            {
                proof { assert(es[i as int] == trivector_entry(v@[i as int])); }
                let e = &v[i];
                acc = f(acc, &e.3);
                proof { accs = accs.push(acc); }
                i += 1;
            }
            acc
        }
        GATerm::Multivector(v) => {
            let ghost es = term.entries();
            let ghost mut accs: Seq<Acc> = seq![initial];
            assert(es == v@.map_values(|e: BladeTerm<T>| blade_entry(e)));
            assert forall|q: int, a: Acc| 0 <= q < v.len() implies f.requires((a, &v@[q].coefficient)) by {
                assert(es[q] == blade_entry(v@[q]));
                assert(f.requires((a, &term.entries()[q].1)));
            }
            let mut acc = initial;
            let mut i: usize = 0;
            while i < v.len()
                invariant
                    i <= v.len(),
                    es == term.entries(),
                    es == v@.map_values(|e: BladeTerm<T>| blade_entry(e)),
                    forall|q: int, a: Acc| 0 <= q < v.len() ==> f.requires((a, &v@[q].coefficient)),
                    accs.len() == i + 1,
                    accs[0] == initial,
                    accs.last() == acc,
                    forall|q: int| 0 <= q < i ==> f.ensures((accs[q], &v@[q].coefficient), #[trigger] accs[q + 1]),
                decreases v.len() - i,
            {
                proof { assert(es[i as int] == blade_entry(v@[i as int])); }
                let e = &v[i];
                acc = f(acc, &e.coefficient);
                proof { accs = accs.push(acc); }
                i += 1;
            }
            acc
        }
    }
}

} // verus!
