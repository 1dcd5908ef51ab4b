//! Dispatch on the shape of a term.
pub mod combinators;
pub mod operations;
pub mod text;

use vstd::prelude::*;
use crate::ga_term::{BladeTerm, GATerm, Index, Scalar};

verus! {

/// Hand the payload of `term` to the handler for its shape.
pub fn match_gaterm<T, R, SF, VF, BF, TF, MF>(
    term: &GATerm<T>,
    scalar_handler: SF,
    vector_handler: VF,
    bivector_handler: BF,
    trivector_handler: TF,
    multivector_handler: MF,
) -> (r: R) where
    SF: FnOnce(&Scalar<T>) -> R,
    VF: FnOnce(&Vec<(Index, T)>) -> R,
    BF: FnOnce(&Vec<(Index, Index, T)>) -> R,
    TF: FnOnce(&Vec<(Index, Index, Index, T)>) -> R,
    MF: FnOnce(&Vec<BladeTerm<T>>) -> R,

    requires
        term matches GATerm::Scalar(s) ==> scalar_handler.requires((&s,)),
        term matches GATerm::Vector(v) ==> vector_handler.requires((&v,)),
        term matches GATerm::Bivector(b) ==> bivector_handler.requires((&b,)),
        term matches GATerm::Trivector(t) ==> trivector_handler.requires((&t,)),
        term matches GATerm::Multivector(m) ==> multivector_handler.requires((&m,)),
    ensures
        term matches GATerm::Scalar(s) ==> scalar_handler.ensures((&s,), r),
        term matches GATerm::Vector(v) ==> vector_handler.ensures((&v,), r),
        term matches GATerm::Bivector(b) ==> bivector_handler.ensures((&b,), r),
        term matches GATerm::Trivector(t) ==> trivector_handler.ensures((&t,), r),
        term matches GATerm::Multivector(m) ==> multivector_handler.ensures((&m,), r),
{
    match term {
        GATerm::Scalar(scalar) => scalar_handler(scalar),
        GATerm::Vector(vector) => vector_handler(vector),
        GATerm::Bivector(bivector) => bivector_handler(bivector),
        GATerm::Trivector(trivector) => trivector_handler(trivector),
        GATerm::Multivector(multivector) => multivector_handler(multivector),
    }
}

/// A computation with one case per shape of term.
pub trait GATermVisitor<T, R> {
    fn visit_scalar(&self, scalar: &Scalar<T>) -> R;

    fn visit_vector(&self, vector: &Vec<(Index, T)>) -> R;

    fn visit_bivector(&self, bivector: &Vec<(Index, Index, T)>) -> R;

    fn visit_trivector(&self, trivector: &Vec<(Index, Index, Index, T)>) -> R;

    fn visit_multivector(&self, multivector: &Vec<BladeTerm<T>>) -> R;
}

/// Run the visitor's case for the shape of `term`.
pub fn visit_gaterm<T, R, V: GATermVisitor<T, R>>(term: &GATerm<T>, visitor: &V) -> R {
    match term {
        GATerm::Scalar(scalar) => visitor.visit_scalar(scalar),
        GATerm::Vector(vector) => visitor.visit_vector(vector),
        GATerm::Bivector(bivector) => visitor.visit_bivector(bivector),
        GATerm::Trivector(trivector) => visitor.visit_trivector(trivector),
        GATerm::Multivector(multivector) => visitor.visit_multivector(multivector),
    }
}

} // verus!
