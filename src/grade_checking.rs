//! Which operations two grades admit, and the grade of their result.
pub mod grade_calc;
pub mod safe_ops;

use vstd::prelude::*;
use core::marker::PhantomData;
use crate::ga_term::Grade;
use crate::grade_indexed::GradeIndexed;
use crate::grade_checking::grade_calc::{inner_grade, outer_grade};

verus! {

/// Types that know their grade.
pub trait GradeValidator {
    const GRADE: u8;

    fn validate_grade(&self) -> bool {
        true
    }
}

/// Marker: the two operand types can be added.
pub trait CanAdd<Rhs = Self> {
    type Output;
}

/// Marker: the two operand types have a geometric product.
pub trait CanGeometricProduct<Rhs = Self> {
    type Output;
}

/// Marker: the two operand types have an outer product.
pub trait CanOuterProduct<Rhs = Self> {
    type Output;
}

/// Marker: the two operand types have an inner product.
pub trait CanInnerProduct<Rhs = Self> {
    type Output;
}

impl<T: core::ops::Add<Output = T>, const G: u8> CanAdd for GradeIndexed<T, G> {
    type Output = GradeIndexed<T, G>;
}

/// Which operations two grade-indexed operand types admit.
pub struct OperationValidator<T1, T2> {
    _phantom: PhantomData<(T1, T2)>,
}

impl<T1, T2, const G1: u8, const G2: u8> OperationValidator<GradeIndexed<T1, G1>, GradeIndexed<T2, G2>> {
    pub fn can_add() -> (r: bool)
        ensures
            r == (G1 == G2),
    {
        G1 == G2
    }

    pub fn can_multiply() -> (r: bool)
        ensures
            r,
    {
        true
    }

    pub fn can_outer_product() -> (r: bool)
        ensures
            r,
    {
        true
    }

    pub fn can_inner_product() -> (r: bool)
        ensures
            r,
    {
        true
    }

    pub fn outer_product_grade() -> (r: Grade)
        ensures
            r == outer_grade(G1 as int, G2 as int),
    {
        grade_calc::outer_product_grade(G1, G2)
    }

    pub fn inner_product_grade() -> (r: Grade)
        ensures
            r == inner_grade(G1 as int, G2 as int),
    {
        grade_calc::inner_product_grade(G1, G2)
    }
}

/// Grade queries on a grade-indexed type.
pub struct TypeInspector<T> {
    _phantom: PhantomData<T>,
}

impl<T, const G: u8> TypeInspector<GradeIndexed<T, G>> {
    pub fn is_grade_indexed() -> (r: bool)
        ensures
            r,
    {
        true
    }

    pub fn grade() -> (r: u8)
        ensures
            r == G,
    {
        G
    }

    pub fn is_scalar() -> (r: bool)
        ensures
            r == (G == 0),
    {
        G == 0
    }

    pub fn is_vector() -> (r: bool)
        ensures
            r == (G == 1),
    {
        G == 1
    }

    pub fn is_bivector() -> (r: bool)
        ensures
            r == (G == 2),
    {
        G == 2
    }

    pub fn is_trivector() -> (r: bool)
        ensures
            r == (G == 3),
    {
        G == 3
    }

    pub fn is_multivector() -> (r: bool)
        ensures
            r == (G > 3),
    {
        G > 3
    }
}

/// The operation table of two grades given as const parameters.
pub struct OperationMatrix<const G1: u8, const G2: u8>;

impl<const G1: u8, const G2: u8> OperationMatrix<G1, G2> {
    pub fn can_add() -> (r: bool)
        ensures
            r == (G1 == G2),
    {
        G1 == G2
    }

    pub fn can_geometric_product() -> (r: bool)
        ensures
            r,
    {
        true
    }

    pub fn can_outer_product() -> (r: bool)
        ensures
            r,
    {
        true
    }

    pub fn can_inner_product() -> (r: bool)
        ensures
            r,
    {
        true
    }

    pub fn outer_product_result() -> (r: Grade)
        ensures
            r == outer_grade(G1 as int, G2 as int),
    {
        grade_calc::outer_product_grade(G1, G2)
    }

    pub fn inner_product_result() -> (r: Grade)
        ensures
            r == inner_grade(G1 as int, G2 as int),
    {
        grade_calc::inner_product_grade(G1, G2)
    }
}

} // verus!
