//! Result grades of the outer, inner and geometric products.
use vstd::prelude::*;
use crate::ga_term::Grade;

verus! {

/// Grade of an outer product: `g1 + g2`, or general above 3.
pub open spec fn outer_grade(g1: int, g2: int) -> Grade {
    Grade::of_arity(g1 + g2)
}

/// Grade of an inner product: `|g1 - g2|`, or general above 3.
pub open spec fn inner_grade(g1: int, g2: int) -> Grade {
    Grade::of_arity(if g1 >= g2 { g1 - g2 } else { g2 - g1 })
}

/// Grades that can appear in a geometric product of grades `g1` and `g2`.
pub open spec fn geometric_grades(g1: int, g2: int) -> Seq<Grade> {
    if g1 == 0 {
        seq![Grade::of_arity(g2)]
    } else if g2 == 0 {
        seq![Grade::of_arity(g1)]
    } else if g1 == g2 && g1 <= 3 {
        seq![Grade::Scalar, Grade::Bivector]
    } else if (g1 == 1 && g2 == 2) || (g1 == 2 && g2 == 1) {
        seq![Grade::Vector, Grade::Trivector]
    } else if (g1 == 1 && g2 == 3) || (g1 == 3 && g2 == 1) {
        seq![Grade::Bivector]
    } else if (g1 == 2 && g2 == 3) || (g1 == 3 && g2 == 2) {
        seq![Grade::Vector]
    } else {
        seq![Grade::Multivector]
    }
}

pub fn geometric_product_grades(g1: u8, g2: u8) -> (r: Vec<Grade>)
    ensures
        r@ == geometric_grades(g1 as int, g2 as int),
{
    match (g1, g2) {
        (0, g) | (g, 0) => vec![Grade::from_arity(g as usize)],
        (1, 1) | (2, 2) | (3, 3) => vec![Grade::Scalar, Grade::Bivector],
        (1, 2) | (2, 1) => vec![Grade::Vector, Grade::Trivector],
        (1, 3) | (3, 1) => vec![Grade::Bivector],
        (2, 3) | (3, 2) => vec![Grade::Vector],
        _ => vec![Grade::Multivector],
    }
}

pub fn outer_product_grade(g1: u8, g2: u8) -> (r: Grade)
    ensures
        r == outer_grade(g1 as int, g2 as int),
{
    Grade::from_arity(g1 as usize + g2 as usize)
}

pub fn inner_product_grade(g1: u8, g2: u8) -> (r: Grade)
    ensures
        r == inner_grade(g1 as int, g2 as int),
{
    let d: u8 = if g1 >= g2 { g1 - g2 } else { g2 - g1 };
    Grade::from_arity(d as usize)
}

} // verus!
