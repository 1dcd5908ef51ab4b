//! Operations whose operand grades are checked by the type system.
use vstd::prelude::*;
use vstd::std_specs::ops::{AddSpec, MulSpec};
use crate::grade_indexed::GradeIndexed;

verus! {

/// Sum of two values of the same grade `G`.
pub fn add<T: core::ops::Add<Output = T>, const G: u8>(
    lhs: GradeIndexed<T, G>,
    rhs: GradeIndexed<T, G>,
) -> (r: GradeIndexed<T, G>)
    requires
        lhs.value.add_req(rhs.value),
    ensures
        T::obeys_add_spec() ==> r.value == lhs.value.add_spec(rhs.value),
{
    GradeIndexed::new(lhs.into_inner() + rhs.into_inner())
}

/// A value of grade `G` scaled by `scalar`; the grade is kept.
pub fn scalar_multiply<T: core::ops::Mul<S, Output = T>, S, const G: u8>(
    scalar: S,
    operand: GradeIndexed<T, G>,
) -> (r: GradeIndexed<T, G>)
    requires
        operand.value.mul_req(scalar),
    ensures
        <T as MulSpec<S>>::obeys_mul_spec() ==> r.value == operand.value.mul_spec(scalar),
{
    GradeIndexed::new(operand.into_inner() * scalar)
}

} // verus!
