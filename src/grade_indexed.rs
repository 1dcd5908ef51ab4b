//! Values whose grade is fixed in their type by a const parameter.
use vstd::prelude::*;
use vstd::std_specs::ops::{AddSpec, MulSpec};
use core::marker::PhantomData;
use crate::ga_term::{Grade, Index};

verus! {

/// Marker carrying a grade as a const parameter.
#[derive(Debug, Clone, Copy, PartialEq, Eq)]
pub struct GradeMarker<const G: u8>;

/// A value tagged with grade `G` in its type, so that only values of equal
/// grade can be added.
#[derive(Debug, Clone, PartialEq)]
pub struct GradeIndexed<T, const G: u8> {
    pub value: T,
    pub marker: GradeMarker<G>,
}

impl<T, const G: u8> GradeIndexed<T, G> {
    pub fn new(value: T) -> (r: Self)
        ensures
            r.value == value,
    {
        GradeIndexed { value, marker: GradeMarker }
    }

    /// The grade that `G` names (anything above 3 is a general multivector).
    pub fn grade(&self) -> (r: Grade)
        ensures
            r == Grade::of_arity(G as int),
    {
        Grade::from_arity(G as usize)
    }

    pub fn grade_const() -> (r: u8)
        ensures
            r == G,
    {
        G
    }

    pub fn into_inner(self) -> (r: T)
        ensures
            r == self.value,
    {
        self.value
    }

    pub fn as_ref(&self) -> (r: &T)
        ensures
            *r == self.value,
    {
        &self.value
    }

    pub fn as_mut(&mut self) -> (r: &mut T)
        ensures
            *r == old(self).value,
            final(self).value == *final(r),
    {
        &mut self.value
    }
}

impl<T, const G: u8> From<T> for GradeIndexed<T, G> {
    fn from(value: T) -> (r: Self) {
        GradeIndexed::new(value)
    }
}

impl<T, const G: u8> vstd::std_specs::convert::FromSpecImpl<T> for GradeIndexed<T, G> {
    open spec fn obeys_from_spec() -> bool {
        true
    }

    open spec fn from_spec(v: T) -> Self {
        GradeIndexed { value: v, marker: GradeMarker }
    }
}

/// Addition: only values of the same grade can be added.
impl<T: core::ops::Add<Output = T>, const G: u8> core::ops::Add for GradeIndexed<T, G> {
    type Output = GradeIndexed<T, G>;

    fn add(self, rhs: Self) -> (r: Self::Output) {
        GradeIndexed::new(self.value + rhs.value)
    }
}

impl<T: core::ops::Add<Output = T>, const G: u8> vstd::std_specs::ops::AddSpecImpl for GradeIndexed<T, G> {
    open spec fn obeys_add_spec() -> bool {
        T::obeys_add_spec()
    }

    open spec fn add_req(self, rhs: Self) -> bool {
        self.value.add_req(rhs.value)
    }

    open spec fn add_spec(self, rhs: Self) -> Self {
        GradeIndexed { value: self.value.add_spec(rhs.value), marker: GradeMarker }
    }
}

/// Scaling by a scalar keeps the grade.
impl<T: core::ops::Mul<S, Output = T>, S: Copy, const G: u8> core::ops::Mul<S> for GradeIndexed<T, G> {
    type Output = GradeIndexed<T, G>;

    fn mul(self, rhs: S) -> (r: Self::Output) {
        GradeIndexed::new(self.value * rhs)
    }
}

impl<T: core::ops::Mul<S, Output = T>, S: Copy, const G: u8> vstd::std_specs::ops::MulSpecImpl<S> for GradeIndexed<T, G> {
    open spec fn obeys_mul_spec() -> bool {
        <T as MulSpec<S>>::obeys_mul_spec()
    }

    open spec fn mul_req(self, rhs: S) -> bool {
        self.value.mul_req(rhs)
    }

    open spec fn mul_spec(self, rhs: S) -> Self {
        GradeIndexed { value: self.value.mul_spec(rhs), marker: GradeMarker }
    }
}

pub type ScalarType<T> = GradeIndexed<T, 0>;

pub type VectorType<T> = GradeIndexed<Vec<(Index, T)>, 1>;

pub type BivectorType<T> = GradeIndexed<Vec<(Index, Index, T)>, 2>;

pub type TrivectorType<T> = GradeIndexed<Vec<(Index, Index, Index, T)>, 3>;

impl<T> GradeIndexed<T, 0> {
    pub fn scalar(value: T) -> (r: Self)
        ensures
            r.value == value,
    {
        Self::new(value)
    }
}

impl<T> GradeIndexed<Vec<(Index, T)>, 1> {
    pub fn vector(components: Vec<(Index, T)>) -> (r: Self)
        ensures
            r.value == components,
    {
        Self::new(components)
    }
}

impl<T> GradeIndexed<Vec<(Index, Index, T)>, 2> {
    pub fn bivector(components: Vec<(Index, Index, T)>) -> (r: Self)
        ensures
            r.value == components,
    {
        Self::new(components)
    }
}

impl<T> GradeIndexed<Vec<(Index, Index, Index, T)>, 3> {
    pub fn trivector(components: Vec<(Index, Index, Index, T)>) -> (r: Self)
        ensures
            r.value == components,
    {
        Self::new(components)
    }
}

/// Types whose grade is part of the type.
pub trait IsGradeIndexed {
    const GRADE: u8;

    /// The grade that `GRADE` names.
    fn grade(&self) -> (r: Grade)
        ensures
            r == Grade::of_arity(Self::GRADE as int),
    {
        Grade::from_arity(Self::GRADE as usize)
    }
}

impl<T, const G: u8> IsGradeIndexed for GradeIndexed<T, G> {
    const GRADE: u8 = G;
}

/// Grade predicates on a const grade parameter.
pub struct GradeChecker<T> {
    _phantom: PhantomData<T>,
}

impl<T> GradeChecker<T> {
    pub fn is_scalar<const G: u8>() -> (r: bool)
        ensures
            r == (G == 0),
    {
        G == 0
    }

    pub fn is_vector<const G: u8>() -> (r: bool)
        ensures
            r == (G == 1),
    {
        G == 1
    }

    pub fn is_bivector<const G: u8>() -> (r: bool)
        ensures
            r == (G == 2),
    {
        G == 2
    }

    pub fn is_trivector<const G: u8>() -> (r: bool)
        ensures
            r == (G == 3),
    {
        G == 3
    }

    pub fn is_multivector<const G: u8>() -> (r: bool)
        ensures
            r == (G > 3),
    {
        G > 3
    }
}

} // verus!
