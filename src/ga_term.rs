//! Geometric-algebra terms as a sum type over the five grade shapes.
use vstd::prelude::*;
use vstd::std_specs::ops::{AddSpec, MulSpec};

verus! {

/// Index of a basis vector.
pub type Index = i32;

/// Grade of a geometric-algebra element.
#[derive(Debug, Clone, Copy, PartialEq, Eq, Structural)]
pub enum Grade {
    Scalar,
    Vector,
    Bivector,
    Trivector,
    /// General case: no single grade.
    Multivector,
}

impl Grade {
    /// The grade of a blade with `n` basis indices.
    pub open spec fn of_arity(n: int) -> Grade {
        if n == 0 {
            Grade::Scalar
        } else if n == 1 {
            Grade::Vector
        } else if n == 2 {
            Grade::Bivector
        } else if n == 3 {
            Grade::Trivector
        } else {
            Grade::Multivector
        }
    }

    /// Grade of a blade with `n` basis indices.
    pub fn from_arity(n: usize) -> (r: Grade)
        ensures
            r == Grade::of_arity(n as int),
    {
        match n {
            0 => Grade::Scalar,
            1 => Grade::Vector,
            2 => Grade::Bivector,
            3 => Grade::Trivector,
            _ => Grade::Multivector,
        }
    }
}

/// A single coefficient of grade zero.
#[derive(Debug, Clone, PartialEq)]
pub struct Scalar<T> {
    pub value: T,
}

impl<T> Scalar<T> {
    pub fn new(value: T) -> (r: Self)
        ensures
            r.value == value,
    {
        Scalar { value }
    }

    pub fn grade() -> (r: Grade)
        ensures
            r == Grade::Scalar,
    {
        Grade::Scalar
    }
}

impl<T> From<T> for Scalar<T> {
    fn from(value: T) -> (r: Self) {
        Scalar::new(value)
    }
}

impl<T> vstd::std_specs::convert::FromSpecImpl<T> for Scalar<T> {
    open spec fn obeys_from_spec() -> bool {
        true
    }

    open spec fn from_spec(v: T) -> Self {
        Scalar { value: v }
    }
}

impl<T: core::ops::Add<Output = T>> core::ops::Add for Scalar<T> {
    type Output = Scalar<T>;

    fn add(self, rhs: Self) -> (r: Self::Output) {
        Scalar::new(self.value + rhs.value)
    }
}

impl<T: core::ops::Add<Output = T>> vstd::std_specs::ops::AddSpecImpl for Scalar<T> {
    open spec fn obeys_add_spec() -> bool {
        T::obeys_add_spec()
    }

    open spec fn add_req(self, rhs: Self) -> bool {
        self.value.add_req(rhs.value)
    }

    open spec fn add_spec(self, rhs: Self) -> Self {
        Scalar { value: self.value.add_spec(rhs.value) }
    }
}

impl<T: core::ops::Mul<Output = T>> core::ops::Mul for Scalar<T> {
    type Output = Scalar<T>;

    fn mul(self, rhs: Self) -> (r: Self::Output) {
        Scalar::new(self.value * rhs.value)
    }
}

impl<T: core::ops::Mul<Output = T>> vstd::std_specs::ops::MulSpecImpl for Scalar<T> {
    open spec fn obeys_mul_spec() -> bool {
        T::obeys_mul_spec()
    }

    open spec fn mul_req(self, rhs: Self) -> bool {
        self.value.mul_req(rhs.value)
    }

    open spec fn mul_spec(self, rhs: Self) -> Self {
        Scalar { value: self.value.mul_spec(rhs.value) }
    }
}

/// A blade (an ordered tuple of basis indices) with its coefficient.
#[derive(Debug, Clone, PartialEq)]
pub struct BladeTerm<T> {
    pub indices: Vec<Index>,
    pub coefficient: T,
}

impl<T> BladeTerm<T> {
    pub fn new(indices: Vec<Index>, coefficient: T) -> (r: Self)
        ensures
            r.indices@ == indices@,
            r.coefficient == coefficient,
    {
        BladeTerm { indices, coefficient }
    }

    /// The grade given by the number of basis indices.
    pub fn grade(&self) -> (r: Grade)
        ensures
            r == Grade::of_arity(self.indices@.len() as int),
    {
        Grade::from_arity(self.indices.len())
    }
}

/// A coefficient list entry: the blade's basis indices and its coefficient.
pub type Entry<T> = (Seq<Index>, T);

/// A geometric-algebra term of one of five shapes.
#[derive(Debug, Clone, PartialEq)]
pub enum GATerm<T> {
    Scalar(Scalar<T>),
    Vector(Vec<(Index, T)>),
    Bivector(Vec<(Index, Index, T)>),
    Trivector(Vec<(Index, Index, Index, T)>),
    Multivector(Vec<BladeTerm<T>>),
}

pub open spec fn vector_entry<T>(e: (Index, T)) -> Entry<T> {
    (seq![e.0], e.1)
}

pub open spec fn bivector_entry<T>(e: (Index, Index, T)) -> Entry<T> {
    (seq![e.0, e.1], e.2)
}

pub open spec fn trivector_entry<T>(e: (Index, Index, Index, T)) -> Entry<T> {
    (seq![e.0, e.1, e.2], e.3)
}

pub open spec fn blade_entry<T>(b: BladeTerm<T>) -> Entry<T> {
    (b.indices@, b.coefficient)
}

impl<T> GATerm<T> {
    /// The grade of the variant.
    pub open spec fn spec_grade(&self) -> Grade {
        match self {
            GATerm::Scalar(_) => Grade::Scalar,
            GATerm::Vector(_) => Grade::Vector,
            GATerm::Bivector(_) => Grade::Bivector,
            GATerm::Trivector(_) => Grade::Trivector,
            GATerm::Multivector(_) => Grade::Multivector,
        }
    }

    /// The coefficient list, in order, each coefficient keyed by its basis
    /// indices; a scalar is one entry with no indices.
    pub open spec fn entries(&self) -> Seq<Entry<T>> {
        match self {
            GATerm::Scalar(s) => seq![(Seq::empty(), s.value)],
            GATerm::Vector(v) => v@.map_values(|e: (Index, T)| vector_entry(e)),
            GATerm::Bivector(b) => b@.map_values(|e: (Index, Index, T)| bivector_entry(e)),
            GATerm::Trivector(t) => t@.map_values(|e: (Index, Index, Index, T)| trivector_entry(e)),
            GATerm::Multivector(m) => m@.map_values(|b: BladeTerm<T>| blade_entry(b)),
        }
    }

    /// Get the grade of this term.
    #[verifier::when_used_as_spec(spec_grade)]
    pub fn grade(&self) -> (r: Grade)
        ensures
            r == self.spec_grade(),
    {
        match self {
            GATerm::Scalar(_) => Grade::Scalar,
            GATerm::Vector(_) => Grade::Vector,
            GATerm::Bivector(_) => Grade::Bivector,
            GATerm::Trivector(_) => Grade::Trivector,
            GATerm::Multivector(_) => Grade::Multivector,
        }
    }

    /// Check if this term has a specific grade.
    pub fn has_grade(&self, grade: Grade) -> (r: bool)
        ensures
            r == (self.spec_grade() == grade),
    {
        self.grade() == grade
    }

    pub fn scalar(value: T) -> (r: Self)
        ensures
            r == GATerm::Scalar(Scalar { value }),
    {
        GATerm::Scalar(Scalar::new(value))
    }

    pub fn vector(components: Vec<(Index, T)>) -> (r: Self)
        ensures
            r == GATerm::Vector(components),
    {
        GATerm::Vector(components)
    }

    pub fn bivector(components: Vec<(Index, Index, T)>) -> (r: Self)
        ensures
            r == GATerm::Bivector(components),
    {
        GATerm::Bivector(components)
    }

    pub fn trivector(components: Vec<(Index, Index, Index, T)>) -> (r: Self)
        ensures
            r == GATerm::Trivector(components),
    {
        GATerm::Trivector(components)
    }

    pub fn multivector(terms: Vec<BladeTerm<T>>) -> (r: Self)
        ensures
            r == GATerm::Multivector(terms),
    {
        GATerm::Multivector(terms)
    }
}

/// Types whose values all have one definite grade.
pub trait HasGrade {
    fn grade() -> Grade;
}

impl<T> HasGrade for Scalar<T> {
    fn grade() -> Grade {
        Grade::Scalar
    }
}

} // verus!
