//! Physical quantities tagged with the exponents of the seven SI base
//! dimensions; addition requires equal dimensions, products combine them.
pub mod units;

use vstd::prelude::*;
use vstd::std_specs::ops::{AddSpec, DivSpec, MulSpec, NegSpec, SubSpec};
use core::ops::Neg;

verus! {

/// Exponents of mass, length, time, electric current, temperature, amount
/// of substance and luminous intensity.
#[derive(Debug, Clone, Copy, PartialEq, Eq, Structural)]
pub struct Dimension {
    pub mass: i32,
    pub length: i32,
    pub time: i32,
    pub current: i32,
    pub temperature: i32,
    pub amount: i32,
    pub luminosity: i32,
}

/// Elementwise sum of two exponent vectors.
pub open spec fn sum_of(a: Seq<int>, b: Seq<int>) -> Seq<int> {
    Seq::new(a.len(), |i: int| a[i] + b[i])
}

/// Elementwise difference of two exponent vectors.
pub open spec fn difference_of(a: Seq<int>, b: Seq<int>) -> Seq<int> {
    Seq::new(a.len(), |i: int| a[i] - b[i])
}

/// Every exponent fits in an `i32`.
pub open spec fn fits(e: Seq<int>) -> bool {
    forall|i: int| 0 <= i < e.len() ==> i32::MIN <= #[trigger] e[i] <= i32::MAX
}

impl View for Dimension {
    type V = Seq<int>;

    open spec fn view(&self) -> Seq<int> {
        seq![
            self.mass as int,
            self.length as int,
            self.time as int,
            self.current as int,
            self.temperature as int,
            self.amount as int,
            self.luminosity as int,
        ]
    }
}

impl Dimension {
    pub fn new(mass: i32, length: i32, time: i32, current: i32, temperature: i32, amount: i32, luminosity: i32) -> (r: Dimension)
        ensures
            r@ == seq![mass as int, length as int, time as int, current as int, temperature as int, amount as int, luminosity as int],
    {
        Dimension { mass, length, time, current, temperature, amount, luminosity }
    }

    pub fn dimensionless() -> (r: Dimension)
        ensures
            r@ == seq![0int, 0, 0, 0, 0, 0, 0],
    {
        Dimension::new(0, 0, 0, 0, 0, 0, 0)
    }

    pub fn mass() -> (r: Dimension)
        ensures
            r@ == seq![1int, 0, 0, 0, 0, 0, 0],
    {
        Dimension::new(1, 0, 0, 0, 0, 0, 0)
    }

    pub fn length() -> (r: Dimension)
        ensures
            r@ == seq![0int, 1, 0, 0, 0, 0, 0],
    {
        Dimension::new(0, 1, 0, 0, 0, 0, 0)
    }

    pub fn time() -> (r: Dimension)
        ensures
            r@ == seq![0int, 0, 1, 0, 0, 0, 0],
    {
        Dimension::new(0, 0, 1, 0, 0, 0, 0)
    }

    pub fn current() -> (r: Dimension)
        ensures
            r@ == seq![0int, 0, 0, 1, 0, 0, 0],
    {
        Dimension::new(0, 0, 0, 1, 0, 0, 0)
    }

    pub fn temperature() -> (r: Dimension)
        ensures
            r@ == seq![0int, 0, 0, 0, 1, 0, 0],
    {
        Dimension::new(0, 0, 0, 0, 1, 0, 0)
    }

    /// Length per time (m/s).
    pub fn velocity() -> (r: Dimension)
        ensures
            r@ == seq![0int, 1, -1, 0, 0, 0, 0],
    {
        Dimension::new(0, 1, -1, 0, 0, 0, 0)
    }

    /// Length per time squared (m/s²).
    pub fn acceleration() -> (r: Dimension)
        ensures
            r@ == seq![0int, 1, -2, 0, 0, 0, 0],
    {
        Dimension::new(0, 1, -2, 0, 0, 0, 0)
    }

    /// Mass times acceleration (N).
    pub fn force() -> (r: Dimension)
        ensures
            r@ == seq![1int, 1, -2, 0, 0, 0, 0],
    {
        Dimension::new(1, 1, -2, 0, 0, 0, 0)
    }

    /// Force times length (J).
    pub fn energy() -> (r: Dimension)
        ensures
            r@ == seq![1int, 2, -2, 0, 0, 0, 0],
    {
        Dimension::new(1, 2, -2, 0, 0, 0, 0)
    }

    /// Energy per time (W).
    pub fn power() -> (r: Dimension)
        ensures
            r@ == seq![1int, 2, -3, 0, 0, 0, 0],
    {
        Dimension::new(1, 2, -3, 0, 0, 0, 0)
    }

    /// Angle per time (rad/s).
    pub fn angular_velocity() -> (r: Dimension)
        ensures
            r@ == seq![0int, 0, -1, 0, 0, 0, 0],
    {
        Dimension::new(0, 0, -1, 0, 0, 0, 0)
    }

    pub fn is_dimensionless(&self) -> (r: bool)
        ensures
            r == (self@ == seq![0int, 0, 0, 0, 0, 0, 0]),
    {
        let r = self.mass == 0 && self.length == 0 && self.time == 0 && self.current == 0
            && self.temperature == 0 && self.amount == 0 && self.luminosity == 0;
        assert(r ==> self@ =~= seq![0int, 0, 0, 0, 0, 0, 0]);
        assert(self@ == seq![0int, 0, 0, 0, 0, 0, 0] ==> self@[0] == 0 && self@[1] == 0 && self@[2] == 0
            && self@[3] == 0 && self@[4] == 0 && self@[5] == 0 && self@[6] == 0);
        r
    }

    /// Dimension of a product: exponents add.
    pub fn product(&self, other: &Dimension) -> (r: Dimension)
        requires
            fits(sum_of(self@, other@)),
        ensures
            r@ == sum_of(self@, other@),
    {
        proof {
            let s = sum_of(self@, other@);
            assert(fits(s));
            assert(i32::MIN <= s[0] <= i32::MAX && i32::MIN <= s[1] <= i32::MAX && i32::MIN <= s[2] <= i32::MAX
                && i32::MIN <= s[3] <= i32::MAX && i32::MIN <= s[4] <= i32::MAX && i32::MIN <= s[5] <= i32::MAX
                && i32::MIN <= s[6] <= i32::MAX);
        }
        let r = Dimension::new(
            self.mass + other.mass,
            self.length + other.length,
            self.time + other.time,
            self.current + other.current,
            self.temperature + other.temperature,
            self.amount + other.amount,
            self.luminosity + other.luminosity,
        );
        assert(r@ =~= sum_of(self@, other@));
        r
    }

    /// Dimension of a quotient: exponents subtract.
    pub fn quotient(&self, other: &Dimension) -> (r: Dimension)
        requires
            fits(difference_of(self@, other@)),
        ensures
            r@ == difference_of(self@, other@),
    {
        proof {
            let s = difference_of(self@, other@);
            assert(fits(s));
            assert(i32::MIN <= s[0] <= i32::MAX && i32::MIN <= s[1] <= i32::MAX && i32::MIN <= s[2] <= i32::MAX
                && i32::MIN <= s[3] <= i32::MAX && i32::MIN <= s[4] <= i32::MAX && i32::MIN <= s[5] <= i32::MAX
                && i32::MIN <= s[6] <= i32::MAX);
        }
        let r = Dimension::new(
            self.mass - other.mass,
            self.length - other.length,
            self.time - other.time,
            self.current - other.current,
            self.temperature - other.temperature,
            self.amount - other.amount,
            self.luminosity - other.luminosity,
        );
        assert(r@ =~= difference_of(self@, other@));
        r
    }
}

/// Two quantities of different dimensions were added, subtracted or compared.
#[derive(Debug, Clone, Copy, PartialEq, Eq, Structural)]
pub struct DimensionMismatch {
    pub lhs: Dimension,
    pub rhs: Dimension,
}

/// A numeric value tagged with its physical dimension.
#[derive(Debug, Clone, Copy, PartialEq)]
pub struct Quantity<T> {
    pub value: T,
    pub dimension: Dimension,
}

impl<T> Quantity<T> {
    pub fn new(value: T, dimension: Dimension) -> (r: Self)
        ensures
            r.value == value,
            r.dimension == dimension,
    {
        Quantity { value, dimension }
    }

    pub fn value(&self) -> (r: &T)
        ensures
            *r == self.value,
    {
        &self.value
    }

    pub fn value_mut(&mut self) -> (r: &mut T)
        ensures
            *r == old(self).value,
            final(self).value == *final(r),
            final(self).dimension == old(self).dimension,
    {
        &mut self.value
    }

    pub fn into_value(self) -> (r: T)
        ensures
            r == self.value,
    {
        self.value
    }

    /// The value, where the quantity has dimension `d`.
    pub fn value_in(self, d: Dimension) -> (r: Result<T, DimensionMismatch>)
        ensures
            r is Ok <==> self.dimension == d,
            r matches Ok(v) ==> v == self.value,
            r matches Err(e) ==> e.lhs == self.dimension && e.rhs == d,
    {
        if self.dimension != d {
            return Err(DimensionMismatch { lhs: self.dimension, rhs: d });
        }
        Ok(self.value)
    }

    pub fn dimension(&self) -> (r: Dimension)
        ensures
            r == self.dimension,
    {
        self.dimension
    }

    pub fn is_dimensionless(&self) -> (r: bool)
        ensures
            r == (self.dimension@ == seq![0int, 0, 0, 0, 0, 0, 0]),
    {
        self.dimension.is_dimensionless()
    }

    pub fn mass_dim(&self) -> (r: i32)
        ensures
            r == self.dimension.mass,
    {
        self.dimension.mass
    }

    pub fn length_dim(&self) -> (r: i32)
        ensures
            r == self.dimension.length,
    {
        self.dimension.length
    }

    pub fn time_dim(&self) -> (r: i32)
        ensures
            r == self.dimension.time,
    {
        self.dimension.time
    }
}

impl Dimension {
    /// The dimension of a product, built in spec code.
    pub open spec fn spec_product(self, other: Dimension) -> Dimension {
        Dimension {
            mass: (self.mass + other.mass) as i32,
            length: (self.length + other.length) as i32,
            time: (self.time + other.time) as i32,
            current: (self.current + other.current) as i32,
            temperature: (self.temperature + other.temperature) as i32,
            amount: (self.amount + other.amount) as i32,
            luminosity: (self.luminosity + other.luminosity) as i32,
        }
    }

    /// The dimension of a quotient, built in spec code.
    pub open spec fn spec_quotient(self, other: Dimension) -> Dimension {
        Dimension {
            mass: (self.mass - other.mass) as i32,
            length: (self.length - other.length) as i32,
            time: (self.time - other.time) as i32,
            current: (self.current - other.current) as i32,
            temperature: (self.temperature - other.temperature) as i32,
            amount: (self.amount - other.amount) as i32,
            luminosity: (self.luminosity - other.luminosity) as i32,
        }
    }
}

/// Scale the value of `q` by a bare number; the dimension is kept.
pub fn mul_scalar<T: core::ops::Mul<S, Output = T>, S>(q: Quantity<T>, s: S) -> (r: Quantity<T>)
    requires
        q.value.mul_req(s),
    ensures
        r.dimension == q.dimension,
        <T as MulSpec<S>>::obeys_mul_spec() ==> r.value == q.value.mul_spec(s),
{
    Quantity::new(q.value * s, q.dimension)
}

/// Divide the value of `q` by a bare number; the dimension is kept.
pub fn div_scalar<T: core::ops::Div<S, Output = T>, S>(q: Quantity<T>, s: S) -> (r: Quantity<T>)
    requires
        q.value.div_req(s),
    ensures
        r.dimension == q.dimension,
        <T as DivSpec<S>>::obeys_div_spec() ==> r.value == q.value.div_spec(s),
{
    Quantity::new(q.value / s, q.dimension)
}

/// A bare number as a dimensionless quantity.
impl<T> From<T> for Quantity<T> {
    fn from(value: T) -> (r: Self) {
        Quantity::new(value, Dimension::dimensionless())
    }
}

impl<T> vstd::std_specs::convert::FromSpecImpl<T> for Quantity<T> {
    open spec fn obeys_from_spec() -> bool {
        true
    }

    open spec fn from_spec(v: T) -> Self {
        Quantity {
            value: v,
            dimension: Dimension { mass: 0, length: 0, time: 0, current: 0, temperature: 0, amount: 0, luminosity: 0 },
        }
    }
}

/// Sum of two quantities; an error when their dimensions differ.
impl<T: core::ops::Add<Output = T>> core::ops::Add for Quantity<T> {
    type Output = Result<Quantity<T>, DimensionMismatch>;

    fn add(self, rhs: Self) -> (r: Self::Output)
        ensures
            r is Err <==> self.dimension != rhs.dimension,
            r matches Err(e) ==> e.lhs == self.dimension && e.rhs == rhs.dimension,
            r matches Ok(q) ==> q.dimension == self.dimension,
    {
        if self.dimension != rhs.dimension {
            return Err(DimensionMismatch { lhs: self.dimension, rhs: rhs.dimension });
        }
        Ok(Quantity::new(self.value + rhs.value, self.dimension))
    }
}

impl<T: core::ops::Add<Output = T>> vstd::std_specs::ops::AddSpecImpl for Quantity<T> {
    open spec fn obeys_add_spec() -> bool {
        T::obeys_add_spec()
    }

    open spec fn add_req(self, rhs: Self) -> bool {
        self.dimension == rhs.dimension ==> self.value.add_req(rhs.value)
    }

    open spec fn add_spec(self, rhs: Self) -> Self::Output {
        if self.dimension == rhs.dimension {
            Ok(Quantity { value: self.value.add_spec(rhs.value), dimension: self.dimension })
        } else {
            Err(DimensionMismatch { lhs: self.dimension, rhs: rhs.dimension })
        }
    }
}

/// Difference of two quantities; an error when their dimensions differ.
impl<T: core::ops::Sub<Output = T>> core::ops::Sub for Quantity<T> {
    type Output = Result<Quantity<T>, DimensionMismatch>;

    fn sub(self, rhs: Self) -> (r: Self::Output)
        ensures
            r is Err <==> self.dimension != rhs.dimension,
            r matches Err(e) ==> e.lhs == self.dimension && e.rhs == rhs.dimension,
            r matches Ok(q) ==> q.dimension == self.dimension,
    {
        if self.dimension != rhs.dimension {
            return Err(DimensionMismatch { lhs: self.dimension, rhs: rhs.dimension });
        }
        Ok(Quantity::new(self.value - rhs.value, self.dimension))
    }
}

impl<T: core::ops::Sub<Output = T>> vstd::std_specs::ops::SubSpecImpl for Quantity<T> {
    open spec fn obeys_sub_spec() -> bool {
        T::obeys_sub_spec()
    }

    open spec fn sub_req(self, rhs: Self) -> bool {
        self.dimension == rhs.dimension ==> self.value.sub_req(rhs.value)
    }

    open spec fn sub_spec(self, rhs: Self) -> Self::Output {
        if self.dimension == rhs.dimension {
            Ok(Quantity { value: self.value.sub_spec(rhs.value), dimension: self.dimension })
        } else {
            Err(DimensionMismatch { lhs: self.dimension, rhs: rhs.dimension })
        }
    }
}

/// Product of two quantities: values multiply, exponents add.
impl<T: core::ops::Mul<Output = T>> core::ops::Mul for Quantity<T> {
    type Output = Quantity<T>;

    fn mul(self, rhs: Self) -> (r: Self::Output)
        ensures
            r.dimension@ == sum_of(self.dimension@, rhs.dimension@),
            r.dimension == self.dimension.spec_product(rhs.dimension),
    {
        let d = self.dimension.product(&rhs.dimension);
        assert(d == self.dimension.spec_product(rhs.dimension));
        Quantity::new(self.value * rhs.value, d)
    }
}

impl<T: core::ops::Mul<Output = T>> vstd::std_specs::ops::MulSpecImpl for Quantity<T> {
    open spec fn obeys_mul_spec() -> bool {
        T::obeys_mul_spec()
    }

    open spec fn mul_req(self, rhs: Self) -> bool {
        self.value.mul_req(rhs.value) && fits(sum_of(self.dimension@, rhs.dimension@))
    }

    open spec fn mul_spec(self, rhs: Self) -> Self::Output {
        Quantity { value: self.value.mul_spec(rhs.value), dimension: self.dimension.spec_product(rhs.dimension) }
    }
}

/// Quotient of two quantities: values divide, exponents subtract.
impl<T: core::ops::Div<Output = T>> core::ops::Div for Quantity<T> {
    type Output = Quantity<T>;

    fn div(self, rhs: Self) -> (r: Self::Output)
        ensures
            r.dimension@ == difference_of(self.dimension@, rhs.dimension@),
            r.dimension == self.dimension.spec_quotient(rhs.dimension),
    {
        let d = self.dimension.quotient(&rhs.dimension);
        assert(d == self.dimension.spec_quotient(rhs.dimension));
        Quantity::new(self.value / rhs.value, d)
    }
}

impl<T: core::ops::Div<Output = T>> vstd::std_specs::ops::DivSpecImpl for Quantity<T> {
    open spec fn obeys_div_spec() -> bool {
        T::obeys_div_spec()
    }

    open spec fn div_req(self, rhs: Self) -> bool {
        self.value.div_req(rhs.value) && fits(difference_of(self.dimension@, rhs.dimension@))
    }

    open spec fn div_spec(self, rhs: Self) -> Self::Output {
        Quantity { value: self.value.div_spec(rhs.value), dimension: self.dimension.spec_quotient(rhs.dimension) }
    }
}

/// Negation: the value is negated, the dimension kept.
impl<T: core::ops::Neg<Output = T>> core::ops::Neg for Quantity<T> {
    type Output = Quantity<T>;

    fn neg(self) -> (r: Self::Output)
        ensures
            r.dimension == self.dimension,
    {
        Quantity::new(self.value.neg(), self.dimension)
    }
}

impl<T: core::ops::Neg<Output = T>> vstd::std_specs::ops::NegSpecImpl for Quantity<T> {
    open spec fn obeys_neg_spec() -> bool {
        T::obeys_neg_spec()
    }

    open spec fn neg_req(self) -> bool {
        self.value.neg_req()
    }

    open spec fn neg_spec(self) -> Self::Output {
        Quantity { value: self.value.neg_spec(), dimension: self.dimension }
    }
}

} // verus!
