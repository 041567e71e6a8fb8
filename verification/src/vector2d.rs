//! A pair of coordinates with component-wise arithmetic.
//!
//! The operators work on any component type that has the operator itself. What
//! a sum or product is, and when it may be formed, follows the component type:
//! for the machine integers it is exact and must not overflow.

use std::ops::{Add, AddAssign, Div, Mul, Neg, Sub};
use vstd::prelude::*;
use vstd::std_specs::ops::{AddSpec, DivSpec, MulSpec, NegSpec, SubSpec};

verus! {

/// A point or displacement in the plane.
#[derive(Debug, Copy, Clone)]
pub struct Vector2D<T> {
    pub x: T,
    pub y: T,
}

impl<T> Vector2D<T> {
    pub fn new(x: T, y: T) -> (v: Self)
        ensures
            v.x == x,
            v.y == y,
    {
        Vector2D { x, y }
    }

    /// The vector whose components are both the default of `T`.
    pub fn zero() -> (v: Self) where T: Default
        ensures
            call_ensures(T::default, (), v.x),
            call_ensures(T::default, (), v.y),
    {
        Vector2D { x: T::default(), y: T::default() }
    }
}

impl<T> Add for Vector2D<T> where T: Add<Output = T> + Copy {
    type Output = Vector2D<T>;

    fn add(self, other: Vector2D<T>) -> Vector2D<T> {
        Vector2D::new(self.x + other.x, self.y + other.y)
    }
}

impl<T> vstd::std_specs::ops::AddSpecImpl for Vector2D<T> where T: Add<Output = T> + Copy {
    open spec fn obeys_add_spec() -> bool {
        T::obeys_add_spec()
    }

    open spec fn add_req(self, other: Vector2D<T>) -> bool {
        self.x.add_req(other.x) && self.y.add_req(other.y)
    }

    open spec fn add_spec(self, other: Vector2D<T>) -> Vector2D<T> {
        Vector2D { x: self.x.add_spec(other.x), y: self.y.add_spec(other.y) }
    }
}

impl<T> Sub for Vector2D<T> where T: Sub<Output = T> + Copy {
    type Output = Vector2D<T>;

    fn sub(self, other: Vector2D<T>) -> Vector2D<T> {
        Vector2D::new(self.x - other.x, self.y - other.y)
    }
}

impl<T> vstd::std_specs::ops::SubSpecImpl for Vector2D<T> where T: Sub<Output = T> + Copy {
    open spec fn obeys_sub_spec() -> bool {
        T::obeys_sub_spec()
    }

    open spec fn sub_req(self, other: Vector2D<T>) -> bool {
        self.x.sub_req(other.x) && self.y.sub_req(other.y)
    }

    open spec fn sub_spec(self, other: Vector2D<T>) -> Vector2D<T> {
        Vector2D { x: self.x.sub_spec(other.x), y: self.y.sub_spec(other.y) }
    }
}

impl<T> Mul<T> for Vector2D<T> where T: Mul<Output = T> + Copy {
    type Output = Vector2D<T>;

    fn mul(self, scalar: T) -> Vector2D<T> {
        Vector2D::new(self.x * scalar, self.y * scalar)
    }
}

impl<T> vstd::std_specs::ops::MulSpecImpl<T> for Vector2D<T> where T: Mul<Output = T> + Copy {
    open spec fn obeys_mul_spec() -> bool {
        T::obeys_mul_spec()
    }

    open spec fn mul_req(self, scalar: T) -> bool {
        self.x.mul_req(scalar) && self.y.mul_req(scalar)
    }

    open spec fn mul_spec(self, scalar: T) -> Vector2D<T> {
        Vector2D { x: self.x.mul_spec(scalar), y: self.y.mul_spec(scalar) }
    }
}

impl<T> Div<T> for Vector2D<T> where T: Div<Output = T> + Copy {
    type Output = Vector2D<T>;

    fn div(self, scalar: T) -> Vector2D<T> {
        Vector2D::new(self.x / scalar, self.y / scalar)
    }
}

impl<T> vstd::std_specs::ops::DivSpecImpl<T> for Vector2D<T> where T: Div<Output = T> + Copy {
    open spec fn obeys_div_spec() -> bool {
        T::obeys_div_spec()
    }

    open spec fn div_req(self, scalar: T) -> bool {
        self.x.div_req(scalar) && self.y.div_req(scalar)
    }

    open spec fn div_spec(self, scalar: T) -> Vector2D<T> {
        Vector2D { x: self.x.div_spec(scalar), y: self.y.div_spec(scalar) }
    }
}

impl<T: Neg<Output = T>> Neg for Vector2D<T> {
    type Output = Vector2D<T>;

    fn neg(self) -> Vector2D<T> {
        Vector2D::new(self.x.neg(), self.y.neg())
    }
}

impl<T: Neg<Output = T>> vstd::std_specs::ops::NegSpecImpl for Vector2D<T> {
    open spec fn obeys_neg_spec() -> bool {
        T::obeys_neg_spec()
    }

    open spec fn neg_req(self) -> bool {
        self.x.neg_req() && self.y.neg_req()
    }

    open spec fn neg_spec(self) -> Vector2D<T> {
        Vector2D { x: self.x.neg_spec(), y: self.y.neg_spec() }
    }
}

impl<T: Add<Output = T> + Copy> AddAssign for Vector2D<T> {
    fn add_assign(&mut self, rhs: Self)
        requires
            old(self).x.add_req(rhs.x),
            old(self).y.add_req(rhs.y),
        ensures
            T::obeys_add_spec() ==> *final(self) == old(self).add_spec(rhs),
    {
        self.x = self.x + rhs.x;
        self.y = self.y + rhs.y;
    }
}

/// On 32-bit integers the operators are the exact component-wise operations.
pub proof fn lemma_i32_arithmetic(a: Vector2D<i32>, b: Vector2D<i32>, k: i32)
    ensures
        a.add_req(b) <==> i32::MIN <= a.x + b.x <= i32::MAX && i32::MIN <= a.y + b.y <= i32::MAX,
        a.add_req(b) ==> a.add_spec(b) == (Vector2D { x: (a.x + b.x) as i32, y: (a.y + b.y) as i32 }),
        a.sub_req(b) <==> i32::MIN <= a.x - b.x <= i32::MAX && i32::MIN <= a.y - b.y <= i32::MAX,
        a.sub_req(b) ==> a.sub_spec(b) == (Vector2D { x: (a.x - b.x) as i32, y: (a.y - b.y) as i32 }),
        a.mul_req(k) <==> i32::MIN <= a.x * k <= i32::MAX && i32::MIN <= a.y * k <= i32::MAX,
        a.mul_req(k) ==> a.mul_spec(k) == (Vector2D { x: (a.x * k) as i32, y: (a.y * k) as i32 }),
        a.neg_req() <==> a.x != i32::MIN && a.y != i32::MIN,
        a.neg_req() ==> a.neg_spec() == (Vector2D { x: (-a.x) as i32, y: (-a.y) as i32 }),
        Vector2D::<i32>::obeys_add_spec(),
        Vector2D::<i32>::obeys_sub_spec(),
        Vector2D::<i32>::obeys_mul_spec(),
        Vector2D::<i32>::obeys_neg_spec(),
{
}

} // verus!
