use std::ops::{Add, Mul};
use vstd::prelude::*;
use vstd::std_specs::ops::{AddSpec, MulSpec};

verus! {

/// A two-component vector over any element type.
#[derive(Debug, Clone, Copy, PartialEq, Eq, Hash, Structural)]
pub struct Vector2<T> {
    pub x: T,
    pub y: T,
}

impl<T> From<(T, T)> for Vector2<T> {
    fn from(pair: (T, T)) -> (r: Self) {
        Vector2 { x: pair.0, y: pair.1 }
    }
}

impl<T> vstd::std_specs::convert::FromSpecImpl<(T, T)> for Vector2<T> {
    open spec fn obeys_from_spec() -> bool {
        true
    }

    open spec fn from_spec(pair: (T, T)) -> Self {
        Vector2 { x: pair.0, y: pair.1 }
    }
}

/// Component-wise addition.
impl<T: Add<Output = T>> Add for Vector2<T> {
    type Output = Self;

    fn add(self, other: Self) -> (r: Self) {
        Vector2 { x: self.x + other.x, y: self.y + other.y }
    }
}

impl<T: Add<Output = T>> vstd::std_specs::ops::AddSpecImpl for Vector2<T> {
    open spec fn obeys_add_spec() -> bool {
        T::obeys_add_spec()
    }

    open spec fn add_req(self, other: Self) -> bool {
        self.x.add_req(other.x) && self.y.add_req(other.y)
    }

    open spec fn add_spec(self, other: Self) -> Self {
        Vector2 { x: self.x.add_spec(other.x), y: self.y.add_spec(other.y) }
    }
}

/// Multiplication of both components by one scalar.
impl<T: Mul<Output = T> + Copy> Mul<T> for Vector2<T> {
    type Output = Self;

    fn mul(self, scalar: T) -> (r: Self) {
        Vector2 { x: self.x * scalar, y: self.y * scalar }
    }
}

impl<T: Mul<Output = T> + Copy> vstd::std_specs::ops::MulSpecImpl<T> for Vector2<T> {
    open spec fn obeys_mul_spec() -> bool {
        T::obeys_mul_spec()
    }

    open spec fn mul_req(self, scalar: T) -> bool {
        self.x.mul_req(scalar) && self.y.mul_req(scalar)
    }

    open spec fn mul_spec(self, scalar: T) -> Self {
        Vector2 { x: self.x.mul_spec(scalar), y: self.y.mul_spec(scalar) }
    }
}

impl<T: Add<Output = T> + Copy> Vector2<T> {
    /// Adds `other` to this vector, component by component.
    pub fn add_assign(&mut self, other: Self)
        requires
            old(self).add_req(other),
        ensures
            T::obeys_add_spec() ==> *final(self) == old(self).add_spec(other),
    {
        self.x = self.x + other.x;
        self.y = self.y + other.y;
    }
}

impl<T: Mul<Output = T> + Copy> Vector2<T> {
    /// Multiplies both components of this vector by `scalar`.
    pub fn mul_assign(&mut self, scalar: T)
        requires
            old(self).mul_req(scalar),
        ensures
            T::obeys_mul_spec() ==> *final(self) == old(self).mul_spec(scalar),
    {
        self.x = self.x * scalar;
        self.y = self.y * scalar;
    }
}

/// Adding `i32` vectors is associative wherever no component overflows.
pub proof fn lemma_add_associative(u: Vector2<i32>, v: Vector2<i32>, w: Vector2<i32>)
    requires
        u.add_req(v),
        u.add_spec(v).add_req(w),
        v.add_req(w),
        u.add_req(v.add_spec(w)),
    ensures
        u.add_spec(v).add_spec(w) == u.add_spec(v.add_spec(w)),
{
}

/// Multiplying an `i32` vector by one never overflows and gives it back.
pub proof fn lemma_mul_one(v: Vector2<i32>)
    ensures
        v.mul_req(1),
        v.mul_spec(1) == v,
{
}

} // verus!
