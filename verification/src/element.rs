//! The numeric interface a matrix element type must offer: an additive
//! identity, addition, subtraction and multiplication, each with a
//! mathematical description and a partiality condition saying on which
//! operand pairs the executable operation is defined (for bounded integers,
//! where it does not overflow).

use vstd::prelude::*;

verus! {

/// A matrix element: a copyable numeric value with a zero and with
/// addition, subtraction and multiplication.
///
/// Each executable operation is described exactly by its `*_spec` function;
/// the `*_ok` predicates bound the operand pairs on which the operation is
/// defined, so that implementations over bounded integers can exclude
/// overflowing pairs.
pub trait Element: Sized + Copy {
    /// The additive identity, as a mathematical value.
    spec fn zero_spec() -> Self;

    /// What `add` returns.
    spec fn add_spec(self, other: Self) -> Self;

    /// On which operand pairs `add` is defined.
    spec fn add_ok(self, other: Self) -> bool;

    /// What `sub` returns.
    spec fn sub_spec(self, other: Self) -> Self;

    /// On which operand pairs `sub` is defined.
    spec fn sub_ok(self, other: Self) -> bool;

    /// What `mul` returns.
    spec fn mul_spec(self, other: Self) -> Self;

    /// On which operand pairs `mul` is defined.
    spec fn mul_ok(self, other: Self) -> bool;

    /// The additive identity.
    fn zero() -> (r: Self)
        ensures
            r == Self::zero_spec(),
    ;

    /// Addition.
    fn add(self, other: Self) -> (r: Self)
        requires
            self.add_ok(other),
        ensures
            r == self.add_spec(other),
    ;

    /// Subtraction.
    fn sub(self, other: Self) -> (r: Self)
        requires
            self.sub_ok(other),
        ensures
            r == self.sub_spec(other),
    ;

    /// Multiplication.
    fn mul(self, other: Self) -> (r: Self)
        requires
            self.mul_ok(other),
        ensures
            r == self.mul_spec(other),
    ;

    /// Equality test, agreeing with mathematical equality.
    fn eq_elem(self, other: Self) -> (r: bool)
        ensures
            r == (self == other),
    ;
}

impl Element for i64 {
    open spec fn zero_spec() -> i64 {
        0
    }

    open spec fn add_spec(self, other: i64) -> i64 {
        (self + other) as i64
    }

    open spec fn add_ok(self, other: i64) -> bool {
        i64::MIN <= self + other <= i64::MAX
    }

    open spec fn sub_spec(self, other: i64) -> i64 {
        (self - other) as i64
    }

    open spec fn sub_ok(self, other: i64) -> bool {
        i64::MIN <= self - other <= i64::MAX
    }

    open spec fn mul_spec(self, other: i64) -> i64 {
        (self * other) as i64
    }

    open spec fn mul_ok(self, other: i64) -> bool {
        i64::MIN <= self * other <= i64::MAX
    }

    fn zero() -> (r: i64) {
        0
    }

    fn add(self, other: i64) -> (r: i64) {
        self + other
    }

    fn sub(self, other: i64) -> (r: i64) {
        self - other
    }

    fn mul(self, other: i64) -> (r: i64) {
        self * other
    }

    fn eq_elem(self, other: i64) -> (r: bool) {
        self == other
    }
}

impl Element for i32 {
    open spec fn zero_spec() -> i32 {
        0
    }

    open spec fn add_spec(self, other: i32) -> i32 {
        (self + other) as i32
    }

    open spec fn add_ok(self, other: i32) -> bool {
        i32::MIN <= self + other <= i32::MAX
    }

    open spec fn sub_spec(self, other: i32) -> i32 {
        (self - other) as i32
    }

    open spec fn sub_ok(self, other: i32) -> bool {
        i32::MIN <= self - other <= i32::MAX
    }

    open spec fn mul_spec(self, other: i32) -> i32 {
        (self * other) as i32
    }

    open spec fn mul_ok(self, other: i32) -> bool {
        i32::MIN <= self * other <= i32::MAX
    }

    fn zero() -> (r: i32) {
        0
    }

    fn add(self, other: i32) -> (r: i32) {
        self + other
    }

    fn sub(self, other: i32) -> (r: i32) {
        self - other
    }

    fn mul(self, other: i32) -> (r: i32) {
        self * other
    }

    fn eq_elem(self, other: i32) -> (r: bool) {
        self == other
    }
}

/// The `i64` element arithmetic has the properties the algebraic laws take
/// as hypotheses: addition is commutative and associative, subtracting a
/// value inverts adding it, zero is neutral for addition and annihilates
/// multiplication, and one is a multiplicative identity.
pub proof fn lemma_i64_element_laws()
    ensures
        forall|x: i64, y: i64| #[trigger] x.add_spec(y) == y.add_spec(x),
        forall|x: i64, y: i64, z: i64|
            #[trigger] x.add_spec(y).add_spec(z) == x.add_spec(y.add_spec(z)),
        forall|x: i64, y: i64| #[trigger] x.add_spec(y).sub_spec(y) == x,
        forall|x: i64| #[trigger] x.add_spec(0i64) == x,
        forall|x: i64| #[trigger] (0i64).add_spec(x) == x,
        forall|x: i64| #[trigger] x.mul_spec(1i64) == x,
        forall|x: i64| #[trigger] (1i64).mul_spec(x) == x,
        forall|x: i64| #[trigger] x.mul_spec(0i64) == 0i64,
        forall|x: i64| #[trigger] (0i64).mul_spec(x) == 0i64,
{
    assert forall|x: i64, y: i64, z: i64|
        #[trigger] x.add_spec(y).add_spec(z) == x.add_spec(y.add_spec(z)) by {
        assert(((x + y) as i64 + z) as i64 == (x + (y + z) as i64) as i64) by (bit_vector);
    }
    assert forall|x: i64, y: i64| #[trigger] x.add_spec(y).sub_spec(y) == x by {
        assert(((x + y) as i64 - y) as i64 == x) by (bit_vector);
    }
}

} // verus!
