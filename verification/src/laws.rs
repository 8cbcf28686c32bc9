//! Algebraic laws of the matrix operations, stated and proved over the
//! row-major sequence model that the executable operations' contracts use.
//! Laws that depend on properties of the element arithmetic (commutativity,
//! associativity, identities) take those properties as hypotheses, so they
//! hold for every element type whose arithmetic has them.

use crate::element::Element;
use crate::matrix::Matrix;
use crate::matrix::flat_index;
use crate::matrix::seq_add;
use crate::matrix::seq_sub;
use vstd::prelude::*;

verus! {

/// Map composition: mapping a sequence with `f` and then with `g` equals
/// mapping it once with the composition of the two.
pub proof fn lemma_map_composition<T>(s: Seq<T>, f: spec_fn(T) -> T, g: spec_fn(T) -> T)
    ensures
        s.map_values(f).map_values(g) == s.map_values(|x: T| g(f(x))),
{
    assert(s.map_values(f).map_values(g) =~= s.map_values(|x: T| g(f(x))));
}

/// Matrix addition is commutative wherever the element addition is: the
/// element-wise sums of two equally long sequences agree in either operand
/// order.
pub proof fn lemma_add_commutative<T: Element>(a: Seq<T>, b: Seq<T>)
    requires
        a.len() == b.len(),
        forall|x: T, y: T| #[trigger] x.add_spec(y) == y.add_spec(x),
    ensures
        seq_add(a, b) == seq_add(b, a),
{
    assert(seq_add(a, b) =~= seq_add(b, a));
}

/// Matrix addition is associative wherever the element addition is.
pub proof fn lemma_add_associative<T: Element>(a: Seq<T>, b: Seq<T>, c: Seq<T>)
    requires
        a.len() == b.len(),
        b.len() == c.len(),
        forall|x: T, y: T, z: T|
            #[trigger] x.add_spec(y).add_spec(z) == x.add_spec(y.add_spec(z)),
    ensures
        seq_add(seq_add(a, b), c) == seq_add(a, seq_add(b, c)),
{
    assert(seq_add(seq_add(a, b), c) =~= seq_add(a, seq_add(b, c)));
}

/// Matrix subtraction is the additive inverse of matrix addition wherever
/// the element operations invert each other: adding `b` and then
/// subtracting it again gives back the first operand.
pub proof fn lemma_sub_inverts_add<T: Element>(a: Seq<T>, b: Seq<T>)
    requires
        a.len() == b.len(),
        forall|x: T, y: T| #[trigger] x.add_spec(y).sub_spec(y) == x,
    ensures
        seq_sub(seq_add(a, b), b) == a,
{
    assert(seq_sub(seq_add(a, b), b) =~= a);
}

/// Two well-formed matrices of the same shape that agree at every position
/// have equal backing storage, and so compare equal.
pub proof fn lemma_pointwise_equal<T: Element>(a: Matrix<T>, b: Matrix<T>)
    requires
        a.well_formed(),
        b.well_formed(),
        a.rows == b.rows,
        a.cols == b.cols,
        forall|i: int, j: int| a.in_range(i, j) ==> a.spec_at(i, j) == b.spec_at(i, j),
    ensures
        a.data@ == b.data@,
{
    let rows = a.rows as int;
    let cols = a.cols as int;
    assert forall|n: int| 0 <= n < a.data@.len() implies a.data@[n] == b.data@[n] by {
        assert(cols > 0) by (nonlinear_arith)
            requires
                0 <= n < rows * cols,
                rows >= 0,
                cols >= 0,
        {
        }
        let i = n / cols;
        let j = n % cols;
        assert(0 <= j < cols && 0 <= i < rows && i * cols + j == n) by (nonlinear_arith)
            requires
                0 <= n < rows * cols,
                cols > 0,
                i == n / cols,
                j == n % cols,
        {
        }
        assert(flat_index(i, j, cols) == n);
        assert(a.in_range(i, j));
        assert(a.spec_at(i, j) == b.spec_at(i, j));
    }
    assert(a.data@ =~= b.data@);
}

/// An identity matrix: square, with `one` on the diagonal and the additive
/// identity everywhere else.
pub open spec fn is_identity<T: Element>(m: Matrix<T>, one: T) -> bool {
    &&& m.well_formed()
    &&& m.rows == m.cols
    &&& forall|k: int, l: int|
        m.in_range(k, l) ==> #[trigger] m.spec_at(k, l) == (if k == l {
            one
        } else {
            T::zero_spec()
        })
}

/// The accumulated product cell of a matrix with an identity matrix on the
/// right: zero until the diagonal term has been added, the matrix's own
/// element from then on.
proof fn lemma_mul_identity_right_prefix<T: Element>(
    a: Matrix<T>,
    id: Matrix<T>,
    one: T,
    i: int,
    j: int,
    k: int,
)
    requires
        a.well_formed(),
        is_identity(id, one),
        id.rows == a.cols,
        0 <= i < a.rows,
        0 <= j < id.cols,
        0 <= k <= a.cols,
        forall|x: T| #[trigger] x.mul_spec(one) == x,
        forall|x: T| #[trigger] x.mul_spec(T::zero_spec()) == T::zero_spec(),
        forall|x: T| #[trigger] T::zero_spec().add_spec(x) == x,
        forall|x: T| #[trigger] x.add_spec(T::zero_spec()) == x,
    ensures
        a.mul_cell(id, i, j, k) == if k <= j {
            T::zero_spec()
        } else {
            a.spec_at(i, j)
        },
    decreases k,
{
    if k > 0 {
        lemma_mul_identity_right_prefix(a, id, one, i, j, k - 1);
        assert(id.in_range(k - 1, j));
    }
}

/// Multiplying a matrix on the right by the identity matrix of matching
/// shape leaves it unchanged: a product matrix whose cells satisfy the
/// multiplication contract has exactly the storage of the left operand.
/// The element type's zero must annihilate multiplication and be neutral
/// for addition, and `one` must be a right multiplicative identity.
pub proof fn lemma_mul_identity_right<T: Element>(
    a: Matrix<T>,
    id: Matrix<T>,
    prod: Matrix<T>,
    one: T,
)
    requires
        a.well_formed(),
        is_identity(id, one),
        id.rows == a.cols,
        prod.well_formed(),
        prod.rows == a.rows,
        prod.cols == id.cols,
        forall|i: int, j: int|
            0 <= i < a.rows && 0 <= j < id.cols ==> #[trigger] prod.spec_at(i, j) == a.mul_cell(
                id,
                i,
                j,
                a.cols as int,
            ),
        forall|x: T| #[trigger] x.mul_spec(one) == x,
        forall|x: T| #[trigger] x.mul_spec(T::zero_spec()) == T::zero_spec(),
        forall|x: T| #[trigger] T::zero_spec().add_spec(x) == x,
        forall|x: T| #[trigger] x.add_spec(T::zero_spec()) == x,
    ensures
        prod.data@ == a.data@,
{
    assert forall|i: int, j: int| prod.in_range(i, j) implies prod.spec_at(i, j) == a.spec_at(
        i,
        j,
    ) by {
        lemma_mul_identity_right_prefix(a, id, one, i, j, a.cols as int);
    }
    lemma_pointwise_equal(prod, a);
}

/// The accumulated product cell of an identity matrix with a matrix on its
/// right: zero until the diagonal term has been added, the matrix's own
/// element from then on.
proof fn lemma_mul_identity_left_prefix<T: Element>(
    id: Matrix<T>,
    a: Matrix<T>,
    one: T,
    i: int,
    j: int,
    k: int,
)
    requires
        a.well_formed(),
        is_identity(id, one),
        id.cols == a.rows,
        0 <= i < id.rows,
        0 <= j < a.cols,
        0 <= k <= id.cols,
        forall|x: T| #[trigger] one.mul_spec(x) == x,
        forall|x: T| #[trigger] T::zero_spec().mul_spec(x) == T::zero_spec(),
        forall|x: T| #[trigger] T::zero_spec().add_spec(x) == x,
        forall|x: T| #[trigger] x.add_spec(T::zero_spec()) == x,
    ensures
        id.mul_cell(a, i, j, k) == if k <= i {
            T::zero_spec()
        } else {
            a.spec_at(i, j)
        },
    decreases k,
{
    if k > 0 {
        lemma_mul_identity_left_prefix(id, a, one, i, j, k - 1);
        assert(id.in_range(i, k - 1));
    }
}

/// Multiplying a matrix on the left by the identity matrix of matching
/// shape leaves it unchanged, the mirror image of the right-identity law.
/// Here `one` must be a left multiplicative identity and zero must
/// annihilate multiplication from the left and be neutral for addition.
pub proof fn lemma_mul_identity_left<T: Element>(
    id: Matrix<T>,
    a: Matrix<T>,
    prod: Matrix<T>,
    one: T,
)
    requires
        a.well_formed(),
        is_identity(id, one),
        id.cols == a.rows,
        prod.well_formed(),
        prod.rows == id.rows,
        prod.cols == a.cols,
        forall|i: int, j: int|
            0 <= i < id.rows && 0 <= j < a.cols ==> #[trigger] prod.spec_at(i, j) == id.mul_cell(
                a,
                i,
                j,
                id.cols as int,
            ),
        forall|x: T| #[trigger] one.mul_spec(x) == x,
        forall|x: T| #[trigger] T::zero_spec().mul_spec(x) == T::zero_spec(),
        forall|x: T| #[trigger] T::zero_spec().add_spec(x) == x,
        forall|x: T| #[trigger] x.add_spec(T::zero_spec()) == x,
    ensures
        prod.data@ == a.data@,
{
    assert forall|i: int, j: int| prod.in_range(i, j) implies prod.spec_at(i, j) == a.spec_at(
        i,
        j,
    ) by {
        lemma_mul_identity_left_prefix(id, a, one, i, j, id.cols as int);
    }
    lemma_pointwise_equal(prod, a);
}

} // verus!
