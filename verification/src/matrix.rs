//! A dense rows x cols matrix stored in row-major order: element (i, j)
//! lives at flat offset `i * cols + j` of the backing vector. The shape is
//! fixed at construction; `set` is the sole mutator. Transformations and
//! algebraic operations allocate fresh result matrices and leave their
//! operands untouched.

use crate::element::Element;
use crate::utils::get_integral_square_root;
use vstd::prelude::*;

verus! {

broadcast use vstd::std_specs::vec::axiom_spec_len;

/// A row-major dense matrix over the element type `T`.
///
/// Well-formedness ties the backing storage to the shape:
/// `data` holds exactly `rows * cols` elements.
#[derive(Clone, Debug)]
pub struct Matrix<T> {
    pub rows: usize,
    pub cols: usize,
    pub data: Vec<T>,
}

/// The flat row-major offset of position (i, j) in a matrix of `cols` columns.
pub open spec fn flat_index(i: int, j: int, cols: int) -> int {
    i * cols + j
}

/// Row-major offsets of in-range positions stay inside the backing storage.
pub proof fn lemma_flat_index_in_bounds(rows: int, cols: int, i: int, j: int)
    requires
        0 <= i < rows,
        0 <= j < cols,
    ensures
        0 <= flat_index(i, j, cols) < rows * cols,
{
    assert(0 <= i * cols + j < rows * cols) by (nonlinear_arith)
        requires
            0 <= i < rows,
            0 <= j < cols,
    {
    }
}

/// Distinct in-range positions have distinct row-major offsets.
pub proof fn lemma_flat_index_injective(cols: int, i1: int, j1: int, i2: int, j2: int)
    requires
        0 <= j1 < cols,
        0 <= j2 < cols,
        0 <= i1,
        0 <= i2,
        flat_index(i1, j1, cols) == flat_index(i2, j2, cols),
    ensures
        i1 == i2 && j1 == j2,
{
    assert(i1 == i2 && j1 == j2) by (nonlinear_arith)
        requires
            0 <= j1 < cols,
            0 <= j2 < cols,
            0 <= i1,
            0 <= i2,
            i1 * cols + j1 == i2 * cols + j2,
    {
    }
}

/// Two equally long sequences combined element-wise with `f`.
pub open spec fn seq_zip_with<T>(a: Seq<T>, b: Seq<T>, f: spec_fn(T, T) -> T) -> Seq<T> {
    Seq::new(a.len(), |k: int| f(a[k], b[k]))
}

/// The element-wise sum of two equally long sequences.
pub open spec fn seq_add<T: Element>(a: Seq<T>, b: Seq<T>) -> Seq<T> {
    Seq::new(a.len(), |k: int| a[k].add_spec(b[k]))
}

/// The element-wise difference of two equally long sequences.
pub open spec fn seq_sub<T: Element>(a: Seq<T>, b: Seq<T>) -> Seq<T> {
    Seq::new(a.len(), |k: int| a[k].sub_spec(b[k]))
}

impl<T: Element> Matrix<T> {
    /// The backing storage holds exactly one element per position.
    pub open spec fn well_formed(self) -> bool {
        self.data@.len() == self.rows * self.cols
    }

    /// The element at position (i, j), read from the row-major storage.
    pub open spec fn spec_at(self, i: int, j: int) -> T {
        self.data@[flat_index(i, j, self.cols as int)]
    }

    /// Whether (i, j) is a valid position of this matrix.
    pub open spec fn in_range(self, i: int, j: int) -> bool {
        0 <= i < self.rows && 0 <= j < self.cols
    }

    /// The accumulated matrix-product cell value at (i, j) after the first
    /// `k` inner-dimension terms: starting from zero, the terms
    /// `self[i, t] * other[t, j]` are added for t in [0, k), in ascending
    /// order of t.
    pub open spec fn mul_cell(self, other: Matrix<T>, i: int, j: int, k: int) -> T
        decreases k,
    {
        if k <= 0 {
            T::zero_spec()
        } else {
            self.mul_cell(other, i, j, k - 1).add_spec(
                self.spec_at(i, k - 1).mul_spec(other.spec_at(k - 1, j)),
            )
        }
    }

    /// A zero-filled rows x cols matrix: every element is the additive
    /// identity of `T`.
    pub fn new(rows: usize, cols: usize) -> (r: Matrix<T>)
        requires
            rows * cols <= usize::MAX,
        ensures
            r.well_formed(),
            r.rows == rows,
            r.cols == cols,
            forall|k: int| 0 <= k < r.data@.len() ==> r.data@[k] == T::zero_spec(),
    {
        let n: usize = rows * cols;
        let mut data: Vec<T> = Vec::new();
        let mut k: usize = 0;
        while k < n
            invariant
                k <= n,
                data@.len() == k,
                n == rows * cols,
                forall|m: int| 0 <= m < k ==> data@[m] == T::zero_spec(),
            decreases n - k,
        {
            data.push(T::zero());
            k = k + 1;
        }
        Matrix { rows, cols, data }
    }

    /// Wraps a caller-supplied flat sequence as the row-major storage of a
    /// rows x cols matrix. The caller must supply exactly `rows * cols`
    /// elements; the length contract is stated here rather than checked at
    /// run time.
    pub fn from(rows: usize, cols: usize, data: Vec<T>) -> (r: Matrix<T>)
        requires
            data@.len() == rows * cols,
        ensures
            r.well_formed(),
            r.rows == rows,
            r.cols == cols,
            r.data@ == data@,
    {
        Matrix { rows, cols, data }
    }

    /// The row-major flat offset of position (i, j): `i * cols + j`. This
    /// defines the storage layout every other operation respects.
    pub fn index(&self, i: usize, j: usize) -> (r: usize)
        requires
            i * self.cols + j <= usize::MAX,
        ensures
            r == flat_index(i as int, j as int, self.cols as int),
    {
        (i * self.cols) + j
    }

    /// A copy of the element at (i, j). Out-of-range positions are a caller
    /// error: they are excluded by contract and fault at run time.
    pub fn at(&self, i: usize, j: usize) -> (r: T)
        requires
            self.well_formed(),
            i < self.rows,
            j < self.cols,
        ensures
            r == self.spec_at(i as int, j as int),
    {
        if i < self.rows && j < self.cols {
            proof {
                assert(self.data.len() == self.data@.len());
                lemma_flat_index_in_bounds(
                    self.rows as int,
                    self.cols as int,
                    i as int,
                    j as int,
                );
            }
            let idx = self.index(i, j);
            self.data[idx]
        } else {
            vstd::pervasive::unreached()
        }
    }

    /// Overwrites the element at (i, j) and changes nothing else: the shape
    /// stays, and every other position keeps its value. Out-of-range
    /// positions are a caller error: they are excluded by contract and fault
    /// at run time before any mutation.
    pub fn set(&mut self, i: usize, j: usize, val: T)
        requires
            old(self).well_formed(),
            i < old(self).rows,
            j < old(self).cols,
        ensures
            final(self).well_formed(),
            final(self).rows == old(self).rows,
            final(self).cols == old(self).cols,
            final(self).data@ == old(self).data@.update(
                flat_index(i as int, j as int, old(self).cols as int),
                val,
            ),
            final(self).spec_at(i as int, j as int) == val,
            forall|i2: int, j2: int|
                final(self).in_range(i2, j2) && !(i2 == i && j2 == j)
                    ==> final(self).spec_at(i2, j2) == old(self).spec_at(i2, j2),
    {
        if i < self.rows && j < self.cols {
            proof {
                assert(self.data.len() == self.data@.len());
                lemma_flat_index_in_bounds(
                    self.rows as int,
                    self.cols as int,
                    i as int,
                    j as int,
                );
            }
            let idx = self.index(i, j);
            self.data[idx] = val;
            proof {
                assert forall|i2: int, j2: int|
                    self.in_range(i2, j2) && !(i2 == i && j2 == j)
                        implies self.spec_at(i2, j2) == old(self).spec_at(i2, j2) by {
                    lemma_flat_index_in_bounds(
                        self.rows as int,
                        self.cols as int,
                        i2,
                        j2,
                    );
                    if flat_index(i2, j2, self.cols as int)
                        == flat_index(i as int, j as int, self.cols as int) {
                        lemma_flat_index_injective(
                            self.cols as int,
                            i2,
                            j2,
                            i as int,
                            j as int,
                        );
                    }
                }
            }
        } else {
            vstd::pervasive::unreached()
        }
    }

    /// A new matrix of identical shape whose element at each position is
    /// `func` applied to the element there. `self` is not changed; cells are
    /// transformed independently of each other.
    ///
    /// When `func` refines a mathematical function `fs` (every possible
    /// output for input `x` equals `fs(x)`), the result's storage is exactly
    /// the input storage mapped through `fs`.
    #[verifier::loop_isolation(false)]
    pub fn map<F: Fn(T) -> T>(&self, func: F) -> (result: Matrix<T>)
        requires
            self.well_formed(),
            forall|k: int|
                0 <= k < self.data@.len() ==> call_requires(func, (#[trigger] self.data@[k],)),
        ensures
            result.well_formed(),
            result.rows == self.rows,
            result.cols == self.cols,
            result.data@.len() == self.data@.len(),
            forall|k: int|
                0 <= k < self.data@.len()
                    ==> call_ensures(func, (self.data@[k],), #[trigger] result.data@[k]),
            forall|fs: spec_fn(T) -> T|
                (forall|x: T, y: T| call_ensures(func, (x,), y) ==> y == fs(x))
                    ==> result.data@ == self.data@.map_values(fs),
    {
        let n: usize = self.data.len();
        let mut out: Vec<T> = Vec::new();
        let mut k: usize = 0;
        while k < n
            invariant
                k <= n,
                out@.len() == k,
                forall|m: int|
                    0 <= m < k ==> call_ensures(func, (self.data@[m],), #[trigger] out@[m]),
            decreases n - k,
        {
            out.push(func(self.data[k]));
            k = k + 1;
        }
        proof {
            assert forall|fs: spec_fn(T) -> T|
                (forall|x: T, y: T| call_ensures(func, (x,), y) ==> y == fs(x))
                    implies out@ == self.data@.map_values(fs) by {
                assert(out@ =~= self.data@.map_values(fs));
            }
        }
        Matrix { rows: self.rows, cols: self.cols, data: out }
    }

    /// A new matrix combining two equally shaped matrices element-wise with
    /// `func`, both operands taken by reference. A shape mismatch is a caller
    /// error: it is excluded by contract and faults at run time before any
    /// computation.
    ///
    /// When `func` refines a mathematical function `fs` (every possible
    /// output for inputs `x`, `y` equals `fs(x, y)`), the result's storage is
    /// exactly the two operands' storage zipped through `fs`.
    #[verifier::loop_isolation(false)]
    pub fn map_with_by_ref<F: Fn(T, T) -> T>(&self, other: &Matrix<T>, func: F) -> (result: Matrix<
        T,
    >)
        requires
            self.well_formed(),
            other.well_formed(),
            self.rows == other.rows,
            self.cols == other.cols,
            forall|k: int|
                0 <= k < self.data@.len()
                    ==> call_requires(func, (#[trigger] self.data@[k], other.data@[k])),
        ensures
            result.well_formed(),
            result.rows == self.rows,
            result.cols == self.cols,
            result.data@.len() == self.data@.len(),
            forall|k: int|
                0 <= k < self.data@.len()
                    ==> call_ensures(
                    func,
                    (self.data@[k], other.data@[k]),
                    #[trigger] result.data@[k],
                ),
            forall|fs: spec_fn(T, T) -> T|
                (forall|x: T, y: T, z: T| call_ensures(func, (x, y), z) ==> z == fs(x, y))
                    ==> result.data@ == seq_zip_with(self.data@, other.data@, fs),
    {
        if self.rows == other.rows && self.cols == other.cols {
            let n: usize = self.data.len();
            let mut out: Vec<T> = Vec::new();
            let mut k: usize = 0;
            while k < n
                invariant
                    k <= n,
                    out@.len() == k,
                    forall|m: int|
                        0 <= m < k
                            ==> call_ensures(
                            func,
                            (self.data@[m], other.data@[m]),
                            #[trigger] out@[m],
                        ),
                decreases n - k,
            {
                out.push(func(self.data[k], other.data[k]));
                k = k + 1;
            }
            proof {
                assert forall|fs: spec_fn(T, T) -> T|
                    (forall|x: T, y: T, z: T| call_ensures(func, (x, y), z) ==> z == fs(x, y))
                        implies out@ == seq_zip_with(self.data@, other.data@, fs) by {
                    assert(out@ =~= seq_zip_with(self.data@, other.data@, fs));
                }
            }
            Matrix { rows: self.rows, cols: self.cols, data: out }
        } else {
            vstd::pervasive::unreached()
        }
    }

    /// As `map_with_by_ref`, with the second operand taken by value. Both
    /// forms produce the same result for the same operands.
    pub fn map_with<F: Fn(T, T) -> T>(&self, other: Matrix<T>, func: F) -> (result: Matrix<T>)
        requires
            self.well_formed(),
            other.well_formed(),
            self.rows == other.rows,
            self.cols == other.cols,
            forall|k: int|
                0 <= k < self.data@.len()
                    ==> call_requires(func, (#[trigger] self.data@[k], other.data@[k])),
        ensures
            result.well_formed(),
            result.rows == self.rows,
            result.cols == self.cols,
            result.data@.len() == self.data@.len(),
            forall|k: int|
                0 <= k < self.data@.len()
                    ==> call_ensures(
                    func,
                    (self.data@[k], other.data@[k]),
                    #[trigger] result.data@[k],
                ),
            forall|fs: spec_fn(T, T) -> T|
                (forall|x: T, y: T, z: T| call_ensures(func, (x, y), z) ==> z == fs(x, y))
                    ==> result.data@ == seq_zip_with(self.data@, other.data@, fs),
    {
        self.map_with_by_ref(&other, func)
    }

    /// Matrix addition with both operands borrowed: the element-wise sum of
    /// two equally shaped matrices. Neither operand is changed.
    pub fn add_ref(&self, other: &Matrix<T>) -> (result: Matrix<T>)
        requires
            self.well_formed(),
            other.well_formed(),
            self.rows == other.rows,
            self.cols == other.cols,
            forall|k: int|
                0 <= k < self.data@.len() ==> (#[trigger] self.data@[k]).add_ok(other.data@[k]),
        ensures
            result.well_formed(),
            result.rows == self.rows,
            result.cols == self.cols,
            result.data@ == seq_add(self.data@, other.data@),
    {
        let result = self.map_with_by_ref(
            other,
            (|a: T, b: T| -> (r: T)
                requires
                    a.add_ok(b),
                ensures
                    r == a.add_spec(b),
                {
                    a.add(b)
                }),
        );
        proof {
            assert(result.data@ =~= seq_add(self.data@, other.data@));
        }
        result
    }

    /// Matrix addition consuming both operands; the result is the same as
    /// with `add_ref` on the same operands.
    pub fn add(self, other: Matrix<T>) -> (result: Matrix<T>)
        requires
            self.well_formed(),
            other.well_formed(),
            self.rows == other.rows,
            self.cols == other.cols,
            forall|k: int|
                0 <= k < self.data@.len() ==> (#[trigger] self.data@[k]).add_ok(other.data@[k]),
        ensures
            result.well_formed(),
            result.rows == self.rows,
            result.cols == self.cols,
            result.data@ == seq_add(self.data@, other.data@),
    {
        self.add_ref(&other)
    }

    /// Matrix subtraction with both operands borrowed: the element-wise
    /// difference of two equally shaped matrices. Neither operand is changed.
    pub fn sub_ref(&self, other: &Matrix<T>) -> (result: Matrix<T>)
        requires
            self.well_formed(),
            other.well_formed(),
            self.rows == other.rows,
            self.cols == other.cols,
            forall|k: int|
                0 <= k < self.data@.len() ==> (#[trigger] self.data@[k]).sub_ok(other.data@[k]),
        ensures
            result.well_formed(),
            result.rows == self.rows,
            result.cols == self.cols,
            result.data@ == seq_sub(self.data@, other.data@),
    {
        let result = self.map_with_by_ref(
            other,
            (|a: T, b: T| -> (r: T)
                requires
                    a.sub_ok(b),
                ensures
                    r == a.sub_spec(b),
                {
                    a.sub(b)
                }),
        );
        proof {
            assert(result.data@ =~= seq_sub(self.data@, other.data@));
        }
        result
    }

    /// Matrix multiplication with both operands borrowed: the standard
    /// matrix product of an (m x n) by an (n x p) matrix, giving an (m x p)
    /// matrix whose cell (i, j) accumulates, starting from zero and in
    /// ascending k, the products `self[i, k] * other[k, j]` for k in [0, n).
    /// An inner-dimension mismatch is a caller error: it is excluded by
    /// contract and faults at run time before any computation. Neither
    /// operand is changed.
    #[verifier::loop_isolation(false)]
    pub fn mul_ref(&self, other: &Matrix<T>) -> (result: Matrix<T>)
        requires
            self.well_formed(),
            other.well_formed(),
            self.cols == other.rows,
            self.rows * other.cols <= usize::MAX,
            forall|i: int, j: int, k: int|
                #![trigger self.mul_cell(*other, i, j, k)]
                #![trigger self.spec_at(i, k), other.spec_at(k, j)]
                0 <= i < self.rows && 0 <= j < other.cols && 0 <= k < self.cols ==> {
                    &&& self.spec_at(i, k).mul_ok(other.spec_at(k, j))
                    &&& self.mul_cell(*other, i, j, k).add_ok(
                        self.spec_at(i, k).mul_spec(other.spec_at(k, j)),
                    )
                },
        ensures
            result.well_formed(),
            result.rows == self.rows,
            result.cols == other.cols,
            forall|i: int, j: int|
                0 <= i < self.rows && 0 <= j < other.cols
                    ==> #[trigger] result.spec_at(i, j) == self.mul_cell(
                    *other,
                    i,
                    j,
                    self.cols as int,
                ),
    {
        if self.cols == other.rows {
            let mut result = Matrix::<T>::new(self.rows, other.cols);
            let mut i: usize = 0;
            while i < self.rows
                invariant
                    i <= self.rows,
                    result.well_formed(),
                    result.rows == self.rows,
                    result.cols == other.cols,
                    forall|r: int, c: int|
                        0 <= r < i && 0 <= c < other.cols
                            ==> #[trigger] result.spec_at(r, c) == self.mul_cell(
                            *other,
                            r,
                            c,
                            self.cols as int,
                        ),
                decreases self.rows - i,
            {
                let mut j: usize = 0;
                while j < other.cols
                    invariant
                        i < self.rows,
                        j <= other.cols,
                        result.well_formed(),
                        result.rows == self.rows,
                        result.cols == other.cols,
                        forall|r: int, c: int|
                            0 <= r < i && 0 <= c < other.cols
                                ==> #[trigger] result.spec_at(r, c) == self.mul_cell(
                                *other,
                                r,
                                c,
                                self.cols as int,
                            ),
                        forall|c: int|
                            0 <= c < j ==> #[trigger] result.spec_at(i as int, c)
                                == self.mul_cell(*other, i as int, c, self.cols as int),
                    decreases other.cols - j,
                {
                    let mut val: T = T::zero();
                    let mut k: usize = 0;
                    while k < self.cols
                        invariant
                            i < self.rows,
                            j < other.cols,
                            k <= self.cols,
                            val == self.mul_cell(*other, i as int, j as int, k as int),
                        decreases self.cols - k,
                    {
                        let term = self.at(i, k).mul(other.at(k, j));
                        val = val.add(term);
                        k = k + 1;
                    }
                    result.set(i, j, val);
                    j = j + 1;
                }
                i = i + 1;
            }
            result
        } else {
            vstd::pervasive::unreached()
        }
    }

    /// Matrix multiplication consuming both operands; the result is the same
    /// as with `mul_ref` on the same operands.
    pub fn mul(self, other: Matrix<T>) -> (result: Matrix<T>)
        requires
            self.well_formed(),
            other.well_formed(),
            self.cols == other.rows,
            self.rows * other.cols <= usize::MAX,
            forall|i: int, j: int, k: int|
                #![trigger self.mul_cell(other, i, j, k)]
                #![trigger self.spec_at(i, k), other.spec_at(k, j)]
                0 <= i < self.rows && 0 <= j < other.cols && 0 <= k < self.cols ==> {
                    &&& self.spec_at(i, k).mul_ok(other.spec_at(k, j))
                    &&& self.mul_cell(other, i, j, k).add_ok(
                        self.spec_at(i, k).mul_spec(other.spec_at(k, j)),
                    )
                },
        ensures
            result.well_formed(),
            result.rows == self.rows,
            result.cols == other.cols,
            forall|i: int, j: int|
                0 <= i < self.rows && 0 <= j < other.cols
                    ==> #[trigger] result.spec_at(i, j) == self.mul_cell(
                    other,
                    i,
                    j,
                    self.cols as int,
                ),
    {
        self.mul_ref(&other)
    }

    /// Matrix subtraction consuming both operands; the result is the same as
    /// with `sub_ref` on the same operands.
    pub fn sub(self, other: Matrix<T>) -> (result: Matrix<T>)
        requires
            self.well_formed(),
            other.well_formed(),
            self.rows == other.rows,
            self.cols == other.cols,
            forall|k: int|
                0 <= k < self.data@.len() ==> (#[trigger] self.data@[k]).sub_ok(other.data@[k]),
        ensures
            result.well_formed(),
            result.rows == self.rows,
            result.cols == self.cols,
            result.data@ == seq_sub(self.data@, other.data@),
    {
        self.sub_ref(&other)
    }
}

/// Builds a square matrix from a flat row-major element sequence whose
/// length is a perfect square, inferring the side length. Returns `None`
/// when the length has no integral square root; this condition depends on
/// caller data and is surfaced as an absent result rather than a fault.
pub fn sq_matrix<T: Element>(data: Vec<T>) -> (r: Option<Matrix<T>>)
    ensures
        match r {
            Some(m) => {
                &&& m.well_formed()
                &&& m.rows == m.cols
                &&& m.rows * m.rows == data@.len()
                &&& m.data@ == data@
            },
            None => forall|k: int| 0 <= k ==> #[trigger] (k * k) != data@.len(),
        },
{
    let n: usize = data.len();
    match get_integral_square_root(n) {
        Some(root) => Some(Matrix::from(root, root, data)),
        None => None,
    }
}

impl<T: Element> PartialEq for Matrix<T> {
    /// Equality is element-wise equality of the flattened row-major storage;
    /// the shapes themselves are not compared.
    #[verifier::loop_isolation(false)]
    fn eq(&self, other: &Matrix<T>) -> (r: bool) {
        if self.data.len() != other.data.len() {
            return false;
        }
        let n: usize = self.data.len();
        let mut k: usize = 0;
        while k < n
            invariant
                k <= n,
                forall|m: int| 0 <= m < k ==> self.data@[m] == other.data@[m],
            decreases n - k,
        {
            if !self.data[k].eq_elem(other.data[k]) {
                proof {
                    assert(self.data@[k as int] != other.data@[k as int]);
                }
                return false;
            }
            k = k + 1;
        }
        proof {
            assert(self.data@ =~= other.data@);
        }
        true
    }
}

impl<T: Element> vstd::std_specs::cmp::PartialEqSpecImpl for Matrix<T> {
    open spec fn obeys_eq_spec() -> bool {
        true
    }

    open spec fn eq_spec(&self, other: &Matrix<T>) -> bool {
        self.data@ == other.data@
    }
}

} // verus!
