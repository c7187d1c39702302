//! Dense vector/matrix primitives over any [`Scalar`].
//!
//! A matrix is a `Vec` of rows of equal length.  Each executable function
//! returns exactly the value of its spec-level counterpart, which is
//! written over `Seq` views and the scalar's abstract operations.  Sums
//! fold from the left, starting from the scalar's zero, as the spec
//! functions record.

#![verifier::loop_isolation(false)]

use vstd::prelude::*;

use crate::scalar::Scalar;

verus! {

/// The rows of a matrix as mathematical sequences.
pub open spec fn rows_view<S>(m: Seq<Vec<S>>) -> Seq<Seq<S>> {
    Seq::new(m.len(), |i: int| m[i]@)
}

/// `m` has exactly `rows` rows, each of exactly `cols` entries.
pub open spec fn is_matrix<S>(m: Seq<Seq<S>>, rows: nat, cols: nat) -> bool {
    m.len() == rows && forall|i: int| 0 <= i < m.len() ==> (#[trigger] m[i]).len() == cols
}

/// Left fold of the first `n` products `row[k] * v[k]`, starting from zero.
pub open spec fn sp_dot_prefix<S: Scalar>(row: Seq<S>, v: Seq<S>, n: int) -> S
    decreases n,
{
    if n <= 0 {
        S::sp_zero()
    } else {
        S::sp_add(sp_dot_prefix(row, v, n - 1), S::sp_mul(row[n - 1], v[n - 1]))
    }
}

/// The dot product of `row` and `v`.
pub open spec fn sp_dot<S: Scalar>(row: Seq<S>, v: Seq<S>) -> S {
    sp_dot_prefix(row, v, row.len() as int)
}

/// The matrix-vector product, one dot product per row.
pub open spec fn sp_matrix_dot_vector<S: Scalar>(m: Seq<Seq<S>>, v: Seq<S>) -> Seq<S> {
    Seq::new(m.len(), |i: int| sp_dot(m[i], v))
}

/// Each entry multiplied by `c` (on the right, as the executable code does).
pub open spec fn sp_scale_vector<S: Scalar>(c: S, v: Seq<S>) -> Seq<S> {
    Seq::new(v.len(), |i: int| S::sp_mul(v[i], c))
}

/// Elementwise sum.
pub open spec fn sp_add_vectors<S: Scalar>(a: Seq<S>, b: Seq<S>) -> Seq<S> {
    Seq::new(a.len(), |i: int| S::sp_add(a[i], b[i]))
}

/// Elementwise product of two vectors.
pub open spec fn sp_mul_vectors<S: Scalar>(a: Seq<S>, b: Seq<S>) -> Seq<S> {
    Seq::new(a.len(), |i: int| S::sp_mul(a[i], b[i]))
}

/// Elementwise product of a nonempty family of vectors, folded from the left.
pub open spec fn sp_hadamard<S: Scalar>(vs: Seq<Seq<S>>) -> Seq<S>
    decreases vs.len(),
{
    if vs.len() <= 1 {
        if vs.len() == 0 {
            Seq::empty()
        } else {
            vs[0]
        }
    } else {
        sp_mul_vectors(sp_hadamard(vs.drop_last()), vs.last())
    }
}

/// On a family of exactly two vectors, the elementwise family product is
/// the pairwise product.
pub proof fn lemma_hadamard_pair<S: Scalar>(vs: Seq<Seq<S>>)
    requires
        vs.len() == 2,
    ensures
        sp_hadamard(vs) == sp_mul_vectors(vs[0], vs[1]),
{
    assert(vs.drop_last().len() == 1);
    assert(sp_hadamard(vs.drop_last()) == vs.drop_last()[0]);
    assert(vs.drop_last()[0] == vs[0]);
    assert(vs.last() == vs[1]);
}

/// The outer product: entry `(i, j)` is `b[j] * a[i]`, in the order the
/// executable code multiplies.
pub open spec fn sp_outer<S: Scalar>(a: Seq<S>, b: Seq<S>) -> Seq<Seq<S>> {
    Seq::new(a.len(), |i: int| Seq::new(b.len(), |j: int| S::sp_mul(b[j], a[i])))
}

/// Elementwise sum of two matrices.
pub open spec fn sp_add_matrices<S: Scalar>(a: Seq<Seq<S>>, b: Seq<Seq<S>>) -> Seq<Seq<S>> {
    Seq::new(a.len(), |i: int| sp_add_vectors(a[i], b[i]))
}

/// Each entry multiplied by `c` (on the right).
pub open spec fn sp_scale_matrix<S: Scalar>(c: S, m: Seq<Seq<S>>) -> Seq<Seq<S>> {
    Seq::new(m.len(), |i: int| sp_scale_vector(c, m[i]))
}

/// The transpose of a matrix with `m.len()` rows of length `cols`.
pub open spec fn sp_transpose<S>(m: Seq<Seq<S>>, cols: nat) -> Seq<Seq<S>> {
    Seq::new(cols, |i: int| Seq::new(m.len(), |j: int| m[j][i]))
}

/// Elementwise additive inverse.
pub open spec fn sp_neg_vector<S: Scalar>(v: Seq<S>) -> Seq<S> {
    Seq::new(v.len(), |i: int| S::sp_neg(v[i]))
}

/// Entry `row_index` of every row, in row order.
pub open spec fn sp_get_row<S>(m: Seq<Seq<S>>, row_index: int) -> Seq<S> {
    Seq::new(m.len(), |i: int| m[i][row_index])
}

/// Cross-multiplies a matrix and a vector; the matrix is on the left,
/// the vector is a single column of length equal to the row width.
pub fn matrix_dot_vector<S: Scalar>(matrix: &Vec<Vec<S>>, vector: &Vec<S>) -> (r: Vec<S>)
    requires
        matrix@.len() >= 1,
        is_matrix(rows_view(matrix@), matrix@.len(), vector@.len()),
    ensures
        r@ == sp_matrix_dot_vector(rows_view(matrix@), vector@),
{
    let rows = matrix.len();
    let cols = vector.len();
    let mut result: Vec<S> = Vec::new();
    let mut i: usize = 0;
    while i < rows
        invariant
            i <= rows,
            result@.len() == i,
            forall|k: int|
                0 <= k < i ==> result@[k] == sp_dot(rows_view(matrix@)[k], vector@),
        decreases rows - i,
    {
        let mut sum = S::zero();
        let mut j: usize = 0;
        while j < cols
            invariant
                j <= cols,
                sum == sp_dot_prefix(rows_view(matrix@)[i as int], vector@, j as int),
            decreases cols - j,
        {
            sum = sum.add(matrix[i][j].mul(vector[j]));
            j = j + 1;
        }
        result.push(sum);
        i = i + 1;
    }
    proof {
        assert(result@ =~= sp_matrix_dot_vector(rows_view(matrix@), vector@));
    }
    result
}

/// Multiplies every entry of `vector` by `value`.
pub fn scalar_multiply_vector<S: Scalar>(value: S, vector: &Vec<S>) -> (r: Vec<S>)
    ensures
        r@ == sp_scale_vector(value, vector@),
{
    let n = vector.len();
    let mut result: Vec<S> = Vec::new();
    let mut i: usize = 0;
    while i < n
        invariant
            i <= n,
            result@.len() == i,
            forall|k: int| 0 <= k < i ==> result@[k] == S::sp_mul(vector@[k], value),
        decreases n - i,
    {
        result.push(vector[i].mul(value));
        i = i + 1;
    }
    proof {
        assert(result@ =~= sp_scale_vector(value, vector@));
    }
    result
}

/// Adds two vectors of equal length elementwise.
pub fn add_vector<S: Scalar>(lhs_vector: &Vec<S>, rhs_vector: &Vec<S>) -> (r: Vec<S>)
    requires
        lhs_vector@.len() == rhs_vector@.len(),
    ensures
        r@ == sp_add_vectors(lhs_vector@, rhs_vector@),
{
    let n = lhs_vector.len();
    let mut result: Vec<S> = Vec::new();
    let mut i: usize = 0;
    while i < n
        invariant
            i <= n,
            result@.len() == i,
            forall|k: int| 0 <= k < i ==> result@[k] == S::sp_add(lhs_vector@[k], rhs_vector@[k]),
        decreases n - i,
    {
        result.push(lhs_vector[i].add(rhs_vector[i]));
        i = i + 1;
    }
    proof {
        assert(result@ =~= sp_add_vectors(lhs_vector@, rhs_vector@));
    }
    result
}

/// The views of a family of borrowed vectors.
pub open spec fn family_view<S>(vs: Seq<&Vec<S>>) -> Seq<Seq<S>> {
    Seq::new(vs.len(), |i: int| vs[i]@)
}

/// Multiplies a nonempty family of equal-length vectors elementwise.
pub fn hadamard_product<S: Scalar>(vectors: &[&Vec<S>]) -> (r: Vec<S>)
    requires
        vectors@.len() >= 1,
        forall|i: int|
            0 <= i < vectors@.len() ==> (#[trigger] vectors@[i])@.len() == vectors@[0]@.len(),
    ensures
        r@ == sp_hadamard(family_view(vectors@)),
{
    let count = vectors.len();
    let n = vectors[0].len();
    let mut acc: Vec<S> = Vec::new();
    let mut i: usize = 0;
    while i < n
        invariant
            i <= n,
            acc@.len() == i,
            forall|k: int| 0 <= k < i ==> acc@[k] == vectors@[0]@[k],
        decreases n - i,
    {
        acc.push(vectors[0][i]);
        i = i + 1;
    }
    proof {
        assert(acc@ =~= family_view(vectors@).take(1)[0]);
        assert(sp_hadamard(family_view(vectors@).take(1)) == acc@);
    }
    let mut v: usize = 1;
    while v < count
        invariant
            1 <= v <= count,
            acc@ == sp_hadamard(family_view(vectors@).take(v as int)),
            acc@.len() == n,
        decreases count - v,
    {
        let mut next: Vec<S> = Vec::new();
        let mut i: usize = 0;
        while i < n
            invariant
                i <= n,
                next@.len() == i,
                forall|k: int| 0 <= k < i ==> next@[k] == S::sp_mul(acc@[k], vectors@[v as int]@[k]),
            decreases n - i,
        {
            next.push(acc[i].mul(vectors[v][i]));
            i = i + 1;
        }
        proof {
            assert(next@ =~= sp_mul_vectors(acc@, vectors@[v as int]@));
            assert(family_view(vectors@).take(v as int + 1).drop_last() =~= family_view(
                vectors@,
            ).take(v as int));
        }
        acc = next;
        v = v + 1;
    }
    proof {
        assert(family_view(vectors@).take(count as int) =~= family_view(vectors@));
    }
    acc
}

/// The outer product of a column `lhs_vector` and the transposed row
/// `rhs_vector`: a matrix of `lhs` rows by `rhs` columns.
pub fn vector_dot_transposed_vector<S: Scalar>(lhs_vector: &Vec<S>, rhs_vector: &Vec<S>) -> (r:
    Vec<Vec<S>>)
    ensures
        rows_view(r@) == sp_outer(lhs_vector@, rhs_vector@),
{
    let rows = lhs_vector.len();
    let columns = rhs_vector.len();
    let mut result: Vec<Vec<S>> = Vec::new();
    let mut i: usize = 0;
    while i < rows
        invariant
            i <= rows,
            result@.len() == i,
            forall|k: int|
                0 <= k < i ==> (#[trigger] result@[k])@ == sp_outer(lhs_vector@, rhs_vector@)[k],
        decreases rows - i,
    {
        let mut row: Vec<S> = Vec::new();
        let mut j: usize = 0;
        while j < columns
            invariant
                j <= columns,
                row@.len() == j,
                forall|k: int| 0 <= k < j ==> row@[k] == S::sp_mul(rhs_vector@[k], lhs_vector@[i as int]),
            decreases columns - j,
        {
            row.push(rhs_vector[j].mul(lhs_vector[i]));
            j = j + 1;
        }
        proof {
            assert(row@ =~= sp_outer(lhs_vector@, rhs_vector@)[i as int]);
        }
        result.push(row);
        i = i + 1;
    }
    proof {
        assert(rows_view(result@) =~= sp_outer(lhs_vector@, rhs_vector@));
    }
    result
}

/// Adds two matrices of identical shape elementwise.
pub fn add_matrices<S: Scalar>(lhs_matrix: &Vec<Vec<S>>, rhs_matrix: &Vec<Vec<S>>) -> (r: Vec<
    Vec<S>>)
    requires
        lhs_matrix@.len() == rhs_matrix@.len(),
        forall|i: int|
            0 <= i < lhs_matrix@.len() ==> (#[trigger] lhs_matrix@[i])@.len()
                == rhs_matrix@[i]@.len(),
    ensures
        rows_view(r@) == sp_add_matrices(rows_view(lhs_matrix@), rows_view(rhs_matrix@)),
{
    let rows = lhs_matrix.len();
    let mut result: Vec<Vec<S>> = Vec::new();
    let mut i: usize = 0;
    while i < rows
        invariant
            i <= rows,
            result@.len() == i,
            forall|k: int|
                0 <= k < i ==> (#[trigger] result@[k])@ == sp_add_vectors(
                    lhs_matrix@[k]@,
                    rhs_matrix@[k]@,
                ),
        decreases rows - i,
    {
        let row = add_vector(&lhs_matrix[i], &rhs_matrix[i]);
        result.push(row);
        i = i + 1;
    }
    proof {
        assert(rows_view(result@) =~= sp_add_matrices(rows_view(lhs_matrix@), rows_view(rhs_matrix@)));
        assert forall|i: int| 0 <= i < rows implies rows_view(result@)[i] =~= sp_add_matrices(
            rows_view(lhs_matrix@),
            rows_view(rhs_matrix@),
        )[i] by {}
    }
    result
}

/// Multiplies every entry of a matrix by `scalar`.
pub fn scalar_multiply_matrix<S: Scalar>(scalar: S, matrix: &Vec<Vec<S>>) -> (r: Vec<Vec<S>>)
    ensures
        rows_view(r@) == sp_scale_matrix(scalar, rows_view(matrix@)),
{
    let rows = matrix.len();
    let mut result: Vec<Vec<S>> = Vec::new();
    let mut i: usize = 0;
    while i < rows
        invariant
            i <= rows,
            result@.len() == i,
            forall|k: int|
                0 <= k < i ==> (#[trigger] result@[k])@ == sp_scale_vector(scalar, matrix@[k]@),
        decreases rows - i,
    {
        let row = scalar_multiply_vector(scalar, &matrix[i]);
        result.push(row);
        i = i + 1;
    }
    proof {
        assert(rows_view(result@) =~= sp_scale_matrix(scalar, rows_view(matrix@)));
    }
    result
}

/// Transposes a nonempty matrix.
pub fn transpose_matrix<T: Copy>(matrix: &Vec<Vec<T>>) -> (r: Vec<Vec<T>>)
    requires
        matrix@.len() >= 1,
        is_matrix(rows_view(matrix@), matrix@.len(), matrix@[0]@.len()),
    ensures
        rows_view(r@) == sp_transpose(rows_view(matrix@), matrix@[0]@.len()),
{
    let cols = matrix[0].len();
    let rows = matrix.len();
    let mut result: Vec<Vec<T>> = Vec::new();
    let mut i: usize = 0;
    while i < cols
        invariant
            i <= cols,
            result@.len() == i,
            forall|k: int|
                0 <= k < i ==> (#[trigger] result@[k])@ == sp_transpose(
                    rows_view(matrix@),
                    cols as nat,
                )[k],
        decreases cols - i,
    {
        let mut row: Vec<T> = Vec::new();
        let mut j: usize = 0;
        while j < rows
            invariant
                j <= rows,
                row@.len() == j,
                forall|k: int| 0 <= k < j ==> row@[k] == matrix@[k]@[i as int],
            decreases rows - j,
        {
            proof {
                assert(rows_view(matrix@)[j as int].len() == cols);
            }
            row.push(matrix[j][i]);
            j = j + 1;
        }
        proof {
            assert(row@ =~= sp_transpose(rows_view(matrix@), cols as nat)[i as int]);
        }
        result.push(row);
        i = i + 1;
    }
    proof {
        assert(rows_view(result@) =~= sp_transpose(rows_view(matrix@), cols as nat));
    }
    result
}

/// Negates every entry of `vector`.
pub fn minus_vector<S: Scalar>(vector: &Vec<S>) -> (r: Vec<S>)
    ensures
        r@ == sp_neg_vector(vector@),
{
    let n = vector.len();
    let mut result: Vec<S> = Vec::new();
    let mut i: usize = 0;
    while i < n
        invariant
            i <= n,
            result@.len() == i,
            forall|k: int| 0 <= k < i ==> result@[k] == S::sp_neg(vector@[k]),
        decreases n - i,
    {
        result.push(vector[i].neg());
        i = i + 1;
    }
    proof {
        assert(result@ =~= sp_neg_vector(vector@));
    }
    result
}

/// A type that can be raised to a signed integer power.
pub trait Powerable<T>: Sized {
    /// The value of `self` to the power `power`, as the implementation
    /// defines it.
    spec fn sp_powi(self, power: i32) -> T;

    fn powi(self, power: i32) -> (r: T)
        ensures
            r == self.sp_powi(power),
    ;
}

/// Every entry of `vector` raised to the power `power`.
pub open spec fn sp_powi_vector<T, S: Powerable<T>>(v: Seq<S>, power: i32) -> Seq<T> {
    Seq::new(v.len(), |i: int| v[i].sp_powi(power))
}

/// Raises every entry of `vector` to the power `power`.
pub fn powi_vector<T, S: Powerable<T> + Copy>(vector: &Vec<S>, power: i32) -> (r: Vec<T>)
    ensures
        r@ == sp_powi_vector(vector@, power),
{
    let n = vector.len();
    let mut result: Vec<T> = Vec::new();
    let mut i: usize = 0;
    while i < n
        invariant
            i <= n,
            result@.len() == i,
            forall|k: int| 0 <= k < i ==> result@[k] == vector@[k].sp_powi(power),
        decreases n - i,
    {
        result.push(vector[i].powi(power));
        i = i + 1;
    }
    proof {
        assert(result@ =~= sp_powi_vector(vector@, power));
    }
    result
}

/// Entry `row_index` of every row of a column-major matrix: the sample
/// at position `row_index` of each series.
pub fn get_row<T: Copy>(matrix: &Vec<Vec<T>>, row_index: usize) -> (r: Vec<T>)
    requires
        forall|i: int| 0 <= i < matrix@.len() ==> row_index < (#[trigger] matrix@[i])@.len(),
    ensures
        r@ == sp_get_row(rows_view(matrix@), row_index as int),
{
    let n = matrix.len();
    let mut result: Vec<T> = Vec::new();
    let mut i: usize = 0;
    while i < n
        invariant
            i <= n,
            result@.len() == i,
            forall|k: int| 0 <= k < i ==> result@[k] == matrix@[k]@[row_index as int],
        decreases n - i,
    {
        result.push(matrix[i][row_index]);
        i = i + 1;
    }
    proof {
        assert(result@ =~= sp_get_row(rows_view(matrix@), row_index as int));
    }
    result
}

} // verus!
