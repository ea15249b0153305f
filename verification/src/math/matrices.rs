//! Matrices over any type of number.

use std::ops::{Add, Div, Mul, Sub};
use vstd::prelude::*;
use vstd::std_specs::ops::{AddSpec, DivSpec, MulSpec, SubSpec};

verus! {

/// A matrix: `rows` rows of `cols` items each.
#[derive(Debug)]
pub struct Matrix<T: Add + Sub + Copy> {
    pub items: Vec<Vec<T>>,
    pub rows: usize,
    pub cols: usize,
}

/// The rows all have the length of the first.
pub open spec fn rectangular<T>(rows: Seq<Vec<T>>) -> bool {
    forall|i: int| 0 <= i < rows.len() ==> (#[trigger] rows[i])@.len() == rows[0]@.len()
}

impl<T: Add + Sub + Copy> Matrix<T> {
    /// The matrix has at least one row, all rows have `cols` items, and
    /// there are `rows` of them.
    pub open spec fn wf(&self) -> bool {
        &&& self.rows == self.items@.len()
        &&& self.rows > 0
        &&& forall|i: int| 0 <= i < self.items@.len() ==> (#[trigger] self.items@[i])@.len() == self.cols
    }

    /// The item in row `i` and column `j`.
    pub open spec fn at(&self, i: int, j: int) -> T {
        self.items@[i]@[j]
    }
}

impl<T: Add + Sub + Mul + Div + Copy> Matrix<T> {
    /// The matrix with the given rows, if they all have the same length.
    /// There must be at least one row.
    pub fn new(vecs: Vec<Vec<T>>) -> (matrix: Option<Matrix<T>>)
        requires
            vecs@.len() > 0,
        ensures
            matrix is Some <==> rectangular(vecs@),
            matrix matches Some(m) ==> {
                &&& m.items == vecs
                &&& m.rows == vecs@.len()
                &&& m.cols == vecs@[0]@.len()
                &&& m.wf()
            },
    {
        let first_col_len = vecs[0].len();
        let mut i: usize = 0;
        while i < vecs.len()
            invariant
                i <= vecs@.len(),
                first_col_len == vecs@[0]@.len(),
                forall|k: int| 0 <= k < i ==> (#[trigger] vecs@[k])@.len() == first_col_len,
            decreases vecs@.len() - i,
        {
            if vecs[i].len() != first_col_len {
                return None;
            }
            i += 1;
        }
        Some(Matrix { rows: vecs.len(), cols: first_col_len, items: vecs })
    }

    /// The matrix of `m` rows and `n` columns whose items are all `x`.
    /// There must be at least one row; a count of columns below one gives
    /// rows without items.
    pub fn new_from(x: T, m: i32, n: i32) -> (matrix: Matrix<T>)
        requires
            m > 0,
        ensures
            matrix.wf(),
            matrix.rows == m,
            matrix.cols == (if n > 0 {
                n as int
            } else {
                0
            }),
            forall|i: int, j: int|
                0 <= i < matrix.rows && 0 <= j < matrix.cols ==> matrix.at(i, j) == x,
    {
        let mut matrix: Vec<Vec<T>> = Vec::new();
        let mut i: i32 = 0;
        while i < m
            invariant
                0 <= i <= m,
                matrix@.len() == i,
                forall|k: int|
                    0 <= k < i ==> (#[trigger] matrix@[k])@.len() == (if n > 0 {
                        n as int
                    } else {
                        0
                    }),
                forall|k: int, j: int|
                    0 <= k < i && 0 <= j < matrix@[k]@.len() ==> matrix@[k]@[j] == x,
            decreases m - i,
        {
            let mut r: Vec<T> = Vec::new();
            let mut j: i32 = 0;
            while j < n
                invariant
                    0 <= j,
                    j <= n || j == 0,
                    r@.len() == j,
                    forall|k: int| 0 <= k < j ==> r@[k] == x,
                decreases n - j,
            {
                r.push(x);
                j += 1;
            }
            matrix.push(r);
            i += 1;
        }
        Matrix::new(matrix).unwrap()
    }

    /// Whether the two matrices have the same numbers of rows and columns.
    pub fn compare_dimensions(&self, other: &Matrix<T>) -> (same: bool)
        ensures
            same == (self.rows == other.rows && self.cols == other.cols),
    {
        let same_rows = self.rows == other.rows;
        let same_cols = self.cols == other.cols;
        same_cols && same_rows
    }

    /// The transpose: the matrix whose rows are the columns of this one.
    /// There must be at least one column.
    pub fn transpose(&self) -> (transposed: Matrix<T>)
        requires
            self.wf(),
            self.cols > 0,
        ensures
            transposed.wf(),
            transposed.rows == self.cols,
            transposed.cols == self.rows,
            forall|n: int, m: int|
                0 <= n < self.cols && 0 <= m < self.rows ==> transposed.at(n, m) == self.at(m, n),
    {
        let mut t: Vec<Vec<T>> = Vec::new();
        // n == t rows
        let mut n: usize = 0;
        while n < self.cols
            invariant
                self.wf(),
                n <= self.cols,
                t@.len() == n,
                forall|k: int| 0 <= k < n ==> (#[trigger] t@[k])@.len() == self.rows,
                forall|k: int, m: int|
                    0 <= k < n && 0 <= m < self.rows ==> t@[k]@[m] == self.at(m, k),
            decreases self.cols - n,
        {
            let mut column: Vec<T> = Vec::new();
            // m == t cols
            let mut m: usize = 0;
            while m < self.rows
                invariant
                    self.wf(),
                    n < self.cols,
                    m <= self.rows,
                    column@.len() == m,
                    forall|k: int| 0 <= k < m ==> column@[k] == self.at(k, n as int),
                decreases self.rows - m,
            {
                column.push(self.items[m][n]);
                m += 1;
            }
            t.push(column);
            n += 1;
        }
        Matrix::new(t).unwrap()
    }

    /// Whether the matrix has as many rows as columns.
    pub fn is_square(&self) -> (square: bool)
        ensures
            square == (self.rows == self.cols),
    {
        self.rows == self.cols
    }
}

/// Whether `sum` is the item-wise sum of `a` and `b`, as far as the items'
/// own addition is specified.
pub open spec fn is_sum<T: Add<T, Output = T> + Sub + Copy>(
    a: Matrix<T>,
    b: Matrix<T>,
    sum: Matrix<T>,
) -> bool {
    &&& sum.wf()
    &&& sum.rows == a.rows
    &&& sum.cols == a.cols
    &&& T::obeys_add_spec() ==> forall|i: int, j: int|
        0 <= i < a.rows && 0 <= j < a.cols ==> sum.at(i, j) == a.at(i, j).add_spec(b.at(i, j))
}

/// Whether `a` and `b` can be added: they have the same dimensions, and
/// every pair of items can be added.
pub open spec fn can_add<T: Add<T, Output = T> + Sub + Copy>(a: Matrix<T>, b: Matrix<T>) -> bool {
    &&& a.wf()
    &&& b.wf()
    &&& a.rows == b.rows
    &&& a.cols == b.cols
    &&& forall|i: int, j: int|
        0 <= i < a.rows && 0 <= j < a.cols ==> #[trigger] a.at(i, j).add_req(b.at(i, j))
}

// Matrix + Matrix
impl<T: Add<T, Output = T> + Sub + Mul + Div + Copy> Matrix<T> {
    /// The item-wise sum of two matrices of the same dimensions.
    pub fn sum(&self, other: &Matrix<T>) -> (sum: Matrix<T>)
        requires
            can_add(*self, *other),
        ensures
            is_sum(*self, *other, sum),
    {
        let mut mat: Vec<Vec<T>> = Vec::new();
        let mut i: usize = 0;
        while i < self.rows
            invariant
                can_add(*self, *other),
                i <= self.rows,
                mat@.len() == i,
                forall|k: int| 0 <= k < i ==> (#[trigger] mat@[k])@.len() == self.cols,
                T::obeys_add_spec() ==> forall|k: int, j: int|
                    0 <= k < i && 0 <= j < self.cols ==> mat@[k]@[j] == self.at(k, j).add_spec(
                        other.at(k, j),
                    ),
            decreases self.rows - i,
        {
            let mut r: Vec<T> = Vec::new();
            let mut j: usize = 0;
            while j < self.items[i].len()
                invariant
                    can_add(*self, *other),
                    i < self.rows,
                    j <= self.cols,
                    r@.len() == j,
                    T::obeys_add_spec() ==> forall|k: int|
                        0 <= k < j ==> r@[k] == self.at(i as int, k).add_spec(other.at(i as int, k)),
                decreases self.cols - j,
            {
                assert(self.at(i as int, j as int).add_req(other.at(i as int, j as int)));
                r.push(self.items[i][j] + other.items[i][j]);
                j += 1;
            }
            mat.push(r);
            i += 1;
        }
        Matrix::new(mat).unwrap()
    }
}

impl<T: Add<T, Output = T> + Sub + Mul + Div + Copy> Add<&Matrix<T>> for &Matrix<T> {
    type Output = Matrix<T>;

    /// The item-wise sum of two matrices of the same dimensions.
    fn add(self, other: &Matrix<T>) -> (sum: Matrix<T>)
        ensures
            is_sum(*self, *other, sum),
    {
        self.sum(other)
    }
}

/// When the operator may be used. What it returns is stated on the operator
/// itself, since no spec function builds a matrix.
impl<T: Add<T, Output = T> + Sub + Mul + Div + Copy> vstd::std_specs::ops::AddSpecImpl<&Matrix<T>> for &Matrix<T> {
    open spec fn obeys_add_spec() -> bool {
        false
    }

    open spec fn add_req(self, other: &Matrix<T>) -> bool {
        can_add(*self, *other)
    }

    open spec fn add_spec(self, other: &Matrix<T>) -> Matrix<T> {
        arbitrary()
    }
}

/// Whether `b` can be subtracted from `a`: they have the same dimensions,
/// and every pair of items can be subtracted.
pub open spec fn can_sub<T: Sub<T, Output = T> + Add + Copy>(a: Matrix<T>, b: Matrix<T>) -> bool {
    &&& a.wf()
    &&& b.wf()
    &&& a.rows == b.rows
    &&& a.cols == b.cols
    &&& forall|i: int, j: int|
        0 <= i < a.rows && 0 <= j < a.cols ==> #[trigger] a.at(i, j).sub_req(b.at(i, j))
}

/// Whether `difference` is the item-wise difference of `a` and `b`, as far
/// as the items' own subtraction is specified.
pub open spec fn is_difference<T: Sub<T, Output = T> + Add + Copy>(
    a: Matrix<T>,
    b: Matrix<T>,
    difference: Matrix<T>,
) -> bool {
    &&& difference.wf()
    &&& difference.rows == a.rows
    &&& difference.cols == a.cols
    &&& T::obeys_sub_spec() ==> forall|i: int, j: int|
        0 <= i < a.rows && 0 <= j < a.cols ==> difference.at(i, j) == a.at(i, j).sub_spec(
            b.at(i, j),
        )
}

// Matrix - Matrix
impl<T: Sub<T, Output = T> + Add + Mul + Div + Copy> Matrix<T> {
    /// The item-wise difference of two matrices of the same dimensions.
    pub fn difference(&self, other: &Matrix<T>) -> (difference: Matrix<T>)
        requires
            can_sub(*self, *other),
        ensures
            is_difference(*self, *other, difference),
    {
        let mut mat: Vec<Vec<T>> = Vec::new();
        let mut i: usize = 0;
        while i < self.rows
            invariant
                can_sub(*self, *other),
                i <= self.rows,
                mat@.len() == i,
                forall|k: int| 0 <= k < i ==> (#[trigger] mat@[k])@.len() == self.cols,
                T::obeys_sub_spec() ==> forall|k: int, j: int|
                    0 <= k < i && 0 <= j < self.cols ==> mat@[k]@[j] == self.at(k, j).sub_spec(
                        other.at(k, j),
                    ),
            decreases self.rows - i,
        {
            let mut r: Vec<T> = Vec::new();
            let mut j: usize = 0;
            while j < self.items[i].len()
                invariant
                    can_sub(*self, *other),
                    i < self.rows,
                    j <= self.cols,
                    r@.len() == j,
                    T::obeys_sub_spec() ==> forall|k: int|
                        0 <= k < j ==> r@[k] == self.at(i as int, k).sub_spec(other.at(i as int, k)),
                decreases self.cols - j,
            {
                assert(self.at(i as int, j as int).sub_req(other.at(i as int, j as int)));
                r.push(self.items[i][j] - other.items[i][j]);
                j += 1;
            }
            mat.push(r);
            i += 1;
        }
        Matrix::new(mat).unwrap()
    }
}

impl<T: Sub<T, Output = T> + Add + Mul + Div + Copy> Sub<&Matrix<T>> for &Matrix<T> {
    type Output = Matrix<T>;

    /// The item-wise difference of two matrices of the same dimensions.
    fn sub(self, other: &Matrix<T>) -> (difference: Matrix<T>)
        ensures
            is_difference(*self, *other, difference),
    {
        self.difference(other)
    }
}

/// When the operator may be used. What it returns is stated on the operator
/// itself, since no spec function builds a matrix.
impl<T: Sub<T, Output = T> + Add + Mul + Div + Copy> vstd::std_specs::ops::SubSpecImpl<&Matrix<T>> for &Matrix<T> {
    open spec fn obeys_sub_spec() -> bool {
        false
    }

    open spec fn sub_req(self, other: &Matrix<T>) -> bool {
        can_sub(*self, *other)
    }

    open spec fn sub_spec(self, other: &Matrix<T>) -> Matrix<T> {
        arbitrary()
    }
}

/// Whether `a` can be multiplied by the scalar `n`: every item can.
pub open spec fn can_scale<T: Mul<T, Output = T> + Add + Sub + Copy>(a: Matrix<T>, n: T) -> bool {
    &&& a.wf()
    &&& forall|i: int, j: int| 0 <= i < a.rows && 0 <= j < a.cols ==> #[trigger] a.at(i, j).mul_req(n)
}

/// Whether `scaled` is `a` with every item multiplied by `n`, as far as the
/// items' own multiplication is specified.
pub open spec fn is_scaled<T: Mul<T, Output = T> + Add + Sub + Copy>(
    a: Matrix<T>,
    n: T,
    scaled: Matrix<T>,
) -> bool {
    &&& scaled.wf()
    &&& scaled.rows == a.rows
    &&& scaled.cols == a.cols
    &&& T::obeys_mul_spec() ==> forall|i: int, j: int|
        0 <= i < a.rows && 0 <= j < a.cols ==> scaled.at(i, j) == a.at(i, j).mul_spec(n)
}

// Matrix * Scalar
impl<T: Mul<T, Output = T> + Add + Sub + Div + Copy> Matrix<T> {
    /// The matrix with every item multiplied by `n`.
    pub fn scaled(&self, n: T) -> (scaled: Matrix<T>)
        requires
            can_scale(*self, n),
        ensures
            is_scaled(*self, n, scaled),
    {
        let mut mat: Vec<Vec<T>> = Vec::new();
        let mut i: usize = 0;
        while i < self.rows
            invariant
                can_scale(*self, n),
                i <= self.rows,
                mat@.len() == i,
                forall|k: int| 0 <= k < i ==> (#[trigger] mat@[k])@.len() == self.cols,
                T::obeys_mul_spec() ==> forall|k: int, j: int|
                    0 <= k < i && 0 <= j < self.cols ==> mat@[k]@[j] == self.at(k, j).mul_spec(n),
            decreases self.rows - i,
        {
            let mut r: Vec<T> = Vec::new();
            let mut j: usize = 0;
            while j < self.items[i].len()
                invariant
                    can_scale(*self, n),
                    i < self.rows,
                    j <= self.cols,
                    r@.len() == j,
                    T::obeys_mul_spec() ==> forall|k: int|
                        0 <= k < j ==> r@[k] == self.at(i as int, k).mul_spec(n),
                decreases self.cols - j,
            {
                assert(self.at(i as int, j as int).mul_req(n));
                r.push(self.items[i][j] * n);
                j += 1;
            }
            mat.push(r);
            i += 1;
        }
        Matrix::new(mat).unwrap()
    }
}

impl<T: Mul<T, Output = T> + Add + Sub + Div + Copy> Mul<T> for &Matrix<T> {
    type Output = Matrix<T>;

    /// The matrix with every item multiplied by `n`.
    fn mul(self, n: T) -> (scaled: Matrix<T>)
        ensures
            is_scaled(*self, n, scaled),
    {
        self.scaled(n)
    }
}

/// When the operator may be used. What it returns is stated on the operator
/// itself, since no spec function builds a matrix.
impl<T: Mul<T, Output = T> + Add + Sub + Div + Copy> vstd::std_specs::ops::MulSpecImpl<T> for &Matrix<T> {
    open spec fn obeys_mul_spec() -> bool {
        false
    }

    open spec fn mul_req(self, n: T) -> bool {
        can_scale(*self, n)
    }

    open spec fn mul_spec(self, n: T) -> Matrix<T> {
        arbitrary()
    }
}

/// Whether `a` can be divided by the scalar `n`: every item can.
pub open spec fn can_divide<T: Div<T, Output = T> + Add + Sub + Copy>(a: Matrix<T>, n: T) -> bool {
    &&& a.wf()
    &&& forall|i: int, j: int| 0 <= i < a.rows && 0 <= j < a.cols ==> #[trigger] a.at(i, j).div_req(n)
}

/// Whether `divided` is `a` with every item divided by `n`, as far as the
/// items' own division is specified.
pub open spec fn is_divided<T: Div<T, Output = T> + Add + Sub + Copy>(
    a: Matrix<T>,
    n: T,
    divided: Matrix<T>,
) -> bool {
    &&& divided.wf()
    &&& divided.rows == a.rows
    &&& divided.cols == a.cols
    &&& T::obeys_div_spec() ==> forall|i: int, j: int|
        0 <= i < a.rows && 0 <= j < a.cols ==> divided.at(i, j) == a.at(i, j).div_spec(n)
}

// Matrix / Scalar
impl<T: Div<T, Output = T> + Add + Sub + Mul + Copy> Matrix<T> {
    /// The matrix with every item divided by `n`.
    pub fn divided(&self, n: T) -> (divided: Matrix<T>)
        requires
            can_divide(*self, n),
        ensures
            is_divided(*self, n, divided),
    {
        let mut mat: Vec<Vec<T>> = Vec::new();
        let mut i: usize = 0;
        while i < self.rows
            invariant
                can_divide(*self, n),
                i <= self.rows,
                mat@.len() == i,
                forall|k: int| 0 <= k < i ==> (#[trigger] mat@[k])@.len() == self.cols,
                T::obeys_div_spec() ==> forall|k: int, j: int|
                    0 <= k < i && 0 <= j < self.cols ==> mat@[k]@[j] == self.at(k, j).div_spec(n),
            decreases self.rows - i,
        {
            let mut r: Vec<T> = Vec::new();
            let mut j: usize = 0;
            while j < self.items[i].len()
                invariant
                    can_divide(*self, n),
                    i < self.rows,
                    j <= self.cols,
                    r@.len() == j,
                    T::obeys_div_spec() ==> forall|k: int|
                        0 <= k < j ==> r@[k] == self.at(i as int, k).div_spec(n),
                decreases self.cols - j,
            {
                assert(self.at(i as int, j as int).div_req(n));
                r.push(self.items[i][j] / n);
                j += 1;
            }
            mat.push(r);
            i += 1;
        }
        Matrix::new(mat).unwrap()
    }
}

impl<T: Div<T, Output = T> + Add + Sub + Mul + Copy> Div<T> for &Matrix<T> {
    type Output = Matrix<T>;

    /// The matrix with every item divided by `n`.
    fn div(self, n: T) -> (divided: Matrix<T>)
        ensures
            is_divided(*self, n, divided),
    {
        self.divided(n)
    }
}

/// When the operator may be used. What it returns is stated on the operator
/// itself, since no spec function builds a matrix.
impl<T: Div<T, Output = T> + Add + Sub + Mul + Copy> vstd::std_specs::ops::DivSpecImpl<T> for &Matrix<T> {
    open spec fn obeys_div_spec() -> bool {
        false
    }

    open spec fn div_req(self, n: T) -> bool {
        can_divide(*self, n)
    }

    open spec fn div_spec(self, n: T) -> Matrix<T> {
        arbitrary()
    }
}

/// The sum of the first `n` products of row `i` of `a` with column `c` of
/// `b`, added up from the left. There is no sum of no products.
pub open spec fn dot<T: Mul<T, Output = T> + Add<T, Output = T> + Sub + Copy>(
    a: Matrix<T>,
    b: Matrix<T>,
    i: int,
    c: int,
    n: int,
) -> T
    decreases n,
{
    if n <= 1 {
        a.at(i, 0).mul_spec(b.at(0, c))
    } else {
        dot(a, b, i, c, n - 1).add_spec(a.at(i, n - 1).mul_spec(b.at(n - 1, c)))
    }
}

/// Whether the first `n` products of row `i` of `a` with column `c` of `b`
/// can be formed and added up from the left.
pub open spec fn can_dot<T: Mul<T, Output = T> + Add<T, Output = T> + Sub + Copy>(
    a: Matrix<T>,
    b: Matrix<T>,
    i: int,
    c: int,
    n: int,
) -> bool
    decreases n,
{
    if n <= 1 {
        a.at(i, 0).mul_req(b.at(0, c))
    } else {
        &&& can_dot(a, b, i, c, n - 1)
        &&& a.at(i, n - 1).mul_req(b.at(n - 1, c))
        &&& dot(a, b, i, c, n - 1).add_req(a.at(i, n - 1).mul_spec(b.at(n - 1, c)))
    }
}

/// Whether `a` can be multiplied with `b`: `a` has as many columns as `b`
/// has rows, at least one, the items' arithmetic is specified, and every
/// product and every sum of the row-by-column products can be formed.
pub open spec fn can_multiply<T: Mul<T, Output = T> + Add<T, Output = T> + Sub + Copy>(
    a: Matrix<T>,
    b: Matrix<T>,
) -> bool {
    &&& a.wf()
    &&& b.wf()
    &&& a.cols == b.rows
    &&& <T as MulSpec<T>>::obeys_mul_spec()
    &&& <T as AddSpec<T>>::obeys_add_spec()
    &&& forall|i: int, c: int|
        0 <= i < a.rows && 0 <= c < b.cols ==> #[trigger] can_dot(a, b, i, c, a.cols as int)
}

/// Whether `product` is the matrix product of `a` and `b`.
pub open spec fn is_product<T: Mul<T, Output = T> + Add<T, Output = T> + Sub + Copy>(
    a: Matrix<T>,
    b: Matrix<T>,
    product: Matrix<T>,
) -> bool {
    &&& product.wf()
    &&& product.rows == a.rows
    &&& product.cols == b.cols
    &&& forall|i: int, c: int|
        0 <= i < a.rows && 0 <= c < b.cols ==> product.at(i, c) == dot(a, b, i, c, a.cols as int)
}

/// If the first `n` products can be added up, so can the first `m`, for any
/// `m` from one to `n`.
pub proof fn lemma_can_dot_prefix<T: Mul<T, Output = T> + Add<T, Output = T> + Sub + Copy>(
    a: Matrix<T>,
    b: Matrix<T>,
    i: int,
    c: int,
    n: int,
    m: int,
)
    requires
        1 <= m <= n,
        can_dot(a, b, i, c, n),
    ensures
        can_dot(a, b, i, c, m),
    decreases n - m,
{
    if m < n {
        lemma_can_dot_prefix(a, b, i, c, n - 1, m);
    }
}

// Matrix * Matrix
impl<T: Mul<T, Output = T> + Add<T, Output = T> + Sub + Div + Copy> Matrix<T> {
    /// The matrix product.
    pub fn product(&self, other: &Matrix<T>) -> (product: Matrix<T>)
        requires
            can_multiply(*self, *other),
        ensures
            is_product(*self, *other, product),
    {
        let mut mat: Vec<Vec<T>> = Vec::new();
        let mut a: usize = 0;
        while a < self.rows
            invariant
                can_multiply(*self, *other),
                a <= self.rows,
                mat@.len() == a,
                forall|k: int| 0 <= k < a ==> (#[trigger] mat@[k])@.len() == other.cols,
                forall|k: int, c: int|
                    0 <= k < a && 0 <= c < other.cols ==> mat@[k]@[c] == dot(
                        *self,
                        *other,
                        k,
                        c,
                        self.cols as int,
                    ),
            decreases self.rows - a,
        {
            let mut r: Vec<T> = Vec::new();
            let mut c: usize = 0;
            while c < other.cols
                invariant
                    can_multiply(*self, *other),
                    a < self.rows,
                    c <= other.cols,
                    r@.len() == c,
                    forall|k: int|
                        0 <= k < c ==> r@[k] == dot(*self, *other, a as int, k, self.cols as int),
                decreases other.cols - c,
            {
                assert(can_dot(*self, *other, a as int, c as int, self.cols as int));
                proof {
                    lemma_can_dot_prefix(*self, *other, a as int, c as int, self.cols as int, 1);
                }
                let mut dot_product: T = self.items[a][0] * other.items[0][c];
                let mut b: usize = 1;
                while b < self.cols
                    invariant
                        can_multiply(*self, *other),
                        can_dot(*self, *other, a as int, c as int, self.cols as int),
                        a < self.rows,
                        c < other.cols,
                        1 <= b <= self.cols,
                        dot_product == dot(*self, *other, a as int, c as int, b as int),
                    decreases self.cols - b,
                {
                    proof {
                        lemma_can_dot_prefix(
                            *self,
                            *other,
                            a as int,
                            c as int,
                            self.cols as int,
                            b as int + 1,
                        );
                    }
                    let a1 = self.items[a][b];
                    let b1 = other.items[b][c];
                    let mul = a1 * b1;
                    dot_product = dot_product + mul;
                    b += 1;
                }
                r.push(dot_product);
                c += 1;
            }
            mat.push(r);
            a += 1;
        }
        Matrix::new(mat).unwrap()
    }
}

impl<T: Mul<T, Output = T> + Add<T, Output = T> + Sub + Div + Copy> Mul<&Matrix<T>> for &Matrix<T> {
    type Output = Matrix<T>;

    /// The matrix product.
    fn mul(self, other: &Matrix<T>) -> (product: Matrix<T>)
        ensures
            is_product(*self, *other, product),
    {
        self.product(other)
    }
}

/// When the operator may be used. What it returns is stated on the operator
/// itself, since no spec function builds a matrix.
impl<T: Mul<T, Output = T> + Add<T, Output = T> + Sub + Div + Copy> vstd::std_specs::ops::MulSpecImpl<&Matrix<T>> for &Matrix<T> {
    open spec fn obeys_mul_spec() -> bool {
        false
    }

    open spec fn mul_req(self, other: &Matrix<T>) -> bool {
        can_multiply(*self, *other)
    }

    open spec fn mul_spec(self, other: &Matrix<T>) -> Matrix<T> {
        arbitrary()
    }
}

} // verus!
