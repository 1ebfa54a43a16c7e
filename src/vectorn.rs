//! Fixed-shape two- and three-dimensional grids with row-major flat storage.
use vstd::prelude::*;
use vstd::std_specs::iter::IteratorSpec;

verus! {

/// Lemma: a row-major index `a * n + b` with `a < m` and `b < n` lies below `m * n`.
pub proof fn lemma_row_major_bound(a: int, b: int, m: int, n: int)
    requires
        0 <= a < m,
        0 <= b < n,
    ensures
        0 <= a * n + b < m * n,
{
    assert(0 <= a * n) by (nonlinear_arith)
        requires
            0 <= a,
            0 <= n,
    ;
    assert((a + 1) * n == a * n + n) by (nonlinear_arith);
    assert((a + 1) * n <= m * n) by (nonlinear_arith)
        requires
            a + 1 <= m,
            0 <= n,
    ;
}

/// A `row x col` grid, stored row by row in one flat vector.
pub struct Vector2<T> {
    size_row: usize,
    size_col: usize,
    data: Vec<T>,
}

/// An `a x b x c` grid, stored in row-major order in one flat vector.
pub struct Vector3<T> {
    size_a: usize,
    size_b: usize,
    size_c: usize,
    data: Vec<T>,
}

impl<T> View for Vector2<T> {
    type V = Seq<T>;

    /// The flat, row-major contents.
    closed spec fn view(&self) -> Seq<T> {
        self.data@
    }
}

impl<T> View for Vector3<T> {
    type V = Seq<T>;

    /// The flat, row-major contents.
    closed spec fn view(&self) -> Seq<T> {
        self.data@
    }
}

impl<T> Vector2<T> {
    /// Number of rows.
    pub closed spec fn rows(&self) -> nat {
        self.size_row as nat
    }

    /// Number of columns.
    pub closed spec fn cols(&self) -> nat {
        self.size_col as nat
    }

    /// The storage holds exactly one element per cell, and every flat index fits in `usize`.
    pub open spec fn well_formed(&self) -> bool {
        &&& self@.len() == self.rows() * self.cols()
        &&& self.rows() * self.cols() <= usize::MAX
    }

    /// Position of cell `(row, col)` in the flat storage.
    pub open spec fn flat_index(&self, row: int, col: int) -> int {
        row * self.cols() + col
    }

    /// The element at cell `(row, col)`.
    pub open spec fn at(&self, row: int, col: int) -> T {
        self@[self.flat_index(row, col)]
    }

    /// Whether `(row, col)` names a cell of the grid.
    pub open spec fn in_range(&self, row: int, col: int) -> bool {
        0 <= row < self.rows() && 0 <= col < self.cols()
    }
}

impl<T> Vector3<T> {
    /// Extent of the first dimension.
    pub closed spec fn dim_a(&self) -> nat {
        self.size_a as nat
    }

    /// Extent of the second dimension.
    pub closed spec fn dim_b(&self) -> nat {
        self.size_b as nat
    }

    /// Extent of the third dimension.
    pub closed spec fn dim_c(&self) -> nat {
        self.size_c as nat
    }

    /// The storage holds exactly one element per cell, and every flat index fits in `usize`.
    pub open spec fn well_formed(&self) -> bool {
        &&& self@.len() == self.dim_a() * self.dim_b() * self.dim_c()
        &&& self.dim_a() * self.dim_b() * self.dim_c() <= usize::MAX
    }

    /// Position of cell `(a, b, c)` in the flat storage.
    pub open spec fn flat_index(&self, a: int, b: int, c: int) -> int {
        (a * self.dim_b() + b) * self.dim_c() + c
    }

    /// The element at cell `(a, b, c)`.
    pub open spec fn at(&self, a: int, b: int, c: int) -> T {
        self@[self.flat_index(a, b, c)]
    }

    /// Whether `(a, b, c)` names a cell of the grid.
    pub open spec fn in_range(&self, a: int, b: int, c: int) -> bool {
        0 <= a < self.dim_a() && 0 <= b < self.dim_b() && 0 <= c < self.dim_c()
    }
}

/// A vector of `n` copies of `value`.
fn filled<T: Copy>(value: T, n: usize) -> (r: Vec<T>)
    ensures
        r@ == Seq::new(n as nat, |i: int| value),
{
    let mut r: Vec<T> = Vec::with_capacity(n);
    let mut i: usize = 0;
    while i < n
        invariant
            i <= n,
            r@ == Seq::new(i as nat, |k: int| value),
        decreases n - i,
    {
        r.push(value);
        i = i + 1;
        assert(r@ =~= Seq::new(i as nat, |k: int| value));
    }
    r
}

/// Overwrites every element of `data` with `value`.
fn fill<T: Copy>(data: &mut Vec<T>, value: T)
    ensures
        final(data)@ == Seq::new(old(data)@.len(), |i: int| value),
{
    let n = data.len();
    let mut i: usize = 0;
    while i < n
        invariant
            i <= n,
            data@.len() == n,
            forall|k: int| 0 <= k < i ==> data@[k] == value,
        decreases n - i,
    {
        data[i] = value;
        i = i + 1;
    }
    assert(data@ =~= Seq::new(n as nat, |k: int| value));
}

impl<T: Copy> Vector2<T> {
    /// A `row x col` grid with every cell set to `init_val`.
    pub fn new(init_val: T, row: usize, col: usize) -> (r: Vector2<T>)
        requires
            row * col <= usize::MAX,
        ensures
            r.well_formed(),
            r.rows() == row,
            r.cols() == col,
            r@ == Seq::new((row * col) as nat, |i: int| init_val),
    {
        Vector2 { size_row: row, size_col: col, data: filled(init_val, row * col) }
    }

    /// A mutable reference to cell `(row, col)`.
    pub fn get_mut(&mut self, row: usize, col: usize) -> (r: &mut T)
        requires
            old(self).well_formed(),
            old(self).in_range(row as int, col as int),
        ensures
            *r == old(self).at(row as int, col as int),
            final(self).rows() == old(self).rows(),
            final(self).cols() == old(self).cols(),
            final(self)@ == old(self)@.update(
                old(self).flat_index(row as int, col as int),
                *final(r),
            ),
    {
        proof {
            lemma_row_major_bound(row as int, col as int, self.rows() as int, self.cols() as int);
        }
        let i = row * self.size_col + col;
        &mut self.data[i]
    }

    /// A reference to cell `(row, col)`.
    pub fn get(&self, row: usize, col: usize) -> (r: &T)
        requires
            self.well_formed(),
            self.in_range(row as int, col as int),
        ensures
            *r == self.at(row as int, col as int),
    {
        proof {
            lemma_row_major_bound(row as int, col as int, self.rows() as int, self.cols() as int);
        }
        &self.data[row * self.size_col + col]
    }

    /// The flat storage, to be modified in place.
    pub fn iter_mut(&mut self) -> (r: &mut [T])
        ensures
            r@ == old(self)@,
            final(self).rows() == old(self).rows(),
            final(self).cols() == old(self).cols(),
            final(self)@ == final(r)@,
    {
        self.data.as_mut_slice()
    }

    /// An iterator over the flat storage, in row-major order.
    pub fn iter(&self) -> (r: std::slice::Iter<'_, T>)
        ensures
            r.remaining() == self@.as_ref(),
    {
        self.data.as_slice().iter()
    }

    /// The cells of one row, in column order.
    pub fn get_row(&self, row: usize) -> (r: &[T])
        requires
            self.well_formed(),
            row < self.rows(),
        ensures
            r@ == self@.subrange(self.flat_index(row as int, 0), self.flat_index(row as int + 1, 0)),
            r@.len() == self.cols(),
            forall|c: int| 0 <= c < self.cols() ==> #[trigger] r@[c] == self.at(row as int, c),
    {
        proof {
            assert((row + 1) * self.cols() <= self.rows() * self.cols()) by (nonlinear_arith)
                requires
                    row + 1 <= self.rows(),
            ;
            assert((row + 1) * self.cols() == row * self.cols() + self.cols()) by (nonlinear_arith);
        }
        let start = row * self.size_col;
        let end = start + self.size_col;
        vstd::slice::slice_subrange(self.data.as_slice(), start, end)
    }

    /// Sets every cell to `value`; the shape is kept.
    pub fn clear(&mut self, value: T)
        ensures
            final(self).rows() == old(self).rows(),
            final(self).cols() == old(self).cols(),
            final(self)@ == Seq::new(old(self)@.len(), |i: int| value),
    {
        fill(&mut self.data, value);
    }
}

impl<T: Copy> Vector3<T> {
    /// An `a x b x c` grid with every cell set to `init_val`.
    pub fn new(init_val: T, dim_a: usize, dim_b: usize, dim_c: usize) -> (r: Vector3<T>)
        requires
            dim_a * dim_b <= usize::MAX,
            dim_a * dim_b * dim_c <= usize::MAX,
        ensures
            r.well_formed(),
            r.dim_a() == dim_a,
            r.dim_b() == dim_b,
            r.dim_c() == dim_c,
            r@ == Seq::new((dim_a * dim_b * dim_c) as nat, |i: int| init_val),
    {
        let n = dim_a * dim_b * dim_c;
        Vector3 { size_a: dim_a, size_b: dim_b, size_c: dim_c, data: filled(init_val, n) }
    }

    /// Lemma: the flat index of a cell in range lies within the storage.
    proof fn lemma_flat_index_bound(&self, a: int, b: int, c: int)
        requires
            self.in_range(a, b, c),
        ensures
            0 <= a * self.dim_b() + b < self.dim_a() * self.dim_b(),
            self.dim_a() * self.dim_b() <= self.dim_a() * self.dim_b() * self.dim_c(),
            0 <= self.flat_index(a, b, c) < self.dim_a() * self.dim_b() * self.dim_c(),
    {
        let ab = a * self.dim_b() + b;
        lemma_row_major_bound(a, b, self.dim_a() as int, self.dim_b() as int);
        lemma_row_major_bound(ab, c, (self.dim_a() * self.dim_b()) as int, self.dim_c() as int);
        let (ab_dims, dc) = ((self.dim_a() * self.dim_b()) as int, self.dim_c() as int);
        assert(ab_dims <= ab_dims * dc) by (nonlinear_arith)
            requires
                0 <= ab_dims,
                1 <= dc,
        ;
    }

    /// A mutable reference to cell `(pos_a, pos_b, pos_c)`.
    pub fn get_mut(&mut self, pos_a: usize, pos_b: usize, pos_c: usize) -> (r: &mut T)
        requires
            old(self).well_formed(),
            old(self).in_range(pos_a as int, pos_b as int, pos_c as int),
        ensures
            *r == old(self).at(pos_a as int, pos_b as int, pos_c as int),
            final(self).dim_a() == old(self).dim_a(),
            final(self).dim_b() == old(self).dim_b(),
            final(self).dim_c() == old(self).dim_c(),
            final(self)@ == old(self)@.update(
                old(self).flat_index(pos_a as int, pos_b as int, pos_c as int),
                *final(r),
            ),
    {
        proof {
            self.lemma_flat_index_bound(pos_a as int, pos_b as int, pos_c as int);
        }
        let i = (pos_a * self.size_b + pos_b) * self.size_c + pos_c;
        &mut self.data[i]
    }

    /// A reference to cell `(pos_a, pos_b, pos_c)`.
    pub fn get(&self, pos_a: usize, pos_b: usize, pos_c: usize) -> (r: &T)
        requires
            self.well_formed(),
            self.in_range(pos_a as int, pos_b as int, pos_c as int),
        ensures
            *r == self.at(pos_a as int, pos_b as int, pos_c as int),
    {
        proof {
            self.lemma_flat_index_bound(pos_a as int, pos_b as int, pos_c as int);
        }
        &self.data[(pos_a * self.size_b + pos_b) * self.size_c + pos_c]
    }

    /// The flat storage, to be modified in place.
    pub fn iter_mut(&mut self) -> (r: &mut [T])
        ensures
            r@ == old(self)@,
            final(self).dim_a() == old(self).dim_a(),
            final(self).dim_b() == old(self).dim_b(),
            final(self).dim_c() == old(self).dim_c(),
            final(self)@ == final(r)@,
    {
        self.data.as_mut_slice()
    }

    /// An iterator over the flat storage, in row-major order.
    pub fn iter(&self) -> (r: std::slice::Iter<'_, T>)
        ensures
            r.remaining() == self@.as_ref(),
    {
        self.data.as_slice().iter()
    }

    /// Sets every cell to `value`; the shape is kept.
    pub fn clear(&mut self, value: T)
        ensures
            final(self).dim_a() == old(self).dim_a(),
            final(self).dim_b() == old(self).dim_b(),
            final(self).dim_c() == old(self).dim_c(),
            final(self)@ == Seq::new(old(self)@.len(), |i: int| value),
    {
        fill(&mut self.data, value);
    }
}

} // verus!
