//! Sparse matrices that store only their populated coordinates.

use std::collections::BTreeMap;
use vstd::prelude::*;
use vstd::string::StringExecFns;
use vstd::std_specs::btree::spec_btree_map_iter;
use vstd::std_specs::iter::IteratorSpec;

verus! {

broadcast use {vstd::std_specs::btree::group_btree_axioms, vstd::laws_cmp::group_laws_cmp};

/// A `(row, col)` coordinate.
pub type Coords = (u64, u64);

/// The additive identity of an element type.
pub trait Zero: Sized {
    /// The zero value; each verified impl states its own.
    open spec fn spec_zero() -> Self {
        arbitrary()
    }

    /// A shared reference to the zero value.
    fn zero() -> (r: &'static Self)
        ensures
            *r == Self::spec_zero(),
    ;
}

/// The multiplicative identity of an element type.
pub trait One: Sized {
    /// The one value; each verified impl states its own.
    open spec fn spec_one() -> Self {
        arbitrary()
    }

    /// A shared reference to the one value.
    fn one() -> (r: &'static Self)
        ensures
            *r == Self::spec_one(),
    ;
}

/// What a matrix element must offer: both identities, and cheap copies.
pub trait MatrixElem: Zero + One + Copy {

}

impl<T: Zero + One + Copy> MatrixElem for T {

}

impl Zero for i32 {
    open spec fn spec_zero() -> i32 {
        0
    }

    fn zero() -> (r: &'static i32) {
        &0
    }
}

impl One for i32 {
    open spec fn spec_one() -> i32 {
        1
    }

    fn one() -> (r: &'static i32) {
        &1
    }
}

impl Zero for i64 {
    open spec fn spec_zero() -> i64 {
        0
    }

    fn zero() -> (r: &'static i64) {
        &0
    }
}

impl One for i64 {
    open spec fn spec_one() -> i64 {
        1
    }

    fn one() -> (r: &'static i64) {
        &1
    }
}

impl Zero for u32 {
    open spec fn spec_zero() -> u32 {
        0
    }

    fn zero() -> (r: &'static u32) {
        &0
    }
}

impl One for u32 {
    open spec fn spec_one() -> u32 {
        1
    }

    fn one() -> (r: &'static u32) {
        &1
    }
}

impl Zero for u64 {
    open spec fn spec_zero() -> u64 {
        0
    }

    fn zero() -> (r: &'static u64) {
        &0
    }
}

impl One for u64 {
    open spec fn spec_one() -> u64 {
        1
    }

    fn one() -> (r: &'static u64) {
        &1
    }
}

/// A sparse matrix that maps populated coordinates to their values.
///
/// A coordinate absent from the map holds the element type's zero. The
/// coordinates in the map are not checked against the shape: reads are.
pub struct DOKMatrix<T: 'static> where T: MatrixElem {
    pub nrows: u64,
    pub ncols: u64,
    elems: BTreeMap<Coords, T>,
}

/// The reason an access was refused: the coordinate lies outside the shape.
#[derive(Debug, Clone, Copy, PartialEq, Eq, Structural)]
pub struct OutOfBounds {
    pub row: u64,
    pub col: u64,
    pub nrows: u64,
    pub ncols: u64,
}

/// The decimal digits of `n`, most significant first, without leading
/// zeros.
pub open spec fn decimal(n: nat) -> Seq<char>
    decreases n,
{
    if n < 10 {
        seq![digit_char(n)]
    } else {
        decimal(n / 10) + seq![digit_char(n % 10)]
    }
}

/// The character of the digit `d`.
pub open spec fn digit_char(d: nat) -> char {
    if d < 10 {
        (('0' as u8) + d) as char
    } else {
        '?'
    }
}

/// The text that describes a refused access.
pub open spec fn out_of_bounds_text(e: OutOfBounds) -> Seq<char> {
    "Out of bounds index ("@ + decimal(e.row as nat) + ", "@ + decimal(e.col as nat)
        + ") for sparse matrix of shape ("@ + decimal(e.nrows as nat) + ", "@ + decimal(
        e.ncols as nat,
    ) + ")"@
}

/// The one-character text of the digit `d`.
fn digit_str(d: u64) -> (r: &'static str)
    requires
        d < 10,
    ensures
        r@ == seq![digit_char(d as nat)],
{
    proof {
        reveal_strlit("0");
        reveal_strlit("1");
        reveal_strlit("2");
        reveal_strlit("3");
        reveal_strlit("4");
        reveal_strlit("5");
        reveal_strlit("6");
        reveal_strlit("7");
        reveal_strlit("8");
        reveal_strlit("9");
    }
    if d == 0 {
        "0"
    } else if d == 1 {
        "1"
    } else if d == 2 {
        "2"
    } else if d == 3 {
        "3"
    } else if d == 4 {
        "4"
    } else if d == 5 {
        "5"
    } else if d == 6 {
        "6"
    } else if d == 7 {
        "7"
    } else if d == 8 {
        "8"
    } else {
        "9"
    }
}

/// `s` followed by the decimal digits of `n`.
fn push_decimal(s: String, n: u64) -> (r: String)
    ensures
        r@ == s@ + decimal(n as nat),
    decreases n,
{
    if n < 10 {
        s.concat(digit_str(n))
    } else {
        let head = push_decimal(s, n / 10);
        let r = head.concat(digit_str(n % 10));
        assert(r@ =~= s@ + decimal(n as nat));
        r
    }
}

impl OutOfBounds {
    /// Names the coordinate and the shape, as in
    /// `Out of bounds index (4, 0) for sparse matrix of shape (4, 8)`.
    pub fn message(&self) -> (r: String)
        ensures
            r@ == out_of_bounds_text(*self),
    {
        let s = String::from_str("Out of bounds index (");
        let s = push_decimal(s, self.row);
        let s = s.concat(", ");
        let s = push_decimal(s, self.col);
        let s = s.concat(") for sparse matrix of shape (");
        let s = push_decimal(s, self.nrows);
        let s = s.concat(", ");
        let s = push_decimal(s, self.ncols);
        let s = s.concat(")");
        assert(s@ =~= out_of_bounds_text(*self));
        s
    }
}

/// What a matrix is, mathematically: its shape and its stored entries.
pub struct MatrixView<T> {
    pub nrows: u64,
    pub ncols: u64,
    pub entries: Map<Coords, T>,
}

/// The coordinate with row and column exchanged.
pub open spec fn swap(k: Coords) -> Coords {
    (k.1, k.0)
}

/// The entries with every coordinate's row and column exchanged.
pub open spec fn swap_coords<T>(entries: Map<Coords, T>) -> Map<Coords, T> {
    Map::new(|k: Coords| entries.contains_key(swap(k)), |k: Coords| entries[swap(k)])
}

/// The matrix with its shape swapped and each entry `(row, col)` moved to
/// `(col, row)`.
pub open spec fn transpose_of<T>(v: MatrixView<T>) -> MatrixView<T> {
    MatrixView { nrows: v.ncols, ncols: v.nrows, entries: swap_coords(v.entries) }
}

/// The entries `(i, i) -> v` for each `i < size`.
pub open spec fn diagonal<T>(size: u64, v: T) -> Map<Coords, T> {
    Map::new(|k: Coords| k.0 == k.1 && k.0 < size, |k: Coords| v)
}

impl<T: MatrixElem> View for DOKMatrix<T> {
    type V = MatrixView<T>;

    closed spec fn view(&self) -> MatrixView<T> {
        MatrixView { nrows: self.nrows, ncols: self.ncols, entries: self.elems@ }
    }
}

impl<T: MatrixElem> MatrixView<T> {
    /// Whether `(row, col)` lies inside the shape.
    pub open spec fn in_bounds(self, row: u64, col: u64) -> bool {
        row < self.nrows && col < self.ncols
    }

    /// The value at `(row, col)`: the stored one, else zero.
    pub open spec fn value_at(self, row: u64, col: u64) -> T {
        if self.entries.contains_key((row, col)) {
            self.entries[(row, col)]
        } else {
            T::spec_zero()
        }
    }
}

impl<T: MatrixElem> DOKMatrix<T> {
    /// Whether `(row, col)` lies inside the shape.
    pub open spec fn in_bounds(&self, row: u64, col: u64) -> bool {
        self@.in_bounds(row, col)
    }

    /// The value at `(row, col)`: the stored one, else zero.
    pub open spec fn value_at(&self, row: u64, col: u64) -> T {
        self@.value_at(row, col)
    }

    /// Wraps `elems` as an `nrows` by `ncols` matrix, without checking its
    /// coordinates.
    pub fn new(nrows: u64, ncols: u64, elems: BTreeMap<Coords, T>) -> (r: Self)
        ensures
            r@ == (MatrixView { nrows: nrows, ncols: ncols, entries: elems@ }),
    {
        DOKMatrix { nrows: nrows, ncols: ncols, elems: elems }
    }

    /// An `nrows` by `ncols` matrix of zeros.
    pub fn zeros(nrows: u64, ncols: u64) -> (r: Self)
        ensures
            r@ == (MatrixView { nrows: nrows, ncols: ncols, entries: Map::<Coords, T>::empty() }),
            forall|row: u64, col: u64|
                r.in_bounds(row, col) ==> #[trigger] r.value_at(row, col) == T::spec_zero(),
    {
        Self::new(nrows, ncols, BTreeMap::new())
    }

    /// The `size` by `size` identity matrix: one on the diagonal, zero
    /// elsewhere.
    pub fn identity(size: u64) -> (r: Self)
        ensures
            r@ == (MatrixView { nrows: size, ncols: size, entries: diagonal(size, T::spec_one()) }),
            forall|row: u64, col: u64|
                r.in_bounds(row, col) ==> #[trigger] r.value_at(row, col) == if row == col {
                    T::spec_one()
                } else {
                    T::spec_zero()
                },
    {
        let mut map: BTreeMap<Coords, T> = BTreeMap::new();
        for i in 0..size
            invariant
                map@ == diagonal(i, T::spec_one()),
        {
            map.insert((i, i), *T::one());
            assert(map@ =~= diagonal((i + 1) as u64, T::spec_one()));
        }
        Self::new(size, size, map)
    }

    /// A new matrix with the shape swapped and each entry `(row, col)`
    /// moved to `(col, row)`.
    pub fn transposed(&self) -> (r: Self)
        ensures
            r@ == transpose_of(self@),
            forall|row: u64, col: u64| #[trigger]
                r.value_at(col, row) == self.value_at(row, col),
    {
        let mut map: BTreeMap<Coords, T> = BTreeMap::new();
        let ghost all = spec_btree_map_iter(&self.elems).remaining();
        let ghost mut done: int = 0;
        for kv in it: self.elems.iter()
            invariant
                it.seq() == all,
                done == it.index(),
                forall|k: Coords| #[trigger]
                    map@.contains_key(k) ==> self@.entries.contains_key(swap(k))
                        && map@[k] == self@.entries[swap(k)],
                forall|i: int|
                    0 <= i < done ==> map@.contains_key(swap(*(#[trigger] all[i]).0)),
        {
            let (k, v) = kv;
            map.insert((k.1, k.0), *v);
            proof {
                done = done + 1;
            }
        }
        assert(done == all.len());
        proof {
            assert forall|k: Coords| #[trigger]
                self@.entries.contains_key(k) implies map@.contains_key(swap(k)) by {
                assert(all.contains((&k, &self@.entries[k])));
            }
            assert(map@ =~= swap_coords(self@.entries));
            assert(transpose_of(self@).entries == map@);
        }
        Self::new(self.ncols, self.nrows, map)
    }

    /// The element at `coords`, which must lie inside the shape.
    pub fn index(&self, coords: Coords) -> (r: &T)
        requires
            self.in_bounds(coords.0, coords.1),
        ensures
            *r == self.value_at(coords.0, coords.1),
    {
        match self.elems.get(&coords) {
            None => T::zero(),
            Some(elem) => elem,
        }
    }

    /// The element at `coords`, or the coordinate and shape where
    /// `coords` lies outside the shape.
    pub fn try_index(&self, coords: Coords) -> (r: Result<&T, OutOfBounds>)
        ensures
            r is Err <==> !self.in_bounds(coords.0, coords.1),
            r matches Ok(v) ==> *v == self.value_at(coords.0, coords.1),
            r matches Err(e) ==> e == (OutOfBounds {
                row: coords.0,
                col: coords.1,
                nrows: self@.nrows,
                ncols: self@.ncols,
            }),
    {
        let (row, col) = coords;
        if row >= self.nrows || col >= self.ncols {
            Err(OutOfBounds { row: row, col: col, nrows: self.nrows, ncols: self.ncols })
        } else {
            Ok(self.index(coords))
        }
    }
}

/// Transposing twice gives back the original shape and entries, so every
/// coordinate reads as it did before; transposing once moves the value at
/// `(row, col)` to `(col, row)`.
pub proof fn lemma_transpose_involution<T: MatrixElem>(m: DOKMatrix<T>)
    ensures
        transpose_of(transpose_of(m@)) == m@,
        forall|row: u64, col: u64| #[trigger]
            transpose_of(transpose_of(m@)).value_at(row, col) == m@.value_at(row, col),
        forall|row: u64, col: u64| #[trigger]
            transpose_of(m@).value_at(col, row) == m@.value_at(row, col),
{
    assert(swap_coords(swap_coords(m@.entries)) =~= m@.entries);
}

} // verus!
