//! The shape of a grid and the mapping between a cell's coordinates and its
//! place in a field.
//!
//! A grid of `x * y * z` interior cells is stored with one layer of halo cells
//! on every face, so a field holds `(x + 2) * (y + 2) * (z + 2)` numbers. The
//! cell at `(cx, cy, cz)` stands at `cx + (x + 2) * (cy + (y + 2) * cz)`: `cx`
//! varies fastest. Every component of the solver finds its cells through
//! [`Dims::index_of`].

use vstd::prelude::*;
use vstd::arithmetic::div_mod::lemma_div_pos_is_pos;
use vstd::arithmetic::div_mod::lemma_fundamental_div_mod;
use vstd::arithmetic::div_mod::lemma_fundamental_div_mod_converse;
use vstd::arithmetic::div_mod::lemma_mod_bound;
use crate::scalar::Scalar;

verus! {

/// What a call can be refused for.
#[derive(Clone, Copy, Debug, PartialEq, Eq, Structural)]
pub enum WindError {
    /// A position lies outside the padded grid.
    IndexOutOfBounds,
    /// A grid was asked for that has an empty axis, or more cells than can be
    /// addressed.
    DegenerateConfiguration,
    /// A time step or a coefficient is negative, infinite or undefined.
    NonFiniteInput,
}

/// The number of interior cells along each axis.
#[derive(Clone, Copy, Debug, PartialEq, Eq, Structural)]
pub struct Dims {
    pub x: usize,
    pub y: usize,
    pub z: usize,
}

impl Dims {
    /// The length of a row of cells along x, halo included.
    pub open spec fn row_of(self) -> int {
        self.x + 2
    }

    /// The number of cells in a plane of constant z, halo included.
    pub open spec fn plane_of(self) -> int {
        (self.x + 2) * (self.y + 2)
    }

    /// The number of cells of a field, halo included.
    pub open spec fn cells_of(self) -> int {
        (self.x + 2) * (self.y + 2) * (self.z + 2)
    }

    /// No axis is empty, and the cells can be counted in a `usize`.
    pub open spec fn valid(self) -> bool {
        &&& self.x >= 1
        &&& self.y >= 1
        &&& self.z >= 1
        &&& self.cells_of() <= usize::MAX
    }

    /// `(x, y, z)` is a cell of the padded grid.
    pub open spec fn holds(self, x: int, y: int, z: int) -> bool {
        &&& 0 <= x <= self.x + 1
        &&& 0 <= y <= self.y + 1
        &&& 0 <= z <= self.z + 1
    }

    /// `(x, y, z)` is an interior cell.
    pub open spec fn interior(self, x: int, y: int, z: int) -> bool {
        &&& 1 <= x <= self.x
        &&& 1 <= y <= self.y
        &&& 1 <= z <= self.z
    }

    /// The place of the cell `(x, y, z)` in a field.
    pub open spec fn index_of(self, x: int, y: int, z: int) -> int {
        x + (self.x + 2) * (y + (self.y + 2) * z)
    }

    /// The x coordinate of the cell at place `i`.
    pub open spec fn x_of(self, i: int) -> int {
        i % (self.x + 2)
    }

    /// The y coordinate of the cell at place `i`.
    pub open spec fn y_of(self, i: int) -> int {
        (i / (self.x + 2)) % (self.y + 2)
    }

    /// The z coordinate of the cell at place `i`.
    pub open spec fn z_of(self, i: int) -> int {
        (i / (self.x + 2)) / (self.y + 2)
    }

    /// The cell at place `i` is an interior cell.
    pub open spec fn interior_at(self, i: int) -> bool {
        self.interior(self.x_of(i), self.y_of(i), self.z_of(i))
    }

    /// The dimensions `x * y * z`, unless an axis is empty or the padded grid
    /// has more cells than a `usize` can count.
    pub fn new(x: usize, y: usize, z: usize) -> (r: Result<Dims, WindError>)
        ensures
            (Dims { x, y, z }).valid() ==> r == Ok::<Dims, WindError>(Dims { x, y, z }),
            !(Dims { x, y, z }).valid() ==> r == Err::<Dims, WindError>(
                WindError::DegenerateConfiguration,
            ),
    {
        let d = Dims { x, y, z };
        if x == 0 || y == 0 || z == 0 {
            return Err(WindError::DegenerateConfiguration);
        }
        if x > usize::MAX - 2 || y > usize::MAX - 2 || z > usize::MAX - 2 {
            proof {
                lemma_cells_dominate(d);
            }
            return Err(WindError::DegenerateConfiguration);
        }
        proof {
            lemma_cells_dominate(d);
        }
        match (x + 2).checked_mul(y + 2) {
            None => Err(WindError::DegenerateConfiguration),
            Some(plane) => match plane.checked_mul(z + 2) {
                None => Err(WindError::DegenerateConfiguration),
                Some(_) => Ok(d),
            },
        }
    }

    /// The length of a row of cells along x, halo included.
    pub fn row(&self) -> (r: usize)
        requires
            self.valid(),
        ensures
            r == self.row_of(),
    {
        proof {
            lemma_cells_dominate(*self);
        }
        self.x + 2
    }

    /// The number of cells in a plane of constant z, halo included.
    pub fn plane(&self) -> (r: usize)
        requires
            self.valid(),
        ensures
            r == self.plane_of(),
    {
        proof {
            lemma_cells_dominate(*self);
        }
        (self.x + 2) * (self.y + 2)
    }

    /// The number of cells of a field, halo included.
    pub fn cells(&self) -> (r: usize)
        requires
            self.valid(),
        ensures
            r == self.cells_of(),
    {
        proof {
            lemma_cells_dominate(*self);
        }
        (self.x + 2) * (self.y + 2) * (self.z + 2)
    }

    /// Whether `(x, y, z)` is a cell of the padded grid.
    pub fn contains(&self, x: usize, y: usize, z: usize) -> (r: bool)
        requires
            self.valid(),
        ensures
            r == self.holds(x as int, y as int, z as int),
    {
        proof {
            lemma_cells_dominate(*self);
        }
        x <= self.x + 1 && y <= self.y + 1 && z <= self.z + 1
    }

    /// The place of the cell `(x, y, z)` in a field.
    pub fn index(&self, x: usize, y: usize, z: usize) -> (i: usize)
        requires
            self.valid(),
            self.holds(x as int, y as int, z as int),
        ensures
            i == self.index_of(x as int, y as int, z as int),
            i < self.cells_of(),
    {
        proof {
            lemma_cells_dominate(*self);
            lemma_index_in_range(*self, x as int, y as int, z as int);
        }
        x + (self.x + 2) * (y + (self.y + 2) * z)
    }
}

/// The field of the grid `d` that is `value` everywhere.
pub open spec fn uniform<T: Scalar>(d: Dims, value: T) -> Seq<T> {
    Seq::new(d.cells_of() as nat, |i: int| value)
}

/// A field of the grid `d` that is `value` everywhere.
pub(crate) fn uniform_field<T: Scalar>(d: &Dims, value: T) -> (field: Vec<T>)
    requires
        d.valid(),
    ensures
        field@ == uniform(*d, value),
        field.len() == d.cells_of(),
{
    let n = d.cells();
    let mut field: Vec<T> = Vec::new();
    let mut i: usize = 0;
    while i < n
        invariant
            i <= n,
            field.len() == i,
            forall|j: int| 0 <= j < i ==> field@[j] == value,
        decreases n - i,
    {
        field.push(value);
        i = i + 1;
    }
    assert(field@ =~= uniform(*d, value));
    field
}

/// A walk over the places of a field in increasing order, which keeps the
/// coordinates of the cell it stands on.
pub(crate) struct Cursor {
    pub i: usize,
    pub x: usize,
    pub y: usize,
    pub z: usize,
}

impl Cursor {
    /// The cursor stands on a cell of the grid `d`, or just behind the last.
    pub(crate) open spec fn at(self, d: Dims) -> bool {
        &&& self.i <= d.cells_of()
        &&& self.i < d.cells_of() ==> {
            &&& d.holds(self.x as int, self.y as int, self.z as int)
            &&& self.i == d.index_of(self.x as int, self.y as int, self.z as int)
            &&& self.x == d.x_of(self.i as int)
            &&& self.y == d.y_of(self.i as int)
            &&& self.z == d.z_of(self.i as int)
        }
    }

    pub(crate) fn start(d: &Dims) -> (c: Cursor)
        requires
            d.valid(),
        ensures
            c.at(*d),
            c.i == 0,
    {
        proof {
            lemma_index_in_range(*d, 0, 0, 0);
            lemma_coords_of_index(*d, 0, 0, 0);
            assert(d.index_of(0, 0, 0) == 0) by (nonlinear_arith)
                requires
                    d.index_of(0, 0, 0) == 0 + (d.x + 2) * (0 + (d.y + 2) * 0),
            ;
        }
        Cursor { i: 0, x: 0, y: 0, z: 0 }
    }

    /// Whether the cursor stands on an interior cell.
    pub(crate) fn inside(&self, d: &Dims) -> (r: bool)
        requires
            d.valid(),
            self.at(*d),
            self.i < d.cells_of(),
        ensures
            r == d.interior_at(self.i as int),
            r == d.interior(self.x as int, self.y as int, self.z as int),
    {
        1 <= self.x && self.x <= d.x && 1 <= self.y && self.y <= d.y && 1 <= self.z && self.z
            <= d.z
    }

    /// Moves to the next place.
    pub(crate) fn advance(&mut self, d: &Dims)
        requires
            d.valid(),
            old(self).at(*d),
            old(self).i < d.cells_of(),
        ensures
            final(self).at(*d),
            final(self).i == old(self).i + 1,
    {
        proof {
            lemma_cells_dominate(*d);
        }
        let ghost x0 = self.x as int;
        let ghost y0 = self.y as int;
        let ghost z0 = self.z as int;
        self.i = self.i + 1;
        if self.x <= d.x {
            self.x = self.x + 1;
        } else {
            self.x = 0;
            if self.y <= d.y {
                self.y = self.y + 1;
            } else {
                self.y = 0;
                self.z = self.z + 1;
            }
        }
        proof {
            let x1 = self.x as int;
            let y1 = self.y as int;
            let z1 = self.z as int;
            let w = d.x + 2;
            let h = d.y + 2;
            assert(d.index_of(x1, y1, z1) == d.index_of(x0, y0, z0) + 1) by (nonlinear_arith)
                requires
                    d.index_of(x1, y1, z1) == x1 + w * (y1 + h * z1),
                    d.index_of(x0, y0, z0) == x0 + w * (y0 + h * z0),
                    (x1 == x0 + 1 && y1 == y0 && z1 == z0) || (x0 == w - 1 && x1 == 0 && y1 == y0
                        + 1 && z1 == z0) || (x0 == w - 1 && x1 == 0 && y0 == h - 1 && y1 == 0
                        && z1 == z0 + 1),
            ;
            if self.i < d.cells_of() {
                if z1 > d.z + 1 {
                    assert(d.index_of(x1, y1, z1) >= w * h * (d.z + 2)) by (nonlinear_arith)
                        requires
                            d.index_of(x1, y1, z1) == x1 + w * (y1 + h * z1),
                            x1 >= 0,
                            y1 >= 0,
                            z1 >= d.z + 2,
                            w >= 2,
                            h >= 2,
                    ;
                }
                lemma_coords_of_index(*d, x1, y1, z1);
            }
        }
    }
}

/// Each factor of the cell count is at most the count.
pub proof fn lemma_cells_dominate(d: Dims)
    ensures
        d.x + 2 <= d.plane_of(),
        d.y + 2 <= d.plane_of(),
        d.plane_of() <= d.cells_of(),
        d.z + 2 <= d.cells_of(),
        d.plane_of() * (d.z + 2) == d.cells_of(),
        d.plane_of() == d.row_of() * (d.y + 2),
{
    let w = d.x + 2;
    let h = d.y + 2;
    let t = d.z + 2;
    assert(w <= w * h && h <= w * h) by (nonlinear_arith)
        requires
            w >= 2,
            h >= 2,
    ;
    assert(w * h <= w * h * t && t <= w * h * t) by (nonlinear_arith)
        requires
            w >= 2,
            h >= 2,
            t >= 2,
    ;
}

/// A cell of the padded grid has its place inside the field.
pub proof fn lemma_index_in_range(d: Dims, x: int, y: int, z: int)
    requires
        d.holds(x, y, z),
    ensures
        0 <= d.index_of(x, y, z) < d.cells_of(),
        0 <= (d.y + 2) * z <= y + (d.y + 2) * z < d.cells_of(),
        0 <= (d.x + 2) * (y + (d.y + 2) * z) <= d.index_of(x, y, z),
{
    let w = d.x + 2;
    let h = d.y + 2;
    let t = d.z + 2;
    assert(0 <= h * z <= y + h * z <= h * t - 1) by (nonlinear_arith)
        requires
            0 <= y <= h - 1,
            0 <= z <= t - 1,
            h >= 2,
    ;
    assert(0 <= w * (y + h * z) && x + w * (y + h * z) < w * h * t && h * t <= w * h * t)
        by (nonlinear_arith)
        requires
            0 <= x <= w - 1,
            0 <= y + h * z <= h * t - 1,
            w >= 2,
    ;
}

/// The six face neighbours of an interior cell are cells of the padded grid,
/// and stand one place, one row and one plane before and behind it.
pub proof fn lemma_neighbours(d: Dims, x: int, y: int, z: int)
    requires
        d.interior(x, y, z),
    ensures
        d.index_of(x - 1, y, z) == d.index_of(x, y, z) - 1,
        d.index_of(x + 1, y, z) == d.index_of(x, y, z) + 1,
        d.index_of(x, y - 1, z) == d.index_of(x, y, z) - d.row_of(),
        d.index_of(x, y + 1, z) == d.index_of(x, y, z) + d.row_of(),
        d.index_of(x, y, z - 1) == d.index_of(x, y, z) - d.plane_of(),
        d.index_of(x, y, z + 1) == d.index_of(x, y, z) + d.plane_of(),
        d.plane_of() <= d.index_of(x, y, z) < d.cells_of() - d.plane_of(),
        1 <= d.row_of() <= d.plane_of(),
{
    let w = d.x + 2;
    let h = d.y + 2;
    assert(w * ((y - 1) + h * z) == w * (y + h * z) - w && w * ((y + 1) + h * z) == w * (y + h
        * z) + w && w * (y + h * (z - 1)) == w * (y + h * z) - w * h && w * (y + h * (z + 1)) == w
        * (y + h * z) + w * h) by (nonlinear_arith);
    lemma_index_in_range(d, x, y, z - 1);
    lemma_index_in_range(d, x, y, z + 1);
    lemma_cells_dominate(d);
}

/// The coordinates read off a place are those of the cell that stands there.
pub proof fn lemma_coords_of_index(d: Dims, x: int, y: int, z: int)
    requires
        d.holds(x, y, z),
    ensures
        d.x_of(d.index_of(x, y, z)) == x,
        d.y_of(d.index_of(x, y, z)) == y,
        d.z_of(d.index_of(x, y, z)) == z,
{
    let w = d.x + 2;
    let h = d.y + 2;
    let i = d.index_of(x, y, z);
    let rows = y + h * z;
    assert(i == rows * w + x) by (nonlinear_arith)
        requires
            i == x + w * rows,
    ;
    lemma_fundamental_div_mod_converse(i, w, rows, x);
    assert(rows == z * h + y) by (nonlinear_arith)
        requires
            rows == y + h * z,
    ;
    lemma_fundamental_div_mod_converse(rows, h, z, y);
}

/// Every place of a field is that of exactly the cell whose coordinates are
/// read off it.
pub proof fn lemma_index_of_coords(d: Dims, i: int)
    requires
        0 <= i < d.cells_of(),
    ensures
        d.holds(d.x_of(i), d.y_of(i), d.z_of(i)),
        d.index_of(d.x_of(i), d.y_of(i), d.z_of(i)) == i,
{
    let w = d.x + 2;
    let h = d.y + 2;
    let t = d.z + 2;
    let rows = i / w;
    lemma_fundamental_div_mod(i, w);
    lemma_mod_bound(i, w);
    lemma_div_pos_is_pos(i, w);
    lemma_fundamental_div_mod(rows, h);
    lemma_mod_bound(rows, h);
    lemma_div_pos_is_pos(rows, h);
    let z = rows / h;
    let y = rows % h;
    let x = i % w;
    assert(rows < h * t) by (nonlinear_arith)
        requires
            i == w * rows + x,
            0 <= x,
            i < w * h * t,
            w >= 2,
    ;
    assert(z < t) by (nonlinear_arith)
        requires
            rows == h * z + y,
            0 <= y,
            rows < h * t,
            h >= 2,
    ;
}

/// The mapping from the cells of the padded grid to the places of a field is
/// one to one and onto: two cells share a place only if they are the same
/// cell, and every place below the cell count is the place of a cell.
pub proof fn lemma_index_bijective(d: Dims)
    ensures
        forall|x: int, y: int, z: int|
            d.holds(x, y, z) ==> 0 <= #[trigger] d.index_of(x, y, z) < d.cells_of(),
        forall|x1: int, y1: int, z1: int, x2: int, y2: int, z2: int|
            d.holds(x1, y1, z1) && d.holds(x2, y2, z2) && #[trigger] d.index_of(x1, y1, z1)
                == #[trigger] d.index_of(x2, y2, z2) ==> x1 == x2 && y1 == y2 && z1 == z2,
        forall|i: int|
            #![trigger d.x_of(i)]
            0 <= i < d.cells_of() ==> d.holds(d.x_of(i), d.y_of(i), d.z_of(i)) && i == d.index_of(
                d.x_of(i),
                d.y_of(i),
                d.z_of(i),
            ),
{
    assert forall|x: int, y: int, z: int| d.holds(x, y, z) implies 0 <= #[trigger] d.index_of(
        x,
        y,
        z,
    ) < d.cells_of() by {
        lemma_index_in_range(d, x, y, z);
    }
    assert forall|x1: int, y1: int, z1: int, x2: int, y2: int, z2: int|
        d.holds(x1, y1, z1) && d.holds(x2, y2, z2) && #[trigger] d.index_of(x1, y1, z1)
            == #[trigger] d.index_of(x2, y2, z2) implies x1 == x2 && y1 == y2 && z1 == z2 by {
        lemma_coords_of_index(d, x1, y1, z1);
        lemma_coords_of_index(d, x2, y2, z2);
    }
    assert forall|i: int| #![trigger d.x_of(i)] 0 <= i < d.cells_of() implies d.holds(
        d.x_of(i),
        d.y_of(i),
        d.z_of(i),
    ) && i == d.index_of(d.x_of(i), d.y_of(i), d.z_of(i)) by {
        lemma_index_of_coords(d, i);
    }
}

} // verus!
