//! The boundary enforcer: every halo cell of a field is filled from the
//! interior, so that no flow crosses a face of the domain.

use vstd::prelude::*;
use crate::layout::Cursor;
use crate::layout::Dims;
use crate::layout::lemma_coords_of_index;
use crate::layout::lemma_index_in_range;
use crate::layout::lemma_index_of_coords;
use crate::layout::uniform;
use crate::scalar::ExactScalar;
use crate::scalar::Scalar;

verus! {

/// What a field holds, which decides the faces at which its values change
/// sign: a velocity component is reflected at the walls normal to its axis.
#[derive(Clone, Copy, Debug, PartialEq, Eq, Structural)]
pub enum BorderKind {
    /// A density, a pressure or another quantity without direction.
    Density,
    /// The x component of a velocity.
    XWall,
    /// The y component of a velocity.
    YWall,
    /// The z component of a velocity.
    ZWall,
}

/// The coordinate nearest to `c` among the interior coordinates `1..=n`.
pub open spec fn inward(c: int, n: int) -> int {
    if c < 1 {
        1
    } else if c > n {
        n
    } else {
        c
    }
}

/// Whether the cell `(x, y, z)` lies in the halo of a face whose normal is the
/// axis of `kind`.
pub open spec fn reflected(d: Dims, kind: BorderKind, x: int, y: int, z: int) -> bool {
    match kind {
        BorderKind::Density => false,
        BorderKind::XWall => x < 1 || x > d.x,
        BorderKind::YWall => y < 1 || y > d.y,
        BorderKind::ZWall => z < 1 || z > d.z,
    }
}

/// The value that the faces give the cell `(x, y, z)`: that of the nearest
/// interior cell, negated where `kind` is reflected there. An interior cell
/// keeps its value.
pub open spec fn wall_value<T: Scalar>(
    g: Seq<T>,
    d: Dims,
    kind: BorderKind,
    x: int,
    y: int,
    z: int,
) -> T {
    let v = g[d.index_of(inward(x, d.x as int), inward(y, d.y as int), inward(z, d.z as int))];
    if reflected(d, kind, x, y, z) {
        v.negation()
    } else {
        v
    }
}

/// Whether `(x, y, z)` is one of the four corners of the far z face.
pub open spec fn is_corner(d: Dims, x: int, y: int, z: int) -> bool {
    &&& z == d.z + 1
    &&& x == 0 || x == d.x + 1
    &&& y == 0 || y == d.y + 1
}

/// The value of the corner `(x, y)` of the far z face: half the sum of what
/// the faces give its neighbour along x and its neighbour along y.
pub open spec fn corner_value<T: Scalar>(
    g: Seq<T>,
    d: Dims,
    kind: BorderKind,
    x: int,
    y: int,
) -> T {
    T::half_value().product(
        wall_value(g, d, kind, inward(x, d.x as int), y, d.z + 1).sum(
            wall_value(g, d, kind, x, inward(y, d.y as int), d.z + 1),
        ),
    )
}

/// The value of the cell `(x, y, z)` once the borders of `g` are set.
pub open spec fn border_value<T: Scalar>(
    g: Seq<T>,
    d: Dims,
    kind: BorderKind,
    x: int,
    y: int,
    z: int,
) -> T {
    if is_corner(d, x, y, z) {
        corner_value(g, d, kind, x, y)
    } else {
        wall_value(g, d, kind, x, y, z)
    }
}

/// The field `g` with its borders set.
pub open spec fn bordered<T: Scalar>(g: Seq<T>, d: Dims, kind: BorderKind) -> Seq<T> {
    Seq::new(
        d.cells_of() as nat,
        |i: int| border_value(g, d, kind, d.x_of(i), d.y_of(i), d.z_of(i)),
    )
}

fn inward_of(c: usize, n: usize) -> (r: usize)
    requires
        n >= 1,
    ensures
        r == inward(c as int, n as int),
        1 <= r <= n,
{
    if c < 1 {
        1
    } else if c > n {
        n
    } else {
        c
    }
}

fn is_reflected(d: &Dims, kind: BorderKind, x: usize, y: usize, z: usize) -> (r: bool)
    ensures
        r == reflected(*d, kind, x as int, y as int, z as int),
{
    match kind {
        BorderKind::Density => false,
        BorderKind::XWall => x < 1 || x > d.x,
        BorderKind::YWall => y < 1 || y > d.y,
        BorderKind::ZWall => z < 1 || z > d.z,
    }
}

/// Fills the whole halo from the interior, face by face.
fn set_walls<T: Scalar>(grid: &mut Vec<T>, d: &Dims, kind: BorderKind)
    requires
        d.valid(),
        old(grid).len() == d.cells_of(),
    ensures
        final(grid).len() == d.cells_of(),
        forall|j: int|
            0 <= j < d.cells_of() ==> #[trigger] final(grid)@[j] == wall_value(
                old(grid)@,
                *d,
                kind,
                d.x_of(j),
                d.y_of(j),
                d.z_of(j),
            ),
{
    let ghost before = grid@;
    let n = d.cells();
    let mut c = Cursor::start(d);
    while c.i < n
        invariant
            d.valid(),
            n == d.cells_of(),
            c.at(*d),
            grid.len() == n,
            before.len() == n,
            forall|j: int|
                0 <= j < c.i ==> #[trigger] grid@[j] == wall_value(
                    before,
                    *d,
                    kind,
                    d.x_of(j),
                    d.y_of(j),
                    d.z_of(j),
                ),
            forall|j: int| c.i <= j < n ==> #[trigger] grid@[j] == before[j],
        decreases n - c.i,
    {
        if !c.inside(d) {
            let sx = inward_of(c.x, d.x);
            let sy = inward_of(c.y, d.y);
            let sz = inward_of(c.z, d.z);
            let src = d.index(sx, sy, sz);
            proof {
                lemma_coords_of_index(*d, sx as int, sy as int, sz as int);
            }
            let v = grid[src];
            let filled = if is_reflected(d, kind, c.x, c.y, c.z) {
                v.negated()
            } else {
                v
            };
            grid.set(c.i, filled);
        }
        c.advance(d);
    }
}

/// A corner of the far z face and its two neighbours in that face are three
/// different cells of the padded grid.
proof fn lemma_corner_places(d: Dims, x: int, y: int)
    requires
        d.valid(),
        x == 0 || x == d.x + 1,
        y == 0 || y == d.y + 1,
    ensures
        0 <= d.index_of(x, y, d.z + 1) < d.cells_of(),
        d.x_of(d.index_of(x, y, d.z + 1)) == x,
        d.y_of(d.index_of(x, y, d.z + 1)) == y,
        d.z_of(d.index_of(x, y, d.z + 1)) == d.z + 1,
        0 <= d.index_of(inward(x, d.x as int), y, d.z + 1) < d.cells_of(),
        d.x_of(d.index_of(inward(x, d.x as int), y, d.z + 1)) == inward(x, d.x as int),
        d.y_of(d.index_of(inward(x, d.x as int), y, d.z + 1)) == y,
        d.z_of(d.index_of(inward(x, d.x as int), y, d.z + 1)) == d.z + 1,
        0 <= d.index_of(x, inward(y, d.y as int), d.z + 1) < d.cells_of(),
        d.x_of(d.index_of(x, inward(y, d.y as int), d.z + 1)) == x,
        d.y_of(d.index_of(x, inward(y, d.y as int), d.z + 1)) == inward(y, d.y as int),
        d.z_of(d.index_of(x, inward(y, d.y as int), d.z + 1)) == d.z + 1,
{
    let far = d.z + 1;
    lemma_index_in_range(d, x, y, far);
    lemma_coords_of_index(d, x, y, far);
    lemma_index_in_range(d, inward(x, d.x as int), y, far);
    lemma_coords_of_index(d, inward(x, d.x as int), y, far);
    lemma_index_in_range(d, x, inward(y, d.y as int), far);
    lemma_coords_of_index(d, x, inward(y, d.y as int), far);
}

/// Replaces the corner `(x, y)` of the far z face by half the sum of its
/// neighbour along x and its neighbour along y.
fn settle_corner<T: Scalar>(grid: &mut Vec<T>, d: &Dims, x: usize, y: usize)
    requires
        d.valid(),
        old(grid).len() == d.cells_of(),
        x == 0 || x == d.x + 1,
        y == 0 || y == d.y + 1,
    ensures
        final(grid)@ == old(grid)@.update(
            d.index_of(x as int, y as int, d.z + 1),
            T::half_value().product(
                old(grid)@[d.index_of(inward(x as int, d.x as int), y as int, d.z + 1)].sum(
                    old(grid)@[d.index_of(x as int, inward(y as int, d.y as int), d.z + 1)],
                ),
            ),
        ),
{
    proof {
        crate::layout::lemma_cells_dominate(*d);
    }
    let far = d.z + 1;
    let along_x = grid[d.index(inward_of(x, d.x), y, far)];
    let along_y = grid[d.index(x, inward_of(y, d.y), far)];
    let at = d.index(x, y, far);
    grid.set(at, T::half().times(along_x.plus(along_y)));
}

/// Sets the borders of `grid`.
///
/// Every halo cell takes the value of the interior cell nearest to it, with
/// its sign changed where the cell lies beyond a face whose normal is the axis
/// of `kind`, and unchanged otherwise. The four corners of the far z face are
/// then replaced by the mean of their two neighbours in that face. Interior
/// cells are left as they are.
pub fn set_borders<T: Scalar>(grid: &mut Vec<T>, d: &Dims, kind: BorderKind)
    requires
        d.valid(),
        old(grid).len() == d.cells_of(),
    ensures
        final(grid)@ == bordered(old(grid)@, *d, kind),
{
    let ghost before = grid@;
    proof {
        crate::layout::lemma_cells_dominate(*d);
    }
    set_walls(grid, d, kind);
    let hx = d.x + 1;
    let hy = d.y + 1;
    proof {
        lemma_corner_places(*d, 0, 0);
        lemma_corner_places(*d, 0, hy as int);
        lemma_corner_places(*d, hx as int, 0);
        lemma_corner_places(*d, hx as int, hy as int);
    }
    settle_corner(grid, d, 0, 0);
    settle_corner(grid, d, 0, hy);
    settle_corner(grid, d, hx, 0);
    settle_corner(grid, d, hx, hy);
    proof {
        let goal = bordered(before, *d, kind);
        assert forall|j: int| 0 <= j < d.cells_of() implies grid@[j] == goal[j] by {
            lemma_index_of_coords(*d, j);
        }
        assert(grid@ =~= goal);
    }
}

/// Whether `(x, y, z)` is a halo cell that touches the interior across a
/// face: exactly one of its coordinates lies outside the interior.
pub open spec fn on_face(d: Dims, x: int, y: int, z: int) -> bool {
    let out_x: int = if 1 <= x <= d.x { 0 } else { 1 };
    let out_y: int = if 1 <= y <= d.y { 0 } else { 1 };
    let out_z: int = if 1 <= z <= d.z { 0 } else { 1 };
    d.holds(x, y, z) && out_x + out_y + out_z == 1
}

/// Once the borders are set, every cell of the padded grid holds its border
/// value, and an interior cell holds what it held before.
pub proof fn lemma_bordered_at<T: Scalar>(
    g: Seq<T>,
    d: Dims,
    kind: BorderKind,
    x: int,
    y: int,
    z: int,
)
    requires
        d.holds(x, y, z),
    ensures
        bordered(g, d, kind).len() == d.cells_of(),
        bordered(g, d, kind)[d.index_of(x, y, z)] == border_value(g, d, kind, x, y, z),
        d.interior(x, y, z) ==> bordered(g, d, kind)[d.index_of(x, y, z)] == g[d.index_of(x, y, z)],
{
    lemma_index_in_range(d, x, y, z);
    lemma_coords_of_index(d, x, y, z);
}

/// The sign convention of the borders: a halo cell that touches the interior
/// across a face holds the value of the interior cell beside it, negated
/// where the normal of the face is the axis of `kind`, and exactly that value
/// otherwise.
pub proof fn lemma_face_sign<T: Scalar>(
    g: Seq<T>,
    d: Dims,
    kind: BorderKind,
    x: int,
    y: int,
    z: int,
)
    requires
        on_face(d, x, y, z),
    ensures
        reflected(d, kind, x, y, z) ==> bordered(g, d, kind)[d.index_of(x, y, z)] == g[d.index_of(
            inward(x, d.x as int),
            inward(y, d.y as int),
            inward(z, d.z as int),
        )].negation(),
        !reflected(d, kind, x, y, z) ==> bordered(g, d, kind)[d.index_of(x, y, z)] == g[d.index_of(
            inward(x, d.x as int),
            inward(y, d.y as int),
            inward(z, d.z as int),
        )],
{
    lemma_bordered_at(g, d, kind, x, y, z);
}

/// On the two faces across x, the x component of a velocity is reflected and
/// every other kind of field is copied: the cell `(0, y, z)` answers to `(1,
/// y, z)` and the cell beyond the last interior cell answers to that cell.
pub proof fn lemma_x_face_sign<T: Scalar>(g: Seq<T>, d: Dims, kind: BorderKind, y: int, z: int)
    requires
        1 <= y <= d.y,
        1 <= z <= d.z,
        d.x >= 1,
    ensures
        kind == BorderKind::XWall ==> bordered(g, d, kind)[d.index_of(0, y, z)] == g[d.index_of(
            1,
            y,
            z,
        )].negation() && bordered(g, d, kind)[d.index_of(d.x + 1, y, z)] == g[d.index_of(
            d.x as int,
            y,
            z,
        )].negation(),
        kind != BorderKind::XWall ==> bordered(g, d, kind)[d.index_of(0, y, z)] == g[d.index_of(
            1,
            y,
            z,
        )] && bordered(g, d, kind)[d.index_of(d.x + 1, y, z)] == g[d.index_of(d.x as int, y, z)],
{
    lemma_face_sign(g, d, kind, 0, y, z);
    lemma_face_sign(g, d, kind, d.x + 1, y, z);
}

/// Setting the borders a second time changes nothing: the halo depends on
/// the interior alone, and the interior is left as it is.
pub proof fn lemma_bordered_twice<T: Scalar>(g: Seq<T>, d: Dims, kind: BorderKind)
    requires
        d.valid(),
    ensures
        bordered(bordered(g, d, kind), d, kind) == bordered(g, d, kind),
{
    let once = bordered(g, d, kind);
    assert forall|x: int, y: int, z: int| d.holds(x, y, z) implies #[trigger] wall_value(
        once,
        d,
        kind,
        x,
        y,
        z,
    ) == wall_value(g, d, kind, x, y, z) by {
        lemma_bordered_at(
            g,
            d,
            kind,
            inward(x, d.x as int),
            inward(y, d.y as int),
            inward(z, d.z as int),
        );
    }
    assert forall|i: int| 0 <= i < d.cells_of() implies bordered(once, d, kind)[i] == once[i] by {
        lemma_index_of_coords(d, i);
        let x = d.x_of(i);
        let y = d.y_of(i);
        let z = d.z_of(i);
        if is_corner(d, x, y, z) {
            assert(d.holds(inward(x, d.x as int), y, d.z + 1));
            assert(d.holds(x, inward(y, d.y as int), d.z + 1));
        }
    }
    assert(bordered(once, d, kind) =~= once);
}

/// A field at rest stays at rest when its borders are set.
pub proof fn lemma_bordered_rest<T: ExactScalar>(d: Dims, kind: BorderKind)
    ensures
        bordered(uniform(d, T::zero_value()), d, kind) == uniform(d, T::zero_value()),
{
    let rest = uniform(d, T::zero_value());
    T::lemma_negation_zero();
    T::lemma_sum_zero(T::zero_value());
    T::lemma_product_zero(T::half_value());
    assert forall|i: int| 0 <= i < d.cells_of() implies bordered(rest, d, kind)[i]
        == T::zero_value() by {
        lemma_index_of_coords(d, i);
        let x = d.x_of(i);
        let y = d.y_of(i);
        let z = d.z_of(i);
        assert forall|a: int, b: int, c: int| d.holds(a, b, c) implies #[trigger] wall_value(
            rest,
            d,
            kind,
            a,
            b,
            c,
        ) == T::zero_value() by {
            lemma_index_in_range(
                d,
                inward(a, d.x as int),
                inward(b, d.y as int),
                inward(c, d.z as int),
            );
        }
        if is_corner(d, x, y, z) {
            assert(d.holds(inward(x, d.x as int), y, d.z + 1));
            assert(d.holds(x, inward(y, d.y as int), d.z + 1));
        }
    }
    assert(bordered(rest, d, kind) =~= rest);
}

} // verus!
