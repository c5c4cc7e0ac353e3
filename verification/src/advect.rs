//! Advection: every interior cell takes the value that the field had at the
//! point from which the velocity carried it there.

use vstd::prelude::*;
use crate::borders::BorderKind;
use crate::borders::bordered;
use crate::borders::lemma_bordered_at;
use crate::borders::lemma_bordered_rest;
use crate::borders::set_borders;
use crate::layout::Cursor;
use crate::layout::Dims;
use crate::layout::lemma_cells_dominate;
use crate::layout::lemma_coords_of_index;
use crate::layout::lemma_index_in_range;
use crate::layout::lemma_index_of_coords;
use crate::layout::uniform;
use crate::scalar::ExactScalar;
use crate::scalar::Scalar;

verus! {

/// `p`, brought into the range from one half to `n` less one half.
pub open spec fn clamped<T: Scalar>(p: T, n: usize) -> T {
    let low = T::half_value();
    let high = T::count_value(n).difference(T::half_value());
    let q = if low.not_above(p) {
        p
    } else {
        low
    };
    if q.not_above(high) {
        q
    } else {
        high
    }
}

/// The point, along one axis of `n` interior cells, from which a velocity `v`
/// reaches the coordinate `at` in the time `dt`: `at - dt * n * v`, clamped.
pub open spec fn traced<T: Scalar>(at: usize, n: usize, dt: T, v: T) -> T {
    clamped(T::count_value(at).difference(dt.product(T::count_value(n)).product(v)), n)
}

/// The lower of the two lattice coordinates around the point `p`: its whole
/// part, and at most `n - 1`.
pub open spec fn lattice<T: Scalar>(p: T, n: usize) -> usize {
    if p.whole_part() > n - 1 {
        (n - 1) as usize
    } else {
        p.whole_part()
    }
}

/// The trilinear blend of the eight cells of `prev` around a point: `(i, j,
/// k)` is the lowest of them, and `s`, `t` and `u` are the weights of the
/// upper cells along x, y and z.
pub open spec fn blend<T: Scalar>(
    prev: Seq<T>,
    d: Dims,
    i: int,
    j: int,
    k: int,
    s: T,
    t: T,
    u: T,
) -> T {
    let s0 = T::one_value().difference(s);
    let t0 = T::one_value().difference(t);
    let u0 = T::one_value().difference(u);
    let low = t0.product(
        u0.product(prev[d.index_of(i, j, k)]).sum(u.product(prev[d.index_of(i, j, k + 1)])),
    ).sum(
        t.product(
            u0.product(prev[d.index_of(i, j + 1, k)]).sum(
                u.product(prev[d.index_of(i, j + 1, k + 1)]),
            ),
        ),
    );
    let high = t0.product(
        u0.product(prev[d.index_of(i + 1, j, k)]).sum(
            u.product(prev[d.index_of(i + 1, j, k + 1)]),
        ),
    ).sum(
        t.product(
            u0.product(prev[d.index_of(i + 1, j + 1, k)]).sum(
                u.product(prev[d.index_of(i + 1, j + 1, k + 1)]),
            ),
        ),
    );
    s0.product(low).sum(s.product(high))
}

/// The value that advection gives the interior cell `(x, y, z)`: the blend of
/// `prev` around the point traced back from the cell along the velocity found
/// there.
pub open spec fn advect_value<T: Scalar>(
    prev: Seq<T>,
    vx: Seq<T>,
    vy: Seq<T>,
    vz: Seq<T>,
    d: Dims,
    dt: T,
    x: int,
    y: int,
    z: int,
) -> T {
    let at = d.index_of(x, y, z);
    let px = traced(x as usize, d.x, dt, vx[at]);
    let py = traced(y as usize, d.y, dt, vy[at]);
    let pz = traced(z as usize, d.z, dt, vz[at]);
    let i = lattice(px, d.x);
    let j = lattice(py, d.y);
    let k = lattice(pz, d.z);
    blend(
        prev,
        d,
        i as int,
        j as int,
        k as int,
        px.difference(T::count_value(i)),
        py.difference(T::count_value(j)),
        pz.difference(T::count_value(k)),
    )
}

/// The field `g` with every interior cell replaced by its advected value.
pub open spec fn carried<T: Scalar>(
    g: Seq<T>,
    prev: Seq<T>,
    vx: Seq<T>,
    vy: Seq<T>,
    vz: Seq<T>,
    d: Dims,
    dt: T,
) -> Seq<T> {
    Seq::new(
        d.cells_of() as nat,
        |i: int|
            if d.interior_at(i) {
                advect_value(prev, vx, vy, vz, d, dt, d.x_of(i), d.y_of(i), d.z_of(i))
            } else {
                g[i]
            },
    )
}

/// The field `g` after advection, with its borders set where `borders` asks
/// for it.
pub open spec fn advected<T: Scalar>(
    g: Seq<T>,
    prev: Seq<T>,
    vx: Seq<T>,
    vy: Seq<T>,
    vz: Seq<T>,
    d: Dims,
    dt: T,
    borders: bool,
    kind: BorderKind,
) -> Seq<T> {
    let moved = carried(g, prev, vx, vy, vz, d, dt);
    if borders {
        bordered(moved, d, kind)
    } else {
        moved
    }
}

fn trace<T: Scalar>(at: usize, n: usize, dt: T, v: T) -> (p: T)
    ensures
        p == traced(at, n, dt, v),
{
    let p = T::from_count(at).minus(dt.times(T::from_count(n)).times(v));
    let low = T::half();
    let high = T::from_count(n).minus(T::half());
    let q = if low.at_most(p) {
        p
    } else {
        low
    };
    if q.at_most(high) {
        q
    } else {
        high
    }
}

fn lattice_of<T: Scalar>(p: T, n: usize) -> (i: usize)
    requires
        n >= 1,
    ensures
        i == lattice(p, n),
        i <= n - 1,
{
    let whole = p.to_count();
    if whole > n - 1 {
        n - 1
    } else {
        whole
    }
}

fn blend_at<T: Scalar>(prev: &Vec<T>, d: &Dims, i: usize, j: usize, k: usize, s: T, t: T, u: T) -> (r:
    T)
    requires
        d.valid(),
        prev.len() == d.cells_of(),
        i < d.x,
        j < d.y,
        k < d.z,
    ensures
        r == blend(prev@, *d, i as int, j as int, k as int, s, t, u),
{
    proof {
        lemma_cells_dominate(*d);
    }
    let s0 = T::one().minus(s);
    let t0 = T::one().minus(t);
    let u0 = T::one().minus(u);
    let low = t0.times(
        u0.times(prev[d.index(i, j, k)]).plus(u.times(prev[d.index(i, j, k + 1)])),
    ).plus(
        t.times(
            u0.times(prev[d.index(i, j + 1, k)]).plus(u.times(prev[d.index(i, j + 1, k + 1)])),
        ),
    );
    let high = t0.times(
        u0.times(prev[d.index(i + 1, j, k)]).plus(u.times(prev[d.index(i + 1, j, k + 1)])),
    ).plus(
        t.times(
            u0.times(prev[d.index(i + 1, j + 1, k)]).plus(
                u.times(prev[d.index(i + 1, j + 1, k + 1)]),
            ),
        ),
    );
    s0.times(low).plus(s.times(high))
}

/// Carries `prev` along the velocity `(vx, vy, vz)` into the interior of
/// `grid`.
///
/// For every interior cell the point `p - dt * n * v` is found on each axis,
/// with `p` the cell's coordinate, `n` the number of interior cells along the
/// axis and `v` the velocity at the cell; it is clamped to the range from one
/// half to `n` less one half, and the cell takes the trilinear blend of the
/// eight cells of `prev` around that point. Halo cells are left as they are,
/// unless `borders` is set: then the borders are set for `kind`.
pub fn advect<T: Scalar>(
    grid: &mut Vec<T>,
    prev: &Vec<T>,
    vx: &Vec<T>,
    vy: &Vec<T>,
    vz: &Vec<T>,
    d: &Dims,
    dt: T,
    borders: bool,
    kind: BorderKind,
)
    requires
        d.valid(),
        old(grid).len() == d.cells_of(),
        prev.len() == d.cells_of(),
        vx.len() == d.cells_of(),
        vy.len() == d.cells_of(),
        vz.len() == d.cells_of(),
    ensures
        final(grid)@ == advected(old(grid)@, prev@, vx@, vy@, vz@, *d, dt, borders, kind),
        final(grid).len() == d.cells_of(),
{
    let ghost before = grid@;
    let n = d.cells();
    let mut at = Cursor::start(d);
    while at.i < n
        invariant
            d.valid(),
            n == d.cells_of(),
            at.at(*d),
            grid.len() == n,
            before.len() == n,
            prev.len() == n,
            vx.len() == n,
            vy.len() == n,
            vz.len() == n,
            forall|j: int|
                0 <= j < at.i ==> #[trigger] grid@[j] == carried(
                    before,
                    prev@,
                    vx@,
                    vy@,
                    vz@,
                    *d,
                    dt,
                )[j],
            forall|j: int| at.i <= j < n ==> #[trigger] grid@[j] == before[j],
        decreases n - at.i,
    {
        if at.inside(d) {
            let px = trace(at.x, d.x, dt, vx[at.i]);
            let py = trace(at.y, d.y, dt, vy[at.i]);
            let pz = trace(at.z, d.z, dt, vz[at.i]);
            let i = lattice_of(px, d.x);
            let j = lattice_of(py, d.y);
            let k = lattice_of(pz, d.z);
            let value = blend_at(
                prev,
                d,
                i,
                j,
                k,
                px.minus(T::from_count(i)),
                py.minus(T::from_count(j)),
                pz.minus(T::from_count(k)),
            );
            grid.set(at.i, value);
        }
        at.advance(d);
    }
    assert(grid@ =~= carried(before, prev@, vx@, vy@, vz@, *d, dt));
    if borders {
        set_borders(grid, d, kind);
    }
}

/// Advection leaves a field at rest at rest, whatever the velocity.
pub proof fn lemma_advected_rest<T: ExactScalar>(
    vx: Seq<T>,
    vy: Seq<T>,
    vz: Seq<T>,
    d: Dims,
    dt: T,
    borders: bool,
    kind: BorderKind,
)
    requires
        d.valid(),
    ensures
        advected(
            uniform(d, T::zero_value()),
            uniform(d, T::zero_value()),
            vx,
            vy,
            vz,
            d,
            dt,
            borders,
            kind,
        ) == uniform(d, T::zero_value()),
{
    let rest = uniform(d, T::zero_value());
    T::lemma_sum_zero(T::zero_value());
    assert forall|i: int, j: int, k: int, s: T, t: T, u: T|
        0 <= i < d.x && 0 <= j < d.y && 0 <= k < d.z implies #[trigger] blend(
        rest,
        d,
        i,
        j,
        k,
        s,
        t,
        u,
    ) == T::zero_value() by {
        lemma_index_in_range(d, i, j, k);
        lemma_index_in_range(d, i, j, k + 1);
        lemma_index_in_range(d, i, j + 1, k);
        lemma_index_in_range(d, i, j + 1, k + 1);
        lemma_index_in_range(d, i + 1, j, k);
        lemma_index_in_range(d, i + 1, j, k + 1);
        lemma_index_in_range(d, i + 1, j + 1, k);
        lemma_index_in_range(d, i + 1, j + 1, k + 1);
        T::lemma_product_zero(u);
        T::lemma_product_zero(T::one_value().difference(u));
        T::lemma_product_zero(t);
        T::lemma_product_zero(T::one_value().difference(t));
        T::lemma_product_zero(s);
        T::lemma_product_zero(T::one_value().difference(s));
    }
    assert(carried(rest, rest, vx, vy, vz, d, dt) =~= rest);
    lemma_bordered_rest::<T>(d, kind);
}

/// Where the fluid stands still nothing is carried: an interior cell whose
/// velocity is zero, and which is not the last interior cell along any axis,
/// takes from advection exactly the value that the field had there before.
/// (At the last interior cell of an axis the traced point is clamped to one
/// half before the cell, and the cell takes a mean of two cells instead.)
pub proof fn lemma_advect_still<T: ExactScalar>(
    g: Seq<T>,
    prev: Seq<T>,
    vx: Seq<T>,
    vy: Seq<T>,
    vz: Seq<T>,
    d: Dims,
    dt: T,
    borders: bool,
    kind: BorderKind,
    x: int,
    y: int,
    z: int,
)
    requires
        d.valid(),
        d.x <= T::largest_count(),
        d.y <= T::largest_count(),
        d.z <= T::largest_count(),
        1 <= x < d.x,
        1 <= y < d.y,
        1 <= z < d.z,
        vx[d.index_of(x, y, z)] == T::zero_value(),
        vy[d.index_of(x, y, z)] == T::zero_value(),
        vz[d.index_of(x, y, z)] == T::zero_value(),
    ensures
        advect_value(prev, vx, vy, vz, d, dt, x, y, z) == prev[d.index_of(x, y, z)],
        advected(g, prev, vx, vy, vz, d, dt, borders, kind)[d.index_of(x, y, z)]
            == prev[d.index_of(x, y, z)],
{
    lemma_traced_still::<T>(x as usize, d.x, dt);
    lemma_traced_still::<T>(y as usize, d.y, dt);
    lemma_traced_still::<T>(z as usize, d.z, dt);
    lemma_blend_at_lattice(prev, d, x, y, z);
    lemma_index_in_range(d, x, y, z);
    lemma_coords_of_index(d, x, y, z);
    lemma_bordered_at(carried(g, prev, vx, vy, vz, d, dt), d, kind, x, y, z);
}

/// Where the fluid stands still everywhere, advection without borders
/// changes a field only at the last interior cell of each axis: every other
/// cell, interior or halo, holds afterwards what it held before.
pub proof fn lemma_advect_still_field<T: ExactScalar>(prev: Seq<T>, d: Dims, dt: T, i: int)
    requires
        d.valid(),
        d.x <= T::largest_count(),
        d.y <= T::largest_count(),
        d.z <= T::largest_count(),
        prev.len() == d.cells_of(),
        0 <= i < d.cells_of(),
        !(d.interior_at(i) && (d.x_of(i) == d.x || d.y_of(i) == d.y || d.z_of(i) == d.z)),
    ensures
        advected(
            prev,
            prev,
            uniform(d, T::zero_value()),
            uniform(d, T::zero_value()),
            uniform(d, T::zero_value()),
            d,
            dt,
            false,
            BorderKind::Density,
        )[i] == prev[i],
{
    if d.interior_at(i) {
        lemma_index_of_coords(d, i);
        let still = uniform(d, T::zero_value());
        lemma_advect_still(
            prev,
            prev,
            still,
            still,
            still,
            d,
            dt,
            false,
            BorderKind::Density,
            d.x_of(i),
            d.y_of(i),
            d.z_of(i),
        );
    }
}

/// Along an axis on which the velocity is zero the traced point is the
/// coordinate itself, unless the coordinate is the last of the interior.
proof fn lemma_traced_still<T: ExactScalar>(at: usize, n: usize, dt: T)
    requires
        1 <= at < n <= T::largest_count(),
    ensures
        traced(at, n, dt, T::zero_value()) == T::count_value(at),
        lattice(T::count_value(at), n) == at,
        T::count_value(at).difference(T::count_value(at)) == T::zero_value(),
{
    T::lemma_product_zero(dt.product(T::count_value(n)));
    T::lemma_difference_zero(T::count_value(at));
    T::lemma_count_order(at, n);
    T::lemma_count_whole(at);
    T::lemma_difference_self(T::count_value(at));
}

/// With all three weights zero the blend is the value of the lowest cell.
proof fn lemma_blend_at_lattice<T: ExactScalar>(prev: Seq<T>, d: Dims, i: int, j: int, k: int)
    ensures
        blend(prev, d, i, j, k, T::zero_value(), T::zero_value(), T::zero_value())
            == prev[d.index_of(i, j, k)],
{
    let zero = T::zero_value();
    let one = T::one_value();
    T::lemma_difference_zero(one);
    let p000 = prev[d.index_of(i, j, k)];
    let p001 = prev[d.index_of(i, j, k + 1)];
    let p010 = prev[d.index_of(i, j + 1, k)];
    let p011 = prev[d.index_of(i, j + 1, k + 1)];
    let p100 = prev[d.index_of(i + 1, j, k)];
    let p101 = prev[d.index_of(i + 1, j, k + 1)];
    let p110 = prev[d.index_of(i + 1, j + 1, k)];
    let p111 = prev[d.index_of(i + 1, j + 1, k + 1)];
    T::lemma_product_one(p000);
    T::lemma_product_zero(p001);
    T::lemma_sum_zero(p000);
    T::lemma_product_zero(one.product(p010).sum(zero.product(p011)));
    T::lemma_product_zero(
        one.product(one.product(p100).sum(zero.product(p101))).sum(
            zero.product(one.product(p110).sum(zero.product(p111))),
        ),
    );
}

} // verus!
