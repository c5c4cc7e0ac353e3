//! The linear relaxer, and diffusion as one use of it.
//!
//! A sweep visits the interior cells in the order of their places (x fastest,
//! then y, then z) and replaces each in turn, so a cell already sees the new
//! values of the neighbours that were visited before it.

use vstd::prelude::*;
use crate::borders::BorderKind;
use crate::borders::bordered;
use crate::borders::lemma_bordered_rest;
use crate::borders::set_borders;
use crate::layout::Cursor;
use crate::layout::Dims;
use crate::layout::lemma_index_in_range;
use crate::layout::lemma_index_of_coords;
use crate::layout::lemma_neighbours;
use crate::layout::uniform;
use crate::scalar::ExactScalar;
use crate::scalar::Scalar;

verus! {

/// The sum of the six face neighbours of the interior cell `(x, y, z)`.
pub open spec fn neighbour_sum<T: Scalar>(g: Seq<T>, d: Dims, x: int, y: int, z: int) -> T {
    g[d.index_of(x - 1, y, z)].sum(g[d.index_of(x + 1, y, z)]).sum(g[d.index_of(x, y - 1, z)]).sum(
        g[d.index_of(x, y + 1, z)],
    ).sum(g[d.index_of(x, y, z - 1)]).sum(g[d.index_of(x, y, z + 1)])
}

/// The value that a sweep gives the interior cell `(x, y, z)` of `g`:
/// `(source + a * neighbours) / c`.
pub open spec fn relax_value<T: Scalar>(
    g: Seq<T>,
    source: Seq<T>,
    a: T,
    c: T,
    d: Dims,
    x: int,
    y: int,
    z: int,
) -> T {
    source[d.index_of(x, y, z)].sum(a.product(neighbour_sum(g, d, x, y, z))).quotient(c)
}

/// The field `g` once a sweep has passed the first `n` places.
pub open spec fn relax_prefix<T: Scalar>(
    g: Seq<T>,
    source: Seq<T>,
    a: T,
    c: T,
    d: Dims,
    n: nat,
) -> Seq<T>
    decreases n,
{
    if n == 0 {
        g
    } else {
        let i = n - 1;
        let p = relax_prefix(g, source, a, c, d, i as nat);
        if d.interior_at(i) {
            p.update(i, relax_value(p, source, a, c, d, d.x_of(i), d.y_of(i), d.z_of(i)))
        } else {
            p
        }
    }
}

/// The field `g` after one sweep over all its cells.
pub open spec fn swept<T: Scalar>(g: Seq<T>, source: Seq<T>, a: T, c: T, d: Dims) -> Seq<T> {
    relax_prefix(g, source, a, c, d, d.cells_of() as nat)
}

/// The field `g` after `iterations` sweeps, each followed by setting the
/// borders where `borders` asks for it.
pub open spec fn solved<T: Scalar>(
    g: Seq<T>,
    source: Seq<T>,
    a: T,
    c: T,
    d: Dims,
    iterations: nat,
    borders: bool,
    kind: BorderKind,
) -> Seq<T>
    decreases iterations,
{
    if iterations == 0 {
        g
    } else {
        let s = swept(
            solved(g, source, a, c, d, (iterations - 1) as nat, borders, kind),
            source,
            a,
            c,
            d,
        );
        if borders {
            bordered(s, d, kind)
        } else {
            s
        }
    }
}

/// One sweep over the interior of `grid`.
fn sweep<T: Scalar>(grid: &mut Vec<T>, source: &Vec<T>, d: &Dims, a: T, c: T)
    requires
        d.valid(),
        old(grid).len() == d.cells_of(),
        source.len() == d.cells_of(),
    ensures
        final(grid)@ == swept(old(grid)@, source@, a, c, *d),
        final(grid).len() == d.cells_of(),
{
    let ghost before = grid@;
    let n = d.cells();
    let row = d.row();
    let plane = d.plane();
    let mut at = Cursor::start(d);
    while at.i < n
        invariant
            d.valid(),
            n == d.cells_of(),
            row == d.row_of(),
            plane == d.plane_of(),
            at.at(*d),
            grid.len() == n,
            source.len() == n,
            grid@ == relax_prefix(before, source@, a, c, *d, at.i as nat),
        decreases n - at.i,
    {
        let ghost i = at.i as nat;
        if at.inside(d) {
            proof {
                lemma_neighbours(*d, at.x as int, at.y as int, at.z as int);
            }
            let i = at.i;
            let around = grid[i - 1].plus(grid[i + 1]).plus(grid[i - row]).plus(grid[i + row]).plus(
                grid[i - plane],
            ).plus(grid[i + plane]);
            let value = source[i].plus(a.times(around)).over(c);
            grid.set(i, value);
        }
        at.advance(d);
        assert(grid@ == relax_prefix(before, source@, a, c, *d, i + 1));
    }
}

/// Solves for `grid` the system whose right-hand side is `source`, by
/// `iterations` sweeps of relaxation in place.
///
/// A sweep replaces every interior cell, in the order of the places, by
/// `(source + a * neighbours) / c`, where `neighbours` is the sum of the six
/// face neighbours as they stand when the cell is reached. Where `borders` is
/// set, each sweep is followed by setting the borders for `kind`.
pub fn linear_solver<T: Scalar>(
    grid: &mut Vec<T>,
    source: &Vec<T>,
    d: &Dims,
    a: T,
    c: T,
    iterations: usize,
    borders: bool,
    kind: BorderKind,
)
    requires
        d.valid(),
        old(grid).len() == d.cells_of(),
        source.len() == d.cells_of(),
    ensures
        final(grid)@ == solved(
            old(grid)@,
            source@,
            a,
            c,
            *d,
            iterations as nat,
            borders,
            kind,
        ),
        final(grid).len() == d.cells_of(),
{
    let ghost before = grid@;
    let mut done: usize = 0;
    while done < iterations
        invariant
            d.valid(),
            done <= iterations,
            grid.len() == d.cells_of(),
            source.len() == d.cells_of(),
            grid@ == solved(before, source@, a, c, *d, done as nat, borders, kind),
        decreases iterations - done,
    {
        sweep(grid, source, d, a, c);
        if borders {
            set_borders(grid, d, kind);
        }
        done = done + 1;
    }
}

/// Whether `v` is neither below nor above zero.
pub open spec fn vanishes<T: Scalar>(v: T) -> bool {
    v.not_above(T::zero_value()) && T::zero_value().not_above(v)
}

/// The rate at which a field spreads in one step: `dt * coefficient * cells`.
pub open spec fn diffusion_rate<T: Scalar>(dt: T, coefficient: T, d: Dims) -> T {
    dt.product(coefficient).product(T::count_value(d.cells_of() as usize))
}

/// The field `g` after diffusion: `g` itself where the coefficient vanishes,
/// and else solved with `a = rate` and `c = 1 + 6 * rate`.
pub open spec fn diffused<T: Scalar>(
    g: Seq<T>,
    source: Seq<T>,
    d: Dims,
    dt: T,
    coefficient: T,
    iterations: nat,
    borders: bool,
    kind: BorderKind,
) -> Seq<T> {
    if vanishes(coefficient) {
        g
    } else {
        let rate = diffusion_rate(dt, coefficient, d);
        solved(
            g,
            source,
            rate,
            T::one_value().sum(T::count_value(6).product(rate)),
            d,
            iterations,
            borders,
            kind,
        )
    }
}

/// Whether `v` is neither below nor above zero.
fn is_zero<T: Scalar>(v: T) -> (r: bool)
    ensures
        r == vanishes(v),
{
    v.at_most(T::zero()) && T::zero().at_most(v)
}

/// Spreads `grid` toward its neighbours, with `source` as the field before
/// the step.
///
/// With a coefficient of zero the field is left as it is. Otherwise the rate
/// is `dt * coefficient * cells` and the field is solved with `a = rate` and
/// `c = 1 + 6 * rate`.
pub fn diffuse<T: Scalar>(
    grid: &mut Vec<T>,
    source: &Vec<T>,
    d: &Dims,
    dt: T,
    coefficient: T,
    iterations: usize,
    borders: bool,
    kind: BorderKind,
)
    requires
        d.valid(),
        old(grid).len() == d.cells_of(),
        source.len() == d.cells_of(),
    ensures
        final(grid)@ == diffused(
            old(grid)@,
            source@,
            *d,
            dt,
            coefficient,
            iterations as nat,
            borders,
            kind,
        ),
        final(grid).len() == d.cells_of(),
{
    if is_zero(coefficient) {
        return ;
    }
    let rate = dt.times(coefficient).times(T::from_count(d.cells()));
    let c = T::one().plus(T::from_count(6).times(rate));
    linear_solver(grid, source, d, rate, c, iterations, borders, kind);
}

/// Diffusion with a coefficient of zero is the identity, however often it is
/// repeated.
pub proof fn lemma_diffuse_nothing<T: Scalar>(
    g: Seq<T>,
    source: Seq<T>,
    d: Dims,
    dt: T,
    coefficient: T,
    iterations: nat,
    borders: bool,
    kind: BorderKind,
)
    requires
        vanishes(coefficient),
    ensures
        diffused(g, source, d, dt, coefficient, iterations, borders, kind) == g,
{
}

/// A sweep over a field at rest, against a source at rest, leaves it at rest.
pub proof fn lemma_relax_prefix_rest<T: ExactScalar>(d: Dims, a: T, c: T, n: nat)
    requires
        n <= d.cells_of(),
    ensures
        relax_prefix(uniform(d, T::zero_value()), uniform(d, T::zero_value()), a, c, d, n)
            == uniform(d, T::zero_value()),
    decreases n,
{
    if n > 0 {
        let rest = uniform(d, T::zero_value());
        let i = n - 1;
        lemma_relax_prefix_rest::<T>(d, a, c, i as nat);
        if d.interior_at(i) {
            let x = d.x_of(i);
            let y = d.y_of(i);
            let z = d.z_of(i);
            lemma_index_of_coords(d, i);
            lemma_index_in_range(d, x - 1, y, z);
            lemma_index_in_range(d, x + 1, y, z);
            lemma_index_in_range(d, x, y - 1, z);
            lemma_index_in_range(d, x, y + 1, z);
            lemma_index_in_range(d, x, y, z - 1);
            lemma_index_in_range(d, x, y, z + 1);
            T::lemma_sum_zero(T::zero_value());
            T::lemma_product_zero(a);
            T::lemma_quotient_zero(c);
            assert(neighbour_sum(rest, d, x, y, z) == T::zero_value());
            assert(relax_value(rest, rest, a, c, d, x, y, z) == T::zero_value());
            assert(rest.update(i, T::zero_value()) =~= rest);
        }
    }
}

/// Solving for a field at rest, against a source at rest, leaves it at rest.
pub proof fn lemma_solved_rest<T: ExactScalar>(
    d: Dims,
    a: T,
    c: T,
    iterations: nat,
    borders: bool,
    kind: BorderKind,
)
    ensures
        solved(
            uniform(d, T::zero_value()),
            uniform(d, T::zero_value()),
            a,
            c,
            d,
            iterations,
            borders,
            kind,
        ) == uniform(d, T::zero_value()),
    decreases iterations,
{
    if iterations > 0 {
        lemma_solved_rest::<T>(d, a, c, (iterations - 1) as nat, borders, kind);
        lemma_relax_prefix_rest::<T>(d, a, c, d.cells_of() as nat);
        lemma_bordered_rest::<T>(d, kind);
    }
}

/// Diffusion leaves a field at rest at rest.
pub proof fn lemma_diffused_rest<T: ExactScalar>(
    d: Dims,
    dt: T,
    coefficient: T,
    iterations: nat,
    borders: bool,
    kind: BorderKind,
)
    ensures
        diffused(
            uniform(d, T::zero_value()),
            uniform(d, T::zero_value()),
            d,
            dt,
            coefficient,
            iterations,
            borders,
            kind,
        ) == uniform(d, T::zero_value()),
{
    let rate = diffusion_rate(dt, coefficient, d);
    lemma_solved_rest::<T>(
        d,
        rate,
        T::one_value().sum(T::count_value(6).product(rate)),
        iterations,
        borders,
        kind,
    );
}

} // verus!
