//! Projection: the velocity is made nearly free of divergence by subtracting
//! the gradient of a pressure that is solved from the divergence.

use vstd::prelude::*;
use crate::borders::BorderKind;
use crate::borders::bordered;
use crate::borders::lemma_bordered_rest;
use crate::borders::set_borders;
use crate::layout::Cursor;
use crate::layout::Dims;
use crate::layout::lemma_index_in_range;
use crate::layout::lemma_index_of_coords;
use crate::layout::lemma_neighbours;
use crate::layout::uniform;
use crate::layout::uniform_field;
use crate::scalar::ExactScalar;
use crate::scalar::Scalar;
use crate::solver::lemma_solved_rest;
use crate::solver::linear_solver;
use crate::solver::solved;


verus! {

/// The scaled divergence of the velocity at the interior cell `(x, y, z)`:
/// minus one half of the sum, over the axes, of the central difference of the
/// velocity component along its axis, divided by the number of interior cells
/// along that axis.
pub open spec fn divergence_value<T: Scalar>(
    vx: Seq<T>,
    vy: Seq<T>,
    vz: Seq<T>,
    d: Dims,
    x: int,
    y: int,
    z: int,
) -> T {
    T::half_value().negation().product(
        vx[d.index_of(x + 1, y, z)].difference(vx[d.index_of(x - 1, y, z)]).quotient(
            T::count_value(d.x),
        ).sum(
            vy[d.index_of(x, y + 1, z)].difference(vy[d.index_of(x, y - 1, z)]).quotient(
                T::count_value(d.y),
            ),
        ).sum(
            vz[d.index_of(x, y, z + 1)].difference(vz[d.index_of(x, y, z - 1)]).quotient(
                T::count_value(d.z),
            ),
        ),
    )
}

/// The divergence field of a velocity: the scaled divergence in the interior
/// and zero in the halo, with its borders then set as for an x component
/// where `borders` asks for it.
pub open spec fn divergence<T: Scalar>(
    vx: Seq<T>,
    vy: Seq<T>,
    vz: Seq<T>,
    d: Dims,
    borders: bool,
) -> Seq<T> {
    let raw = Seq::new(
        d.cells_of() as nat,
        |i: int|
            if d.interior_at(i) {
                divergence_value(vx, vy, vz, d, d.x_of(i), d.y_of(i), d.z_of(i))
            } else {
                T::zero_value()
            },
    );
    if borders {
        bordered(raw, d, BorderKind::XWall)
    } else {
        raw
    }
}

/// The pressure estimate before it is solved: zero, with its borders then set
/// as for a y component where `borders` asks for it.
pub open spec fn initial_pressure<T: Scalar>(d: Dims, borders: bool) -> Seq<T> {
    if borders {
        bordered(uniform(d, T::zero_value()), d, BorderKind::YWall)
    } else {
        uniform(d, T::zero_value())
    }
}

/// The pressure of a velocity: the initial pressure, solved against the
/// divergence with `a = 1` and `c = 6`, borders left alone.
pub open spec fn pressure<T: Scalar>(
    vx: Seq<T>,
    vy: Seq<T>,
    vz: Seq<T>,
    d: Dims,
    iterations: nat,
    borders: bool,
) -> Seq<T> {
    solved(
        initial_pressure(d, borders),
        divergence(vx, vy, vz, d, borders),
        T::one_value(),
        T::count_value(6),
        d,
        iterations,
        false,
        BorderKind::Density,
    )
}

/// The place of the cell one step before (`forward` unset) or behind
/// (`forward` set) `(x, y, z)` along the axis of the velocity component
/// `kind`.
pub open spec fn beside(d: Dims, kind: BorderKind, x: int, y: int, z: int, forward: bool) -> int {
    let by: int = if forward {
        1
    } else {
        -1
    };
    match kind {
        BorderKind::XWall => d.index_of(x + by, y, z),
        BorderKind::YWall => d.index_of(x, y + by, z),
        BorderKind::ZWall => d.index_of(x, y, z + by),
        BorderKind::Density => d.index_of(x, y, z),
    }
}

/// The number of interior cells along the axis of the velocity component
/// `kind`.
pub open spec fn extent(d: Dims, kind: BorderKind) -> usize {
    match kind {
        BorderKind::XWall => d.x,
        BorderKind::YWall => d.y,
        BorderKind::ZWall => d.z,
        BorderKind::Density => 1,
    }
}

/// The velocity component `kind` at the interior cell `(x, y, z)` less the
/// pressure gradient along its axis: `v - 0.5 * (p_behind - p_before) * n`.
pub open spec fn corrected_value<T: Scalar>(
    v: Seq<T>,
    p: Seq<T>,
    d: Dims,
    kind: BorderKind,
    x: int,
    y: int,
    z: int,
) -> T {
    v[d.index_of(x, y, z)].difference(
        T::half_value().product(
            p[beside(d, kind, x, y, z, true)].difference(p[beside(d, kind, x, y, z, false)]),
        ).product(T::count_value(extent(d, kind))),
    )
}

/// The velocity component `kind` with the pressure gradient subtracted in
/// the interior.
pub open spec fn relieved<T: Scalar>(v: Seq<T>, p: Seq<T>, d: Dims, kind: BorderKind) -> Seq<T> {
    Seq::new(
        d.cells_of() as nat,
        |i: int|
            if d.interior_at(i) {
                corrected_value(v, p, d, kind, d.x_of(i), d.y_of(i), d.z_of(i))
            } else {
                v[i]
            },
    )
}

/// The velocity component `kind` after projection against the pressure `p`.
pub open spec fn corrected<T: Scalar>(
    v: Seq<T>,
    p: Seq<T>,
    d: Dims,
    kind: BorderKind,
    borders: bool,
) -> Seq<T> {
    if borders {
        bordered(relieved(v, p, d, kind), d, kind)
    } else {
        relieved(v, p, d, kind)
    }
}

/// The divergence field of the velocity, borders not yet set.
fn measure<T: Scalar>(vx: &Vec<T>, vy: &Vec<T>, vz: &Vec<T>, d: &Dims) -> (div: Vec<T>)
    requires
        d.valid(),
        vx.len() == d.cells_of(),
        vy.len() == d.cells_of(),
        vz.len() == d.cells_of(),
    ensures
        div@ == divergence(vx@, vy@, vz@, *d, false),
        div.len() == d.cells_of(),
{
    let mut div = uniform_field(d, T::zero());
    let n = d.cells();
    let row = d.row();
    let plane = d.plane();
    let scale = T::half().negated();
    let mut at = Cursor::start(d);
    while at.i < n
        invariant
            d.valid(),
            n == d.cells_of(),
            row == d.row_of(),
            plane == d.plane_of(),
            scale == T::half_value().negation(),
            at.at(*d),
            div.len() == n,
            vx.len() == n,
            vy.len() == n,
            vz.len() == n,
            forall|j: int|
                0 <= j < at.i ==> #[trigger] div@[j] == divergence(vx@, vy@, vz@, *d, false)[j],
            forall|j: int| at.i <= j < n ==> #[trigger] div@[j] == T::zero_value(),
        decreases n - at.i,
    {
        if at.inside(d) {
            proof {
                lemma_neighbours(*d, at.x as int, at.y as int, at.z as int);
            }
            let i = at.i;
            let along_x = vx[i + 1].minus(vx[i - 1]).over(T::from_count(d.x));
            let along_y = vy[i + row].minus(vy[i - row]).over(T::from_count(d.y));
            let along_z = vz[i + plane].minus(vz[i - plane]).over(T::from_count(d.z));
            div.set(i, scale.times(along_x.plus(along_y).plus(along_z)));
        }
        at.advance(d);
    }
    assert(div@ =~= divergence(vx@, vy@, vz@, *d, false));
    div
}

/// Subtracts from the velocity component `kind` the gradient of `p` along its
/// axis, in the interior.
fn relieve<T: Scalar>(v: &mut Vec<T>, p: &Vec<T>, d: &Dims, kind: BorderKind)
    requires
        d.valid(),
        kind != BorderKind::Density,
        old(v).len() == d.cells_of(),
        p.len() == d.cells_of(),
    ensures
        final(v)@ == relieved(old(v)@, p@, *d, kind),
        final(v).len() == d.cells_of(),
{
    let ghost before = v@;
    let n = d.cells();
    let stride = match kind {
        BorderKind::XWall => 1,
        BorderKind::YWall => d.row(),
        _ => d.plane(),
    };
    let cells = match kind {
        BorderKind::XWall => d.x,
        BorderKind::YWall => d.y,
        _ => d.z,
    };
    let scale = T::from_count(cells);
    let mut at = Cursor::start(d);
    while at.i < n
        invariant
            d.valid(),
            kind != BorderKind::Density,
            n == d.cells_of(),
            stride == (match kind {
                BorderKind::XWall => 1,
                BorderKind::YWall => d.row_of(),
                _ => d.plane_of(),
            }),
            scale == T::count_value(extent(*d, kind)),
            at.at(*d),
            v.len() == n,
            before.len() == n,
            p.len() == n,
            forall|j: int| 0 <= j < at.i ==> #[trigger] v@[j] == relieved(before, p@, *d, kind)[j],
            forall|j: int| at.i <= j < n ==> #[trigger] v@[j] == before[j],
        decreases n - at.i,
    {
        if at.inside(d) {
            proof {
                lemma_neighbours(*d, at.x as int, at.y as int, at.z as int);
            }
            let i = at.i;
            let slope = T::half().times(p[i + stride].minus(p[i - stride])).times(scale);
            let value = v[i].minus(slope);
            v.set(i, value);
        }
        at.advance(d);
    }
    assert(v@ =~= relieved(before, p@, *d, kind));
}

/// Makes the velocity `(vx, vy, vz)` nearly free of divergence.
///
/// The scaled divergence of the velocity is stored in a scratch field and a
/// second scratch field, the pressure, is set to zero; where `borders` is set
/// the borders of the first are set as for an x component and those of the
/// second as for a y component. The pressure is solved against the divergence
/// with `a = 1` and `c = 6` in `iterations` sweeps that leave the borders
/// alone. Each velocity component then loses, in the interior, the central
/// difference of the pressure along its axis, scaled by one half and by the
/// number of interior cells along that axis; where `borders` is set the
/// borders of each component are set for its own kind.
pub fn project<T: Scalar>(
    vx: &mut Vec<T>,
    vy: &mut Vec<T>,
    vz: &mut Vec<T>,
    d: &Dims,
    iterations: usize,
    borders: bool,
)
    requires
        d.valid(),
        old(vx).len() == d.cells_of(),
        old(vy).len() == d.cells_of(),
        old(vz).len() == d.cells_of(),
    ensures
        final(vx)@ == corrected(
            old(vx)@,
            pressure(old(vx)@, old(vy)@, old(vz)@, *d, iterations as nat, borders),
            *d,
            BorderKind::XWall,
            borders,
        ),
        final(vy)@ == corrected(
            old(vy)@,
            pressure(old(vx)@, old(vy)@, old(vz)@, *d, iterations as nat, borders),
            *d,
            BorderKind::YWall,
            borders,
        ),
        final(vz)@ == corrected(
            old(vz)@,
            pressure(old(vx)@, old(vy)@, old(vz)@, *d, iterations as nat, borders),
            *d,
            BorderKind::ZWall,
            borders,
        ),
        final(vx).len() == d.cells_of(),
        final(vy).len() == d.cells_of(),
        final(vz).len() == d.cells_of(),
{
    let mut div = measure(vx, vy, vz, d);
    let mut p = uniform_field(d, T::zero());
    if borders {
        set_borders(&mut div, d, BorderKind::XWall);
        set_borders(&mut p, d, BorderKind::YWall);
    }
    linear_solver(&mut p, &div, d, T::one(), T::from_count(6), iterations, false, BorderKind::Density);
    relieve(vx, &p, d, BorderKind::XWall);
    relieve(vy, &p, d, BorderKind::YWall);
    relieve(vz, &p, d, BorderKind::ZWall);
    if borders {
        set_borders(vx, d, BorderKind::XWall);
        set_borders(vy, d, BorderKind::YWall);
        set_borders(vz, d, BorderKind::ZWall);
    }
}

/// A velocity at rest has no divergence and no pressure, and projection
/// leaves each of its components at rest.
pub proof fn lemma_projected_rest<T: ExactScalar>(
    d: Dims,
    kind: BorderKind,
    iterations: nat,
    borders: bool,
)
    requires
        d.valid(),
    ensures
        divergence(
            uniform(d, T::zero_value()),
            uniform(d, T::zero_value()),
            uniform(d, T::zero_value()),
            d,
            borders,
        ) == uniform(d, T::zero_value()),
        pressure(
            uniform(d, T::zero_value()),
            uniform(d, T::zero_value()),
            uniform(d, T::zero_value()),
            d,
            iterations,
            borders,
        ) == uniform(d, T::zero_value()),
        corrected(uniform(d, T::zero_value()), uniform(d, T::zero_value()), d, kind, borders)
            == uniform(d, T::zero_value()),
{
    let zero = T::zero_value();
    let rest = uniform(d, zero);
    T::lemma_difference_zero(zero);
    T::lemma_sum_zero(zero);
    T::lemma_quotient_zero(T::count_value(d.x));
    T::lemma_quotient_zero(T::count_value(d.y));
    T::lemma_quotient_zero(T::count_value(d.z));
    T::lemma_product_zero(T::half_value().negation());
    T::lemma_product_zero(T::half_value());
    T::lemma_product_zero(T::count_value(extent(d, kind)));
    assert forall|i: int| 0 <= i < d.cells_of() && d.interior_at(i) implies divergence_value(
        rest,
        rest,
        rest,
        d,
        d.x_of(i),
        d.y_of(i),
        d.z_of(i),
    ) == zero && corrected_value(rest, rest, d, kind, d.x_of(i), d.y_of(i), d.z_of(i)) == zero by {
        let x = d.x_of(i);
        let y = d.y_of(i);
        let z = d.z_of(i);
        lemma_index_of_coords(d, i);
        lemma_index_in_range(d, x - 1, y, z);
        lemma_index_in_range(d, x + 1, y, z);
        lemma_index_in_range(d, x, y - 1, z);
        lemma_index_in_range(d, x, y + 1, z);
        lemma_index_in_range(d, x, y, z - 1);
        lemma_index_in_range(d, x, y, z + 1);
    }
    lemma_bordered_rest::<T>(d, BorderKind::XWall);
    lemma_bordered_rest::<T>(d, BorderKind::YWall);
    lemma_bordered_rest::<T>(d, kind);
    assert(divergence(rest, rest, rest, d, false) =~= rest);
    assert(relieved(rest, rest, d, kind) =~= rest);
    lemma_solved_rest::<T>(
        d,
        T::one_value(),
        T::count_value(6),
        iterations,
        false,
        BorderKind::Density,
    );
}

} // verus!
