//! One tick of the simulation: the density is diffused and carried along the
//! velocity, then the velocity is diffused, projected, carried along itself
//! and projected again.
//!
//! Every stage reads a copy of the field as it stood before the stage and
//! writes the field itself, so that nothing is read that the stage has
//! already written, except within a sweep of the relaxer.

use vstd::prelude::*;
use crate::advect::advect;
use crate::advect::advected;
use crate::advect::lemma_advected_rest;
use crate::borders::BorderKind;
use crate::borders::bordered;
use crate::borders::lemma_bordered_twice;
use crate::layout::Dims;
use crate::layout::WindError;
use crate::layout::uniform;
use crate::project::corrected;
use crate::project::lemma_projected_rest;
use crate::project::pressure;
use crate::project::project;
use crate::scalar::ExactScalar;
use crate::scalar::Scalar;
use crate::solver::diffuse;
use crate::solver::diffused;
use crate::solver::lemma_diffused_rest;
use crate::types::WindGrid;
use crate::types::WindState;

verus! {

/// The density after one tick: diffused against itself, then carried along
/// the velocity `(vx, vy, vz)`.
pub open spec fn stepped_density<T: Scalar>(
    density: Seq<T>,
    vx: Seq<T>,
    vy: Seq<T>,
    vz: Seq<T>,
    d: Dims,
    dt: T,
    diffusion: T,
    iterations: nat,
    borders: bool,
) -> Seq<T> {
    let spread = diffused(
        density,
        density,
        d,
        dt,
        diffusion,
        iterations,
        borders,
        BorderKind::Density,
    );
    advected(spread, spread, vx, vy, vz, d, dt, borders, BorderKind::Density)
}

/// The three components of a velocity after projection.
pub open spec fn projected<T: Scalar>(
    v: (Seq<T>, Seq<T>, Seq<T>),
    d: Dims,
    iterations: nat,
    borders: bool,
) -> (Seq<T>, Seq<T>, Seq<T>) {
    let p = pressure(v.0, v.1, v.2, d, iterations, borders);
    (
        corrected(v.0, p, d, BorderKind::XWall, borders),
        corrected(v.1, p, d, BorderKind::YWall, borders),
        corrected(v.2, p, d, BorderKind::ZWall, borders),
    )
}

/// The three components of a velocity, each diffused against itself.
pub open spec fn spread_velocity<T: Scalar>(
    v: (Seq<T>, Seq<T>, Seq<T>),
    d: Dims,
    dt: T,
    viscosity: T,
    iterations: nat,
    borders: bool,
) -> (Seq<T>, Seq<T>, Seq<T>) {
    (
        diffused(v.0, v.0, d, dt, viscosity, iterations, borders, BorderKind::XWall),
        diffused(v.1, v.1, d, dt, viscosity, iterations, borders, BorderKind::YWall),
        diffused(v.2, v.2, d, dt, viscosity, iterations, borders, BorderKind::ZWall),
    )
}

/// The three components of a velocity, each carried along the velocity
/// itself.
pub open spec fn carried_velocity<T: Scalar>(
    v: (Seq<T>, Seq<T>, Seq<T>),
    d: Dims,
    dt: T,
    borders: bool,
) -> (Seq<T>, Seq<T>, Seq<T>) {
    (
        advected(v.0, v.0, v.0, v.1, v.2, d, dt, borders, BorderKind::XWall),
        advected(v.1, v.1, v.0, v.1, v.2, d, dt, borders, BorderKind::YWall),
        advected(v.2, v.2, v.0, v.1, v.2, d, dt, borders, BorderKind::ZWall),
    )
}

/// The three components of a velocity after one tick: diffused, projected,
/// carried along themselves and projected again.
pub open spec fn stepped_velocity<T: Scalar>(
    v: (Seq<T>, Seq<T>, Seq<T>),
    d: Dims,
    dt: T,
    viscosity: T,
    iterations: nat,
    borders: bool,
) -> (Seq<T>, Seq<T>, Seq<T>) {
    projected(
        carried_velocity(
            projected(
                spread_velocity(v, d, dt, viscosity, iterations, borders),
                d,
                iterations,
                borders,
            ),
            d,
            dt,
            borders,
        ),
        d,
        iterations,
        borders,
    )
}

/// Whether `v` can serve as a time step or a coefficient: an ordinary number
/// that is not below zero.
pub open spec fn admissible<T: Scalar>(v: T) -> bool {
    v.finite() && T::zero_value().not_above(v)
}

/// The state after one tick: the density is stepped along the velocity as it
/// stood before the tick, with the coefficient `diffusion`, then the velocity
/// is stepped with the coefficient `viscosity`.
pub open spec fn stepped<T: Scalar>(
    s: WindState<T>,
    dt: T,
    diffusion: T,
    viscosity: T,
    borders: bool,
) -> WindState<T> {
    let v = stepped_velocity(
        (s.x_vel, s.y_vel, s.z_vel),
        s.dims,
        dt,
        viscosity,
        s.iterations,
        borders,
    );
    WindState {
        dims: s.dims,
        iterations: s.iterations,
        density: stepped_density(
            s.density,
            s.x_vel,
            s.y_vel,
            s.z_vel,
            s.dims,
            dt,
            diffusion,
            s.iterations,
            borders,
        ),
        x_vel: v.0,
        y_vel: v.1,
        z_vel: v.2,
    }
}

/// A copy of `field`.
fn snapshot<T: Scalar>(field: &Vec<T>) -> (copy: Vec<T>)
    ensures
        copy@ == field@,
{
    let mut copy: Vec<T> = Vec::new();
    let mut i: usize = 0;
    while i < field.len()
        invariant
            i <= field.len(),
            copy.len() == i,
            forall|j: int| 0 <= j < i ==> copy@[j] == field@[j],
        decreases field.len() - i,
    {
        copy.push(field[i]);
        i = i + 1;
    }
    assert(copy@ =~= field@);
    copy
}

/// Advances the density by one tick: it is diffused against a copy of
/// itself, then carried along the velocity `(vx, vy, vz)` from a copy of the
/// diffused field. Borders are set as for a density.
pub fn step_dens<T: Scalar>(
    density: &mut Vec<T>,
    vx: &Vec<T>,
    vy: &Vec<T>,
    vz: &Vec<T>,
    d: &Dims,
    dt: T,
    diffusion: T,
    iterations: usize,
    borders: bool,
)
    requires
        d.valid(),
        old(density).len() == d.cells_of(),
        vx.len() == d.cells_of(),
        vy.len() == d.cells_of(),
        vz.len() == d.cells_of(),
    ensures
        final(density)@ == stepped_density(
            old(density)@,
            vx@,
            vy@,
            vz@,
            *d,
            dt,
            diffusion,
            iterations as nat,
            borders,
        ),
        final(density).len() == d.cells_of(),
{
    let before = snapshot(density);
    diffuse(density, &before, d, dt, diffusion, iterations, borders, BorderKind::Density);
    let spread = snapshot(density);
    advect(density, &spread, vx, vy, vz, d, dt, borders, BorderKind::Density);
}

/// Advances the velocity by one tick: each component is diffused against a
/// copy of itself, the velocity is projected, each component is carried along
/// a copy of the projected velocity, and the velocity is projected again.
/// Borders are set for each component's own kind.
pub fn step_vel<T: Scalar>(
    vx: &mut Vec<T>,
    vy: &mut Vec<T>,
    vz: &mut Vec<T>,
    d: &Dims,
    dt: T,
    viscosity: T,
    iterations: usize,
    borders: bool,
)
    requires
        d.valid(),
        old(vx).len() == d.cells_of(),
        old(vy).len() == d.cells_of(),
        old(vz).len() == d.cells_of(),
    ensures
        (final(vx)@, final(vy)@, final(vz)@) == stepped_velocity(
            (old(vx)@, old(vy)@, old(vz)@),
            *d,
            dt,
            viscosity,
            iterations as nat,
            borders,
        ),
        final(vx).len() == d.cells_of(),
        final(vy).len() == d.cells_of(),
        final(vz).len() == d.cells_of(),
{
    let before_x = snapshot(vx);
    let before_y = snapshot(vy);
    let before_z = snapshot(vz);
    diffuse(vx, &before_x, d, dt, viscosity, iterations, borders, BorderKind::XWall);
    diffuse(vy, &before_y, d, dt, viscosity, iterations, borders, BorderKind::YWall);
    diffuse(vz, &before_z, d, dt, viscosity, iterations, borders, BorderKind::ZWall);
    project(vx, vy, vz, d, iterations, borders);
    let along_x = snapshot(vx);
    let along_y = snapshot(vy);
    let along_z = snapshot(vz);
    advect(vx, &along_x, &along_x, &along_y, &along_z, d, dt, borders, BorderKind::XWall);
    advect(vy, &along_y, &along_x, &along_y, &along_z, d, dt, borders, BorderKind::YWall);
    advect(vz, &along_z, &along_x, &along_y, &along_z, d, dt, borders, BorderKind::ZWall);
    project(vx, vy, vz, d, iterations, borders);
}

/// Whether `v` can serve as a time step or a coefficient.
fn is_admissible<T: Scalar>(v: T) -> (r: bool)
    ensures
        r == admissible(v),
{
    v.is_finite() && T::zero().at_most(v)
}

/// Advances `grid` by one tick of length `dt`: the density is stepped along
/// the velocity with the coefficient `diffusion`, then the velocity is
/// stepped with the coefficient `viscosity`. Each solve makes as many sweeps
/// as the grid is set to.
///
/// A time step or a coefficient that is negative, infinite or undefined is
/// refused before anything is changed.
pub fn step_fluid<T: Scalar>(
    grid: &mut WindGrid<T>,
    dt: T,
    diffusion: T,
    viscosity: T,
    borders: bool,
) -> (r: Result<(), WindError>)
    requires
        old(grid).wf(),
    ensures
        final(grid).wf(),
        admissible(dt) && admissible(diffusion) && admissible(viscosity) ==> r is Ok && final(grid)@ == stepped(old(grid)@, dt, diffusion, viscosity, borders),
        !(admissible(dt) && admissible(diffusion) && admissible(viscosity)) ==> r == Err::<
            (),
            WindError,
        >(WindError::NonFiniteInput) && final(grid)@ == old(grid)@,
{
    if !(is_admissible(dt) && is_admissible(diffusion) && is_admissible(viscosity)) {
        return Err(WindError::NonFiniteInput);
    }
    let d = grid.dims;
    let iterations = grid.iterations;
    step_dens(
        &mut grid.density,
        &grid.x_vel,
        &grid.y_vel,
        &grid.z_vel,
        &d,
        dt,
        diffusion,
        iterations,
        borders,
    );
    step_vel(
        &mut grid.x_vel,
        &mut grid.y_vel,
        &mut grid.z_vel,
        &d,
        dt,
        viscosity,
        iterations,
        borders,
    );
    Ok(())
}

/// After a tick with borders every halo cell answers to the interior: each
/// field is what setting its borders, for its own kind, would make of it.
pub proof fn lemma_stepped_settled<T: Scalar>(
    s: WindState<T>,
    dt: T,
    diffusion: T,
    viscosity: T,
)
    requires
        s.valid(),
    ensures
        ({
            let after = stepped(s, dt, diffusion, viscosity, true);
            &&& bordered(after.density, s.dims, BorderKind::Density) == after.density
            &&& bordered(after.x_vel, s.dims, BorderKind::XWall) == after.x_vel
            &&& bordered(after.y_vel, s.dims, BorderKind::YWall) == after.y_vel
            &&& bordered(after.z_vel, s.dims, BorderKind::ZWall) == after.z_vel
        }),
{
    let d = s.dims;
    let spread = diffused(
        s.density,
        s.density,
        d,
        dt,
        diffusion,
        s.iterations,
        true,
        BorderKind::Density,
    );
    lemma_bordered_twice(
        crate::advect::carried(spread, spread, s.x_vel, s.y_vel, s.z_vel, d, dt),
        d,
        BorderKind::Density,
    );
    let v = carried_velocity(
        projected(
            spread_velocity((s.x_vel, s.y_vel, s.z_vel), d, dt, viscosity, s.iterations, true),
            d,
            s.iterations,
            true,
        ),
        d,
        dt,
        true,
    );
    let p = pressure(v.0, v.1, v.2, d, s.iterations, true);
    lemma_bordered_twice(crate::project::relieved(v.0, p, d, BorderKind::XWall), d, BorderKind::XWall);
    lemma_bordered_twice(crate::project::relieved(v.1, p, d, BorderKind::YWall), d, BorderKind::YWall);
    lemma_bordered_twice(crate::project::relieved(v.2, p, d, BorderKind::ZWall), d, BorderKind::ZWall);
}

/// The state after `ticks` ticks.
pub open spec fn stepped_times<T: Scalar>(
    s: WindState<T>,
    dt: T,
    diffusion: T,
    viscosity: T,
    borders: bool,
    ticks: nat,
) -> WindState<T>
    decreases ticks,
{
    if ticks == 0 {
        s
    } else {
        stepped(
            stepped_times(s, dt, diffusion, viscosity, borders, (ticks - 1) as nat),
            dt,
            diffusion,
            viscosity,
            borders,
        )
    }
}

/// A tick leaves a state at rest at rest.
pub proof fn lemma_stepped_rest<T: ExactScalar>(
    d: Dims,
    iterations: nat,
    dt: T,
    diffusion: T,
    viscosity: T,
    borders: bool,
)
    requires
        d.valid(),
    ensures
        stepped(WindState::<T>::at_rest(d, iterations), dt, diffusion, viscosity, borders)
            == WindState::<T>::at_rest(d, iterations),
{
    let rest = uniform(d, T::zero_value());
    lemma_diffused_rest::<T>(d, dt, diffusion, iterations, borders, BorderKind::Density);
    lemma_diffused_rest::<T>(d, dt, viscosity, iterations, borders, BorderKind::XWall);
    lemma_diffused_rest::<T>(d, dt, viscosity, iterations, borders, BorderKind::YWall);
    lemma_diffused_rest::<T>(d, dt, viscosity, iterations, borders, BorderKind::ZWall);
    lemma_advected_rest::<T>(rest, rest, rest, d, dt, borders, BorderKind::Density);
    lemma_advected_rest::<T>(rest, rest, rest, d, dt, borders, BorderKind::XWall);
    lemma_advected_rest::<T>(rest, rest, rest, d, dt, borders, BorderKind::YWall);
    lemma_advected_rest::<T>(rest, rest, rest, d, dt, borders, BorderKind::ZWall);
    lemma_projected_rest::<T>(d, BorderKind::XWall, iterations, borders);
    lemma_projected_rest::<T>(d, BorderKind::YWall, iterations, borders);
    lemma_projected_rest::<T>(d, BorderKind::ZWall, iterations, borders);
    let v = (rest, rest, rest);
    assert(spread_velocity(v, d, dt, viscosity, iterations, borders) == v);
    assert(projected(v, d, iterations, borders) == v);
    assert(carried_velocity(v, d, dt, borders) == v);
    assert(stepped_velocity(v, d, dt, viscosity, iterations, borders) == v);
}

/// With nothing fed into it a state at rest stays at rest: after any number
/// of ticks the density and the velocity are zero in every cell.
pub proof fn lemma_rest_is_kept<T: ExactScalar>(
    d: Dims,
    iterations: nat,
    dt: T,
    diffusion: T,
    viscosity: T,
    borders: bool,
    ticks: nat,
)
    requires
        d.valid(),
    ensures
        stepped_times(
            WindState::<T>::at_rest(d, iterations),
            dt,
            diffusion,
            viscosity,
            borders,
            ticks,
        ) == WindState::<T>::at_rest(d, iterations),
    decreases ticks,
{
    if ticks > 0 {
        lemma_rest_is_kept::<T>(d, iterations, dt, diffusion, viscosity, borders, (ticks - 1) as nat);
        lemma_stepped_rest::<T>(d, iterations, dt, diffusion, viscosity, borders);
    }
}

} // verus!
