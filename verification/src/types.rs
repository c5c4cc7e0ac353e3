//! The simulated system: a density and a velocity on one grid, and the points
//! at which a caller feeds it.

use vstd::prelude::*;
use crate::layout::Dims;
use crate::layout::WindError;
use crate::layout::uniform;
use crate::layout::uniform_field;
use crate::scalar::Scalar;

verus! {

/// A velocity: one component along each axis.
#[derive(Debug, PartialEq)]
pub struct Vel<T> {
    pub x: T,
    pub y: T,
    pub z: T,
}

impl<T: Copy> Clone for Vel<T> {
    fn clone(&self) -> (copy: Self)
        ensures
            copy == *self,
    {
        *self
    }
}

impl<T: Copy> Copy for Vel<T> {

}

impl<T: Scalar> Default for Vel<T> {
    /// The velocity of a fluid that stands still.
    fn default() -> (still: Self)
        ensures
            still == (Vel { x: T::zero_value(), y: T::zero_value(), z: T::zero_value() }),
    {
        Vel { x: T::zero(), y: T::zero(), z: T::zero() }
    }
}

/// A cell of the padded grid, by its coordinates.
#[derive(Clone, Copy, Debug, PartialEq, Eq)]
pub struct Pos {
    pub x: usize,
    pub y: usize,
    pub z: usize,
}

/// What a [`WindGrid`] holds: its shape, the number of sweeps that each solve
/// makes, and its four fields.
pub struct WindState<T> {
    pub dims: Dims,
    pub iterations: nat,
    pub density: Seq<T>,
    pub x_vel: Seq<T>,
    pub y_vel: Seq<T>,
    pub z_vel: Seq<T>,
}

impl<T: Scalar> WindState<T> {
    /// The shape is valid and each field has one number for each cell.
    pub open spec fn valid(self) -> bool {
        &&& self.dims.valid()
        &&& self.density.len() == self.dims.cells_of()
        &&& self.x_vel.len() == self.dims.cells_of()
        &&& self.y_vel.len() == self.dims.cells_of()
        &&& self.z_vel.len() == self.dims.cells_of()
    }

    /// The state at rest: no density and no velocity anywhere.
    pub open spec fn at_rest(d: Dims, iterations: nat) -> Self {
        WindState {
            dims: d,
            iterations,
            density: uniform(d, T::zero_value()),
            x_vel: uniform(d, T::zero_value()),
            y_vel: uniform(d, T::zero_value()),
            z_vel: uniform(d, T::zero_value()),
        }
    }

    /// The state with the velocity at `pos` replaced by `vel`.
    pub open spec fn with_velocity(self, pos: Pos, vel: Vel<T>) -> Self {
        let at = self.dims.index_of(pos.x as int, pos.y as int, pos.z as int);
        WindState {
            x_vel: self.x_vel.update(at, vel.x),
            y_vel: self.y_vel.update(at, vel.y),
            z_vel: self.z_vel.update(at, vel.z),
            ..self
        }
    }

    /// The state with the density at `pos` replaced by `value`.
    pub open spec fn with_density(self, pos: Pos, value: T) -> Self {
        let at = self.dims.index_of(pos.x as int, pos.y as int, pos.z as int);
        WindState { density: self.density.update(at, value), ..self }
    }

    /// The velocity stored at `pos`.
    pub open spec fn velocity_at(self, pos: Pos) -> Vel<T> {
        let at = self.dims.index_of(pos.x as int, pos.y as int, pos.z as int);
        Vel { x: self.x_vel[at], y: self.y_vel[at], z: self.z_vel[at] }
    }
}

/// A density field and the three components of a velocity field on one
/// padded grid.
#[derive(Clone, Debug, PartialEq)]
pub struct WindGrid<T> {
    pub(crate) dims: Dims,
    pub(crate) iterations: usize,
    pub(crate) x_vel: Vec<T>,
    pub(crate) y_vel: Vec<T>,
    pub(crate) z_vel: Vec<T>,
    pub(crate) density: Vec<T>,
}

impl<T: Scalar> View for WindGrid<T> {
    type V = WindState<T>;

    open(crate) spec fn view(&self) -> WindState<T> {
        WindState {
            dims: self.dims,
            iterations: self.iterations as nat,
            density: self.density@,
            x_vel: self.x_vel@,
            y_vel: self.y_vel@,
            z_vel: self.z_vel@,
        }
    }
}

impl<T: Scalar> WindGrid<T> {
    /// The grid holds a valid state.
    pub open spec fn wf(&self) -> bool {
        self@.valid()
    }

    /// A grid of `x * y * z` interior cells at rest, whose solves make one
    /// sweep each; refused where an axis is empty or the padded grid has more
    /// cells than a `usize` can count.
    pub fn new(x: usize, y: usize, z: usize) -> (r: Result<WindGrid<T>, WindError>)
        ensures
            (Dims { x, y, z }).valid() ==> r is Ok && r->Ok_0.wf() && r->Ok_0@ == WindState::<
                T,
            >::at_rest(Dims { x, y, z }, 1),
            !(Dims { x, y, z }).valid() ==> r is Err && r->Err_0
                == WindError::DegenerateConfiguration,
    {
        match Dims::new(x, y, z) {
            Err(e) => Err(e),
            Ok(dims) => Ok(
                WindGrid {
                    dims,
                    iterations: 1,
                    x_vel: uniform_field(&dims, T::zero()),
                    y_vel: uniform_field(&dims, T::zero()),
                    z_vel: uniform_field(&dims, T::zero()),
                    density: uniform_field(&dims, T::zero()),
                },
            ),
        }
    }

    /// The shape of the grid.
    pub fn dims(&self) -> (d: Dims)
        ensures
            d == self@.dims,
    {
        self.dims
    }

    /// The number of sweeps that each solve makes.
    pub fn iterations(&self) -> (n: usize)
        ensures
            n == self@.iterations,
    {
        self.iterations
    }

    /// Sets the number of sweeps that each solve makes.
    pub fn set_iterations(&mut self, iterations: usize)
        ensures
            final(self)@ == (WindState { iterations: iterations as nat, ..old(self)@ }),
    {
        self.iterations = iterations;
    }

    /// The density, one number for each cell in the order of the places.
    pub fn density(&self) -> (field: &Vec<T>)
        ensures
            field@ == self@.density,
    {
        &self.density
    }

    /// The x component of the velocity, in the order of the places.
    pub fn x_vel(&self) -> (field: &Vec<T>)
        ensures
            field@ == self@.x_vel,
    {
        &self.x_vel
    }

    /// The y component of the velocity, in the order of the places.
    pub fn y_vel(&self) -> (field: &Vec<T>)
        ensures
            field@ == self@.y_vel,
    {
        &self.y_vel
    }

    /// The z component of the velocity, in the order of the places.
    pub fn z_vel(&self) -> (field: &Vec<T>)
        ensures
            field@ == self@.z_vel,
    {
        &self.z_vel
    }

    /// The place of the cell `(x, y, z)` in each field, unless the cell lies
    /// outside the padded grid.
    pub fn get_index(&self, x: usize, y: usize, z: usize) -> (r: Result<usize, WindError>)
        requires
            self.wf(),
        ensures
            self@.dims.holds(x as int, y as int, z as int) ==> r == Ok::<usize, WindError>(
                self@.dims.index_of(x as int, y as int, z as int) as usize,
            ) && self@.dims.index_of(x as int, y as int, z as int) < self@.dims.cells_of(),
            !self@.dims.holds(x as int, y as int, z as int) ==> r == Err::<usize, WindError>(
                WindError::IndexOutOfBounds,
            ),
    {
        if self.dims.contains(x, y, z) {
            Ok(self.dims.index(x, y, z))
        } else {
            Err(WindError::IndexOutOfBounds)
        }
    }

    /// Replaces the velocity of the cell at `pos` by `vel`. A position
    /// outside the padded grid is refused and the grid left as it is.
    pub fn add_velocity_source(&mut self, pos: Pos, vel: Vel<T>) -> (r: Result<(), WindError>)
        requires
            old(self).wf(),
        ensures
            final(self).wf(),
            old(self)@.dims.holds(pos.x as int, pos.y as int, pos.z as int) ==> r is Ok && final(self)@ == old(self)@.with_velocity(pos, vel),
            !old(self)@.dims.holds(pos.x as int, pos.y as int, pos.z as int) ==> r == Err::<
                (),
                WindError,
            >(WindError::IndexOutOfBounds) && final(self)@ == old(self)@,
    {
        match self.get_index(pos.x, pos.y, pos.z) {
            Err(e) => Err(e),
            Ok(at) => {
                self.x_vel.set(at, vel.x);
                self.y_vel.set(at, vel.y);
                self.z_vel.set(at, vel.z);
                Ok(())
            },
        }
    }

    /// Replaces the density of the cell at `pos` by `value`. A position
    /// outside the padded grid is refused and the grid left as it is.
    pub fn add_density_source(&mut self, pos: Pos, value: T) -> (r: Result<(), WindError>)
        requires
            old(self).wf(),
        ensures
            final(self).wf(),
            old(self)@.dims.holds(pos.x as int, pos.y as int, pos.z as int) ==> r is Ok && final(self)@ == old(self)@.with_density(pos, value),
            !old(self)@.dims.holds(pos.x as int, pos.y as int, pos.z as int) ==> r == Err::<
                (),
                WindError,
            >(WindError::IndexOutOfBounds) && final(self)@ == old(self)@,
    {
        match self.get_index(pos.x, pos.y, pos.z) {
            Err(e) => Err(e),
            Ok(at) => {
                self.density.set(at, value);
                Ok(())
            },
        }
    }

    /// The velocity of the cell at `pos`: each component is read from the
    /// field of its own axis. A position outside the padded grid is refused.
    pub fn get_velocity(&self, pos: Pos) -> (r: Result<Vel<T>, WindError>)
        requires
            self.wf(),
        ensures
            self@.dims.holds(pos.x as int, pos.y as int, pos.z as int) ==> r == Ok::<
                Vel<T>,
                WindError,
            >(self@.velocity_at(pos)),
            !self@.dims.holds(pos.x as int, pos.y as int, pos.z as int) ==> r == Err::<
                Vel<T>,
                WindError,
            >(WindError::IndexOutOfBounds),
    {
        match self.get_index(pos.x, pos.y, pos.z) {
            Err(e) => Err(e),
            Ok(at) => Ok(Vel { x: self.x_vel[at], y: self.y_vel[at], z: self.z_vel[at] }),
        }
    }
}

} // verus!
