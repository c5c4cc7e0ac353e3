//! A stable-fluids solver on a padded voxel grid: density and velocity fields
//! advanced in time by implicit diffusion, semi-Lagrangian advection and
//! pressure projection.
//!
//! The solver is generic in the numbers that the fields hold (see
//! [`scalar::Scalar`]); [`fixed::Fixed`] is a fixed-point number on which a
//! simulation is exact and reproducible.

pub mod advect;
pub mod borders;
pub mod fixed;
pub mod fluid;
pub mod layout;
pub mod project;
pub mod scalar;
pub mod solver;
pub mod types;

pub use crate::advect::advect;
pub use crate::borders::set_borders;
pub use crate::borders::BorderKind;
pub use crate::fixed::Fixed;
pub use crate::fluid::step_dens;
pub use crate::fluid::step_fluid;
pub use crate::fluid::step_vel;
pub use crate::layout::Dims;
pub use crate::layout::WindError;
pub use crate::project::project;
pub use crate::scalar::Scalar;
pub use crate::solver::diffuse;
pub use crate::solver::linear_solver;
pub use crate::types::Pos;
pub use crate::types::Vel;
pub use crate::types::WindGrid;
