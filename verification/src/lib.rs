//! A solver for the flow of an incompressible fluid on a grid in the plane,
//! after the method of stable fluids.
//!
//! A grid of fixed size carries the velocity of the fluid, the dye that it
//! moves, and the pressure. Each time step adds the forces and the dye that were
//! inserted from outside, diffuses both fields, carries them along the flow, and
//! projects the velocity towards a flow without divergence.
//!
//! The solver computes with any number type that implements [`Scalar`], and the
//! contracts give each result as an expression over the operations of that
//! type. [`Fixed`] is such a type, with arithmetic that is stated and proved
//! to the bit; the module [`exact`] holds what follows for a solver that
//! computes with it.

pub mod exact;
pub mod field;
pub mod fixed;
pub mod quantity;
pub mod relax;
pub mod solver;
pub mod state;
pub mod vector;

pub use crate::field::{bilerp, checked_bilerp, DiscreteField};
pub use crate::fixed::Fixed;
pub use crate::quantity::{Quantity, Scalar};
pub use crate::relax::relax;
pub use crate::solver::FluidSolver;
pub use crate::vector::{Vector, Vector2, Vector3};
