//! A PLONK-style constraint-system builder.
//!
//! The crate turns a computation into rows of selector coefficients and wire
//! assignments over the BLS12-381 scalar field, tracks the copy-constraint
//! (permutation) sites of every witness, records sparse public inputs, and
//! keeps a lookup table for plonkup gates. The frozen state is what a
//! downstream polynomial-commitment prover consumes.

pub mod scalar;
pub mod constraint;
pub mod permutation;
pub mod lookup;
pub mod composer;
pub mod identity;
pub mod gadgets;
pub mod checker;

pub use scalar::Scalar;
pub use constraint::{Constraint, Selector, Witness, WiredWitness};
pub use permutation::{Permutation, WireData};
pub use lookup::{LookupTable, TableRow};
pub use composer::TurboComposer;
