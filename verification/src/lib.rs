//! A verified arithmetic-circuit construction layer for a scalar
//! multiplication gadget.
//!
//! The crate models how a multiplication relation over a finite field is
//! encoded as algebraic constraints: typed columns with equality flags, a
//! selector-guarded polynomial gate, disjoint region allocation, a
//! write-once cell grid with copy constraints, and the binding of a result
//! cell to a public input. A satisfaction checker evaluates the resulting
//! circuit against a public-input vector.

pub mod field;
pub mod system;
pub mod layout;
pub mod chip;
pub mod checker;
pub mod circuits;
