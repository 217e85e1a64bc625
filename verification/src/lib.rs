//! Kernel of a natural-deduction proof assistant for first-order logic:
//! formulas and their structural operations (free variables, capture-avoiding
//! substitution), a fixed catalogue of schematic inference rules, forward and
//! backward resolution of rule schemas against concrete judgments, per-rule
//! side-condition checking, and validation of whole derivation trees.

pub mod catalogue;
pub mod errors;
pub mod formula;
pub mod laws;
pub mod mapping;
pub mod models;
pub mod normalize;
pub mod rule;
pub mod statement;
pub mod tree;
pub mod varset;
