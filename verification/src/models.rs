//! Plain request and response carriers used around the kernel: exercise
//! creation, rule application parameters, and feedback.

use vstd::prelude::*;

use crate::formula::Formula;
use crate::rule::Rules;
use crate::statement::Statement;

verus! {

/// A request to create an exercise from assumptions and a goal.
#[derive(Debug)]
pub struct CreateExerciseRequest {
    pub lhs: Vec<Formula>,
    pub rhs: Formula,
}

/// One binding of a formula placeholder, as callers supply it.
#[derive(Debug)]
pub struct FormulaMapping {
    pub from: u32,
    pub to: Formula,
}

/// One binding of an element placeholder, as callers supply it.
#[derive(Debug)]
pub struct ElementMapping {
    pub from: String,
    pub to: String,
}

/// The parameters of one rule application: the target judgment, the rule, and
/// the caller-supplied bindings.
#[derive(Debug)]
pub struct ApplyRuleParams {
    pub statement: Statement,
    pub rule: Rules,
    pub mapping: Vec<FormulaMapping>,
    pub substitution: Vec<ElementMapping>,
}

/// Feedback on an exercise.
#[derive(Debug)]
pub struct Feedback {
    pub like: bool,
    pub difficulty: Option<u32>,
}

/// A formula in textual notation, to be parsed.
#[derive(Debug)]
pub struct ParseParams {
    pub formula: String,
}

/// A hint: a rule and the premises it would leave open.
#[derive(Debug)]
pub struct Tipp {
    pub rule: Rules,
    pub premisses: Vec<Statement>,
}

} // verus!
