//! The error taxonomy of the kernel. Every fallible operation reports one of
//! these kinds explicitly; nothing panics and nothing is downgraded to success.

use vstd::prelude::*;

verus! {

/// Why an operation on formulas, rules or trees was refused.
#[derive(Clone, Copy, Debug, PartialEq, Eq, Structural)]
pub enum DeductionError {
    /// A quantifier binder or a predicate argument is not an `Element`.
    MalformedFormula,
    /// A rule placeholder is absent from the binding table it was looked up in.
    UnresolvedPlaceholder,
    /// The same placeholder was assigned two different values.
    BindingConflict,
    /// The target judgment's shape does not match the rule's conclusion schema.
    RuleNotApplicable,
    /// A per-rule side condition failed.
    SideConditionViolated,
    /// A substitution would capture the substituted-in variable.
    CaptureError,
    /// The bounded mapping inference did not cover all placeholders.
    InferenceFailure,
    /// The resolved conclusion differs from the target formula.
    ConclusionMismatch,
    /// A tree node references a premise id absent from the node set.
    MissingPremise,
    /// A tree node was reached twice: the premise references form a cycle.
    CyclicTree,
    /// A renaming bookkeeping limit was exceeded.
    TooManyNames,
}

impl DeductionError {
    /// A human-readable reason, for callers that surface errors as text.
    pub fn message(&self) -> String {
        match self {
            DeductionError::MalformedFormula => "the variable must be an element".to_owned(),
            DeductionError::UnresolvedPlaceholder => "identifier not found in the mapping".to_owned(),
            DeductionError::BindingConflict => "mapping already exists with a different formula".to_owned(),
            DeductionError::RuleNotApplicable => "the rule is not applicable".to_owned(),
            DeductionError::SideConditionViolated => "a side condition of the rule is violated".to_owned(),
            DeductionError::CaptureError => "substitution results in capture of a variable".to_owned(),
            DeductionError::InferenceFailure => "could not infer mapping".to_owned(),
            DeductionError::ConclusionMismatch => {
                "the conclusion of the rule does not match the target formula".to_owned()
            },
            DeductionError::MissingPremise => "could not find a referenced premise".to_owned(),
            DeductionError::CyclicTree => "the premise references form a cycle".to_owned(),
            DeductionError::TooManyNames => "too many different names in the formula".to_owned(),
        }
    }
}

} // verus!
