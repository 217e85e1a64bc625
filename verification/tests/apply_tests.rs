use deduction::errors::DeductionError;
use deduction::formula::{Formula, Identifier};
use deduction::mapping::{ElementMap, FormulaMap};
use deduction::normalize::{normalize, Normalizer};
use deduction::rule::{RuleIdentifier, Rules};
use deduction::statement::{
    build_formula_from_node, build_implication, legal_rule, Statement,
};

fn lit(name: &str) -> Formula {
    Formula::Ident(Identifier::Literal(name.to_string()))
}

fn pred(name: &str, args: &[&str]) -> Formula {
    Formula::Predicate {
        identifier: Identifier::Element(name.to_string()),
        identifiers: args.iter().map(|a| Identifier::Element(a.to_string())).collect(),
    }
}

fn forall_f(binder: &str, body: Formula) -> Formula {
    Formula::Forall {
        identifier: Identifier::Element(binder.to_string()),
        formula: Box::new(body),
    }
}

fn imp(lhs: Formula, rhs: Formula) -> Formula {
    Formula::Imp { lhs: Box::new(lhs), rhs: Box::new(rhs) }
}

fn and(lhs: Formula, rhs: Formula) -> Formula {
    Formula::And { lhs: Box::new(lhs), rhs: Box::new(rhs) }
}

fn stmt(lhs: Vec<Formula>, formula: Formula) -> Statement {
    Statement { lhs, formula, sidecondition: Vec::new() }
}

fn fid(n: u32) -> RuleIdentifier {
    RuleIdentifier::Formula(n)
}

#[test]
fn axiom_rule_succeeds_with_zero_premises() {
    // Applying Ax to {lhs: [P, Q], formula: Q} succeeds with no new premises.
    let target = stmt(vec![lit("P"), lit("Q")], lit("Q"));
    let rule = Rules::Ax.get_rule();
    let mut mapping = FormulaMap::new();
    mapping.set(fid(0), lit("Q"));
    let substitution = ElementMap::new();
    let premises = target.apply_rule(&rule, &mut mapping, &substitution).unwrap();
    assert_eq!(premises.len(), 0);
}

#[test]
fn axiom_rule_fails_when_goal_not_assumed() {
    // Applying Ax to {lhs: [P], formula: Q} violates the side condition.
    let target = stmt(vec![lit("P")], lit("Q"));
    let rule = Rules::Ax.get_rule();
    let mut mapping = FormulaMap::new();
    mapping.set(fid(0), lit("Q"));
    let substitution = ElementMap::new();
    let r = target.apply_rule(&rule, &mut mapping, &substitution);
    assert_eq!(r.unwrap_err(), DeductionError::SideConditionViolated);
}

#[test]
fn impl_intro_yields_one_premise_with_new_assumption() {
    // ImplIntro on Imp(P, Q) with 0 -> P, 1 -> Q yields {lhs: [P], formula: Q}.
    let target = stmt(Vec::new(), imp(lit("P"), lit("Q")));
    let rule = Rules::ImplIntro.get_rule();
    let mut mapping = FormulaMap::new();
    mapping.set(fid(0), lit("P"));
    mapping.set(fid(1), lit("Q"));
    let substitution = ElementMap::new();
    let premises = target.apply_rule(&rule, &mut mapping, &substitution).unwrap();
    assert_eq!(premises.len(), 1);
    assert_eq!(premises[0].lhs.len(), 1);
    assert!(premises[0].lhs[0].eq_formula(&lit("P")));
    assert!(premises[0].formula.eq_formula(&lit("Q")));
}

#[test]
fn and_elim_left_keeps_assumptions() {
    // AndElimL on target P with 0 -> P, 1 -> Q asks for And(P, Q).
    let target = stmt(vec![lit("R")], lit("P"));
    let rule = Rules::AndElimL.get_rule();
    let mut mapping = FormulaMap::new();
    mapping.set(fid(0), lit("P"));
    mapping.set(fid(1), lit("Q"));
    let substitution = ElementMap::new();
    let premises = target.apply_rule(&rule, &mut mapping, &substitution).unwrap();
    assert_eq!(premises.len(), 1);
    assert!(premises[0].formula.eq_formula(&and(lit("P"), lit("Q"))));
    assert_eq!(premises[0].lhs.len(), 1);
    assert!(premises[0].lhs[0].eq_formula(&lit("R")));
}

#[test]
fn conclusion_mismatch_is_refused() {
    // AndIntro against a target that is not the resolved conjunction.
    let target = stmt(Vec::new(), and(lit("P"), lit("Q")));
    let rule = Rules::AndIntro.get_rule();
    let mut mapping = FormulaMap::new();
    mapping.set(fid(0), lit("P"));
    mapping.set(fid(1), lit("P"));
    let substitution = ElementMap::new();
    let r = target.apply_rule(&rule, &mut mapping, &substitution);
    assert_eq!(r.unwrap_err(), DeductionError::ConclusionMismatch);
}

#[test]
fn wrong_shape_is_not_applicable() {
    // AndIntro cannot target an implication.
    let target = stmt(Vec::new(), imp(lit("P"), lit("Q")));
    let rule = Rules::AndIntro.get_rule();
    let substitution = ElementMap::new();
    let r = legal_rule(&target, &rule, &substitution);
    assert_eq!(r.unwrap_err(), DeductionError::RuleNotApplicable);
}

#[test]
fn forall_intro_rejects_variable_free_in_assumptions() {
    // Target {lhs: [p(x)], formula: forall x. P} fails the side condition:
    // x occurs free in an assumption.
    let target = stmt(vec![pred("p", &["x"])], forall_f("x", lit("P")));
    let rule = Rules::ForallIntro.get_rule();
    let substitution = ElementMap::new();
    let r = legal_rule(&target, &rule, &substitution);
    assert_eq!(r.unwrap_err(), DeductionError::SideConditionViolated);
}

#[test]
fn forall_intro_accepts_fresh_variable() {
    let target = stmt(vec![pred("p", &["y"])], forall_f("x", pred("p", &["x"])));
    let rule = Rules::ForallIntro.get_rule();
    let substitution = ElementMap::new();
    assert!(legal_rule(&target, &rule, &substitution).is_ok());
}

#[test]
fn forall_elim_recovers_substituted_form() {
    // ForallElim: target p(c), premise forall x. p(x), with 0 -> p(x),
    // x -> x, t -> c. The conclusion schema p(x)[x := t] resolves to p(c).
    let target = stmt(Vec::new(), pred("p", &["c"]));
    let rule = Rules::ForallElim.get_rule();
    let mut mapping = FormulaMap::new();
    mapping.set(fid(0), pred("p", &["x"]));
    let mut substitution = ElementMap::new();
    substitution.set(RuleIdentifier::Element("x".to_string()), "x".to_string());
    substitution.set(RuleIdentifier::Element("t".to_string()), "c".to_string());
    let premises = target.apply_rule(&rule, &mut mapping, &substitution).unwrap();
    assert_eq!(premises.len(), 1);
    assert!(premises[0].formula.eq_formula(&forall_f("x", pred("p", &["x"]))));
}

#[test]
fn build_implication_folds_assumptions() {
    let s = stmt(vec![lit("P"), lit("Q")], lit("R"));
    let f = s.build_implication();
    let expected = imp(and(lit("P"), lit("Q")), lit("R"));
    assert!(f.eq_formula(&expected));
}

#[test]
fn build_implication_without_assumptions_is_the_formula() {
    let s = stmt(Vec::new(), lit("R"));
    let f = build_implication(s);
    assert!(f.eq_formula(&lit("R")));
}

#[test]
fn build_formula_from_node_relates_premises_to_conclusion() {
    let conclusion = stmt(Vec::new(), lit("R"));
    let premise = stmt(vec![lit("P")], lit("R"));
    let f = build_formula_from_node(conclusion, vec![premise]);
    let expected = imp(imp(lit("P"), lit("R")), lit("R"));
    assert!(f.eq_formula(&expected));
}

#[test]
fn normalize_renames_literals_in_order() {
    let f = and(lit("foo"), imp(lit("bar"), lit("baz")));
    let mut normalizer = Normalizer::new();
    let g = normalize(f, &mut normalizer).unwrap();
    let expected = and(lit("A"), imp(lit("B"), lit("C")));
    assert!(g.eq_formula(&expected));
}

#[test]
fn normalizer_letters_run_in_sequence() {
    let mut normalizer = Normalizer::new();
    let a = normalizer.next_literal().unwrap();
    let b = normalizer.next_literal().unwrap();
    assert!(Formula::Ident(a).eq_formula(&lit("A")));
    assert!(Formula::Ident(b).eq_formula(&lit("B")));
    let x = normalizer.next_element().unwrap();
    assert!(Formula::Ident(x).eq_formula(&Formula::Ident(Identifier::Element("x".to_string()))));
    let p = normalizer.next_predicate().unwrap();
    assert!(Formula::Ident(p).eq_formula(&Formula::Ident(Identifier::Element("x".to_string()))));
}

#[test]
fn exists_elim_rejects_witness_free_in_assumptions() {
    // The chosen witness x occurs free in an assumption.
    let target = Statement {
        lhs: vec![pred("q", &["x"])],
        formula: lit("Q"),
        sidecondition: Vec::new(),
    };
    let rule = Rules::ExistsElim.get_rule();
    let mut substitution = ElementMap::new();
    substitution.set(RuleIdentifier::Element("x".to_string()), "x".to_string());
    let r = legal_rule(&target, &rule, &substitution);
    assert_eq!(r.unwrap_err(), DeductionError::SideConditionViolated);
}

#[test]
fn exists_elim_accepts_fresh_witness() {
    // The conclusion is an opaque atom, so a declared side condition must
    // state that the witness cannot occur free in it.
    let target = Statement {
        lhs: vec![pred("q", &["y"])],
        formula: lit("Q"),
        sidecondition: vec![deduction::formula::SideCondition::NotFree {
            placeholder: Identifier::Literal("Q".to_string()),
            element: Identifier::Element("x".to_string()),
        }],
    };
    let rule = Rules::ExistsElim.get_rule();
    let mut substitution = ElementMap::new();
    substitution.set(RuleIdentifier::Element("x".to_string()), "x".to_string());
    assert!(legal_rule(&target, &rule, &substitution).is_ok());
}

#[test]
fn alpha_forall_rejects_rename_onto_free_variable() {
    // Renaming the binder to y is vacuous or capturing when y is free in the
    // target.
    let target = stmt(Vec::new(), forall_f("x", pred("p", &["x", "y"])));
    let rule = Rules::AlphaForall.get_rule();
    let mut substitution = ElementMap::new();
    substitution.set(RuleIdentifier::Element("x".to_string()), "x".to_string());
    substitution.set(RuleIdentifier::Element("y".to_string()), "y".to_string());
    let r = legal_rule(&target, &rule, &substitution);
    assert_eq!(r.unwrap_err(), DeductionError::SideConditionViolated);
}

#[test]
fn normalizer_element_alphabet_is_bounded() {
    let mut normalizer = Normalizer::new();
    for _ in 0..17 {
        assert!(normalizer.next_element().is_ok());
    }
    let r = normalizer.next_element();
    assert_eq!(r.unwrap_err(), DeductionError::TooManyNames);
}
