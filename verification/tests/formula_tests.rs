use deduction::errors::DeductionError;
use deduction::formula::{
    apply_substitution, get_free_vars, get_sub_formulas, Formula, Identifier, SideCondition,
};
use deduction::varset::VarSet;

fn lit(name: &str) -> Formula {
    Formula::Ident(Identifier::Literal(name.to_string()))
}

fn var(name: &str) -> Formula {
    Formula::Ident(Identifier::Element(name.to_string()))
}

fn pred(name: &str, args: &[&str]) -> Formula {
    Formula::Predicate {
        identifier: Identifier::Element(name.to_string()),
        identifiers: args.iter().map(|a| Identifier::Element(a.to_string())).collect(),
    }
}

fn forall_f(binder: &str, body: Formula) -> Formula {
    Formula::Forall {
        identifier: Identifier::Element(binder.to_string()),
        formula: Box::new(body),
    }
}

fn exists_f(binder: &str, body: Formula) -> Formula {
    Formula::Exists {
        identifier: Identifier::Element(binder.to_string()),
        formula: Box::new(body),
    }
}

fn and(lhs: Formula, rhs: Formula) -> Formula {
    Formula::And { lhs: Box::new(lhs), rhs: Box::new(rhs) }
}

fn imp(lhs: Formula, rhs: Formula) -> Formula {
    Formula::Imp { lhs: Box::new(lhs), rhs: Box::new(rhs) }
}

#[test]
fn free_vars_of_open_predicate() {
    let f = pred("p", &["x", "y"]);
    let free = f.free_vars(&VarSet::new()).unwrap();
    assert!(free.contains(&"x".to_string()));
    assert!(free.contains(&"y".to_string()));
    assert!(!free.contains(&"p".to_string()));
}

#[test]
fn free_vars_respect_binders() {
    // free_vars(forall x. p(x, y)) == free_vars(p(x, y)) \ {x}
    let body = pred("p", &["x", "y"]);
    let quantified = forall_f("x", body.duplicate());
    let free_body = body.free_vars(&VarSet::new()).unwrap();
    let free_quantified = quantified.free_vars(&VarSet::new()).unwrap();
    assert!(free_body.contains(&"x".to_string()));
    assert!(free_body.contains(&"y".to_string()));
    assert!(!free_quantified.contains(&"x".to_string()));
    assert!(free_quantified.contains(&"y".to_string()));
}

#[test]
fn free_vars_ignore_literals() {
    let f = and(lit("P"), var("x"));
    let free = f.free_vars(&VarSet::new()).unwrap();
    assert!(!free.contains(&"P".to_string()));
    assert!(free.contains(&"x".to_string()));
}

#[test]
fn free_vars_reject_literal_binder() {
    let f = Formula::Forall {
        identifier: Identifier::Literal("P".to_string()),
        formula: Box::new(lit("P")),
    };
    let r = f.free_vars(&VarSet::new());
    assert_eq!(r.unwrap_err(), DeductionError::MalformedFormula);
}

#[test]
fn substitution_renames_free_occurrences() {
    // (p(x) and x)[x -> c] == (p(c) and c)
    let f = and(pred("p", &["x"]), var("x"));
    let g = f
        .apply_substitution(&"x".to_string(), &"c".to_string(), &VarSet::new())
        .unwrap();
    let expected = and(pred("p", &["c"]), var("c"));
    assert!(g.eq_formula(&expected));
}

#[test]
fn substitution_leaves_binders_untouched() {
    // (forall x. p(x))[x -> c]: the binder name stays, the occurrence moves.
    let f = forall_f("x", pred("p", &["x"]));
    let g = f
        .apply_substitution(&"x".to_string(), &"c".to_string(), &VarSet::new())
        .unwrap();
    let expected = forall_f("x", pred("p", &["c"]));
    assert!(g.eq_formula(&expected));
}

#[test]
fn substitution_into_quantifier_over_target_is_capture() {
    // (forall y. p(x))[x -> y] would capture y.
    let f = forall_f("y", pred("p", &["x"]));
    let r = f.apply_substitution(&"x".to_string(), &"y".to_string(), &VarSet::new());
    assert_eq!(r.unwrap_err(), DeductionError::CaptureError);
}

#[test]
fn substitution_under_exists_is_capture_too() {
    let f = exists_f("y", and(pred("p", &["x"]), lit("Q")));
    let r = f.apply_substitution(&"x".to_string(), &"y".to_string(), &VarSet::new());
    assert_eq!(r.unwrap_err(), DeductionError::CaptureError);
}

#[test]
fn substitution_into_unrelated_scope_succeeds() {
    // (forall z. p(x))[x -> y]: no quantifier over y, so the renaming is fine.
    let f = forall_f("z", pred("p", &["x"]));
    let g = f
        .apply_substitution(&"x".to_string(), &"y".to_string(), &VarSet::new())
        .unwrap();
    let expected = forall_f("z", pred("p", &["y"]));
    assert!(g.eq_formula(&expected));
}

#[test]
fn free_function_substitution_agrees() {
    let f = pred("p", &["x"]);
    let g = apply_substitution(f, &"x".to_string(), &"y".to_string(), &VarSet::new()).unwrap();
    assert!(g.eq_formula(&pred("p", &["y"])));
}

#[test]
fn free_function_free_vars_agrees() {
    let f = pred("p", &["x"]);
    let free = get_free_vars(&f, &VarSet::new()).unwrap();
    assert!(free.contains(&"x".to_string()));
}

#[test]
fn can_contain_any_free_variable_on_atoms() {
    assert!(lit("P").can_contain_any_free_variable().unwrap());
    assert!(var("x").can_contain_any_free_variable().unwrap());
    assert!(!pred("p", &["x"]).can_contain_any_free_variable().unwrap());
    assert!(!Formula::True.can_contain_any_free_variable().unwrap());
}

#[test]
fn captures_from_side_conditions() {
    // A side condition says x is not free in the opaque atom P.
    let side = vec![SideCondition::NotFree {
        placeholder: Identifier::Literal("P".to_string()),
        element: Identifier::Element("x".to_string()),
    }];
    let captured = lit("P").captures(&side).unwrap();
    assert!(captured.contains(&"x".to_string()));
    assert!(!captured.contains(&"y".to_string()));
}

#[test]
fn captures_from_quantifiers() {
    let f = forall_f("x", lit("P"));
    let captured = f.captures(&Vec::new()).unwrap();
    assert!(captured.contains(&"x".to_string()));
}

#[test]
fn sub_formulas_of_conjunction() {
    let f = and(lit("P"), imp(lit("Q"), lit("R")));
    let subs = get_sub_formulas(&f);
    assert!(subs.contains(&lit("P")));
    assert!(subs.contains(&imp(lit("Q"), lit("R"))));
    assert!(subs.contains(&lit("Q")));
    assert!(subs.contains(&lit("R")));
    assert!(!subs.contains(&f));
}
