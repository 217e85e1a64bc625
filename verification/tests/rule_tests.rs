use deduction::catalogue::all_rules;
use deduction::errors::DeductionError;
use deduction::formula::{Formula, Identifier};
use deduction::mapping::{apply_mapping, get_formula, ElementMap, FormulaMap};
use deduction::rule::{RuleFormula, RuleIdentifier, Rules};

fn lit(name: &str) -> Formula {
    Formula::Ident(Identifier::Literal(name.to_string()))
}

fn pred(name: &str, args: &[&str]) -> Formula {
    Formula::Predicate {
        identifier: Identifier::Element(name.to_string()),
        identifiers: args.iter().map(|a| Identifier::Element(a.to_string())).collect(),
    }
}

fn fid(n: u32) -> RuleIdentifier {
    RuleIdentifier::Formula(n)
}

fn eid(name: &str) -> RuleIdentifier {
    RuleIdentifier::Element(name.to_string())
}

#[test]
fn catalogue_has_eighteen_rules() {
    let rules = all_rules();
    assert_eq!(rules.len(), 18);
    assert_eq!(rules[0].name, Rules::Ax);
    assert_eq!(rules[1].name, Rules::ImplIntro);
    assert_eq!(rules[17].name, Rules::AlphaExists);
}

#[test]
fn get_rule_returns_the_named_rule() {
    let rule = Rules::OrElim.get_rule();
    assert_eq!(rule.name, Rules::OrElim);
    assert_eq!(rule.premises.len(), 3);
    let rule = Rules::Ax.get_rule();
    assert_eq!(rule.premises.len(), 0);
}

#[test]
fn rule_identifiers_are_collected() {
    let rule = Rules::ImplIntro.get_rule();
    let ids = rule.identifiers();
    assert!(ids.contains(&fid(0)));
    assert!(ids.contains(&fid(1)));
    assert!(!ids.contains(&fid(2)));
    let rule = Rules::ForallElim.get_rule();
    let ids = rule.identifiers();
    assert!(ids.contains(&fid(0)));
    assert!(ids.contains(&eid("x")));
    assert!(ids.contains(&eid("t")));
}

#[test]
fn apply_mapping_resolves_connectives() {
    let mut fm = FormulaMap::new();
    fm.set(fid(0), lit("P"));
    fm.set(fid(1), lit("Q"));
    let em = ElementMap::new();
    let schema = RuleFormula::Imp { lhs: fid(0), rhs: fid(1) };
    let f = apply_mapping(&schema, &fm, &em).unwrap();
    let expected = Formula::Imp { lhs: Box::new(lit("P")), rhs: Box::new(lit("Q")) };
    assert!(f.eq_formula(&expected));
}

#[test]
fn apply_mapping_reports_missing_placeholder() {
    let fm = FormulaMap::new();
    let em = ElementMap::new();
    let schema = RuleFormula::Ident(fid(0));
    let r = apply_mapping(&schema, &fm, &em);
    assert_eq!(r.unwrap_err(), DeductionError::UnresolvedPlaceholder);
}

#[test]
fn apply_mapping_resolves_quantifier_variable() {
    let mut fm = FormulaMap::new();
    fm.set(fid(0), pred("p", &["x"]));
    let mut em = ElementMap::new();
    em.set(eid("x"), "x".to_string());
    let schema = RuleFormula::Forall {
        identifier: eid("x"),
        formula: Box::new(RuleFormula::Ident(fid(0))),
    };
    let f = apply_mapping(&schema, &fm, &em).unwrap();
    let expected = Formula::Forall {
        identifier: Identifier::Element("x".to_string()),
        formula: Box::new(pred("p", &["x"])),
    };
    assert!(f.eq_formula(&expected));
}

#[test]
fn apply_mapping_substitution_schema_substitutes() {
    // A[x := t] with A = p(x), x -> x, t -> c gives p(c).
    let mut fm = FormulaMap::new();
    fm.set(fid(0), pred("p", &["x"]));
    let mut em = ElementMap::new();
    em.set(eid("x"), "x".to_string());
    em.set(eid("t"), "c".to_string());
    let schema = RuleFormula::Substitution { identifier: fid(0), lhs: eid("x"), rhs: eid("t") };
    let f = apply_mapping(&schema, &fm, &em).unwrap();
    assert!(f.eq_formula(&pred("p", &["c"])));
}

#[test]
fn get_formula_looks_up_bindings() {
    let mut fm = FormulaMap::new();
    fm.set(fid(3), lit("P"));
    let f = get_formula(&fid(3), &fm).unwrap();
    assert!(f.eq_formula(&lit("P")));
    let r = get_formula(&fid(4), &fm);
    assert_eq!(r.unwrap_err(), DeductionError::UnresolvedPlaceholder);
}

#[test]
fn formula_map_last_binding_wins() {
    let mut fm = FormulaMap::new();
    fm.set(fid(0), lit("P"));
    fm.set(fid(0), lit("Q"));
    let f = get_formula(&fid(0), &fm).unwrap();
    assert!(f.eq_formula(&lit("Q")));
}
