use deduction::errors::DeductionError;
use deduction::formula::{Formula, Identifier};
use deduction::mapping::FormulaMap;
use deduction::rule::{DerivationRule, RuleFormula, RuleIdentifier, RuleStatement, Rules};
use deduction::statement::Statement;
use deduction::tree::{
    check_tree, infer_mapping_between_formula, infer_mapping_node, infer_mapping_stmt, Node,
};

fn lit(name: &str) -> Formula {
    Formula::Ident(Identifier::Literal(name.to_string()))
}

fn pred(name: &str, args: &[&str]) -> Formula {
    Formula::Predicate {
        identifier: Identifier::Element(name.to_string()),
        identifiers: args.iter().map(|a| Identifier::Element(a.to_string())).collect(),
    }
}

fn forall_f(binder: &str, body: Formula) -> Formula {
    Formula::Forall {
        identifier: Identifier::Element(binder.to_string()),
        formula: Box::new(body),
    }
}

fn imp(lhs: Formula, rhs: Formula) -> Formula {
    Formula::Imp { lhs: Box::new(lhs), rhs: Box::new(rhs) }
}

fn stmt(lhs: Vec<Formula>, formula: Formula) -> Statement {
    Statement { lhs, formula, sidecondition: Vec::new() }
}

fn fid(n: u32) -> RuleIdentifier {
    RuleIdentifier::Formula(n)
}

fn eid(name: &str) -> RuleIdentifier {
    RuleIdentifier::Element(name.to_string())
}

#[test]
fn infer_binds_placeholders_from_connectives() {
    // Matching Imp(P, Q) against the schema Imp(0, 1) binds 0 -> P, 1 -> Q.
    let rule = Rules::ImplIntro.get_rule();
    let mut fm = FormulaMap::new();
    let mut em = FormulaMap::new();
    let s = stmt(Vec::new(), imp(lit("P"), lit("Q")));
    infer_mapping_stmt(&s, &rule.conclusion, &mut fm, &mut em).unwrap();
    assert!(fm.get(&fid(0)).unwrap().eq_formula(&lit("P")));
    assert!(fm.get(&fid(1)).unwrap().eq_formula(&lit("Q")));
}

#[test]
fn infer_rejects_conflicting_rebinding() {
    // AndIntro's conclusion And(0, 1) against And(P, Q), after 0 was already
    // bound to R, is a binding conflict.
    let rule = Rules::AndIntro.get_rule();
    let mut fm = FormulaMap::new();
    fm.set(fid(0), lit("R"));
    let mut em = FormulaMap::new();
    let s = stmt(Vec::new(), Formula::And { lhs: Box::new(lit("P")), rhs: Box::new(lit("Q")) });
    let r = infer_mapping_stmt(&s, &rule.conclusion, &mut fm, &mut em);
    assert_eq!(r.unwrap_err(), DeductionError::BindingConflict);
}

#[test]
fn infer_between_recovers_renamed_binder() {
    // forall x. p(x) against forall y. p(y) records x -> x and y -> y as the
    // substitution pair of the schema.
    let from_formula = forall_f("x", pred("p", &["x"]));
    let to_formula = forall_f("y", pred("p", &["y"]));
    let mut em = FormulaMap::new();
    infer_mapping_between_formula(&from_formula, &to_formula, &eid("x"), &eid("y"), &mut em)
        .unwrap();
    assert!(em.get(&eid("x")).unwrap().eq_formula(&Formula::Ident(Identifier::Element(
        "x".to_string()
    ))));
    assert!(em.get(&eid("y")).unwrap().eq_formula(&Formula::Ident(Identifier::Element(
        "y".to_string()
    ))));
}

#[test]
fn inference_covers_impl_intro_instantiation() {
    // Mapping round trip on a concrete ImplIntro instance: inference from the
    // conclusion and the premise recovers both placeholders.
    let rule = Rules::ImplIntro.get_rule();
    let conclusion = stmt(Vec::new(), imp(lit("P"), lit("Q")));
    let premise = stmt(vec![lit("P")], lit("Q"));
    let (fm, _em) = infer_mapping_node(&conclusion, &vec![premise], &rule).unwrap();
    assert!(fm.get(&fid(0)).unwrap().eq_formula(&lit("P")));
    assert!(fm.get(&fid(1)).unwrap().eq_formula(&lit("Q")));
}

#[test]
fn bounded_inference_reports_failure_instead_of_looping() {
    // A synthetic rule whose premise placeholder can never be bound: no round
    // of propagation reaches full coverage, so the bounded fixpoint reports an
    // inference failure after its five rounds.
    let rule = DerivationRule {
        name: Rules::Ax,
        premises: vec![RuleStatement { lhs: None, formula: RuleFormula::Ident(fid(1)) }],
        conclusion: RuleStatement { lhs: None, formula: RuleFormula::Ident(fid(0)) },
    };
    let conclusion = stmt(Vec::new(), lit("P"));
    let r = infer_mapping_node(&conclusion, &Vec::new(), &rule);
    assert_eq!(r.unwrap_err(), DeductionError::InferenceFailure);
}

#[test]
fn check_tree_accepts_axiom_leaf() {
    let nodes = vec![Node {
        name: 1,
        statement: stmt(vec![lit("P")], lit("P")),
        rule: Rules::Ax,
        premisses: Vec::new(),
    }];
    assert!(check_tree(1, &nodes).is_ok());
}

#[test]
fn check_tree_accepts_impl_intro_over_axiom() {
    // |- P -> P by ImplIntro, with the premise P |- P by Ax.
    let nodes = vec![
        Node {
            name: 1,
            statement: stmt(Vec::new(), imp(lit("P"), lit("P"))),
            rule: Rules::ImplIntro,
            premisses: vec![2],
        },
        Node {
            name: 2,
            statement: stmt(vec![lit("P")], lit("P")),
            rule: Rules::Ax,
            premisses: Vec::new(),
        },
    ];
    assert!(check_tree(1, &nodes).is_ok());
}

#[test]
fn check_tree_rejects_wrong_axiom() {
    let nodes = vec![Node {
        name: 1,
        statement: stmt(vec![lit("P")], lit("Q")),
        rule: Rules::Ax,
        premisses: Vec::new(),
    }];
    assert!(check_tree(1, &nodes).is_err());
}

#[test]
fn check_tree_rejects_dangling_root() {
    // A root id absent from the node set is a missing premise, not a crash.
    let nodes = vec![Node {
        name: 1,
        statement: stmt(vec![lit("P")], lit("P")),
        rule: Rules::Ax,
        premisses: Vec::new(),
    }];
    let r = check_tree(7, &nodes);
    assert_eq!(r.unwrap_err(), DeductionError::MissingPremise);
}

#[test]
fn check_tree_rejects_dangling_premise_reference() {
    let nodes = vec![Node {
        name: 1,
        statement: stmt(Vec::new(), imp(lit("P"), lit("P"))),
        rule: Rules::ImplIntro,
        premisses: vec![2],
    }];
    let r = check_tree(1, &nodes);
    assert_eq!(r.unwrap_err(), DeductionError::MissingPremise);
}

#[test]
fn check_tree_rejects_cycles() {
    // A node that names itself as its premise must not loop forever: the
    // revisit is reported as a cycle.
    let nodes = vec![Node {
        name: 1,
        statement: stmt(vec![lit("P")], lit("P")),
        rule: Rules::Ax,
        premisses: vec![1],
    }];
    let r = check_tree(1, &nodes);
    assert_eq!(r.unwrap_err(), DeductionError::CyclicTree);
}

#[test]
fn round_trip_and_intro_instantiation() {
    // Instantiate AndIntro concretely, infer the bindings back, and resolve
    // the schemas again: the original judgment and premises reappear.
    let rule = Rules::AndIntro.get_rule();
    let conclusion_formula =
        Formula::And { lhs: Box::new(lit("P")), rhs: Box::new(lit("Q")) };
    let conclusion = stmt(vec![lit("R")], conclusion_formula.duplicate());
    let premises = vec![stmt(vec![lit("R")], lit("P")), stmt(vec![lit("R")], lit("Q"))];
    let (fm, em) = infer_mapping_node(&conclusion, &premises, &rule).unwrap();
    let substitution = em.to_substitution().unwrap();
    let resolved = deduction::mapping::apply_mapping(
        &rule.conclusion.formula,
        &fm,
        &substitution,
    )
    .unwrap();
    assert!(resolved.eq_formula(&conclusion_formula));
    for (premise, schema) in premises.iter().zip(rule.premises.iter()) {
        let resolved =
            deduction::mapping::apply_mapping(&schema.formula, &fm, &substitution).unwrap();
        assert!(resolved.eq_formula(&premise.formula));
    }
}

#[test]
fn round_trip_or_elim_instantiation() {
    let rule = Rules::OrElim.get_rule();
    let disjunction = Formula::Or { lhs: Box::new(lit("P")), rhs: Box::new(lit("Q")) };
    let conclusion = stmt(Vec::new(), lit("R"));
    let premises = vec![
        stmt(Vec::new(), disjunction.duplicate()),
        stmt(vec![lit("P")], lit("R")),
        stmt(vec![lit("Q")], lit("R")),
    ];
    let (fm, em) = infer_mapping_node(&conclusion, &premises, &rule).unwrap();
    let substitution = em.to_substitution().unwrap();
    for (premise, schema) in premises.iter().zip(rule.premises.iter()) {
        let resolved =
            deduction::mapping::apply_mapping(&schema.formula, &fm, &substitution).unwrap();
        assert!(resolved.eq_formula(&premise.formula));
    }
}

#[test]
fn check_tree_accepts_alpha_renamed_forall() {
    // forall x. p(x) by renaming from forall y. p(y), whose node is an axiom.
    let renamed = forall_f("y", pred("p", &["y"]));
    let nodes = vec![
        Node {
            name: 1,
            statement: stmt(Vec::new(), forall_f("x", pred("p", &["x"]))),
            rule: Rules::AlphaForall,
            premisses: vec![2],
        },
        Node {
            name: 2,
            statement: stmt(vec![renamed.duplicate()], renamed),
            rule: Rules::Ax,
            premisses: Vec::new(),
        },
    ];
    assert!(check_tree(1, &nodes).is_ok());
}
