//! Judgments (`Statement`), the per-rule legality checker, rule application,
//! and the implication forms handed to an external validity oracle.

use vstd::prelude::*;

use crate::errors::DeductionError;
use crate::formula::{
    binders_are_elements, captures_of, free_vars_of, may_contain_any_free, subst_formula, subst_ok,
    wf_formula, Formula, FormulaView, Identifier, IdentView, SideCondition, SideConditionView,
};
use crate::mapping::{
    apply_mapping_ok, apply_mapping_val, get_formula, ElementMap, FormulaMap,
};
use crate::rule::{
    DerivationRule, DerivationRuleView, RuleFormula, RuleFormulaView, RuleIdView, RuleIdentifier,
    Rules,
};
use crate::varset::VarSet;

verus! {

/// A judgment: assumptions, an asserted formula, and declared side conditions
/// for opaque placeholder atoms.
#[derive(Debug)]
pub struct Statement {
    pub lhs: Vec<Formula>,
    pub formula: Formula,
    pub sidecondition: Vec<SideCondition>,
}

/// Ghost mirror of `Statement`.
#[verifier::ext_equal]
pub struct StatementView {
    pub lhs: Seq<FormulaView>,
    pub formula: FormulaView,
    pub sidecondition: Seq<SideConditionView>,
}

impl View for Statement {
    type V = StatementView;

    open spec fn view(&self) -> StatementView {
        StatementView {
            lhs: self.lhs@.map_values(|f: Formula| f@),
            formula: self.formula@,
            sidecondition: self.sidecondition@.map_values(|sc: SideCondition| sc@),
        }
    }
}

/// A copy of a list of formulas.
pub fn duplicate_formulas(fs: &Vec<Formula>) -> (r: Vec<Formula>)
    ensures
        r@.map_values(|f: Formula| f@) == fs@.map_values(|f: Formula| f@),
{
    let mut r: Vec<Formula> = Vec::new();
    let mut i: usize = 0;
    while i < fs.len()
        invariant
            i <= fs.len(),
            r@.len() == i,
            forall|j: int| 0 <= j < i ==> r@[j]@ == fs@[j]@,
        decreases fs.len() - i,
    {
        r.push(fs[i].duplicate());
        i += 1;
    }
    proof {
        assert(r@.map_values(|f: Formula| f@) =~= fs@.map_values(|f: Formula| f@));
    }
    r
}

/// A copy of a list of side conditions.
pub fn duplicate_side_conditions(scs: &Vec<SideCondition>) -> (r: Vec<SideCondition>)
    ensures
        r@.map_values(|sc: SideCondition| sc@) == scs@.map_values(|sc: SideCondition| sc@),
{
    let mut r: Vec<SideCondition> = Vec::new();
    let mut i: usize = 0;
    while i < scs.len()
        invariant
            i <= scs.len(),
            r@.len() == i,
            forall|j: int| 0 <= j < i ==> r@[j]@ == scs@[j]@,
        decreases scs.len() - i,
    {
        match &scs[i] {
            SideCondition::NotFree { placeholder, element } => {
                r.push(SideCondition::NotFree {
                    placeholder: placeholder.duplicate(),
                    element: element.duplicate(),
                });
            },
        }
        i += 1;
    }
    proof {
        assert(r@.map_values(|sc: SideCondition| sc@) =~= scs@.map_values(
            |sc: SideCondition| sc@,
        ));
    }
    r
}

impl Statement {
    /// A structural copy.
    pub fn duplicate(&self) -> (r: Statement)
        ensures
            r@ == self@,
    {
        let r = Statement {
            lhs: duplicate_formulas(&self.lhs),
            formula: self.formula.duplicate(),
            sidecondition: duplicate_side_conditions(&self.sidecondition),
        };
        proof {
            assert(r@ =~= self@);
        }
        r
    }
}

/// Whether a list of formulas contains `f`, structurally.
pub fn contains_formula(fs: &Vec<Formula>, f: &Formula) -> (r: bool)
    ensures
        r == fs@.map_values(|g: Formula| g@).contains(f@),
{
    let ghost views = fs@.map_values(|g: Formula| g@);
    let mut i: usize = 0;
    while i < fs.len()
        invariant
            i <= fs.len(),
            views == fs@.map_values(|g: Formula| g@),
            forall|j: int| 0 <= j < i ==> views[j] != f@,
        decreases fs.len() - i,
    {
        proof {
            assert(views[i as int] == fs@[i as int]@);
        }
        if fs[i].eq_formula(f) {
            proof {
                assert(views.contains(f@));
            }
            return true;
        }
        i += 1;
    }
    proof {
        if views.contains(f@) {
            let j = choose|j: int| 0 <= j < views.len() && views[j] == f@;
            assert(false);
        }
    }
    false
}

// ---------------------------------------------------------------------------
// The not-free side condition
// ---------------------------------------------------------------------------

/// The variable `var` cannot occur free in any formula of `fs`: it is not
/// among the computed free variables, and for every formula with an opaque
/// atom the combined capture analysis pins `var` down as not free.
pub open spec fn not_free_ok(
    fs: Seq<FormulaView>,
    var: Seq<char>,
    scs: Seq<SideConditionView>,
) -> bool {
    &&& forall|i: int|
        0 <= i < fs.len() ==> !free_vars_of(#[trigger] fs[i], Set::empty()).contains(var)
    &&& forall|i: int|
        0 <= i < fs.len() ==> (may_contain_any_free(#[trigger] fs[i]) ==> captures_of(
            fs[i],
            scs,
        ).contains(var))
}

/// Every formula of the list has well-formed quantifier binders.
pub open spec fn all_binders_ok(fs: Seq<FormulaView>) -> bool {
    forall|i: int| 0 <= i < fs.len() ==> binders_are_elements(#[trigger] fs[i])
}

/// Checks that `var` cannot occur free in any formula of `formulas`, using
/// the declared side conditions for formulas whose content is opaque.
#[verifier::loop_isolation(false)]
pub fn check_not_free_condition(
    formulas: &Vec<Formula>,
    var: &String,
    side_con: &Vec<SideCondition>,
) -> (r: Result<(), DeductionError>)
    ensures
        ({
            let fs = formulas@.map_values(|f: Formula| f@);
            let scs = side_con@.map_values(|sc: SideCondition| sc@);
            &&& (r is Ok <==> all_binders_ok(fs) && not_free_ok(fs, var@, scs))
            &&& (r matches Err(e) ==> (e == DeductionError::MalformedFormula || e
                == DeductionError::SideConditionViolated))
            &&& (r matches Err(e) ==> (all_binders_ok(fs) ==> e
                == DeductionError::SideConditionViolated))
        }),
{
    let ghost fs = formulas@.map_values(|f: Formula| f@);
    let ghost scs = side_con@.map_values(|sc: SideCondition| sc@);
    let empty = VarSet::new();
    let mut i: usize = 0;
    while i < formulas.len()
        invariant
            i <= formulas.len(),
            forall|j: int|
                0 <= j < i ==> binders_are_elements(#[trigger] fs[j]) && !free_vars_of(
                    fs[j],
                    Set::empty(),
                ).contains(var@),
        decreases formulas.len() - i,
    {
        proof {
            assert(fs[i as int] == formulas@[i as int]@);
        }
        let free = formulas[i].free_vars(&empty)?;
        if free.contains(var) {
            return Err(DeductionError::SideConditionViolated);
        }
        i += 1;
    }
    let mut i: usize = 0;
    while i < formulas.len()
        invariant
            i <= formulas.len(),
            all_binders_ok(fs),
            forall|j: int|
                0 <= j < i ==> (may_contain_any_free(#[trigger] fs[j]) ==> captures_of(
                    fs[j],
                    scs,
                ).contains(var@)),
        decreases formulas.len() - i,
    {
        proof {
            assert(fs[i as int] == formulas@[i as int]@);
        }
        let everything_free = formulas[i].can_contain_any_free_variable()?;
        if everything_free {
            let captured = formulas[i].captures(side_con)?;
            if !captured.contains(var) {
                return Err(DeductionError::SideConditionViolated);
            }
        }
        i += 1;
    }
    Ok(())
}

// ---------------------------------------------------------------------------
// Legality
// ---------------------------------------------------------------------------

/// Constructor compatibility between a concrete formula and a conclusion
/// schema: a placeholder or a substitution schema matches anything, the other
/// constructors must agree.
pub open spec fn shape_matches(f: FormulaView, rf: RuleFormulaView) -> bool {
    match rf {
        RuleFormulaView::Ident(_) => true,
        RuleFormulaView::Substitution { .. } => true,
        RuleFormulaView::And { .. } => f is And,
        RuleFormulaView::Or { .. } => f is Or,
        RuleFormulaView::Not(_) => f is Not,
        RuleFormulaView::Imp { .. } => f is Imp,
        RuleFormulaView::True => f is True,
        RuleFormulaView::False => f is False,
        RuleFormulaView::Forall { .. } => f is Forall,
        RuleFormulaView::Exists { .. } => f is Exists,
    }
}

/// Whether the rule may legally be applied to the judgment `stmt` under the
/// name bindings `em`: the shapes are compatible and the rule's side
/// conditions hold.
pub open spec fn can_apply_ok(
    stmt: StatementView,
    rule: DerivationRuleView,
    em: Map<RuleIdView, Seq<char>>,
) -> bool {
    &&& shape_matches(stmt.formula, rule.conclusion.formula)
    &&& match rule.name {
        Rules::Ax => stmt.lhs.contains(stmt.formula),
        Rules::ForallIntro => match stmt.formula {
            FormulaView::Forall { identifier: IdentView::Element(x), .. } => all_binders_ok(
                stmt.lhs,
            ) && not_free_ok(stmt.lhs, x, stmt.sidecondition),
            _ => true,
        },
        Rules::ExistsElim => {
            if rule.premises.len() > 0 {
                match rule.premises[0].formula {
                    RuleFormulaView::Exists { identifier, .. } => {
                        &&& em.contains_key(identifier)
                        &&& all_binders_ok(stmt.lhs.push(stmt.formula))
                        &&& not_free_ok(
                            stmt.lhs.push(stmt.formula),
                            em[identifier],
                            stmt.sidecondition,
                        )
                    },
                    _ => true,
                }
            } else {
                true
            }
        },
        Rules::AlphaExists => {
            if rule.premises.len() > 0 {
                match rule.premises[0].formula {
                    RuleFormulaView::Exists { formula: body, .. } => match *body {
                        RuleFormulaView::Substitution { lhs: from, rhs: to, .. } => {
                            &&& binders_are_elements(stmt.formula)
                            &&& em.contains_key(from)
                            &&& em.contains_key(to)
                            &&& !free_vars_of(stmt.formula, Set::empty()).contains(em[to])
                        },
                        _ => true,
                    },
                    _ => true,
                }
            } else {
                true
            }
        },
        Rules::AlphaForall => {
            if rule.premises.len() > 0 {
                match rule.premises[0].formula {
                    RuleFormulaView::Forall { formula: body, .. } => match *body {
                        RuleFormulaView::Substitution { lhs: from, rhs: to, .. } => {
                            &&& binders_are_elements(stmt.formula)
                            &&& em.contains_key(from)
                            &&& em.contains_key(to)
                            &&& !free_vars_of(stmt.formula, Set::empty()).contains(em[to])
                        },
                        _ => true,
                    },
                    _ => true,
                }
            } else {
                true
            }
        },
        _ => true,
    }
}

/// Whether the target formula's constructor is compatible with the rule's
/// conclusion schema.
pub fn can_apply_rule(formula: &Formula, rule: &DerivationRule) -> (r: bool)
    ensures
        r == shape_matches(formula@, rule@.conclusion.formula),
{
    match (formula, &rule.conclusion.formula) {
        (_, RuleFormula::Ident(_)) => true,
        (_, RuleFormula::Substitution { .. }) => true,
        (Formula::And { .. }, RuleFormula::And { .. }) => true,
        (Formula::Or { .. }, RuleFormula::Or { .. }) => true,
        (Formula::Not(_), RuleFormula::Not(_)) => true,
        (Formula::Imp { .. }, RuleFormula::Imp { .. }) => true,
        (Formula::True, RuleFormula::True) => true,
        (Formula::False, RuleFormula::False) => true,
        (Formula::Forall { .. }, RuleFormula::Forall { .. }) => true,
        (Formula::Exists { .. }, RuleFormula::Exists { .. }) => true,
        _ => false,
    }
}

impl Statement {
    /// Whether `rule` may legally transform this judgment: the target's shape
    /// matches the rule's conclusion schema and the rule's side conditions
    /// hold under the name bindings `substitution`.
    pub fn can_apply(&self, rule: &DerivationRule, substitution: &ElementMap) -> (r: Result<
        (),
        DeductionError,
    >)
        ensures
            r is Ok <==> can_apply_ok(self@, rule@, substitution@),
            r matches Err(e) ==> (e == DeductionError::RuleNotApplicable || e
                == DeductionError::SideConditionViolated || e == DeductionError::MalformedFormula
                || e == DeductionError::UnresolvedPlaceholder),
            !shape_matches(self@.formula, rule@.conclusion.formula) ==> r == Err::<
                (),
                DeductionError,
            >(DeductionError::RuleNotApplicable),
    {
        if !can_apply_rule(&self.formula, rule) {
            return Err(DeductionError::RuleNotApplicable);
        }

        match rule.name {
            Rules::Ax => {
                if !contains_formula(&self.lhs, &self.formula) {
                    return Err(DeductionError::SideConditionViolated);
                }
                Ok(())
            },
            Rules::ForallIntro => {
                match &self.formula {
                    Formula::Forall { identifier: Identifier::Element(i), .. } => {
                        check_not_free_condition(&self.lhs, i, &self.sidecondition)
                    },
                    _ => Ok(()),
                }
            },
            Rules::ExistsElim => {
                if rule.premises.len() > 0 {
                    proof {
                        reveal_with_fuel(RuleFormula::deep, 3);
                        assert(rule@.premises[0] == rule.premises@[0]@);
                    }
                    match &rule.premises[0].formula {
                        RuleFormula::Exists { identifier, .. } => {
                            let chosen = match substitution.get(identifier) {
                                Some(c) => c,
                                None => {
                                    return Err(DeductionError::UnresolvedPlaceholder);
                                },
                            };
                            let mut formulas = duplicate_formulas(&self.lhs);
                            formulas.push(self.formula.duplicate());
                            proof {
                                assert(formulas@.map_values(|f: Formula| f@) =~= self@.lhs.push(
                                    self@.formula,
                                ));
                            }
                            check_not_free_condition(&formulas, chosen, &self.sidecondition)
                        },
                        _ => Ok(()),
                    }
                } else {
                    Ok(())
                }
            },
            Rules::AlphaExists => {
                if rule.premises.len() > 0 {
                    proof {
                        reveal_with_fuel(RuleFormula::deep, 3);
                        assert(rule@.premises[0] == rule.premises@[0]@);
                    }
                    match &rule.premises[0].formula {
                        RuleFormula::Exists { formula: body, .. } => {
                            match &**body {
                                RuleFormula::Substitution { lhs: from, rhs: to, .. } => {
                                    let empty = VarSet::new();
                                    let free_vars = self.formula.free_vars(&empty)?;
                                    if substitution.get(from).is_none() {
                                        return Err(DeductionError::UnresolvedPlaceholder);
                                    }
                                    let to_name = match substitution.get(to) {
                                        Some(t) => t,
                                        None => {
                                            return Err(DeductionError::UnresolvedPlaceholder);
                                        },
                                    };
                                    if free_vars.contains(to_name) {
                                        return Err(DeductionError::SideConditionViolated);
                                    }
                                    Ok(())
                                },
                                _ => Ok(()),
                            }
                        },
                        _ => Ok(()),
                    }
                } else {
                    Ok(())
                }
            },
            Rules::AlphaForall => {
                if rule.premises.len() > 0 {
                    proof {
                        reveal_with_fuel(RuleFormula::deep, 3);
                        assert(rule@.premises[0] == rule.premises@[0]@);
                    }
                    match &rule.premises[0].formula {
                        RuleFormula::Forall { formula: body, .. } => {
                            match &**body {
                                RuleFormula::Substitution { lhs: from, rhs: to, .. } => {
                                    let empty = VarSet::new();
                                    let free_vars = self.formula.free_vars(&empty)?;
                                    if substitution.get(from).is_none() {
                                        return Err(DeductionError::UnresolvedPlaceholder);
                                    }
                                    let to_name = match substitution.get(to) {
                                        Some(t) => t,
                                        None => {
                                            return Err(DeductionError::UnresolvedPlaceholder);
                                        },
                                    };
                                    if free_vars.contains(to_name) {
                                        return Err(DeductionError::SideConditionViolated);
                                    }
                                    Ok(())
                                },
                                _ => Ok(()),
                            }
                        },
                        _ => Ok(()),
                    }
                } else {
                    Ok(())
                }
            },
            _ => Ok(()),
        }
    }
}

// ---------------------------------------------------------------------------
// Rule application
// ---------------------------------------------------------------------------

/// The formula table after handling a `Substitution` conclusion schema: the
/// concrete target shows the substituted form, so the pre-image is recovered
/// by substituting backwards (the two names swapped) and re-bound. Any other
/// conclusion leaves the table unchanged. `None` when a needed binding is
/// missing or the backward substitution is refused.
pub open spec fn conclusion_subst_map(
    rule: DerivationRuleView,
    fm: Map<RuleIdView, FormulaView>,
    em: Map<RuleIdView, Seq<char>>,
) -> Option<Map<RuleIdView, FormulaView>> {
    match rule.conclusion.formula {
        RuleFormulaView::Substitution { identifier, lhs: from, rhs: to } => {
            if fm.contains_key(identifier) && em.contains_key(from) && em.contains_key(to)
                && wf_formula(fm[identifier]) && subst_ok(
                fm[identifier],
                em[to],
                em[from],
                Set::empty(),
            ) {
                Some(fm.insert(identifier, subst_formula(fm[identifier], em[to], em[from])))
            } else {
                None
            }
        },
        _ => Some(fm),
    }
}

/// The `i`-th new premise judgment of a rule application: the premise schema
/// resolved under the binding tables, with the resolved assumption placeholder
/// (if the schema names one) prepended to the target's assumptions.
pub open spec fn premise_statement(
    stmt: StatementView,
    rule: DerivationRuleView,
    fm: Map<RuleIdView, FormulaView>,
    em: Map<RuleIdView, Seq<char>>,
    i: int,
) -> StatementView {
    StatementView {
        lhs: match rule.premises[i].lhs {
            Some(l) => seq![fm[l]] + stmt.lhs,
            None => stmt.lhs,
        },
        formula: apply_mapping_val(rule.premises[i].formula, fm, em),
        sidecondition: stmt.sidecondition,
    }
}

/// Every premise schema of the rule resolves under the binding tables.
pub open spec fn premises_resolve(
    rule: DerivationRuleView,
    fm: Map<RuleIdView, FormulaView>,
    em: Map<RuleIdView, Seq<char>>,
) -> bool {
    forall|i: int|
        0 <= i < rule.premises.len() ==> {
            &&& apply_mapping_ok((#[trigger] rule.premises[i]).formula, fm, em)
            &&& (rule.premises[i].lhs matches Some(l) ==> fm.contains_key(l))
        }
}

/// Whether applying `rule` to `stmt` under the binding tables succeeds: the
/// rule is legal on the target, a `Substitution` conclusion can be resolved
/// backwards, the conclusion schema then resolves to exactly the target's
/// formula, and every premise schema resolves.
pub open spec fn apply_rule_ok(
    stmt: StatementView,
    rule: DerivationRuleView,
    fm: Map<RuleIdView, FormulaView>,
    em: Map<RuleIdView, Seq<char>>,
) -> bool {
    &&& can_apply_ok(stmt, rule, em)
    &&& conclusion_subst_map(rule, fm, em) is Some
    &&& {
        let fm2 = conclusion_subst_map(rule, fm, em).unwrap();
        &&& apply_mapping_ok(rule.conclusion.formula, fm2, em)
        &&& apply_mapping_val(rule.conclusion.formula, fm2, em) == stmt.formula
        &&& premises_resolve(rule, fm2, em)
    }
}

impl Statement {
    /// Applies `rule` to this judgment: checks legality, resolves a
    /// `Substitution` conclusion backwards into `mapping`, checks that the
    /// resolved conclusion equals the target formula, and returns the new
    /// premise judgments still to be discharged, in schema order.
    #[verifier::loop_isolation(false)]
    pub fn apply_rule(
        &self,
        rule: &DerivationRule,
        mapping: &mut FormulaMap,
        substitution: &ElementMap,
    ) -> (r: Result<Vec<Statement>, DeductionError>)
        ensures
            r is Ok <==> apply_rule_ok(self@, rule@, old(mapping)@, substitution@),
            r is Ok ==> final(mapping)@ == conclusion_subst_map(
                rule@,
                old(mapping)@,
                substitution@,
            ).unwrap(),
            r matches Ok(ps) ==> {
                &&& ps@.len() == rule@.premises.len()
                &&& forall|i: int|
                    0 <= i < ps@.len() ==> ps@[i]@ == premise_statement(
                        self@,
                        rule@,
                        final(mapping)@,
                        substitution@,
                        i,
                    )
            },
            r is Err ==> (final(mapping)@ == old(mapping)@ || (conclusion_subst_map(
                rule@,
                old(mapping)@,
                substitution@,
            ) matches Some(m) && final(mapping)@ == m)),
    {
        self.can_apply(rule, substitution)?;

        if let RuleFormula::Substitution { identifier, lhs: from_ident, rhs: to_ident } =
            &rule.conclusion.formula {
            let formula = get_formula(identifier, mapping)?;
            let from = match substitution.get(from_ident) {
                Some(f) => f,
                None => {
                    return Err(DeductionError::UnresolvedPlaceholder);
                },
            };
            let to = match substitution.get(to_ident) {
                Some(t) => t,
                None => {
                    return Err(DeductionError::UnresolvedPlaceholder);
                },
            };
            let empty = VarSet::new();
            let new_formula = formula.apply_substitution(to, from, &empty)?;
            mapping.set(identifier.duplicate(), new_formula);
        }
        proof {
            assert(mapping@ =~= conclusion_subst_map(
                rule@,
                old(mapping)@,
                substitution@,
            ).unwrap());
        }

        let conclusion = rule.conclusion.formula.apply_mapping(mapping, substitution)?;
        if !self.formula.eq_formula(&conclusion) {
            return Err(DeductionError::ConclusionMismatch);
        }

        let ghost fm2 = mapping@;
        let mut premisses: Vec<Statement> = Vec::new();
        let mut i: usize = 0;
        while i < rule.premises.len()
            invariant
                i <= rule.premises.len(),
                premisses@.len() == i,
                mapping@ == fm2,
                forall|j: int|
                    0 <= j < i ==> {
                        &&& apply_mapping_ok((#[trigger] rule@.premises[j]).formula, fm2, substitution@)
                        &&& (rule@.premises[j].lhs matches Some(l) ==> fm2.contains_key(l))
                        &&& premisses@[j]@ == premise_statement(
                            self@,
                            rule@,
                            fm2,
                            substitution@,
                            j,
                        )
                    },
            decreases rule.premises.len() - i,
        {
            proof {
                assert(rule@.premises[i as int] == rule.premises@[i as int]@);
            }
            let premise = &rule.premises[i];
            let formula = premise.formula.apply_mapping(mapping, substitution)?;
            let stmt = match &premise.lhs {
                Some(l) => {
                    let f = get_formula(l, mapping)?;
                    let mut lhs_vec: Vec<Formula> = Vec::new();
                    lhs_vec.push(f);
                    let mut rest = duplicate_formulas(&self.lhs);
                    lhs_vec.append(&mut rest);
                    Statement {
                        lhs: lhs_vec,
                        formula,
                        sidecondition: duplicate_side_conditions(&self.sidecondition),
                    }
                },
                None => Statement {
                    lhs: duplicate_formulas(&self.lhs),
                    formula,
                    sidecondition: duplicate_side_conditions(&self.sidecondition),
                },
            };
            proof {
                assert(stmt@.lhs =~= premise_statement(
                    self@,
                    rule@,
                    fm2,
                    substitution@,
                    i as int,
                ).lhs);
                assert(stmt@ =~= premise_statement(self@, rule@, fm2, substitution@, i as int));
            }
            premisses.push(stmt);
            i += 1;
        }
        Ok(premisses)
    }
}

/// Applies `rule` to the judgment `target` (free-function form of
/// `Statement::apply_rule`).
pub fn apply_rule(
    target: &Statement,
    rule: &DerivationRule,
    mapping: &mut FormulaMap,
    substitution: &ElementMap,
) -> (r: Result<Vec<Statement>, DeductionError>)
    ensures
        r is Ok <==> apply_rule_ok(target@, rule@, old(mapping)@, substitution@),
        r is Ok ==> final(mapping)@ == conclusion_subst_map(
            rule@,
            old(mapping)@,
            substitution@,
        ).unwrap(),
        r matches Ok(ps) ==> {
            &&& ps@.len() == rule@.premises.len()
            &&& forall|i: int|
                0 <= i < ps@.len() ==> ps@[i]@ == premise_statement(
                    target@,
                    rule@,
                    final(mapping)@,
                    substitution@,
                    i,
                )
        },
{
    target.apply_rule(rule, mapping, substitution)
}

// ---------------------------------------------------------------------------
// Implication forms for the validity oracle
// ---------------------------------------------------------------------------

/// The left-nested conjunction of a non-empty list of formulas.
pub open spec fn conjunction_of(fs: Seq<FormulaView>) -> FormulaView
    decreases fs.len(),
{
    if fs.len() <= 1 {
        fs[0]
    } else {
        FormulaView::And { lhs: Box::new(conjunction_of(fs.drop_last())), rhs: Box::new(fs.last()) }
    }
}

/// The single formula standing for a judgment: the conjunction of its
/// assumptions implying its conclusion, or the bare conclusion when there are
/// no assumptions.
pub open spec fn implication_of(stmt: StatementView) -> FormulaView {
    if stmt.lhs.len() == 0 {
        stmt.formula
    } else {
        FormulaView::Imp {
            lhs: Box::new(conjunction_of(stmt.lhs)),
            rhs: Box::new(stmt.formula),
        }
    }
}

/// The left-nested conjunction of a non-empty list of formulas.
#[verifier::loop_isolation(false)]
pub fn conjoin(fs: &Vec<Formula>) -> (r: Formula)
    requires
        fs@.len() > 0,
    ensures
        r@ == conjunction_of(fs@.map_values(|f: Formula| f@)),
{
    let ghost views = fs@.map_values(|f: Formula| f@);
    let mut acc = fs[0].duplicate();
    proof {
        assert(views.take(1)[0] == views[0]);
    }
    let mut i: usize = 1;
    while i < fs.len()
        invariant
            1 <= i <= fs.len(),
            acc@ == conjunction_of(views.take(i as int)),
        decreases fs.len() - i,
    {
        acc = Formula::And { lhs: Box::new(acc), rhs: Box::new(fs[i].duplicate()) };
        proof {
            assert(views.take(i as int + 1).drop_last() =~= views.take(i as int));
            assert(views.take(i as int + 1).last() == views[i as int]);
        }
        i += 1;
    }
    proof {
        assert(views.take(fs@.len() as int) =~= views);
    }
    acc
}

impl Statement {
    /// The implication this judgment asserts, for an external validity check.
    pub fn build_implication(&self) -> (r: Formula)
        ensures
            r@ == implication_of(self@),
    {
        if self.lhs.len() == 0 {
            return self.formula.duplicate();
        }
        let lhs = conjoin(&self.lhs);
        Formula::Imp { lhs: Box::new(lhs), rhs: Box::new(self.formula.duplicate()) }
    }
}

/// The implication asserted by a judgment (free-function form).
pub fn build_implication(statement: Statement) -> (r: Formula)
    ensures
        r@ == implication_of(statement@),
{
    statement.build_implication()
}

/// The soundness formula of one derivation step: the premises' implications
/// together imply the conclusion's implication.
pub fn build_formula_from_node(statement: Statement, premisses: Vec<Statement>) -> (r: Formula)
    requires
        premisses@.len() > 0,
    ensures
        r@ == (FormulaView::Imp {
            lhs: Box::new(
                conjunction_of(
                    premisses@.map_values(|p: Statement| p@).map_values(
                        |p: StatementView| implication_of(p),
                    ),
                ),
            ),
            rhs: Box::new(implication_of(statement@)),
        }),
{
    let ghost goal = premisses@.map_values(|p: Statement| p@).map_values(
        |p: StatementView| implication_of(p),
    );
    let conclusion = statement.build_implication();
    let mut imps: Vec<Formula> = Vec::new();
    let mut i: usize = 0;
    while i < premisses.len()
        invariant
            i <= premisses.len(),
            imps@.len() == i,
            goal == premisses@.map_values(|p: Statement| p@).map_values(
                |p: StatementView| implication_of(p),
            ),
            forall|j: int| 0 <= j < i ==> imps@[j]@ == goal[j],
        decreases premisses.len() - i,
    {
        proof {
            assert(goal[i as int] == implication_of(premisses@[i as int]@));
        }
        imps.push(premisses[i].build_implication());
        i += 1;
    }
    let lhs = conjoin(&imps);
    proof {
        assert(imps@.map_values(|f: Formula| f@) =~= goal);
    }
    Formula::Imp { lhs: Box::new(lhs), rhs: Box::new(conclusion) }
}

/// Whether `rule` may legally transform the judgment `target` (free-function
/// form of `Statement::can_apply`).
pub fn legal_rule(
    target: &Statement,
    rule: &DerivationRule,
    substitution: &ElementMap,
) -> (r: Result<(), DeductionError>)
    ensures
        r is Ok <==> can_apply_ok(target@, rule@, substitution@),
        r matches Err(e) ==> (e == DeductionError::RuleNotApplicable || e
            == DeductionError::SideConditionViolated || e == DeductionError::MalformedFormula || e
            == DeductionError::UnresolvedPlaceholder),
{
    target.can_apply(rule, substitution)
}

} // verus!
