//! General laws of the formula operations, stated over the ghost mirrors and
//! proved by structural induction.

use vstd::prelude::*;

use crate::formula::{binders_are_elements, free_vars_of, ident_name, subst_ok, FormulaView,
    IdentView};
use crate::mapping::{apply_mapping_ok, apply_mapping_val, substitution_view};
use crate::rule::{DerivationRuleView, RuleFormulaView, RuleIdView, RuleStatementView};
use crate::statement::StatementView;
use crate::tree::{covered, infer_formula, infer_premises, infer_round, infer_rounds,
    inference_result, infer_stmt};

verus! {

/// Whether some leaf of `f` — an atom or a predicate argument — carries the
/// name `x`. These are exactly the positions a substitution of `x` rewrites.
pub open spec fn mentions_name(f: FormulaView, x: Seq<char>) -> bool
    decreases f,
{
    match f {
        FormulaView::And { lhs, rhs } => mentions_name(*lhs, x) || mentions_name(*rhs, x),
        FormulaView::Or { lhs, rhs } => mentions_name(*lhs, x) || mentions_name(*rhs, x),
        FormulaView::Imp { lhs, rhs } => mentions_name(*lhs, x) || mentions_name(*rhs, x),
        FormulaView::Not(g) => mentions_name(*g, x),
        FormulaView::Ident(i) => ident_name(i) == x,
        FormulaView::True => false,
        FormulaView::False => false,
        FormulaView::Forall { formula, .. } => mentions_name(*formula, x),
        FormulaView::Exists { formula, .. } => mentions_name(*formula, x),
        FormulaView::Predicate { identifiers, .. } => exists|i: int|
            0 <= i < identifiers.len() && ident_name(identifiers[i]) == x,
    }
}

/// Whether some quantifier inside `f` binds the name `y`.
pub open spec fn binds_name(f: FormulaView, y: Seq<char>) -> bool
    decreases f,
{
    match f {
        FormulaView::And { lhs, rhs } => binds_name(*lhs, y) || binds_name(*rhs, y),
        FormulaView::Or { lhs, rhs } => binds_name(*lhs, y) || binds_name(*rhs, y),
        FormulaView::Imp { lhs, rhs } => binds_name(*lhs, y) || binds_name(*rhs, y),
        FormulaView::Not(g) => binds_name(*g, y),
        FormulaView::Ident(_) => false,
        FormulaView::True => false,
        FormulaView::False => false,
        FormulaView::Forall { identifier, formula } => ident_name(identifier) == y || binds_name(
            *formula,
            y,
        ),
        FormulaView::Exists { identifier, formula } => ident_name(identifier) == y || binds_name(
            *formula,
            y,
        ),
        FormulaView::Predicate { .. } => false,
    }
}

/// Substituting `from -> to` fails once `to` is already bound around a leaf
/// that mentions `from`.
pub proof fn lemma_subst_capture(
    f: FormulaView,
    from: Seq<char>,
    to: Seq<char>,
    captured: Set<Seq<char>>,
)
    requires
        mentions_name(f, from),
        captured.contains(to),
    ensures
        !subst_ok(f, from, to, captured),
    decreases f,
{
    match f {
        FormulaView::And { lhs, rhs } => {
            if mentions_name(*lhs, from) {
                lemma_subst_capture(*lhs, from, to, captured);
            } else {
                lemma_subst_capture(*rhs, from, to, captured);
            }
        },
        FormulaView::Or { lhs, rhs } => {
            if mentions_name(*lhs, from) {
                lemma_subst_capture(*lhs, from, to, captured);
            } else {
                lemma_subst_capture(*rhs, from, to, captured);
            }
        },
        FormulaView::Imp { lhs, rhs } => {
            if mentions_name(*lhs, from) {
                lemma_subst_capture(*lhs, from, to, captured);
            } else {
                lemma_subst_capture(*rhs, from, to, captured);
            }
        },
        FormulaView::Not(g) => {
            lemma_subst_capture(*g, from, to, captured);
        },
        FormulaView::Forall { identifier, formula } => {
            lemma_subst_capture(*formula, from, to, captured.insert(ident_name(identifier)));
        },
        FormulaView::Exists { identifier, formula } => {
            lemma_subst_capture(*formula, from, to, captured.insert(ident_name(identifier)));
        },
        _ => {},
    }
}

/// Substitution is capture-safe: renaming `x` to `y` inside a formula bound by
/// a quantifier over `y` is refused whenever the body mentions `x`. Together
/// with the contract of `Formula::apply_substitution`, such a call returns the
/// capture error rather than a wrongly scoped formula.
pub proof fn lemma_substitution_into_binder_is_capture(
    body: FormulaView,
    x: Seq<char>,
    y: Seq<char>,
)
    requires
        mentions_name(body, x),
    ensures
        !subst_ok(
            FormulaView::Forall { identifier: IdentView::Element(y), formula: Box::new(body) },
            x,
            y,
            Set::empty(),
        ),
        !subst_ok(
            FormulaView::Exists { identifier: IdentView::Element(y), formula: Box::new(body) },
            x,
            y,
            Set::empty(),
        ),
{
    lemma_subst_capture(body, x, y, Set::<Seq<char>>::empty().insert(y));
}

/// Substitution into an unrelated scope succeeds: if no quantifier of `f`
/// binds `y` and `y` is not already bound around `f`, renaming any `x` to `y`
/// is accepted.
pub proof fn lemma_subst_unrelated_scope_ok(
    f: FormulaView,
    x: Seq<char>,
    y: Seq<char>,
    captured: Set<Seq<char>>,
)
    requires
        !binds_name(f, y),
        !captured.contains(y),
    ensures
        subst_ok(f, x, y, captured),
    decreases f,
{
    match f {
        FormulaView::And { lhs, rhs } => {
            lemma_subst_unrelated_scope_ok(*lhs, x, y, captured);
            lemma_subst_unrelated_scope_ok(*rhs, x, y, captured);
        },
        FormulaView::Or { lhs, rhs } => {
            lemma_subst_unrelated_scope_ok(*lhs, x, y, captured);
            lemma_subst_unrelated_scope_ok(*rhs, x, y, captured);
        },
        FormulaView::Imp { lhs, rhs } => {
            lemma_subst_unrelated_scope_ok(*lhs, x, y, captured);
            lemma_subst_unrelated_scope_ok(*rhs, x, y, captured);
        },
        FormulaView::Not(g) => {
            lemma_subst_unrelated_scope_ok(*g, x, y, captured);
        },
        FormulaView::Forall { identifier, formula } => {
            lemma_subst_unrelated_scope_ok(*formula, x, y, captured.insert(ident_name(identifier)));
        },
        FormulaView::Exists { identifier, formula } => {
            lemma_subst_unrelated_scope_ok(*formula, x, y, captured.insert(ident_name(identifier)));
        },
        _ => {},
    }
}

/// The bound-variable parameter of `free_vars_of` only subtracts names: the
/// free variables under a bound set are the free variables of the formula
/// alone minus that set.
pub proof fn lemma_free_vars_bound_difference(f: FormulaView, bound: Set<Seq<char>>)
    ensures
        free_vars_of(f, bound) == free_vars_of(f, Set::empty()).difference(bound),
    decreases f,
{
    match f {
        FormulaView::And { lhs, rhs } => {
            lemma_free_vars_bound_difference(*lhs, bound);
            lemma_free_vars_bound_difference(*rhs, bound);
            assert(free_vars_of(f, bound) =~= free_vars_of(f, Set::empty()).difference(bound));
        },
        FormulaView::Or { lhs, rhs } => {
            lemma_free_vars_bound_difference(*lhs, bound);
            lemma_free_vars_bound_difference(*rhs, bound);
            assert(free_vars_of(f, bound) =~= free_vars_of(f, Set::empty()).difference(bound));
        },
        FormulaView::Imp { lhs, rhs } => {
            lemma_free_vars_bound_difference(*lhs, bound);
            lemma_free_vars_bound_difference(*rhs, bound);
            assert(free_vars_of(f, bound) =~= free_vars_of(f, Set::empty()).difference(bound));
        },
        FormulaView::Not(g) => {
            lemma_free_vars_bound_difference(*g, bound);
        },
        FormulaView::Forall { identifier, formula } => {
            let x = ident_name(identifier);
            lemma_free_vars_bound_difference(*formula, bound.insert(x));
            lemma_free_vars_bound_difference(*formula, Set::<Seq<char>>::empty().insert(x));
            assert(free_vars_of(f, bound) =~= free_vars_of(f, Set::empty()).difference(bound));
        },
        FormulaView::Exists { identifier, formula } => {
            let x = ident_name(identifier);
            lemma_free_vars_bound_difference(*formula, bound.insert(x));
            lemma_free_vars_bound_difference(*formula, Set::<Seq<char>>::empty().insert(x));
            assert(free_vars_of(f, bound) =~= free_vars_of(f, Set::empty()).difference(bound));
        },
        _ => {
            assert(free_vars_of(f, bound) =~= free_vars_of(f, Set::empty()).difference(bound));
        },
    }
}

// ---------------------------------------------------------------------------
// Mapping round trip
// ---------------------------------------------------------------------------

/// Schemas without a `Substitution` constructor.
pub open spec fn substitution_free(rf: RuleFormulaView) -> bool
    decreases rf,
{
    match rf {
        RuleFormulaView::Substitution { .. } => false,
        RuleFormulaView::Forall { formula, .. } => substitution_free(*formula),
        RuleFormulaView::Exists { formula, .. } => substitution_free(*formula),
        _ => true,
    }
}

/// Every binding of `a` is a binding of `b`.
pub open spec fn submap(
    a: Map<RuleIdView, FormulaView>,
    b: Map<RuleIdView, FormulaView>,
) -> bool {
    forall|k: RuleIdView| #[trigger] a.contains_key(k) ==> b.contains_key(k) && b[k] == a[k]
}

/// Inference over a substitution-free schema only adds bindings: it never
/// changes one that was already present.
pub proof fn lemma_infer_formula_monotone(
    f: FormulaView,
    rf: RuleFormulaView,
    fm: Map<RuleIdView, FormulaView>,
    em: Map<RuleIdView, FormulaView>,
)
    requires
        substitution_free(rf),
        infer_formula(f, rf, fm, em) is Some,
    ensures
        submap(fm, infer_formula(f, rf, fm, em).unwrap().0),
        submap(em, infer_formula(f, rf, fm, em).unwrap().1),
    decreases rf,
{
    match (f, rf) {
        (
            FormulaView::Exists { identifier, formula },
            RuleFormulaView::Exists { identifier: ri, formula: rbody },
        ) => {
            let em2 = crate::mapping::added_binding(
                em,
                ri,
                FormulaView::Ident(identifier),
            ).unwrap();
            lemma_infer_formula_monotone(*formula, *rbody, fm, em2);
            assert(infer_formula(f, rf, fm, em) == infer_formula(*formula, *rbody, fm, em2));
            assert(submap(em, em2));
        },
        (
            FormulaView::Forall { identifier, formula },
            RuleFormulaView::Forall { identifier: ri, formula: rbody },
        ) => {
            let em2 = crate::mapping::added_binding(
                em,
                ri,
                FormulaView::Ident(identifier),
            ).unwrap();
            lemma_infer_formula_monotone(*formula, *rbody, fm, em2);
            assert(infer_formula(f, rf, fm, em) == infer_formula(*formula, *rbody, fm, em2));
            assert(submap(em, em2));
        },
        _ => {},
    }
}

/// Mapping round trip, formula level: the bindings that `infer_formula`
/// recovers from a concrete formula resolve the schema back to exactly that
/// formula. Holds for every substitution-free schema of a well-formed
/// instantiation.
pub proof fn lemma_infer_then_apply(
    f: FormulaView,
    rf: RuleFormulaView,
    fm: Map<RuleIdView, FormulaView>,
    em: Map<RuleIdView, FormulaView>,
)
    requires
        substitution_free(rf),
        binders_are_elements(f),
        infer_formula(f, rf, fm, em) is Some,
    ensures
        ({
            let p = infer_formula(f, rf, fm, em).unwrap();
            &&& apply_mapping_ok(rf, p.0, substitution_view(p.1))
            &&& apply_mapping_val(rf, p.0, substitution_view(p.1)) == f
        }),
    decreases rf,
{
    match (f, rf) {
        (
            FormulaView::Exists { identifier, formula },
            RuleFormulaView::Exists { identifier: ri, formula: rbody },
        ) => {
            let em2 = crate::mapping::added_binding(
                em,
                ri,
                FormulaView::Ident(identifier),
            ).unwrap();
            lemma_infer_then_apply(*formula, *rbody, fm, em2);
            lemma_infer_formula_monotone(*formula, *rbody, fm, em2);
            assert(em2.contains_key(ri) && em2[ri] == FormulaView::Ident(identifier));
            let p = infer_formula(f, rf, fm, em).unwrap();
            assert(p == infer_formula(*formula, *rbody, fm, em2).unwrap());
            assert(p.1.contains_key(ri) && p.1[ri] == FormulaView::Ident(identifier));
            assert(substitution_view(p.1)[ri] == ident_name(identifier));
            assert(IdentView::Element(substitution_view(p.1)[ri]) == identifier);
            assert(apply_mapping_val(rf, p.0, substitution_view(p.1)) == f);
        },
        (
            FormulaView::Forall { identifier, formula },
            RuleFormulaView::Forall { identifier: ri, formula: rbody },
        ) => {
            let em2 = crate::mapping::added_binding(
                em,
                ri,
                FormulaView::Ident(identifier),
            ).unwrap();
            lemma_infer_then_apply(*formula, *rbody, fm, em2);
            lemma_infer_formula_monotone(*formula, *rbody, fm, em2);
            assert(em2.contains_key(ri) && em2[ri] == FormulaView::Ident(identifier));
            let p = infer_formula(f, rf, fm, em).unwrap();
            assert(p == infer_formula(*formula, *rbody, fm, em2).unwrap());
            assert(p.1.contains_key(ri) && p.1[ri] == FormulaView::Ident(identifier));
            assert(substitution_view(p.1)[ri] == ident_name(identifier));
            assert(IdentView::Element(substitution_view(p.1)[ri]) == identifier);
            assert(apply_mapping_val(rf, p.0, substitution_view(p.1)) == f);
        },
        _ => {},
    }
}

/// Mapping round trip, judgment level: the bindings recovered from one
/// concrete judgment resolve the schematic judgment's formula back to exactly
/// the judgment's formula.
pub proof fn lemma_infer_stmt_round_trip(
    stmt: StatementView,
    rs: RuleStatementView,
    fm: Map<RuleIdView, FormulaView>,
    em: Map<RuleIdView, FormulaView>,
)
    requires
        substitution_free(rs.formula),
        binders_are_elements(stmt.formula),
        infer_stmt(stmt, rs, fm, em) is Some,
    ensures
        ({
            let p = infer_stmt(stmt, rs, fm, em).unwrap();
            &&& apply_mapping_ok(rs.formula, p.0, substitution_view(p.1))
            &&& apply_mapping_val(rs.formula, p.0, substitution_view(p.1)) == stmt.formula
        }),
{
    lemma_infer_then_apply(stmt.formula, rs.formula, fm, em);
}

/// Every binding of `a` is a binding of `b` (name tables).
pub open spec fn submap_names(a: Map<RuleIdView, Seq<char>>, b: Map<RuleIdView, Seq<char>>) -> bool {
    forall|k: RuleIdView| #[trigger] a.contains_key(k) ==> b.contains_key(k) && b[k] == a[k]
}

pub proof fn lemma_substitution_view_monotone(
    a: Map<RuleIdView, FormulaView>,
    b: Map<RuleIdView, FormulaView>,
)
    requires
        submap(a, b),
    ensures
        submap_names(substitution_view(a), substitution_view(b)),
{
}

/// Resolving a schema is stable under growing the binding tables: the result
/// is unchanged once the schema resolves at all.
pub proof fn lemma_apply_mapping_monotone(
    rf: RuleFormulaView,
    fm: Map<RuleIdView, FormulaView>,
    em: Map<RuleIdView, Seq<char>>,
    fm2: Map<RuleIdView, FormulaView>,
    em2: Map<RuleIdView, Seq<char>>,
)
    requires
        apply_mapping_ok(rf, fm, em),
        submap(fm, fm2),
        submap_names(em, em2),
    ensures
        apply_mapping_ok(rf, fm2, em2),
        apply_mapping_val(rf, fm2, em2) == apply_mapping_val(rf, fm, em),
    decreases rf,
{
    match rf {
        RuleFormulaView::Forall { formula, .. } => {
            lemma_apply_mapping_monotone(*formula, fm, em, fm2, em2);
        },
        RuleFormulaView::Exists { formula, .. } => {
            lemma_apply_mapping_monotone(*formula, fm, em, fm2, em2);
        },
        _ => {},
    }
}

proof fn lemma_infer_stmt_monotone(
    stmt: StatementView,
    rs: RuleStatementView,
    fm: Map<RuleIdView, FormulaView>,
    em: Map<RuleIdView, FormulaView>,
)
    requires
        substitution_free(rs.formula),
        infer_stmt(stmt, rs, fm, em) is Some,
    ensures
        submap(fm, infer_stmt(stmt, rs, fm, em).unwrap().0),
        submap(em, infer_stmt(stmt, rs, fm, em).unwrap().1),
{
    lemma_infer_formula_monotone(stmt.formula, rs.formula, fm, em);
}

/// The inference state only grows along the premise chain: from any earlier
/// stage the chain is defined and its bindings survive to the later stage.
proof fn lemma_infer_premises_monotone(
    prems: Seq<StatementView>,
    rps: Seq<RuleStatementView>,
    fm: Map<RuleIdView, FormulaView>,
    em: Map<RuleIdView, FormulaView>,
    i: int,
    n: int,
)
    requires
        0 <= i <= n,
        n <= prems.len(),
        n <= rps.len(),
        forall|j: int| 0 <= j < n ==> substitution_free((#[trigger] rps[j]).formula),
        infer_premises(prems, rps, fm, em, n) is Some,
    ensures
        infer_premises(prems, rps, fm, em, i) is Some,
        submap(
            infer_premises(prems, rps, fm, em, i).unwrap().0,
            infer_premises(prems, rps, fm, em, n).unwrap().0,
        ),
        submap(
            infer_premises(prems, rps, fm, em, i).unwrap().1,
            infer_premises(prems, rps, fm, em, n).unwrap().1,
        ),
    decreases n - i,
{
    if i < n {
        lemma_infer_premises_monotone(prems, rps, fm, em, i, n - 1);
        let pre = infer_premises(prems, rps, fm, em, n - 1).unwrap();
        lemma_infer_stmt_monotone(prems[n - 1], rps[n - 1], pre.0, pre.1);
    }
}

/// Mapping round trip for one propagation round: the bindings inferred from a
/// well-formed concrete instantiation of a substitution-free rule resolve the
/// conclusion schema and every premise schema back to exactly the original
/// judgment formulas.
pub proof fn lemma_infer_round_round_trip(
    stmt: StatementView,
    prems: Seq<StatementView>,
    rule: DerivationRuleView,
    fm0: Map<RuleIdView, FormulaView>,
    em0: Map<RuleIdView, FormulaView>,
)
    requires
        substitution_free(rule.conclusion.formula),
        forall|i: int|
            0 <= i < rule.premises.len() ==> substitution_free(
                (#[trigger] rule.premises[i]).formula,
            ),
        binders_are_elements(stmt.formula),
        forall|i: int| 0 <= i < prems.len() ==> binders_are_elements((#[trigger] prems[i]).formula),
        prems.len() == rule.premises.len(),
        infer_round(stmt, prems, rule, fm0, em0) is Some,
    ensures
        ({
            let p = infer_round(stmt, prems, rule, fm0, em0).unwrap();
            let sv = substitution_view(p.1);
            &&& apply_mapping_ok(rule.conclusion.formula, p.0, sv)
            &&& apply_mapping_val(rule.conclusion.formula, p.0, sv) == stmt.formula
            &&& forall|i: int|
                0 <= i < prems.len() ==> apply_mapping_ok(
                    (#[trigger] rule.premises[i]).formula,
                    p.0,
                    sv,
                ) && apply_mapping_val(rule.premises[i].formula, p.0, sv) == prems[i].formula
        }),
{
    let s1 = infer_stmt(stmt, rule.conclusion, fm0, em0).unwrap();
    lemma_infer_stmt_round_trip(stmt, rule.conclusion, fm0, em0);
    let n = prems.len() as int;
    let fin = infer_premises(prems, rule.premises, s1.0, s1.1, n).unwrap();
    lemma_infer_premises_monotone(prems, rule.premises, s1.0, s1.1, 0, n);
    lemma_substitution_view_monotone(s1.1, fin.1);
    lemma_apply_mapping_monotone(
        rule.conclusion.formula,
        s1.0,
        substitution_view(s1.1),
        fin.0,
        substitution_view(fin.1),
    );
    assert forall|i: int| 0 <= i < n implies apply_mapping_ok(
        (#[trigger] rule.premises[i]).formula,
        fin.0,
        substitution_view(fin.1),
    ) && apply_mapping_val(rule.premises[i].formula, fin.0, substitution_view(fin.1))
        == prems[i].formula by {
        lemma_infer_premises_monotone(prems, rule.premises, s1.0, s1.1, i + 1, n);
        let pre = infer_premises(prems, rule.premises, s1.0, s1.1, i).unwrap();
        let post = infer_premises(prems, rule.premises, s1.0, s1.1, i + 1).unwrap();
        lemma_infer_stmt_round_trip(prems[i], rule.premises[i], pre.0, pre.1);
        lemma_substitution_view_monotone(post.1, fin.1);
        lemma_apply_mapping_monotone(
            rule.premises[i].formula,
            post.0,
            substitution_view(post.1),
            fin.0,
            substitution_view(fin.1),
        );
    }
}

/// Mapping round trip for the bounded fixpoint: whatever binding tables the
/// bounded inference settles on, re-resolving the rule's schemas reproduces
/// the concrete judgment and premises it was run on.
pub proof fn lemma_inference_result_round_trip(
    stmt: StatementView,
    prems: Seq<StatementView>,
    rule: DerivationRuleView,
)
    requires
        substitution_free(rule.conclusion.formula),
        forall|i: int|
            0 <= i < rule.premises.len() ==> substitution_free(
                (#[trigger] rule.premises[i]).formula,
            ),
        binders_are_elements(stmt.formula),
        forall|i: int| 0 <= i < prems.len() ==> binders_are_elements((#[trigger] prems[i]).formula),
        prems.len() == rule.premises.len(),
        inference_result(stmt, prems, rule) is Some,
    ensures
        ({
            let p = inference_result(stmt, prems, rule).unwrap();
            let sv = substitution_view(p.1);
            &&& apply_mapping_ok(rule.conclusion.formula, p.0, sv)
            &&& apply_mapping_val(rule.conclusion.formula, p.0, sv) == stmt.formula
            &&& forall|i: int|
                0 <= i < prems.len() ==> apply_mapping_ok(
                    (#[trigger] rule.premises[i]).formula,
                    p.0,
                    sv,
                ) && apply_mapping_val(rule.premises[i].formula, p.0, sv) == prems[i].formula
        }),
{
    lemma_infer_rounds_round_trip(stmt, prems, rule, Map::empty(), Map::empty(), 5);
}

proof fn lemma_infer_rounds_round_trip(
    stmt: StatementView,
    prems: Seq<StatementView>,
    rule: DerivationRuleView,
    fm: Map<RuleIdView, FormulaView>,
    em: Map<RuleIdView, FormulaView>,
    k: int,
)
    requires
        k >= 1,
        substitution_free(rule.conclusion.formula),
        forall|i: int|
            0 <= i < rule.premises.len() ==> substitution_free(
                (#[trigger] rule.premises[i]).formula,
            ),
        binders_are_elements(stmt.formula),
        forall|i: int| 0 <= i < prems.len() ==> binders_are_elements((#[trigger] prems[i]).formula),
        prems.len() == rule.premises.len(),
        infer_rounds(stmt, prems, rule, fm, em, k) is Some,
    ensures
        ({
            let p = infer_rounds(stmt, prems, rule, fm, em, k).unwrap();
            let sv = substitution_view(p.1);
            &&& apply_mapping_ok(rule.conclusion.formula, p.0, sv)
            &&& apply_mapping_val(rule.conclusion.formula, p.0, sv) == stmt.formula
            &&& forall|i: int|
                0 <= i < prems.len() ==> apply_mapping_ok(
                    (#[trigger] rule.premises[i]).formula,
                    p.0,
                    sv,
                ) && apply_mapping_val(rule.premises[i].formula, p.0, sv) == prems[i].formula
        }),
    decreases k,
{
    let r1 = infer_round(stmt, prems, rule, fm, em).unwrap();
    if covered(rule, r1.0, r1.1) || k <= 1 {
        lemma_infer_round_round_trip(stmt, prems, rule, fm, em);
    } else {
        lemma_infer_rounds_round_trip(stmt, prems, rule, r1.0, r1.1, k - 1);
    }
}

/// Free variables respect binders: the free variables of a quantified formula
/// are those of its body without the bound variable.
pub proof fn lemma_free_vars_of_quantifier(x: Seq<char>, body: FormulaView)
    ensures
        free_vars_of(
            FormulaView::Forall { identifier: IdentView::Element(x), formula: Box::new(body) },
            Set::empty(),
        ) == free_vars_of(body, Set::empty()).remove(x),
        free_vars_of(
            FormulaView::Exists { identifier: IdentView::Element(x), formula: Box::new(body) },
            Set::empty(),
        ) == free_vars_of(body, Set::empty()).remove(x),
{
    lemma_free_vars_bound_difference(body, Set::<Seq<char>>::empty().insert(x));
    assert(free_vars_of(body, Set::<Seq<char>>::empty().insert(x)) =~= free_vars_of(
        body,
        Set::empty(),
    ).remove(x));
}

} // verus!
