//! Backward resolution (mapping inference) and derivation-tree validation:
//! recovering binding tables from concrete judgments, the bounded fixpoint
//! that alternates between conclusion and premises, and the recursive walk
//! over a whole derivation tree.

use vstd::prelude::*;

use crate::errors::DeductionError;
use crate::formula::{Formula, FormulaView, Identifier, IdentView};
use crate::mapping::{added_binding, checked_insert, checked_set, FormulaMap};
use crate::rule::{rule_identifiers, DerivationRule, DerivationRuleView, RuleFormula,
    RuleFormulaView, RuleIdSet, RuleIdView, RuleIdentifier, RuleStatement, RuleStatementView,
    Rules};
use crate::statement::{Statement, StatementView};

verus! {

// ---------------------------------------------------------------------------
// Inference between two concrete formulas (substitution recovery)
// ---------------------------------------------------------------------------

/// The identity renaming recorded when the two compared formulas are equal:
/// both placeholders map to their own schematic names. Fails when either
/// placeholder is not an element placeholder.
pub open spec fn identity_binding(
    from: RuleIdView,
    to: RuleIdView,
    em: Map<RuleIdView, FormulaView>,
) -> Option<Map<RuleIdView, FormulaView>> {
    match (from, to) {
        (RuleIdView::Element(fs), RuleIdView::Element(ts)) => Some(
            em.insert(from, FormulaView::Ident(IdentView::Element(fs))).insert(
                to,
                FormulaView::Ident(IdentView::Element(ts)),
            ),
        ),
        _ => None,
    }
}

/// Pairwise binding of predicate arguments: for each argument position the
/// `from` placeholder is bound to the first formula's argument and the `to`
/// placeholder to the second's, with conflict detection.
pub open spec fn infer_predicate_args(
    aa: Seq<IdentView>,
    ab: Seq<IdentView>,
    from: RuleIdView,
    to: RuleIdView,
    em: Map<RuleIdView, FormulaView>,
    n: int,
) -> Option<Map<RuleIdView, FormulaView>>
    decreases aa.len() - n,
{
    if n < 0 || aa.len() <= n {
        Some(em)
    } else {
        match checked_insert(em, from, FormulaView::Ident(aa[n])) {
            None => None,
            Some(em2) => match checked_insert(em2, to, FormulaView::Ident(ab[n])) {
                None => None,
                Some(em3) => infer_predicate_args(aa, ab, from, to, em3, n + 1),
            },
        }
    }
}

/// Recovers what the substitution pair `(from, to)` must have been, comparing
/// the formula bound to a schema placeholder (`ff`) with the concrete target
/// (`ft`): equal formulas record the identity renaming, quantifiers with
/// different binders record the two binder names, predicates bind argumentwise.
pub open spec fn infer_between(
    ff: FormulaView,
    ft: FormulaView,
    from: RuleIdView,
    to: RuleIdView,
    em: Map<RuleIdView, FormulaView>,
) -> Option<Map<RuleIdView, FormulaView>>
    decreases ff,
{
    let step1 = if ff == ft {
        identity_binding(from, to, em)
    } else {
        Some(em)
    };
    match step1 {
        None => None,
        Some(em1) => match (ff, ft) {
            (
                FormulaView::Forall { identifier: ia, formula: fa },
                FormulaView::Forall { identifier: ib, formula: fb },
            ) => {
                if ia == ib {
                    infer_between(*fa, *fb, from, to, em1)
                } else {
                    match checked_insert(em1, from, FormulaView::Ident(ia)) {
                        None => None,
                        Some(em2) => checked_insert(em2, to, FormulaView::Ident(ib)),
                    }
                }
            },
            (
                FormulaView::Exists { identifier: ia, formula: fa },
                FormulaView::Exists { identifier: ib, formula: fb },
            ) => {
                if ia == ib {
                    infer_between(*fa, *fb, from, to, em1)
                } else {
                    match checked_insert(em1, from, FormulaView::Ident(ia)) {
                        None => None,
                        Some(em2) => checked_insert(em2, to, FormulaView::Ident(ib)),
                    }
                }
            },
            (
                FormulaView::Predicate { identifier: pa, identifiers: aa },
                FormulaView::Predicate { identifier: pb, identifiers: ab },
            ) => {
                if pa != pb {
                    None
                } else if aa.len() != ab.len() {
                    None
                } else {
                    infer_predicate_args(aa, ab, from, to, em1, 0)
                }
            },
            (a, b) => if a == b {
                Some(em1)
            } else {
                None
            },
        },
    }
}

/// Infers the element bindings that make the formula bound to a substitution
/// schema equal to a concrete target formula. On success the table holds
/// exactly what `infer_between` describes; a conflicting rebinding, a
/// non-element placeholder on equal formulas, or a structural mismatch is an
/// error.
#[verifier::loop_isolation(false)]
pub fn infer_mapping_between_formula(
    formula_from: &Formula,
    formula_to: &Formula,
    from: &RuleIdentifier,
    to: &RuleIdentifier,
    element_mapping: &mut FormulaMap,
) -> (r: Result<(), DeductionError>)
    ensures
        r is Ok <==> infer_between(formula_from@, formula_to@, from@, to@, old(element_mapping)@)
            is Some,
        r is Ok ==> final(element_mapping)@ == infer_between(
            formula_from@,
            formula_to@,
            from@,
            to@,
            old(element_mapping)@,
        ).unwrap(),
        r matches Err(e) ==> (e == DeductionError::InferenceFailure || e
            == DeductionError::BindingConflict || e == DeductionError::RuleNotApplicable),
    decreases formula_from,
{
    if formula_from.eq_formula(formula_to) {
        match (from, to) {
            (RuleIdentifier::Element(fs), RuleIdentifier::Element(ts)) => {
                element_mapping.set(
                    from.duplicate(),
                    Formula::Ident(Identifier::Element(fs.clone())),
                );
                element_mapping.set(
                    to.duplicate(),
                    Formula::Ident(Identifier::Element(ts.clone())),
                );
            },
            _ => {
                return Err(DeductionError::InferenceFailure);
            },
        }
    }
    match (formula_from, formula_to) {
        (
            Formula::Forall { identifier: ia, formula: fa },
            Formula::Forall { identifier: ib, formula: fb },
        ) => {
            if ia.eq_ident(ib) {
                infer_mapping_between_formula(fa, fb, from, to, element_mapping)
            } else {
                checked_set(element_mapping, from, Formula::Ident(ia.duplicate()))?;
                checked_set(element_mapping, to, Formula::Ident(ib.duplicate()))?;
                Ok(())
            }
        },
        (
            Formula::Exists { identifier: ia, formula: fa },
            Formula::Exists { identifier: ib, formula: fb },
        ) => {
            if ia.eq_ident(ib) {
                infer_mapping_between_formula(fa, fb, from, to, element_mapping)
            } else {
                checked_set(element_mapping, from, Formula::Ident(ia.duplicate()))?;
                checked_set(element_mapping, to, Formula::Ident(ib.duplicate()))?;
                Ok(())
            }
        },
        (
            Formula::Predicate { identifier: pa, identifiers: aa },
            Formula::Predicate { identifier: pb, identifiers: ab },
        ) => {
            let ghost aav = aa@.map_values(|x: Identifier| x@);
            let ghost abv = ab@.map_values(|x: Identifier| x@);
            if !pa.eq_ident(pb) {
                return Err(DeductionError::RuleNotApplicable);
            }
            if aa.len() != ab.len() {
                return Err(DeductionError::RuleNotApplicable);
            }
            let ghost em_base = element_mapping@;
            let mut i: usize = 0;
            while i < aa.len()
                invariant
                    i <= aa.len(),
                    infer_predicate_args(aav, abv, from@, to@, em_base, 0) == infer_predicate_args(
                        aav,
                        abv,
                        from@,
                        to@,
                        element_mapping@,
                        i as int,
                    ),
                decreases aa.len() - i,
            {
                proof {
                    assert(aav[i as int] == aa@[i as int]@);
                    assert(abv[i as int] == ab@[i as int]@);
                }
                checked_set(element_mapping, from, Formula::Ident(aa[i].duplicate()))?;
                checked_set(element_mapping, to, Formula::Ident(ab[i].duplicate()))?;
                i += 1;
            }
            Ok(())
        },
        (a, b) => {
            if a.eq_formula(b) {
                Ok(())
            } else {
                Err(DeductionError::InferenceFailure)
            }
        },
    }
}

// ---------------------------------------------------------------------------
// Inference from a concrete formula against a schema
// ---------------------------------------------------------------------------

/// Structural matching of a concrete formula against a schema formula,
/// accumulating placeholder bindings: a placeholder binds the whole
/// subformula, matching constructors bind componentwise, quantifiers bind the
/// schema variable to the concrete binder, and a substitution schema in a
/// conclusion triggers `infer_between` once its placeholder is already bound.
pub open spec fn infer_formula(
    f: FormulaView,
    rf: RuleFormulaView,
    fm: Map<RuleIdView, FormulaView>,
    em: Map<RuleIdView, FormulaView>,
) -> Option<(Map<RuleIdView, FormulaView>, Map<RuleIdView, FormulaView>)>
    decreases rf,
{
    match (f, rf) {
        (_, RuleFormulaView::Ident(ri)) => match added_binding(fm, ri, f) {
            None => None,
            Some(fm2) => Some((fm2, em)),
        },
        (FormulaView::Imp { lhs, rhs }, RuleFormulaView::Imp { lhs: rl, rhs: rr }) => match
        added_binding(fm, rl, *lhs) {
            None => None,
            Some(fm2) => match added_binding(fm2, rr, *rhs) {
                None => None,
                Some(fm3) => Some((fm3, em)),
            },
        },
        (FormulaView::Or { lhs, rhs }, RuleFormulaView::Or { lhs: rl, rhs: rr }) => match
        added_binding(fm, rl, *lhs) {
            None => None,
            Some(fm2) => match added_binding(fm2, rr, *rhs) {
                None => None,
                Some(fm3) => Some((fm3, em)),
            },
        },
        (FormulaView::And { lhs, rhs }, RuleFormulaView::And { lhs: rl, rhs: rr }) => match
        added_binding(fm, rl, *lhs) {
            None => None,
            Some(fm2) => match added_binding(fm2, rr, *rhs) {
                None => None,
                Some(fm3) => Some((fm3, em)),
            },
        },
        (FormulaView::Not(g), RuleFormulaView::Not(ri)) => match added_binding(fm, ri, *g) {
            None => None,
            Some(fm2) => Some((fm2, em)),
        },
        (FormulaView::False, RuleFormulaView::False) => Some((fm, em)),
        (FormulaView::True, RuleFormulaView::True) => Some((fm, em)),
        (
            FormulaView::Exists { identifier, formula },
            RuleFormulaView::Exists { identifier: ri, formula: rbody },
        ) => match added_binding(em, ri, FormulaView::Ident(identifier)) {
            None => None,
            Some(em2) => infer_formula(*formula, *rbody, fm, em2),
        },
        (
            FormulaView::Forall { identifier, formula },
            RuleFormulaView::Forall { identifier: ri, formula: rbody },
        ) => match added_binding(em, ri, FormulaView::Ident(identifier)) {
            None => None,
            Some(em2) => infer_formula(*formula, *rbody, fm, em2),
        },
        (_, RuleFormulaView::Substitution { identifier, lhs, rhs }) => {
            if fm.contains_key(identifier) {
                match infer_between(fm[identifier], f, lhs, rhs, em) {
                    None => None,
                    Some(em2) => Some((fm, em2)),
                }
            } else {
                Some((fm, em))
            }
        },
        _ => None,
    }
}

/// Infers placeholder bindings from one concrete formula and the schema
/// formula it is claimed to instantiate.
pub fn infer_mapping_formula(
    formula: &Formula,
    rule: &RuleFormula,
    formula_mapping: &mut FormulaMap,
    element_mapping: &mut FormulaMap,
) -> (r: Result<(), DeductionError>)
    ensures
        r is Ok <==> infer_formula(
            formula@,
            rule@,
            old(formula_mapping)@,
            old(element_mapping)@,
        ) is Some,
        r is Ok ==> ({
            let p = infer_formula(
                formula@,
                rule@,
                old(formula_mapping)@,
                old(element_mapping)@,
            ).unwrap();
            final(formula_mapping)@ == p.0 && final(element_mapping)@ == p.1
        }),
        r matches Err(e) ==> (e == DeductionError::InferenceFailure || e
            == DeductionError::BindingConflict || e == DeductionError::RuleNotApplicable),
    decreases rule,
{
    match (formula, rule) {
        (_, RuleFormula::Ident(ri)) => {
            let dup = formula.duplicate();
            add_mapping_infer(formula_mapping, ri, &dup)
        },
        (Formula::Imp { lhs, rhs }, RuleFormula::Imp { lhs: rl, rhs: rr }) => {
            add_mapping_infer(formula_mapping, rl, lhs)?;
            add_mapping_infer(formula_mapping, rr, rhs)
        },
        (Formula::Or { lhs, rhs }, RuleFormula::Or { lhs: rl, rhs: rr }) => {
            add_mapping_infer(formula_mapping, rl, lhs)?;
            add_mapping_infer(formula_mapping, rr, rhs)
        },
        (Formula::And { lhs, rhs }, RuleFormula::And { lhs: rl, rhs: rr }) => {
            add_mapping_infer(formula_mapping, rl, lhs)?;
            add_mapping_infer(formula_mapping, rr, rhs)
        },
        (Formula::Not(g), RuleFormula::Not(ri)) => add_mapping_infer(formula_mapping, ri, g),
        (Formula::False, RuleFormula::False) => Ok(()),
        (Formula::True, RuleFormula::True) => Ok(()),
        (
            Formula::Exists { identifier, formula: body },
            RuleFormula::Exists { identifier: ri, formula: rbody },
        ) => {
            let bound = Formula::Ident(identifier.duplicate());
            add_mapping_infer(element_mapping, ri, &bound)?;
            infer_mapping_formula(body, rbody, formula_mapping, element_mapping)
        },
        (
            Formula::Forall { identifier, formula: body },
            RuleFormula::Forall { identifier: ri, formula: rbody },
        ) => {
            let bound = Formula::Ident(identifier.duplicate());
            add_mapping_infer(element_mapping, ri, &bound)?;
            infer_mapping_formula(body, rbody, formula_mapping, element_mapping)
        },
        (_, RuleFormula::Substitution { identifier, lhs, rhs }) => {
            let mapped = match formula_mapping.get(identifier) {
                Some(m) => m.duplicate(),
                None => {
                    return Ok(());
                },
            };
            infer_mapping_between_formula(&mapped, formula, lhs, rhs, element_mapping)
        },
        _ => Err(DeductionError::RuleNotApplicable),
    }
}

/// Single-assignment insertion with the inference error kind.
fn add_mapping_infer(mapping: &mut FormulaMap, rule: &RuleIdentifier, formula: &Formula) -> (r:
    Result<(), DeductionError>)
    ensures
        r is Ok <==> added_binding(old(mapping)@, rule@, formula@) is Some,
        r is Ok ==> final(mapping)@ == added_binding(old(mapping)@, rule@, formula@).unwrap(),
        r matches Err(e) ==> e == DeductionError::BindingConflict && final(mapping)@ == old(
            mapping,
        )@,
{
    crate::mapping::add_mapping(mapping, rule, formula)
}

// ---------------------------------------------------------------------------
// Inference from a judgment against a schematic judgment
// ---------------------------------------------------------------------------

/// Inference over a whole judgment: the formula against the schema formula,
/// and, when the schema names an assumption placeholder that is already
/// bound, a check that the bound formula appears among the assumptions.
pub open spec fn infer_stmt(
    stmt: StatementView,
    rs: RuleStatementView,
    fm: Map<RuleIdView, FormulaView>,
    em: Map<RuleIdView, FormulaView>,
) -> Option<(Map<RuleIdView, FormulaView>, Map<RuleIdView, FormulaView>)> {
    match infer_formula(stmt.formula, rs.formula, fm, em) {
        None => None,
        Some((fm2, em2)) => match rs.lhs {
            Some(l) => if fm2.contains_key(l) {
                if stmt.lhs.contains(fm2[l]) {
                    Some((fm2, em2))
                } else {
                    None
                }
            } else {
                Some((fm2, em2))
            },
            None => Some((fm2, em2)),
        },
    }
}

/// Infers placeholder bindings from one concrete judgment and the schematic
/// judgment it is claimed to instantiate.
pub fn infer_mapping_stmt(
    statment: &Statement,
    rule: &RuleStatement,
    formula_mapping: &mut FormulaMap,
    element_mapping: &mut FormulaMap,
) -> (r: Result<(), DeductionError>)
    ensures
        r is Ok <==> infer_stmt(statment@, rule@, old(formula_mapping)@, old(element_mapping)@)
            is Some,
        r is Ok ==> ({
            let p = infer_stmt(
                statment@,
                rule@,
                old(formula_mapping)@,
                old(element_mapping)@,
            ).unwrap();
            final(formula_mapping)@ == p.0 && final(element_mapping)@ == p.1
        }),
        r matches Err(e) ==> (e == DeductionError::InferenceFailure || e
            == DeductionError::BindingConflict || e == DeductionError::RuleNotApplicable),
{
    infer_mapping_formula(&statment.formula, &rule.formula, formula_mapping, element_mapping)?;

    match &rule.lhs {
        Some(lhs_rule) => {
            match formula_mapping.get(lhs_rule) {
                Some(mapped) => {
                    let mapped = mapped.duplicate();
                    if !crate::statement::contains_formula(&statment.lhs, &mapped) {
                        return Err(DeductionError::InferenceFailure);
                    }
                    Ok(())
                },
                None => Ok(()),
            }
        },
        None => Ok(()),
    }
}

// ---------------------------------------------------------------------------
// Derivation-tree nodes
// ---------------------------------------------------------------------------

/// One node of a derivation tree: a judgment, the rule claimed to derive it,
/// and the ids of the premise nodes.
#[derive(Debug)]
pub struct Node {
    pub name: u64,
    pub statement: Statement,
    pub rule: Rules,
    pub premisses: Vec<u64>,
}

/// Ghost mirror of `Node`.
#[verifier::ext_equal]
pub struct NodeView {
    pub name: u64,
    pub statement: StatementView,
    pub rule: Rules,
    pub premisses: Seq<u64>,
}

impl View for Node {
    type V = NodeView;

    open spec fn view(&self) -> NodeView {
        NodeView {
            name: self.name,
            statement: self.statement@,
            rule: self.rule,
            premisses: self.premisses@,
        }
    }
}

/// The first node carrying the given id, if any.
pub open spec fn find_node(nodes: Seq<NodeView>, id: u64) -> Option<NodeView>
    decreases nodes.len(),
{
    if nodes.len() == 0 {
        None
    } else if nodes[0].name == id {
        Some(nodes[0])
    } else {
        find_node(nodes.drop_first(), id)
    }
}

/// Whether some node carries the given id.
pub open spec fn node_name_present(nodes: Seq<NodeView>, id: u64) -> bool {
    exists|j: int| 0 <= j < nodes.len() && nodes[j].name == id
}

proof fn lemma_find_node_present(nodes: Seq<NodeView>, id: u64)
    ensures
        (find_node(nodes, id) is Some) <==> node_name_present(nodes, id),
    decreases nodes.len(),
{
    if nodes.len() == 0 {
    } else if nodes[0].name == id {
        assert(node_name_present(nodes, id));
    } else {
        lemma_find_node_present(nodes.drop_first(), id);
        if node_name_present(nodes, id) {
            let j = choose|j: int| 0 <= j < nodes.len() && nodes[j].name == id;
            assert(nodes.drop_first()[j - 1] == nodes[j]);
            assert(node_name_present(nodes.drop_first(), id));
        }
        if node_name_present(nodes.drop_first(), id) {
            let j = choose|j: int|
                0 <= j < nodes.drop_first().len() && nodes.drop_first()[j].name == id;
            assert(nodes[j + 1] == nodes.drop_first()[j]);
            assert(node_name_present(nodes, id));
        }
    }
}

/// The first node of the list carrying the given id.
#[verifier::loop_isolation(false)]
fn find_node_ref<'a>(nodes: &'a Vec<Node>, id: u64) -> (r: Option<&'a Node>)
    ensures
        match r {
            Some(n) => find_node(nodes@.map_values(|x: Node| x@), id) == Some(n@),
            None => find_node(nodes@.map_values(|x: Node| x@), id) is None,
        },
{
    let ghost nv = nodes@.map_values(|x: Node| x@);
    let mut i: usize = 0;
    proof {
        assert(nv.skip(0) =~= nv);
    }
    while i < nodes.len()
        invariant
            i <= nodes.len(),
            find_node(nv, id) == find_node(nv.skip(i as int), id),
        decreases nodes.len() - i,
    {
        proof {
            assert(nv.skip(i as int)[0] == nv[i as int]);
            assert(nv[i as int] == nodes@[i as int]@);
            assert(nv.skip(i as int).drop_first() =~= nv.skip(i as int + 1));
        }
        if nodes[i].name == id {
            return Some(&nodes[i]);
        }
        i += 1;
    }
    proof {
        assert(nv.skip(nodes@.len() as int) =~= Seq::<NodeView>::empty());
    }
    None
}

/// The judgments of the nodes the given ids refer to, in order; `None` when
/// some id is absent from the node set.
pub open spec fn premise_statements(nodes: Seq<NodeView>, ids: Seq<u64>) -> Option<
    Seq<StatementView>,
>
    decreases ids.len(),
{
    if ids.len() == 0 {
        Some(Seq::empty())
    } else {
        match premise_statements(nodes, ids.drop_last()) {
            None => None,
            Some(s) => match find_node(nodes, ids.last()) {
                None => None,
                Some(n) => Some(s.push(n.statement)),
            },
        }
    }
}

proof fn lemma_premise_statements_extend(nodes: Seq<NodeView>, ids: Seq<u64>, i: int)
    requires
        0 <= i <= ids.len(),
        premise_statements(nodes, ids.take(i)) is None,
    ensures
        premise_statements(nodes, ids) is None,
    decreases ids.len() - i,
{
    if i < ids.len() {
        assert(ids.take(i + 1).drop_last() =~= ids.take(i));
        assert(premise_statements(nodes, ids.take(i + 1)) is None);
        lemma_premise_statements_extend(nodes, ids, i + 1);
    } else {
        assert(ids.take(i) =~= ids);
    }
}

// ---------------------------------------------------------------------------
// The bounded inference fixpoint
// ---------------------------------------------------------------------------

pub open spec fn min_len(a: int, b: int) -> int {
    if a <= b {
        a
    } else {
        b
    }
}

/// Inference over the first `n` premise judgments, each against its premise
/// schema, threading the binding tables.
pub open spec fn infer_premises(
    prems: Seq<StatementView>,
    rps: Seq<RuleStatementView>,
    fm: Map<RuleIdView, FormulaView>,
    em: Map<RuleIdView, FormulaView>,
    n: int,
) -> Option<(Map<RuleIdView, FormulaView>, Map<RuleIdView, FormulaView>)>
    decreases n,
{
    if n <= 0 {
        Some((fm, em))
    } else {
        match infer_premises(prems, rps, fm, em, n - 1) {
            None => None,
            Some(p) => infer_stmt(prems[n - 1], rps[n - 1], p.0, p.1),
        }
    }
}

proof fn lemma_infer_premises_none(
    prems: Seq<StatementView>,
    rps: Seq<RuleStatementView>,
    fm: Map<RuleIdView, FormulaView>,
    em: Map<RuleIdView, FormulaView>,
    i: int,
    n: int,
)
    requires
        0 <= i <= n,
        infer_premises(prems, rps, fm, em, i) is None,
    ensures
        infer_premises(prems, rps, fm, em, n) is None,
    decreases n - i,
{
    if i < n {
        lemma_infer_premises_none(prems, rps, fm, em, i + 1, n);
    }
}

/// One propagation round: inference from the conclusion, then from each
/// premise in schema order (as far as both lists reach).
pub open spec fn infer_round(
    stmt: StatementView,
    prems: Seq<StatementView>,
    rule: DerivationRuleView,
    fm: Map<RuleIdView, FormulaView>,
    em: Map<RuleIdView, FormulaView>,
) -> Option<(Map<RuleIdView, FormulaView>, Map<RuleIdView, FormulaView>)> {
    match infer_stmt(stmt, rule.conclusion, fm, em) {
        None => None,
        Some(p) => infer_premises(
            prems,
            rule.premises,
            p.0,
            p.1,
            min_len(prems.len() as int, rule.premises.len() as int),
        ),
    }
}

/// Whether the bound placeholders are exactly the rule's placeholders.
pub open spec fn covered(
    rule: DerivationRuleView,
    fm: Map<RuleIdView, FormulaView>,
    em: Map<RuleIdView, FormulaView>,
) -> bool {
    &&& forall|v: RuleIdView| #[trigger]
        rule_identifiers(rule).contains(v) ==> fm.contains_key(v) || em.contains_key(v)
    &&& fm.dom().subset_of(rule_identifiers(rule))
    &&& em.dom().subset_of(rule_identifiers(rule))
}

/// Up to `k` propagation rounds, stopping early once the bound set covers the
/// rule's placeholders.
pub open spec fn infer_rounds(
    stmt: StatementView,
    prems: Seq<StatementView>,
    rule: DerivationRuleView,
    fm: Map<RuleIdView, FormulaView>,
    em: Map<RuleIdView, FormulaView>,
    k: int,
) -> Option<(Map<RuleIdView, FormulaView>, Map<RuleIdView, FormulaView>)>
    decreases k,
{
    if k <= 0 {
        Some((fm, em))
    } else {
        match infer_round(stmt, prems, rule, fm, em) {
            None => None,
            Some(p) => if covered(rule, p.0, p.1) || k <= 1 {
                Some(p)
            } else {
                infer_rounds(stmt, prems, rule, p.0, p.1, k - 1)
            },
        }
    }
}

/// The outcome of the bounded fixpoint on empty tables: the binding tables,
/// or nothing when a round fails or five rounds do not reach coverage.
pub open spec fn inference_result(
    stmt: StatementView,
    prems: Seq<StatementView>,
    rule: DerivationRuleView,
) -> Option<(Map<RuleIdView, FormulaView>, Map<RuleIdView, FormulaView>)> {
    match infer_rounds(stmt, prems, rule, Map::empty(), Map::empty(), 5) {
        None => None,
        Some(p) => if covered(rule, p.0, p.1) {
            Some(p)
        } else {
            None
        },
    }
}

/// Whether the bound placeholders are exactly the rule's placeholders.
fn coverage_reached(
    ids: &RuleIdSet,
    rule: &DerivationRule,
    fm: &FormulaMap,
    em: &FormulaMap,
) -> (r: bool)
    requires
        ids@ == rule_identifiers(rule@),
    ensures
        r == covered(rule@, fm@, em@),
{
    ids.all_bound(fm, em) && fm.keys_within(ids) && em.keys_within(ids)
}

/// Runs mapping inference for one rule instantiation: alternating rounds over
/// the conclusion judgment and the premise judgments, at most five, stopping
/// early once every placeholder of the rule is bound. Reports an inference
/// failure when five rounds do not reach full coverage.
#[verifier::loop_isolation(false)]
pub fn infer_mapping_node(
    statement: &Statement,
    premisses: &Vec<Statement>,
    rule: &DerivationRule,
) -> (r: Result<(FormulaMap, FormulaMap), DeductionError>)
    ensures
        ({
            let pv = premisses@.map_values(|s: Statement| s@);
            &&& (r is Ok <==> inference_result(statement@, pv, rule@) is Some)
            &&& (r matches Ok(p) ==> {
                let q = inference_result(statement@, pv, rule@).unwrap();
                p.0@ == q.0 && p.1@ == q.1
            })
            &&& (r matches Err(e) ==> (e == DeductionError::InferenceFailure || e
                == DeductionError::BindingConflict || e == DeductionError::RuleNotApplicable))
        }),
{
    let ghost sv = statement@;
    let ghost pv = premisses@.map_values(|s: Statement| s@);
    let ghost rv = rule@;
    let identifiers = rule.identifiers();
    let mut formula_mapping = FormulaMap::new();
    let mut element_mapping = FormulaMap::new();
    let count = if premisses.len() < rule.premises.len() {
        premisses.len()
    } else {
        rule.premises.len()
    };
    proof {
        assert(count as int == min_len(pv.len() as int, rv.premises.len() as int));
    }
    let mut round: usize = 0;
    let mut done = false;
    while round < 5 && !done
        invariant
            round <= 5,
            !done && round < 5 ==> infer_rounds(sv, pv, rv, Map::empty(), Map::empty(), 5)
                == infer_rounds(sv, pv, rv, formula_mapping@, element_mapping@, 5 - round),
            done ==> infer_rounds(sv, pv, rv, Map::empty(), Map::empty(), 5) == Some(
                (formula_mapping@, element_mapping@),
            ) && covered(rv, formula_mapping@, element_mapping@),
            !done && round == 5 ==> infer_rounds(sv, pv, rv, Map::empty(), Map::empty(), 5)
                == Some((formula_mapping@, element_mapping@)) && !covered(
                rv,
                formula_mapping@,
                element_mapping@,
            ),
        decreases 5 - round,
    {
        infer_mapping_stmt(
            statement,
            &rule.conclusion,
            &mut formula_mapping,
            &mut element_mapping,
        )?;

        let ghost f1 = formula_mapping@;
        let ghost e1 = element_mapping@;
        let mut i: usize = 0;
        while i < count
            invariant
                i <= count,
                infer_premises(pv, rv.premises, f1, e1, i as int) == Some(
                    (formula_mapping@, element_mapping@),
                ),
            decreases count - i,
        {
            proof {
                assert(pv[i as int] == premisses@[i as int]@);
                assert(rv.premises[i as int] == rule.premises@[i as int]@);
            }
            let step = infer_mapping_stmt(
                &premisses[i],
                &rule.premises[i],
                &mut formula_mapping,
                &mut element_mapping,
            );
            match step {
                Ok(()) => {},
                Err(e) => {
                    proof {
                        lemma_infer_premises_none(pv, rv.premises, f1, e1, i as int + 1, count as int);
                    }
                    return Err(e);
                },
            }
            i += 1;
        }

        if coverage_reached(&identifiers, rule, &formula_mapping, &element_mapping) {
            done = true;
        }
        round += 1;
    }
    if done {
        Ok((formula_mapping, element_mapping))
    } else {
        Err(DeductionError::InferenceFailure)
    }
}

impl Node {
    /// Recovers the binding tables for this node's rule from its own judgment
    /// and its premise nodes' judgments.
    #[verifier::loop_isolation(false)]
    pub fn infer_mapping(&self, all_nodes: &Vec<Node>) -> (r: Result<
        (FormulaMap, FormulaMap),
        DeductionError,
    >)
        ensures
            ({
                let nv = all_nodes@.map_values(|x: Node| x@);
                &&& (r is Ok <==> (premise_statements(nv, self@.premisses) is Some
                    && inference_result(
                    self@.statement,
                    premise_statements(nv, self@.premisses).unwrap(),
                    crate::catalogue::rule_view(self.rule),
                ) is Some))
                &&& (r matches Ok(p) ==> {
                    let q = inference_result(
                        self@.statement,
                        premise_statements(nv, self@.premisses).unwrap(),
                        crate::catalogue::rule_view(self.rule),
                    ).unwrap();
                    p.0@ == q.0 && p.1@ == q.1
                })
                &&& (premise_statements(nv, self@.premisses) is None ==> r == Err::<
                    (FormulaMap, FormulaMap),
                    DeductionError,
                >(DeductionError::MissingPremise))
                &&& (r matches Err(e) ==> (e == DeductionError::MissingPremise || e
                    == DeductionError::InferenceFailure || e == DeductionError::BindingConflict
                    || e == DeductionError::RuleNotApplicable))
            }),
    {
        let ghost nv = all_nodes@.map_values(|x: Node| x@);
        let applied_rule = self.rule.get_rule();
        let mut premise_stmts: Vec<Statement> = Vec::new();
        let mut i: usize = 0;
        proof {
            assert(self@.premisses.take(0) =~= Seq::<u64>::empty());
        }
        while i < self.premisses.len()
            invariant
                i <= self.premisses.len(),
                premise_statements(nv, self@.premisses.take(i as int)) == Some(
                    premise_stmts@.map_values(|s: Statement| s@),
                ),
            decreases self.premisses.len() - i,
        {
            proof {
                assert(self@.premisses.take(i as int + 1).drop_last() =~= self@.premisses.take(
                    i as int,
                ));
                assert(self@.premisses.take(i as int + 1).last() == self@.premisses[i as int]);
            }
            match find_node_ref(all_nodes, self.premisses[i]) {
                Some(n) => {
                    premise_stmts.push(n.statement.duplicate());
                    proof {
                        assert(premise_stmts@.map_values(|s: Statement| s@)
                            =~= premise_stmts@.drop_last().map_values(|s: Statement| s@).push(
                            premise_stmts@.last()@,
                        ));
                    }
                },
                None => {
                    proof {
                        lemma_premise_statements_extend(nv, self@.premisses, i as int + 1);
                    }
                    return Err(DeductionError::MissingPremise);
                },
            }
            i += 1;
        }
        proof {
            assert(self@.premisses.take(self.premisses@.len() as int) =~= self@.premisses);
        }
        infer_mapping_node(&self.statement, &premise_stmts, &applied_rule)
    }
}

// ---------------------------------------------------------------------------
// Tree validation
// ---------------------------------------------------------------------------

/// The ids already on the path are distinct and all name nodes of the set.
pub open spec fn visited_ok(visited: Seq<u64>, nodes: Seq<NodeView>) -> bool {
    &&& visited.no_duplicates()
    &&& forall|i: int| 0 <= i < visited.len() ==> node_name_present(nodes, #[trigger] visited[i])
}

proof fn lemma_visited_bound(visited: Seq<u64>, nodes: Seq<NodeView>)
    requires
        visited_ok(visited, nodes),
    ensures
        visited.len() <= nodes.len(),
{
    broadcast use vstd::seq_lib::seq_to_set_is_finite;

    let names = nodes.map_values(|n: NodeView| n.name);
    visited.unique_seq_to_set();
    names.lemma_cardinality_of_set();
    assert forall|x: u64| visited.to_set().contains(x) implies names.to_set().contains(x) by {
        let i = choose|i: int| 0 <= i < visited.len() && visited[i] == x;
        let j = choose|j: int| 0 <= j < nodes.len() && nodes[j].name == x;
        assert(names[j] == x);
        assert(names.contains(x));
    }
    vstd::set_lib::lemma_len_subset(visited.to_set(), names.to_set());
}

/// One node checks out: its premises are present, mapping inference covers
/// the rule's placeholders, every inferred element binding is a bare element
/// variable, and the rule's side conditions hold.
pub open spec fn node_check_ok(node: NodeView, nodes: Seq<NodeView>) -> bool {
    &&& premise_statements(nodes, node.premisses) is Some
    &&& inference_result(
        node.statement,
        premise_statements(nodes, node.premisses).unwrap(),
        crate::catalogue::rule_view(node.rule),
    ) is Some
    &&& ({
        let p = inference_result(
            node.statement,
            premise_statements(nodes, node.premisses).unwrap(),
            crate::catalogue::rule_view(node.rule),
        ).unwrap();
        &&& crate::mapping::substitution_ok(p.1)
        &&& crate::statement::can_apply_ok(
            node.statement,
            crate::catalogue::rule_view(node.rule),
            crate::mapping::substitution_view(p.1),
        )
    })
}

/// The whole derivation rooted at `root` checks out: the root is present and
/// not revisited, it checks out itself, and so does every subtree under it.
pub open spec fn tree_ok(root: u64, nodes: Seq<NodeView>, visited: Seq<u64>) -> bool
    decreases nodes.len() - visited.len()
        when visited_ok(visited, nodes)
        via tree_ok_decreases
{
    if visited.contains(root) {
        false
    } else {
        match find_node(nodes, root) {
            None => false,
            Some(node) => node_check_ok(node, nodes) && (forall|i: int|
                0 <= i < node.premisses.len() ==> tree_ok(
                    #[trigger] node.premisses[i],
                    nodes,
                    visited.push(root),
                )),
        }
    }
}

#[via_fn]
proof fn tree_ok_decreases(root: u64, nodes: Seq<NodeView>, visited: Seq<u64>) {
    if visited_ok(visited, nodes) && !visited.contains(root) && find_node(nodes, root) is Some {
        lemma_find_node_present(nodes, root);
        assert(visited.push(root).no_duplicates());
        assert forall|i: int|
            0 <= i < visited.push(root).len() implies node_name_present(
            nodes,
            #[trigger] visited.push(root)[i],
        ) by {
            if i < visited.len() {
                assert(visited.push(root)[i] == visited[i]);
            } else {
                assert(visited.push(root)[i] == root);
            }
        }
        lemma_visited_bound(visited.push(root), nodes);
    }
}

/// Whether the id list contains `id`.
#[verifier::loop_isolation(false)]
fn contains_id(ids: &Vec<u64>, id: u64) -> (r: bool)
    ensures
        r == ids@.contains(id),
{
    let mut i: usize = 0;
    while i < ids.len()
        invariant
            i <= ids.len(),
            forall|j: int| 0 <= j < i ==> ids@[j] != id,
        decreases ids.len() - i,
    {
        if ids[i] == id {
            return true;
        }
        i += 1;
    }
    proof {
        if ids@.contains(id) {
            let j = choose|j: int| 0 <= j < ids@.len() && ids@[j] == id;
            assert(false);
        }
    }
    false
}

/// A copy of an id list.
fn duplicate_ids(ids: &Vec<u64>) -> (r: Vec<u64>)
    ensures
        r@ == ids@,
{
    let mut r: Vec<u64> = Vec::new();
    let mut i: usize = 0;
    while i < ids.len()
        invariant
            i <= ids.len(),
            r@ =~= ids@.take(i as int),
        decreases ids.len() - i,
    {
        r.push(ids[i]);
        i += 1;
    }
    proof {
        assert(ids@.take(ids@.len() as int) =~= ids@);
    }
    r
}

/// Validates the subtree rooted at `root`, with `visited` holding the ids
/// already on the path from the tree's root (a revisit is a cycle).
#[verifier::loop_isolation(false)]
fn check_tree_visited(root: u64, all_nodes: &Vec<Node>, visited: &Vec<u64>) -> (r: Result<
    (),
    DeductionError,
>)
    requires
        visited_ok(visited@, all_nodes@.map_values(|x: Node| x@)),
    ensures
        r is Ok <==> tree_ok(root, all_nodes@.map_values(|x: Node| x@), visited@),
        !visited@.contains(root) && find_node(all_nodes@.map_values(|x: Node| x@), root) is None
            ==> r == Err::<(), DeductionError>(DeductionError::MissingPremise),
    decreases all_nodes@.len() - visited@.len(),
{
    let ghost nv = all_nodes@.map_values(|x: Node| x@);
    if contains_id(visited, root) {
        return Err(DeductionError::CyclicTree);
    }
    let node = match find_node_ref(all_nodes, root) {
        Some(n) => n,
        None => {
            return Err(DeductionError::MissingPremise);
        },
    };
    let pair = node.infer_mapping(all_nodes)?;
    let substitution = pair.1.to_substitution()?;
    let rule = node.rule.get_rule();
    node.statement.can_apply(&rule, &substitution)?;

    let mut on_path = duplicate_ids(visited);
    on_path.push(root);
    proof {
        lemma_find_node_present(nv, root);
        assert forall|i: int|
            0 <= i < on_path@.len() implies node_name_present(nv, #[trigger] on_path@[i]) by {
            if i < visited@.len() {
                assert(on_path@[i] == visited@[i]);
            } else {
                assert(on_path@[i] == root);
            }
        }
        assert(visited_ok(on_path@, nv));
        lemma_visited_bound(on_path@, nv);
    }
    let mut i: usize = 0;
    while i < node.premisses.len()
        invariant
            i <= node.premisses.len(),
            forall|j: int|
                0 <= j < i ==> tree_ok(#[trigger] node@.premisses[j], nv, visited@.push(root)),
        decreases node.premisses.len() - i,
    {
        let step = check_tree_visited(node.premisses[i], all_nodes, &on_path);
        match step {
            Ok(()) => {},
            Err(e) => {
                return Err(e);
            },
        }
        i += 1;
    }
    Ok(())
}

/// Validates a whole derivation tree: looks up the root node, infers the rule
/// bindings from the node and its premises, checks the rule's side conditions,
/// and recurses into every premise. A premise id absent from the node set is a
/// missing premise; a node reached twice along a path is a cycle.
pub fn check_tree(root: u64, all_nodes: &Vec<Node>) -> (r: Result<(), DeductionError>)
    ensures
        r is Ok <==> tree_ok(root, all_nodes@.map_values(|x: Node| x@), Seq::empty()),
        find_node(all_nodes@.map_values(|x: Node| x@), root) is None ==> r == Err::<
            (),
            DeductionError,
        >(DeductionError::MissingPremise),
{
    let visited: Vec<u64> = Vec::new();
    let ghost nv = all_nodes@.map_values(|x: Node| x@);
    proof {
        assert(visited_ok(visited@, nv));
    }
    check_tree_visited(root, all_nodes, &visited)
}

} // verus!
