//! Binding tables for rule instantiation: placeholders to formulas
//! (`FormulaMap`) and placeholders to variable names (`ElementMap`), with the
//! single-assignment insertion used throughout inference, and the forward
//! resolution of a rule schema to a concrete formula (`apply_mapping`).

use vstd::prelude::*;

use crate::errors::DeductionError;
use crate::formula::{
    subst_formula, subst_ok, wf_formula, Formula, FormulaView, Identifier, IdentView,
};
use crate::rule::{RuleFormula, RuleFormulaView, RuleIdView, RuleIdentifier};
use crate::varset::VarSet;

verus! {

// ---------------------------------------------------------------------------
// FormulaMap
// ---------------------------------------------------------------------------

/// The map that a sequence of (placeholder, formula) entries denotes; a later
/// entry for the same placeholder wins.
pub open spec fn formula_entries_map(s: Seq<(RuleIdentifier, Formula)>) -> Map<
    RuleIdView,
    FormulaView,
>
    decreases s.len(),
{
    if s.len() == 0 {
        Map::empty()
    } else {
        formula_entries_map(s.drop_last()).insert(s.last().0@, s.last().1@)
    }
}

/// A binding table from rule placeholders to concrete formulas, abstracted as
/// a `Map<RuleIdView, FormulaView>`.
#[derive(Debug)]
pub struct FormulaMap {
    entries: Vec<(RuleIdentifier, Formula)>,
}

impl View for FormulaMap {
    type V = Map<RuleIdView, FormulaView>;

    closed spec fn view(&self) -> Map<RuleIdView, FormulaView> {
        formula_entries_map(self.entries@)
    }
}

/// Recursive lookup mirroring `formula_entries_map`.
pub open spec fn formula_entries_lookup(s: Seq<(RuleIdentifier, Formula)>, k: RuleIdView) -> Option<
    FormulaView,
>
    decreases s.len(),
{
    if s.len() == 0 {
        None
    } else if s.last().0@ == k {
        Some(s.last().1@)
    } else {
        formula_entries_lookup(s.drop_last(), k)
    }
}

proof fn lemma_formula_lookup(s: Seq<(RuleIdentifier, Formula)>, k: RuleIdView)
    ensures
        match formula_entries_lookup(s, k) {
            Some(v) => formula_entries_map(s).contains_key(k) && formula_entries_map(s)[k] == v,
            None => !formula_entries_map(s).contains_key(k),
        },
    decreases s.len(),
{
    if s.len() > 0 {
        lemma_formula_lookup(s.drop_last(), k);
    }
}

proof fn lemma_formula_map_dom(s: Seq<(RuleIdentifier, Formula)>)
    ensures
        forall|k: RuleIdView| #[trigger]
            formula_entries_map(s).contains_key(k) <==> exists|i: int|
                0 <= i < s.len() && s[i].0@ == k,
    decreases s.len(),
{
    if s.len() > 0 {
        let s0 = s.drop_last();
        lemma_formula_map_dom(s0);
        assert forall|k: RuleIdView| #[trigger]
            formula_entries_map(s).contains_key(k) implies exists|i: int|
            0 <= i < s.len() && s[i].0@ == k by {
            if k == s.last().0@ {
                assert(s[s.len() - 1].0@ == k);
            } else {
                assert(formula_entries_map(s0).contains_key(k));
                let i = choose|i: int| 0 <= i < s0.len() && s0[i].0@ == k;
                assert(s0[i] == s[i]);
                assert(s[i].0@ == k);
            }
        }
        assert forall|k: RuleIdView|
            exists|i: int| 0 <= i < s.len() && s[i].0@ == k implies #[trigger]
            formula_entries_map(s).contains_key(k) by {
            let i = choose|i: int| 0 <= i < s.len() && s[i].0@ == k;
            if i < s.len() - 1 {
                assert(s0[i] == s[i]);
                assert(s0[i].0@ == k);
                assert(formula_entries_map(s0).contains_key(k));
            } else {
                assert(k == s.last().0@);
            }
        }
    }
}

impl FormulaMap {
    pub fn new() -> (r: FormulaMap)
        ensures
            r@ == Map::<RuleIdView, FormulaView>::empty(),
    {
        FormulaMap { entries: Vec::new() }
    }

    /// Binds `k` to `f`, replacing any earlier binding.
    pub fn set(&mut self, k: RuleIdentifier, f: Formula)
        ensures
            final(self)@ == old(self)@.insert(k@, f@),
    {
        let ghost before = self.entries@;
        self.entries.push((k, f));
        proof {
            assert(self.entries@.drop_last() =~= before);
        }
    }

    /// The formula bound to `k`, if any.
    #[verifier::loop_isolation(false)]
    pub fn get(&self, k: &RuleIdentifier) -> (r: Option<&Formula>)
        ensures
            match r {
                Some(f) => self@.contains_key(k@) && f@ == self@[k@],
                None => !self@.contains_key(k@),
            },
    {
        let mut i: usize = self.entries.len();
        proof {
            assert(self.entries@.take(i as int) =~= self.entries@);
        }
        while i > 0
            invariant
                i <= self.entries.len(),
                formula_entries_lookup(self.entries@, k@) == formula_entries_lookup(
                    self.entries@.take(i as int),
                    k@,
                ),
            decreases i,
        {
            i -= 1;
            proof {
                assert(self.entries@.take(i as int + 1).drop_last() =~= self.entries@.take(
                    i as int,
                ));
                assert(self.entries@.take(i as int + 1).last() == self.entries@[i as int]);
            }
            if self.entries[i].0.eq_rid(k) {
                proof {
                    lemma_formula_lookup(self.entries@, k@);
                }
                return Some(&self.entries[i].1);
            }
        }
        proof {
            lemma_formula_lookup(self.entries@, k@);
        }
        None
    }

    /// Whether `k` is bound.
    pub fn contains_key(&self, k: &RuleIdentifier) -> (r: bool)
        ensures
            r == self@.contains_key(k@),
    {
        self.get(k).is_some()
    }

    /// Whether every bound placeholder belongs to `ids`.
    #[verifier::loop_isolation(false)]
    pub fn keys_within(&self, ids: &crate::rule::RuleIdSet) -> (r: bool)
        ensures
            r == self@.dom().subset_of(ids@),
    {
        proof {
            lemma_formula_map_dom(self.entries@);
        }
        let mut i: usize = 0;
        while i < self.entries.len()
            invariant
                i <= self.entries.len(),
                forall|j: int| 0 <= j < i ==> ids@.contains(self.entries@[j].0@),
            decreases self.entries.len() - i,
        {
            if !ids.contains(&self.entries[i].0) {
                return false;
            }
            i += 1;
        }
        true
    }
}

/// Single-assignment insertion: what `add_mapping` leaves behind, or `None`
/// on a conflicting rebinding.
pub open spec fn added_binding(
    m: Map<RuleIdView, FormulaView>,
    k: RuleIdView,
    v: FormulaView,
) -> Option<Map<RuleIdView, FormulaView>> {
    if m.contains_key(k) {
        if m[k] == v {
            Some(m)
        } else {
            None
        }
    } else {
        Some(m.insert(k, v))
    }
}

/// Binds `rule` to `formula` unless it is already bound: a rebinding to an
/// equal formula is a no-op, a rebinding to a different formula is a conflict
/// and leaves the table unchanged.
pub fn add_mapping(
    mapping: &mut FormulaMap,
    rule: &RuleIdentifier,
    formula: &Formula,
) -> (r: Result<(), DeductionError>)
    ensures
        r is Ok <==> added_binding(old(mapping)@, rule@, formula@) is Some,
        r is Ok ==> final(mapping)@ == added_binding(old(mapping)@, rule@, formula@).unwrap(),
        r matches Err(e) ==> e == DeductionError::BindingConflict && final(mapping)@ == old(
            mapping,
        )@,
{
    match mapping.get(rule) {
        Some(existing) => {
            if existing.eq_formula(formula) {
                Ok(())
            } else {
                Err(DeductionError::BindingConflict)
            }
        },
        None => {
            mapping.set(rule.duplicate(), formula.duplicate());
            proof {
                assert(final(mapping)@ =~= added_binding(
                    old(mapping)@,
                    rule@,
                    formula@,
                ).unwrap());
            }
            Ok(())
        },
    }
}

/// Inserting in front of a sequence of entries changes the denoted map only
/// where the later entries are silent.
proof fn lemma_formula_map_cons(e: (RuleIdentifier, Formula), s: Seq<(RuleIdentifier, Formula)>)
    ensures
        formula_entries_map(seq![e] + s) == (if formula_entries_map(s).contains_key(e.0@) {
            formula_entries_map(s)
        } else {
            formula_entries_map(s).insert(e.0@, e.1@)
        }),
    decreases s.len(),
{
    if s.len() == 0 {
        reveal_with_fuel(formula_entries_map, 2);
        assert((seq![e] + s).drop_last() =~= Seq::<(RuleIdentifier, Formula)>::empty());
        assert((seq![e] + s).last() == e);
        assert(formula_entries_map(seq![e] + s) =~= formula_entries_map(s).insert(e.0@, e.1@));
    } else {
        let s0 = s.drop_last();
        let l = s.last();
        lemma_formula_map_cons(e, s0);
        assert((seq![e] + s).drop_last() =~= seq![e] + s0);
        assert((seq![e] + s).last() == l);
        if formula_entries_map(s0).contains_key(e.0@) {
            assert(formula_entries_map(seq![e] + s) =~= formula_entries_map(s));
        } else if l.0@ == e.0@ {
            assert(formula_entries_map(seq![e] + s) =~= formula_entries_map(s));
        } else {
            assert(formula_entries_map(seq![e] + s) =~= formula_entries_map(s).insert(
                e.0@,
                e.1@,
            ));
        }
    }
}

/// The bindings of a suffix of entries survive into the whole table.
proof fn lemma_formula_map_concat(
    t: Seq<(RuleIdentifier, Formula)>,
    u: Seq<(RuleIdentifier, Formula)>,
)
    ensures
        forall|k: RuleIdView| #[trigger]
            formula_entries_map(u).contains_key(k) ==> formula_entries_map(t + u).contains_key(k)
                && formula_entries_map(t + u)[k] == formula_entries_map(u)[k],
    decreases u.len(),
{
    if u.len() > 0 {
        let u0 = u.drop_last();
        let l = u.last();
        lemma_formula_map_concat(t, u0);
        assert((t + u).drop_last() =~= t + u0);
        assert((t + u).last() == l);
        assert forall|k: RuleIdView| #[trigger]
            formula_entries_map(u).contains_key(k) implies formula_entries_map(t + u).contains_key(
            k,
        ) && formula_entries_map(t + u)[k] == formula_entries_map(u)[k] by {
            if k != l.0@ {
                assert(formula_entries_map(u0).contains_key(k));
            }
        }
    }
}

/// Every binding of the table is a bare element variable.
pub open spec fn substitution_ok(em: Map<RuleIdView, FormulaView>) -> bool {
    forall|k: RuleIdView|
        em.contains_key(k) ==> #[trigger] em[k] matches FormulaView::Ident(IdentView::Element(_))
}

/// The name table a table of element formulas denotes.
pub open spec fn substitution_view(em: Map<RuleIdView, FormulaView>) -> Map<RuleIdView, Seq<char>> {
    Map::new(|k: RuleIdView| em.contains_key(k), |k: RuleIdView| em[k]->Ident_0->Element_0)
}

impl FormulaMap {
    /// Reads this table as plain variable-name substitutions: succeeds exactly
    /// when every binding is a bare element variable.
    #[verifier::loop_isolation(false)]
    pub fn to_substitution(&self) -> (r: Result<ElementMap, DeductionError>)
        ensures
            r is Ok <==> substitution_ok(self@),
            r matches Ok(s) ==> s@ == substitution_view(self@),
            r matches Err(e) ==> e == DeductionError::MalformedFormula,
    {
        let mut out = ElementMap::new();
        let mut i: usize = self.entries.len();
        proof {
            assert(self.entries@.skip(i as int) =~= Seq::<(RuleIdentifier, Formula)>::empty());
        }
        while i > 0
            invariant
                i <= self.entries.len(),
                forall|k: RuleIdView|
                    out@.contains_key(k) <==> #[trigger] formula_entries_map(
                        self.entries@.skip(i as int),
                    ).contains_key(k),
                forall|k: RuleIdView| #[trigger]
                    formula_entries_map(self.entries@.skip(i as int)).contains_key(k)
                        ==> formula_entries_map(self.entries@.skip(i as int))[k]
                        == FormulaView::Ident(IdentView::Element(out@[k])),
            decreases i,
        {
            i -= 1;
            let ghost suffix = self.entries@.skip(i as int + 1);
            proof {
                assert(self.entries@.skip(i as int) =~= seq![self.entries@[i as int]] + suffix);
                lemma_formula_map_cons(self.entries@[i as int], suffix);
            }
            let known = out.contains_key(&self.entries[i].0);
            if !known {
                match &self.entries[i].1 {
                    Formula::Ident(Identifier::Element(name)) => {
                        let k = self.entries[i].0.duplicate();
                        out.set(k, name.clone());
                    },
                    _ => {
                        proof {
                            let k = self.entries@[i as int].0@;
                            let cur = self.entries@.skip(i as int);
                            assert(formula_entries_map(cur).contains_key(k));
                            assert(formula_entries_map(cur)[k] == self.entries@[i as int].1@);
                            assert(self.entries@.take(i as int) + cur =~= self.entries@);
                            lemma_formula_map_concat(self.entries@.take(i as int), cur);
                            assert(formula_entries_map(self.entries@.take(i as int) + cur)
                                == self@);
                            assert(self@.contains_key(k));
                            assert(self@[k] == self.entries@[i as int].1@);
                        }
                        return Err(DeductionError::MalformedFormula);
                    },
                }
            }
        }
        proof {
            assert(self.entries@.skip(0) =~= self.entries@);
            assert(out@ =~= substitution_view(self@));
        }
        Ok(out)
    }
}

/// Single-assignment insertion that records the new value even when it
/// conflicts, as the inference engine's bookkeeping does: the caller abandons
/// the table on a conflict.
pub open spec fn checked_insert(
    m: Map<RuleIdView, FormulaView>,
    k: RuleIdView,
    v: FormulaView,
) -> Option<Map<RuleIdView, FormulaView>> {
    if m.contains_key(k) && m[k] != v {
        None
    } else {
        Some(m.insert(k, v))
    }
}

/// Binds `k` to `v`; reports a conflict when `k` was bound to a different
/// formula. The new value is recorded either way.
pub fn checked_set(m: &mut FormulaMap, k: &RuleIdentifier, v: Formula) -> (r: Result<
    (),
    DeductionError,
>)
    ensures
        final(m)@ == old(m)@.insert(k@, v@),
        r is Ok <==> checked_insert(old(m)@, k@, v@) is Some,
        r is Ok ==> final(m)@ == checked_insert(old(m)@, k@, v@).unwrap(),
        r matches Err(e) ==> e == DeductionError::BindingConflict,
{
    let conflict = match m.get(k) {
        Some(existing) => !existing.eq_formula(&v),
        None => false,
    };
    m.set(k.duplicate(), v);
    if conflict {
        Err(DeductionError::BindingConflict)
    } else {
        Ok(())
    }
}

// ---------------------------------------------------------------------------
// ElementMap
// ---------------------------------------------------------------------------

/// The map that a sequence of (placeholder, name) entries denotes.
pub open spec fn element_entries_map(s: Seq<(RuleIdentifier, String)>) -> Map<RuleIdView, Seq<char>>
    decreases s.len(),
{
    if s.len() == 0 {
        Map::empty()
    } else {
        element_entries_map(s.drop_last()).insert(s.last().0@, s.last().1@)
    }
}

/// A binding table from rule placeholders to concrete variable names,
/// abstracted as a `Map<RuleIdView, Seq<char>>`.
#[derive(Debug)]
pub struct ElementMap {
    entries: Vec<(RuleIdentifier, String)>,
}

impl View for ElementMap {
    type V = Map<RuleIdView, Seq<char>>;

    closed spec fn view(&self) -> Map<RuleIdView, Seq<char>> {
        element_entries_map(self.entries@)
    }
}

/// Recursive lookup mirroring `element_entries_map`.
pub open spec fn element_entries_lookup(s: Seq<(RuleIdentifier, String)>, k: RuleIdView) -> Option<
    Seq<char>,
>
    decreases s.len(),
{
    if s.len() == 0 {
        None
    } else if s.last().0@ == k {
        Some(s.last().1@)
    } else {
        element_entries_lookup(s.drop_last(), k)
    }
}

proof fn lemma_element_lookup(s: Seq<(RuleIdentifier, String)>, k: RuleIdView)
    ensures
        match element_entries_lookup(s, k) {
            Some(v) => element_entries_map(s).contains_key(k) && element_entries_map(s)[k] == v,
            None => !element_entries_map(s).contains_key(k),
        },
    decreases s.len(),
{
    if s.len() > 0 {
        lemma_element_lookup(s.drop_last(), k);
    }
}

impl ElementMap {
    pub fn new() -> (r: ElementMap)
        ensures
            r@ == Map::<RuleIdView, Seq<char>>::empty(),
    {
        ElementMap { entries: Vec::new() }
    }

    /// Binds `k` to the name `v`, replacing any earlier binding.
    pub fn set(&mut self, k: RuleIdentifier, v: String)
        ensures
            final(self)@ == old(self)@.insert(k@, v@),
    {
        let ghost before = self.entries@;
        self.entries.push((k, v));
        proof {
            assert(self.entries@.drop_last() =~= before);
        }
    }

    /// The name bound to `k`, if any.
    #[verifier::loop_isolation(false)]
    pub fn get(&self, k: &RuleIdentifier) -> (r: Option<&String>)
        ensures
            match r {
                Some(v) => self@.contains_key(k@) && v@ == self@[k@],
                None => !self@.contains_key(k@),
            },
    {
        let mut i: usize = self.entries.len();
        proof {
            assert(self.entries@.take(i as int) =~= self.entries@);
        }
        while i > 0
            invariant
                i <= self.entries.len(),
                element_entries_lookup(self.entries@, k@) == element_entries_lookup(
                    self.entries@.take(i as int),
                    k@,
                ),
            decreases i,
        {
            i -= 1;
            proof {
                assert(self.entries@.take(i as int + 1).drop_last() =~= self.entries@.take(
                    i as int,
                ));
                assert(self.entries@.take(i as int + 1).last() == self.entries@[i as int]);
            }
            if self.entries[i].0.eq_rid(k) {
                proof {
                    lemma_element_lookup(self.entries@, k@);
                }
                return Some(&self.entries[i].1);
            }
        }
        proof {
            lemma_element_lookup(self.entries@, k@);
        }
        None
    }

    /// Whether `k` is bound.
    pub fn contains_key(&self, k: &RuleIdentifier) -> (r: bool)
        ensures
            r == self@.contains_key(k@),
    {
        self.get(k).is_some()
    }
}

// ---------------------------------------------------------------------------
// Forward resolution
// ---------------------------------------------------------------------------

/// The formula bound to a placeholder.
pub fn get_formula(i: &RuleIdentifier, mapping: &FormulaMap) -> (r: Result<Formula, DeductionError>)
    ensures
        r is Ok <==> mapping@.contains_key(i@),
        r matches Ok(f) ==> f@ == mapping@[i@],
        r matches Err(e) ==> e == DeductionError::UnresolvedPlaceholder,
{
    match mapping.get(i) {
        Some(f) => Ok(f.duplicate()),
        None => Err(DeductionError::UnresolvedPlaceholder),
    }
}

/// Whether the schema `rf` resolves under the binding tables: every formula
/// placeholder it uses is bound, every quantifier and substitution name is
/// bound, and the substitution it asks for is well-formed and capture-free.
pub open spec fn apply_mapping_ok(
    rf: RuleFormulaView,
    fm: Map<RuleIdView, FormulaView>,
    em: Map<RuleIdView, Seq<char>>,
) -> bool
    decreases rf,
{
    match rf {
        RuleFormulaView::Ident(i) => fm.contains_key(i),
        RuleFormulaView::And { lhs, rhs } => fm.contains_key(lhs) && fm.contains_key(rhs),
        RuleFormulaView::Or { lhs, rhs } => fm.contains_key(lhs) && fm.contains_key(rhs),
        RuleFormulaView::Imp { lhs, rhs } => fm.contains_key(lhs) && fm.contains_key(rhs),
        RuleFormulaView::Not(i) => fm.contains_key(i),
        RuleFormulaView::False => true,
        RuleFormulaView::True => true,
        RuleFormulaView::Forall { identifier, formula } => apply_mapping_ok(*formula, fm, em)
            && em.contains_key(identifier),
        RuleFormulaView::Exists { identifier, formula } => apply_mapping_ok(*formula, fm, em)
            && em.contains_key(identifier),
        RuleFormulaView::Substitution { identifier, lhs, rhs } => fm.contains_key(identifier)
            && em.contains_key(lhs) && em.contains_key(rhs) && wf_formula(fm[identifier])
            && subst_ok(fm[identifier], em[lhs], em[rhs], Set::empty()),
    }
}

/// The concrete formula the schema `rf` resolves to under the binding tables.
pub open spec fn apply_mapping_val(
    rf: RuleFormulaView,
    fm: Map<RuleIdView, FormulaView>,
    em: Map<RuleIdView, Seq<char>>,
) -> FormulaView
    decreases rf,
{
    match rf {
        RuleFormulaView::Ident(i) => fm[i],
        RuleFormulaView::And { lhs, rhs } => FormulaView::And {
            lhs: Box::new(fm[lhs]),
            rhs: Box::new(fm[rhs]),
        },
        RuleFormulaView::Or { lhs, rhs } => FormulaView::Or {
            lhs: Box::new(fm[lhs]),
            rhs: Box::new(fm[rhs]),
        },
        RuleFormulaView::Imp { lhs, rhs } => FormulaView::Imp {
            lhs: Box::new(fm[lhs]),
            rhs: Box::new(fm[rhs]),
        },
        RuleFormulaView::Not(i) => FormulaView::Not(Box::new(fm[i])),
        RuleFormulaView::False => FormulaView::False,
        RuleFormulaView::True => FormulaView::True,
        RuleFormulaView::Forall { identifier, formula } => FormulaView::Forall {
            identifier: IdentView::Element(em[identifier]),
            formula: Box::new(apply_mapping_val(*formula, fm, em)),
        },
        RuleFormulaView::Exists { identifier, formula } => FormulaView::Exists {
            identifier: IdentView::Element(em[identifier]),
            formula: Box::new(apply_mapping_val(*formula, fm, em)),
        },
        RuleFormulaView::Substitution { identifier, lhs, rhs } => subst_formula(
            fm[identifier],
            em[lhs],
            em[rhs],
        ),
    }
}

impl RuleFormula {
    /// Resolves this schema to a concrete formula: placeholders through the
    /// formula table, quantifier variables through the name table, and a
    /// `Substitution` schema by capture-avoiding substitution on the bound
    /// formula.
    pub fn apply_mapping(&self, mapping: &FormulaMap, substitution: &ElementMap) -> (r: Result<
        Formula,
        DeductionError,
    >)
        ensures
            r is Ok <==> apply_mapping_ok(self@, mapping@, substitution@),
            r matches Ok(f) ==> f@ == apply_mapping_val(self@, mapping@, substitution@),
            r matches Err(e) ==> (e == DeductionError::UnresolvedPlaceholder || e
                == DeductionError::CaptureError || e == DeductionError::MalformedFormula),
        decreases self,
    {
        match self {
            RuleFormula::Ident(i) => get_formula(i, mapping),
            RuleFormula::And { lhs, rhs } => {
                let l = get_formula(lhs, mapping)?;
                let r = get_formula(rhs, mapping)?;
                Ok(Formula::And { lhs: Box::new(l), rhs: Box::new(r) })
            },
            RuleFormula::Or { lhs, rhs } => {
                let l = get_formula(lhs, mapping)?;
                let r = get_formula(rhs, mapping)?;
                Ok(Formula::Or { lhs: Box::new(l), rhs: Box::new(r) })
            },
            RuleFormula::Imp { lhs, rhs } => {
                let l = get_formula(lhs, mapping)?;
                let r = get_formula(rhs, mapping)?;
                Ok(Formula::Imp { lhs: Box::new(l), rhs: Box::new(r) })
            },
            RuleFormula::Not(i) => {
                let f = get_formula(i, mapping)?;
                Ok(Formula::Not(Box::new(f)))
            },
            RuleFormula::False => Ok(Formula::False),
            RuleFormula::True => Ok(Formula::True),
            RuleFormula::Forall { identifier, formula } => {
                let f = formula.apply_mapping(mapping, substitution)?;
                match substitution.get(identifier) {
                    Some(name) => Ok(Formula::Forall {
                        identifier: Identifier::Element(name.clone()),
                        formula: Box::new(f),
                    }),
                    None => Err(DeductionError::UnresolvedPlaceholder),
                }
            },
            RuleFormula::Exists { identifier, formula } => {
                let f = formula.apply_mapping(mapping, substitution)?;
                match substitution.get(identifier) {
                    Some(name) => Ok(Formula::Exists {
                        identifier: Identifier::Element(name.clone()),
                        formula: Box::new(f),
                    }),
                    None => Err(DeductionError::UnresolvedPlaceholder),
                }
            },
            RuleFormula::Substitution { identifier, lhs, rhs } => {
                let f = get_formula(identifier, mapping)?;
                let from = match substitution.get(lhs) {
                    Some(from) => from,
                    None => {
                        return Err(DeductionError::UnresolvedPlaceholder);
                    },
                };
                let to = match substitution.get(rhs) {
                    Some(to) => to,
                    None => {
                        return Err(DeductionError::UnresolvedPlaceholder);
                    },
                };
                let empty = VarSet::new();
                f.apply_substitution(from, to, &empty)
            },
        }
    }
}

/// Resolves a schema formula under the binding tables.
pub fn apply_mapping(
    formula: &RuleFormula,
    mapping: &FormulaMap,
    substitution: &ElementMap,
) -> (r: Result<Formula, DeductionError>)
    ensures
        r is Ok <==> apply_mapping_ok(formula@, mapping@, substitution@),
        r matches Ok(f) ==> f@ == apply_mapping_val(formula@, mapping@, substitution@),
        r matches Err(e) ==> (e == DeductionError::UnresolvedPlaceholder || e
            == DeductionError::CaptureError || e == DeductionError::MalformedFormula),
{
    formula.apply_mapping(mapping, substitution)
}

} // verus!
