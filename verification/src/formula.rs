//! The first-order-logic formula model: identifiers, the recursive `Formula`
//! tree, side conditions, and the structural operations on them — free
//! variables, capture-avoiding substitution, and capture analysis for opaque
//! placeholder atoms.
//!
//! Every operation is specified against a ghost mirror of the tree
//! (`FormulaView`) in which names are character sequences, so that contracts
//! speak about formula contents rather than heap values.

use vstd::prelude::*;

use crate::errors::DeductionError;
use crate::varset::VarSet;

verus! {

/// A name occurring in a formula: either a propositional atom (`Literal`) or
/// an individual first-order variable (`Element`).
#[derive(Debug)]
pub enum Identifier {
    Literal(String),
    Element(String),
}

/// The recursive formula tree. Quantifier binders and predicate arguments are
/// required to be `Element` identifiers; that invariant is checked by the
/// operations, never assumed.
#[derive(Debug)]
pub enum Formula {
    And { lhs: Box<Formula>, rhs: Box<Formula> },
    Or { lhs: Box<Formula>, rhs: Box<Formula> },
    Not(Box<Formula>),
    Ident(Identifier),
    Imp { lhs: Box<Formula>, rhs: Box<Formula> },
    True,
    False,
    Forall { identifier: Identifier, formula: Box<Formula> },
    Exists { identifier: Identifier, formula: Box<Formula> },
    Predicate { identifier: Identifier, identifiers: Vec<Identifier> },
}

/// A fact supplied alongside a judgment: the placeholder atom is known not to
/// contain the element free, although its internal structure is opaque.
#[derive(Debug)]
pub enum SideCondition {
    NotFree { placeholder: Identifier, element: Identifier },
}

// ---------------------------------------------------------------------------
// Ghost mirrors
// ---------------------------------------------------------------------------

/// Ghost mirror of `Identifier`: the name as a character sequence.
#[verifier::ext_equal]
pub enum IdentView {
    Literal(Seq<char>),
    Element(Seq<char>),
}

/// Ghost mirror of `Formula`.
#[verifier::ext_equal]
pub enum FormulaView {
    And { lhs: Box<FormulaView>, rhs: Box<FormulaView> },
    Or { lhs: Box<FormulaView>, rhs: Box<FormulaView> },
    Not(Box<FormulaView>),
    Ident(IdentView),
    Imp { lhs: Box<FormulaView>, rhs: Box<FormulaView> },
    True,
    False,
    Forall { identifier: IdentView, formula: Box<FormulaView> },
    Exists { identifier: IdentView, formula: Box<FormulaView> },
    Predicate { identifier: IdentView, identifiers: Seq<IdentView> },
}

/// Ghost mirror of `SideCondition`.
#[verifier::ext_equal]
pub enum SideConditionView {
    NotFree { placeholder: IdentView, element: IdentView },
}

impl View for Identifier {
    type V = IdentView;

    open spec fn view(&self) -> IdentView {
        match self {
            Identifier::Literal(s) => IdentView::Literal(s@),
            Identifier::Element(s) => IdentView::Element(s@),
        }
    }
}

impl Formula {
    pub open spec fn deep(self) -> FormulaView
        decreases self,
    {
        match self {
            Formula::And { lhs, rhs } => FormulaView::And {
                lhs: Box::new(lhs.deep()),
                rhs: Box::new(rhs.deep()),
            },
            Formula::Or { lhs, rhs } => FormulaView::Or {
                lhs: Box::new(lhs.deep()),
                rhs: Box::new(rhs.deep()),
            },
            Formula::Not(f) => FormulaView::Not(Box::new(f.deep())),
            Formula::Ident(i) => FormulaView::Ident(i@),
            Formula::Imp { lhs, rhs } => FormulaView::Imp {
                lhs: Box::new(lhs.deep()),
                rhs: Box::new(rhs.deep()),
            },
            Formula::True => FormulaView::True,
            Formula::False => FormulaView::False,
            Formula::Forall { identifier, formula } => FormulaView::Forall {
                identifier: identifier@,
                formula: Box::new(formula.deep()),
            },
            Formula::Exists { identifier, formula } => FormulaView::Exists {
                identifier: identifier@,
                formula: Box::new(formula.deep()),
            },
            Formula::Predicate { identifier, identifiers } => FormulaView::Predicate {
                identifier: identifier@,
                identifiers: identifiers@.map_values(|i: Identifier| i@),
            },
        }
    }
}

impl View for Formula {
    type V = FormulaView;

    open spec fn view(&self) -> FormulaView {
        self.deep()
    }
}

impl View for SideCondition {
    type V = SideConditionView;

    open spec fn view(&self) -> SideConditionView {
        match self {
            SideCondition::NotFree { placeholder, element } => SideConditionView::NotFree {
                placeholder: placeholder@,
                element: element@,
            },
        }
    }
}

/// The bare name of an identifier, whichever kind it is.
pub open spec fn ident_name(i: IdentView) -> Seq<char> {
    match i {
        IdentView::Literal(s) => s,
        IdentView::Element(s) => s,
    }
}

// ---------------------------------------------------------------------------
// Well-formedness
// ---------------------------------------------------------------------------

/// Every quantifier in the formula binds an `Element` identifier.
pub open spec fn binders_are_elements(f: FormulaView) -> bool
    decreases f,
{
    match f {
        FormulaView::And { lhs, rhs } => binders_are_elements(*lhs) && binders_are_elements(*rhs),
        FormulaView::Or { lhs, rhs } => binders_are_elements(*lhs) && binders_are_elements(*rhs),
        FormulaView::Imp { lhs, rhs } => binders_are_elements(*lhs) && binders_are_elements(*rhs),
        FormulaView::Not(g) => binders_are_elements(*g),
        FormulaView::Ident(_) => true,
        FormulaView::True => true,
        FormulaView::False => true,
        FormulaView::Forall { identifier, formula } => identifier is Element
            && binders_are_elements(*formula),
        FormulaView::Exists { identifier, formula } => identifier is Element
            && binders_are_elements(*formula),
        FormulaView::Predicate { .. } => true,
    }
}

/// Every predicate argument in the formula is an `Element` identifier.
pub open spec fn predicate_args_are_elements(f: FormulaView) -> bool
    decreases f,
{
    match f {
        FormulaView::And { lhs, rhs } => predicate_args_are_elements(*lhs)
            && predicate_args_are_elements(*rhs),
        FormulaView::Or { lhs, rhs } => predicate_args_are_elements(*lhs)
            && predicate_args_are_elements(*rhs),
        FormulaView::Imp { lhs, rhs } => predicate_args_are_elements(*lhs)
            && predicate_args_are_elements(*rhs),
        FormulaView::Not(g) => predicate_args_are_elements(*g),
        FormulaView::Ident(_) => true,
        FormulaView::True => true,
        FormulaView::False => true,
        FormulaView::Forall { formula, .. } => predicate_args_are_elements(*formula),
        FormulaView::Exists { formula, .. } => predicate_args_are_elements(*formula),
        FormulaView::Predicate { identifiers, .. } => forall|i: int|
            0 <= i < identifiers.len() ==> identifiers[i] is Element,
    }
}

/// The structural invariant of §3: binders and predicate arguments are
/// elements.
pub open spec fn wf_formula(f: FormulaView) -> bool {
    binders_are_elements(f) && predicate_args_are_elements(f)
}

// ---------------------------------------------------------------------------
// Free variables
// ---------------------------------------------------------------------------

/// The free element variables of `f`, given the set of names bound on the
/// path so far. `Literal` atoms contribute nothing: opaque atoms are not
/// variables.
pub open spec fn free_vars_of(f: FormulaView, bound: Set<Seq<char>>) -> Set<Seq<char>>
    decreases f,
{
    match f {
        FormulaView::And { lhs, rhs } => free_vars_of(*lhs, bound) + free_vars_of(*rhs, bound),
        FormulaView::Or { lhs, rhs } => free_vars_of(*lhs, bound) + free_vars_of(*rhs, bound),
        FormulaView::Imp { lhs, rhs } => free_vars_of(*lhs, bound) + free_vars_of(*rhs, bound),
        FormulaView::Not(g) => free_vars_of(*g, bound),
        FormulaView::Ident(IdentView::Element(s)) => if bound.contains(s) {
            Set::empty()
        } else {
            Set::empty().insert(s)
        },
        FormulaView::Ident(IdentView::Literal(_)) => Set::empty(),
        FormulaView::True => Set::empty(),
        FormulaView::False => Set::empty(),
        FormulaView::Forall { identifier, formula } => free_vars_of(
            *formula,
            bound.insert(ident_name(identifier)),
        ),
        FormulaView::Exists { identifier, formula } => free_vars_of(
            *formula,
            bound.insert(ident_name(identifier)),
        ),
        FormulaView::Predicate { identifiers, .. } => Set::new(
            |s: Seq<char>| !bound.contains(s) && exists|i: int|
                0 <= i < identifiers.len() && identifiers[i] == IdentView::Element(s),
        ),
    }
}

// ---------------------------------------------------------------------------
// Substitution
// ---------------------------------------------------------------------------

/// Renames `s` to `to` when it equals `from`.
pub open spec fn subst_name(s: Seq<char>, from: Seq<char>, to: Seq<char>) -> Seq<char> {
    if s == from {
        to
    } else {
        s
    }
}

/// Renaming of one leaf identifier; its kind is preserved.
pub open spec fn subst_ident(i: IdentView, from: Seq<char>, to: Seq<char>) -> IdentView {
    match i {
        IdentView::Literal(s) => IdentView::Literal(subst_name(s, from, to)),
        IdentView::Element(s) => IdentView::Element(subst_name(s, from, to)),
    }
}

/// The textual substitution `from -> to`: every leaf occurrence of `from` is
/// renamed; quantifier binders are left untouched.
pub open spec fn subst_formula(f: FormulaView, from: Seq<char>, to: Seq<char>) -> FormulaView
    decreases f,
{
    match f {
        FormulaView::And { lhs, rhs } => FormulaView::And {
            lhs: Box::new(subst_formula(*lhs, from, to)),
            rhs: Box::new(subst_formula(*rhs, from, to)),
        },
        FormulaView::Or { lhs, rhs } => FormulaView::Or {
            lhs: Box::new(subst_formula(*lhs, from, to)),
            rhs: Box::new(subst_formula(*rhs, from, to)),
        },
        FormulaView::Imp { lhs, rhs } => FormulaView::Imp {
            lhs: Box::new(subst_formula(*lhs, from, to)),
            rhs: Box::new(subst_formula(*rhs, from, to)),
        },
        FormulaView::Not(g) => FormulaView::Not(Box::new(subst_formula(*g, from, to))),
        FormulaView::Ident(i) => FormulaView::Ident(subst_ident(i, from, to)),
        FormulaView::True => FormulaView::True,
        FormulaView::False => FormulaView::False,
        FormulaView::Forall { identifier, formula } => FormulaView::Forall {
            identifier,
            formula: Box::new(subst_formula(*formula, from, to)),
        },
        FormulaView::Exists { identifier, formula } => FormulaView::Exists {
            identifier,
            formula: Box::new(subst_formula(*formula, from, to)),
        },
        FormulaView::Predicate { identifier, identifiers } => FormulaView::Predicate {
            identifier,
            identifiers: identifiers.map_values(
                |a: IdentView| IdentView::Element(subst_name(ident_name(a), from, to)),
            ),
        },
    }
}

/// The substitution `from -> to` is capture-free: no leaf named `from` sits
/// under a binder of `to` (`captured` holds the binders of enclosing scopes).
pub open spec fn subst_ok(
    f: FormulaView,
    from: Seq<char>,
    to: Seq<char>,
    captured: Set<Seq<char>>,
) -> bool
    decreases f,
{
    match f {
        FormulaView::And { lhs, rhs } => subst_ok(*lhs, from, to, captured) && subst_ok(
            *rhs,
            from,
            to,
            captured,
        ),
        FormulaView::Or { lhs, rhs } => subst_ok(*lhs, from, to, captured) && subst_ok(
            *rhs,
            from,
            to,
            captured,
        ),
        FormulaView::Imp { lhs, rhs } => subst_ok(*lhs, from, to, captured) && subst_ok(
            *rhs,
            from,
            to,
            captured,
        ),
        FormulaView::Not(g) => subst_ok(*g, from, to, captured),
        FormulaView::Ident(i) => ident_name(i) == from ==> !captured.contains(to),
        FormulaView::True => true,
        FormulaView::False => true,
        FormulaView::Forall { identifier, formula } => subst_ok(
            *formula,
            from,
            to,
            captured.insert(ident_name(identifier)),
        ),
        FormulaView::Exists { identifier, formula } => subst_ok(
            *formula,
            from,
            to,
            captured.insert(ident_name(identifier)),
        ),
        FormulaView::Predicate { identifiers, .. } => forall|i: int|
            0 <= i < identifiers.len() ==> (ident_name(identifiers[i]) == from
                ==> !captured.contains(to)),
    }
}

// ---------------------------------------------------------------------------
// Capture analysis for opaque atoms
// ---------------------------------------------------------------------------

/// The names that a declared side condition guarantees not to occur free in
/// the placeholder atom `n`.
pub open spec fn not_free_by_conditions(n: IdentView, scs: Seq<SideConditionView>) -> Set<
    Seq<char>,
> {
    Set::new(
        |s: Seq<char>| exists|i: int|
            0 <= i < scs.len() && scs[i] == (SideConditionView::NotFree {
                placeholder: n,
                element: IdentView::Element(s),
            }),
    )
}

/// The names that certainly cannot occur free in `f`: names bound by a
/// quantifier on every path, and names a side condition excludes from an
/// opaque atom. Conjunctions keep only what both operands capture.
pub open spec fn captures_of(f: FormulaView, scs: Seq<SideConditionView>) -> Set<Seq<char>>
    decreases f,
{
    match f {
        FormulaView::And { lhs, rhs } => captures_of(*lhs, scs).intersect(captures_of(*rhs, scs)),
        FormulaView::Or { lhs, rhs } => captures_of(*lhs, scs).intersect(captures_of(*rhs, scs)),
        FormulaView::Imp { lhs, rhs } => captures_of(*lhs, scs).intersect(captures_of(*rhs, scs)),
        FormulaView::Not(g) => captures_of(*g, scs),
        FormulaView::Ident(n) => not_free_by_conditions(n, scs),
        FormulaView::True => Set::empty(),
        FormulaView::False => Set::empty(),
        FormulaView::Forall { identifier, formula } => captures_of(*formula, scs).insert(
            ident_name(identifier),
        ),
        FormulaView::Exists { identifier, formula } => captures_of(*formula, scs).insert(
            ident_name(identifier),
        ),
        FormulaView::Predicate { .. } => Set::empty(),
    }
}

/// Whether `f` contains an atom whose free-variable content is unknown, so
/// that `f` could contain any variable free.
pub open spec fn may_contain_any_free(f: FormulaView) -> bool
    decreases f,
{
    match f {
        FormulaView::And { lhs, rhs } => may_contain_any_free(*lhs) || may_contain_any_free(*rhs),
        FormulaView::Or { lhs, rhs } => may_contain_any_free(*lhs) || may_contain_any_free(*rhs),
        FormulaView::Imp { lhs, rhs } => may_contain_any_free(*lhs) || may_contain_any_free(*rhs),
        FormulaView::Not(g) => may_contain_any_free(*g),
        FormulaView::Ident(_) => true,
        FormulaView::True => false,
        FormulaView::False => false,
        FormulaView::Forall { formula, .. } => may_contain_any_free(*formula),
        FormulaView::Exists { formula, .. } => may_contain_any_free(*formula),
        FormulaView::Predicate { .. } => false,
    }
}

impl Identifier {
    /// Whether `self` and `other` carry the same kind and the same name.
    pub fn eq_ident(&self, other: &Identifier) -> (r: bool)
        ensures
            r == (self@ == other@),
    {
        match (self, other) {
            (Identifier::Literal(a), Identifier::Literal(b)) => *a == *b,
            (Identifier::Element(a), Identifier::Element(b)) => *a == *b,
            _ => false,
        }
    }

    /// A copy with the same name and kind.
    pub fn duplicate(&self) -> (r: Identifier)
        ensures
            r@ == self@,
    {
        match self {
            Identifier::Literal(s) => Identifier::Literal(s.clone()),
            Identifier::Element(s) => Identifier::Element(s.clone()),
        }
    }
}

impl Formula {
    /// Structural equality: same shape, same names, same identifier kinds.
    #[verifier::loop_isolation(false)]
    pub fn eq_formula(&self, other: &Formula) -> (r: bool)
        ensures
            r == (self@ == other@),
        decreases self,
    {
        match (self, other) {
            (Formula::And { lhs: a, rhs: b }, Formula::And { lhs: c, rhs: d }) => a.eq_formula(c)
                && b.eq_formula(d),
            (Formula::Or { lhs: a, rhs: b }, Formula::Or { lhs: c, rhs: d }) => a.eq_formula(c)
                && b.eq_formula(d),
            (Formula::Imp { lhs: a, rhs: b }, Formula::Imp { lhs: c, rhs: d }) => a.eq_formula(c)
                && b.eq_formula(d),
            (Formula::Not(a), Formula::Not(b)) => a.eq_formula(b),
            (Formula::Ident(a), Formula::Ident(b)) => a.eq_ident(b),
            (Formula::True, Formula::True) => true,
            (Formula::False, Formula::False) => true,
            (
                Formula::Forall { identifier: i1, formula: f1 },
                Formula::Forall { identifier: i2, formula: f2 },
            ) => i1.eq_ident(i2) && f1.eq_formula(f2),
            (
                Formula::Exists { identifier: i1, formula: f1 },
                Formula::Exists { identifier: i2, formula: f2 },
            ) => i1.eq_ident(i2) && f1.eq_formula(f2),
            (
                Formula::Predicate { identifier: p1, identifiers: a1 },
                Formula::Predicate { identifier: p2, identifiers: a2 },
            ) => {
                let ghost v1 = a1@.map_values(|it: Identifier| it@);
                let ghost v2 = a2@.map_values(|it: Identifier| it@);
                if !p1.eq_ident(p2) {
                    return false;
                }
                if a1.len() != a2.len() {
                    proof {
                        assert(v1.len() != v2.len());
                    }
                    return false;
                }
                let mut i: usize = 0;
                while i < a1.len()
                    invariant
                        i <= a1.len(),
                        forall|j: int| 0 <= j < i ==> v1[j] == v2[j],
                    decreases a1.len() - i,
                {
                    if !a1[i].eq_ident(&a2[i]) {
                        proof {
                            assert(v1[i as int] != v2[i as int]);
                        }
                        return false;
                    }
                    i += 1;
                }
                proof {
                    assert(v1 =~= v2);
                }
                true
            },
            _ => false,
        }
    }

    /// A structural copy.
    pub fn duplicate(&self) -> (r: Formula)
        ensures
            r@ == self@,
        decreases self,
    {
        match self {
            Formula::And { lhs, rhs } => Formula::And {
                lhs: Box::new(lhs.duplicate()),
                rhs: Box::new(rhs.duplicate()),
            },
            Formula::Or { lhs, rhs } => Formula::Or {
                lhs: Box::new(lhs.duplicate()),
                rhs: Box::new(rhs.duplicate()),
            },
            Formula::Not(f) => Formula::Not(Box::new(f.duplicate())),
            Formula::Ident(i) => Formula::Ident(i.duplicate()),
            Formula::Imp { lhs, rhs } => Formula::Imp {
                lhs: Box::new(lhs.duplicate()),
                rhs: Box::new(rhs.duplicate()),
            },
            Formula::True => Formula::True,
            Formula::False => Formula::False,
            Formula::Forall { identifier, formula } => Formula::Forall {
                identifier: identifier.duplicate(),
                formula: Box::new(formula.duplicate()),
            },
            Formula::Exists { identifier, formula } => Formula::Exists {
                identifier: identifier.duplicate(),
                formula: Box::new(formula.duplicate()),
            },
            Formula::Predicate { identifier, identifiers } => {
                let mut args: Vec<Identifier> = Vec::new();
                let mut i: usize = 0;
                while i < identifiers.len()
                    invariant
                        i <= identifiers.len(),
                        args@.len() == i,
                        forall|j: int| 0 <= j < i ==> args@[j]@ == identifiers@[j]@,
                    decreases identifiers.len() - i,
                {
                    args.push(identifiers[i].duplicate());
                    i += 1;
                }
                let r = Formula::Predicate { identifier: identifier.duplicate(), identifiers: args };
                proof {
                    assert(args@.map_values(|it: Identifier| it@) =~= identifiers@.map_values(
                        |it: Identifier| it@,
                    ));
                    assert(r@ =~= self@);
                }
                r
            },
        }
    }

    /// Capture-avoiding textual substitution of the name `from` by the name
    /// `to`. `captured` holds the names bound by enclosing scopes: replacing a
    /// leaf named `from` under a binder of `to` is refused as a capture.
    #[verifier::loop_isolation(false)]
    pub fn apply_substitution(&self, from: &String, to: &String, captured: &VarSet) -> (r: Result<
        Formula,
        DeductionError,
    >)
        ensures
            r is Ok <==> (wf_formula(self@) && subst_ok(self@, from@, to@, captured@)),
            r matches Ok(g) ==> g@ == subst_formula(self@, from@, to@),
            r matches Err(e) ==> (e == DeductionError::CaptureError || e
                == DeductionError::MalformedFormula),
            r matches Err(e) ==> (wf_formula(self@) ==> e == DeductionError::CaptureError),
        decreases self,
    {
        match self {
            Formula::And { lhs, rhs } => {
                let l = lhs.apply_substitution(from, to, captured)?;
                let r = rhs.apply_substitution(from, to, captured)?;
                Ok(Formula::And { lhs: Box::new(l), rhs: Box::new(r) })
            },
            Formula::Or { lhs, rhs } => {
                let l = lhs.apply_substitution(from, to, captured)?;
                let r = rhs.apply_substitution(from, to, captured)?;
                Ok(Formula::Or { lhs: Box::new(l), rhs: Box::new(r) })
            },
            Formula::Imp { lhs, rhs } => {
                let l = lhs.apply_substitution(from, to, captured)?;
                let r = rhs.apply_substitution(from, to, captured)?;
                Ok(Formula::Imp { lhs: Box::new(l), rhs: Box::new(r) })
            },
            Formula::Not(f) => {
                let g = f.apply_substitution(from, to, captured)?;
                Ok(Formula::Not(Box::new(g)))
            },
            Formula::Ident(identifier) => {
                match identifier {
                    Identifier::Element(s) => {
                        if *s == *from {
                            if captured.contains(to) {
                                return Err(DeductionError::CaptureError);
                            }
                            Ok(Formula::Ident(Identifier::Element(to.clone())))
                        } else {
                            Ok(Formula::Ident(Identifier::Element(s.clone())))
                        }
                    },
                    Identifier::Literal(s) => {
                        if *s == *from {
                            if captured.contains(to) {
                                return Err(DeductionError::CaptureError);
                            }
                            Ok(Formula::Ident(Identifier::Literal(to.clone())))
                        } else {
                            Ok(Formula::Ident(Identifier::Literal(s.clone())))
                        }
                    },
                }
            },
            Formula::True => Ok(Formula::True),
            Formula::False => Ok(Formula::False),
            Formula::Forall { identifier, formula } => {
                match identifier {
                    Identifier::Element(s) => {
                        let mut inner = captured.duplicate();
                        inner.insert(s.clone());
                        let g = formula.apply_substitution(from, to, &inner)?;
                        Ok(Formula::Forall {
                            identifier: identifier.duplicate(),
                            formula: Box::new(g),
                        })
                    },
                    Identifier::Literal(_) => Err(DeductionError::MalformedFormula),
                }
            },
            Formula::Exists { identifier, formula } => {
                match identifier {
                    Identifier::Element(s) => {
                        let mut inner = captured.duplicate();
                        inner.insert(s.clone());
                        let g = formula.apply_substitution(from, to, &inner)?;
                        Ok(Formula::Exists {
                            identifier: identifier.duplicate(),
                            formula: Box::new(g),
                        })
                    },
                    Identifier::Literal(_) => Err(DeductionError::MalformedFormula),
                }
            },
            Formula::Predicate { identifier, identifiers } => {
                let ghost argsv = identifiers@.map_values(|it: Identifier| it@);
                let mut new_identifiers: Vec<Identifier> = Vec::new();
                let mut i: usize = 0;
                while i < identifiers.len()
                    invariant
                        i <= identifiers.len(),
                        argsv == identifiers@.map_values(|it: Identifier| it@),
                        new_identifiers@.len() == i,
                        forall|j: int| 0 <= j < i ==> argsv[j] is Element,
                        forall|j: int|
                            0 <= j < i ==> (ident_name(argsv[j]) == from@ ==> !captured@.contains(
                                to@,
                            )),
                        forall|j: int|
                            0 <= j < i ==> new_identifiers@[j]@ == IdentView::Element(
                                subst_name(ident_name(argsv[j]), from@, to@),
                            ),
                    decreases identifiers.len() - i,
                {
                    proof {
                        assert(argsv[i as int] == identifiers@[i as int]@);
                    }
                    match &identifiers[i] {
                        Identifier::Element(s) => {
                            if *s == *from {
                                if captured.contains(to) {
                                    return Err(DeductionError::CaptureError);
                                }
                                new_identifiers.push(Identifier::Element(to.clone()));
                            } else {
                                new_identifiers.push(Identifier::Element(s.clone()));
                            }
                        },
                        Identifier::Literal(_) => {
                            return Err(DeductionError::MalformedFormula);
                        },
                    }
                    i += 1;
                }
                let g = Formula::Predicate {
                    identifier: identifier.duplicate(),
                    identifiers: new_identifiers,
                };
                proof {
                    assert(g@->Predicate_identifiers =~= subst_formula(
                        self@,
                        from@,
                        to@,
                    )->Predicate_identifiers);
                    assert(g@ =~= subst_formula(self@, from@, to@));
                }
                Ok(g)
            },
        }
    }

    /// The set of element variables occurring free in `self`, with `captured`
    /// naming the variables already bound by enclosing scopes. Fails exactly
    /// when some quantifier binds a non-element identifier.
    pub fn free_vars(&self, captured: &VarSet) -> (r: Result<VarSet, DeductionError>)
        ensures
            r is Ok <==> binders_are_elements(self@),
            r matches Ok(s) ==> s@ == free_vars_of(self@, captured@),
            r matches Err(e) ==> e == DeductionError::MalformedFormula,
        decreases self,
    {
        match self {
            Formula::And { lhs, rhs } | Formula::Or { lhs, rhs } | Formula::Imp { lhs, rhs } => {
                let mut l = lhs.free_vars(captured)?;
                let r = rhs.free_vars(captured)?;
                l.union_with(&r);
                Ok(l)
            },
            Formula::Not(f) => f.free_vars(captured),
            Formula::Ident(identifier) => {
                match identifier {
                    Identifier::Element(s) => {
                        let mut res = VarSet::new();
                        if !captured.contains(s) {
                            res.insert(s.clone());
                        }
                        Ok(res)
                    },
                    Identifier::Literal(_) => Ok(VarSet::new()),
                }
            },
            Formula::True => Ok(VarSet::new()),
            Formula::False => Ok(VarSet::new()),
            Formula::Forall { identifier, formula } | Formula::Exists { identifier, formula } => {
                match identifier {
                    Identifier::Element(s) => {
                        let mut inner = captured.duplicate();
                        inner.insert(s.clone());
                        formula.free_vars(&inner)
                    },
                    Identifier::Literal(_) => Err(DeductionError::MalformedFormula),
                }
            },
            Formula::Predicate { identifiers, .. } => {
                let mut res = VarSet::new();
                let ghost args = identifiers@.map_values(|it: Identifier| it@);
                let mut i: usize = 0;
                while i < identifiers.len()
                    invariant
                        i <= identifiers.len(),
                        args == identifiers@.map_values(|it: Identifier| it@),
                        res@ =~= Set::new(
                            |s: Seq<char>| !captured@.contains(s) && exists|j: int|
                                0 <= j < i && args[j] == IdentView::Element(s),
                        ),
                    decreases identifiers.len() - i,
                {
                    proof {
                        assert(args[i as int] == identifiers@[i as int]@);
                    }
                    match &identifiers[i] {
                        Identifier::Element(s) => {
                            if !captured.contains(s) {
                                res.insert(s.clone());
                            }
                        },
                        Identifier::Literal(_) => {},
                    }
                    i += 1;
                }
                proof {
                    assert(res@ =~= free_vars_of(self@, captured@));
                }
                Ok(res)
            },
        }
    }

    /// Whether `self` contains an opaque atom, so that nothing rules out any
    /// variable occurring free in it.
    pub fn can_contain_any_free_variable(&self) -> (r: Result<bool, DeductionError>)
        ensures
            r matches Ok(b) && b == may_contain_any_free(self@),
        decreases self,
    {
        match self {
            Formula::And { lhs, rhs } | Formula::Or { lhs, rhs } | Formula::Imp { lhs, rhs } => {
                let l = lhs.can_contain_any_free_variable()?;
                let r = rhs.can_contain_any_free_variable()?;
                Ok(l || r)
            },
            Formula::Ident(_) => Ok(true),
            Formula::True => Ok(false),
            Formula::False => Ok(false),
            Formula::Not(f) => f.can_contain_any_free_variable(),
            Formula::Forall { formula, .. } | Formula::Exists { formula, .. } => formula
                .can_contain_any_free_variable(),
            Formula::Predicate { .. } => Ok(false),
        }
    }

    /// The set of names that certainly cannot occur free in `self`, combining
    /// quantifier binders with the declared side conditions for opaque atoms.
    /// Fails exactly when some quantifier binds a non-element identifier.
    #[verifier::loop_isolation(false)]
    pub fn captures(&self, side_con: &Vec<SideCondition>) -> (r: Result<VarSet, DeductionError>)
        ensures
            r is Ok <==> binders_are_elements(self@),
            r matches Ok(s) ==> s@ == captures_of(
                self@,
                side_con@.map_values(|sc: SideCondition| sc@),
            ),
            r matches Err(e) ==> e == DeductionError::MalformedFormula,
        decreases self,
    {
        let ghost scs = side_con@.map_values(|sc: SideCondition| sc@);
        match self {
            Formula::And { lhs, rhs } | Formula::Or { lhs, rhs } | Formula::Imp { lhs, rhs } => {
                let l = lhs.captures(side_con)?;
                let r = rhs.captures(side_con)?;
                Ok(l.intersect(&r))
            },
            Formula::True | Formula::False | Formula::Predicate { .. } => Ok(VarSet::new()),
            Formula::Ident(n) => {
                let mut res = VarSet::new();
                let mut i: usize = 0;
                while i < side_con.len()
                    invariant
                        i <= side_con.len(),
                        res@ =~= Set::new(
                            |s: Seq<char>| exists|j: int|
                                0 <= j < i && scs[j] == (SideConditionView::NotFree {
                                    placeholder: n@,
                                    element: IdentView::Element(s),
                                }),
                        ),
                    decreases side_con.len() - i,
                {
                    proof {
                        assert(scs[i as int] == side_con@[i as int]@);
                    }
                    match &side_con[i] {
                        SideCondition::NotFree { placeholder, element } => {
                            if placeholder.eq_ident(n) {
                                match element {
                                    Identifier::Element(s) => {
                                        res.insert(s.clone());
                                    },
                                    Identifier::Literal(_) => {},
                                }
                            }
                        },
                    }
                    i += 1;
                }
                proof {
                    assert(res@ =~= not_free_by_conditions(n@, scs));
                }
                Ok(res)
            },
            Formula::Not(f) => f.captures(side_con),
            Formula::Forall { identifier, formula } | Formula::Exists { identifier, formula } => {
                match identifier {
                    Identifier::Element(name) => {
                        let mut captured = formula.captures(side_con)?;
                        captured.insert(name.clone());
                        Ok(captured)
                    },
                    Identifier::Literal(_) => Err(DeductionError::MalformedFormula),
                }
            },
        }
    }
}

/// Capture-avoiding substitution (free-function form of
/// `Formula::apply_substitution`).
pub fn apply_substitution(f: Formula, from: &String, to: &String, captured: &VarSet) -> (r: Result<
    Formula,
    DeductionError,
>)
    ensures
        r is Ok <==> (wf_formula(f@) && subst_ok(f@, from@, to@, captured@)),
        r matches Ok(g) ==> g@ == subst_formula(f@, from@, to@),
        r matches Err(e) ==> (e == DeductionError::CaptureError || e
            == DeductionError::MalformedFormula),
{
    f.apply_substitution(from, to, captured)
}

/// Free element variables (free-function form of `Formula::free_vars`).
pub fn get_free_vars(formula: &Formula, captured: &VarSet) -> (r: Result<VarSet, DeductionError>)
    ensures
        r is Ok <==> binders_are_elements(formula@),
        r matches Ok(s) ==> s@ == free_vars_of(formula@, captured@),
        r matches Err(e) ==> e == DeductionError::MalformedFormula,
{
    formula.free_vars(captured)
}

// ---------------------------------------------------------------------------
// Subformulas
// ---------------------------------------------------------------------------

/// The proper subformulas of the propositional skeleton: operands of the
/// binary connectives and of negation, collected recursively. Quantified and
/// atomic formulas contribute nothing.
pub open spec fn sub_formulas_of(f: FormulaView) -> Set<FormulaView>
    decreases f,
{
    match f {
        FormulaView::And { lhs, rhs } => sub_formulas_of(*lhs) + sub_formulas_of(*rhs) + Set::empty(
        ).insert(*lhs).insert(*rhs),
        FormulaView::Or { lhs, rhs } => sub_formulas_of(*lhs) + sub_formulas_of(*rhs) + Set::empty(
        ).insert(*lhs).insert(*rhs),
        FormulaView::Imp { lhs, rhs } => sub_formulas_of(*lhs) + sub_formulas_of(*rhs) + Set::empty(
        ).insert(*lhs).insert(*rhs),
        FormulaView::Not(g) => sub_formulas_of(*g).insert(*g),
        _ => Set::empty(),
    }
}

/// An executable set of formulas, abstracted as a `Set<FormulaView>`.
#[derive(Debug)]
pub struct FormulaSet {
    items: Vec<Formula>,
}

impl View for FormulaSet {
    type V = Set<FormulaView>;

    closed spec fn view(&self) -> Set<FormulaView> {
        Set::new(|g: FormulaView| exists|i: int| 0 <= i < self.items@.len() && self.items@[i]@ == g)
    }
}

impl FormulaSet {
    pub fn new() -> (r: FormulaSet)
        ensures
            r@ == Set::<FormulaView>::empty(),
    {
        let r = FormulaSet { items: Vec::new() };
        proof {
            assert(r@ =~= Set::<FormulaView>::empty());
        }
        r
    }

    pub fn insert(&mut self, f: Formula)
        ensures
            final(self)@ == old(self)@.insert(f@),
    {
        let ghost fv = f@;
        let ghost before = self@;
        self.items.push(f);
        proof {
            assert forall|t: FormulaView| self@.contains(t) implies before.insert(fv).contains(
                t,
            ) by {
                let i = choose|i: int| 0 <= i < self.items@.len() && self.items@[i]@ == t;
                if i < self.items@.len() - 1 {
                    assert(before.contains(t));
                }
            }
            assert forall|t: FormulaView| before.insert(fv).contains(t) implies self@.contains(
                t,
            ) by {
                if t == fv {
                    assert(self.items@[self.items@.len() - 1]@ == t);
                } else {
                    let i = choose|i: int|
                        0 <= i < old(self).items@.len() && old(self).items@[i]@ == t;
                    assert(self.items@[i]@ == t);
                }
            }
            assert(self@ =~= before.insert(fv));
        }
    }

    /// Whether the set holds a formula equal to `f`.
    #[verifier::loop_isolation(false)]
    pub fn contains(&self, f: &Formula) -> (r: bool)
        ensures
            r == self@.contains(f@),
    {
        let mut i: usize = 0;
        while i < self.items.len()
            invariant
                i <= self.items.len(),
                forall|j: int| 0 <= j < i ==> self.items@[j]@ != f@,
            decreases self.items.len() - i,
        {
            if self.items[i].eq_formula(f) {
                proof {
                    assert(self@.contains(f@));
                }
                return true;
            }
            i += 1;
        }
        false
    }

    /// Adds every formula of `other` to `self`.
    #[verifier::loop_isolation(false)]
    pub fn extend_with(&mut self, other: &FormulaSet)
        ensures
            final(self)@ == old(self)@ + other@,
    {
        let ghost before = self@;
        let mut i: usize = 0;
        while i < other.items.len()
            invariant
                i <= other.items.len(),
                self@ =~= before + Set::new(
                    |g: FormulaView| exists|j: int| 0 <= j < i && other.items@[j]@ == g,
                ),
            decreases other.items.len() - i,
        {
            self.insert(other.items[i].duplicate());
            i += 1;
        }
        proof {
            assert(self@ =~= before + other@);
        }
    }
}

/// The proper subformulas of the propositional skeleton of `formula`.
pub fn get_sub_formulas(formula: &Formula) -> (r: FormulaSet)
    ensures
        r@ == sub_formulas_of(formula@),
    decreases formula,
{
    let mut result = FormulaSet::new();
    match formula {
        Formula::And { lhs, rhs } | Formula::Or { lhs, rhs } | Formula::Imp { lhs, rhs } => {
            result.insert(lhs.duplicate());
            result.insert(rhs.duplicate());
            let l = get_sub_formulas(lhs);
            result.extend_with(&l);
            let r = get_sub_formulas(rhs);
            result.extend_with(&r);
        },
        Formula::Not(g) => {
            result.insert(g.duplicate());
            let inner = get_sub_formulas(g);
            result.extend_with(&inner);
        },
        _ => {},
    }
    proof {
        assert(result@ =~= sub_formulas_of(formula@));
    }
    result
}

} // verus!
