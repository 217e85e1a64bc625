//! The schematic rule language: placeholder identifiers, rule formulas, rule
//! statements and derivation rules, together with the placeholder-collection
//! operation that mapping inference measures its progress against.

use vstd::prelude::*;

verus! {

/// The names of the eighteen derivation rules of the catalogue.
#[derive(Debug, Clone, Copy, PartialEq, Eq, Structural)]
pub enum Rules {
    Ax,
    ImplIntro,
    ImplElim,
    FalseElim,
    NotIntro,
    NotElim,
    AndIntro,
    AndElimL,
    AndElimR,
    OrIntroL,
    OrIntroR,
    OrElim,
    ForallElim,
    ForallIntro,
    ExistsElim,
    ExistsIntro,
    AlphaExists,
    AlphaForall,
}

/// A placeholder inside a rule schema: `Formula(n)` stands for an arbitrary
/// subformula, `Element(name)` for an arbitrary individual variable.
#[derive(Debug)]
pub enum RuleIdentifier {
    Formula(u32),
    Element(String),
}

/// Ghost mirror of `RuleIdentifier`.
#[verifier::ext_equal]
pub enum RuleIdView {
    Formula(u32),
    Element(Seq<char>),
}

impl View for RuleIdentifier {
    type V = RuleIdView;

    open spec fn view(&self) -> RuleIdView {
        match self {
            RuleIdentifier::Formula(n) => RuleIdView::Formula(*n),
            RuleIdentifier::Element(s) => RuleIdView::Element(s@),
        }
    }
}

impl RuleIdentifier {
    /// Whether `self` and `other` are the same placeholder.
    pub fn eq_rid(&self, other: &RuleIdentifier) -> (r: bool)
        ensures
            r == (self@ == other@),
    {
        match (self, other) {
            (RuleIdentifier::Formula(a), RuleIdentifier::Formula(b)) => *a == *b,
            (RuleIdentifier::Element(a), RuleIdentifier::Element(b)) => *a == *b,
            _ => false,
        }
    }

    /// A copy of the placeholder.
    pub fn duplicate(&self) -> (r: RuleIdentifier)
        ensures
            r@ == self@,
    {
        match self {
            RuleIdentifier::Formula(n) => RuleIdentifier::Formula(*n),
            RuleIdentifier::Element(s) => RuleIdentifier::Element(s.clone()),
        }
    }
}

/// The schema analogue of `Formula`, over placeholders, with the extra
/// `Substitution` constructor used by the quantifier rules.
#[derive(Debug)]
pub enum RuleFormula {
    Ident(RuleIdentifier),
    And { lhs: RuleIdentifier, rhs: RuleIdentifier },
    Or { lhs: RuleIdentifier, rhs: RuleIdentifier },
    Not(RuleIdentifier),
    Imp { lhs: RuleIdentifier, rhs: RuleIdentifier },
    False,
    True,
    Forall { identifier: RuleIdentifier, formula: Box<RuleFormula> },
    Exists { identifier: RuleIdentifier, formula: Box<RuleFormula> },
    Substitution { identifier: RuleIdentifier, lhs: RuleIdentifier, rhs: RuleIdentifier },
}

/// Ghost mirror of `RuleFormula`.
#[verifier::ext_equal]
pub enum RuleFormulaView {
    Ident(RuleIdView),
    And { lhs: RuleIdView, rhs: RuleIdView },
    Or { lhs: RuleIdView, rhs: RuleIdView },
    Not(RuleIdView),
    Imp { lhs: RuleIdView, rhs: RuleIdView },
    False,
    True,
    Forall { identifier: RuleIdView, formula: Box<RuleFormulaView> },
    Exists { identifier: RuleIdView, formula: Box<RuleFormulaView> },
    Substitution { identifier: RuleIdView, lhs: RuleIdView, rhs: RuleIdView },
}

impl RuleFormula {
    pub open spec fn deep(self) -> RuleFormulaView
        decreases self,
    {
        match self {
            RuleFormula::Ident(i) => RuleFormulaView::Ident(i@),
            RuleFormula::And { lhs, rhs } => RuleFormulaView::And { lhs: lhs@, rhs: rhs@ },
            RuleFormula::Or { lhs, rhs } => RuleFormulaView::Or { lhs: lhs@, rhs: rhs@ },
            RuleFormula::Not(i) => RuleFormulaView::Not(i@),
            RuleFormula::Imp { lhs, rhs } => RuleFormulaView::Imp { lhs: lhs@, rhs: rhs@ },
            RuleFormula::False => RuleFormulaView::False,
            RuleFormula::True => RuleFormulaView::True,
            RuleFormula::Forall { identifier, formula } => RuleFormulaView::Forall {
                identifier: identifier@,
                formula: Box::new(formula.deep()),
            },
            RuleFormula::Exists { identifier, formula } => RuleFormulaView::Exists {
                identifier: identifier@,
                formula: Box::new(formula.deep()),
            },
            RuleFormula::Substitution { identifier, lhs, rhs } => RuleFormulaView::Substitution {
                identifier: identifier@,
                lhs: lhs@,
                rhs: rhs@,
            },
        }
    }
}

impl View for RuleFormula {
    type V = RuleFormulaView;

    open spec fn view(&self) -> RuleFormulaView {
        self.deep()
    }
}

/// A schematic judgment: an optional assumption placeholder and a schema
/// formula.
#[derive(Debug)]
pub struct RuleStatement {
    pub lhs: Option<RuleIdentifier>,
    pub formula: RuleFormula,
}

/// Ghost mirror of `RuleStatement`.
#[verifier::ext_equal]
pub struct RuleStatementView {
    pub lhs: Option<RuleIdView>,
    pub formula: RuleFormulaView,
}

impl View for RuleStatement {
    type V = RuleStatementView;

    open spec fn view(&self) -> RuleStatementView {
        RuleStatementView {
            lhs: match self.lhs {
                Some(ref l) => Some(l@),
                None => None,
            },
            formula: self.formula@,
        }
    }
}

/// A named derivation rule: its premise schemas and its conclusion schema.
#[derive(Debug)]
pub struct DerivationRule {
    pub name: Rules,
    pub premises: Vec<RuleStatement>,
    pub conclusion: RuleStatement,
}

/// Ghost mirror of `DerivationRule`.
#[verifier::ext_equal]
pub struct DerivationRuleView {
    pub name: Rules,
    pub premises: Seq<RuleStatementView>,
    pub conclusion: RuleStatementView,
}

impl View for DerivationRule {
    type V = DerivationRuleView;

    open spec fn view(&self) -> DerivationRuleView {
        DerivationRuleView {
            name: self.name,
            premises: self.premises@.map_values(|p: RuleStatement| p@),
            conclusion: self.conclusion@,
        }
    }
}

// ---------------------------------------------------------------------------
// Placeholder collection
// ---------------------------------------------------------------------------

/// The placeholders occurring in a schema formula.
pub open spec fn rf_identifiers(rf: RuleFormulaView) -> Set<RuleIdView>
    decreases rf,
{
    match rf {
        RuleFormulaView::Ident(i) => Set::empty().insert(i),
        RuleFormulaView::Not(i) => Set::empty().insert(i),
        RuleFormulaView::And { lhs, rhs } => Set::empty().insert(lhs).insert(rhs),
        RuleFormulaView::Or { lhs, rhs } => Set::empty().insert(lhs).insert(rhs),
        RuleFormulaView::Imp { lhs, rhs } => Set::empty().insert(lhs).insert(rhs),
        RuleFormulaView::True => Set::empty(),
        RuleFormulaView::False => Set::empty(),
        RuleFormulaView::Forall { identifier, formula } => rf_identifiers(*formula).insert(
            identifier,
        ),
        RuleFormulaView::Exists { identifier, formula } => rf_identifiers(*formula).insert(
            identifier,
        ),
        RuleFormulaView::Substitution { identifier, lhs, rhs } => Set::empty().insert(
            identifier,
        ).insert(lhs).insert(rhs),
    }
}

/// The placeholders occurring in a schematic judgment.
pub open spec fn rs_identifiers(rs: RuleStatementView) -> Set<RuleIdView> {
    match rs.lhs {
        Some(l) => rf_identifiers(rs.formula).insert(l),
        None => rf_identifiers(rs.formula),
    }
}

/// The placeholders of the first `n` premises of a rule.
pub open spec fn premises_identifiers(ps: Seq<RuleStatementView>, n: int) -> Set<RuleIdView>
    decreases n,
{
    if n <= 0 {
        Set::empty()
    } else {
        premises_identifiers(ps, n - 1) + rs_identifiers(ps[n - 1])
    }
}

/// All placeholders of a rule, premises and conclusion together.
pub open spec fn rule_identifiers(r: DerivationRuleView) -> Set<RuleIdView> {
    premises_identifiers(r.premises, r.premises.len() as int) + rs_identifiers(r.conclusion)
}

// ---------------------------------------------------------------------------
// Executable placeholder sets
// ---------------------------------------------------------------------------

/// An executable set of rule placeholders, abstracted as a `Set<RuleIdView>`.
#[derive(Debug)]
pub struct RuleIdSet {
    items: Vec<RuleIdentifier>,
}

impl View for RuleIdSet {
    type V = Set<RuleIdView>;

    closed spec fn view(&self) -> Set<RuleIdView> {
        Set::new(|v: RuleIdView| exists|i: int| 0 <= i < self.items@.len() && self.items@[i]@ == v)
    }
}

impl RuleIdSet {
    pub fn new() -> (r: RuleIdSet)
        ensures
            r@ == Set::<RuleIdView>::empty(),
    {
        let r = RuleIdSet { items: Vec::new() };
        proof {
            assert(r@ =~= Set::<RuleIdView>::empty());
        }
        r
    }

    pub fn insert(&mut self, x: RuleIdentifier)
        ensures
            final(self)@ == old(self)@.insert(x@),
    {
        let ghost xv = x@;
        let ghost before = self@;
        self.items.push(x);
        proof {
            assert forall|t: RuleIdView| self@.contains(t) implies before.insert(xv).contains(t) by {
                let i = choose|i: int| 0 <= i < self.items@.len() && self.items@[i]@ == t;
                if i < self.items@.len() - 1 {
                    assert(before.contains(t));
                }
            }
            assert forall|t: RuleIdView| before.insert(xv).contains(t) implies self@.contains(t) by {
                if t == xv {
                    assert(self.items@[self.items@.len() - 1]@ == t);
                } else {
                    let i = choose|i: int|
                        0 <= i < old(self).items@.len() && old(self).items@[i]@ == t;
                    assert(self.items@[i]@ == t);
                }
            }
            assert(self@ =~= before.insert(xv));
        }
    }

    pub fn contains(&self, x: &RuleIdentifier) -> (r: bool)
        ensures
            r == self@.contains(x@),
    {
        let mut i: usize = 0;
        while i < self.items.len()
            invariant
                i <= self.items.len(),
                forall|j: int| 0 <= j < i ==> self.items@[j]@ != x@,
            decreases self.items.len() - i,
        {
            if self.items[i].eq_rid(x) {
                return true;
            }
            i += 1;
        }
        false
    }

    /// Whether every placeholder of this set is bound in one of the two
    /// tables.
    #[verifier::loop_isolation(false)]
    pub fn all_bound(
        &self,
        fm: &crate::mapping::FormulaMap,
        em: &crate::mapping::FormulaMap,
    ) -> (r: bool)
        ensures
            r == forall|v: RuleIdView|
                self@.contains(v) ==> fm@.contains_key(v) || em@.contains_key(v),
    {
        let mut i: usize = 0;
        while i < self.items.len()
            invariant
                i <= self.items.len(),
                forall|j: int|
                    0 <= j < i ==> fm@.contains_key(#[trigger] self.items@[j]@)
                        || em@.contains_key(self.items@[j]@),
            decreases self.items.len() - i,
        {
            if !fm.contains_key(&self.items[i]) && !em.contains_key(&self.items[i]) {
                proof {
                    assert(self@.contains(self.items@[i as int]@));
                }
                return false;
            }
            i += 1;
        }
        proof {
            assert forall|v: RuleIdView|
                self@.contains(v) implies fm@.contains_key(v) || em@.contains_key(v) by {
                let j = choose|j: int| 0 <= j < self.items@.len() && self.items@[j]@ == v;
                assert(fm@.contains_key(self.items@[j]@) || em@.contains_key(self.items@[j]@));
            }
        }
        true
    }

    /// Adds every placeholder of `other` to `self`.
    pub fn extend_with(&mut self, other: &RuleIdSet)
        ensures
            final(self)@ == old(self)@ + other@,
    {
        let ghost before = self@;
        let mut i: usize = 0;
        while i < other.items.len()
            invariant
                i <= other.items.len(),
                self@ =~= before + Set::new(
                    |v: RuleIdView| exists|j: int| 0 <= j < i && other.items@[j]@ == v,
                ),
            decreases other.items.len() - i,
        {
            self.insert(other.items[i].duplicate());
            i += 1;
        }
        proof {
            assert(self@ =~= before + other@);
        }
    }
}

impl RuleFormula {
    /// The set of placeholders that occur in this schema formula.
    pub fn identifiers(&self) -> (r: RuleIdSet)
        ensures
            r@ == rf_identifiers(self@),
        decreases self,
    {
        let mut ident = RuleIdSet::new();
        match self {
            RuleFormula::Ident(i) | RuleFormula::Not(i) => {
                ident.insert(i.duplicate());
            },
            RuleFormula::And { lhs, rhs } | RuleFormula::Or { lhs, rhs } | RuleFormula::Imp {
                lhs,
                rhs,
            } => {
                ident.insert(lhs.duplicate());
                ident.insert(rhs.duplicate());
            },
            RuleFormula::True | RuleFormula::False => {},
            RuleFormula::Forall { identifier, formula } | RuleFormula::Exists {
                identifier,
                formula,
            } => {
                let inner = formula.identifiers();
                ident.extend_with(&inner);
                ident.insert(identifier.duplicate());
            },
            RuleFormula::Substitution { identifier, lhs, rhs } => {
                ident.insert(identifier.duplicate());
                ident.insert(lhs.duplicate());
                ident.insert(rhs.duplicate());
            },
        }
        proof {
            assert(ident@ =~= rf_identifiers(self@));
        }
        ident
    }
}

impl RuleStatement {
    /// The set of placeholders of this schematic judgment.
    pub fn identifiers(&self) -> (r: RuleIdSet)
        ensures
            r@ == rs_identifiers(self@),
    {
        let mut set = self.formula.identifiers();
        match &self.lhs {
            Some(l) => {
                set.insert(l.duplicate());
            },
            None => {},
        }
        proof {
            assert(set@ =~= rs_identifiers(self@));
        }
        set
    }
}

impl DerivationRule {
    /// The set of placeholders of the whole rule.
    #[verifier::loop_isolation(false)]
    pub fn identifiers(&self) -> (r: RuleIdSet)
        ensures
            r@ == rule_identifiers(self@),
    {
        let mut set = RuleIdSet::new();
        let mut i: usize = 0;
        while i < self.premises.len()
            invariant
                i <= self.premises.len(),
                set@ == premises_identifiers(self@.premises, i as int),
            decreases self.premises.len() - i,
        {
            let p = self.premises[i].identifiers();
            set.extend_with(&p);
            i += 1;
        }
        let c = self.conclusion.identifiers();
        set.extend_with(&c);
        proof {
            assert(set@ =~= rule_identifiers(self@));
        }
        set
    }
}

} // verus!
