//! The fixed catalogue of the eighteen derivation rules. Each rule's schema
//! is pinned down by `rule_view`, and the constructors are proved to build
//! exactly that schema.

use vstd::prelude::*;

use crate::rule::{
    DerivationRule, DerivationRuleView, RuleFormula, RuleFormulaView, RuleIdView, RuleIdentifier,
    RuleStatement, RuleStatementView, Rules,
};

verus! {

/// The order in which `all_rules` lists the catalogue.
pub open spec fn catalogue_names() -> Seq<Rules> {
    seq![
        Rules::Ax,
        Rules::ImplIntro,
        Rules::ImplElim,
        Rules::FalseElim,
        Rules::NotIntro,
        Rules::NotElim,
        Rules::AndIntro,
        Rules::AndElimL,
        Rules::AndElimR,
        Rules::OrIntroL,
        Rules::OrIntroR,
        Rules::OrElim,
        Rules::ForallIntro,
        Rules::ForallElim,
        Rules::ExistsIntro,
        Rules::ExistsElim,
        Rules::AlphaForall,
        Rules::AlphaExists,
    ]
}

/// The schema of each rule of the catalogue.
pub open spec fn rule_view(name: Rules) -> DerivationRuleView {
    match name {
        Rules::Ax => DerivationRuleView {
            name,
            premises: Seq::empty(),
            conclusion: RuleStatementView {
                lhs: Some(RuleIdView::Formula(0)),
                formula: RuleFormulaView::Ident(RuleIdView::Formula(0)),
            },
        },
        Rules::ImplIntro => DerivationRuleView {
            name,
            premises: seq![
                RuleStatementView {
                    lhs: Some(RuleIdView::Formula(0)),
                    formula: RuleFormulaView::Ident(RuleIdView::Formula(1)),
                },
            ],
            conclusion: RuleStatementView {
                lhs: None,
                formula: RuleFormulaView::Imp {
                    lhs: RuleIdView::Formula(0),
                    rhs: RuleIdView::Formula(1),
                },
            },
        },
        Rules::ImplElim => DerivationRuleView {
            name,
            premises: seq![
                RuleStatementView {
                    lhs: None,
                    formula: RuleFormulaView::Imp {
                        lhs: RuleIdView::Formula(0),
                        rhs: RuleIdView::Formula(1),
                    },
                },
                RuleStatementView {
                    lhs: None,
                    formula: RuleFormulaView::Ident(RuleIdView::Formula(0)),
                },
            ],
            conclusion: RuleStatementView {
                lhs: None,
                formula: RuleFormulaView::Ident(RuleIdView::Formula(1)),
            },
        },
        Rules::FalseElim => DerivationRuleView {
            name,
            premises: seq![
                RuleStatementView { lhs: None, formula: RuleFormulaView::False },
            ],
            conclusion: RuleStatementView {
                lhs: None,
                formula: RuleFormulaView::Ident(RuleIdView::Formula(0)),
            },
        },
        Rules::NotIntro => DerivationRuleView {
            name,
            premises: seq![
                RuleStatementView {
                    lhs: Some(RuleIdView::Formula(0)),
                    formula: RuleFormulaView::False,
                },
            ],
            conclusion: RuleStatementView {
                lhs: None,
                formula: RuleFormulaView::Not(RuleIdView::Formula(0)),
            },
        },
        Rules::NotElim => DerivationRuleView {
            name,
            premises: seq![
                RuleStatementView {
                    lhs: None,
                    formula: RuleFormulaView::Not(RuleIdView::Formula(0)),
                },
                RuleStatementView {
                    lhs: None,
                    formula: RuleFormulaView::Ident(RuleIdView::Formula(0)),
                },
            ],
            conclusion: RuleStatementView {
                lhs: None,
                formula: RuleFormulaView::Ident(RuleIdView::Formula(1)),
            },
        },
        Rules::AndIntro => DerivationRuleView {
            name,
            premises: seq![
                RuleStatementView {
                    lhs: None,
                    formula: RuleFormulaView::Ident(RuleIdView::Formula(0)),
                },
                RuleStatementView {
                    lhs: None,
                    formula: RuleFormulaView::Ident(RuleIdView::Formula(1)),
                },
            ],
            conclusion: RuleStatementView {
                lhs: None,
                formula: RuleFormulaView::And {
                    lhs: RuleIdView::Formula(0),
                    rhs: RuleIdView::Formula(1),
                },
            },
        },
        Rules::AndElimL => DerivationRuleView {
            name,
            premises: seq![
                RuleStatementView {
                    lhs: None,
                    formula: RuleFormulaView::And {
                        lhs: RuleIdView::Formula(0),
                        rhs: RuleIdView::Formula(1),
                    },
                },
            ],
            conclusion: RuleStatementView {
                lhs: None,
                formula: RuleFormulaView::Ident(RuleIdView::Formula(0)),
            },
        },
        Rules::AndElimR => DerivationRuleView {
            name,
            premises: seq![
                RuleStatementView {
                    lhs: None,
                    formula: RuleFormulaView::And {
                        lhs: RuleIdView::Formula(0),
                        rhs: RuleIdView::Formula(1),
                    },
                },
            ],
            conclusion: RuleStatementView {
                lhs: None,
                formula: RuleFormulaView::Ident(RuleIdView::Formula(1)),
            },
        },
        Rules::OrIntroL => DerivationRuleView {
            name,
            premises: seq![
                RuleStatementView {
                    lhs: None,
                    formula: RuleFormulaView::Ident(RuleIdView::Formula(0)),
                },
            ],
            conclusion: RuleStatementView {
                lhs: None,
                formula: RuleFormulaView::Or {
                    lhs: RuleIdView::Formula(0),
                    rhs: RuleIdView::Formula(1),
                },
            },
        },
        Rules::OrIntroR => DerivationRuleView {
            name,
            premises: seq![
                RuleStatementView {
                    lhs: None,
                    formula: RuleFormulaView::Ident(RuleIdView::Formula(1)),
                },
            ],
            conclusion: RuleStatementView {
                lhs: None,
                formula: RuleFormulaView::Or {
                    lhs: RuleIdView::Formula(0),
                    rhs: RuleIdView::Formula(1),
                },
            },
        },
        Rules::OrElim => DerivationRuleView {
            name,
            premises: seq![
                RuleStatementView {
                    lhs: None,
                    formula: RuleFormulaView::Or {
                        lhs: RuleIdView::Formula(0),
                        rhs: RuleIdView::Formula(1),
                    },
                },
                RuleStatementView {
                    lhs: Some(RuleIdView::Formula(0)),
                    formula: RuleFormulaView::Ident(RuleIdView::Formula(2)),
                },
                RuleStatementView {
                    lhs: Some(RuleIdView::Formula(1)),
                    formula: RuleFormulaView::Ident(RuleIdView::Formula(2)),
                },
            ],
            conclusion: RuleStatementView {
                lhs: None,
                formula: RuleFormulaView::Ident(RuleIdView::Formula(2)),
            },
        },
        Rules::ForallIntro => DerivationRuleView {
            name,
            premises: seq![
                RuleStatementView {
                    lhs: None,
                    formula: RuleFormulaView::Ident(RuleIdView::Formula(0)),
                },
            ],
            conclusion: RuleStatementView {
                lhs: None,
                formula: RuleFormulaView::Forall {
                    identifier: RuleIdView::Element("x"@),
                    formula: Box::new(RuleFormulaView::Ident(RuleIdView::Formula(0))),
                },
            },
        },
        Rules::ForallElim => DerivationRuleView {
            name,
            premises: seq![
                RuleStatementView {
                    lhs: None,
                    formula: RuleFormulaView::Forall {
                        identifier: RuleIdView::Element("x"@),
                        formula: Box::new(RuleFormulaView::Ident(RuleIdView::Formula(0))),
                    },
                },
            ],
            conclusion: RuleStatementView {
                lhs: None,
                formula: RuleFormulaView::Substitution {
                    identifier: RuleIdView::Formula(0),
                    lhs: RuleIdView::Element("x"@),
                    rhs: RuleIdView::Element("t"@),
                },
            },
        },
        Rules::ExistsIntro => DerivationRuleView {
            name,
            premises: seq![
                RuleStatementView {
                    lhs: None,
                    formula: RuleFormulaView::Substitution {
                        identifier: RuleIdView::Formula(0),
                        lhs: RuleIdView::Element("x"@),
                        rhs: RuleIdView::Element("t"@),
                    },
                },
            ],
            conclusion: RuleStatementView {
                lhs: None,
                formula: RuleFormulaView::Exists {
                    identifier: RuleIdView::Element("x"@),
                    formula: Box::new(RuleFormulaView::Ident(RuleIdView::Formula(0))),
                },
            },
        },
        Rules::ExistsElim => DerivationRuleView {
            name,
            premises: seq![
                RuleStatementView {
                    lhs: None,
                    formula: RuleFormulaView::Exists {
                        identifier: RuleIdView::Element("x"@),
                        formula: Box::new(RuleFormulaView::Ident(RuleIdView::Formula(0))),
                    },
                },
                RuleStatementView {
                    lhs: Some(RuleIdView::Formula(0)),
                    formula: RuleFormulaView::Ident(RuleIdView::Formula(1)),
                },
            ],
            conclusion: RuleStatementView {
                lhs: None,
                formula: RuleFormulaView::Ident(RuleIdView::Formula(1)),
            },
        },
        Rules::AlphaForall => DerivationRuleView {
            name,
            premises: seq![
                RuleStatementView {
                    lhs: None,
                    formula: RuleFormulaView::Forall {
                        identifier: RuleIdView::Element("y"@),
                        formula: Box::new(RuleFormulaView::Substitution {
                            identifier: RuleIdView::Formula(0),
                            lhs: RuleIdView::Element("x"@),
                            rhs: RuleIdView::Element("y"@),
                        }),
                    },
                },
            ],
            conclusion: RuleStatementView {
                lhs: None,
                formula: RuleFormulaView::Forall {
                    identifier: RuleIdView::Element("x"@),
                    formula: Box::new(RuleFormulaView::Ident(RuleIdView::Formula(0))),
                },
            },
        },
        Rules::AlphaExists => DerivationRuleView {
            name,
            premises: seq![
                RuleStatementView {
                    lhs: None,
                    formula: RuleFormulaView::Exists {
                        identifier: RuleIdView::Element("y"@),
                        formula: Box::new(RuleFormulaView::Substitution {
                            identifier: RuleIdView::Formula(0),
                            lhs: RuleIdView::Element("x"@),
                            rhs: RuleIdView::Element("y"@),
                        }),
                    },
                },
            ],
            conclusion: RuleStatementView {
                lhs: None,
                formula: RuleFormulaView::Exists {
                    identifier: RuleIdView::Element("x"@),
                    formula: Box::new(RuleFormulaView::Ident(RuleIdView::Formula(0))),
                },
            },
        },
    }
}

fn build_ax() -> (r: DerivationRule)
    ensures
        r@ == rule_view(Rules::Ax),
{
    let r = DerivationRule {
        name: Rules::Ax,
        premises: Vec::new(),
        conclusion: RuleStatement {
            lhs: Some(RuleIdentifier::Formula(0)),
            formula: RuleFormula::Ident(RuleIdentifier::Formula(0)),
        },
    };
    proof {
        assert(r@ =~~= rule_view(Rules::Ax));
    }
    r
}

fn build_impl_intro() -> (r: DerivationRule)
    ensures
        r@ == rule_view(Rules::ImplIntro),
{
    let r = DerivationRule {
        name: Rules::ImplIntro,
        premises: vec![
            RuleStatement {
                lhs: Some(RuleIdentifier::Formula(0)),
                formula: RuleFormula::Ident(RuleIdentifier::Formula(1)),
            },
        ],
        conclusion: RuleStatement {
            lhs: None,
            formula: RuleFormula::Imp {
                lhs: RuleIdentifier::Formula(0),
                rhs: RuleIdentifier::Formula(1),
            },
        },
    };
    proof {
        assert(r@ =~~= rule_view(Rules::ImplIntro));
    }
    r
}

fn build_impl_elim() -> (r: DerivationRule)
    ensures
        r@ == rule_view(Rules::ImplElim),
{
    let r = DerivationRule {
        name: Rules::ImplElim,
        premises: vec![
            RuleStatement {
                lhs: None,
                formula: RuleFormula::Imp {
                    lhs: RuleIdentifier::Formula(0),
                    rhs: RuleIdentifier::Formula(1),
                },
            },
            RuleStatement {
                lhs: None,
                formula: RuleFormula::Ident(RuleIdentifier::Formula(0)),
            },
        ],
        conclusion: RuleStatement {
            lhs: None,
            formula: RuleFormula::Ident(RuleIdentifier::Formula(1)),
        },
    };
    proof {
        assert(r@ =~~= rule_view(Rules::ImplElim));
    }
    r
}

fn build_false_elim() -> (r: DerivationRule)
    ensures
        r@ == rule_view(Rules::FalseElim),
{
    let r = DerivationRule {
        name: Rules::FalseElim,
        premises: vec![RuleStatement { lhs: None, formula: RuleFormula::False }],
        conclusion: RuleStatement {
            lhs: None,
            formula: RuleFormula::Ident(RuleIdentifier::Formula(0)),
        },
    };
    proof {
        assert(r@ =~~= rule_view(Rules::FalseElim));
    }
    r
}

fn build_not_intro() -> (r: DerivationRule)
    ensures
        r@ == rule_view(Rules::NotIntro),
{
    let r = DerivationRule {
        name: Rules::NotIntro,
        premises: vec![
            RuleStatement {
                lhs: Some(RuleIdentifier::Formula(0)),
                formula: RuleFormula::False,
            },
        ],
        conclusion: RuleStatement {
            lhs: None,
            formula: RuleFormula::Not(RuleIdentifier::Formula(0)),
        },
    };
    proof {
        assert(r@ =~~= rule_view(Rules::NotIntro));
    }
    r
}

fn build_not_elim() -> (r: DerivationRule)
    ensures
        r@ == rule_view(Rules::NotElim),
{
    let r = DerivationRule {
        name: Rules::NotElim,
        premises: vec![
            RuleStatement {
                lhs: None,
                formula: RuleFormula::Not(RuleIdentifier::Formula(0)),
            },
            RuleStatement {
                lhs: None,
                formula: RuleFormula::Ident(RuleIdentifier::Formula(0)),
            },
        ],
        conclusion: RuleStatement {
            lhs: None,
            formula: RuleFormula::Ident(RuleIdentifier::Formula(1)),
        },
    };
    proof {
        assert(r@ =~~= rule_view(Rules::NotElim));
    }
    r
}

fn build_and_intro() -> (r: DerivationRule)
    ensures
        r@ == rule_view(Rules::AndIntro),
{
    let r = DerivationRule {
        name: Rules::AndIntro,
        premises: vec![
            RuleStatement {
                lhs: None,
                formula: RuleFormula::Ident(RuleIdentifier::Formula(0)),
            },
            RuleStatement {
                lhs: None,
                formula: RuleFormula::Ident(RuleIdentifier::Formula(1)),
            },
        ],
        conclusion: RuleStatement {
            lhs: None,
            formula: RuleFormula::And {
                lhs: RuleIdentifier::Formula(0),
                rhs: RuleIdentifier::Formula(1),
            },
        },
    };
    proof {
        assert(r@ =~~= rule_view(Rules::AndIntro));
    }
    r
}

fn build_and_elim_l() -> (r: DerivationRule)
    ensures
        r@ == rule_view(Rules::AndElimL),
{
    let r = DerivationRule {
        name: Rules::AndElimL,
        premises: vec![
            RuleStatement {
                lhs: None,
                formula: RuleFormula::And {
                    lhs: RuleIdentifier::Formula(0),
                    rhs: RuleIdentifier::Formula(1),
                },
            },
        ],
        conclusion: RuleStatement {
            lhs: None,
            formula: RuleFormula::Ident(RuleIdentifier::Formula(0)),
        },
    };
    proof {
        assert(r@ =~~= rule_view(Rules::AndElimL));
    }
    r
}

fn build_and_elim_r() -> (r: DerivationRule)
    ensures
        r@ == rule_view(Rules::AndElimR),
{
    let r = DerivationRule {
        name: Rules::AndElimR,
        premises: vec![
            RuleStatement {
                lhs: None,
                formula: RuleFormula::And {
                    lhs: RuleIdentifier::Formula(0),
                    rhs: RuleIdentifier::Formula(1),
                },
            },
        ],
        conclusion: RuleStatement {
            lhs: None,
            formula: RuleFormula::Ident(RuleIdentifier::Formula(1)),
        },
    };
    proof {
        assert(r@ =~~= rule_view(Rules::AndElimR));
    }
    r
}

fn build_or_intro_l() -> (r: DerivationRule)
    ensures
        r@ == rule_view(Rules::OrIntroL),
{
    let r = DerivationRule {
        name: Rules::OrIntroL,
        premises: vec![
            RuleStatement {
                lhs: None,
                formula: RuleFormula::Ident(RuleIdentifier::Formula(0)),
            },
        ],
        conclusion: RuleStatement {
            lhs: None,
            formula: RuleFormula::Or {
                lhs: RuleIdentifier::Formula(0),
                rhs: RuleIdentifier::Formula(1),
            },
        },
    };
    proof {
        assert(r@ =~~= rule_view(Rules::OrIntroL));
    }
    r
}

fn build_or_intro_r() -> (r: DerivationRule)
    ensures
        r@ == rule_view(Rules::OrIntroR),
{
    let r = DerivationRule {
        name: Rules::OrIntroR,
        premises: vec![
            RuleStatement {
                lhs: None,
                formula: RuleFormula::Ident(RuleIdentifier::Formula(1)),
            },
        ],
        conclusion: RuleStatement {
            lhs: None,
            formula: RuleFormula::Or {
                lhs: RuleIdentifier::Formula(0),
                rhs: RuleIdentifier::Formula(1),
            },
        },
    };
    proof {
        assert(r@ =~~= rule_view(Rules::OrIntroR));
    }
    r
}

fn build_or_elim() -> (r: DerivationRule)
    ensures
        r@ == rule_view(Rules::OrElim),
{
    let r = DerivationRule {
        name: Rules::OrElim,
        premises: vec![
            RuleStatement {
                lhs: None,
                formula: RuleFormula::Or {
                    lhs: RuleIdentifier::Formula(0),
                    rhs: RuleIdentifier::Formula(1),
                },
            },
            RuleStatement {
                lhs: Some(RuleIdentifier::Formula(0)),
                formula: RuleFormula::Ident(RuleIdentifier::Formula(2)),
            },
            RuleStatement {
                lhs: Some(RuleIdentifier::Formula(1)),
                formula: RuleFormula::Ident(RuleIdentifier::Formula(2)),
            },
        ],
        conclusion: RuleStatement {
            lhs: None,
            formula: RuleFormula::Ident(RuleIdentifier::Formula(2)),
        },
    };
    proof {
        assert(r@ =~~= rule_view(Rules::OrElim));
    }
    r
}

fn build_forall_intro() -> (r: DerivationRule)
    ensures
        r@ == rule_view(Rules::ForallIntro),
{
    let r = DerivationRule {
        name: Rules::ForallIntro,
        premises: vec![
            RuleStatement {
                lhs: None,
                formula: RuleFormula::Ident(RuleIdentifier::Formula(0)),
            },
        ],
        conclusion: RuleStatement {
            lhs: None,
            formula: RuleFormula::Forall {
                identifier: RuleIdentifier::Element("x".to_owned()),
                formula: Box::new(RuleFormula::Ident(RuleIdentifier::Formula(0))),
            },
        },
    };
    proof {
        assert(r@ =~~= rule_view(Rules::ForallIntro));
    }
    r
}

fn build_forall_elim() -> (r: DerivationRule)
    ensures
        r@ == rule_view(Rules::ForallElim),
{
    let r = DerivationRule {
        name: Rules::ForallElim,
        premises: vec![
            RuleStatement {
                lhs: None,
                formula: RuleFormula::Forall {
                    identifier: RuleIdentifier::Element("x".to_owned()),
                    formula: Box::new(RuleFormula::Ident(RuleIdentifier::Formula(0))),
                },
            },
        ],
        conclusion: RuleStatement {
            lhs: None,
            formula: RuleFormula::Substitution {
                identifier: RuleIdentifier::Formula(0),
                lhs: RuleIdentifier::Element("x".to_owned()),
                rhs: RuleIdentifier::Element("t".to_owned()),
            },
        },
    };
    proof {
        reveal_with_fuel(RuleFormula::deep, 3);
        assert(r@ =~~= rule_view(Rules::ForallElim));
    }
    r
}

fn build_exists_intro() -> (r: DerivationRule)
    ensures
        r@ == rule_view(Rules::ExistsIntro),
{
    let r = DerivationRule {
        name: Rules::ExistsIntro,
        premises: vec![
            RuleStatement {
                lhs: None,
                formula: RuleFormula::Substitution {
                    identifier: RuleIdentifier::Formula(0),
                    lhs: RuleIdentifier::Element("x".to_owned()),
                    rhs: RuleIdentifier::Element("t".to_owned()),
                },
            },
        ],
        conclusion: RuleStatement {
            lhs: None,
            formula: RuleFormula::Exists {
                identifier: RuleIdentifier::Element("x".to_owned()),
                formula: Box::new(RuleFormula::Ident(RuleIdentifier::Formula(0))),
            },
        },
    };
    proof {
        reveal_with_fuel(RuleFormula::deep, 3);
        assert(r@ =~~= rule_view(Rules::ExistsIntro));
    }
    r
}

fn build_exists_elim() -> (r: DerivationRule)
    ensures
        r@ == rule_view(Rules::ExistsElim),
{
    let r = DerivationRule {
        name: Rules::ExistsElim,
        premises: vec![
            RuleStatement {
                lhs: None,
                formula: RuleFormula::Exists {
                    identifier: RuleIdentifier::Element("x".to_owned()),
                    formula: Box::new(RuleFormula::Ident(RuleIdentifier::Formula(0))),
                },
            },
            RuleStatement {
                lhs: Some(RuleIdentifier::Formula(0)),
                formula: RuleFormula::Ident(RuleIdentifier::Formula(1)),
            },
        ],
        conclusion: RuleStatement {
            lhs: None,
            formula: RuleFormula::Ident(RuleIdentifier::Formula(1)),
        },
    };
    proof {
        reveal_with_fuel(RuleFormula::deep, 3);
        assert(r@ =~~= rule_view(Rules::ExistsElim));
    }
    r
}

fn build_alpha_forall() -> (r: DerivationRule)
    ensures
        r@ == rule_view(Rules::AlphaForall),
{
    let r = DerivationRule {
        name: Rules::AlphaForall,
        premises: vec![
            RuleStatement {
                lhs: None,
                formula: RuleFormula::Forall {
                    identifier: RuleIdentifier::Element("y".to_owned()),
                    formula: Box::new(RuleFormula::Substitution {
                        identifier: RuleIdentifier::Formula(0),
                        lhs: RuleIdentifier::Element("x".to_owned()),
                        rhs: RuleIdentifier::Element("y".to_owned()),
                    }),
                },
            },
        ],
        conclusion: RuleStatement {
            lhs: None,
            formula: RuleFormula::Forall {
                identifier: RuleIdentifier::Element("x".to_owned()),
                formula: Box::new(RuleFormula::Ident(RuleIdentifier::Formula(0))),
            },
        },
    };
    proof {
        reveal_with_fuel(RuleFormula::deep, 3);
        assert(r@ =~~= rule_view(Rules::AlphaForall));
    }
    r
}

fn build_alpha_exists() -> (r: DerivationRule)
    ensures
        r@ == rule_view(Rules::AlphaExists),
{
    let r = DerivationRule {
        name: Rules::AlphaExists,
        premises: vec![
            RuleStatement {
                lhs: None,
                formula: RuleFormula::Exists {
                    identifier: RuleIdentifier::Element("y".to_owned()),
                    formula: Box::new(RuleFormula::Substitution {
                        identifier: RuleIdentifier::Formula(0),
                        lhs: RuleIdentifier::Element("x".to_owned()),
                        rhs: RuleIdentifier::Element("y".to_owned()),
                    }),
                },
            },
        ],
        conclusion: RuleStatement {
            lhs: None,
            formula: RuleFormula::Exists {
                identifier: RuleIdentifier::Element("x".to_owned()),
                formula: Box::new(RuleFormula::Ident(RuleIdentifier::Formula(0))),
            },
        },
    };
    proof {
        reveal_with_fuel(RuleFormula::deep, 3);
        assert(r@ =~~= rule_view(Rules::AlphaExists));
    }
    r
}

impl Rules {
    /// The schema of this rule, exactly as `rule_view` describes it.
    pub fn get_rule(&self) -> (r: DerivationRule)
        ensures
            r@ == rule_view(*self),
            r.name == *self,
    {
        let r = match self {
            Rules::Ax => build_ax(),
            Rules::ImplIntro => build_impl_intro(),
            Rules::ImplElim => build_impl_elim(),
            Rules::FalseElim => build_false_elim(),
            Rules::NotIntro => build_not_intro(),
            Rules::NotElim => build_not_elim(),
            Rules::AndIntro => build_and_intro(),
            Rules::AndElimL => build_and_elim_l(),
            Rules::AndElimR => build_and_elim_r(),
            Rules::OrIntroL => build_or_intro_l(),
            Rules::OrIntroR => build_or_intro_r(),
            Rules::OrElim => build_or_elim(),
            Rules::ForallIntro => build_forall_intro(),
            Rules::ForallElim => build_forall_elim(),
            Rules::ExistsIntro => build_exists_intro(),
            Rules::ExistsElim => build_exists_elim(),
            Rules::AlphaForall => build_alpha_forall(),
            Rules::AlphaExists => build_alpha_exists(),
        };
        r
    }

    /// The whole catalogue, in its fixed order.
    pub fn all_rules() -> (r: Vec<DerivationRule>)
        ensures
            r@.len() == catalogue_names().len(),
            forall|i: int| 0 <= i < r@.len() ==> r@[i]@ == rule_view(catalogue_names()[i]),
            forall|i: int| 0 <= i < r@.len() ==> r@[i].name == catalogue_names()[i],
    {
        let mut rules: Vec<DerivationRule> = Vec::new();
        rules.push(Rules::Ax.get_rule());
        rules.push(Rules::ImplIntro.get_rule());
        rules.push(Rules::ImplElim.get_rule());
        rules.push(Rules::FalseElim.get_rule());
        rules.push(Rules::NotIntro.get_rule());
        rules.push(Rules::NotElim.get_rule());
        rules.push(Rules::AndIntro.get_rule());
        rules.push(Rules::AndElimL.get_rule());
        rules.push(Rules::AndElimR.get_rule());
        rules.push(Rules::OrIntroL.get_rule());
        rules.push(Rules::OrIntroR.get_rule());
        rules.push(Rules::OrElim.get_rule());
        rules.push(Rules::ForallIntro.get_rule());
        rules.push(Rules::ForallElim.get_rule());
        rules.push(Rules::ExistsIntro.get_rule());
        rules.push(Rules::ExistsElim.get_rule());
        rules.push(Rules::AlphaForall.get_rule());
        rules.push(Rules::AlphaExists.get_rule());
        rules
    }
}

/// The catalogue as a plain list.
pub fn all_rules() -> (r: Vec<DerivationRule>)
    ensures
        r@.len() == catalogue_names().len(),
        forall|i: int| 0 <= i < r@.len() ==> r@[i]@ == rule_view(catalogue_names()[i]),
{
    Rules::all_rules()
}


} // verus!
