//! Renaming of propositional formulas to canonical letter names: literals get
//! fresh upper-case letters, elements and predicates fresh lower-case letters,
//! drawn from fixed alphabets with a hard limit per kind.

use vstd::prelude::*;

use crate::errors::DeductionError;
use crate::formula::{Formula, FormulaView, Identifier, IdentView};

verus! {

/// The `i`-th canonical upper-case letter name.
pub open spec fn upper_name(i: u32) -> Seq<char> {
    match i {
        0u32 => "A"@,
        1u32 => "B"@,
        2u32 => "C"@,
        3u32 => "D"@,
        4u32 => "E"@,
        5u32 => "F"@,
        6u32 => "G"@,
        7u32 => "H"@,
        8u32 => "I"@,
        9u32 => "J"@,
        10u32 => "K"@,
        11u32 => "L"@,
        12u32 => "M"@,
        13u32 => "N"@,
        14u32 => "O"@,
        15u32 => "P"@,
        16u32 => "Q"@,
        17u32 => "R"@,
        18u32 => "S"@,
        19u32 => "T"@,
        20u32 => "U"@,
        21u32 => "V"@,
        22u32 => "W"@,
        23u32 => "X"@,
        24u32 => "Y"@,
        _ => "Z"@,
    }
}

/// The `i`-th canonical lower-case letter name; the alphabet starts at `x` so
/// that the first variables read naturally.
pub open spec fn lower_name(i: u32) -> Seq<char> {
    match i {
        0u32 => "x"@,
        1u32 => "y"@,
        2u32 => "z"@,
        3u32 => "a"@,
        4u32 => "b"@,
        5u32 => "c"@,
        6u32 => "d"@,
        7u32 => "e"@,
        8u32 => "f"@,
        9u32 => "g"@,
        10u32 => "h"@,
        11u32 => "i"@,
        12u32 => "j"@,
        13u32 => "k"@,
        14u32 => "l"@,
        15u32 => "m"@,
        16u32 => "n"@,
        17u32 => "o"@,
        18u32 => "p"@,
        19u32 => "q"@,
        20u32 => "r"@,
        21u32 => "s"@,
        22u32 => "t"@,
        23u32 => "u"@,
        24u32 => "v"@,
        _ => "w"@,
    }
}

fn upper_name_str(i: u32) -> (r: &'static str)
    requires
        i < 26,
    ensures
        r@ == upper_name(i),
{
    match i {
        0u32 => "A",
        1u32 => "B",
        2u32 => "C",
        3u32 => "D",
        4u32 => "E",
        5u32 => "F",
        6u32 => "G",
        7u32 => "H",
        8u32 => "I",
        9u32 => "J",
        10u32 => "K",
        11u32 => "L",
        12u32 => "M",
        13u32 => "N",
        14u32 => "O",
        15u32 => "P",
        16u32 => "Q",
        17u32 => "R",
        18u32 => "S",
        19u32 => "T",
        20u32 => "U",
        21u32 => "V",
        22u32 => "W",
        23u32 => "X",
        24u32 => "Y",
        _ => "Z",
    }
}

fn lower_name_str(i: u32) -> (r: &'static str)
    requires
        i < 26,
    ensures
        r@ == lower_name(i),
{
    match i {
        0u32 => "x",
        1u32 => "y",
        2u32 => "z",
        3u32 => "a",
        4u32 => "b",
        5u32 => "c",
        6u32 => "d",
        7u32 => "e",
        8u32 => "f",
        9u32 => "g",
        10u32 => "h",
        11u32 => "i",
        12u32 => "j",
        13u32 => "k",
        14u32 => "l",
        15u32 => "m",
        16u32 => "n",
        17u32 => "o",
        18u32 => "p",
        19u32 => "q",
        20u32 => "r",
        21u32 => "s",
        22u32 => "t",
        23u32 => "u",
        24u32 => "v",
        _ => "w",
    }
}

// ---------------------------------------------------------------------------
// Name tables
// ---------------------------------------------------------------------------

/// The map a sequence of (name, identifier) entries denotes; a later entry
/// for the same name wins.
pub open spec fn name_entries_map(s: Seq<(String, Identifier)>) -> Map<Seq<char>, IdentView>
    decreases s.len(),
{
    if s.len() == 0 {
        Map::empty()
    } else {
        name_entries_map(s.drop_last()).insert(s.last().0@, s.last().1@)
    }
}

/// A table from source names to canonical identifiers.
#[derive(Debug)]
pub struct NameMap {
    entries: Vec<(String, Identifier)>,
}

impl View for NameMap {
    type V = Map<Seq<char>, IdentView>;

    closed spec fn view(&self) -> Map<Seq<char>, IdentView> {
        name_entries_map(self.entries@)
    }
}

/// Recursive lookup mirroring `name_entries_map`.
pub open spec fn name_entries_lookup(s: Seq<(String, Identifier)>, k: Seq<char>) -> Option<
    IdentView,
>
    decreases s.len(),
{
    if s.len() == 0 {
        None
    } else if s.last().0@ == k {
        Some(s.last().1@)
    } else {
        name_entries_lookup(s.drop_last(), k)
    }
}

proof fn lemma_name_lookup(s: Seq<(String, Identifier)>, k: Seq<char>)
    ensures
        match name_entries_lookup(s, k) {
            Some(v) => name_entries_map(s).contains_key(k) && name_entries_map(s)[k] == v,
            None => !name_entries_map(s).contains_key(k),
        },
    decreases s.len(),
{
    if s.len() > 0 {
        lemma_name_lookup(s.drop_last(), k);
    }
}

impl NameMap {
    pub fn new() -> (r: NameMap)
        ensures
            r@ == Map::<Seq<char>, IdentView>::empty(),
    {
        NameMap { entries: Vec::new() }
    }

    /// Records a canonical identifier for a source name.
    pub fn set(&mut self, k: String, v: Identifier)
        ensures
            final(self)@ == old(self)@.insert(k@, v@),
    {
        let ghost before = self.entries@;
        self.entries.push((k, v));
        proof {
            assert(self.entries@.drop_last() =~= before);
        }
    }

    /// The canonical identifier recorded for a source name, if any.
    #[verifier::loop_isolation(false)]
    pub fn get(&self, k: &String) -> (r: Option<&Identifier>)
        ensures
            match r {
                Some(v) => self@.contains_key(k@) && v@ == self@[k@],
                None => !self@.contains_key(k@),
            },
    {
        let mut i: usize = self.entries.len();
        proof {
            assert(self.entries@.take(i as int) =~= self.entries@);
        }
        while i > 0
            invariant
                i <= self.entries.len(),
                name_entries_lookup(self.entries@, k@) == name_entries_lookup(
                    self.entries@.take(i as int),
                    k@,
                ),
            decreases i,
        {
            i -= 1;
            proof {
                assert(self.entries@.take(i as int + 1).drop_last() =~= self.entries@.take(
                    i as int,
                ));
                assert(self.entries@.take(i as int + 1).last() == self.entries@[i as int]);
            }
            if self.entries[i].0 == *k {
                proof {
                    lemma_name_lookup(self.entries@, k@);
                }
                return Some(&self.entries[i].1);
            }
        }
        proof {
            lemma_name_lookup(self.entries@, k@);
        }
        None
    }
}

// ---------------------------------------------------------------------------
// The normalizer
// ---------------------------------------------------------------------------

/// Renaming state: tables from source names to canonical identifiers, and the
/// next free letter of each alphabet.
#[derive(Debug)]
pub struct Normalizer {
    literal: NameMap,
    element: NameMap,
    capture_element: NameMap,
    predicate: NameMap,
    literal_counter: u32,
    element_counter: u32,
    predicate_counter: u32,
}

impl Normalizer {
    /// The table of canonical literal names.
    pub closed spec fn literal_view(&self) -> Map<Seq<char>, IdentView> {
        self.literal@
    }

    /// The next free upper-case letter index.
    pub closed spec fn spec_literal_counter(&self) -> u32 {
        self.literal_counter
    }

    /// The next free element letter index.
    pub closed spec fn spec_element_counter(&self) -> u32 {
        self.element_counter
    }

    /// The next free predicate letter index.
    pub closed spec fn spec_predicate_counter(&self) -> u32 {
        self.predicate_counter
    }

    /// A fresh normalizer: empty tables, every alphabet unused.
    pub fn new() -> (r: Normalizer)
        ensures
            r.literal_view() == Map::<Seq<char>, IdentView>::empty(),
            r.spec_literal_counter() == 0,
            r.spec_element_counter() == 0,
            r.spec_predicate_counter() == 0,
    {
        Normalizer {
            literal: NameMap::new(),
            element: NameMap::new(),
            capture_element: NameMap::new(),
            predicate: NameMap::new(),
            literal_counter: 0,
            element_counter: 0,
            predicate_counter: 0,
        }
    }

    /// The next fresh literal letter; at most 25 literals can be drawn.
    pub fn next_literal(&mut self) -> (r: Result<Identifier, DeductionError>)
        requires
            old(self).spec_literal_counter() < 26,
        ensures
            final(self).spec_literal_counter() == old(self).spec_literal_counter() + 1,
            final(self).literal_view() == old(self).literal_view(),
            final(self).spec_element_counter() == old(self).spec_element_counter(),
            final(self).spec_predicate_counter() == old(self).spec_predicate_counter(),
            r is Ok <==> old(self).spec_literal_counter() + 1 < 26,
            r matches Ok(id) ==> id@ == IdentView::Literal(
                upper_name(old(self).spec_literal_counter()),
            ),
            r matches Err(e) ==> e == DeductionError::TooManyNames,
    {
        let letter = upper_name_str(self.literal_counter);
        self.literal_counter = self.literal_counter + 1;
        if self.literal_counter >= 26 {
            return Err(DeductionError::TooManyNames);
        }
        Ok(Identifier::Literal(letter.to_owned()))
    }

    /// The next fresh element letter; at most 17 elements can be drawn.
    pub fn next_element(&mut self) -> (r: Result<Identifier, DeductionError>)
        requires
            old(self).spec_element_counter() < 26,
        ensures
            final(self).spec_element_counter() == old(self).spec_element_counter() + 1,
            final(self).literal_view() == old(self).literal_view(),
            final(self).spec_literal_counter() == old(self).spec_literal_counter(),
            final(self).spec_predicate_counter() == old(self).spec_predicate_counter(),
            r is Ok <==> old(self).spec_element_counter() + 1 < 18,
            r matches Ok(id) ==> id@ == IdentView::Element(
                lower_name(old(self).spec_element_counter()),
            ),
            r matches Err(e) ==> e == DeductionError::TooManyNames,
    {
        let letter = lower_name_str(self.element_counter);
        self.element_counter = self.element_counter + 1;
        if self.element_counter >= 18 {
            return Err(DeductionError::TooManyNames);
        }
        Ok(Identifier::Element(letter.to_owned()))
    }

    /// The next fresh predicate letter; at most 25 predicates can be drawn.
    pub fn next_predicate(&mut self) -> (r: Result<Identifier, DeductionError>)
        requires
            old(self).spec_predicate_counter() < 26,
        ensures
            final(self).spec_predicate_counter() == old(self).spec_predicate_counter() + 1,
            final(self).literal_view() == old(self).literal_view(),
            final(self).spec_literal_counter() == old(self).spec_literal_counter(),
            final(self).spec_element_counter() == old(self).spec_element_counter(),
            r is Ok <==> old(self).spec_predicate_counter() + 1 < 26,
            r matches Ok(id) ==> id@ == IdentView::Element(
                lower_name(old(self).spec_predicate_counter()),
            ),
            r matches Err(e) ==> e == DeductionError::TooManyNames,
    {
        let letter = lower_name_str(self.predicate_counter);
        self.predicate_counter = self.predicate_counter + 1;
        if self.predicate_counter >= 26 {
            return Err(DeductionError::TooManyNames);
        }
        Ok(Identifier::Element(letter.to_owned()))
    }
}

/// The formulas `normalize` accepts: propositional structure over literal
/// atoms.
pub open spec fn normalizable(f: FormulaView) -> bool
    decreases f,
{
    match f {
        FormulaView::And { lhs, rhs } => normalizable(*lhs) && normalizable(*rhs),
        FormulaView::Or { lhs, rhs } => normalizable(*lhs) && normalizable(*rhs),
        FormulaView::Imp { lhs, rhs } => normalizable(*lhs) && normalizable(*rhs),
        FormulaView::Not(g) => normalizable(*g),
        FormulaView::True => true,
        FormulaView::False => true,
        FormulaView::Ident(IdentView::Literal(_)) => true,
        _ => false,
    }
}

/// What `normalize` computes: the renamed formula and the next free letter
/// index, or nothing once the alphabet runs out. A literal with a recorded
/// canonical name keeps it; any other literal is given a fresh letter.
pub open spec fn normalize_spec(
    f: FormulaView,
    lit: Map<Seq<char>, IdentView>,
    counter: u32,
) -> Option<(FormulaView, u32)>
    decreases f,
{
    match f {
        FormulaView::And { lhs, rhs } => match normalize_spec(*lhs, lit, counter) {
            None => None,
            Some((l, c1)) => match normalize_spec(*rhs, lit, c1) {
                None => None,
                Some((r, c2)) => Some(
                    (FormulaView::And { lhs: Box::new(l), rhs: Box::new(r) }, c2),
                ),
            },
        },
        FormulaView::Or { lhs, rhs } => match normalize_spec(*lhs, lit, counter) {
            None => None,
            Some((l, c1)) => match normalize_spec(*rhs, lit, c1) {
                None => None,
                Some((r, c2)) => Some(
                    (FormulaView::Or { lhs: Box::new(l), rhs: Box::new(r) }, c2),
                ),
            },
        },
        FormulaView::Imp { lhs, rhs } => match normalize_spec(*lhs, lit, counter) {
            None => None,
            Some((l, c1)) => match normalize_spec(*rhs, lit, c1) {
                None => None,
                Some((r, c2)) => Some(
                    (FormulaView::Imp { lhs: Box::new(l), rhs: Box::new(r) }, c2),
                ),
            },
        },
        FormulaView::Not(g) => match normalize_spec(*g, lit, counter) {
            None => None,
            Some((n, c1)) => Some((FormulaView::Not(Box::new(n)), c1)),
        },
        FormulaView::True => Some((FormulaView::True, counter)),
        FormulaView::False => Some((FormulaView::False, counter)),
        FormulaView::Ident(IdentView::Literal(s)) => if lit.contains_key(s) {
            Some((FormulaView::Ident(lit[s]), counter))
        } else if counter + 1 < 26 {
            Some((FormulaView::Ident(IdentView::Literal(upper_name(counter))), (counter + 1) as u32))
        } else {
            None
        },
        _ => None,
    }
}

/// Renames the literals of a propositional formula to canonical letters.
pub fn normalize(formula: Formula, mapping: &mut Normalizer) -> (r: Result<
    Formula,
    DeductionError,
>)
    requires
        normalizable(formula@),
        old(mapping).spec_literal_counter() < 26,
    ensures
        final(mapping).literal_view() == old(mapping).literal_view(),
        final(mapping).spec_element_counter() == old(mapping).spec_element_counter(),
        final(mapping).spec_predicate_counter() == old(mapping).spec_predicate_counter(),
        r is Ok <==> normalize_spec(
            formula@,
            old(mapping).literal_view(),
            old(mapping).spec_literal_counter(),
        ) is Some,
        r matches Ok(g) ==> ({
            let p = normalize_spec(
                formula@,
                old(mapping).literal_view(),
                old(mapping).spec_literal_counter(),
            ).unwrap();
            g@ == p.0 && final(mapping).spec_literal_counter() == p.1
        }),
        r is Ok ==> final(mapping).spec_literal_counter() < 26,
        r matches Err(e) ==> e == DeductionError::TooManyNames,
    decreases formula,
{
    match formula {
        Formula::And { lhs, rhs } => {
            let l = normalize(*lhs, mapping)?;
            let r = normalize(*rhs, mapping)?;
            Ok(Formula::And { lhs: Box::new(l), rhs: Box::new(r) })
        },
        Formula::Or { lhs, rhs } => {
            let l = normalize(*lhs, mapping)?;
            let r = normalize(*rhs, mapping)?;
            Ok(Formula::Or { lhs: Box::new(l), rhs: Box::new(r) })
        },
        Formula::Imp { lhs, rhs } => {
            let l = normalize(*lhs, mapping)?;
            let r = normalize(*rhs, mapping)?;
            Ok(Formula::Imp { lhs: Box::new(l), rhs: Box::new(r) })
        },
        Formula::Not(g) => {
            let n = normalize(*g, mapping)?;
            Ok(Formula::Not(Box::new(n)))
        },
        Formula::True => Ok(Formula::True),
        Formula::False => Ok(Formula::False),
        Formula::Ident(Identifier::Literal(s)) => {
            match mapping.literal.get(&s) {
                Some(known) => Ok(Formula::Ident(known.duplicate())),
                None => {
                    let fresh = mapping.next_literal()?;
                    Ok(Formula::Ident(fresh))
                },
            }
        },
        _ => {
            proof {
                assert(false);
            }
            Err(DeductionError::MalformedFormula)
        },
    }
}

} // verus!
