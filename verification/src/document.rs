use crate::content::UpdateElem;
use crate::key::{
    key_eq, key_eqv, lbl_eqv, lemma_key_eqv_sym, lemma_key_eqv_trans, sel_eqv, CounterKey,
    ElemFunc, Label, Selector,
};
use crate::state::CounterUpdate;
use vstd::prelude::*;

verus! {

/// An opaque, totally ordered position identifier: the index of an
/// element in the final document order.
#[derive(Debug, Clone, Copy, PartialEq, Eq, Structural, Hash)]
pub struct Location(pub usize);

/// How an element kind counts itself when a counter selects it.
#[derive(Debug)]
pub enum Counting {
    /// The kind declares no counting behaviour of its own; the engine
    /// applies the default step at level 1.
    Default,
    /// The kind declares custom counting behaviour, which yields this
    /// update for the element — possibly none at all.
    Custom(Option<CounterUpdate>),
}

/// What one locatable element of the document is, as far as counting is
/// concerned.
#[derive(Debug)]
pub enum ElemBody {
    /// An explicit counter update event placed as content.
    Update(UpdateElem),
    /// A countable document element of some kind.
    Countable { func: ElemFunc, label: Option<Label>, counting: Counting },
}

/// One locatable element, with the physical page it landed on.
#[derive(Debug)]
pub struct DocElem {
    /// The physical page number of this element's position.
    pub page: usize,
    /// What the element is.
    pub body: ElemBody,
}

/// The complete queryable structural state of the document at one
/// evaluation pass, as the document-query collaborator exposes it: all
/// locatable elements in final document order, the total page count, and
/// an identity for memoization. The element at index `i` is at
/// `Location(i)`.
#[derive(Debug)]
pub struct Snapshot {
    /// All locatable elements, in final document order.
    pub events: Vec<DocElem>,
    /// The total number of physical pages.
    pub pages: usize,
    /// Identity of this snapshot; a new evaluation pass carries a new
    /// generation.
    pub generation: u64,
}

impl Counting {
    /// Any update a kind declares must itself be well formed.
    pub open spec fn wf(&self) -> bool {
        match *self {
            Counting::Custom(Option::Some(u)) => u.wf(),
            _ => true,
        }
    }
}

impl ElemBody {
    /// Every update carried by an element must be well formed.
    pub open spec fn wf(&self) -> bool {
        match *self {
            ElemBody::Update(u) => u.update.wf(),
            ElemBody::Countable { counting, .. } => counting.wf(),
        }
    }
}

impl DocElem {
    /// Pages are numbered from 1.
    pub open spec fn wf(&self) -> bool {
        &&& 1 <= self.page
        &&& self.body.wf()
    }
}

impl Snapshot {
    /// A well-formed snapshot: at least one page, every element on an
    /// existing page, every carried update well formed.
    pub open spec fn wf(&self) -> bool {
        &&& 1 <= self.pages
        &&& forall|i: int|
            0 <= i < self.events@.len() ==> (#[trigger] self.events@[i]).wf()
                && self.events@[i].page <= self.pages
    }

    /// Whether a location names an element of this snapshot.
    pub open spec fn valid_loc(&self, loc: Location) -> bool {
        loc.0 < self.events@.len()
    }

    /// The physical page number at a location.
    pub open spec fn page_of(&self, loc: Location) -> int {
        self.events@[loc.0 as int].page as int
    }
}

/// Whether physical page numbers never decrease along document order.
/// Floating content can break this, so it is a hypothesis of the
/// monotonicity law rather than part of well-formedness.
pub open spec fn pages_ordered(doc: Snapshot) -> bool {
    forall|i: int, j: int|
        0 <= i <= j < doc.events@.len() ==> (#[trigger] doc.events@[i]).page <= (
        #[trigger] doc.events@[j]).page
}

/// Whether a label filter accepts an element's optional label.
pub open spec fn lbl_matches(l: Label, el: Option<Label>) -> bool {
    match el {
        Option::Some(x) => lbl_eqv(x, l),
        Option::None => false,
    }
}

/// The selector evaluator: whether the element standing at index `at`
/// matches the pattern.
pub open spec fn spec_matches(sel: Selector, e: DocElem, at: int) -> bool
    decreases sel,
{
    match sel {
        Selector::Elem(f, filter) => match e.body {
            ElemBody::Countable { func, label, .. } => func == f && match filter {
                Option::None => true,
                Option::Some(l) => lbl_matches(l, label),
            },
            _ => false,
        },
        Selector::Label(l) => match e.body {
            ElemBody::Countable { label, .. } => lbl_matches(l, label),
            _ => false,
        },
        Selector::Or(a, b) => spec_matches(*a, e, at) || spec_matches(*b, e, at),
        Selector::And(a, b) => spec_matches(*a, e, at) && spec_matches(*b, e, at),
        Selector::Before(s, loc, inclusive) => spec_matches(*s, e, at) && (at < loc.0 || (inclusive
            && at == loc.0)),
    }
}

/// The selection relevant for a counter's sequence: explicit update
/// events addressed to its key and, for a selector key, the elements the
/// selector matches directly.
pub open spec fn spec_selected(key: CounterKey, e: DocElem, at: int) -> bool {
    ||| (e.body matches ElemBody::Update(u) && key_eqv(u.key, key))
    ||| (key matches CounterKey::Selector(sel) && spec_matches(sel, e, at))
}

/// Decides whether the element at index `at` matches the selector.
pub fn elem_matches(sel: &Selector, e: &DocElem, at: usize) -> (r: bool)
    ensures
        r == spec_matches(*sel, *e, at as int),
    decreases *sel,
{
    match sel {
        Selector::Elem(f, filter) => match &e.body {
            ElemBody::Countable { func, label, .. } => *func == *f && match filter {
                Option::None => true,
                Option::Some(l) => match label {
                    Option::Some(x) => crate::key::label_eq(x, l),
                    Option::None => false,
                },
            },
            _ => false,
        },
        Selector::Label(l) => match &e.body {
            ElemBody::Countable { label, .. } => match label {
                Option::Some(x) => crate::key::label_eq(x, l),
                Option::None => false,
            },
            _ => false,
        },
        Selector::Or(a, b) => elem_matches(&*a, e, at) || elem_matches(&*b, e, at),
        Selector::And(a, b) => elem_matches(&*a, e, at) && elem_matches(&*b, e, at),
        Selector::Before(s, loc, inclusive) => elem_matches(&*s, e, at) && (at < loc.0 || (
        *inclusive && at == loc.0)),
    }
}

/// Decides whether a counter with the given key selects the element at
/// index `at`.
pub fn elem_selected(key: &CounterKey, e: &DocElem, at: usize) -> (r: bool)
    ensures
        r == spec_selected(*key, *e, at as int),
{
    let explicit = match &e.body {
        ElemBody::Update(u) => key_eq(&u.key, key),
        _ => false,
    };
    if explicit {
        true
    } else {
        match key {
            CounterKey::Selector(sel) => elem_matches(sel, e, at),
            _ => false,
        }
    }
}

/// Matching is a congruence for selector identity: equivalent selectors
/// match the same elements.
pub proof fn lemma_matches_congruent(s1: Selector, s2: Selector, e: DocElem, at: int)
    requires
        sel_eqv(s1, s2),
    ensures
        spec_matches(s1, e, at) == spec_matches(s2, e, at),
    decreases s1,
{
    match (s1, s2) {
        (Selector::Or(a1, b1), Selector::Or(a2, b2)) => {
            lemma_matches_congruent(*a1, *a2, e, at);
            lemma_matches_congruent(*b1, *b2, e, at);
        },
        (Selector::And(a1, b1), Selector::And(a2, b2)) => {
            lemma_matches_congruent(*a1, *a2, e, at);
            lemma_matches_congruent(*b1, *b2, e, at);
        },
        (Selector::Before(x1, _, _), Selector::Before(x2, _, _)) => {
            lemma_matches_congruent(*x1, *x2, e, at);
        },
        _ => {},
    }
}

/// Selection is a congruence for counter identity: counters with
/// equivalent keys select the same elements.
pub proof fn lemma_selected_congruent(k1: CounterKey, k2: CounterKey, e: DocElem, at: int)
    requires
        key_eqv(k1, k2),
    ensures
        spec_selected(k1, e, at) == spec_selected(k2, e, at),
{
    match e.body {
        ElemBody::Update(u) => {
            if key_eqv(u.key, k1) {
                lemma_key_eqv_trans(u.key, k1, k2);
            }
            if key_eqv(u.key, k2) {
                lemma_key_eqv_sym(k1, k2);
                lemma_key_eqv_trans(u.key, k2, k1);
            }
        },
        _ => {},
    }
    match (k1, k2) {
        (CounterKey::Selector(s1), CounterKey::Selector(s2)) => {
            lemma_matches_congruent(s1, s2, e, at);
        },
        _ => {},
    }
}

} // verus!
