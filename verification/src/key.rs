use crate::document::Location;
use vstd::prelude::*;

verus! {

/// The closed set of element kinds the engine can tell apart.
///
/// The page kind identifies the page counter; headings, figures and
/// equations carry their own numbering styles; every other locatable
/// kind is carried by an opaque tag.
#[derive(Debug, Clone, Copy, PartialEq, Eq, Structural, Hash)]
pub enum ElemFunc {
    Page,
    Heading,
    Figure,
    Equation,
    Other(u32),
}

/// A label attached to a document element.
#[derive(Debug, Clone, Hash)]
pub struct Label(pub String);

/// A pattern matching document elements: a closed tagged variant with an
/// explicit evaluator, so that matching is deterministic and a selector
/// can serve as part of a cache key.
#[derive(Debug, Hash)]
pub enum Selector {
    /// Elements of the given kind, optionally only those bearing the
    /// given label.
    Elem(ElemFunc, Option<Label>),
    /// Elements bearing the given label.
    Label(Label),
    /// Elements matching either operand.
    Or(Box<Selector>, Box<Selector>),
    /// Elements matching both operands.
    And(Box<Selector>, Box<Selector>),
    /// Elements matching the operand and located before the given
    /// location; the flag makes the location itself count as before.
    Before(Box<Selector>, Location, bool),
}

/// Identifies a counter.
#[derive(Debug, Hash)]
pub enum CounterKey {
    /// The built-in physical page counter.
    Page,
    /// Counts elements matching the given selector.
    Selector(Selector),
    /// A user-defined counter, updated only by explicit calls.
    Str(String),
}

/// Label identity: the same characters.
pub open spec fn lbl_eqv(a: Label, b: Label) -> bool {
    a.0@ == b.0@
}

/// Optional-label identity.
pub open spec fn opt_lbl_eqv(a: Option<Label>, b: Option<Label>) -> bool {
    match (a, b) {
        (Option::None, Option::None) => true,
        (Option::Some(x), Option::Some(y)) => lbl_eqv(x, y),
        _ => false,
    }
}

/// Selector identity: the same pattern, with labels compared by their
/// characters.
pub open spec fn sel_eqv(a: Selector, b: Selector) -> bool
    decreases a,
{
    match (a, b) {
        (Selector::Elem(f1, l1), Selector::Elem(f2, l2)) => f1 == f2 && opt_lbl_eqv(l1, l2),
        (Selector::Label(l1), Selector::Label(l2)) => lbl_eqv(l1, l2),
        (Selector::Or(a1, b1), Selector::Or(a2, b2)) => sel_eqv(*a1, *a2) && sel_eqv(*b1, *b2),
        (Selector::And(a1, b1), Selector::And(a2, b2)) => sel_eqv(*a1, *a2) && sel_eqv(*b1, *b2),
        (Selector::Before(s1, loc1, i1), Selector::Before(s2, loc2, i2)) => sel_eqv(*s1, *s2)
            && loc1 == loc2 && i1 == i2,
        _ => false,
    }
}

/// Counter identity: two counters with equivalent keys are
/// interchangeable.
pub open spec fn key_eqv(a: CounterKey, b: CounterKey) -> bool {
    match (a, b) {
        (CounterKey::Page, CounterKey::Page) => true,
        (CounterKey::Selector(s1), CounterKey::Selector(s2)) => sel_eqv(s1, s2),
        (CounterKey::Str(s1), CounterKey::Str(s2)) => s1@ == s2@,
        _ => false,
    }
}

/// Decides whether two strings hold the same characters.
pub fn str_equal(a: &str, b: &str) -> (r: bool)
    ensures
        r == (a@ == b@),
{
    let x: String = a.to_owned();
    let y: String = b.to_owned();
    x == y
}

/// Decides label identity.
pub fn label_eq(a: &Label, b: &Label) -> (r: bool)
    ensures
        r == lbl_eqv(*a, *b),
{
    a.0 == b.0
}

/// Decides optional-label identity.
pub fn opt_label_eq(a: &Option<Label>, b: &Option<Label>) -> (r: bool)
    ensures
        r == opt_lbl_eqv(*a, *b),
{
    match (a, b) {
        (Option::None, Option::None) => true,
        (Option::Some(x), Option::Some(y)) => label_eq(x, y),
        _ => false,
    }
}

/// Decides selector identity.
pub fn selector_eq(a: &Selector, b: &Selector) -> (r: bool)
    ensures
        r == sel_eqv(*a, *b),
    decreases *a,
{
    match (a, b) {
        (Selector::Elem(f1, l1), Selector::Elem(f2, l2)) => *f1 == *f2 && opt_label_eq(l1, l2),
        (Selector::Label(l1), Selector::Label(l2)) => label_eq(l1, l2),
        (Selector::Or(a1, b1), Selector::Or(a2, b2)) => selector_eq(&*a1, &*a2) && selector_eq(
            &*b1,
            &*b2,
        ),
        (Selector::And(a1, b1), Selector::And(a2, b2)) => selector_eq(&*a1, &*a2) && selector_eq(
            &*b1,
            &*b2,
        ),
        (Selector::Before(s1, loc1, i1), Selector::Before(s2, loc2, i2)) => selector_eq(&*s1, &*s2)
            && *loc1 == *loc2 && *i1 == *i2,
        _ => false,
    }
}

/// Decides counter identity.
pub fn key_eq(a: &CounterKey, b: &CounterKey) -> (r: bool)
    ensures
        r == key_eqv(*a, *b),
{
    match (a, b) {
        (CounterKey::Page, CounterKey::Page) => true,
        (CounterKey::Selector(s1), CounterKey::Selector(s2)) => selector_eq(s1, s2),
        (CounterKey::Str(s1), CounterKey::Str(s2)) => *s1 == *s2,
        _ => false,
    }
}

/// An equal, independent copy of a label.
pub fn clone_label(l: &Label) -> (r: Label)
    ensures
        r == *l,
{
    Label(l.0.clone())
}

/// An equal, independent copy of an optional label.
pub fn clone_opt_label(l: &Option<Label>) -> (r: Option<Label>)
    ensures
        r == *l,
{
    match l {
        Option::None => Option::None,
        Option::Some(x) => Option::Some(clone_label(x)),
    }
}

/// An equal, independent copy of a selector.
pub fn clone_selector(s: &Selector) -> (r: Selector)
    ensures
        r == *s,
    decreases *s,
{
    match s {
        Selector::Elem(f, l) => Selector::Elem(*f, clone_opt_label(l)),
        Selector::Label(l) => Selector::Label(clone_label(l)),
        Selector::Or(a, b) => Selector::Or(
            Box::new(clone_selector(&*a)),
            Box::new(clone_selector(&*b)),
        ),
        Selector::And(a, b) => Selector::And(
            Box::new(clone_selector(&*a)),
            Box::new(clone_selector(&*b)),
        ),
        Selector::Before(inner, loc, i) => Selector::Before(
            Box::new(clone_selector(&*inner)),
            *loc,
            *i,
        ),
    }
}

/// An equal, independent copy of a counter key.
pub fn clone_key(k: &CounterKey) -> (r: CounterKey)
    ensures
        r == *k,
{
    match k {
        CounterKey::Page => CounterKey::Page,
        CounterKey::Selector(s) => CounterKey::Selector(clone_selector(s)),
        CounterKey::Str(s) => CounterKey::Str(s.clone()),
    }
}

/// Selector identity is symmetric.
pub proof fn lemma_sel_eqv_sym(a: Selector, b: Selector)
    requires
        sel_eqv(a, b),
    ensures
        sel_eqv(b, a),
    decreases a,
{
    match (a, b) {
        (Selector::Or(a1, b1), Selector::Or(a2, b2)) => {
            lemma_sel_eqv_sym(*a1, *a2);
            lemma_sel_eqv_sym(*b1, *b2);
        },
        (Selector::And(a1, b1), Selector::And(a2, b2)) => {
            lemma_sel_eqv_sym(*a1, *a2);
            lemma_sel_eqv_sym(*b1, *b2);
        },
        (Selector::Before(s1, _, _), Selector::Before(s2, _, _)) => {
            lemma_sel_eqv_sym(*s1, *s2);
        },
        _ => {},
    }
}

/// Selector identity is transitive.
pub proof fn lemma_sel_eqv_trans(a: Selector, b: Selector, c: Selector)
    requires
        sel_eqv(a, b),
        sel_eqv(b, c),
    ensures
        sel_eqv(a, c),
    decreases a,
{
    match (a, b, c) {
        (Selector::Or(a1, b1), Selector::Or(a2, b2), Selector::Or(a3, b3)) => {
            lemma_sel_eqv_trans(*a1, *a2, *a3);
            lemma_sel_eqv_trans(*b1, *b2, *b3);
        },
        (Selector::And(a1, b1), Selector::And(a2, b2), Selector::And(a3, b3)) => {
            lemma_sel_eqv_trans(*a1, *a2, *a3);
            lemma_sel_eqv_trans(*b1, *b2, *b3);
        },
        (Selector::Before(s1, _, _), Selector::Before(s2, _, _), Selector::Before(s3, _, _)) => {
            lemma_sel_eqv_trans(*s1, *s2, *s3);
        },
        _ => {},
    }
}

/// Counter identity is symmetric.
pub proof fn lemma_key_eqv_sym(a: CounterKey, b: CounterKey)
    requires
        key_eqv(a, b),
    ensures
        key_eqv(b, a),
{
    match (a, b) {
        (CounterKey::Selector(s1), CounterKey::Selector(s2)) => {
            lemma_sel_eqv_sym(s1, s2);
        },
        _ => {},
    }
}

/// Counter identity is transitive.
pub proof fn lemma_key_eqv_trans(a: CounterKey, b: CounterKey, c: CounterKey)
    requires
        key_eqv(a, b),
        key_eqv(b, c),
    ensures
        key_eqv(a, c),
{
    match (a, b, c) {
        (CounterKey::Selector(s1), CounterKey::Selector(s2), CounterKey::Selector(s3)) => {
            lemma_sel_eqv_trans(s1, s2, s3);
        },
        _ => {},
    }
}

} // verus!
