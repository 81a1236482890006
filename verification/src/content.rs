use crate::counter::{spec_at, spec_final, Counter};
use crate::document::Location;
use crate::engine::Engine;
use crate::error::CounterError;
use crate::key::{CounterKey, ElemFunc, Selector};
use crate::state::{clone_nums, spec_first, CounterState, CounterUpdate};
use vstd::prelude::*;

verus! {

/// A numbering pattern, opaque to the engine, handed to the external
/// numbering formatter together with the resolved numbers.
#[derive(Debug, Clone, Hash)]
pub struct Numbering(pub String);

impl View for Numbering {
    type V = Seq<char>;

    open spec fn view(&self) -> Seq<char> {
        self.0@
    }
}

impl Numbering {
    /// An equal, independent copy of this pattern.
    pub fn duplicate(&self) -> (r: Numbering)
        ensures
            r == *self,
    {
        Numbering(self.0.clone())
    }
}

/// The resolved numbers of a counter state together with the numbering,
/// ready to be handed to the external formatter; the engine itself
/// renders no text.
#[derive(Debug)]
pub struct Formatted {
    /// The per-level numbers to render.
    pub numbers: Vec<usize>,
    /// The numbering to render them with.
    pub numbering: Numbering,
}

/// An explicit counter update event. It is inert content: it takes
/// effect only where it is physically placed in the final document
/// order.
#[derive(Debug)]
pub struct UpdateElem {
    /// The key that identifies the counter to update.
    pub key: CounterKey,
    /// The update to perform on it.
    pub update: CounterUpdate,
}

/// A registered display of a counter, resolved in the deferred phase
/// once the document's positions are settled.
#[derive(Debug)]
pub struct DisplayElem {
    /// The counter to display.
    pub counter: Counter,
    /// The numbering to display it with, if one was given explicitly.
    pub numbering: Option<Numbering>,
    /// Whether to display the current and final top-level count
    /// together.
    pub both: bool,
}

/// Inert displayable content produced by the engine.
#[derive(Debug)]
pub enum Content {
    /// A registered counter display.
    Display(DisplayElem),
    /// A counter update event.
    Update(UpdateElem),
    /// Resolved numbers with their numbering, for the formatter.
    Formatted(Formatted),
    /// Nothing.
    Empty,
}

/// The numbering styles in force at a display's position, as the style
/// system exposes them per countable element kind.
#[derive(Debug)]
pub struct Styles {
    /// The numbering set for headings, if any.
    pub heading_numbering: Option<Numbering>,
    /// The numbering set for figures, if any.
    pub figure_numbering: Option<Numbering>,
    /// The numbering set for equations, if any.
    pub equation_numbering: Option<Numbering>,
}

impl CounterState {
    /// Hand this state's numbers with the numbering to the external
    /// formatter.
    pub fn display(&self, numbering: &Numbering) -> (r: Content)
        ensures
            (r matches Content::Formatted(f) && f.numbers@ == self@ && f.numbering == *numbering),
    {
        Content::Formatted(
            Formatted { numbers: clone_nums(&self.0), numbering: numbering.duplicate() },
        )
    }
}

/// The numbering a counted element kind carries in the styles: set for
/// headings, figures and equations, absent for everything else.
pub open spec fn spec_style_numbering(key: CounterKey, styles: Styles) -> Option<Numbering> {
    match key {
        CounterKey::Selector(Selector::Elem(f, _)) => match f {
            ElemFunc::Heading => styles.heading_numbering,
            ElemFunc::Figure => styles.figure_numbering,
            ElemFunc::Equation => styles.equation_numbering,
            _ => Option::None,
        },
        _ => Option::None,
    }
}

/// The numbering a display resolves to: its own, else the counted
/// kind's styled one, else the plain `1.1` pattern.
pub open spec fn spec_resolved_numbering(d: DisplayElem, styles: Styles) -> Seq<char> {
    match d.numbering {
        Option::Some(n) => n@,
        Option::None => match spec_style_numbering(d.counter.0, styles) {
            Option::Some(n) => n@,
            Option::None => "1.1"@,
        },
    }
}

/// The numbering the styles hold for the counted kind, if any.
fn style_numbering(key: &CounterKey, styles: &Styles) -> (r: Option<Numbering>)
    ensures
        r == spec_style_numbering(*key, *styles),
{
    match key {
        CounterKey::Selector(Selector::Elem(f, _)) => match f {
            ElemFunc::Heading => match &styles.heading_numbering {
                Option::Some(n) => Option::Some(n.duplicate()),
                Option::None => Option::None,
            },
            ElemFunc::Figure => match &styles.figure_numbering {
                Option::Some(n) => Option::Some(n.duplicate()),
                Option::None => Option::None,
            },
            ElemFunc::Equation => match &styles.equation_numbering {
                Option::Some(n) => Option::Some(n.duplicate()),
                Option::None => Option::None,
            },
            _ => Option::None,
        },
        _ => Option::None,
    }
}

impl DisplayElem {
    /// Resolve this display at the position it was placed: the body of
    /// the deferred task the display registers, run once the pass's
    /// positions are settled. Resolves the numbering (its own, the
    /// styled one for the counted kind, or `1.1`), queries the counter
    /// — current and final top-level counts together when `both` is
    /// set, the value at the location otherwise — and hands numbers
    /// and numbering to the formatter.
    pub fn show(&self, eng: &mut Engine, styles: &Styles, location: Location) -> (r: Result<
        Content,
        CounterError,
    >)
        requires
            old(eng).wf(),
            old(eng).snapshot.valid_loc(location),
        ensures
            final(eng).wf(),
            final(eng).snapshot == old(eng).snapshot,
            final(eng).deferred == old(eng).deferred,
            !old(eng).deferred ==> r == Err::<Content, CounterError>(
                CounterError::ContextViolation,
            ),
            old(eng).deferred ==> match (
                spec_at(self.counter.0, old(eng).snapshot, location),
                spec_final(self.counter.0, old(eng).snapshot),
            ) {
                (Option::Some(a), Option::Some(f)) => r matches Ok(c) && (
                c matches Content::Formatted(out) && out.numbering@ == spec_resolved_numbering(
                    *self,
                    *styles,
                ) && out.numbers@ == (if self.both {
                    seq![spec_first(a), spec_first(f)]
                } else {
                    a
                })),
                _ => r == Err::<Content, CounterError>(CounterError::TypeMismatch),
            },
    {
        let numbering = match &self.numbering {
            Option::Some(n) => n.duplicate(),
            Option::None => match style_numbering(&self.counter.0, styles) {
                Option::Some(n) => n,
                Option::None => Numbering("1.1".to_owned()),
            },
        };
        let state = if self.both {
            self.counter.both(eng, location)
        } else {
            self.counter.at(eng, location)
        };
        match state {
            Ok(st) => Ok(st.display(&numbering)),
            Err(e) => Err(e),
        }
    }
}

impl UpdateElem {
    /// An update event shows as nothing: its effect is carried entirely
    /// by its position in the document.
    pub fn show(&self) -> (r: Content)
        ensures
            r is Empty,
    {
        Content::Empty
    }
}

} // verus!
