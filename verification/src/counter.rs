use crate::content::{Content, DisplayElem, Numbering, UpdateElem};
use crate::document::{elem_selected, Location, Snapshot};
use crate::engine::{CacheEntry, Engine};
use crate::error::CounterError;
use crate::key::{clone_key, key_eq, str_equal, CounterKey, ElemFunc, Selector};
use crate::sequence::{
    clone_stops, count_selected, lemma_build_congruent, lemma_count_mono, lemma_count_nonneg,
    lemma_run_shape, spec_build, stop_view, stops_view, Stop,
};
use crate::state::{spec_first, spec_step, CounterState, CounterUpdate};
use vstd::prelude::*;

verus! {

/// Counts through pages, elements, and more: a counter handle, nothing
/// but its key. All mutable state lives in the document as update
/// events and in the built sequences; two handles with equivalent keys
/// are interchangeable.
#[derive(Debug, Hash)]
pub struct Counter(pub CounterKey);

/// Creates the counter handle for a key.
pub fn counter(key: CounterKey) -> (c: Counter)
    ensures
        c.0 == key,
{
    Counter::new(key)
}

/// The arguments of one counter method call, as the host evaluates
/// them: each field carries the argument of the method that uses it.
#[derive(Debug)]
pub struct Args {
    /// The numbering for `display`, positional.
    pub numbering: Option<Numbering>,
    /// The `both` flag for `display`, named.
    pub both: Option<bool>,
    /// The `level` for `step`, named.
    pub level: Option<usize>,
    /// The value or transform for `update`, positional.
    pub value: Option<CounterUpdate>,
    /// The location for `at` and `final`, positional.
    pub location: Option<Location>,
}

/// The level a `step` call means: the given one, else 1.
pub open spec fn eff_level(l: Option<usize>) -> usize {
    match l {
        Option::Some(x) => x,
        Option::None => 1,
    }
}

/// The flag a `display` call means: the given one, else false.
pub open spec fn eff_both(b: Option<bool>) -> bool {
    match b {
        Option::Some(x) => x,
        Option::None => false,
    }
}

/// What a counter method call answers.
#[derive(Debug)]
pub enum MethodValue {
    /// Inert content, from `display`, `step` or `update`.
    Content(Content),
    /// A counter state, from `at` or `final`.
    State(CounterState),
}

/// The stop offset a location binds to: how many selected events stand
/// at or before it in document order.
pub open spec fn spec_offset(key: CounterKey, doc: Snapshot, loc: Location) -> int {
    count_selected(key, doc.events@, loc.0 + 1)
}

/// The pages turned from a recorded stop to a later position,
/// saturating at zero should the position lie on an earlier page.
pub open spec fn spec_drift(from: int, to: int) -> usize {
    if to > from {
        (to - from) as usize
    } else {
        0
    }
}

/// What `at` answers: the stop the location binds to and, for the page
/// counter, that stop's state stepped by the pages turned since the
/// stop was recorded. Nothing when the walk failed on a functional
/// update.
pub open spec fn spec_at(key: CounterKey, doc: Snapshot, loc: Location) -> Option<Seq<usize>> {
    match spec_build(key, doc) {
        Option::None => Option::None,
        Option::Some(stops) => {
            let (st, pg) = stops[spec_offset(key, doc, loc)];
            if key is Page {
                Option::Some(spec_step(st, 1, spec_drift(pg, doc.page_of(loc))))
            } else {
                Option::Some(st)
            }
        },
    }
}

/// What `final` answers: the last stop and, for the page counter, its
/// state stepped by the pages remaining to the end of the document. No
/// location enters: the answer is the same wherever it is asked from.
pub open spec fn spec_final(key: CounterKey, doc: Snapshot) -> Option<Seq<usize>> {
    match spec_build(key, doc) {
        Option::None => Option::None,
        Option::Some(stops) => {
            let (st, pg) = stops.last();
            if key is Page {
                Option::Some(spec_step(st, 1, spec_drift(pg, doc.pages as int)))
            } else {
                Option::Some(st)
            }
        },
    }
}

impl Counter {
    /// Create a new counter from a key.
    pub fn new(key: CounterKey) -> (c: Counter)
        ensures
            c.0 == key,
    {
        Counter(key)
    }

    /// The counter for the given element kind.
    pub fn of(func: ElemFunc) -> (c: Counter)
        ensures
            c.0 == (CounterKey::Selector(Selector::Elem(func, Option::None))),
    {
        Self::new(CounterKey::Selector(Selector::Elem(func, Option::None)))
    }

    /// Whether this is the page counter.
    pub fn is_page(&self) -> (r: bool)
        ensures
            r == (self.0 is Page),
    {
        match self.0 {
            CounterKey::Page => true,
            _ => false,
        }
    }

    /// Produce content that performs a counter update. The update takes
    /// effect only if the content is actually placed into the document;
    /// constructed and discarded, it does nothing.
    pub fn update(self, update: CounterUpdate) -> (r: Content)
        ensures
            (r matches Content::Update(u) && u.key == self.0 && u.update == update),
    {
        Content::Update(UpdateElem { key: self.0, update })
    }

    /// Produce content that displays the counter's value at its final
    /// position, resolved in the deferred phase.
    pub fn display(self, numbering: Option<Numbering>, both: bool) -> (r: Content)
        ensures
            (r matches Content::Display(d) && d.counter == self && d.numbering == numbering
                && d.both == both),
    {
        Content::Display(DisplayElem { counter: self, numbering, both })
    }

    /// The memoized sequence of this counter's stops for the engine's
    /// snapshot: the cached one when this pass has already built it,
    /// else built now and stored. One build serves every query against
    /// an unchanged snapshot.
    pub fn sequence(&self, eng: &mut Engine) -> (r: Result<Vec<Stop>, CounterError>)
        requires
            old(eng).wf(),
        ensures
            final(eng).wf(),
            final(eng).snapshot == old(eng).snapshot,
            final(eng).deferred == old(eng).deferred,
            match r {
                Ok(stops) => spec_build(self.0, old(eng).snapshot) == Some(stops_view(stops@)),
                Err(e) => spec_build(self.0, old(eng).snapshot) is None && e
                    == CounterError::TypeMismatch,
            },
    {
        let n = eng.cache.len();
        let mut j: usize = 0;
        while j < n
            invariant
                j <= n,
                n == eng.cache@.len(),
                *eng == *old(eng),
                old(eng).wf(),
            decreases n - j,
        {
            if key_eq(&eng.cache[j].key, &self.0) {
                let hit = clone_stops(&eng.cache[j].stops);
                proof {
                    lemma_build_congruent(eng.cache@[j as int].key, self.0, eng.snapshot);
                }
                return Ok(hit);
            }
            j = j + 1;
        }
        match self.build_sequence(&eng.snapshot) {
            Ok(stops) => {
                let out = clone_stops(&stops);
                let entry = CacheEntry { key: clone_key(&self.0), stops };
                eng.cache.push(entry);
                Ok(out)
            },
            Err(e) => Err(e),
        }
    }

    /// How many events this counter selects at or before the location.
    fn offset_at(&self, doc: &Snapshot, location: Location) -> (r: usize)
        requires
            doc.valid_loc(location),
        ensures
            r as int == spec_offset(self.0, *doc, location),
            r <= location.0 + 1,
    {
        let mut cnt: usize = 0;
        let mut i: usize = 0;
        let n = doc.events.len();
        while i <= location.0
            invariant
                n == doc.events@.len(),
                location.0 < n,
                i <= location.0 + 1,
                cnt <= i,
                cnt as int == count_selected(self.0, doc.events@, i as int),
            decreases location.0 + 1 - i,
        {
            if elem_selected(&self.0, &doc.events[i], i) {
                cnt = cnt + 1;
            }
            i = i + 1;
        }
        cnt
    }

    /// Get the value of the counter at the given location: the stop the
    /// location binds to, drift-corrected for the page counter by the
    /// pages turned since that stop. The cached sequence is never
    /// mutated. Outside a deferred scope the query fails fast.
    pub fn at(&self, eng: &mut Engine, location: Location) -> (r: Result<
        CounterState,
        CounterError,
    >)
        requires
            old(eng).wf(),
            old(eng).snapshot.valid_loc(location),
        ensures
            final(eng).wf(),
            final(eng).snapshot == old(eng).snapshot,
            final(eng).deferred == old(eng).deferred,
            !old(eng).deferred ==> r == Err::<CounterState, CounterError>(
                CounterError::ContextViolation,
            ),
            old(eng).deferred ==> match spec_at(self.0, old(eng).snapshot, location) {
                Option::Some(s) => r matches Ok(st) && st@ == s,
                Option::None => r == Err::<CounterState, CounterError>(
                    CounterError::TypeMismatch,
                ),
            },
    {
        if !eng.deferred {
            return Err(CounterError::ContextViolation);
        }
        let stops = match self.sequence(eng) {
            Ok(s) => s,
            Err(e) => {
                return Err(e);
            },
        };
        let offset = self.offset_at(&eng.snapshot, location);
        proof {
            lemma_run_shape(self.0, eng.snapshot.events@);
            lemma_count_nonneg(self.0, eng.snapshot.events@, location.0 + 1);
            lemma_count_mono(
                self.0,
                eng.snapshot.events@,
                location.0 + 1,
                eng.snapshot.events@.len() as int,
            );
            assert(stops_view(stops@).len() == stops@.len());
            assert(stops_view(stops@)[offset as int] == stop_view(stops@[offset as int]));
        }
        let stop = &stops[offset];
        if self.is_page() {
            let here = eng.snapshot.events[location.0].page;
            let delta = if here > stop.page {
                here - stop.page
            } else {
                0
            };
            let mut st = stop.state.duplicate();
            st.step(1, delta);
            Ok(st)
        } else {
            Ok(stop.state.duplicate())
        }
    }

    /// Get the value of the counter at the end of the document: the
    /// last stop, drift-corrected against the total page count for the
    /// page counter. The location only proves the call happens in a
    /// deferred scope; the answer does not depend on it.
    pub fn final_(&self, eng: &mut Engine, _location: Location) -> (r: Result<
        CounterState,
        CounterError,
    >)
        requires
            old(eng).wf(),
        ensures
            final(eng).wf(),
            final(eng).snapshot == old(eng).snapshot,
            final(eng).deferred == old(eng).deferred,
            !old(eng).deferred ==> r == Err::<CounterState, CounterError>(
                CounterError::ContextViolation,
            ),
            old(eng).deferred ==> match spec_final(self.0, old(eng).snapshot) {
                Option::Some(s) => r matches Ok(st) && st@ == s,
                Option::None => r == Err::<CounterState, CounterError>(
                    CounterError::TypeMismatch,
                ),
            },
    {
        if !eng.deferred {
            return Err(CounterError::ContextViolation);
        }
        let stops = match self.sequence(eng) {
            Ok(s) => s,
            Err(e) => {
                return Err(e);
            },
        };
        proof {
            lemma_run_shape(self.0, eng.snapshot.events@);
            lemma_count_nonneg(
                self.0,
                eng.snapshot.events@,
                eng.snapshot.events@.len() as int,
            );
            assert(stops_view(stops@).len() == stops@.len());
        }
        let last = stops.len() - 1;
        proof {
            assert(stops_view(stops@)[last as int] == stop_view(stops@[last as int]));
        }
        let stop = &stops[last];
        if self.is_page() {
            let total = eng.snapshot.pages;
            let delta = if total > stop.page {
                total - stop.page
            } else {
                0
            };
            let mut st = stop.state.duplicate();
            st.step(1, delta);
            Ok(st)
        } else {
            Ok(stop.state.duplicate())
        }
    }

    /// Get the current and final value of the counter combined in one
    /// state: the top-level count of `at` here and of `final`, for
    /// "current / total" displays. Multi-level states are not combined
    /// element-wise.
    pub fn both(&self, eng: &mut Engine, location: Location) -> (r: Result<
        CounterState,
        CounterError,
    >)
        requires
            old(eng).wf(),
            old(eng).snapshot.valid_loc(location),
        ensures
            final(eng).wf(),
            final(eng).snapshot == old(eng).snapshot,
            final(eng).deferred == old(eng).deferred,
            !old(eng).deferred ==> r == Err::<CounterState, CounterError>(
                CounterError::ContextViolation,
            ),
            old(eng).deferred ==> match (
                spec_at(self.0, old(eng).snapshot, location),
                spec_final(self.0, old(eng).snapshot),
            ) {
                (Option::Some(a), Option::Some(f)) => r matches Ok(st) && st@ == seq![
                    spec_first(a),
                    spec_first(f),
                ],
                _ => r == Err::<CounterState, CounterError>(CounterError::TypeMismatch),
            },
    {
        let here = match self.at(eng, location) {
            Ok(st) => st,
            Err(e) => {
                return Err(e);
            },
        };
        let end = match self.final_(eng, location) {
            Ok(st) => st,
            Err(e) => {
                return Err(e);
            },
        };
        let combined = CounterState(vec![here.first(), end.first()]);
        proof {
            assert(combined@ =~= seq![spec_first(here@), spec_first(end@)]);
        }
        Ok(combined)
    }

    /// Call a method on the counter handle by name, with the arguments
    /// the host evaluated. An unknown name or a missing required
    /// argument is rejected at the call site.
    pub fn call_method(self, eng: &mut Engine, method: &str, args: Args) -> (r: Result<
        MethodValue,
        CounterError,
    >)
        requires
            old(eng).wf(),
            args.location matches Some(loc) ==> old(eng).snapshot.valid_loc(loc),
        ensures
            final(eng).wf(),
            final(eng).snapshot == old(eng).snapshot,
            final(eng).deferred == old(eng).deferred,
            method@ == "display"@ ==> (r matches Ok(MethodValue::Content(c)) && (
            c matches Content::Display(d) && d.counter == self && d.numbering == args.numbering
                && d.both == eff_both(args.both))),
            method@ == "step"@ && eff_level(args.level) == 0 ==> r == Err::<
                MethodValue,
                CounterError,
            >(CounterError::TypeMismatch),
            method@ == "step"@ && eff_level(args.level) >= 1 ==> (r matches Ok(
                MethodValue::Content(c),
            ) && (c matches Content::Update(u) && u.key == self.0 && u.update
                == CounterUpdate::Step(eff_level(args.level)))),
            method@ == "update"@ ==> match args.value {
                Option::Some(u) => r matches Ok(MethodValue::Content(c)) && (
                c matches Content::Update(ue) && ue.key == self.0 && ue.update == u),
                Option::None => r matches Err(e) && (e matches CounterError::MissingArgument(m)
                    && m@ == "value or function"@),
            },
            method@ == "at"@ ==> match args.location {
                Option::Some(loc) => {
                    &&& !old(eng).deferred ==> r == Err::<MethodValue, CounterError>(
                        CounterError::ContextViolation,
                    )
                    &&& old(eng).deferred ==> match spec_at(self.0, old(eng).snapshot, loc) {
                        Option::Some(s) => r matches Ok(MethodValue::State(st)) && st@ == s,
                        Option::None => r == Err::<MethodValue, CounterError>(
                            CounterError::TypeMismatch,
                        ),
                    }
                },
                Option::None => r matches Err(e) && (e matches CounterError::MissingArgument(m)
                    && m@ == "location"@),
            },
            method@ == "final"@ ==> match args.location {
                Option::Some(loc) => {
                    &&& !old(eng).deferred ==> r == Err::<MethodValue, CounterError>(
                        CounterError::ContextViolation,
                    )
                    &&& old(eng).deferred ==> match spec_final(self.0, old(eng).snapshot) {
                        Option::Some(s) => r matches Ok(MethodValue::State(st)) && st@ == s,
                        Option::None => r == Err::<MethodValue, CounterError>(
                            CounterError::TypeMismatch,
                        ),
                    }
                },
                Option::None => r matches Err(e) && (e matches CounterError::MissingArgument(m)
                    && m@ == "location"@),
            },
            !(method@ == "display"@ || method@ == "step"@ || method@ == "update"@ || method@
                == "at"@ || method@ == "final"@) ==> (r matches Err(e) && (
            e matches CounterError::UnknownMethod(n) && n@ == method@)),
    {
        proof {
            reveal_strlit("display");
            reveal_strlit("step");
            reveal_strlit("update");
            reveal_strlit("at");
            reveal_strlit("final");
            assert("display"@.len() == 7);
            assert("step"@.len() == 4);
            assert("update"@.len() == 6);
            assert("at"@.len() == 2);
            assert("final"@.len() == 5);
        }
        if str_equal(method, "display") {
            let both = match args.both {
                Option::Some(b) => b,
                Option::None => false,
            };
            Ok(MethodValue::Content(self.display(args.numbering, both)))
        } else if str_equal(method, "step") {
            let level = match args.level {
                Option::Some(l) => l,
                Option::None => 1,
            };
            if level == 0 {
                Err(CounterError::TypeMismatch)
            } else {
                Ok(MethodValue::Content(self.update(CounterUpdate::Step(level))))
            }
        } else if str_equal(method, "update") {
            match args.value {
                Option::Some(u) => Ok(MethodValue::Content(self.update(u))),
                Option::None => Err(
                    CounterError::MissingArgument("value or function".to_owned()),
                ),
            }
        } else if str_equal(method, "at") {
            match args.location {
                Option::Some(loc) => match self.at(eng, loc) {
                    Ok(st) => Ok(MethodValue::State(st)),
                    Err(e) => Err(e),
                },
                Option::None => Err(CounterError::MissingArgument("location".to_owned())),
            }
        } else if str_equal(method, "final") {
            match args.location {
                Option::Some(loc) => match self.final_(eng, loc) {
                    Ok(st) => Ok(MethodValue::State(st)),
                    Err(e) => Err(e),
                },
                Option::None => Err(CounterError::MissingArgument("location".to_owned())),
            }
        } else {
            Err(CounterError::UnknownMethod(method.to_owned()))
        }
    }
}

} // verus!
