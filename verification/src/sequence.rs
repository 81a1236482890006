use crate::counter::Counter;
use crate::document::{
    elem_selected, lemma_selected_congruent, spec_selected, Counting, DocElem, ElemBody, Snapshot,
};
use crate::error::CounterError;
use crate::key::{key_eqv, CounterKey};
use crate::state::{spec_step, spec_update, CounterState, CounterUpdate};
use vstd::prelude::*;

verus! {

/// One recorded stop of a counter's sequence: the state after one
/// selected event, and the physical page at that event. Stop 0 is the
/// initial state before any event.
#[derive(Debug)]
pub struct Stop {
    /// The counter state after the event.
    pub state: CounterState,
    /// The physical page at the event's position.
    pub page: usize,
}

/// The mathematical image of one stop.
pub open spec fn stop_view(s: Stop) -> (Seq<usize>, int) {
    (s.state@, s.page as int)
}

/// The mathematical image of a whole sequence of stops.
pub open spec fn stops_view(s: Seq<Stop>) -> Seq<(Seq<usize>, int)> {
    s.map_values(|x: Stop| stop_view(x))
}

/// The state a counter starts from: the page counter starts at one,
/// every other counter at zero.
pub open spec fn init_nums(key: CounterKey) -> Seq<usize> {
    if key is Page {
        seq![1usize]
    } else {
        seq![0usize]
    }
}

/// The update one event carries: an explicit payload, the element
/// kind's custom counting behaviour, or the default step at level 1.
pub open spec fn spec_event_update(e: DocElem) -> Option<CounterUpdate> {
    match e.body {
        ElemBody::Update(u) => Option::Some(u.update),
        ElemBody::Countable { counting: Counting::Default, .. } => Option::Some(
            CounterUpdate::Step(1),
        ),
        ElemBody::Countable { counting: Counting::Custom(opt), .. } => opt,
    }
}

/// What one selected event does to the running state, the tracked page
/// and the recorded stops: for the page counter, pages turned since the
/// previous event are first stepped into level 1 so that manual
/// overrides still compose; then the event's own update is applied; then
/// a stop is recorded. A failing functional update aborts the walk.
pub open spec fn spec_apply(
    key: CounterKey,
    st: Seq<usize>,
    pg: int,
    stops: Seq<(Seq<usize>, int)>,
    e: DocElem,
) -> Option<(Seq<usize>, int, Seq<(Seq<usize>, int)>)> {
    let st1 = if key is Page && e.page > pg {
        spec_step(st, 1, (e.page - pg) as usize)
    } else {
        st
    };
    let pg1 = if key is Page {
        e.page as int
    } else {
        pg
    };
    match spec_event_update(e) {
        Option::None => Option::Some((st1, pg1, stops.push((st1, pg1)))),
        Option::Some(u) => match spec_update(st1, u) {
            Option::None => Option::None,
            Option::Some(st2) => Option::Some((st2, pg1, stops.push((st2, pg1)))),
        },
    }
}

/// The whole walk over a prefix of the document's events: the running
/// state, the tracked page, and the recorded stops, seeded with the
/// initial state at page 1. Nothing when a functional update failed.
pub open spec fn spec_run(key: CounterKey, events: Seq<DocElem>) -> Option<
    (Seq<usize>, int, Seq<(Seq<usize>, int)>),
>
    decreases events.len(),
{
    if events.len() == 0 {
        Option::Some((init_nums(key), 1int, seq![(init_nums(key), 1int)]))
    } else {
        match spec_run(key, events.drop_last()) {
            Option::None => Option::None,
            Option::Some((st, pg, stops)) => {
                if spec_selected(key, events.last(), events.len() - 1) {
                    spec_apply(key, st, pg, stops, events.last())
                } else {
                    Option::Some((st, pg, stops))
                }
            },
        }
    }
}

/// The full ordered sequence of a counter's stops for a snapshot, or
/// nothing when a functional update failed to cast.
pub open spec fn spec_build(key: CounterKey, doc: Snapshot) -> Option<Seq<(Seq<usize>, int)>> {
    match spec_run(key, doc.events@) {
        Option::Some((st, pg, stops)) => Option::Some(stops),
        Option::None => Option::None,
    }
}

/// How many of the first `upto` events the counter selects.
pub open spec fn count_selected(key: CounterKey, events: Seq<DocElem>, upto: int) -> int
    decreases upto,
{
    if upto <= 0 {
        0
    } else {
        count_selected(key, events, upto - 1) + if spec_selected(
            key,
            events[upto - 1],
            upto - 1,
        ) {
            1int
        } else {
            0int
        }
    }
}

/// The count of selected events is never negative.
pub proof fn lemma_count_nonneg(key: CounterKey, events: Seq<DocElem>, upto: int)
    ensures
        0 <= count_selected(key, events, upto),
    decreases upto,
{
    if upto > 0 {
        lemma_count_nonneg(key, events, upto - 1);
    }
}

/// The count of selected events grows with the prefix.
pub proof fn lemma_count_mono(key: CounterKey, events: Seq<DocElem>, a: int, b: int)
    requires
        a <= b,
    ensures
        count_selected(key, events, a) <= count_selected(key, events, b),
    decreases b - a,
{
    if a < b {
        lemma_count_mono(key, events, a, b - 1);
    }
}

/// A completed walk records one stop more than it selected events, and
/// its last stop is exactly the running state and page.
pub proof fn lemma_run_shape(key: CounterKey, events: Seq<DocElem>)
    requires
        spec_run(key, events) is Some,
    ensures
        spec_run(key, events).unwrap().2.len() == 1 + count_selected(
            key,
            events,
            events.len() as int,
        ),
        spec_run(key, events).unwrap().2.last() == (
            spec_run(key, events).unwrap().0,
            spec_run(key, events).unwrap().1,
        ),
    decreases events.len(),
{
    if events.len() > 0 {
        lemma_run_shape(key, events.drop_last());
        assert(count_selected(key, events.drop_last(), events.len() - 1) == count_selected(
            key,
            events,
            events.len() - 1,
        )) by {
            lemma_count_prefix(key, events, events.len() - 1);
        }
    }
}

/// Counting over a prefix sees only the prefix's events.
pub proof fn lemma_count_prefix(key: CounterKey, events: Seq<DocElem>, upto: int)
    requires
        upto <= events.len() - 1,
    ensures
        count_selected(key, events.drop_last(), upto) == count_selected(key, events, upto),
    decreases upto,
{
    if upto > 0 {
        lemma_count_prefix(key, events, upto - 1);
    }
}

/// Every recorded page of a completed walk lies between 1 and the
/// largest machine integer, pages being machine integers at least 1.
pub proof fn lemma_run_stop_pages(key: CounterKey, events: Seq<DocElem>)
    requires
        spec_run(key, events) is Some,
        forall|i: int| 0 <= i < events.len() ==> 1 <= (#[trigger] events[i]).page,
    ensures
        1 <= spec_run(key, events).unwrap().1 <= usize::MAX,
        forall|i: int|
            0 <= i < spec_run(key, events).unwrap().2.len() ==> 1 <= (#[trigger] spec_run(
                key,
                events,
            ).unwrap().2[i]).1 <= usize::MAX,
    decreases events.len(),
{
    if events.len() > 0 {
        lemma_run_stop_pages(key, events.drop_last());
    }
}

/// A walk that has already failed on a prefix fails on the whole.
pub proof fn lemma_run_none_extends(key: CounterKey, events: Seq<DocElem>, n: int)
    requires
        0 <= n <= events.len(),
        spec_run(key, events.take(n)) is None,
    ensures
        spec_run(key, events) is None,
    decreases events.len() - n,
{
    if n < events.len() {
        assert(events.take(n + 1).drop_last() =~= events.take(n));
        lemma_run_none_extends(key, events, n + 1);
    } else {
        assert(events.take(n) =~= events);
    }
}

/// The walk depends on the key only through its identity: counters with
/// equivalent keys build identical sequences.
pub proof fn lemma_run_congruent(k1: CounterKey, k2: CounterKey, events: Seq<DocElem>)
    requires
        key_eqv(k1, k2),
    ensures
        spec_run(k1, events) == spec_run(k2, events),
    decreases events.len(),
{
    if events.len() > 0 {
        lemma_run_congruent(k1, k2, events.drop_last());
        lemma_selected_congruent(k1, k2, events.last(), events.len() - 1);
    }
}

/// Sequence building is a congruence for counter identity.
pub proof fn lemma_build_congruent(k1: CounterKey, k2: CounterKey, doc: Snapshot)
    requires
        key_eqv(k1, k2),
    ensures
        spec_build(k1, doc) == spec_build(k2, doc),
{
    lemma_run_congruent(k1, k2, doc.events@);
}

/// An element-wise copy of a sequence of stops, equal stop for stop.
pub fn clone_stops(v: &Vec<Stop>) -> (r: Vec<Stop>)
    ensures
        stops_view(r@) == stops_view(v@),
        r@.len() == v@.len(),
{
    let mut out: Vec<Stop> = Vec::new();
    let mut i: usize = 0;
    while i < v.len()
        invariant
            i <= v@.len(),
            out@.len() == i,
            forall|j: int| 0 <= j < i ==> stop_view(#[trigger] out@[j]) == stop_view(v@[j]),
        decreases v@.len() - i,
    {
        let s = &v[i];
        out.push(Stop { state: s.state.duplicate(), page: s.page });
        i = i + 1;
    }
    proof {
        assert(stops_view(out@) =~= stops_view(v@));
    }
    out
}

impl Counter {
    /// Produce the whole sequence of counter states for a snapshot in
    /// one pass: visit every event this counter selects, in document
    /// order, apply its update, and record a stop after each. Building
    /// once turns every later query into a lookup.
    pub fn build_sequence(&self, doc: &Snapshot) -> (r: Result<Vec<Stop>, CounterError>)
        requires
            doc.wf(),
        ensures
            match r {
                Ok(stops) => spec_build(self.0, *doc) == Some(stops_view(stops@)),
                Err(e) => spec_build(self.0, *doc) is None && e == CounterError::TypeMismatch,
            },
    {
        let is_page = self.is_page();
        let mut state = CounterState(
            if is_page {
                vec![1usize]
            } else {
                vec![0usize]
            },
        );
        let mut page: usize = 1;
        let mut stops: Vec<Stop> = Vec::new();
        stops.push(Stop { state: state.duplicate(), page });
        proof {
            assert(doc.events@.take(0int) =~= Seq::<DocElem>::empty());
            assert(state@ =~= init_nums(self.0));
            assert(stops_view(stops@) =~= seq![(init_nums(self.0), 1int)]);
        }
        let mut i: usize = 0;
        while i < doc.events.len()
            invariant
                i <= doc.events@.len(),
                doc.wf(),
                is_page == (self.0 is Page),
                spec_run(self.0, doc.events@.take(i as int)) == Some(
                    (state@, page as int, stops_view(stops@)),
                ),
            decreases doc.events@.len() - i,
        {
            let ghost prefix = doc.events@.take(i as int);
            let ghost prefix1 = doc.events@.take(i + 1 as int);
            let ghost st0 = state@;
            let ghost pg0 = page as int;
            let ghost stv0 = stops_view(stops@);
            proof {
                assert(prefix1.drop_last() =~= prefix);
                assert(prefix1.last() == doc.events@[i as int]);
                assert(doc.events@[i as int].wf());
            }
            let e = &doc.events[i];
            if elem_selected(&self.0, e, i) {
                if is_page {
                    if e.page > page {
                        state.step(1, e.page - page);
                    }
                    page = e.page;
                }
                let outcome = match &e.body {
                    ElemBody::Update(u) => state.update(&u.update),
                    ElemBody::Countable { counting: Counting::Custom(opt), .. } => match opt {
                        Option::Some(u) => state.update(u),
                        Option::None => Ok(()),
                    },
                    ElemBody::Countable { counting: Counting::Default, .. } => {
                        let d = CounterUpdate::Step(1);
                        state.update(&d)
                    },
                };
                match outcome {
                    Ok(_) => {},
                    Err(err) => {
                        proof {
                            assert(spec_run(self.0, prefix1) is None);
                            lemma_run_none_extends(self.0, doc.events@, i + 1);
                        }
                        return Err(err);
                    },
                }
                stops.push(Stop { state: state.duplicate(), page });
                proof {
                    assert(stops_view(stops@) =~= stv0.push((state@, page as int)));
                    assert(spec_run(self.0, prefix1) == Some(
                        (state@, page as int, stops_view(stops@)),
                    ));
                }
            } else {
                proof {
                    assert(spec_run(self.0, prefix1) == Some(
                        (state@, page as int, stops_view(stops@)),
                    ));
                }
            }
            i = i + 1;
        }
        proof {
            assert(doc.events@.take(doc.events@.len() as int) =~= doc.events@);
        }
        Ok(stops)
    }
}

} // verus!
