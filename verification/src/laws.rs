use crate::counter::{spec_at, spec_drift, spec_final, spec_offset};
use crate::document::{lemma_selected_congruent, pages_ordered, spec_selected, DocElem, Snapshot};
use crate::key::{key_eqv, CounterKey};
use crate::sequence::{
    count_selected, lemma_build_congruent, lemma_count_mono, lemma_count_nonneg, lemma_run_shape,
    lemma_run_stop_pages, spec_build, spec_run,
};
use crate::state::{sat_add, spec_first, spec_step};
use vstd::prelude::*;

verus! {

/// The step truncation law: stepping level `k` (for any `k` up to one
/// past the current depth) leaves every level shallower than `k`
/// unchanged, discards every level deeper than `k` — the result has
/// exactly `k` levels, so discarded levels read as `1` once re-padded —
/// and the entry at `k` itself grows saturating where it existed, or
/// starts over at `1` where the state was shallower.
pub proof fn lemma_step_truncation(s: Seq<usize>, k: int, by: usize)
    requires
        1 <= k <= s.len() + 1,
    ensures
        spec_step(s, k, by).len() == k,
        forall|i: int| 0 <= i < k - 1 ==> spec_step(s, k, by)[i] == s[i],
        k <= s.len() ==> spec_step(s, k, by)[k - 1] == sat_add(s[k - 1], by),
        k == s.len() + 1 ==> spec_step(s, k, by)[k - 1] == 1,
{
}

/// The idempotent rebuild law: building the sequence twice from an
/// unchanged snapshot yields structurally identical sequences — the
/// walk is a function of the counter key and the snapshot alone.
pub proof fn lemma_rebuild_idempotent(
    key: CounterKey,
    doc: Snapshot,
    s1: Seq<(Seq<usize>, int)>,
    s2: Seq<(Seq<usize>, int)>,
)
    requires
        spec_build(key, doc) == Some(s1),
        spec_build(key, doc) == Some(s2),
    ensures
        s1 == s2,
{
}

/// Counting selected events does not change across a stretch with no
/// selected event.
pub proof fn lemma_count_stable(key: CounterKey, events: Seq<DocElem>, a: int, b: int)
    requires
        0 <= a <= b <= events.len(),
        forall|i: int| a <= i < b ==> !spec_selected(key, #[trigger] events[i], i),
    ensures
        count_selected(key, events, a) == count_selected(key, events, b),
    decreases b - a,
{
    if a < b {
        lemma_count_stable(key, events, a, b - 1);
    }
}

/// Counting selected events is a congruence for counter identity.
pub proof fn lemma_count_congruent(k1: CounterKey, k2: CounterKey, events: Seq<DocElem>, upto: int)
    requires
        key_eqv(k1, k2),
    ensures
        count_selected(k1, events, upto) == count_selected(k2, events, upto),
    decreases upto,
{
    if upto > 0 {
        lemma_count_congruent(k1, k2, events, upto - 1);
        lemma_selected_congruent(k1, k2, events[upto - 1], upto - 1);
    }
}

/// Two counters with equivalent keys are interchangeable: they build
/// the same sequence and answer every query identically.
pub proof fn lemma_equal_keys_interchangeable(
    k1: CounterKey,
    k2: CounterKey,
    doc: Snapshot,
    loc: crate::document::Location,
)
    requires
        key_eqv(k1, k2),
    ensures
        spec_build(k1, doc) == spec_build(k2, doc),
        spec_at(k1, doc, loc) == spec_at(k2, doc, loc),
        spec_final(k1, doc) == spec_final(k2, doc),
{
    lemma_build_congruent(k1, k2, doc);
    lemma_count_congruent(k1, k2, doc.events@, loc.0 + 1);
}

/// The page-monotonicity law: for the page counter, when physical page
/// numbers never decrease along document order and no page-counter
/// event stands between two locations, the top-level count at the
/// earlier location never exceeds the one at the later.
pub proof fn lemma_page_monotonic(doc: Snapshot, l1: crate::document::Location, l2:
    crate::document::Location)
    requires
        doc.wf(),
        pages_ordered(doc),
        l1.0 <= l2.0,
        doc.valid_loc(l2),
        forall|i: int|
            l1.0 < i <= l2.0 ==> !spec_selected(CounterKey::Page, #[trigger] doc.events@[i], i),
        spec_at(CounterKey::Page, doc, l1) is Some,
    ensures
        spec_at(CounterKey::Page, doc, l2) is Some,
        spec_first(spec_at(CounterKey::Page, doc, l1).unwrap()) <= spec_first(
            spec_at(CounterKey::Page, doc, l2).unwrap(),
        ),
{
    let key = CounterKey::Page;
    let events = doc.events@;
    let stops = spec_build(key, doc).unwrap();
    assert(doc.events.len() == events.len());
    assert forall|i: int| 0 <= i < events.len() implies 1 <= (#[trigger] events[i]).page by {
        assert(doc.events@[i].wf());
    }
    lemma_count_stable(key, events, l1.0 + 1, l2.0 + 1);
    assert(spec_offset(key, doc, l1) == spec_offset(key, doc, l2));
    lemma_run_shape(key, events);
    lemma_count_nonneg(key, events, l1.0 + 1);
    lemma_count_mono(key, events, l1.0 + 1, events.len() as int);
    lemma_run_stop_pages(key, events);
    assert(0 <= spec_offset(key, doc, l1) < stops.len());
    let (st, pg) = stops[spec_offset(key, doc, l1)];
    assert(1 <= pg <= usize::MAX);
    let p1 = doc.page_of(l1);
    let p2 = doc.page_of(l2);
    assert(p1 <= p2);
    let d1 = spec_drift(pg, p1);
    let d2 = spec_drift(pg, p2);
    assert(d1 <= d2);
    if st.len() > 0 {
        assert(spec_first(spec_step(st, 1, d1)) == sat_add(st[0], d1));
        assert(spec_first(spec_step(st, 1, d2)) == sat_add(st[0], d2));
    } else {
        assert(spec_step(st, 1, d1) =~= seq![1usize]);
        assert(spec_step(st, 1, d2) =~= seq![1usize]);
    }
}

/// Stepping level 1 twice is stepping it once by the sum, provided the
/// state has a top level to step.
pub proof fn lemma_step_compose(s: Seq<usize>, a: usize, b: usize)
    requires
        s.len() > 0,
        a + b <= usize::MAX,
    ensures
        spec_step(spec_step(s, 1, a), 1, b) == spec_step(s, 1, (a + b) as usize),
{
    assert(spec_step(s, 1, a) =~= seq![sat_add(s[0], a)]);
    assert(spec_step(spec_step(s, 1, a), 1, b) =~= seq![sat_add(sat_add(s[0], a), b)]);
    assert(spec_step(s, 1, (a + b) as usize) =~= seq![sat_add(s[0], (a + b) as usize)]);
    assert(sat_add(sat_add(s[0], a), b) == sat_add(s[0], (a + b) as usize));
}

/// The tracked page of a completed walk never exceeds the last
/// element's page (or is 1 where nothing was selected), provided pages
/// are at least 1 and never decrease along document order.
pub proof fn lemma_run_page_le(key: CounterKey, events: Seq<DocElem>)
    requires
        spec_run(key, events) is Some,
        forall|i: int| 0 <= i < events.len() ==> 1 <= (#[trigger] events[i]).page,
        forall|i: int, j: int|
            0 <= i <= j < events.len() ==> (#[trigger] events[i]).page <= (
            #[trigger] events[j]).page,
    ensures
        1 <= spec_run(key, events).unwrap().1,
        events.len() > 0 ==> spec_run(key, events).unwrap().1 <= events.last().page,
    decreases events.len(),
{
    if events.len() > 0 {
        lemma_run_page_le(key, events.drop_last());
        if events.len() > 1 {
            assert(events.drop_last().last() == events[events.len() - 2]);
            assert(events[events.len() - 2].page <= events.last().page);
        }
    }
}

/// The at/final consistency law: `final` answers what `at` answers at
/// the end of the document, drift-corrected from the last element's
/// page to the total page count — for the page counter under monotone
/// pages and a state that still has a top level; exactly, with no
/// correction, for every other counter. `final` takes no location at
/// all, so its answer cannot depend on where it is asked from.
pub proof fn lemma_at_final_consistency(key: CounterKey, doc: Snapshot)
    requires
        doc.wf(),
        doc.events@.len() > 0,
        pages_ordered(doc),
        spec_build(key, doc) is Some,
        key is Page ==> spec_build(key, doc).unwrap().last().0.len() > 0,
    ensures
        ({
            let end = crate::document::Location((doc.events@.len() - 1) as usize);
            match (spec_at(key, doc, end), spec_final(key, doc)) {
                (Option::Some(a), Option::Some(f)) => f == (if key is Page {
                    spec_step(a, 1, spec_drift(doc.page_of(end), doc.pages as int))
                } else {
                    a
                }),
                _ => false,
            }
        }),
{
    let end = crate::document::Location((doc.events@.len() - 1) as usize);
    let events = doc.events@;
    let stops = spec_build(key, doc).unwrap();
    assert(doc.events.len() == events.len());
    assert forall|i: int| 0 <= i < events.len() implies 1 <= (#[trigger] events[i]).page by {
        assert(doc.events@[i].wf());
    }
    lemma_run_shape(key, events);
    lemma_count_nonneg(key, events, events.len() as int);
    assert(end.0 + 1 == events.len());
    assert(spec_offset(key, doc, end) == count_selected(key, events, events.len() as int));
    assert(stops[spec_offset(key, doc, end)] == stops.last());
    let (st, pg) = stops.last();
    if key is Page {
        let run = spec_run(key, events).unwrap();
        assert(run.2.last() == (run.0, run.1));
        assert(st == run.0 && pg == run.1);
        lemma_run_page_le(key, events);
        let pe = doc.page_of(end);
        assert(events[end.0 as int] == events.last());
        assert(1 <= pg <= pe);
        assert(doc.events@[end.0 as int].wf() && doc.events@[end.0 as int].page <= doc.pages);
        assert(pe <= doc.pages as int);
        let d1 = spec_drift(pg, pe);
        let d2 = spec_drift(pe, doc.pages as int);
        assert(spec_drift(pg, doc.pages as int) == d1 + d2);
        lemma_step_compose(st, d1, d2);
    }
}

} // verus!
