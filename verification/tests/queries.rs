use counters::{
    counter, Args, Content, Counter, CounterError, CounterKey, CounterState, CounterUpdate,
    Counting, DocElem, ElemBody, ElemFunc, Engine, Label, Location, MethodValue, Numbering,
    Selector, Snapshot, Styles, Transform, UpdateElem,
};

fn upd(key: CounterKey, update: CounterUpdate, page: usize) -> DocElem {
    DocElem { page, body: ElemBody::Update(UpdateElem { key, update }) }
}

fn countable(func: ElemFunc, counting: Counting, page: usize) -> DocElem {
    DocElem {
        page,
        body: ElemBody::Countable { func, label: None, counting },
    }
}

fn labeled(func: ElemFunc, label: &str, page: usize) -> DocElem {
    DocElem {
        page,
        body: ElemBody::Countable {
            func,
            label: Some(Label(label.to_string())),
            counting: Counting::Default,
        },
    }
}

fn named(s: &str) -> CounterKey {
    CounterKey::Str(s.to_string())
}

fn set_to(nums: &[usize]) -> CounterUpdate {
    CounterUpdate::SetTo(CounterState(nums.to_vec()))
}

fn snap(events: Vec<DocElem>, pages: usize) -> Snapshot {
    Snapshot { events, pages, generation: 1 }
}

fn settled(doc: Snapshot) -> Engine {
    let mut eng = Engine::new(doc);
    eng.mark_settled();
    eng
}

#[test]
fn heading_counter_scenario() {
    // headings at levels 1, 2, 3 with default stepping give [1], [1,1],
    // [1,1,1], starting from the initial [0]
    let doc = snap(
        vec![
            countable(ElemFunc::Heading, Counting::Custom(Some(CounterUpdate::Step(1))), 1),
            countable(ElemFunc::Heading, Counting::Custom(Some(CounterUpdate::Step(2))), 1),
            countable(ElemFunc::Heading, Counting::Custom(Some(CounterUpdate::Step(3))), 1),
        ],
        1,
    );
    let c = Counter::of(ElemFunc::Heading);
    let stops = c.build_sequence(&doc).unwrap();
    assert_eq!(stops[0].state.0, vec![0]);
    let mut eng = settled(doc);
    let c = Counter::of(ElemFunc::Heading);
    assert_eq!(c.at(&mut eng, Location(0)).unwrap().0, vec![1]);
    assert_eq!(c.at(&mut eng, Location(1)).unwrap().0, vec![1, 1]);
    assert_eq!(c.at(&mut eng, Location(2)).unwrap().0, vec![1, 1, 1]);
}

#[test]
fn manual_override_scenario() {
    // update(3) then update(n => n * 2) on a named counter yields [6]
    // wherever it is queried after the second event
    let doc = snap(
        vec![
            upd(named("mine"), set_to(&[3]), 1),
            upd(named("mine"), CounterUpdate::Func(Transform::Scale(2)), 1),
            countable(ElemFunc::Other(7), Counting::Default, 1),
        ],
        1,
    );
    let mut eng = settled(doc);
    let c = counter(named("mine"));
    assert_eq!(c.at(&mut eng, Location(1)).unwrap().0, vec![6]);
    assert_eq!(c.at(&mut eng, Location(2)).unwrap().0, vec![6]);
}

#[test]
fn page_counter_reset_scenario() {
    // a page-counter update(1) placed on page 3 resets the displayed
    // numbering there and onward; earlier pages stay unaffected
    let doc = snap(
        vec![
            countable(ElemFunc::Other(1), Counting::Default, 2),
            upd(CounterKey::Page, set_to(&[1]), 3),
            countable(ElemFunc::Other(1), Counting::Default, 3),
        ],
        4,
    );
    let mut eng = settled(doc);
    let c = counter(CounterKey::Page);
    // before the reset: physical page 2 shows as 2
    assert_eq!(c.at(&mut eng, Location(0)).unwrap().0, vec![2]);
    // at and after the reset: back to 1
    assert_eq!(c.at(&mut eng, Location(1)).unwrap().0, vec![1]);
    assert_eq!(c.at(&mut eng, Location(2)).unwrap().0, vec![1]);
    // the final value drifts with the remaining page turn
    assert_eq!(c.final_(&mut eng, Location(0)).unwrap().0, vec![2]);
}

#[test]
fn skip_scenario() {
    // step(level: 2) on [6] yields [6,1]; an ordinary step() then [7]
    let doc = snap(
        vec![
            upd(named("c"), set_to(&[6]), 1),
            upd(named("c"), CounterUpdate::Step(2), 1),
            upd(named("c"), CounterUpdate::Step(1), 1),
        ],
        1,
    );
    let mut eng = settled(doc);
    let c = counter(named("c"));
    assert_eq!(c.at(&mut eng, Location(0)).unwrap().0, vec![6]);
    assert_eq!(c.at(&mut eng, Location(1)).unwrap().0, vec![6, 1]);
    assert_eq!(c.at(&mut eng, Location(2)).unwrap().0, vec![7]);
}

#[test]
fn page_counter_is_monotone_across_pages() {
    // without explicit resets, the page count never decreases along
    // document order
    let doc = snap(
        vec![
            countable(ElemFunc::Other(1), Counting::Default, 1),
            countable(ElemFunc::Other(1), Counting::Default, 2),
            countable(ElemFunc::Other(1), Counting::Default, 5),
        ],
        5,
    );
    let mut eng = settled(doc);
    let c = counter(CounterKey::Page);
    let a0 = c.at(&mut eng, Location(0)).unwrap().first();
    let a1 = c.at(&mut eng, Location(1)).unwrap().first();
    let a2 = c.at(&mut eng, Location(2)).unwrap().first();
    assert!(a0 <= a1 && a1 <= a2);
    assert_eq!((a0, a1, a2), (1, 2, 5));
}

#[test]
fn rebuild_is_idempotent() {
    // building twice from an unchanged snapshot gives structurally
    // identical sequences
    let doc = snap(
        vec![
            upd(named("n"), set_to(&[2, 7]), 1),
            countable(ElemFunc::Other(3), Counting::Default, 2),
            upd(named("n"), CounterUpdate::Step(1), 2),
        ],
        2,
    );
    let c = counter(named("n"));
    let s1 = c.build_sequence(&doc).unwrap();
    let s2 = c.build_sequence(&doc).unwrap();
    assert_eq!(s1.len(), s2.len());
    for (a, b) in s1.iter().zip(s2.iter()) {
        assert_eq!(a.state.0, b.state.0);
        assert_eq!(a.page, b.page);
    }
}

#[test]
fn final_is_independent_of_the_location() {
    let doc = snap(
        vec![
            upd(named("n"), CounterUpdate::Step(1), 1),
            upd(named("n"), CounterUpdate::Step(1), 1),
            countable(ElemFunc::Other(9), Counting::Default, 1),
        ],
        1,
    );
    let mut eng = settled(doc);
    let c = counter(named("n"));
    let f0 = c.final_(&mut eng, Location(0)).unwrap();
    let f2 = c.final_(&mut eng, Location(2)).unwrap();
    assert_eq!(f0.0, f2.0);
    assert_eq!(f0.0, vec![2]);
    // for a counter with no page drift, final equals at(end of document)
    assert_eq!(c.at(&mut eng, Location(2)).unwrap().0, f0.0);
}

#[test]
fn final_drift_corrects_at_end_for_pages() {
    // final equals at(end), further corrected by the pages after the
    // last element
    let doc = snap(
        vec![countable(ElemFunc::Other(1), Counting::Default, 2)],
        6,
    );
    let mut eng = settled(doc);
    let c = counter(CounterKey::Page);
    let at_end = c.at(&mut eng, Location(0)).unwrap();
    assert_eq!(at_end.0, vec![2]);
    let fin = c.final_(&mut eng, Location(0)).unwrap();
    assert_eq!(fin.0, vec![2 + (6 - 2)]);
}

#[test]
fn both_combines_first_of_at_and_final() {
    let doc = snap(
        vec![
            countable(ElemFunc::Other(1), Counting::Default, 1),
            countable(ElemFunc::Other(1), Counting::Default, 3),
        ],
        7,
    );
    let mut eng = settled(doc);
    let c = counter(CounterKey::Page);
    let here = c.at(&mut eng, Location(0)).unwrap().first();
    let fin = c.final_(&mut eng, Location(0)).unwrap().first();
    let both = c.both(&mut eng, Location(0)).unwrap();
    assert_eq!(both.0, vec![here, fin]);
    assert_eq!(both.0, vec![1, 7]);
}

#[test]
fn queries_outside_deferred_scope_fail_fast() {
    let doc = snap(vec![upd(named("n"), CounterUpdate::Step(1), 1)], 1);
    let mut eng = Engine::new(doc);
    let c = counter(named("n"));
    assert_eq!(
        c.at(&mut eng, Location(0)),
        Err(CounterError::ContextViolation)
    );
    assert_eq!(
        c.final_(&mut eng, Location(0)),
        Err(CounterError::ContextViolation)
    );
    assert_eq!(
        c.both(&mut eng, Location(0)),
        Err(CounterError::ContextViolation)
    );
}

#[test]
fn failing_transform_surfaces_as_type_mismatch() {
    let doc = snap(
        vec![upd(named("n"), CounterUpdate::Func(Transform::Shift(-1)), 1)],
        1,
    );
    let mut eng = settled(doc);
    let c = counter(named("n"));
    assert_eq!(
        c.at(&mut eng, Location(0)),
        Err(CounterError::TypeMismatch)
    );
}

#[test]
fn unknown_method_is_rejected() {
    let doc = snap(vec![upd(named("n"), CounterUpdate::Step(1), 1)], 1);
    let mut eng = settled(doc);
    let c = counter(named("n"));
    let args = Args { numbering: None, both: None, level: None, value: None, location: None };
    match c.call_method(&mut eng, "frobnicate", args) {
        Err(CounterError::UnknownMethod(name)) => assert_eq!(name, "frobnicate"),
        other => panic!("expected an unknown-method error, got {:?}", other),
    }
}

#[test]
fn missing_location_is_rejected() {
    let doc = snap(vec![upd(named("n"), CounterUpdate::Step(1), 1)], 1);
    let mut eng = settled(doc);
    let c = counter(named("n"));
    let args = Args { numbering: None, both: None, level: None, value: None, location: None };
    match c.call_method(&mut eng, "at", args) {
        Err(CounterError::MissingArgument(name)) => assert_eq!(name, "location"),
        other => panic!("expected a missing-argument error, got {:?}", other),
    }
}

#[test]
fn call_method_step_defaults_to_level_one() {
    let doc = snap(vec![upd(named("n"), CounterUpdate::Step(1), 1)], 1);
    let mut eng = settled(doc);
    let c = counter(named("n"));
    let args = Args { numbering: None, both: None, level: None, value: None, location: None };
    match c.call_method(&mut eng, "step", args) {
        Ok(MethodValue::Content(Content::Update(u))) => {
            assert_eq!(u.update, CounterUpdate::Step(1));
        },
        other => panic!("expected step content, got {:?}", other),
    }
}

#[test]
fn call_method_step_level_zero_is_type_mismatch() {
    let doc = snap(vec![upd(named("n"), CounterUpdate::Step(1), 1)], 1);
    let mut eng = settled(doc);
    let c = counter(named("n"));
    let args = Args { numbering: None, both: None, level: Some(0), value: None, location: None };
    match c.call_method(&mut eng, "step", args) {
        Err(CounterError::TypeMismatch) => {},
        other => panic!("expected a type mismatch, got {:?}", other),
    }
}

#[test]
fn call_method_at_answers_the_state() {
    let doc = snap(vec![upd(named("n"), set_to(&[4]), 1)], 1);
    let mut eng = settled(doc);
    let c = counter(named("n"));
    let args = Args {
        numbering: None,
        both: None,
        level: None,
        value: None,
        location: Some(Location(0)),
    };
    match c.call_method(&mut eng, "at", args) {
        Ok(MethodValue::State(st)) => assert_eq!(st.0, vec![4]),
        other => panic!("expected a state, got {:?}", other),
    }
}

#[test]
fn update_content_is_inert_until_placed() {
    // an update event that is constructed but never placed into the
    // document has no effect
    let c = counter(named("n"));
    let discarded = c.update(set_to(&[9]));
    match discarded {
        Content::Update(u) => assert_eq!(u.update, set_to(&[9])),
        other => panic!("expected update content, got {:?}", other),
    }
    let doc = snap(vec![upd(named("n"), CounterUpdate::Step(1), 1)], 1);
    let mut eng = settled(doc);
    let c = counter(named("n"));
    assert_eq!(c.at(&mut eng, Location(0)).unwrap().0, vec![1]);
}

#[test]
fn label_selector_counts_labeled_elements() {
    let key = CounterKey::Selector(Selector::Label(Label("thm".to_string())));
    let doc = snap(
        vec![
            labeled(ElemFunc::Other(1), "thm", 1),
            labeled(ElemFunc::Other(1), "lemma", 1),
            labeled(ElemFunc::Other(2), "thm", 1),
        ],
        1,
    );
    let mut eng = settled(doc);
    let c = counter(key);
    assert_eq!(c.at(&mut eng, Location(0)).unwrap().0, vec![1]);
    assert_eq!(c.at(&mut eng, Location(1)).unwrap().0, vec![1]);
    assert_eq!(c.at(&mut eng, Location(2)).unwrap().0, vec![2]);
}

#[test]
fn or_selector_counts_either_kind() {
    let key = CounterKey::Selector(Selector::Or(
        Box::new(Selector::Elem(ElemFunc::Figure, None)),
        Box::new(Selector::Elem(ElemFunc::Equation, None)),
    ));
    let doc = snap(
        vec![
            countable(ElemFunc::Figure, Counting::Default, 1),
            countable(ElemFunc::Heading, Counting::Default, 1),
            countable(ElemFunc::Equation, Counting::Default, 1),
        ],
        1,
    );
    let mut eng = settled(doc);
    let c = counter(key);
    assert_eq!(c.at(&mut eng, Location(2)).unwrap().0, vec![2]);
}

#[test]
fn equal_keys_are_interchangeable() {
    // two handles with equal named keys answer identically and share
    // one memoized sequence
    let doc = snap(
        vec![
            upd(named("x"), CounterUpdate::Step(1), 1),
            upd(named("x"), CounterUpdate::Step(1), 1),
        ],
        1,
    );
    let mut eng = settled(doc);
    let c1 = counter(named("x"));
    let c2 = counter(named("x"));
    let a1 = c1.at(&mut eng, Location(1)).unwrap();
    let a2 = c2.at(&mut eng, Location(1)).unwrap();
    assert_eq!(a1.0, a2.0);
    assert_eq!(eng.cache.len(), 1);
}

#[test]
fn begin_pass_invalidates_the_cache() {
    let doc1 = snap(vec![upd(named("n"), set_to(&[5]), 1)], 1);
    let mut eng = settled(doc1);
    let c = counter(named("n"));
    assert_eq!(c.at(&mut eng, Location(0)).unwrap().0, vec![5]);
    assert_eq!(eng.cache.len(), 1);
    let doc2 = snap(vec![upd(named("n"), set_to(&[8]), 1)], 1);
    eng.begin_pass(doc2);
    assert_eq!(eng.cache.len(), 0);
    eng.mark_settled();
    assert_eq!(c.at(&mut eng, Location(0)).unwrap().0, vec![8]);
}

#[test]
fn show_falls_back_to_the_plain_pattern() {
    let doc = snap(vec![upd(named("n"), set_to(&[2]), 1)], 1);
    let mut eng = settled(doc);
    let display = match counter(named("n")).display(None, false) {
        Content::Display(d) => d,
        other => panic!("expected display content, got {:?}", other),
    };
    let styles = Styles {
        heading_numbering: None,
        figure_numbering: None,
        equation_numbering: None,
    };
    match display.show(&mut eng, &styles, Location(0)) {
        Ok(Content::Formatted(out)) => {
            assert_eq!(out.numbers, vec![2]);
            assert_eq!(out.numbering.0, "1.1");
        },
        other => panic!("expected formatted output, got {:?}", other),
    }
}

#[test]
fn show_uses_the_styled_numbering_for_headings() {
    let doc = snap(
        vec![countable(
            ElemFunc::Heading,
            Counting::Custom(Some(CounterUpdate::Step(1))),
            1,
        )],
        1,
    );
    let mut eng = settled(doc);
    let display = match Counter::of(ElemFunc::Heading).display(None, true) {
        Content::Display(d) => d,
        other => panic!("expected display content, got {:?}", other),
    };
    let styles = Styles {
        heading_numbering: Some(Numbering("I.".to_string())),
        figure_numbering: None,
        equation_numbering: None,
    };
    match display.show(&mut eng, &styles, Location(0)) {
        Ok(Content::Formatted(out)) => {
            // both: the current and the final top-level count together
            assert_eq!(out.numbers, vec![1, 1]);
            assert_eq!(out.numbering.0, "I.");
        },
        other => panic!("expected formatted output, got {:?}", other),
    }
}

#[test]
fn show_outside_deferred_scope_fails() {
    let doc = snap(vec![upd(named("n"), set_to(&[2]), 1)], 1);
    let mut eng = Engine::new(doc);
    let display = match counter(named("n")).display(None, false) {
        Content::Display(d) => d,
        other => panic!("expected display content, got {:?}", other),
    };
    let styles = Styles {
        heading_numbering: None,
        figure_numbering: None,
        equation_numbering: None,
    };
    match display.show(&mut eng, &styles, Location(0)) {
        Err(CounterError::ContextViolation) => {},
        other => panic!("expected a context violation, got {:?}", other),
    }
}

#[test]
fn update_element_shows_as_nothing() {
    let e = UpdateElem { key: named("n"), update: CounterUpdate::Step(1) };
    match e.show() {
        Content::Empty => {},
        other => panic!("expected empty content, got {:?}", other),
    }
}

#[test]
fn custom_counting_without_update_still_records_a_stop() {
    // an element whose kind declares "no update here" still produces a
    // stop, leaving the state unchanged
    let key = CounterKey::Selector(Selector::Elem(ElemFunc::Figure, None));
    let doc = snap(
        vec![
            countable(ElemFunc::Figure, Counting::Default, 1),
            countable(ElemFunc::Figure, Counting::Custom(None), 1),
            countable(ElemFunc::Figure, Counting::Default, 1),
        ],
        1,
    );
    let mut eng = settled(doc);
    let c = counter(key);
    assert_eq!(c.at(&mut eng, Location(0)).unwrap().0, vec![1]);
    assert_eq!(c.at(&mut eng, Location(1)).unwrap().0, vec![1]);
    assert_eq!(c.at(&mut eng, Location(2)).unwrap().0, vec![2]);
}

#[test]
fn call_method_display_packages_the_request() {
    let doc = snap(vec![upd(named("n"), set_to(&[2]), 1)], 1);
    let mut eng = settled(doc);
    let c = counter(named("n"));
    let args = Args {
        numbering: Some(Numbering("A.".to_string())),
        both: Some(true),
        level: None,
        value: None,
        location: None,
    };
    match c.call_method(&mut eng, "display", args) {
        Ok(MethodValue::Content(Content::Display(d))) => {
            assert!(d.both);
            assert_eq!(d.numbering.unwrap().0, "A.");
        },
        other => panic!("expected display content, got {:?}", other),
    }
}

#[test]
fn call_method_update_wraps_the_payload() {
    let doc = snap(vec![upd(named("n"), set_to(&[2]), 1)], 1);
    let mut eng = settled(doc);
    let c = counter(named("n"));
    let args = Args {
        numbering: None,
        both: None,
        level: None,
        value: Some(CounterUpdate::Func(Transform::Shift(1))),
        location: None,
    };
    match c.call_method(&mut eng, "update", args) {
        Ok(MethodValue::Content(Content::Update(u))) => {
            assert_eq!(u.update, CounterUpdate::Func(Transform::Shift(1)));
        },
        other => panic!("expected update content, got {:?}", other),
    }
}

#[test]
fn call_method_final_answers_the_last_state() {
    let doc = snap(
        vec![
            upd(named("n"), CounterUpdate::Step(1), 1),
            upd(named("n"), CounterUpdate::Step(1), 1),
        ],
        1,
    );
    let mut eng = settled(doc);
    let c = counter(named("n"));
    let args = Args {
        numbering: None,
        both: None,
        level: None,
        value: None,
        location: Some(Location(0)),
    };
    match c.call_method(&mut eng, "final", args) {
        Ok(MethodValue::State(st)) => assert_eq!(st.0, vec![2]),
        other => panic!("expected a state, got {:?}", other),
    }
}

#[test]
fn before_selector_stops_counting_past_its_location() {
    let key = CounterKey::Selector(Selector::Before(
        Box::new(Selector::Elem(ElemFunc::Figure, None)),
        Location(1),
        true,
    ));
    let doc = snap(
        vec![
            countable(ElemFunc::Figure, Counting::Default, 1),
            countable(ElemFunc::Figure, Counting::Default, 1),
            countable(ElemFunc::Figure, Counting::Default, 1),
        ],
        1,
    );
    let mut eng = settled(doc);
    let c = counter(key);
    // only the figures at or before location 1 count
    assert_eq!(c.at(&mut eng, Location(2)).unwrap().0, vec![2]);
}

#[test]
fn and_selector_needs_both_parts() {
    let key = CounterKey::Selector(Selector::And(
        Box::new(Selector::Elem(ElemFunc::Figure, None)),
        Box::new(Selector::Label(Label("x".to_string()))),
    ));
    let doc = snap(
        vec![
            labeled(ElemFunc::Figure, "x", 1),
            labeled(ElemFunc::Figure, "y", 1),
            labeled(ElemFunc::Heading, "x", 1),
        ],
        1,
    );
    let mut eng = settled(doc);
    let c = counter(key);
    assert_eq!(c.at(&mut eng, Location(2)).unwrap().0, vec![1]);
}
