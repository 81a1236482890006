use counters::{CounterError, CounterState, CounterUpdate, Transform};

fn state(nums: &[usize]) -> CounterState {
    CounterState(nums.to_vec())
}

#[test]
fn step_deeper_pads_with_ones() {
    // stepping level 2 on [3] yields [3, 1]: new entries are 1, not inherited
    let mut s = state(&[3]);
    s.step(2, 1);
    assert_eq!(s.0, vec![3, 1]);
}

#[test]
fn step_truncates_deeper_levels() {
    // stepping level k resets all levels > k and leaves levels < k unchanged
    let mut s = state(&[2, 5, 7]);
    s.step(2, 1);
    assert_eq!(s.0, vec![2, 6]);
}

#[test]
fn step_level_one_drops_everything_deeper() {
    let mut s = state(&[1, 4, 9]);
    s.step(1, 1);
    assert_eq!(s.0, vec![2]);
}

#[test]
fn step_saturates_instead_of_wrapping() {
    let mut s = state(&[usize::MAX]);
    s.step(1, 1);
    assert_eq!(s.0, vec![usize::MAX]);
    let mut t = state(&[usize::MAX - 1]);
    t.step(1, 5);
    assert_eq!(t.0, vec![usize::MAX]);
}

#[test]
fn step_far_beyond_depth_pads_every_new_level() {
    let mut s = state(&[6]);
    s.step(3, 1);
    assert_eq!(s.0, vec![6, 1, 1]);
}

#[test]
fn update_set_replaces_unconditionally() {
    let mut s = state(&[9, 9]);
    let r = s.update(&CounterUpdate::SetTo(state(&[1, 2, 3])));
    assert!(r.is_ok());
    assert_eq!(s.0, vec![1, 2, 3]);
}

#[test]
fn update_step_is_step_by_one() {
    let mut s = state(&[6]);
    let r = s.update(&CounterUpdate::Step(2));
    assert!(r.is_ok());
    assert_eq!(s.0, vec![6, 1]);
}

#[test]
fn update_func_scales_every_level() {
    let mut s = state(&[3, 4]);
    let r = s.update(&CounterUpdate::Func(Transform::Scale(2)));
    assert!(r.is_ok());
    assert_eq!(s.0, vec![6, 8]);
}

#[test]
fn update_func_shifts_every_level() {
    let mut s = state(&[3]);
    let r = s.update(&CounterUpdate::Func(Transform::Shift(4)));
    assert!(r.is_ok());
    assert_eq!(s.0, vec![7]);
}

#[test]
fn update_func_negative_result_is_type_mismatch() {
    // a transform result outside the counter-state shape is rejected and
    // the state stays as it was
    let mut s = state(&[3]);
    let r = s.update(&CounterUpdate::Func(Transform::Shift(-5)));
    assert_eq!(r, Err(CounterError::TypeMismatch));
    assert_eq!(s.0, vec![3]);
}

#[test]
fn update_func_negative_scale_is_type_mismatch() {
    let mut s = state(&[2]);
    let r = s.update(&CounterUpdate::Func(Transform::Scale(-1)));
    assert_eq!(r, Err(CounterError::TypeMismatch));
    assert_eq!(s.0, vec![2]);
}

#[test]
fn first_defaults_to_one_on_empty_state() {
    let s = state(&[]);
    assert_eq!(s.first(), 1);
}

#[test]
fn first_reads_the_top_level() {
    let s = state(&[4, 2]);
    assert_eq!(s.first(), 4);
}
