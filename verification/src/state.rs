use crate::error::CounterError;
use vstd::prelude::*;

verus! {

/// Counts through elements with different levels.
///
/// An ordered list of per-level counts: `[2, 1]` means section 2,
/// subsection 1. The list is never structurally empty in practice, but
/// `first` defends against emptiness by answering `1`.
#[derive(Debug, Clone, PartialEq, Hash)]
pub struct CounterState(pub Vec<usize>);

impl View for CounterState {
    type V = Seq<usize>;

    open spec fn view(&self) -> Seq<usize> {
        self.0@
    }
}

/// A pure transform applied to the current counter numbers by a
/// functional update.
///
/// Transforms are a closed, serializable language with an explicit
/// evaluator, so that replaying an update across evaluation passes is
/// deterministic by construction. Each form maps every level's number;
/// a result that leaves the non-negative machine-integer range fails to
/// cast back to a counter state and surfaces as a type mismatch.
#[derive(Debug, Clone, Copy, PartialEq, Eq, Hash)]
pub enum Transform {
    /// Multiply the number at every level by the given factor.
    Scale(i64),
    /// Add the given offset to the number at every level.
    Shift(i64),
}

/// An update to perform on a counter.
#[derive(Debug, Clone, PartialEq, Hash)]
pub enum CounterUpdate {
    /// Replace the state with the given one unconditionally.
    SetTo(CounterState),
    /// Increase the number for the given 1-indexed level by one.
    Step(usize),
    /// Apply the given pure transform to the counter's state.
    Func(Transform),
}

impl CounterUpdate {
    /// A step level is 1-indexed, so it must be at least 1.
    pub open spec fn wf(&self) -> bool {
        match *self {
            CounterUpdate::Step(level) => 1 <= level,
            _ => true,
        }
    }
}

/// Addition that clamps at the largest machine integer instead of
/// wrapping around.
pub open spec fn sat_add(a: usize, b: usize) -> usize {
    if a + b > usize::MAX {
        usize::MAX
    } else {
        (a + b) as usize
    }
}

/// What stepping does: with enough levels, the entry at `level` grows by
/// `by` (saturating) and all deeper levels are discarded; with fewer
/// levels, the state is padded with `1`s up to `level`. Shallower levels
/// are never touched.
pub open spec fn spec_step(s: Seq<usize>, level: int, by: usize) -> Seq<usize>
    recommends
        1 <= level,
{
    if level <= s.len() {
        s.take(level).update(level - 1, sat_add(s[level - 1], by))
    } else {
        s + Seq::new((level - s.len()) as nat, |i: int| 1usize)
    }
}

/// The number a transform assigns to one level, as an unbounded integer.
pub open spec fn transform_num(t: Transform, n: usize) -> int {
    match t {
        Transform::Scale(k) => n * k,
        Transform::Shift(k) => n + k,
    }
}

/// The numbers a transform assigns to a whole state.
pub open spec fn transform_nums(t: Transform, s: Seq<usize>) -> Seq<int> {
    Seq::new(s.len(), |i: int| transform_num(t, s[i]))
}

/// Whether a list of unbounded integers casts back to a counter state:
/// every entry non-negative and within machine range.
pub open spec fn cast_ok(xs: Seq<int>) -> bool {
    forall|i: int| 0 <= i < xs.len() ==> 0 <= #[trigger] xs[i] <= usize::MAX
}

/// The cast itself, meaningful only under `cast_ok`.
pub open spec fn cast_nums(xs: Seq<int>) -> Seq<usize>
    recommends
        cast_ok(xs),
{
    Seq::new(xs.len(), |i: int| xs[i] as usize)
}

/// What applying one update yields: the next state, or nothing when a
/// functional update fails to cast back to a counter state.
pub open spec fn spec_update(s: Seq<usize>, u: CounterUpdate) -> Option<Seq<usize>>
    recommends
        u.wf(),
{
    match u {
        CounterUpdate::SetTo(t) => Some(t@),
        CounterUpdate::Step(level) => Some(spec_step(s, level as int, 1)),
        CounterUpdate::Func(t) => if cast_ok(transform_nums(t, s)) {
            Some(cast_nums(transform_nums(t, s)))
        } else {
            None
        },
    }
}

/// The top-level count, defaulting to `1` for an empty state.
pub open spec fn spec_first(s: Seq<usize>) -> usize {
    if s.len() > 0 {
        s[0]
    } else {
        1
    }
}

/// An element-wise copy of a list of numbers.
pub fn clone_nums(v: &Vec<usize>) -> (r: Vec<usize>)
    ensures
        r@ == v@,
{
    let mut out: Vec<usize> = Vec::new();
    let mut i: usize = 0;
    while i < v.len()
        invariant
            i <= v.len(),
            out@ == v@.take(i as int),
        decreases v.len() - i,
    {
        out.push(v[i]);
        proof {
            assert(out@ =~= v@.take(i + 1 as int));
        }
        i = i + 1;
    }
    proof {
        assert(out@ =~= v@);
    }
    out
}

/// Evaluates a transform on the given numbers and casts the result back,
/// or reports the type mismatch.
fn apply_transform(t: Transform, nums: &Vec<usize>) -> (r: Result<Vec<usize>, CounterError>)
    ensures
        match r {
            Ok(out) => cast_ok(transform_nums(t, nums@)) && out@ == cast_nums(
                transform_nums(t, nums@),
            ),
            Err(e) => !cast_ok(transform_nums(t, nums@)) && e == CounterError::TypeMismatch,
        },
{
    let mut out: Vec<usize> = Vec::new();
    let mut i: usize = 0;
    while i < nums.len()
        invariant
            i <= nums.len(),
            out@.len() == i,
            forall|j: int|
                0 <= j < i ==> 0 <= #[trigger] transform_num(t, nums@[j]) <= usize::MAX,
            forall|j: int| 0 <= j < i ==> out@[j] == transform_num(t, nums@[j]),
        decreases nums.len() - i,
    {
        let n = nums[i];
        let v: i128 = match t {
            Transform::Scale(k) => {
                proof {
                    assert((n as i128) * (k as i128) == transform_num(t, n) && i128::MIN
                        <= (n as i128) * (k as i128) <= i128::MAX) by (nonlinear_arith)
                        requires
                            0 <= n <= u64::MAX,
                            i64::MIN <= k <= i64::MAX,
                            t == Transform::Scale(k),
                    ;
                }
                (n as i128) * (k as i128)
            },
            Transform::Shift(k) => (n as i128) + (k as i128),
        };
        proof {
            assert(v == transform_num(t, nums@[i as int]));
            assert(transform_nums(t, nums@)[i as int] == transform_num(t, nums@[i as int]));
        }
        if v < 0 || v > usize::MAX as i128 {
            return Err(CounterError::TypeMismatch);
        }
        out.push(v as usize);
        i = i + 1;
    }
    proof {
        assert(out@ =~= cast_nums(transform_nums(t, nums@)));
    }
    Ok(out)
}

impl CounterState {
    /// Advance the number of the given 1-indexed level by the given
    /// amount, saturating, and discard all deeper levels; a state with
    /// fewer levels is padded with `1`s up to `level` instead.
    pub fn step(&mut self, level: usize, by: usize)
        requires
            1 <= level,
        ensures
            final(self)@ == spec_step(old(self)@, level as int, by),
    {
        if self.0.len() >= level {
            let cur = self.0[level - 1];
            let next = if cur <= usize::MAX - by {
                cur + by
            } else {
                usize::MAX
            };
            self.0.set(level - 1, next);
            self.0.truncate(level);
            proof {
                assert(self@ =~= spec_step(old(self)@, level as int, by));
            }
        } else {
            while self.0.len() < level
                invariant
                    old(self)@.len() < level,
                    old(self)@.len() <= self@.len() <= level,
                    forall|i: int| 0 <= i < old(self)@.len() ==> self@[i] == old(self)@[i],
                    forall|i: int| old(self)@.len() <= i < self@.len() ==> self@[i] == 1usize,
                decreases level - self.0.len(),
            {
                self.0.push(1);
            }
            proof {
                assert(self@ =~= spec_step(old(self)@, level as int, by));
            }
        }
    }

    /// Advance the counter by one update: replace it, step it, or run a
    /// functional transform over it. A transform whose result does not
    /// cast back to a counter state leaves the state unchanged and
    /// reports the type mismatch.
    pub fn update(&mut self, update: &CounterUpdate) -> (r: Result<(), CounterError>)
        requires
            update.wf(),
        ensures
            match spec_update(old(self)@, *update) {
                Some(s) => r is Ok && final(self)@ == s,
                None => r == Err::<(), CounterError>(CounterError::TypeMismatch) && final(self)@
                    == old(self)@,
            },
    {
        match update {
            CounterUpdate::SetTo(state) => {
                self.0 = clone_nums(&state.0);
                Ok(())
            },
            CounterUpdate::Step(level) => {
                self.step(*level, 1);
                Ok(())
            },
            CounterUpdate::Func(t) => {
                match apply_transform(*t, &self.0) {
                    Ok(nums) => {
                        self.0 = nums;
                        Ok(())
                    },
                    Err(e) => Err(e),
                }
            },
        }
    }

    /// The top-level count, defaulting to `1` for an empty state.
    pub fn first(&self) -> (r: usize)
        ensures
            r == spec_first(self@),
    {
        if self.0.len() > 0 {
            self.0[0]
        } else {
            1
        }
    }

    /// An equal, independent copy of this state.
    pub fn duplicate(&self) -> (r: CounterState)
        ensures
            r@ == self@,
    {
        CounterState(clone_nums(&self.0))
    }
}

} // verus!
