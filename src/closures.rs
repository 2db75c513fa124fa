//! A memoizing wrapper around a calculation, a workout planner built on it,
//! and a counter that counts from one to five.
use std::collections::HashMap;
use vstd::prelude::*;

verus! {

broadcast use vstd::std_specs::hash::group_hash_axioms;

/// Runs a calculation at most once per argument and keeps the results.
pub struct Cacher<F: Fn(u32) -> u32> {
    calculation: F,
    values: HashMap<u32, u32>,
}

impl<F: Fn(u32) -> u32> Cacher<F> {
    /// The wrapped calculation.
    pub closed spec fn calculation(&self) -> F {
        self.calculation
    }

    /// The results kept so far, by argument.
    pub closed spec fn cache(&self) -> Map<u32, u32> {
        self.values@
    }

    /// Whether `n` is what `value(arg)` may give: the kept result when
    /// there is one, else a result of the calculation.
    pub open spec fn gives(&self, arg: u32, n: u32) -> bool {
        if self.cache().contains_key(arg) {
            n == self.cache()[arg]
        } else {
            self.calculation().ensures((arg,), n)
        }
    }

    /// A cacher with nothing kept yet.
    pub fn new(calculation: F) -> (r: Cacher<F>)
        ensures
            r.calculation() == calculation,
            r.cache() == Map::<u32, u32>::empty(),
    {
        Cacher { calculation, values: HashMap::new() }
    }

    /// The result for `arg`: the kept one, or the calculation's, which is
    /// then kept.
    pub fn value(&mut self, arg: u32) -> (r: u32)
        requires
            old(self).calculation().requires((arg,)),
        ensures
            final(self).calculation() == old(self).calculation(),
            old(self).gives(arg, r),
            final(self).cache() == old(self).cache().insert(arg, r),
    {
        match self.values.get(&arg) {
            Some(v) => {
                let v = *v;
                proof {
                    assert(self.values@.insert(arg, v) =~= self.values@);
                }
                v
            },
            None => {
                let res = (self.calculation)(arg);
                self.values.insert(arg, res);
                res
            },
        }
    }
}

/// One step of a workout.
#[derive(Debug, Clone, Copy, PartialEq, Eq, Structural)]
pub enum WorkoutStep {
    Pushups(u32),
    Situps(u32),
    Break,
    Run(u32),
}

/// The workout for `intensity`, with the numbers worked out by
/// `expensive_result`: a light one does pushups then situps, a hard one
/// runs, unless `random_number` is 3, which calls for a break.
pub fn generate_workout<F: Fn(u32) -> u32>(
    intensity: u32,
    random_number: u32,
    expensive_result: &mut Cacher<F>,
) -> (r: Vec<WorkoutStep>)
    requires
        old(expensive_result).calculation().requires((intensity,)),
    ensures
        final(expensive_result).calculation() == old(expensive_result).calculation(),
        intensity < 25 ==> exists|n: u32|
            old(expensive_result).gives(intensity, n) && #[trigger] r@ == seq![
                WorkoutStep::Pushups(n),
                WorkoutStep::Situps(n),
            ],
        intensity >= 25 && random_number == 3 ==> r@ == seq![WorkoutStep::Break],
        intensity >= 25 && random_number != 3 ==> exists|n: u32|
            old(expensive_result).gives(intensity, n) && #[trigger] r@ == seq![WorkoutStep::Run(n)],
{
    let mut steps: Vec<WorkoutStep> = Vec::new();
    if intensity < 25 {
        let n = expensive_result.value(intensity);
        let m = expensive_result.value(intensity);
        steps.push(WorkoutStep::Pushups(n));
        steps.push(WorkoutStep::Situps(m));
        assert(steps@ =~= seq![WorkoutStep::Pushups(n), WorkoutStep::Situps(n)]);
    } else if random_number == 3 {
        steps.push(WorkoutStep::Break);
        assert(steps@ =~= seq![WorkoutStep::Break]);
    } else {
        let n = expensive_result.value(intensity);
        steps.push(WorkoutStep::Run(n));
        assert(steps@ =~= seq![WorkoutStep::Run(n)]);
    }
    steps
}

/// The largest value a `Counter` yields.
pub const COUNTER_LIMIT: u32 = 5;

/// Counts 1, 2, 3, 4, 5, then stops.
pub struct Counter {
    count: u32,
}

impl Counter {
    /// The last value yielded, 0 before the first.
    pub closed spec fn spec_count(&self) -> u32 {
        self.count
    }

    /// A counter that has yielded nothing yet.
    pub fn new() -> (r: Counter)
        ensures
            r.spec_count() == 0,
    {
        Counter { count: 0 }
    }

    /// The next value, or `None` once five has been yielded.
    pub fn next(&mut self) -> (r: Option<u32>)
        ensures
            old(self).spec_count() < COUNTER_LIMIT ==> {
                &&& final(self).spec_count() == old(self).spec_count() + 1
                &&& r == Some(final(self).spec_count())
            },
            old(self).spec_count() >= COUNTER_LIMIT ==> {
                &&& final(self).spec_count() == old(self).spec_count()
                &&& r is None
            },
    {
        if self.count < COUNTER_LIMIT {
            self.count = self.count + 1;
            Some(self.count)
        } else {
            None
        }
    }
}

} // verus!
