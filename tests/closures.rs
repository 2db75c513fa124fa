use rustbook::closures::{generate_workout, Cacher, Counter, WorkoutStep};
use std::cell::Cell;

#[test]
fn call_with_different_values() {
    let mut c = Cacher::new(|a| a);

    let _v1 = c.value(1);
    let v2 = c.value(2);

    assert_eq!(v2, 2);
}

#[test]
fn cacher_calculates_once_per_argument() {
    let calls = Cell::new(0u32);
    let mut c = Cacher::new(|a| {
        calls.set(calls.get() + 1);
        a * 2
    });
    assert_eq!(c.value(3), 6);
    assert_eq!(c.value(3), 6);
    assert_eq!(c.value(4), 8);
    assert_eq!(calls.get(), 2);
}

#[test]
fn workout_for_each_intensity() {
    let mut c = Cacher::new(|a| a + 1);
    assert_eq!(
        generate_workout(10, 7, &mut c),
        vec![WorkoutStep::Pushups(11), WorkoutStep::Situps(11)]
    );
    assert_eq!(generate_workout(30, 3, &mut c), vec![WorkoutStep::Break]);
    assert_eq!(generate_workout(30, 4, &mut c), vec![WorkoutStep::Run(31)]);
}

#[test]
fn iterator_demonstration() {
    let v1 = vec![1, 2, 3];

    let mut v1_iter = v1.iter();

    assert_eq!(v1_iter.next(), Some(&1));
    assert_eq!(v1_iter.next(), Some(&2));
    assert_eq!(v1_iter.next(), Some(&3));
    assert_eq!(v1_iter.next(), None);
}

fn counted(mut c: Counter) -> Vec<u32> {
    let mut out = Vec::new();
    while let Some(x) = c.next() {
        out.push(x);
    }
    out
}

#[test]
fn using_other_iterator_trait_methods() {
    let mut skipped = Counter::new();
    skipped.next();
    let sum: u32 = counted(Counter::new())
        .into_iter()
        .zip(counted(skipped))
        .map(|(a, b)| a * b)
        .filter(|x| x % 3 == 0)
        .sum();
    assert_eq!(18, sum);
}

#[test]
fn counter_counts_to_five() {
    let mut c = Counter::new();
    assert_eq!(counted(Counter::new()), vec![1, 2, 3, 4, 5]);
    for _ in 0..5 {
        c.next();
    }
    assert_eq!(c.next(), None);
}
