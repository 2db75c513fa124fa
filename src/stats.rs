//! Summary statistics of a list of integers: mean, median and mode.
use vstd::prelude::*;

verus! {

/// The sum of `s`.
pub open spec fn sum_of(s: Seq<i32>) -> int
    decreases s.len(),
{
    if s.len() == 0 {
        0
    } else {
        sum_of(s.drop_last()) + s.last() as int
    }
}

/// How many times `x` occurs in `s`.
pub open spec fn occurrences(s: Seq<i32>, x: i32) -> nat
    decreases s.len(),
{
    if s.len() == 0 {
        0
    } else {
        occurrences(s.drop_last(), x) + if s.last() == x { 1nat } else { 0nat }
    }
}

/// `a / b` rounded toward zero, as integer division on machine integers.
pub open spec fn div_toward_zero(a: int, b: int) -> int {
    if a >= 0 {
        a / b
    } else {
        -((-a) / b)
    }
}

/// Whether `s` is in ascending order.
pub open spec fn is_sorted(s: Seq<i32>) -> bool {
    forall|i: int, j: int| 0 <= i <= j < s.len() ==> s[i] <= s[j]
}

/// Relies on slice::sort: the same values in ascending order.
#[verifier::external_body]
fn sort_values(v: &mut Vec<i32>)
    ensures
        final(v)@.to_multiset() == old(v)@.to_multiset(),
        is_sorted(final(v)@),
{
    v.sort();
}

fn count_of(v: &Vec<i32>, x: i32) -> (r: usize)
    ensures
        r == occurrences(v@, x),
{
    let mut n: usize = 0;
    let mut i: usize = 0;
    while i < v.len()
        invariant
            i <= v@.len(),
            n <= i,
            n == occurrences(v@.subrange(0, i as int), x),
        decreases v@.len() - i,
    {
        assert(v@.subrange(0, i + 1).drop_last() =~= v@.subrange(0, i as int));
        if v[i] == x {
            n = n + 1;
        }
        i = i + 1;
    }
    assert(v@.subrange(0, v@.len() as int) =~= v@);
    n
}

/// The mean (rounded toward zero), the median (the middle value once
/// sorted, the upper one of the two middle values for an even length) and a
/// mode (a value that occurs most often; of several, the first to occur) of
/// a non-empty list.
pub fn get_stat(v: &Vec<i32>) -> (r: (i32, i32, i32))
    requires
        0 < v@.len() <= i32::MAX,
    ensures
        r.0 == div_toward_zero(sum_of(v@), v@.len() as int),
        exists|s: Seq<i32>|
            is_sorted(s) && s.to_multiset() == v@.to_multiset() && #[trigger] s[(v@.len() / 2) as int]
                == r.1 && s.len() == v@.len(),
        v@.contains(r.2),
        forall|x: i32| v@.contains(x) ==> occurrences(v@, x) <= occurrences(v@, r.2),
{
    let n = v.len();
    let mut sum: i64 = 0;
    let mut i: usize = 0;
    while i < n
        invariant
            n == v@.len(),
            n <= i32::MAX,
            i <= n,
            sum == sum_of(v@.subrange(0, i as int)),
            -2147483648 * i <= sum <= 2147483647 * i,
        decreases n - i,
    {
        assert(v@.subrange(0, i + 1).drop_last() =~= v@.subrange(0, i as int));
        sum = sum + v[i] as i64;
        i = i + 1;
    }
    assert(v@.subrange(0, n as int) =~= v@);
    let mean: i32 = if sum >= 0 {
        let q = (sum as u64) / (n as u64);
        assert(q <= 2147483647) by (nonlinear_arith)
            requires
                q == (sum as int) / (n as int),
                0 <= sum <= 2147483647 * n,
                n > 0,
        ;
        q as i32
    } else {
        let q = ((-sum) as u64) / (n as u64);
        assert(q <= 2147483648) by (nonlinear_arith)
            requires
                q == (-sum as int) / (n as int),
                0 < -sum <= 2147483648 * n,
                n > 0,
        ;
        (-(q as i64)) as i32
    };

    let mut sorted = v.clone();
    assert(sorted@ =~= v@);
    sort_values(&mut sorted);
    proof {
        sorted@.to_multiset_ensures();
        v@.to_multiset_ensures();
    }
    let median = sorted[n / 2];

    let mut mode = v[0];
    let mut best = count_of(v, mode);
    let mut j: usize = 1;
    while j < n
        invariant
            n == v@.len(),
            1 <= j <= n,
            v@.contains(mode),
            best == occurrences(v@, mode),
            forall|k: int| 0 <= k < j ==> occurrences(v@, #[trigger] v@[k]) <= best,
        decreases n - j,
    {
        let c = count_of(v, v[j]);
        if c > best {
            best = c;
            mode = v[j];
        }
        j = j + 1;
    }
    assert forall|x: i32| v@.contains(x) implies occurrences(v@, x) <= occurrences(v@, mode) by {
        let k = choose|k: int| 0 <= k < v@.len() && v@[k] == x;
        assert(occurrences(v@, v@[k]) <= best);
    }
    (mean, median, mode)
}

} // verus!
