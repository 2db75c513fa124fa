//! Functions that move, borrow and slice strings, and two small numeric
//! ones.
use vstd::prelude::*;
use vstd::string::*;
use vstd::utf8::*;

verus! {

broadcast use group_utf8_lib;

/// Five.
pub fn return_five() -> (r: i32)
    ensures
        r == 5,
{
    5
}

/// The Fibonacci numbers, with every `n <= 1` mapped to itself.
pub open spec fn fib_of(n: int) -> int
    decreases n,
{
    if n <= 1 {
        n
    } else {
        fib_of(n - 1) + fib_of(n - 2)
    }
}

proof fn lemma_fib_monotone(m: int, n: int)
    requires
        0 <= m <= n,
    ensures
        0 <= fib_of(m) <= fib_of(n),
    decreases n,
{
    if m < n {
        lemma_fib_monotone(m, n - 1);
        if n >= 2 {
            lemma_fib_monotone(0, n - 2);
        }
    } else if n >= 2 {
        lemma_fib_monotone(0, n - 1);
        lemma_fib_monotone(0, n - 2);
    }
}

/// The Fibonacci number at 46, reached one step at a time.
proof fn lemma_fib_46()
    ensures
        fib_of(46) == 1836311903,
{
    assert(fib_of(0) == 0);
    assert(fib_of(1) == 1);
    assert(fib_of(2) == 1);
    assert(fib_of(3) == 2);
    assert(fib_of(4) == 3);
    assert(fib_of(5) == 5);
    assert(fib_of(6) == 8);
    assert(fib_of(7) == 13);
    assert(fib_of(8) == 21);
    assert(fib_of(9) == 34);
    assert(fib_of(10) == 55);
    assert(fib_of(11) == 89);
    assert(fib_of(12) == 144);
    assert(fib_of(13) == 233);
    assert(fib_of(14) == 377);
    assert(fib_of(15) == 610);
    assert(fib_of(16) == 987);
    assert(fib_of(17) == 1597);
    assert(fib_of(18) == 2584);
    assert(fib_of(19) == 4181);
    assert(fib_of(20) == 6765);
    assert(fib_of(21) == 10946);
    assert(fib_of(22) == 17711);
    assert(fib_of(23) == 28657);
    assert(fib_of(24) == 46368);
    assert(fib_of(25) == 75025);
    assert(fib_of(26) == 121393);
    assert(fib_of(27) == 196418);
    assert(fib_of(28) == 317811);
    assert(fib_of(29) == 514229);
    assert(fib_of(30) == 832040);
    assert(fib_of(31) == 1346269);
    assert(fib_of(32) == 2178309);
    assert(fib_of(33) == 3524578);
    assert(fib_of(34) == 5702887);
    assert(fib_of(35) == 9227465);
    assert(fib_of(36) == 14930352);
    assert(fib_of(37) == 24157817);
    assert(fib_of(38) == 39088169);
    assert(fib_of(39) == 63245986);
    assert(fib_of(40) == 102334155);
    assert(fib_of(41) == 165580141);
    assert(fib_of(42) == 267914296);
    assert(fib_of(43) == 433494437);
    assert(fib_of(44) == 701408733);
    assert(fib_of(45) == 1134903170);
    assert(fib_of(46) == 1836311903);
}

/// The `n`th Fibonacci number; 46 is the last that fits an `i32`.
pub fn fib(n: i32) -> (r: i32)
    requires
        n <= 46,
    ensures
        r == fib_of(n as int),
    decreases n,
{
    if n <= 1 {
        return n;
    }
    proof {
        lemma_fib_monotone(n - 1, 46);
        lemma_fib_monotone(n - 2, 46);
        lemma_fib_monotone(n as int, 46);
        lemma_fib_46();
    }
    fib(n - 1) + fib(n - 2)
}

/// A new string holding "hello".
pub fn gives_ownership() -> (r: String)
    ensures
        r@ == "hello"@,
{
    String::from_str("hello")
}

/// Hands back the string it was given.
pub fn takes_and_gives_back(a_string: String) -> (r: String)
    ensures
        r == a_string,
{
    a_string
}

/// Moves strings in and out of functions.
pub fn return_value_from_function() {
    let _s1 = gives_ownership();
    let s2 = String::from_str("hello");
    let _s3 = takes_and_gives_back(s2);
}

/// The length of `s` in bytes.
pub fn calculate_length(s: &String) -> (r: usize)
    ensures
        r == encode_utf8(s@).len(),
{
    s.as_str().as_bytes().len()
}

/// Appends ", world".
pub fn change(some_string: &mut String)
    ensures
        final(some_string)@ == old(some_string)@ + ", world"@,
{
    some_string.append(", world");
}

/// Changes a string through a mutable borrow.
pub fn mut_ref() {
    let mut s = String::from_str("hello");
    change(&mut s);
}

/// The bytes before the first space of `s`, or all of `s` when it has none.
pub fn first_word(s: &str) -> (r: &str)
    ensures
        r.spec_bytes().len() <= s.spec_bytes().len(),
        r.spec_bytes() == s.spec_bytes().subrange(0, r.spec_bytes().len() as int),
        forall|j: int| 0 <= j < r.spec_bytes().len() ==> #[trigger] s.spec_bytes()[j] != 32u8,
        r.spec_bytes().len() < s.spec_bytes().len() ==> s.spec_bytes()[r.spec_bytes().len() as int]
            == 32u8,
{
    let bytes = s.as_bytes();
    let mut i: usize = 0;
    while i < bytes.len()
        invariant
            bytes@ == s.spec_bytes(),
            i <= bytes@.len(),
            forall|j: int| 0 <= j < i ==> #[trigger] bytes@[j] != 32u8,
        decreases bytes@.len() - i,
    {
        if bytes[i] == 32u8 {
            proof {
                is_char_boundary_iff_not_is_continuation_byte(s.spec_bytes(), i as int);
            }
            let (word, _) = s.split_at(i);
            assert(word.spec_bytes() == s.spec_bytes().subrange(0, i as int));
            return word;
        }
        i = i + 1;
    }
    assert(s.spec_bytes().subrange(0, i as int) =~= s.spec_bytes());
    s
}

} // verus!
