//! The number guessing game: a secret between 1 and 100 and a verdict on
//! each guess.
use rand::Rng;
use vstd::prelude::*;

use crate::text::{trim_of, trim_str};

verus! {

/// The smallest secret.
pub const LOWEST: u32 = 1;

/// The largest secret.
pub const HIGHEST: u32 = 100;

/// How a guess compares with the secret.
#[derive(Debug, Clone, Copy, PartialEq, Eq, Structural)]
pub enum Verdict {
    TooSmall,
    TooBig,
    Win,
}

/// The verdict on `guess` against `secret`.
pub open spec fn verdict_of(guess: u32, secret: u32) -> Verdict {
    if guess < secret {
        Verdict::TooSmall
    } else if guess > secret {
        Verdict::TooBig
    } else {
        Verdict::Win
    }
}

/// The value of a decimal numeral: ASCII digits, most significant first.
pub open spec fn digits_value(s: Seq<char>) -> nat
    decreases s.len(),
{
    if s.len() == 0 {
        0
    } else {
        digits_value(s.drop_last()) * 10 + (s.last() as nat - '0' as nat) as nat
    }
}

/// Whether `s` is a non-empty run of ASCII digits.
pub open spec fn all_digits(s: Seq<char>) -> bool {
    s.len() > 0 && forall|i: int| 0 <= i < s.len() ==> '0' <= #[trigger] s[i] <= '9'
}

/// What parsing `s` as a `u32` gives: an optional `+` followed by digits
/// whose value fits.
pub open spec fn parse_u32_of(s: Seq<char>) -> Option<u32> {
    let digits = if s.len() > 0 && s[0] == '+' {
        s.drop_first()
    } else {
        s
    };
    if all_digits(digits) && digits_value(digits) <= u32::MAX {
        Some(digits_value(digits) as u32)
    } else {
        None
    }
}

/// Relies on rand's `Rng::gen_range` on the thread-local generator: a value
/// at least `low` and below `high`; it panics unless `low < high`.
#[verifier::external_body]
fn random_below(low: u32, high: u32) -> (r: u32)
    requires
        low < high,
    ensures
        low <= r < high,
{
    rand::thread_rng().gen_range(low, high)
}

/// Relies on str::parse for `u32`: decimal digits with an optional `+`,
/// refused when empty, when any other character occurs, or on overflow.
#[verifier::external_body]
fn parse_u32(s: &str) -> (r: Option<u32>)
    ensures
        r == parse_u32_of(s@),
{
    s.parse::<u32>().ok()
}

/// The verdict on `guess` against `secret`.
pub fn judge(guess: u32, secret: u32) -> (r: Verdict)
    ensures
        r == verdict_of(guess, secret),
{
    if guess < secret {
        Verdict::TooSmall
    } else if guess > secret {
        Verdict::TooBig
    } else {
        Verdict::Win
    }
}

/// Reads a guess from a line of input: the number it holds once trimmed.
pub fn parse_guess(line: &str) -> (r: Option<u32>)
    ensures
        r == parse_u32_of(trim_of(line@)),
{
    parse_u32(trim_str(line))
}

/// One round of the game.
pub struct Game {
    secret: u32,
}

impl Game {
    /// The number to guess.
    pub closed spec fn spec_secret(&self) -> u32 {
        self.secret
    }

    /// A game with a secret drawn at random between `LOWEST` and `HIGHEST`.
    pub fn new() -> (r: Game)
        ensures
            LOWEST <= r.spec_secret() <= HIGHEST,
    {
        Game { secret: random_below(LOWEST, HIGHEST + 1) }
    }

    /// A game with the given secret.
    pub fn with_secret(secret: u32) -> (r: Game)
        ensures
            r.spec_secret() == secret,
    {
        Game { secret }
    }

    /// The verdict on `guess`.
    pub fn guess(&self, guess: u32) -> (r: Verdict)
        ensures
            r == verdict_of(guess, self.spec_secret()),
    {
        judge(guess, self.secret)
    }
}

} // verus!
