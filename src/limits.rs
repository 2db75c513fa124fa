//! Tracking how much of a quota is used and warning through a messenger as
//! the use crosses three quarters, nine tenths and all of it.
use vstd::prelude::*;

verus! {

/// Something that delivers a message, such as an email or a chat sender.
pub trait Messenger {
    fn send(&self, msg: &str);
}

/// How close a value stands to its quota.
#[derive(Debug, Clone, Copy, PartialEq, Eq, Structural)]
pub enum QuotaLevel {
    /// At least three quarters of the quota.
    Warning,
    /// At least nine tenths of the quota.
    Urgent,
    /// The whole quota or more.
    Over,
}

/// The level that `value` reaches against `max`, if any. With a quota of
/// zero, any positive value is over it and zero reaches no level.
pub open spec fn quota_level_of(value: nat, max: nat) -> Option<QuotaLevel> {
    if value > 0 && value >= max {
        Some(QuotaLevel::Over)
    } else if max > 0 && 10 * value >= 9 * max {
        Some(QuotaLevel::Urgent)
    } else if max > 0 && 4 * value >= 3 * max {
        Some(QuotaLevel::Warning)
    } else {
        None
    }
}

/// The level that `value` reaches against `max`, if any.
pub fn quota_level(value: usize, max: usize) -> (r: Option<QuotaLevel>)
    ensures
        r == quota_level_of(value as nat, max as nat),
{
    let v = value as u128;
    let m = max as u128;
    if v > 0 && v >= m {
        Some(QuotaLevel::Over)
    } else if m > 0 && 10 * v >= 9 * m {
        Some(QuotaLevel::Urgent)
    } else if m > 0 && 4 * v >= 3 * m {
        Some(QuotaLevel::Warning)
    } else {
        None
    }
}

impl QuotaLevel {
    /// The message sent when a value reaches this level.
    pub fn message(&self) -> (r: &'static str)
        ensures
            r@ == match *self {
                QuotaLevel::Over => "Error: You are over your quota!"@,
                QuotaLevel::Urgent => "Urgent warning: You've used up over 90% of your quota!"@,
                QuotaLevel::Warning => "Warning: You've used up over 75% of your quota!"@,
            },
    {
        match self {
            QuotaLevel::Over => "Error: You are over your quota!",
            QuotaLevel::Urgent => "Urgent warning: You've used up over 90% of your quota!",
            QuotaLevel::Warning => "Warning: You've used up over 75% of your quota!",
        }
    }
}

/// Tracks a value against a quota and tells a messenger when the value
/// comes close to it or passes it.
pub struct LimitTracker<'a, T: Messenger> {
    messenger: &'a T,
    value: usize,
    max: usize,
}

impl<'a, T: Messenger> LimitTracker<'a, T> {
    /// The current value.
    pub closed spec fn spec_value(&self) -> nat {
        self.value as nat
    }

    /// The quota.
    pub closed spec fn spec_max(&self) -> nat {
        self.max as nat
    }

    /// A tracker at zero for a quota of `max`.
    pub fn new(messenger: &'a T, max: usize) -> (r: LimitTracker<'a, T>)
        ensures
            r.spec_value() == 0,
            r.spec_max() == max,
    {
        LimitTracker { messenger, value: 0, max }
    }

    /// Sets the value and, when it reaches a level of the quota, sends that
    /// level's message once. Returns the level reached.
    pub fn set_value(&mut self, value: usize) -> (r: Option<QuotaLevel>)
        ensures
            final(self).spec_value() == value,
            final(self).spec_max() == old(self).spec_max(),
            r == quota_level_of(value as nat, old(self).spec_max()),
    {
        self.value = value;
        let level = quota_level(self.value, self.max);
        match level {
            Some(l) => self.messenger.send(l.message()),
            None => {},
        }
        level
    }
}

} // verus!
