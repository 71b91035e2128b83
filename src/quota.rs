//! A tracker that warns, through a messenger of the user's choice, as a value
//! nears its maximum.
use vstd::prelude::*;

verus! {

/// Sends a message somewhere: a log, a mail, a text. The library leaves it to
/// its users.
pub trait Messenger {
    fn send(&self, msg: &str);
}

pub const OVER_QUOTA: &'static str = "Error: You are over your quota!";

pub const URGENT_WARNING: &'static str = "Urgent Warning: You've used up over 90% of you quota!";

pub const WARNING: &'static str = "Warning: You've used up over 75% of your quota!";

/// How far `value` has gone towards `max`: the ratio `value / max` compared
/// with 1, 9/10 and 3/4. A zero maximum counts as exceeded by any positive
/// value and as not reached by zero.
pub enum QuotaLevel {
    Over,
    Urgent,
    Warn,
    Fine,
}

pub open spec fn quota_level(value: nat, max: nat) -> QuotaLevel {
    if max == 0 {
        if value > 0 {
            QuotaLevel::Over
        } else {
            QuotaLevel::Fine
        }
    } else if value >= max {
        QuotaLevel::Over
    } else if 10 * value >= 9 * max {
        QuotaLevel::Urgent
    } else if 4 * value >= 3 * max {
        QuotaLevel::Warn
    } else {
        QuotaLevel::Fine
    }
}

/// The message that a value of `value` against a maximum of `max` calls for.
pub fn quota_message(value: usize, max: usize) -> (r: Option<&'static str>)
    ensures
        r == match quota_level(value as nat, max as nat) {
            QuotaLevel::Over => Some(OVER_QUOTA),
            QuotaLevel::Urgent => Some(URGENT_WARNING),
            QuotaLevel::Warn => Some(WARNING),
            QuotaLevel::Fine => None::<&'static str>,
        },
{
    let v = value as u128;
    let m = max as u128;
    if max == 0 {
        if value > 0 {
            Some(OVER_QUOTA)
        } else {
            None
        }
    } else if value >= max {
        Some(OVER_QUOTA)
    } else if 10 * v >= 9 * m {
        Some(URGENT_WARNING)
    } else if 4 * v >= 3 * m {
        Some(WARNING)
    } else {
        None
    }
}

/// Tracks a value against a maximum and tells a messenger when the value
/// nears or passes it.
pub struct LimitTracker<'a, T: Messenger> {
    messenger: &'a T,
    value: usize,
    max: usize,
}

impl<'a, T: Messenger> View for LimitTracker<'a, T> {
    /// The value, then the maximum.
    type V = (usize, usize);

    closed spec fn view(&self) -> (usize, usize) {
        (self.value, self.max)
    }
}

impl<'a, T: Messenger> LimitTracker<'a, T> {
    /// A tracker with value 0 and maximum `max`.
    pub fn new(messenger: &'a T, max: usize) -> (r: LimitTracker<'a, T>)
        ensures
            r@ == (0usize, max),
    {
        LimitTracker { messenger, value: 0, max }
    }

    /// Sets the value to `value` and sends the message that it calls for, if
    /// any (see `quota_message`).
    pub fn set_value(&mut self, value: usize)
        ensures
            final(self)@ == (value, old(self)@.1),
    {
        self.value = value;
        match quota_message(self.value, self.max) {
            Some(msg) => self.messenger.send(msg),
            None => {},
        }
    }
}

} // verus!
