//! Triggers a sync the moment WoW writes SavedVariables, so ledger rows reach
//! the site seconds after a logout instead of waiting out the interval. The
//! filesystem watch is the caller's; this decides which paths count and when
//! a burst of writes has settled.
use vstd::prelude::*;
use crate::text::str_eq;

verus! {

/// Quiet period, in milliseconds, after the last matching event before one
/// sync fires: WoW rewrites SavedVariables non-atomically and per account.
pub const DEBOUNCE: u64 = 3000;

/// Whether an optional path component is present and equal to `name`.
pub open spec fn named(part: Option<&str>, name: Seq<char>) -> bool {
    match part {
        Some(p) => p@ == name,
        None => false,
    }
}

/// True for a file named `GoldCap.lua` in a folder named `SavedVariables`.
pub fn is_goldcap_savedvars(file_name: Option<&str>, parent_name: Option<&str>) -> (r: bool)
    ensures
        r == (named(file_name, "GoldCap.lua"@) && named(parent_name, "SavedVariables"@)),
{
    match (file_name, parent_name) {
        (Some(f), Some(d)) => str_eq(f, "GoldCap.lua") && str_eq(d, "SavedVariables"),
        _ => false,
    }
}

/// Debounce state: every event pushes the deadline out; the deadline firing
/// clears it. Times are milliseconds on a monotonic clock.
#[derive(Debug, Default)]
pub struct Debouncer {
    deadline: Option<u64>,
}

/// The deadline after an event at `now`.
pub open spec fn deadline_after_event(now: u64) -> Option<u64> {
    Some((now + DEBOUNCE) as u64)
}

/// Whether a deadline fires at `now`, and the deadline left afterwards.
pub open spec fn deadline_step(deadline: Option<u64>, now: u64) -> (bool, Option<u64>) {
    match deadline {
        Some(d) => if now >= d { (true, None) } else { (false, deadline) },
        None => (false, None),
    }
}

impl Debouncer {
    pub closed spec fn pending(&self) -> Option<u64> {
        self.deadline
    }

    pub fn new() -> (r: Debouncer)
        ensures
            r.pending() is None,
    {
        Debouncer { deadline: None }
    }

    /// A matching event at `now`: the deadline moves to `now + DEBOUNCE`.
    pub fn on_event(&mut self, now: u64)
        requires
            now + DEBOUNCE <= u64::MAX,
        ensures
            final(self).pending() == deadline_after_event(now),
    {
        self.deadline = Some(now + DEBOUNCE);
    }

    pub fn fire_at(&self) -> (r: Option<u64>)
        ensures
            r == self.pending(),
    {
        self.deadline
    }

    /// True when the deadline has passed and a sync should fire; only then is
    /// the state cleared.
    pub fn on_deadline(&mut self, now: u64) -> (r: bool)
        ensures
            (r, final(self).pending()) == deadline_step(old(self).pending(), now),
    {
        match self.deadline {
            Some(d) => {
                if now >= d {
                    self.deadline = None;
                    true
                } else {
                    false
                }
            },
            None => false,
        }
    }
}

/// A deadline fires at most once: once it has fired, no later check fires
/// until another event arrives.
pub proof fn law_fires_once(deadline: Option<u64>, now: u64, later: u64)
    requires
        deadline_step(deadline, now).0,
    ensures
        !deadline_step(deadline_step(deadline, now).1, later).0,
{
}

/// A burst never fires early: after the last event at `t`, no check before
/// `t + DEBOUNCE` fires, and the first check at or after it does.
pub proof fn law_waits_out_the_burst(t: u64, now: u64)
    requires
        t + DEBOUNCE <= u64::MAX,
    ensures
        deadline_step(deadline_after_event(t), now).0 == (now >= t + DEBOUNCE),
{
}

} // verus!
