//! Primary rate-limit tracking from GraphQL `rateLimit` blocks.

use vstd::prelude::*;
use crate::clock::{nanos_between, parsed_instant, Instant, Moment};
use crate::fetch::pull_requests::int_view;
use crate::json::{integer, integer_at, string_field, text_at, Json};

verus! {

/// A length of time to wait.
#[derive(Debug, Clone, Copy, PartialEq, Eq, Structural)]
pub struct Pause {
    pub seconds: u64,
    pub nanos: u32,
}

/// A pause of a number of nanoseconds.
pub open spec fn is_pause(pause: Pause, nanos: int) -> bool {
    &&& pause.seconds == nanos / 1_000_000_000
    &&& pause.nanos == nanos % 1_000_000_000
}

/// Tracks the most recent primary rate-limit observation.
#[derive(Debug)]
pub struct RateLimitTracker {
    last_cost: Option<i64>,
    remaining: Option<i64>,
    reset_at: Option<Instant>,
}

/// The model of a tracker.
pub ghost struct Budget {
    pub last_cost: Option<int>,
    pub remaining: Option<int>,
    pub reset_at: Option<Moment>,
}

/// The model of an optional instant.
pub open spec fn opt_moment(instant: Option<Instant>) -> Option<Moment> {
    match instant {
        Some(instant) => Some(instant@),
        None => None,
    }
}

impl View for RateLimitTracker {
    type V = Budget;

    closed spec fn view(&self) -> Budget {
        Budget {
            last_cost: int_view(self.last_cost),
            remaining: int_view(self.remaining),
            reset_at: opt_moment(self.reset_at),
        }
    }
}

/// The instant that a text says, where it is a timestamp.
pub open spec fn moment_of(text: Option<Seq<char>>) -> Option<Moment> {
    match text {
        Some(text) => match parsed_instant(text) {
            Ok(parts) => Some(Moment { seconds: parts.0, nanos: parts.1 }),
            Err(_) => None,
        },
        None => None,
    }
}

/// What a `rateLimit` block says.
pub open spec fn budget_in(block: Json) -> Budget {
    Budget {
        last_cost: integer_at(block, "cost"@),
        remaining: integer_at(block, "remaining"@),
        reset_at: moment_of(text_at(block, "resetAt"@)),
    }
}

/// The remaining budget under which to wait: twice the cost of the last call.
pub open spec fn safety_floor(last_cost: Option<int>) -> int {
    match last_cost {
        Some(cost) => if cost >= 1 {
            cost * 2
        } else {
            2
        },
        None => 2,
    }
}

/// The first instant comes before the second.
pub open spec fn is_earlier(left: Moment, right: Moment) -> bool {
    left.seconds < right.seconds || (left.seconds == right.seconds && left.nanos < right.nanos)
}

/// How many nanoseconds to wait, if at all: until the reset, when the remaining
/// budget is below the floor and the reset lies ahead.
pub open spec fn wait_of(budget: Budget, now: Moment) -> Option<int> {
    match (budget.remaining, budget.reset_at) {
        (Some(remaining), Some(reset_at)) => if remaining < safety_floor(budget.last_cost)
            && is_earlier(now, reset_at) && nanos_between(reset_at, now) >= 0 {
            Some(nanos_between(reset_at, now))
        } else {
            None
        },
        _ => None,
    }
}

impl RateLimitTracker {
    /// A tracker that has seen nothing.
    pub fn new() -> (tracker: RateLimitTracker)
        ensures
            tracker@ == (Budget { last_cost: None, remaining: None, reset_at: None }),
    {
        RateLimitTracker { last_cost: None, remaining: None, reset_at: None }
    }

    /// Record the `rateLimit { limit cost remaining resetAt }` block.
    pub fn observe(&mut self, block: &Json)
        ensures
            final(self)@ == budget_in(*block),
    {
        self.last_cost = integer(block, "cost");
        self.remaining = integer(block, "remaining");
        self.reset_at = match string_field(block, "resetAt") {
            Some(text) => match Instant::parse(text.as_str()) {
                Ok(instant) => Some(instant),
                Err(_) => None,
            },
            None => None,
        };
    }

    /// If remaining budget is below the safety floor, how long to sleep.
    pub fn wait_needed(&self, now: &Instant) -> (pause: Option<Pause>)
        ensures
            match wait_of(self@, now@) {
                Some(nanos) => pause is Some && is_pause(pause->Some_0, nanos),
                None => pause is None,
            },
    {
        let remaining: i64 = match self.remaining {
            Some(remaining) => remaining,
            None => return None,
        };
        let cost: i64 = match self.last_cost {
            Some(cost) => if cost >= 1 {
                cost
            } else {
                1
            },
            None => 1,
        };
        if remaining as i128 >= cost as i128 * 2 {
            return None;
        }
        let reset_at = match self.reset_at {
            Some(reset_at) => reset_at,
            None => return None,
        };
        let ahead = now.seconds() < reset_at.seconds() || (now.seconds() == reset_at.seconds()
            && now.nanos() < reset_at.nanos());
        if !ahead {
            return None;
        }
        reset_at.pause_since(now)
    }
}

impl Default for RateLimitTracker {
    fn default() -> (tracker: RateLimitTracker)
        ensures
            tracker@ == (Budget { last_cost: None, remaining: None, reset_at: None }),
    {
        RateLimitTracker::new()
    }
}

/// A healthy budget never waits, and a wait never outlasts the reset.
pub proof fn law_waits_only_for_a_reset_ahead(budget: Budget, now: Moment)
    ensures
        wait_of(budget, now) is Some ==> {
            &&& budget.remaining is Some
            &&& budget.remaining->Some_0 < safety_floor(budget.last_cost)
            &&& budget.reset_at is Some
            &&& is_earlier(now, budget.reset_at->Some_0)
            &&& wait_of(budget, now)->Some_0 == nanos_between(budget.reset_at->Some_0, now)
        },
        (budget.remaining matches Some(remaining) && remaining >= safety_floor(budget.last_cost))
            ==> wait_of(budget, now) is None,
{
}

/// A tracker waits exactly while the budget is short of two more calls like the last
/// one and its reset lies ahead, and then until the reset.
pub proof fn law_two_more_calls_are_kept_in_reserve(
    last_cost: Option<int>,
    remaining: int,
    reset_at: Moment,
    now: Moment,
)
    requires
        last_cost is Some ==> last_cost->Some_0 >= 1,
        nanos_between(reset_at, now) >= 0,
    ensures
        ({
            let budget = Budget { last_cost, remaining: Some(remaining), reset_at: Some(reset_at) };
            let cost = match last_cost {
                Some(cost) => cost,
                None => 1,
            };
            &&& wait_of(budget, now) is Some <==> remaining < cost + cost && is_earlier(
                now,
                reset_at,
            )
            &&& wait_of(budget, now) matches Some(nanos) ==> nanos == nanos_between(reset_at, now)
        }),
{
}

} // verus!
