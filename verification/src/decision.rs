//! How many runners are wanted, and when the count may change.
use crate::outside::{can_have_passed, clock_can_say};
use std::time::{Duration, Instant};
use vstd::prelude::*;

verus! {

/// What to do about the replica count in one polling cycle.
#[derive(Debug, Clone, Copy, PartialEq, Eq, Structural)]
pub enum ScaleDecision {
    /// More runners are wanted than there are.
    ScaleUp,
    /// Fewer runners have been wanted for the whole cooldown.
    ScaleDown,
    /// Fewer runners are wanted, but the cooldown has `remaining` seconds to go.
    WaitCooldown { remaining: u64 },
    /// The count is right.
    Noop,
}

/// `n` brought into the range from `min` to `max`.
pub open spec fn clamped(n: int, min: int, max: int) -> int {
    if n < min {
        min
    } else if n > max {
        max
    } else {
        n
    }
}

/// The decision where `elapsed` seconds have passed since the surplus of runners began.
pub open spec fn decision(
    current: i32,
    desired: i32,
    cooldown_secs: u64,
    elapsed: u64,
) -> ScaleDecision {
    if desired > current {
        ScaleDecision::ScaleUp
    } else if desired == current {
        ScaleDecision::Noop
    } else if elapsed >= cooldown_secs {
        ScaleDecision::ScaleDown
    } else {
        ScaleDecision::WaitCooldown { remaining: (cooldown_secs - elapsed) as u64 }
    }
}

/// When the surplus of runners began, as seen after a cycle: kept while the surplus lasts, `now`
/// where it is new, and forgotten where there is none.
pub open spec fn surplus_since(
    since: Option<Instant>,
    current: i32,
    desired: i32,
    now: Instant,
) -> Option<Instant> {
    if desired >= current {
        None
    } else if since is Some {
        since
    } else {
        Some(now)
    }
}

/// Whether `after` is what a cycle makes of `before`, where the clock is asked for the start of a
/// new surplus.
pub open spec fn surplus_follows(
    before: Option<Instant>,
    current: i32,
    desired: i32,
    after: Option<Instant>,
) -> bool {
    exists|now: Instant|
        {
            &&& clock_can_say(now)
            &&& after == #[trigger] surplus_since(before, current, desired, now)
        }
}

/// Whether `decided` is the decision for some time that can have passed since the surplus began.
/// Without a surplus no time counts.
pub open spec fn decision_since(
    current: i32,
    desired: i32,
    cooldown_secs: u64,
    since: Option<Instant>,
    decided: ScaleDecision,
) -> bool {
    exists|elapsed: u64|
        {
            &&& since matches Some(started_at) ==> can_have_passed(started_at, elapsed)
            &&& decided == #[trigger] decision(current, desired, cooldown_secs, elapsed)
        }
}

/// The number of replicas wanted for `queued` waiting and `running` running jobs.
pub fn desired_replicas(queued: u64, running: usize, min: i32, max: i32) -> (r: i32)
    requires
        min <= max,
    ensures
        r == clamped(queued + running, min as int, max as int),
        min <= r <= max,
{
    let wanted: i128 = queued as i128 + running as i128;
    if wanted < min as i128 {
        min
    } else if wanted > max as i128 {
        max
    } else {
        wanted as i32
    }
}

/// The decision where `elapsed` seconds have passed since the surplus of runners began.
pub fn decide_after(current: i32, desired: i32, cooldown_secs: u64, elapsed: u64) -> (r:
    ScaleDecision)
    ensures
        r == decision(current, desired, cooldown_secs, elapsed),
{
    if desired > current {
        ScaleDecision::ScaleUp
    } else if desired == current {
        ScaleDecision::Noop
    } else if elapsed >= cooldown_secs {
        ScaleDecision::ScaleDown
    } else {
        ScaleDecision::WaitCooldown { remaining: cooldown_secs - elapsed }
    }
}

/// Keeps track of since when there has been a surplus of runners, and says since when: `None`
/// where there is none. The start of a new surplus is what the clock says; the contract leaves
/// open what that is.
pub fn track_surplus(current: i32, desired: i32, scale_down_since: &mut Option<Instant>) -> (r:
    Option<Instant>)
    ensures
        r == *final(scale_down_since),
        surplus_follows(*old(scale_down_since), current, desired, *final(scale_down_since)),
{
    let now: Instant = Instant::now();
    if desired >= current {
        *scale_down_since = None;
    } else if scale_down_since.is_none() {
        *scale_down_since = Some(now);
    }
    assert(*scale_down_since == surplus_since(*old(scale_down_since), current, desired, now));
    *scale_down_since
}

/// Decides what to do with `current` replicas where `desired` are wanted, and keeps track of
/// since when there has been a surplus. The cooldown is measured on the clock, from the time in
/// `scale_down_since`; the contract leaves open what the clock says.
pub fn decide_scale_action(
    current: i32,
    desired: i32,
    cooldown_secs: u64,
    scale_down_since: &mut Option<Instant>,
) -> (r: ScaleDecision)
    ensures
        surplus_follows(*old(scale_down_since), current, desired, *final(scale_down_since)),
        decision_since(current, desired, cooldown_secs, *final(scale_down_since), r),
{
    let elapsed: u64 = match track_surplus(current, desired, scale_down_since) {
        Some(started_at) => {
            let duration: Duration = started_at.elapsed();
            duration.as_secs()
        },
        None => 0,
    };
    assert(*scale_down_since matches Some(started_at) ==> can_have_passed(started_at, elapsed));
    decide_after(current, desired, cooldown_secs, elapsed)
}

/// What one polling cycle saw, and the time at which it looked.
pub struct Cycle {
    pub current: i32,
    pub desired: i32,
    pub now: Instant,
}

/// Since when there has been a surplus, after the given cycles.
pub open spec fn surplus_since_after(cycles: Seq<Cycle>) -> Option<Instant>
    decreases cycles.len(),
{
    if cycles.len() == 0 {
        None
    } else {
        let last = cycles.last();
        surplus_since(
            surplus_since_after(cycles.drop_last()),
            last.current,
            last.desired,
            last.now,
        )
    }
}

/// The cooldown runs exactly while there is a surplus, and it began in a cycle since which every
/// cycle saw one: any cycle without a surplus starts it anew.
pub proof fn cooldown_spans_unbroken_surplus(cycles: Seq<Cycle>)
    ensures
        surplus_since_after(cycles) is Some <==> (cycles.len() > 0 && cycles.last().desired
            < cycles.last().current),
        surplus_since_after(cycles) is Some ==> exists|first: int|
            #![trigger cycles[first]]
            {
                &&& 0 <= first < cycles.len()
                &&& surplus_since_after(cycles) == Some(cycles[first].now)
                &&& first > 0 ==> cycles[first - 1].desired >= cycles[first - 1].current
                &&& forall|j: int|
                    first <= j < cycles.len() ==> (#[trigger] cycles[j]).desired
                        < cycles[j].current
            },
    decreases cycles.len(),
{
    if cycles.len() > 0 && cycles.last().desired < cycles.last().current {
        let earlier = cycles.drop_last();
        cooldown_spans_unbroken_surplus(earlier);
        let n = cycles.len() as int;
        if surplus_since_after(earlier) is Some {
            let first = choose|first: int|
                #![trigger earlier[first]]
                {
                    &&& 0 <= first < earlier.len()
                    &&& surplus_since_after(earlier) == Some(earlier[first].now)
                    &&& first > 0 ==> earlier[first - 1].desired >= earlier[first - 1].current
                    &&& forall|j: int|
                        first <= j < earlier.len() ==> (#[trigger] earlier[j]).desired
                            < earlier[j].current
                };
            assert(cycles[first] == earlier[first]);
            assert(first > 0 ==> cycles[first - 1] == earlier[first - 1]);
            assert forall|j: int| first <= j < n implies (#[trigger] cycles[j]).desired
                < cycles[j].current by {
                if j < n - 1 {
                    assert(cycles[j] == earlier[j]);
                }
            }
        } else {
            assert(cycles[n - 1].now == cycles.last().now);
            if n > 1 {
                assert(cycles[n - 2] == earlier.last());
            }
        }
    }
}

/// A shortage of runners is answered at once, whatever the clock says. A surplus is answered
/// only when it has lasted for the cooldown, and until then the time that has passed and the time
/// that remains add up to the cooldown.
pub proof fn only_scaling_down_waits(
    current: i32,
    desired: i32,
    cooldown_secs: u64,
    elapsed: u64,
)
    ensures
        decision(current, desired, cooldown_secs, elapsed) is ScaleUp <==> desired > current,
        decision(current, desired, cooldown_secs, elapsed) is Noop <==> desired == current,
        decision(current, desired, cooldown_secs, elapsed) is ScaleDown <==> desired < current
            && elapsed >= cooldown_secs,
        decision(current, desired, cooldown_secs, elapsed) matches ScaleDecision::WaitCooldown {
            remaining,
        } ==> desired < current && remaining > 0 && elapsed + remaining == cooldown_secs,
{
}

/// While a surplus lasts the cooldown is measured from the same time, so with time a decision to
/// scale down stays, and the time that remains never grows. Two cycles follow each other here:
/// `before`, `since` and `after` say since when there has been a surplus, before the first, between
/// the two and after the second.
pub proof fn waiting_only_shortens(
    current: i32,
    desired: i32,
    later_current: i32,
    later_desired: i32,
    cooldown_secs: u64,
    before: Option<Instant>,
    since: Option<Instant>,
    after: Option<Instant>,
    elapsed: u64,
    later_elapsed: u64,
)
    requires
        desired < current,
        later_desired < later_current,
        surplus_follows(before, current, desired, since),
        surplus_follows(since, later_current, later_desired, after),
        elapsed <= later_elapsed,
    ensures
        since is Some && after == since,
        match (
            decision(current, desired, cooldown_secs, elapsed),
            decision(later_current, later_desired, cooldown_secs, later_elapsed),
        ) {
            (ScaleDecision::ScaleDown, later) => later == ScaleDecision::ScaleDown,
            (
                ScaleDecision::WaitCooldown { remaining },
                ScaleDecision::WaitCooldown { remaining: later_remaining },
            ) => later_remaining <= remaining,
            (ScaleDecision::WaitCooldown { .. }, later) => later == ScaleDecision::ScaleDown,
            _ => false,
        },
{
}

/// The distance of two numbers.
pub open spec fn distance(a: int, b: int) -> int {
    if a < b {
        b - a
    } else {
        a - b
    }
}

/// The wanted count is within the bounds, and no other count within them is nearer to what is
/// asked for.
pub proof fn wanted_count_is_the_nearest_within_bounds(n: int, min: int, max: int, other: int)
    requires
        min <= max,
        min <= other <= max,
    ensures
        min <= clamped(n, min, max) <= max,
        distance(n, clamped(n, min, max)) <= distance(n, other),
        distance(n, clamped(n, min, max)) == distance(n, other) ==> clamped(n, min, max) == other,
{
}

/// A cycle without a surplus forgets since when there was one. In a surplus the start is kept where
/// one is known, and is otherwise what `Instant::now` returned.
pub proof fn start_of_a_surplus_is_kept(
    before: Option<Instant>,
    current: i32,
    desired: i32,
    after: Option<Instant>,
)
    requires
        surplus_follows(before, current, desired, after),
    ensures
        desired >= current ==> after is None,
        desired < current && before is Some ==> after == before,
        desired < current && before is None ==> after is Some && call_ensures(
            Instant::now,
            (),
            after->0,
        ),
{
}

/// What a call can decide: the replica count against what is wanted settles it, but for a surplus.
/// There the whole seconds count that `Instant::elapsed` gives for the start of the surplus.
pub proof fn surplus_is_measured_from_its_start(
    current: i32,
    desired: i32,
    cooldown_secs: u64,
    since: Instant,
    decided: ScaleDecision,
)
    requires
        decision_since(current, desired, cooldown_secs, Some(since), decided),
    ensures
        desired > current ==> decided == ScaleDecision::ScaleUp,
        desired == current ==> decided == ScaleDecision::Noop,
        desired < current ==> exists|passed: Duration, secs: u64|
            {
                &&& #[trigger] call_ensures(Instant::elapsed, (&since,), passed)
                &&& #[trigger] call_ensures(Duration::as_secs, (&passed,), secs)
                &&& match decided {
                    ScaleDecision::ScaleDown => cooldown_secs <= secs,
                    ScaleDecision::WaitCooldown { remaining } => 0 < remaining && secs + remaining
                        == cooldown_secs,
                    _ => false,
                }
            },
{
}

/// Without a surplus the decision does not rest on any time.
pub proof fn no_surplus_needs_no_clock(
    current: i32,
    desired: i32,
    cooldown_secs: u64,
    decided: ScaleDecision,
)
    requires
        desired >= current,
        decision_since(current, desired, cooldown_secs, None, decided),
    ensures
        decided == if desired > current {
            ScaleDecision::ScaleUp
        } else {
            ScaleDecision::Noop
        },
{
}

} // verus!
