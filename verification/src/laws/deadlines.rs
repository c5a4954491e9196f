//! Laws on timeouts that a server moderates, and on streams that it bounds.
use std::time::Duration;
use vstd::prelude::*;

use crate::deadline::begun;
use crate::deadline::moderated;
use crate::deadline::no_policy;
use crate::deadline::stream_taken;
use crate::deadline::timers_taken;
use crate::deadline::BeginPoll;
use crate::deadline::DeadlinePolicy;
use crate::deadline::StreamDeadline;
use crate::deadline::StreamPoll;
use crate::error::plain_error;
use crate::error::ConnectError;
use crate::error::ErrorCode;
use crate::time::duration_nanos;

verus! {

/// A timeout within the bounds of a policy is left as the client asserted it.
pub proof fn law_timeout_within_bounds_is_kept(policy: DeadlinePolicy, asserted: Duration, effective: Duration)
    requires
        moderated(policy, asserted, effective),
        duration_nanos(asserted) >= duration_nanos(policy.min),
        policy.max matches Some(max) ==> duration_nanos(asserted) <= duration_nanos(max) && duration_nanos(policy.min)
            < duration_nanos(max),
    ensures
        effective == asserted,
{
}

/// The default is for clients that assert no timeout: what an asserted timeout
/// comes to depends on the floor and the ceiling alone.
pub proof fn law_default_is_for_unasserted_timeouts(
    policy: DeadlinePolicy,
    other: DeadlinePolicy,
    asserted: Duration,
    effective: Duration,
)
    requires
        moderated(policy, asserted, effective),
        other.min == policy.min,
        other.max == policy.max,
    ensures
        moderated(other, asserted, effective),
        forall|e: Duration| #[trigger] moderated(other, asserted, e) ==> e == effective,
{
}

/// A timeout under the floor is raised to the floor, and no further.
pub proof fn law_short_timeout_is_raised(policy: DeadlinePolicy, asserted: Duration, effective: Duration)
    requires
        moderated(policy, asserted, effective),
        duration_nanos(asserted) < duration_nanos(policy.min),
        policy.max matches Some(max) ==> duration_nanos(policy.min) < duration_nanos(max),
    ensures
        effective == policy.min,
{
}

/// A timeout over the ceiling is cut to the ceiling, and no further. So is
/// every timeout where the floor is not below the ceiling.
pub proof fn law_long_timeout_is_cut(
    policy: DeadlinePolicy,
    max: Duration,
    asserted: Duration,
    effective: Duration,
)
    requires
        moderated(policy, asserted, effective),
        policy.max == Some(max),
        duration_nanos(asserted) > duration_nanos(max) || duration_nanos(policy.min) >= duration_nanos(max),
    ensures
        effective == max,
{
}

/// Whoever asserts more time gets no less.
pub proof fn law_moderation_is_monotone(
    policy: DeadlinePolicy,
    less: Duration,
    more: Duration,
    for_less: Duration,
    for_more: Duration,
)
    requires
        moderated(policy, less, for_less),
        moderated(policy, more, for_more),
        duration_nanos(less) <= duration_nanos(more),
    ensures
        duration_nanos(for_less) <= duration_nanos(for_more),
{
}

/// The policy that changes nothing leaves every timeout as it was asserted,
/// has none for those who assert none, and bounds no stream.
pub proof fn law_no_policy_changes_nothing(
    policy: DeadlinePolicy,
    asserted: Duration,
    effective: Duration,
    remaining: Option<Duration>,
)
    requires
        no_policy(policy),
        moderated(policy, asserted, effective),
    ensures
        effective == asserted,
        policy.default is None,
        policy.stream_bound(remaining) is None,
        policy.inter_message_timeout is None,
{
}

/// The time left to a request bounds its response stream exactly where the
/// policy says that it does.
pub proof fn law_streams_are_bounded_on_demand(policy: DeadlinePolicy, remaining: Option<Duration>)
    ensures
        policy.enforce_on_streams ==> policy.stream_bound(remaining) == remaining,
        !policy.enforce_on_streams ==> policy.stream_bound(remaining) is None,
{
}

/// The timer for the gap between messages is armed by the first poll, and left
/// alone by the polls behind it.
pub proof fn law_gap_timer_is_armed_once(
    before: StreamDeadline,
    first: StreamDeadline,
    first_action: BeginPoll,
    second: StreamDeadline,
    second_action: BeginPoll,
)
    requires
        before.fresh(),
        begun(before, first, first_action),
        begun(first, second, second_action),
    ensures
        first_action == BeginPoll::Go(before.gap_timeout()),
        second_action == BeginPoll::Go(None),
        second.gap_timeout() == before.gap_timeout(),
        second.absolute_timeout() == before.absolute_timeout(),
        !second.is_finished(),
{
}

/// Every item gives the next one the whole gap anew. Waiting does not, and
/// neither does the end.
pub proof fn law_items_start_the_gap_anew(
    before: StreamDeadline,
    poll: StreamPoll,
    after: StreamDeadline,
    rearm: Option<Duration>,
)
    requires
        stream_taken(before, poll, after, rearm),
    ensures
        poll is Item ==> rearm == before.gap_timeout(),
        poll is Item && before.gap_timeout() is Some ==> after.gap_runs(),
        !(poll is Item) ==> after.gap_runs() == before.gap_runs(),
        before.gap_runs() ==> after.gap_runs(),
        poll is Pending ==> rearm is None && after.is_finished() == before.is_finished(),
        poll is End ==> rearm is None && after.is_finished(),
        after.gap_timeout() == before.gap_timeout(),
        after.absolute_timeout() == before.absolute_timeout(),
{
}

/// A lapsed timer gives an error that says which one it was, where both have
/// lapsed the deadline of the whole stream; and there is no other error.
pub proof fn law_lapsed_timer_is_named(
    before: StreamDeadline,
    absolute_lapsed: bool,
    gap_lapsed: bool,
    after: StreamDeadline,
    failure: Option<ConnectError>,
)
    requires
        timers_taken(before, absolute_lapsed, gap_lapsed, after, failure),
    ensures
        absolute_lapsed ==> failure is Some && failure->0@ == plain_error(
            ErrorCode::DeadlineExceeded,
            "request deadline exceeded while streaming"@,
        ),
        gap_lapsed && !absolute_lapsed ==> failure is Some && failure->0@ == plain_error(
            ErrorCode::DeadlineExceeded,
            "stream stalled past inter-message timeout"@,
        ),
        !absolute_lapsed && !gap_lapsed ==> failure is None && after.is_finished() == before.is_finished(),
        after.gap_runs() == before.gap_runs(),
        after.gap_timeout() == before.gap_timeout(),
        after.absolute_timeout() == before.absolute_timeout(),
{
}

/// A stream that is over stays over, whatever is polled.
pub proof fn law_finished_stream_stays_finished(
    before: StreamDeadline,
    begin: StreamDeadline,
    action: BeginPoll,
    absolute_lapsed: bool,
    gap_lapsed: bool,
    timed: StreamDeadline,
    failure: Option<ConnectError>,
    poll: StreamPoll,
    after: StreamDeadline,
    rearm: Option<Duration>,
)
    requires
        before.is_finished(),
        begun(before, begin, action),
        timers_taken(begin, absolute_lapsed, gap_lapsed, timed, failure),
        stream_taken(timed, poll, after, rearm),
    ensures
        action is Finished,
        begin.is_finished(),
        timed.is_finished(),
        after.is_finished(),
{
}

} // verus!
