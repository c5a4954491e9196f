//! Server-side moderation and enforcement of deadlines.
use std::time::Duration;
use vstd::prelude::*;

use crate::error::plain_error;
use crate::error::ConnectError;
use crate::error::ErrorCode;
use crate::time::duration_nanos;

verus! {

/// Policy for the timeouts that clients assert.
///
/// A timeout is held between a floor and a ceiling, and a client that asserts
/// none may be given one.
#[derive(Debug, Clone, Copy)]
#[non_exhaustive]
pub struct DeadlinePolicy {
    /// The shortest timeout.
    pub min: Duration,
    /// The longest timeout, if there is one.
    pub max: Option<Duration>,
    /// The timeout of a client that asserts none.
    pub default: Option<Duration>,
    /// Whether the deadline of a request bounds its response stream.
    pub enforce_on_streams: bool,
    /// The longest time between two messages of a response stream.
    pub inter_message_timeout: Option<Duration>,
}

/// The timeout in effect for one that a client asserts: no shorter than the
/// floor and no longer than the ceiling, which wins where they contradict.
pub open spec fn moderated(policy: DeadlinePolicy, asserted: Duration, effective: Duration) -> bool {
    let (floor, wanted) = (duration_nanos(policy.min), duration_nanos(asserted));
    match policy.max {
        Some(max) => if floor >= duration_nanos(max) || wanted > duration_nanos(max) {
            effective == max
        } else if wanted < floor {
            effective == policy.min
        } else {
            effective == asserted
        },
        None => if wanted < floor {
            effective == policy.min
        } else {
            effective == asserted
        },
    }
}

/// The policy that changes nothing.
pub open spec fn no_policy(policy: DeadlinePolicy) -> bool {
    &&& duration_nanos(policy.min) == 0
    &&& policy.max is None
    &&& policy.default is None
    &&& !policy.enforce_on_streams
    &&& policy.inter_message_timeout is None
}

impl Default for DeadlinePolicy {
    /// The policy that changes nothing.
    fn default() -> (policy: Self)
        ensures
            no_policy(policy),
    {
        DeadlinePolicy::new()
    }
}

impl DeadlinePolicy {
    /// The policy that changes nothing.
    pub fn new() -> (policy: Self)
        ensures
            no_policy(policy),
    {
        DeadlinePolicy {
            min: Duration::from_nanos(0),
            max: None,
            default: None,
            enforce_on_streams: false,
            inter_message_timeout: None,
        }
    }

    /// Set the shortest timeout.
    pub fn with_min(self, min: Duration) -> (policy: Self)
        ensures
            policy == (DeadlinePolicy { min, ..self }),
    {
        DeadlinePolicy { min, ..self }
    }

    /// Set the longest timeout.
    pub fn with_max(self, max: Duration) -> (policy: Self)
        ensures
            policy == (DeadlinePolicy { max: Some(max), ..self }),
    {
        DeadlinePolicy { max: Some(max), ..self }
    }

    /// Set the timeout of a client that asserts none.
    pub fn with_default_timeout(self, default: Duration) -> (policy: Self)
        ensures
            policy == (DeadlinePolicy { default: Some(default), ..self }),
    {
        DeadlinePolicy { default: Some(default), ..self }
    }

    /// Set whether the deadline of a request bounds its response stream.
    pub fn with_enforce_on_streams(self, enforce: bool) -> (policy: Self)
        ensures
            policy == (DeadlinePolicy { enforce_on_streams: enforce, ..self }),
    {
        DeadlinePolicy { enforce_on_streams: enforce, ..self }
    }

    /// Set the longest time between two messages of a response stream.
    pub fn with_inter_message_timeout(self, timeout: Duration) -> (policy: Self)
        ensures
            policy == (DeadlinePolicy { inter_message_timeout: Some(timeout), ..self }),
    {
        DeadlinePolicy { inter_message_timeout: Some(timeout), ..self }
    }

    /// The shortest timeout.
    pub fn min(&self) -> (min: Duration)
        ensures
            min == self.min,
    {
        self.min
    }

    /// The longest timeout.
    pub fn max(&self) -> (max: Option<Duration>)
        ensures
            max == self.max,
    {
        self.max
    }

    /// The timeout of a client that asserts none.
    pub fn default_timeout(&self) -> (default: Option<Duration>)
        ensures
            default == self.default,
    {
        self.default
    }

    /// Whether the deadline of a request bounds its response stream.
    pub fn enforce_on_streams(&self) -> (enforce: bool)
        ensures
            enforce == self.enforce_on_streams,
    {
        self.enforce_on_streams
    }

    /// The longest time between two messages of a response stream.
    pub fn inter_message_timeout(&self) -> (timeout: Option<Duration>)
        ensures
            timeout == self.inter_message_timeout,
    {
        self.inter_message_timeout
    }

    /// The timeout in effect for what a client asserted for a call of `_path`.
    pub fn moderate(&self, client: Option<Duration>, _path: &str) -> (effective: Option<Duration>)
        ensures
            match client {
                Some(asserted) => effective matches Some(e) && moderated(*self, asserted, e),
                None => effective == self.default,
            },
    {
        let asserted = match client {
            Some(asserted) => asserted,
            None => return self.default,
        };
        if let Some(max) = self.max {
            if self.min.as_nanos() >= max.as_nanos() || asserted.as_nanos() > max.as_nanos() {
                return Some(max);
            }
        }
        if asserted.as_nanos() < self.min.as_nanos() {
            Some(self.min)
        } else {
            Some(asserted)
        }
    }

    /// The bounds on a response stream whose request has the given time left,
    /// or `None` where the stream is to be left as it is.
    pub fn enforce_on_response_stream(&self, remaining: Option<Duration>) -> (bounds: Option<StreamDeadline>)
        ensures
            match bounds {
                Some(b) => b.fresh() && b.absolute_timeout() == self.stream_bound(remaining) && b.gap_timeout()
                    == self.inter_message_timeout && (self.stream_bound(remaining) is Some
                    || self.inter_message_timeout is Some),
                None => self.stream_bound(remaining) is None && self.inter_message_timeout is None,
            },
    {
        let absolute = if self.enforce_on_streams {
            remaining
        } else {
            None
        };
        if absolute.is_none() && self.inter_message_timeout.is_none() {
            return None;
        }
        Some(StreamDeadline::new(absolute, self.inter_message_timeout))
    }

    /// The time that bounds a whole response stream.
    pub open spec fn stream_bound(&self, remaining: Option<Duration>) -> Option<Duration> {
        if self.enforce_on_streams {
            remaining
        } else {
            None
        }
    }
}

/// Moderation keeps to the ceiling, and to the floor where that is no higher.
pub proof fn lemma_moderated_within_bounds(policy: DeadlinePolicy, asserted: Duration, effective: Duration)
    requires
        moderated(policy, asserted, effective),
    ensures
        policy.max matches Some(max) ==> duration_nanos(effective) <= duration_nanos(max),
        (policy.max matches Some(max) ==> duration_nanos(policy.min) <= duration_nanos(max)) ==> duration_nanos(
            effective,
        ) >= duration_nanos(policy.min),
{
}

/// Moderating what was moderated changes nothing more.
pub proof fn lemma_moderation_settles(policy: DeadlinePolicy, asserted: Duration, once: Duration, twice: Duration)
    requires
        moderated(policy, asserted, once),
        moderated(policy, once, twice),
    ensures
        duration_nanos(twice) == duration_nanos(once),
{
}

// ---------------------------------------------------------------------------
// Response streams
// ---------------------------------------------------------------------------

/// The bounds on a response stream, and how far it has come.
///
/// The stream's driver owns the timers and the stream itself. On each poll it
/// calls [`begin`](Self::begin), then reports the timers to
/// [`timers_polled`](Self::timers_polled), and then the stream to
/// [`stream_polled`](Self::stream_polled).
pub struct StreamDeadline {
    absolute: Option<Duration>,
    gap: Option<Duration>,
    gap_armed: bool,
    finished: bool,
}

/// What a poll begins with.
pub enum BeginPoll {
    /// The stream is over.
    Finished,
    /// Go on, after arming the timer for the gap between messages where a
    /// duration is given.
    Go(Option<Duration>),
}

/// What polling the stream itself gave.
#[derive(Clone, Copy, PartialEq, Eq, Structural)]
pub enum StreamPoll {
    /// An item.
    Item,
    /// The end.
    End,
    /// Nothing yet.
    Pending,
}

/// How a poll begins: a stream that is over stays over, and the first poll of
/// any other starts the timer for the gap between messages.
pub open spec fn begun(before: StreamDeadline, after: StreamDeadline, action: BeginPoll) -> bool {
    &&& after.same_bounds(&before)
    &&& after.is_finished() == before.is_finished()
    &&& before.is_finished() ==> action is Finished && after.gap_runs() == before.gap_runs()
    &&& !before.is_finished() ==> after.gap_runs() == (before.gap_runs() || before.gap_timeout() is Some)
    &&& !before.is_finished() ==> action == BeginPoll::Go(
        if before.gap_runs() {
            None
        } else {
            before.gap_timeout()
        },
    )
}

/// What the timers come to: an error that ends the stream where one has lapsed,
/// and only there. The deadline of the whole stream comes first.
pub open spec fn timers_taken(
    before: StreamDeadline,
    absolute_lapsed: bool,
    gap_lapsed: bool,
    after: StreamDeadline,
    failure: Option<ConnectError>,
) -> bool {
    &&& after.same_bounds(&before)
    &&& after.gap_runs() == before.gap_runs()
    &&& after.is_finished() == (before.is_finished() || absolute_lapsed || gap_lapsed)
    &&& failure is Some <==> (absolute_lapsed || gap_lapsed)
    &&& failure matches Some(e) ==> e@ == plain_error(
        ErrorCode::DeadlineExceeded,
        if absolute_lapsed {
            "request deadline exceeded while streaming"@
        } else {
            "stream stalled past inter-message timeout"@
        },
    )
}

/// What polling the stream comes to: an item starts the timer for the next gap
/// anew, and the end ends the stream.
pub open spec fn stream_taken(
    before: StreamDeadline,
    poll: StreamPoll,
    after: StreamDeadline,
    rearm: Option<Duration>,
) -> bool {
    &&& after.same_bounds(&before)
    &&& rearm == if poll is Item {
        before.gap_timeout()
    } else {
        None
    }
    &&& after.gap_runs() == (before.gap_runs() || rearm is Some)
    &&& after.is_finished() == (before.is_finished() || poll is End)
}

/// Once a timer has lapsed there is a single error, and the stream is over in
/// every later poll.
pub proof fn lemma_lapsed_stream_is_over(
    before: StreamDeadline,
    absolute_lapsed: bool,
    gap_lapsed: bool,
    lapsed: StreamDeadline,
    failure: Option<ConnectError>,
    after: StreamDeadline,
    action: BeginPoll,
)
    requires
        absolute_lapsed || gap_lapsed,
        timers_taken(before, absolute_lapsed, gap_lapsed, lapsed, failure),
        begun(lapsed, after, action),
    ensures
        failure matches Some(e) && e@.code == ErrorCode::DeadlineExceeded,
        action is Finished,
        after.is_finished(),
{
}

/// A stream whose timers have not lapsed is left to itself: there is no error,
/// and it is over only once it has ended.
pub proof fn lemma_timely_stream_goes_on(
    before: StreamDeadline,
    start: StreamDeadline,
    action: BeginPoll,
    timed: StreamDeadline,
    failure: Option<ConnectError>,
    poll: StreamPoll,
    after: StreamDeadline,
    rearm: Option<Duration>,
)
    requires
        !before.is_finished(),
        begun(before, start, action),
        timers_taken(start, false, false, timed, failure),
        stream_taken(timed, poll, after, rearm),
    ensures
        action is Go,
        failure is None,
        after.is_finished() <==> poll is End,
{
}

impl StreamDeadline {
    /// The time that bounds the whole stream, counted from the start.
    pub closed spec fn absolute_timeout(&self) -> Option<Duration> {
        self.absolute
    }

    /// The time that bounds the gap between two messages.
    pub closed spec fn gap_timeout(&self) -> Option<Duration> {
        self.gap
    }

    /// Whether the timer for the gap between messages runs.
    pub closed spec fn gap_runs(&self) -> bool {
        self.gap_armed
    }

    /// Whether the stream is over.
    pub closed spec fn is_finished(&self) -> bool {
        self.finished
    }

    /// Nothing was polled yet.
    pub open spec fn fresh(&self) -> bool {
        !self.is_finished() && !self.gap_runs()
    }

    /// What a poll leaves as it is.
    pub open spec fn same_bounds(&self, other: &Self) -> bool {
        self.absolute_timeout() == other.absolute_timeout() && self.gap_timeout() == other.gap_timeout()
    }

    /// Bounds on a stream that was not polled yet. The timer for the gap
    /// between messages is not started: there is no prior message yet.
    pub fn new(absolute: Option<Duration>, inter_message: Option<Duration>) -> (bounds: Self)
        ensures
            bounds.fresh(),
            bounds.absolute_timeout() == absolute,
            bounds.gap_timeout() == inter_message,
    {
        StreamDeadline { absolute, gap: inter_message, gap_armed: false, finished: false }
    }

    /// The time that bounds the whole stream.
    pub fn absolute(&self) -> (timeout: Option<Duration>)
        ensures
            timeout == self.absolute_timeout(),
    {
        self.absolute
    }

    /// Begin a poll. A stream that is over stays over; the first poll starts
    /// the timer for the gap between messages.
    pub fn begin(&mut self) -> (action: BeginPoll)
        ensures
            begun(*old(self), *final(self), action),
    {
        if self.finished {
            return BeginPoll::Finished;
        }
        if self.gap_armed {
            return BeginPoll::Go(None);
        }
        if self.gap.is_some() {
            self.gap_armed = true;
        }
        BeginPoll::Go(self.gap)
    }

    /// Take in whether the timers have lapsed. The deadline of the whole
    /// stream comes first: once it lapses, the request is over whatever
    /// progress there is between messages. An error ends the stream.
    pub fn timers_polled(&mut self, absolute_lapsed: bool, gap_lapsed: bool) -> (failure: Option<ConnectError>)
        ensures
            timers_taken(*old(self), absolute_lapsed, gap_lapsed, *final(self), failure),
    {
        if absolute_lapsed {
            self.finished = true;
            return Some(ConnectError::deadline_exceeded("request deadline exceeded while streaming"));
        }
        if gap_lapsed {
            self.finished = true;
            return Some(ConnectError::deadline_exceeded("stream stalled past inter-message timeout"));
        }
        None
    }

    /// Take in what polling the stream gave. An item starts the timer for the
    /// next gap anew, for the duration that is returned; the end ends the
    /// stream.
    pub fn stream_polled(&mut self, poll: StreamPoll) -> (rearm: Option<Duration>)
        ensures
            stream_taken(*old(self), poll, *final(self), rearm),
    {
        match poll {
            StreamPoll::Item => {
                if self.gap.is_some() {
                    self.gap_armed = true;
                }
                self.gap
            },
            StreamPoll::End => {
                self.finished = true;
                None
            },
            StreamPoll::Pending => None,
        }
    }
}

} // verus!
