//! Timeouts as they are sent.
use std::time::Duration;
use std::time::Instant;
use vstd::prelude::*;

use crate::protocol::Protocol;
use crate::text::decimal;
use crate::text::decimal_text;
use crate::time::duration_nanos;
use crate::time::instant_nanos;
use crate::time::representable;

verus! {

/// The longest Connect timeout: ten digits of milliseconds.
pub const CONNECT_TIMEOUT_MAX_MILLIS: u64 = 9_999_999_999;

/// The longest gRPC timeout: eight digits of seconds. No unit has more digits.
pub const GRPC_TIMEOUT_MAX_SECONDS: u64 = 99_999_999;

/// A timeout as it is sent, with the duration that it stands for.
#[derive(Debug, Clone, Copy)]
pub enum EncodedTimeout {
    /// For the Connect protocol.
    Connect {
        /// In milliseconds.
        millis: u64,
    },
    /// For gRPC and gRPC-Web.
    Grpc {
        /// In the unit.
        value: u64,
        /// `n`, `u`, `m` or `S`.
        unit: char,
        /// What value and unit stand for.
        duration: Duration,
    },
}

/// The nanoseconds of a gRPC unit.
pub open spec fn unit_nanos(unit: char) -> nat {
    if unit == 'S' {
        1_000_000_000
    } else if unit == 'm' {
        1_000_000
    } else if unit == 'u' {
        1_000
    } else {
        1
    }
}

/// The unit for a gRPC timeout: the coarsest that loses nothing and keeps to
/// eight digits, or else the finest that keeps to eight digits, or else
/// seconds.
pub open spec fn grpc_unit(nanos: nat) -> char {
    let max = GRPC_TIMEOUT_MAX_SECONDS as nat;
    if nanos == 0 {
        'n'
    } else if nanos % 1_000_000_000 == 0 && nanos / 1_000_000_000 <= max {
        'S'
    } else if nanos % 1_000_000 == 0 && nanos / 1_000_000 <= max {
        'm'
    } else if nanos % 1_000 == 0 && nanos / 1_000 <= max {
        'u'
    } else if nanos <= max {
        'n'
    } else if nanos / 1_000 <= max {
        'u'
    } else if nanos / 1_000_000 <= max {
        'm'
    } else {
        'S'
    }
}

/// A number, but not above a bound.
pub open spec fn capped(n: nat, bound: nat) -> nat {
    if n < bound {
        n
    } else {
        bound
    }
}

/// The value for a gRPC timeout in its unit.
pub open spec fn grpc_value(nanos: nat) -> nat {
    capped(nanos / unit_nanos(grpc_unit(nanos)), GRPC_TIMEOUT_MAX_SECONDS as nat)
}

/// The value for a Connect timeout.
pub open spec fn connect_millis(nanos: nat) -> nat {
    capped(nanos / 1_000_000, CONNECT_TIMEOUT_MAX_MILLIS as nat)
}

/// A timeout of the given length as it is sent.
pub open spec fn encodes(nanos: nat, protocol: Protocol, encoded: EncodedTimeout) -> bool {
    match protocol {
        Protocol::Connect => encoded == (EncodedTimeout::Connect { millis: connect_millis(nanos) as u64 }),
        _ => encoded matches EncodedTimeout::Grpc { value, unit, duration } && value == grpc_value(nanos) && unit
            == grpc_unit(nanos) && duration_nanos(duration) == value * unit_nanos(unit),
    }
}

/// The duration that a sent timeout stands for, in nanoseconds.
pub open spec fn wire_nanos(nanos: nat, protocol: Protocol) -> nat {
    match protocol {
        Protocol::Connect => connect_millis(nanos) * 1_000_000,
        _ => grpc_value(nanos) * unit_nanos(grpc_unit(nanos)),
    }
}

/// The text of a timeout as it is sent.
pub open spec fn timeout_text(nanos: nat, protocol: Protocol) -> Seq<char> {
    match protocol {
        Protocol::Connect => decimal(connect_millis(nanos)),
        _ => decimal(grpc_value(nanos)).push(grpc_unit(nanos)),
    }
}

/// What is sent never allows more time than was asked for, keeps to the digits
/// of the protocol, and in gRPC never turns some time into none.
pub proof fn lemma_wire_timeout_is_no_longer(nanos: nat, protocol: Protocol)
    ensures
        wire_nanos(nanos, protocol) <= nanos,
        connect_millis(nanos) <= 9_999_999_999,
        grpc_value(nanos) <= 99_999_999,
        nanos > 0 && !(protocol is Connect) ==> wire_nanos(nanos, protocol) > 0,
{
    let unit = unit_nanos(grpc_unit(nanos));
    assert(nanos / unit * unit <= nanos) by (nonlinear_arith)
        requires
            unit > 0,
            nanos >= 0,
    ;
    let value = grpc_value(nanos);
    assert(value * unit <= nanos / unit * unit) by (nonlinear_arith)
        requires
            0 <= value <= nanos / unit,
            unit > 0,
    ;
    if nanos > 0 && !(protocol is Connect) {
        assert(value > 0);
        assert(value * unit > 0) by (nonlinear_arith)
            requires
                value > 0,
                unit > 0,
        ;
    }
}

/// A timeout that is within the digits of its unit is sent without loss.
pub proof fn lemma_wire_timeout_is_exact(nanos: nat)
    requires
        nanos <= 99_999_999 || (nanos % 1_000 == 0 && nanos / 1_000 <= 99_999_999) || (nanos % 1_000_000 == 0
            && nanos / 1_000_000 <= 99_999_999) || (nanos % 1_000_000_000 == 0 && nanos / 1_000_000_000
            <= 99_999_999),
    ensures
        wire_nanos(nanos, Protocol::Grpc) == nanos,
{
    let unit = grpc_unit(nanos);
    if unit == 'S' {
        assert(grpc_value(nanos) * 1_000_000_000 == nanos);
    } else if unit == 'm' {
        assert(grpc_value(nanos) * 1_000_000 == nanos);
    } else if unit == 'u' {
        assert(grpc_value(nanos) * 1_000 == nanos);
    } else {
        assert(grpc_value(nanos) * 1 == nanos);
    }
}

impl EncodedTimeout {
    /// The duration that this timeout stands for.
    pub fn duration(self) -> (duration: Duration)
        ensures
            match self {
                EncodedTimeout::Connect { millis } => duration_nanos(duration) == millis * 1_000_000,
                EncodedTimeout::Grpc { duration: d, .. } => duration == d,
            },
    {
        match self {
            EncodedTimeout::Connect { millis } => Duration::from_millis(millis),
            EncodedTimeout::Grpc { duration, .. } => duration,
        }
    }

    /// The text that is sent.
    pub fn header_value(self) -> (text: String)
        ensures
            match self {
                EncodedTimeout::Connect { millis } => text@ == decimal(millis as nat),
                EncodedTimeout::Grpc { value, unit, .. } => text@ == decimal(value as nat).push(unit),
            },
    {
        match self {
            EncodedTimeout::Connect { millis } => decimal_text(millis),
            EncodedTimeout::Grpc { value, unit, .. } => {
                let mut text = decimal_text(value);
                text.push(unit);
                text
            },
        }
    }
}

/// A gRPC timeout of the given value and unit.
fn grpc_encoded_timeout(value: u128, unit: char, duration: Duration) -> (encoded: EncodedTimeout)
    requires
        value <= u64::MAX,
    ensures
        encoded == (EncodedTimeout::Grpc { value: value as u64, unit, duration }),
{
    EncodedTimeout::Grpc { value: value as u64, unit, duration }
}

/// Encode a timeout for the wire and retain the exact duration that encoding
/// represents so local deadline enforcement matches the transmitted budget.
pub fn encoded_timeout(timeout: Duration, protocol: Protocol) -> (encoded: EncodedTimeout)
    ensures
        encodes(duration_nanos(timeout), protocol, encoded),
{
    let nanos: u128 = timeout.as_nanos();
    let micros: u128 = nanos / 1_000;
    let millis: u128 = nanos / 1_000_000;
    let secs: u128 = nanos / 1_000_000_000;
    let max: u128 = GRPC_TIMEOUT_MAX_SECONDS as u128;
    match protocol {
        Protocol::Connect => EncodedTimeout::Connect {
            millis: if millis < CONNECT_TIMEOUT_MAX_MILLIS as u128 {
                millis as u64
            } else {
                CONNECT_TIMEOUT_MAX_MILLIS
            },
        },
        _ => if nanos == 0 {
            grpc_encoded_timeout(0, 'n', Duration::from_nanos(0))
        } else if nanos % 1_000_000_000 == 0 && secs <= max {
            grpc_encoded_timeout(secs, 'S', Duration::from_secs(secs as u64))
        } else if nanos % 1_000_000 == 0 && millis <= max {
            grpc_encoded_timeout(millis, 'm', Duration::from_millis(millis as u64))
        } else if nanos % 1_000 == 0 && micros <= max {
            grpc_encoded_timeout(micros, 'u', Duration::from_micros(micros as u64))
        } else if nanos <= max {
            grpc_encoded_timeout(nanos, 'n', Duration::from_nanos(nanos as u64))
        } else if micros <= max {
            grpc_encoded_timeout(micros, 'u', Duration::from_micros(micros as u64))
        } else if millis <= max {
            grpc_encoded_timeout(millis, 'm', Duration::from_millis(millis as u64))
        } else if secs <= max {
            grpc_encoded_timeout(secs, 'S', Duration::from_secs(secs as u64))
        } else {
            grpc_encoded_timeout(max, 'S', Duration::from_secs(GRPC_TIMEOUT_MAX_SECONDS))
        },
    }
}

/// Format a timeout value for the protocol's timeout header.
pub fn format_timeout(timeout: Duration, protocol: Protocol) -> (text: String)
    ensures
        text@ == timeout_text(duration_nanos(timeout), protocol),
{
    encoded_timeout(timeout, protocol).header_value()
}

/// The deadline of a call that starts at `start`: the point of time that lies
/// the timeout, as it is sent, behind it. There is none without a timeout, nor
/// where that point cannot be represented.
pub open spec fn deadline_from(
    start: Instant,
    timeout: Option<Duration>,
    protocol: Protocol,
    deadline: Option<Instant>,
) -> bool {
    match timeout {
        Some(t) => {
            let at = instant_nanos(start) + wire_nanos(duration_nanos(t), protocol);
            match deadline {
                Some(d) => instant_nanos(d) == at,
                None => !representable(at),
            }
        },
        None => deadline is None,
    }
}

/// The deadline of a call that starts at `start`, by the timeout as it is
/// sent.
pub fn deadline_after(start: Instant, timeout: Option<Duration>, protocol: Protocol) -> (deadline: Option<Instant>)
    ensures
        deadline_from(start, timeout, protocol, deadline),
{
    match timeout {
        Some(t) => {
            let sent = encoded_timeout(t, protocol).duration();
            start.checked_add(sent)
        },
        None => None,
    }
}

/// The deadline of a call that starts now. Nothing is said of what time it is.
pub fn client_deadline(timeout: Option<Duration>, protocol: Protocol) -> (deadline: Option<Instant>)
    ensures
        exists|now: Instant| #[trigger] deadline_from(now, timeout, protocol, deadline),
{
    deadline_after(Instant::now(), timeout, protocol)
}

} // verus!
