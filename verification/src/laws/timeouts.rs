//! Laws on timeouts as they are sent.
use std::time::Duration;
use std::time::Instant;
use vstd::prelude::*;

use crate::client::timeout::connect_millis;
use crate::client::timeout::deadline_from;
use crate::client::timeout::encodes;
use crate::client::timeout::grpc_unit;
use crate::client::timeout::grpc_value;
use crate::client::timeout::lemma_wire_timeout_is_no_longer;
use crate::client::timeout::timeout_text;
use crate::client::timeout::unit_nanos;
use crate::client::timeout::wire_nanos;
use crate::client::timeout::EncodedTimeout;
use crate::laws::texts::law_numeral_length;
use crate::laws::texts::law_numeral_reads_back;
use crate::laws::texts::power_of_ten;
use crate::protocol::Protocol;
use crate::text::decimal;
use crate::text::digits_value;
use crate::time::duration_nanos;
use crate::time::finite_duration;
use crate::time::instant_nanos;
use crate::time::representable;

verus! {

/// The units of gRPC: nanoseconds, microseconds, milliseconds and seconds.
pub open spec fn nanos_of(unit: char) -> nat {
    if unit == 'n' {
        1
    } else if unit == 'u' {
        1_000
    } else if unit == 'm' {
        1_000_000
    } else {
        1_000_000_000
    }
}

/// Whether a character is a unit of gRPC.
pub open spec fn is_unit(unit: char) -> bool {
    unit == 'n' || unit == 'u' || unit == 'm' || unit == 'S'
}

/// Ten digits hold what a Connect timeout may be, and eight what one of gRPC may
/// be.
proof fn lemma_powers()
    ensures
        power_of_ten(10) == 10_000_000_000,
        power_of_ten(8) == 100_000_000,
{
    reveal_with_fuel(power_of_ten, 12);
}

/// A Connect timeout is sent as whole milliseconds, in at most ten digits. It
/// loses less than a millisecond unless it is too long for them, and then it is
/// the longest that they hold.
pub proof fn law_connect_timeout_is_milliseconds(nanos: nat)
    ensures
        digits_value(timeout_text(nanos, Protocol::Connect)) == Some(
            (if nanos / 1_000_000 <= 9_999_999_999 {
                nanos / 1_000_000
            } else {
                9_999_999_999
            }) as nat,
        ),
        timeout_text(nanos, Protocol::Connect).len() <= 10,
        wire_nanos(nanos, Protocol::Connect) <= nanos,
        nanos < 10_000_000_000_000_000 ==> nanos < wire_nanos(nanos, Protocol::Connect) + 1_000_000,
        nanos >= 10_000_000_000_000_000 ==> wire_nanos(nanos, Protocol::Connect) == 9_999_999_999_000_000,
{
    lemma_powers();
    law_numeral_reads_back(connect_millis(nanos));
    law_numeral_length(connect_millis(nanos), 10);
}

/// A gRPC timeout is sent as a numeral of at most eight digits and a unit, and
/// stands for the product of both.
pub proof fn law_grpc_timeout_is_value_and_unit(nanos: nat, protocol: Protocol)
    requires
        !(protocol is Connect),
    ensures
        1 < timeout_text(nanos, protocol).len() <= 9,
        is_unit(timeout_text(nanos, protocol).last()),
        digits_value(timeout_text(nanos, protocol).drop_last()) matches Some(value) && value * nanos_of(
            timeout_text(nanos, protocol).last(),
        ) == wire_nanos(nanos, protocol),
        timeout_text(0, protocol) == "0n"@,
{
    lemma_powers();
    let value = grpc_value(nanos);
    law_numeral_reads_back(value);
    law_numeral_length(value, 8);
    assert(timeout_text(nanos, protocol).drop_last() =~= decimal(value));
    reveal_strlit("0n");
    assert(grpc_value(0) == 0);
    assert(timeout_text(0, protocol) =~= "0n"@);
}

/// A gRPC timeout is sent as exactly as eight digits allow: no unit in which it
/// keeps to them would lose less. One that is too long even in seconds is sent
/// as the longest.
pub proof fn law_grpc_timeout_is_as_exact_as_it_can_be(nanos: nat, protocol: Protocol, unit: char)
    requires
        !(protocol is Connect),
        is_unit(unit),
    ensures
        nanos / nanos_of(unit) <= 99_999_999 ==> wire_nanos(nanos, protocol) >= nanos / nanos_of(unit) * nanos_of(unit),
        wire_nanos(nanos, protocol) <= nanos,
        nanos >= 100_000_000_000_000_000 ==> wire_nanos(nanos, protocol) == 99_999_999_000_000_000,
        nanos > 0 ==> wire_nanos(nanos, protocol) > 0,
{
    lemma_wire_timeout_is_no_longer(nanos, protocol);
    let u = grpc_unit(nanos);
    let sent = grpc_value(nanos) * unit_nanos(u);
    assert(nanos / 1 * 1 == nanos);
    if u == 'S' {
        assert(sent == grpc_value(nanos) * 1_000_000_000);
    } else if u == 'm' {
        assert(sent == grpc_value(nanos) * 1_000_000);
    } else if u == 'u' {
        assert(sent == grpc_value(nanos) * 1_000);
    } else {
        assert(sent == grpc_value(nanos) * 1);
    }
    if unit == 'n' {
        assert(nanos / nanos_of(unit) * nanos_of(unit) == nanos);
    } else if unit == 'u' {
        assert(nanos / nanos_of(unit) * nanos_of(unit) == nanos / 1_000 * 1_000);
    } else if unit == 'm' {
        assert(nanos / nanos_of(unit) * nanos_of(unit) == nanos / 1_000_000 * 1_000_000);
    } else {
        assert(nanos / nanos_of(unit) * nanos_of(unit) == nanos / 1_000_000_000 * 1_000_000_000);
    }
}

/// Of the units that lose nothing and keep to eight digits, the coarsest is
/// taken.
pub proof fn law_coarsest_exact_unit_is_taken(nanos: nat, unit: char)
    requires
        nanos > 0,
        is_unit(unit),
        nanos % nanos_of(unit) == 0,
        nanos / nanos_of(unit) <= 99_999_999,
    ensures
        nanos_of(grpc_unit(nanos)) >= nanos_of(unit),
        wire_nanos(nanos, Protocol::Grpc) == nanos,
        wire_nanos(nanos, Protocol::GrpcWeb) == nanos,
{
    law_grpc_timeout_is_as_exact_as_it_can_be(nanos, Protocol::Grpc, unit);
    law_grpc_timeout_is_as_exact_as_it_can_be(nanos, Protocol::GrpcWeb, unit);
    if unit == 'n' {
        assert(nanos / 1 * 1 == nanos);
    } else if unit == 'u' {
        assert(nanos / nanos_of(unit) * nanos_of(unit) == nanos / 1_000 * 1_000);
    } else if unit == 'm' {
        assert(nanos / nanos_of(unit) * nanos_of(unit) == nanos / 1_000_000 * 1_000_000);
    } else {
        assert(nanos / nanos_of(unit) * nanos_of(unit) == nanos / 1_000_000_000 * 1_000_000_000);
    }
}

/// Whoever asks for more time is granted no less.
pub proof fn law_longer_timeouts_are_no_shorter_on_the_wire(less: nat, more: nat, protocol: Protocol)
    requires
        less <= more,
    ensures
        wire_nanos(less, protocol) <= wire_nanos(more, protocol),
{
    if !(protocol is Connect) {
        lemma_sent_in_grpc(less, protocol);
        lemma_sent_in_grpc(more, protocol);
    }
}

/// A gRPC timeout is cut to the finest unit in which it keeps to eight digits.
proof fn lemma_sent_in_grpc(nanos: nat, protocol: Protocol)
    requires
        !(protocol is Connect),
    ensures
        nanos <= 99_999_999 ==> wire_nanos(nanos, protocol) == nanos,
        nanos > 99_999_999 && nanos / 1_000 <= 99_999_999 ==> wire_nanos(nanos, protocol) == nanos / 1_000 * 1_000,
        nanos / 1_000 > 99_999_999 && nanos / 1_000_000 <= 99_999_999 ==> wire_nanos(nanos, protocol) == nanos
            / 1_000_000 * 1_000_000,
        nanos / 1_000_000 > 99_999_999 && nanos / 1_000_000_000 <= 99_999_999 ==> wire_nanos(nanos, protocol) == nanos
            / 1_000_000_000 * 1_000_000_000,
        nanos / 1_000_000_000 > 99_999_999 ==> wire_nanos(nanos, protocol) == 99_999_999_000_000_000,
{
    let u = grpc_unit(nanos);
    let sent = grpc_value(nanos) * unit_nanos(u);
    if u == 'S' {
        assert(sent == grpc_value(nanos) * 1_000_000_000);
    } else if u == 'm' {
        assert(sent == grpc_value(nanos) * 1_000_000);
    } else if u == 'u' {
        assert(sent == grpc_value(nanos) * 1_000);
    } else {
        assert(nanos / 1 == nanos);
        assert(sent == grpc_value(nanos) * 1);
    }
}

/// What is enforced here is what was sent: an encoded timeout stands for the
/// duration that its text says.
pub proof fn law_encoded_timeout_stands_for_what_is_sent(
    nanos: nat,
    protocol: Protocol,
    encoded: EncodedTimeout,
)
    requires
        encodes(nanos, protocol, encoded),
    ensures
        encoded matches EncodedTimeout::Connect { millis } ==> protocol is Connect && millis * 1_000_000 == wire_nanos(
            nanos,
            protocol,
        ),
        encoded matches EncodedTimeout::Grpc { value, unit, duration } ==> !(protocol is Connect) && is_unit(unit)
            && value * nanos_of(unit) == duration_nanos(duration) && duration_nanos(duration) == wire_nanos(
            nanos,
            protocol,
        ),
{
    lemma_wire_timeout_is_no_longer(nanos, protocol);
}

/// The deadline of a call is never later than the caller asked for, and there
/// is none for a call without a timeout.
pub proof fn law_deadline_is_kept(
    start: Instant,
    timeout: Option<Duration>,
    protocol: Protocol,
    deadline: Option<Instant>,
)
    requires
        deadline_from(start, timeout, protocol, deadline),
    ensures
        timeout is None ==> deadline is None,
        timeout matches Some(t) ==> (deadline matches Some(d) ==> instant_nanos(d) <= instant_nanos(start)
            + duration_nanos(t) && instant_nanos(d) == instant_nanos(start) + wire_nanos(duration_nanos(t), protocol)),
        timeout matches Some(t) ==> (representable(
            instant_nanos(start) + wire_nanos(duration_nanos(t), protocol),
        ) ==> deadline is Some),
{
    if let Some(t) = timeout {
        lemma_wire_timeout_is_no_longer(duration_nanos(t), protocol);
    }
}

/// A duration stands for no bound only where it is the longest there is.
pub proof fn law_longest_duration_is_no_bound(d: Duration)
    ensures
        duration_nanos(d) == 18_446_744_073_709_551_615_999_999_999 ==> finite_duration(d) is None,
        duration_nanos(d) != 18_446_744_073_709_551_615_999_999_999 ==> finite_duration(d) == Some(d),
{
}

} // verus!
