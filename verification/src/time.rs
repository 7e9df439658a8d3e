//! Conversion of points in time and of spans of time.

use vstd::prelude::*;

use crate::convert::{packs_to_some, unpackable_some, unpacks_from_option};
use crate::convert::{pack_option, unpack_option};
use crate::result::MappingError;
use crate::{ProtoPack, ProtoUnpack};

verus! {

/// A point in time in UTC: a `chrono::DateTime<chrono::Utc>`, which it holds in its field.
/// The proofs see of it the two numbers that `datetime_seconds` and `datetime_nanos` name.
#[verifier::external_body]
pub struct UtcDateTime(pub chrono::DateTime<chrono::Utc>);

/// A signed span of time of `chrono`. The proofs see of it the number that `delta_nanos`
/// names.
#[verifier::external_type_specification]
#[verifier::external_body]
pub struct ExTimeDelta(chrono::TimeDelta);

/// The message form of a point in time: seconds since the epoch and nanoseconds.
#[verifier::external_type_specification]
pub struct ExTimestamp(prost_types::Timestamp);

/// The message form of a span of time: seconds and nanoseconds.
#[verifier::external_type_specification]
pub struct ExWireDuration(prost_types::Duration);

/// The number of nanoseconds in a second.
pub open spec fn nanos_per_second() -> int {
    1_000_000_000
}

/// The longest span of time that `chrono` holds, in nanoseconds: `i64::MAX` milliseconds.
pub open spec fn max_delta_nanos() -> int {
    i64::MAX * 1_000_000
}

/// Whether a span of `nanos` nanoseconds is one that `chrono` holds.
pub open spec fn in_delta_range(nanos: int) -> bool {
    -max_delta_nanos() <= nanos <= max_delta_nanos()
}

/// The whole seconds of a span of `nanos` nanoseconds, counted towards zero.
pub open spec fn whole_seconds(nanos: int) -> int {
    if nanos >= 0 {
        nanos / nanos_per_second()
    } else {
        -((-nanos) / nanos_per_second())
    }
}

/// The nanoseconds of a span beside its whole seconds; they have the sign of the span.
pub open spec fn nanos_beside_seconds(nanos: int) -> int {
    nanos - whole_seconds(nanos) * nanos_per_second()
}

/// The length in nanoseconds of the message duration with these two fields, whatever
/// their signs and sizes.
pub open spec fn wire_nanos(seconds: i64, nanos: i32) -> int {
    seconds * nanos_per_second() + nanos
}

/// Whether `chrono` reads these seconds and nanoseconds back as they stand: the
/// nanoseconds stay below a second, or they count a leap second at the end of a minute.
pub open spec fn keeps_its_second(seconds: i64, nanos: u32) -> bool {
    nanos < 1_000_000_000 || seconds % 60 == 59
}

/// The whole non-leap seconds from the epoch to `t`.
pub uninterp spec fn datetime_seconds(t: UtcDateTime) -> i64;

/// The nanoseconds of `t` since the last whole second.
pub uninterp spec fn datetime_nanos(t: UtcDateTime) -> u32;

/// The point in time that lies `seconds` seconds and `nanos` nanoseconds after the
/// epoch, or `None` where `chrono` has none.
pub uninterp spec fn datetime_at(seconds: i64, nanos: u32) -> Option<UtcDateTime>;

/// The length of `d` in nanoseconds; negative for a span that goes back in time.
pub uninterp spec fn delta_nanos(d: chrono::TimeDelta) -> int;

/// Calls `chrono::DateTime::timestamp`. The contract names the result, and claims that
/// `chrono` makes the same point in time again from this result and the nanoseconds,
/// where the nanoseconds stay below a second or the second is the last of its minute: a
/// leap second elsewhere is not read back.
#[verifier::external_body]
fn datetime_timestamp(t: &UtcDateTime) -> (r: i64)
    ensures
        r == datetime_seconds(*t),
        keeps_its_second(r, datetime_nanos(*t)) ==> datetime_at(r, datetime_nanos(*t)) == Some(*t),
{
    t.0.timestamp()
}

/// Calls `chrono::DateTime::timestamp_subsec_nanos`. The contract names the result and
/// claims that it is below two seconds: `chrono` counts a leap second in the second
/// thousand million.
#[verifier::external_body]
fn datetime_subsec_nanos(t: &UtcDateTime) -> (r: u32)
    ensures
        r == datetime_nanos(*t),
        r < 2_000_000_000,
{
    t.0.timestamp_subsec_nanos()
}

/// Calls `chrono::DateTime::from_timestamp`. The contract names the result, and claims that
/// a point in time that comes back reads as the two numbers it was made from.
#[verifier::external_body]
fn datetime_from_timestamp(seconds: i64, nanos: u32) -> (r: Option<UtcDateTime>)
    ensures
        r == datetime_at(seconds, nanos),
        r matches Some(t) ==> datetime_seconds(t) == seconds && datetime_nanos(t) == nanos,
{
    match chrono::DateTime::from_timestamp(seconds, nanos) {
        Some(t) => Some(UtcDateTime(t)),
        None => None,
    }
}

/// Calls `chrono::TimeDelta::num_seconds`. The contract claims that the result is the
/// whole seconds of the span, counted towards zero.
#[verifier::external_body]
fn delta_num_seconds(d: &chrono::TimeDelta) -> (r: i64)
    ensures
        r == whole_seconds(delta_nanos(*d)),
{
    d.num_seconds()
}

/// Calls `chrono::TimeDelta::subsec_nanos`. The contract claims that the result is what
/// the span holds beside its whole seconds, and that the whole seconds and the result
/// together are no longer than `i64::MAX` milliseconds in either direction: `chrono`
/// keeps every span within these bounds.
#[verifier::external_body]
fn delta_subsec_nanos(d: &chrono::TimeDelta) -> (r: i32)
    ensures
        r == nanos_beside_seconds(delta_nanos(*d)),
        in_delta_range(whole_seconds(delta_nanos(*d)) * nanos_per_second() + r),
{
    d.subsec_nanos()
}

/// Calls `chrono::TimeDelta::new`, which counts the nanoseconds forward from the seconds.
/// The contract claims that exactly the spans longer than `i64::MAX` milliseconds in
/// either direction are refused, and that the result is as long as asked.
#[verifier::external_body]
fn delta_new(seconds: i64, nanos: u32) -> (r: Option<chrono::TimeDelta>)
    requires
        nanos < 1_000_000_000,
    ensures
        match r {
            Some(d) => in_delta_range(seconds * nanos_per_second() + nanos) && delta_nanos(d)
                == seconds * nanos_per_second() + nanos,
            None => !in_delta_range(seconds * nanos_per_second() + nanos),
        },
{
    chrono::TimeDelta::new(seconds, nanos)
}

// Timestamp

/// The message fields that stand for the point in time `t`.
pub open spec fn timestamp_of(t: UtcDateTime) -> (i64, i32) {
    (datetime_seconds(t), datetime_nanos(t) as i32)
}

/// Whether `chrono` has a point in time for the message fields of `value`.
pub open spec fn timestamp_in_range(value: prost_types::Timestamp) -> bool {
    0 <= value.nanos && datetime_at(value.seconds, value.nanos as u32) is Some
}

impl ProtoPack<prost_types::Timestamp> for UtcDateTime {
    open spec fn packs_to(self, r: Result<prost_types::Timestamp, MappingError>) -> bool {
        &&& r matches Ok(packed)
        &&& (packed.seconds, packed.nanos) == timestamp_of(self)
        &&& 0 <= packed.nanos
        &&& keeps_its_second(packed.seconds, packed.nanos as u32) ==> datetime_at(
            packed.seconds,
            packed.nanos as u32,
        ) == Some(self)
    }

    fn pack(self) -> (r: Result<prost_types::Timestamp, MappingError>) {
        let seconds = datetime_timestamp(&self);
        let nanos = datetime_subsec_nanos(&self);
        Ok(prost_types::Timestamp { seconds, nanos: nanos as i32 })
    }
}

impl ProtoUnpack<prost_types::Timestamp> for UtcDateTime {
    open spec fn unpackable(value: prost_types::Timestamp) -> bool {
        timestamp_in_range(value)
    }

    open spec fn unpacks_to(value: prost_types::Timestamp, r: Result<Self, MappingError>) -> bool {
        &&& r matches Ok(t)
        &&& Some(t) == datetime_at(value.seconds, value.nanos as u32)
        &&& timestamp_of(t) == (value.seconds, value.nanos)
    }

    fn unpack(value: prost_types::Timestamp) -> (r: Result<Self, MappingError>) {
        match datetime_from_timestamp(value.seconds, value.nanos as u32) {
            Some(t) => Ok(t),
            None => unreached(),
        }
    }
}

/// Tells whether `unpack` accepts the timestamp `value`.
pub fn is_timestamp_in_range(value: &prost_types::Timestamp) -> (r: bool)
    ensures
        r == timestamp_in_range(*value),
{
    value.nanos >= 0 && datetime_from_timestamp(value.seconds, value.nanos as u32).is_some()
}

/// Unpacks the timestamp `value` where `chrono` has a point in time for it, and gives
/// `None` where it has none.
pub fn unpack_timestamp(value: prost_types::Timestamp) -> (r: Option<UtcDateTime>)
    ensures
        match r {
            Some(t) => timestamp_in_range(value) && Some(t) == datetime_at(
                value.seconds,
                value.nanos as u32,
            ),
            None => !timestamp_in_range(value),
        },
{
    if is_timestamp_in_range(&value) {
        match UtcDateTime::unpack(value) {
            Ok(t) => Some(t),
            Err(_) => None,
        }
    } else {
        None
    }
}

impl ProtoPack<Option<prost_types::Timestamp>> for UtcDateTime {
    open spec fn packs_to(self, r: Result<Option<prost_types::Timestamp>, MappingError>) -> bool {
        packs_to_some(self, r)
    }

    fn pack(self) -> (r: Result<Option<prost_types::Timestamp>, MappingError>) {
        pack_option(self)
    }
}

impl ProtoUnpack<Option<prost_types::Timestamp>> for UtcDateTime {
    open spec fn unpackable(value: Option<prost_types::Timestamp>) -> bool {
        unpackable_some::<prost_types::Timestamp, UtcDateTime>(value)
    }

    open spec fn unpacks_to(value: Option<prost_types::Timestamp>, r: Result<Self, MappingError>) -> bool {
        unpacks_from_option(value, r)
    }

    fn unpack(value: Option<prost_types::Timestamp>) -> (r: Result<Self, MappingError>) {
        unpack_option(value)
    }
}

// Duration

/// The text of the error for a span of time that the target type cannot hold.
pub open spec fn out_of_range_message() -> Seq<char> {
    "Source duration value is out of range for the target type"@
}

/// The seconds of a span of `total` nanoseconds, counted down to the whole second below,
/// and the nanoseconds that count forward from there.
fn split_nanos(total: i128) -> (r: (i128, u32))
    requires
        -10_000_000_000_000_000_000_000_000_000 < total < 10_000_000_000_000_000_000_000_000_000,
    ensures
        r.0 * nanos_per_second() + r.1 == total,
        r.1 < 1_000_000_000,
{
    let billion: i128 = 1_000_000_000;
    if total >= 0 {
        (total / billion, (total % billion) as u32)
    } else {
        let back: i128 = -total;
        let whole: i128 = back / billion;
        let rest: i128 = back % billion;
        if rest == 0 {
            (-whole, 0)
        } else {
            (-whole - 1, (billion - rest) as u32)
        }
    }
}

impl ProtoPack<prost_types::Duration> for chrono::TimeDelta {
    open spec fn packs_to(self, r: Result<prost_types::Duration, MappingError>) -> bool {
        &&& r matches Ok(packed)
        &&& packed.seconds == whole_seconds(delta_nanos(self))
        &&& packed.nanos == nanos_beside_seconds(delta_nanos(self))
        &&& in_delta_range(delta_nanos(self))
    }

    fn pack(self) -> (r: Result<prost_types::Duration, MappingError>) {
        let seconds = delta_num_seconds(&self);
        let nanos = delta_subsec_nanos(&self);
        Ok(prost_types::Duration { seconds, nanos })
    }
}

impl ProtoUnpack<prost_types::Duration> for chrono::TimeDelta {
    open spec fn unpackable(value: prost_types::Duration) -> bool {
        true
    }

    open spec fn unpacks_to(value: prost_types::Duration, r: Result<Self, MappingError>) -> bool {
        if in_delta_range(wire_nanos(value.seconds, value.nanos)) {
            &&& r matches Ok(d)
            &&& delta_nanos(d) == wire_nanos(value.seconds, value.nanos)
        } else {
            &&& r matches Err(MappingError::ParseDuration { message })
            &&& message@ == out_of_range_message()
        }
    }

    fn unpack(value: prost_types::Duration) -> (r: Result<Self, MappingError>) {
        let billion: i128 = 1_000_000_000;
        let total: i128 = value.seconds as i128 * billion + value.nanos as i128;
        let (seconds, nanos) = split_nanos(total);
        if i64::MIN as i128 <= seconds && seconds <= i64::MAX as i128 {
            match delta_new(seconds as i64, nanos) {
                Some(d) => {
                    return Ok(d);
                },
                None => {},
            }
        }
        Err(
            MappingError::ParseDuration {
                message: "Source duration value is out of range for the target type".to_owned(),
            },
        )
    }
}

impl ProtoPack<Option<prost_types::Duration>> for chrono::TimeDelta {
    open spec fn packs_to(self, r: Result<Option<prost_types::Duration>, MappingError>) -> bool {
        packs_to_some(self, r)
    }

    fn pack(self) -> (r: Result<Option<prost_types::Duration>, MappingError>) {
        pack_option(self)
    }
}

impl ProtoUnpack<Option<prost_types::Duration>> for chrono::TimeDelta {
    open spec fn unpackable(value: Option<prost_types::Duration>) -> bool {
        unpackable_some::<prost_types::Duration, chrono::TimeDelta>(value)
    }

    open spec fn unpacks_to(
        value: Option<prost_types::Duration>,
        r: Result<Self, MappingError>,
    ) -> bool {
        unpacks_from_option(value, r)
    }

    fn unpack(value: Option<prost_types::Duration>) -> (r: Result<Self, MappingError>) {
        unpack_option(value)
    }
}

} // verus!
