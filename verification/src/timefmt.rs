//! Timestamp rendering for artifact names and metadata, and the clock.

use vstd::prelude::*;

verus! {

/// The last representable second of year 9999; rendering is defined for
/// timestamps between the epoch and this bound.
pub const MAX_FORMAT_EPOCH: i64 = 253402300799;

/// The `%Y%m%dT%H%M%S` rendering of an epoch timestamp, a function of the
/// timestamp alone; relied on from chrono's formatting.
pub uninterp spec fn compact_timestamp_of(t: int) -> Seq<u8>;

/// The four-digit year of an epoch timestamp, a function of the timestamp
/// alone; relied on from chrono's formatting.
pub uninterp spec fn year_of(t: int) -> Seq<u8>;

/// Relies on chrono: `DateTime::from_timestamp` is `Some` for timestamps
/// between the epoch and year 9999, and `format("%Y%m%dT%H%M%S")` renders
/// them as fifteen bytes (a zero-padded four-digit year and two digits for
/// each other field).
#[verifier::external_body]
pub(crate) fn format_compact(epoch: i64) -> (r: Vec<u8>)
    requires
        0 <= epoch <= MAX_FORMAT_EPOCH,
    ensures
        r@ == compact_timestamp_of(epoch as int),
        r@.len() == 15,
{
    let dt = chrono::DateTime::<chrono::Utc>::from_timestamp(epoch, 0).unwrap();
    dt.format("%Y%m%dT%H%M%S").to_string().into_bytes()
}

/// Relies on chrono: `format("%Y")` renders the zero-padded four-digit year.
#[verifier::external_body]
pub(crate) fn format_year(epoch: i64) -> (r: Vec<u8>)
    requires
        0 <= epoch <= MAX_FORMAT_EPOCH,
    ensures
        r@ == year_of(epoch as int),
        r@.len() == 4,
{
    let dt = chrono::DateTime::<chrono::Utc>::from_timestamp(epoch, 0).unwrap();
    dt.format("%Y").to_string().into_bytes()
}

/// A timestamp clamped into the renderable range.
pub fn clamp_epoch(epoch: i64) -> (r: i64)
    ensures
        0 <= r <= MAX_FORMAT_EPOCH,
        r as int == clamp_epoch_spec(epoch as int),
{
    if epoch < 0 {
        0
    } else if epoch > MAX_FORMAT_EPOCH {
        MAX_FORMAT_EPOCH
    } else {
        epoch
    }
}

pub open spec fn clamp_epoch_spec(t: int) -> int {
    if t < 0 {
        0
    } else if t > MAX_FORMAT_EPOCH {
        MAX_FORMAT_EPOCH as int
    } else {
        t
    }
}

} // verus!
