//! Protocol timestamps. The protocol counts time in ticks of 100 nanoseconds
//! since 1601-01-01 00:00:00 UTC; the storage layer wants Unix milliseconds
//! and a textual form.

use vstd::arithmetic::div_mod::{lemma_fundamental_div_mod, lemma_fundamental_div_mod_converse};
use vstd::prelude::*;

verus! {

/// Seconds between 1601-01-01 and 1970-01-01 (both UTC).
pub const UNIX_EPOCH_OFFSET_SECONDS: i64 = 11_644_473_600;

/// Milliseconds between 1601-01-01 and 1970-01-01 (both UTC).
pub const UNIX_EPOCH_OFFSET_MILLIS: i64 = 11_644_473_600_000;

/// Ticks of the protocol clock per second.
pub const TICKS_PER_SECOND: i64 = 10_000_000;

/// Ticks of the protocol clock per millisecond.
pub const TICKS_PER_MILLISECOND: i64 = 10_000;

/// Nanoseconds per tick of the protocol clock.
pub const NANOS_PER_TICK: u32 = 100;

/// Unix milliseconds corresponding to a tick count (floor division).
pub open spec fn spec_unix_millis(ticks: int) -> int {
    ticks / (TICKS_PER_MILLISECOND as int) - UNIX_EPOCH_OFFSET_MILLIS
}

/// Unix seconds corresponding to a tick count (floor division).
pub open spec fn spec_ticks_seconds(ticks: int) -> int {
    ticks / (TICKS_PER_SECOND as int) - UNIX_EPOCH_OFFSET_SECONDS
}

/// Nanoseconds of a tick count past its whole second.
pub open spec fn spec_ticks_subsec_nanos(ticks: int) -> int {
    (ticks % (TICKS_PER_SECOND as int)) * (NANOS_PER_TICK as int)
}

/// Floor division of a possibly negative value by a small positive divisor,
/// with the (nonnegative) remainder.
fn floor_div_rem(x: i64, d: u64) -> (r: (i64, u64))
    requires
        2 <= d <= 0x1_0000_0000,
    ensures
        r.0 as int == x as int / d as int,
        r.1 as int == x as int % d as int,
{
    if x >= 0 {
        let q: u64 = (x as u64) / d;
        let rem: u64 = (x as u64) % d;
        proof {
            vstd::arithmetic::div_mod::lemma_div_nonincreasing(x as int, d as int);
        }
        (q as i64, rem)
    } else {
        let magnitude: u64 = ((-(x + 1)) as u64) + 1;
        let q0: u64 = magnitude / d;
        let r0: u64 = magnitude % d;
        proof {
            lemma_fundamental_div_mod(magnitude as int, d as int);
            vstd::arithmetic::div_mod::lemma_div_pos_is_pos(magnitude as int, d as int);
            assert(2 * (q0 as int) <= d as int * (q0 as int)) by (nonlinear_arith)
                requires
                    2 <= d as int && 0 <= q0 as int,
            ;
        }
        if r0 == 0 {
            let q: i64 = -((q0) as i64);
            proof {
                assert((-(q0 as int)) * (d as int) == -((d as int) * (q0 as int)))
                    by (nonlinear_arith);
                lemma_fundamental_div_mod_converse(x as int, d as int, q as int, 0);
            }
            (q, 0)
        } else {
            let q: i64 = -((q0) as i64) - 1;
            let rem: u64 = d - r0;
            proof {
                assert((-(q0 as int) - 1) * (d as int) + ((d as int) - (r0 as int)) == -((
                d as int) * (q0 as int) + (r0 as int))) by (nonlinear_arith);
                lemma_fundamental_div_mod_converse(x as int, d as int, q as int, rem as int);
            }
            (q, rem)
        }
    }
}

/// Unix milliseconds of a protocol tick count, as the storage layer records
/// them beside each tag value.
pub fn unix_millis_from_ticks(ticks: i64) -> (r: i64)
    ensures
        r as int == spec_unix_millis(ticks as int),
{
    let qr = floor_div_rem(ticks, 10_000);
    qr.0 - UNIX_EPOCH_OFFSET_MILLIS
}

/// Names the text that the calendar library renders for a UTC instant given
/// as Unix seconds and subsecond nanoseconds: it depends on those two values
/// alone.
pub uninterp spec fn datetime_text_of(secs: int, nanos: int) -> Seq<char>;

/// Relies on chrono's `DateTime::<Utc>::from_timestamp` and on the `Debug`
/// rendering of `DateTime<Utc>`: `from_timestamp` returns `Some` for any
/// seconds value this close to the Unix epoch (its only bound is about
/// 262,000 years away) with nanoseconds below one second, and the rendered
/// text is a function of the instant alone.
#[verifier::external_body]
fn format_timestamp(secs: i64, nanos: u32) -> (r: String)
    requires
        -1_000_000_000_000 <= secs <= 1_000_000_000_000,
        nanos < 1_000_000_000,
    ensures
        r@ == datetime_text_of(secs as int, nanos as int),
{
    let instant = chrono::DateTime::<chrono::Utc>::from_timestamp(secs, nanos)
        .expect("seconds are bounded well within the calendar range");
    format!("{instant:?}")
}

/// Textual form of a protocol tick count.
pub open spec fn spec_datetime_text(ticks: int) -> Seq<char> {
    datetime_text_of(spec_ticks_seconds(ticks), spec_ticks_subsec_nanos(ticks))
}

/// Renders a protocol tick count as text, the form kept in storage documents.
pub fn datetime_text(ticks: i64) -> (r: String)
    ensures
        r@ == spec_datetime_text(ticks as int),
{
    let qr = floor_div_rem(ticks, 10_000_000);
    let secs: i64 = qr.0 - UNIX_EPOCH_OFFSET_SECONDS;
    let nanos: u32 = (qr.1 as u32) * NANOS_PER_TICK;
    format_timestamp(secs, nanos)
}

} // verus!
