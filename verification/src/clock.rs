//! The time.

use vstd::prelude::*;

verus! {

/// A point in time.
#[verifier::external_type_specification]
#[verifier::external_body]
pub struct ExSystemTime(std::time::SystemTime);

/// `SystemTime::now`: the time of the machine. Nothing is said of it.
pub assume_specification[ std::time::SystemTime::now ]() -> std::time::SystemTime
;

/// `Duration::as_millis`: the whole milliseconds of a span. Nothing is said of
/// them, since the spans here come from the time of the machine.
pub assume_specification[ std::time::Duration::as_millis ](span: &std::time::Duration) -> u128
;

/// `SystemTime::duration_since` the start of 1970: the span, where the time is
/// behind that. Nothing is said of it.
#[verifier::external_body]
fn since_epoch(t: std::time::SystemTime) -> (res: Option<std::time::Duration>) {
    t.duration_since(std::time::UNIX_EPOCH).ok()
}

/// The time of the machine in milliseconds; 0 where its clock is before the
/// start of 1970. Of the time nothing is said; see [`ticks_of`] for the rest.
pub fn sdl_ticks() -> (ms: u64) {
    let millis: Option<u128> = match since_epoch(std::time::SystemTime::now()) {
        Some(span) => Some(span.as_millis()),
        None => None,
    };
    ticks_of(millis)
}

/// The lower 64 bits of the milliseconds since the start of 1970; 0 where the
/// clock is before that.
pub open spec fn ticks(millis: Option<u128>) -> int {
    match millis {
        Some(ms) => ms as int % 0x1_0000_0000_0000_0000,
        None => 0,
    }
}

/// The time for the milliseconds since the start of 1970, where the clock is
/// behind that.
pub fn ticks_of(millis: Option<u128>) -> (res: u64)
    ensures
        res == ticks(millis),
{
    match millis {
        Some(ms) => {
            assert(ms as u64 == ms % 0x1_0000_0000_0000_0000u128) by (bit_vector);
            #[verifier::truncate]
            (ms as u64)
        },
        None => 0,
    }
}

} // verus!
