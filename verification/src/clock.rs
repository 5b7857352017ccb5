//! Time, as the library counts it.
use vstd::prelude::*;

verus! {

/// Nanoseconds in a second. Instants and spans of time are counted in
/// nanoseconds, on a clock of the caller's choosing.
pub const NANOS_PER_SECOND: u128 = 1_000_000_000;

/// A span of `nanos` nanoseconds as whole seconds and the nanoseconds left
/// over. `None` where the seconds are more than a `u64` holds.
pub fn seconds_and_nanos(nanos: u128) -> (parts: Option<(u64, u32)>)
    ensures
        match parts {
            Some((seconds, rest)) => seconds * NANOS_PER_SECOND + rest == nanos && rest
                < NANOS_PER_SECOND,
            None => nanos >= (u64::MAX + 1) * NANOS_PER_SECOND,
        },
{
    let seconds: u128 = nanos / NANOS_PER_SECOND;
    let rest: u128 = nanos % NANOS_PER_SECOND;
    if seconds > u64::MAX as u128 {
        None
    } else {
        Some((seconds as u64, rest as u32))
    }
}

} // verus!
