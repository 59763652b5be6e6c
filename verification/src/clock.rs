use vstd::prelude::*;

verus! {

/// Relies on std::time::SystemTime::now: milliseconds since the Unix
/// epoch, or 0 when the clock reads before the epoch. The value depends
/// on the machine's clock, so nothing is promised of it; every function
/// of the library that reasons about time takes the current instant as
/// an argument instead.
#[verifier::external_body]
pub fn now_ms() -> u128 {
    std::time::SystemTime::now()
        .duration_since(std::time::UNIX_EPOCH)
        .map_or(0, |d| d.as_millis())
}

/// The milliseconds elapsed from `daemon_start` to `now`; zero when
/// the clock reads before the start.
pub fn uptime_from(now: u128, daemon_start: u128) -> (r: u128)
    ensures
        r == (if now >= daemon_start {
            now - daemon_start
        } else {
            0
        }),
{
    if now >= daemon_start {
        now - daemon_start
    } else {
        0
    }
}

/// The milliseconds elapsed since `daemon_start` at this instant, as
/// the health endpoint reports them. Which instant the clock hands
/// back cannot be pinned; what is computed from it is `uptime_from`,
/// whose contract is exact.
pub fn uptime_ms(daemon_start: u128) -> u128 {
    uptime_from(now_ms(), daemon_start)
}

} // verus!
