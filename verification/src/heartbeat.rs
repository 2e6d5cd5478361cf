use vstd::prelude::*;

verus! {

/// Nanoseconds in a second.
pub const NANOS_PER_SEC: u128 = 1_000_000_000;

/// More than `limit_secs` seconds lie between the two times, which are given
/// in nanoseconds.
pub open spec fn overdue(last: u128, now: u128, limit_secs: u64) -> bool {
    now - last > limit_secs * NANOS_PER_SEC
}

/// Whether more than `limit_secs` seconds have gone by since `last`. Times are
/// in nanoseconds since some fixed moment; a `now` before `last` counts as no
/// time at all.
pub fn is_overdue(last: u128, now: u128, limit_secs: u64) -> (r: bool)
    ensures
        r == overdue(last, now, limit_secs),
{
    now.saturating_sub(last) > limit_secs as u128 * NANOS_PER_SEC
}

/// The limit itself is still in time: a moment is overdue exactly when it lies later than
/// that many thousand millions of nanoseconds after the last one.
pub proof fn theorem_overdue_after_the_limit(last: u128, now: u128, limit_secs: u64, r: bool)
    requires
        call_ensures(is_overdue, (last, now, limit_secs), r),
    ensures
        r <==> now > last + 1_000_000_000 * limit_secs,
{
}

} // verus!
