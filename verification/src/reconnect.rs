use vstd::arithmetic::power2::{lemma_pow2_unfold, pow2};
use vstd::math::min;
use vstd::prelude::*;

verus! {

/// How long a client waits before it connects again: one second after a
/// connection that was closed, and twice as long after each further failure, up
/// to a limit.
pub struct Backoff {
    current: u64,
    limit: u64,
}

/// The state of a `Backoff`, in seconds.
pub struct BackoffModel {
    /// The wait that a failure now comes to, were there no limit.
    pub current: u64,
    /// The longest wait.
    pub limit: u64,
}

impl View for Backoff {
    type V = BackoffModel;

    closed spec fn view(&self) -> BackoffModel {
        BackoffModel { current: self.current, limit: self.limit }
    }
}

/// The wait that counts once a connection is over.
pub open spec fn base(m: BackoffModel, closed: bool) -> u64 {
    if closed {
        1
    } else {
        m.current
    }
}

impl Backoff {
    /// The first wait is one second.
    pub fn new(limit: u64) -> (backoff: Self)
        ensures
            backoff@ == (BackoffModel { current: 1, limit }),
    {
        Backoff { current: 1, limit }
    }

    /// Whether the wait can be doubled after the connection that is over.
    pub fn can_double(&self, closed: bool) -> (r: bool)
        ensures
            r == (base(self@, closed) * 2 <= u64::MAX),
    {
        closed || self.current <= u64::MAX / 2
    }

    /// The connection is over, closed or failed: gives the wait in seconds before
    /// the next one.
    pub fn after(&mut self, closed: bool) -> (delay: u64)
        requires
            base(old(self)@, closed) * 2 <= u64::MAX,
        ensures
            delay == delay_of(old(self)@, closed),
            final(self)@ == backoff_next(old(self)@, closed),
    {
        if closed {
            self.current = 1;
        }
        let delay: u64 = if self.current <= self.limit {
            self.current
        } else {
            self.limit
        };
        let doubled: u64 = self.current * 2;
        self.current = if doubled <= self.limit {
            doubled
        } else {
            self.limit
        };
        delay
    }
}

/// The wait after a connection that is over.
pub open spec fn delay_of(m: BackoffModel, closed: bool) -> int {
    min(base(m, closed) as int, m.limit as int)
}

/// The state after a connection that is over.
pub open spec fn backoff_next(m: BackoffModel, closed: bool) -> BackoffModel {
    BackoffModel { current: min(base(m, closed) * 2, m.limit as int) as u64, ..m }
}

/// A `Backoff` that has not waited yet.
pub open spec fn fresh(limit: u64) -> BackoffModel {
    BackoffModel { current: 1, limit }
}

/// The state after `k` failures in a row, and nothing else.
pub open spec fn after_failures(limit: u64, k: nat) -> BackoffModel
    decreases k,
{
    if k == 0 {
        fresh(limit)
    } else {
        backoff_next(after_failures(limit, (k - 1) as nat), false)
    }
}

/// The waits double from one second on, and stay at the limit once they have
/// reached it: after `k` failures the next wait is two to the power of `k`.
pub proof fn theorem_waits_double_up_to_the_limit(limit: u64, k: nat)
    ensures
        delay_of(after_failures(limit, k), false) == min(pow2(k) as int, limit as int),
        after_failures(limit, k).limit == limit,
    decreases k,
{
    if k == 0 {
        vstd::arithmetic::power2::lemma2_to64();
    } else {
        lemma_pow2_unfold(k);
        vstd::arithmetic::power2::lemma_pow2_pos((k - 1) as nat);
        theorem_waits_double_up_to_the_limit(limit, (k - 1) as nat);
    }
}

/// A connection that was closed is followed by the same waits as a first failure:
/// the doubling starts anew.
pub proof fn theorem_closing_starts_anew(m: BackoffModel)
    ensures
        delay_of(m, true) == delay_of(fresh(m.limit), false),
        backoff_next(m, true) == backoff_next(fresh(m.limit), false),
{
}

/// A wait is never longer than the limit, and a failure never shortens it.
pub proof fn theorem_waits_grow(m: BackoffModel)
    requires
        m.current > 0,
    ensures
        delay_of(m, false) <= m.limit,
        delay_of(m, true) <= m.limit,
        delay_of(m, false) <= delay_of(backoff_next(m, false), false),
{
}

/// How a wait and the one after it relate, in any state: a closed connection is followed by
/// one second, a failed one by the wait that is due, and the next wait is twice that, each
/// unless the limit is shorter, which never changes.
pub proof fn theorem_next_wait_is_twice_as_long(
    backoff: &mut Backoff,
    closed: bool,
    delay: u64,
)
    requires
        call_ensures(Backoff::after, (backoff, closed), delay),
        closed || old(backoff)@.current <= u64::MAX / 2,
    ensures
        ({
            let m = old(backoff)@;
            let next = final(backoff)@;
            let due: int = if closed {
                1
            } else {
                m.current as int
            };
            &&& delay == if due <= m.limit {
                due
            } else {
                m.limit as int
            }
            &&& next.limit == m.limit
            &&& next.current == if 2 * due <= m.limit {
                2 * due
            } else {
                m.limit as int
            }
        }),
{
}

/// When a wait can be doubled: always after a connection that was closed, and after a
/// failure as long as twice the wait is a number.
pub proof fn theorem_small_waits_can_be_doubled(backoff: Backoff, closed: bool, r: bool)
    requires
        call_ensures(Backoff::can_double, (&backoff, closed), r),
    ensures
        r <==> closed || backoff@.current <= u64::MAX / 2,
{
}

} // verus!
