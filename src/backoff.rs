use vstd::prelude::*;

verus! {

/// Initial wait before the first order status check.
pub const ORDER_POLL_INITIAL_MS: u64 = 250;
/// Longest wait between two order status checks.
pub const ORDER_POLL_CAP_MS: u64 = 60_000;
/// Number of order status checks before giving up.
pub const ORDER_POLL_ATTEMPTS: u32 = 10;
/// Wait after the first failed lookup of the challenge record.
pub const PROPAGATION_INITIAL_MS: u64 = 2_000;
/// Longest wait between two lookups of the challenge record.
pub const PROPAGATION_CAP_MS: u64 = 60_000;
/// Total time the challenge record may take to become visible.
pub const PROPAGATION_DEADLINE_MS: u64 = 600_000;
/// Wait after the record is first seen, for the other name servers to catch up.
pub const PROPAGATION_GRACE_MS: u64 = 15_000;

/// The `n`-th wait of a sequence that starts at `initial` and doubles up to `cap`.
pub open spec fn backoff_delay(initial: nat, cap: nat, n: nat) -> nat
    decreases n,
{
    if n == 0 {
        if initial > cap {
            cap
        } else {
            initial
        }
    } else {
        let d = backoff_delay(initial, cap, (n - 1) as nat);
        if 2 * d > cap {
            cap
        } else {
            2 * d
        }
    }
}

/// The wait before order status check number `n` (counted from zero).
pub open spec fn order_poll_delay(n: nat) -> nat {
    backoff_delay(ORDER_POLL_INITIAL_MS as nat, ORDER_POLL_CAP_MS as nat, n)
}

/// The total of the first `n` order polling waits.
pub open spec fn order_poll_total(n: nat) -> nat
    decreases n,
{
    if n == 0 {
        0
    } else {
        order_poll_total((n - 1) as nat) + order_poll_delay((n - 1) as nat)
    }
}

/// The longest time order polling can wait in all.
pub open spec fn order_poll_budget() -> nat {
    order_poll_total(ORDER_POLL_ATTEMPTS as nat)
}

/// The order polling budget, worked out: 250 ms doubling up to 60 s, ten times.
pub proof fn lemma_order_poll_budget()
    ensures
        order_poll_budget() == 183_750,
{
    reveal_with_fuel(backoff_delay, 11);
    reveal_with_fuel(order_poll_total, 11);
}

/// Where order polling stands: how many checks came back inconclusive, and the
/// wait before the next check.
#[derive(Debug, Clone, Copy, PartialEq, Eq, Structural)]
pub struct OrderPoll {
    pub attempts: u32,
    pub delay_ms: u64,
}

impl OrderPoll {
    pub open spec fn wf(self) -> bool {
        &&& self.attempts < ORDER_POLL_ATTEMPTS
        &&& self.delay_ms == order_poll_delay(self.attempts as nat)
    }

    pub open spec fn initial() -> OrderPoll {
        OrderPoll { attempts: 0, delay_ms: ORDER_POLL_INITIAL_MS }
    }

    /// The polling state after one more inconclusive check, or `None` once the
    /// attempts are spent.
    pub open spec fn after_inconclusive(self) -> Option<OrderPoll> {
        if self.attempts + 1 >= ORDER_POLL_ATTEMPTS {
            None
        } else {
            Some(
                OrderPoll {
                    attempts: (self.attempts + 1) as u32,
                    delay_ms: if 2 * self.delay_ms > ORDER_POLL_CAP_MS {
                        ORDER_POLL_CAP_MS
                    } else {
                        (2 * self.delay_ms) as u64
                    },
                },
            )
        }
    }

    pub fn new() -> (r: OrderPoll)
        ensures
            r == OrderPoll::initial(),
            r.wf(),
    {
        OrderPoll { attempts: 0, delay_ms: ORDER_POLL_INITIAL_MS }
    }

    pub fn next_after_inconclusive(&self) -> (r: Option<OrderPoll>)
        requires
            self.wf(),
        ensures
            r == self.after_inconclusive(),
            r matches Some(p) ==> p.wf(),
    {
        if self.attempts + 1 >= ORDER_POLL_ATTEMPTS {
            None
        } else {
            let d = self.delay_ms * 2;
            let next = if d > ORDER_POLL_CAP_MS {
                ORDER_POLL_CAP_MS
            } else {
                d
            };
            Some(OrderPoll { attempts: self.attempts + 1, delay_ms: next })
        }
    }
}

/// Where the wait for the challenge record stands: the time waited so far, and
/// the wait before the next lookup.
#[derive(Debug, Clone, Copy, PartialEq, Eq, Structural)]
pub struct Propagation {
    pub elapsed_ms: u64,
    pub delay_ms: u64,
}

impl Propagation {
    pub open spec fn wf(self) -> bool {
        &&& self.elapsed_ms <= PROPAGATION_DEADLINE_MS
        &&& 0 < self.delay_ms <= PROPAGATION_CAP_MS
    }

    pub open spec fn initial() -> Propagation {
        Propagation { elapsed_ms: 0, delay_ms: PROPAGATION_INITIAL_MS }
    }

    /// The state after a lookup that found nothing, or `None` when the next wait
    /// would pass the deadline.
    pub open spec fn after_miss(self) -> Option<Propagation> {
        if self.elapsed_ms + self.delay_ms > PROPAGATION_DEADLINE_MS {
            None
        } else {
            Some(
                Propagation {
                    elapsed_ms: (self.elapsed_ms + self.delay_ms) as u64,
                    delay_ms: if 2 * self.delay_ms > PROPAGATION_CAP_MS {
                        PROPAGATION_CAP_MS
                    } else {
                        (2 * self.delay_ms) as u64
                    },
                },
            )
        }
    }

    pub fn new() -> (r: Propagation)
        ensures
            r == Propagation::initial(),
            r.wf(),
    {
        Propagation { elapsed_ms: 0, delay_ms: PROPAGATION_INITIAL_MS }
    }

    pub fn next_after_miss(&self) -> (r: Option<Propagation>)
        requires
            self.wf(),
        ensures
            r == self.after_miss(),
            r matches Some(p) ==> p.wf(),
    {
        if self.elapsed_ms + self.delay_ms > PROPAGATION_DEADLINE_MS {
            None
        } else {
            let d = self.delay_ms * 2;
            let next = if d > PROPAGATION_CAP_MS {
                PROPAGATION_CAP_MS
            } else {
                d
            };
            Some(Propagation { elapsed_ms: self.elapsed_ms + self.delay_ms, delay_ms: next })
        }
    }
}

} // verus!
