//! Capped exponential retry delays.
//!
//! The delays themselves come from `tokio_retry`'s exponential strategy; this
//! module states what that strategy yields, caps it, and keeps the per-peer
//! cursor that remembers how far a peer has backed off.

use vstd::prelude::*;

verus! {

/// Base of the exponential growth, in milliseconds.
pub const BACKOFF_BASE_MS: u64 = 2;

/// Factor applied to every delay, so that delays are whole seconds.
pub const BACKOFF_FACTOR: u64 = 1000;

/// No delay between two dials of one peer grows beyond ten minutes.
pub const MAX_CONNECTION_DELAY_MS: u64 = 600000;

/// The product of two numbers, held at `u64::MAX` where it would overflow.
pub open spec fn saturating_product(a: u64, b: u64) -> u64 {
    if a * b > u64::MAX {
        u64::MAX
    } else {
        (a * b) as u64
    }
}

/// The sum of two numbers, held at `u64::MAX` where it would overflow.
pub open spec fn saturating_sum(a: u64, b: u64) -> u64 {
    if a + b > u64::MAX {
        u64::MAX
    } else {
        (a + b) as u64
    }
}

/// `base` raised to the power `attempt + 1`, saturating.
pub open spec fn exponential_step(base: u64, attempt: nat) -> u64
    decreases attempt,
{
    if attempt == 0 {
        base
    } else {
        saturating_product(exponential_step(base, (attempt - 1) as nat), base)
    }
}

/// The delay in milliseconds that follows `attempt` earlier attempts.
pub open spec fn exponential_delay(base: u64, factor: u64, attempt: nat) -> u64 {
    saturating_product(exponential_step(base, attempt), factor)
}

/// Builds `tokio_retry::strategy::ExponentialBackoff` with `from_millis(base)`
/// and `factor(factor)`, without a maximum, and takes its item number
/// `attempt`, counted from zero. Each call of the strategy's `next` yields its
/// current value times the factor and then multiplies the current value, which
/// starts as `base`, by `base`; both products saturate. The strategy never
/// ends, and a delay made from a `u64` of milliseconds fits a `u64` again.
#[verifier::external_body]
fn exponential_backoff_nth(base: u64, factor: u64, attempt: u8) -> (delay_ms: Option<u64>)
    ensures
        delay_ms == Some(exponential_delay(base, factor, attempt as nat)),
{
    match tokio_retry::strategy::ExponentialBackoff::from_millis(base).factor(factor).nth(
        usize::from(attempt),
    ) {
        Some(delay) => u64::try_from(delay.as_millis()).ok(),
        None => None,
    }
}

/// How retries of one peer are spaced.
#[derive(Clone, Copy, Debug, PartialEq, Eq, Structural)]
pub struct BackoffPolicy {
    pub base_ms: u64,
    pub factor: u64,
    pub max_delay_ms: u64,
}

/// What a peer's record remembers of its retries: the time before which no
/// new dial is due, and how many dials have gone out since the peer was last
/// connected (which fixes the size of the next delay).
#[derive(Clone, Copy, Debug, PartialEq, Eq, Structural)]
pub struct BackoffCursor {
    pub next_retry_ms: u64,
    pub attempts: u8,
}

impl BackoffPolicy {
    /// The delay applied after `attempt` earlier attempts: the exponential
    /// delay, or the maximum where that is smaller.
    pub open spec fn delay(self, attempt: nat) -> u64 {
        let raw = exponential_delay(self.base_ms, self.factor, attempt);
        if raw <= self.max_delay_ms {
            raw
        } else {
            self.max_delay_ms
        }
    }

    /// The delay that opens every series of attempts.
    pub open spec fn base_delay(self) -> u64 {
        self.delay(0)
    }

    pub fn new(base_ms: u64, factor: u64, max_delay_ms: u64) -> (policy: BackoffPolicy)
        ensures
            policy == (BackoffPolicy { base_ms, factor, max_delay_ms }),
    {
        BackoffPolicy { base_ms, factor, max_delay_ms }
    }

    /// Delays of two, four, eight seconds and so on, up to `max_delay_ms`.
    pub fn with_max_delay(max_delay_ms: u64) -> (policy: BackoffPolicy)
        ensures
            policy == (BackoffPolicy {
                base_ms: BACKOFF_BASE_MS,
                factor: BACKOFF_FACTOR,
                max_delay_ms,
            }),
    {
        BackoffPolicy { base_ms: BACKOFF_BASE_MS, factor: BACKOFF_FACTOR, max_delay_ms }
    }

    /// Caps a delay that the strategy yielded; where it yielded none, the
    /// maximum stands in.
    pub fn cap(&self, raw: Option<u64>) -> (delay_ms: u64)
        ensures
            delay_ms == match raw {
                Some(d) => if d <= self.max_delay_ms {
                    d
                } else {
                    self.max_delay_ms
                },
                None => self.max_delay_ms,
            },
    {
        match raw {
            Some(d) => if d <= self.max_delay_ms {
                d
            } else {
                self.max_delay_ms
            },
            None => self.max_delay_ms,
        }
    }

    /// The delay applied after `attempt` earlier attempts.
    pub fn next_delay(&self, attempt: u8) -> (delay_ms: u64)
        ensures
            delay_ms == self.delay(attempt as nat),
            delay_ms <= self.max_delay_ms,
    {
        let raw = exponential_backoff_nth(self.base_ms, self.factor, attempt);
        self.cap(raw)
    }
}

impl BackoffCursor {
    /// The cursor of a peer that may be dialled at once, with the base delay
    /// to follow.
    pub open spec fn initial() -> BackoffCursor {
        BackoffCursor { next_retry_ms: 0, attempts: 0 }
    }

    /// Whether a dial is due at time `now_ms`.
    pub open spec fn due(self, now_ms: u64) -> bool {
        self.next_retry_ms <= now_ms
    }

    /// The delay that the next dial will be followed by.
    pub open spec fn pending_delay(self, policy: BackoffPolicy) -> u64 {
        policy.delay(self.attempts as nat)
    }

    /// The cursor after a dial at time `now_ms`: the next retry waits for the
    /// pending delay, and the delay after that is the next larger one.
    pub open spec fn advanced(self, policy: BackoffPolicy, now_ms: u64) -> BackoffCursor {
        BackoffCursor {
            next_retry_ms: saturating_sum(now_ms, self.pending_delay(policy)),
            attempts: if self.attempts < u8::MAX {
                (self.attempts + 1) as u8
            } else {
                u8::MAX
            },
        }
    }

    /// The cursor after a dial that never left: the dial is due again at
    /// once, and the attempt does not count.
    pub open spec fn withdrawn(self) -> BackoffCursor {
        BackoffCursor {
            next_retry_ms: 0,
            attempts: if self.attempts > 0 {
                (self.attempts - 1) as u8
            } else {
                0
            },
        }
    }

    pub fn fresh() -> (cursor: BackoffCursor)
        ensures
            cursor == BackoffCursor::initial(),
    {
        BackoffCursor { next_retry_ms: 0, attempts: 0 }
    }

    pub fn is_due(&self, now_ms: u64) -> (due: bool)
        ensures
            due == self.due(now_ms),
    {
        self.next_retry_ms <= now_ms
    }

    pub fn advance(&mut self, policy: &BackoffPolicy, now_ms: u64)
        ensures
            *final(self) == old(self).advanced(*policy, now_ms),
    {
        let delay = policy.next_delay(self.attempts);
        self.next_retry_ms = now_ms.saturating_add(delay);
        if self.attempts < u8::MAX {
            self.attempts = self.attempts + 1;
        }
    }

    pub fn withdraw(&mut self)
        ensures
            *final(self) == old(self).withdrawn(),
    {
        self.next_retry_ms = 0;
        if self.attempts > 0 {
            self.attempts = self.attempts - 1;
        }
    }
}

/// The exponential step never shrinks from one attempt to the next.
proof fn lemma_step_grows(base: u64, attempt: nat)
    ensures
        exponential_step(base, attempt) <= exponential_step(base, attempt + 1),
        base == 0 ==> exponential_step(base, attempt) == 0,
    decreases attempt,
{
    if attempt > 0 {
        lemma_step_grows(base, (attempt - 1) as nat);
    }
    let current = exponential_step(base, attempt);
    if base >= 1 {
        assert(current * base >= current) by (nonlinear_arith)
            requires
                base >= 1,
                current >= 0,
        ;
    } else {
        assert(current * base == 0) by (nonlinear_arith)
            requires
                base == 0,
        ;
    }
}

proof fn lemma_step_monotonic(base: u64, earlier: nat, later: nat)
    requires
        earlier <= later,
    ensures
        exponential_step(base, earlier) <= exponential_step(base, later),
    decreases later,
{
    if earlier < later {
        lemma_step_monotonic(base, earlier, (later - 1) as nat);
        lemma_step_grows(base, (later - 1) as nat);
    }
}

/// Delays never shrink as attempts go on: whatever the policy, a later
/// attempt waits at least as long as an earlier one.
pub proof fn lemma_delay_monotonic(policy: BackoffPolicy, earlier: nat, later: nat)
    requires
        earlier <= later,
    ensures
        policy.delay(earlier) <= policy.delay(later),
{
    lemma_step_monotonic(policy.base_ms, earlier, later);
    let a = exponential_step(policy.base_ms, earlier);
    let b = exponential_step(policy.base_ms, later);
    let f = policy.factor;
    assert(a * f <= b * f) by (nonlinear_arith)
        requires
            a <= b,
            f >= 0,
    ;
}

/// No delay exceeds the policy's maximum.
pub proof fn lemma_delay_capped(policy: BackoffPolicy, attempt: nat)
    ensures
        policy.delay(attempt) <= policy.max_delay_ms,
{
}

/// A series of dials without a connection in between waits longer and
/// longer, and never longer than the maximum: the delay pending after a dial
/// is at least the delay that the dial itself was followed by. No retry is
/// due before its dial, and where the delay is not zero and time has not run
/// out, it is due strictly later.
pub proof fn lemma_backoff_grows_to_cap(policy: BackoffPolicy, cursor: BackoffCursor, now_ms: u64)
    ensures
        cursor.pending_delay(policy) <= cursor.advanced(policy, now_ms).pending_delay(policy),
        cursor.advanced(policy, now_ms).pending_delay(policy) <= policy.max_delay_ms,
        cursor.advanced(policy, now_ms).next_retry_ms >= now_ms,
        cursor.pending_delay(policy) > 0 && now_ms < u64::MAX ==> cursor.advanced(
            policy,
            now_ms,
        ).next_retry_ms > now_ms,
{
    lemma_delay_monotonic(
        policy,
        cursor.attempts as nat,
        cursor.advanced(policy, now_ms).attempts as nat,
    );
}

} // verus!
