//! Per-connection circuit breaker.
//!
//! A `Breaker` is a pure decision state machine: it does no I/O and never
//! reads a clock of its own. Every operation takes the current time in
//! milliseconds from the caller, which keeps the machine deterministic and
//! lets its whole behaviour be stated as spec-level transition functions.

use vstd::prelude::*;

verus! {

/// Configuration of one breaker: how many consecutive failures trip it,
/// how long it then denies requests, and how many probes may be
/// outstanding at once while it is trying to recover.
#[derive(Clone, Copy, Debug, PartialEq, Eq, Structural)]
pub struct BreakerConfig {
    /// Consecutive failures in `Closed` that trip the breaker.
    pub threshold: u32,
    /// How long, in milliseconds, `Open` denies before the first probe.
    pub cooldown_ms: u64,
    /// Bound on concurrently outstanding probes in `HalfOpen`.
    pub half_open_max: u32,
}

impl BreakerConfig {
    /// A configuration is meaningful only with a positive threshold and at
    /// least one permitted probe.
    pub open spec fn wf(self) -> bool {
        &&& self.threshold >= 1
        &&& self.half_open_max >= 1
    }
}

/// The three health states of a breaker.
#[derive(Clone, Copy, Debug, PartialEq, Eq, Structural)]
pub enum BreakerState {
    /// Requests flow; consecutive failures are being counted.
    Closed,
    /// Requests are denied until the cool-down has elapsed.
    Open,
    /// A bounded number of probe requests is admitted to test recovery.
    HalfOpen,
}

/// Per-connection health state machine.
///
/// Exactly one state holds at any instant; the state changes only through
/// `record` (an outcome was observed) or lazily through `allow` (the
/// cool-down elapsed and a probe is admitted).
#[derive(Clone, Copy, Debug, PartialEq, Eq, Structural)]
pub struct Breaker {
    pub state: BreakerState,
    /// Consecutive failures observed while `Closed`.
    pub failures: u32,
    /// Time of the most recent transition to `Open`, in milliseconds.
    pub opened_at_ms: u64,
    /// Outstanding probes while `HalfOpen`.
    pub probes: u32,
    pub config: BreakerConfig,
}

impl Breaker {
    /// Internal invariant, established by `new` and preserved by every
    /// operation.
    pub open spec fn wf(self) -> bool {
        &&& self.config.wf()
        &&& (self.state is Closed ==> self.failures < self.config.threshold)
        &&& (!(self.state is Closed) ==> self.failures == 0)
        &&& (self.state is HalfOpen ==> self.probes <= self.config.half_open_max)
        &&& (!(self.state is HalfOpen) ==> self.probes == 0)
    }

    /// Has the cool-down elapsed at time `now_ms` since the last trip?
    pub open spec fn cooled(self, now_ms: u64) -> bool {
        now_ms >= self.opened_at_ms && now_ms - self.opened_at_ms >= self.config.cooldown_ms
    }

    /// What `allow` returns: may a request be dispatched right now?
    pub open spec fn allows(self, now_ms: u64) -> bool {
        match self.state {
            BreakerState::Closed => true,
            BreakerState::Open => self.cooled(now_ms),
            BreakerState::HalfOpen => self.probes < self.config.half_open_max,
        }
    }

    /// The state after an `allow` check at time `now_ms`.
    pub open spec fn allow_step(self, now_ms: u64) -> Breaker {
        match self.state {
            BreakerState::Closed => self,
            BreakerState::Open => if self.cooled(now_ms) {
                Breaker { state: BreakerState::HalfOpen, probes: 1, ..self }
            } else {
                self
            },
            BreakerState::HalfOpen => if self.probes < self.config.half_open_max {
                Breaker { probes: (self.probes + 1) as u32, ..self }
            } else {
                self
            },
        }
    }

    /// The state after recording a completed request's outcome at `now_ms`.
    ///
    /// An outcome that arrives while `Open` belongs to a request admitted
    /// before the trip; it is ignored.
    pub open spec fn record_step(self, success: bool, now_ms: u64) -> Breaker {
        match self.state {
            BreakerState::Closed => if success {
                Breaker { failures: 0, ..self }
            } else if self.failures + 1 >= self.config.threshold {
                Breaker { state: BreakerState::Open, failures: 0, opened_at_ms: now_ms, ..self }
            } else {
                Breaker { failures: (self.failures + 1) as u32, ..self }
            },
            BreakerState::Open => self,
            BreakerState::HalfOpen => if success {
                Breaker { state: BreakerState::Closed, failures: 0, probes: 0, ..self }
            } else {
                Breaker {
                    state: BreakerState::Open,
                    failures: 0,
                    probes: 0,
                    opened_at_ms: now_ms,
                    ..self
                }
            },
        }
    }

    /// A fresh breaker: `Closed`, no failures, no probes.
    pub fn new(config: BreakerConfig) -> (r: Breaker)
        requires
            config.wf(),
        ensures
            r.wf(),
            r.state is Closed,
            r.failures == 0,
            r.probes == 0,
            r.opened_at_ms == 0,
            r.config == config,
    {
        Breaker {
            state: BreakerState::Closed,
            failures: 0,
            opened_at_ms: 0,
            probes: 0,
            config,
        }
    }

    /// May a new request be dispatched on this connection right now?
    ///
    /// Lazy recovery happens here: the first check after the cool-down
    /// elapses moves `Open` to `HalfOpen` and admits exactly that probe;
    /// further probes are admitted only up to the configured bound.
    /// Whenever the answer is `false` the breaker is left unchanged.
    pub fn allow(&mut self, now_ms: u64) -> (r: bool)
        requires
            old(self).wf(),
        ensures
            r == old(self).allows(now_ms),
            *final(self) == old(self).allow_step(now_ms),
            final(self).wf(),
    {
        match self.state {
            BreakerState::Closed => true,
            BreakerState::Open => {
                if now_ms >= self.opened_at_ms && now_ms - self.opened_at_ms >= self.config.cooldown_ms {
                    self.state = BreakerState::HalfOpen;
                    self.probes = 1;
                    true
                } else {
                    false
                }
            },
            BreakerState::HalfOpen => {
                if self.probes < self.config.half_open_max {
                    self.probes = self.probes + 1;
                    true
                } else {
                    false
                }
            },
        }
    }

    /// Read-only twin of `allow`: would a request be admitted right now?
    ///
    /// Selection uses this to filter candidates without consuming a probe
    /// or moving the machine; only the finally chosen connection's breaker
    /// takes the `allow` step.
    pub fn check_allow(&self, now_ms: u64) -> (r: bool)
        ensures
            r == self.allows(now_ms),
    {
        match self.state {
            BreakerState::Closed => true,
            BreakerState::Open => now_ms >= self.opened_at_ms && now_ms - self.opened_at_ms
                >= self.config.cooldown_ms,
            BreakerState::HalfOpen => self.probes < self.config.half_open_max,
        }
    }

    /// Record the outcome of one completed request attempt.
    ///
    /// Callers invoke this exactly once per completed attempt; the breaker
    /// itself performs no I/O.
    pub fn record(&mut self, success: bool, now_ms: u64)
        requires
            old(self).wf(),
        ensures
            *final(self) == old(self).record_step(success, now_ms),
            final(self).wf(),
    {
        match self.state {
            BreakerState::Closed => {
                if success {
                    self.failures = 0;
                } else if self.failures + 1 >= self.config.threshold {
                    self.state = BreakerState::Open;
                    self.failures = 0;
                    self.opened_at_ms = now_ms;
                } else {
                    self.failures = self.failures + 1;
                }
            },
            BreakerState::Open => {},
            BreakerState::HalfOpen => {
                if success {
                    self.state = BreakerState::Closed;
                    self.failures = 0;
                    self.probes = 0;
                } else {
                    self.state = BreakerState::Open;
                    self.failures = 0;
                    self.probes = 0;
                    self.opened_at_ms = now_ms;
                }
            },
        }
    }
}

/// The breaker after `n` consecutive failures are recorded at time `now_ms`.
pub open spec fn record_failures(b: Breaker, n: nat, now_ms: u64) -> Breaker
    decreases n,
{
    if n == 0 {
        b
    } else {
        record_failures(b, (n - 1) as nat, now_ms).record_step(false, now_ms)
    }
}

/// While the count stays below the threshold, consecutive failures only
/// accumulate: the breaker stays `Closed` and counts them.
pub proof fn lemma_failures_accumulate(b: Breaker, n: nat, now_ms: u64)
    requires
        b.wf(),
        b.state is Closed,
        b.failures + n < b.config.threshold,
    ensures
        record_failures(b, n, now_ms) == (Breaker { failures: (b.failures + n) as u32, ..b }),
    decreases n,
{
    if n == 0 {
        assert(record_failures(b, 0, now_ms) == b);
        assert(b == (Breaker { failures: b.failures, ..b }));
    } else {
        lemma_failures_accumulate(b, (n - 1) as nat, now_ms);
    }
}

/// Law: from `Closed`, the threshold-th consecutive failure trips the
/// breaker at the time of that failure, and the breaker then denies every
/// request until the cool-down has elapsed; once it has elapsed, a probe is
/// admitted again.
pub proof fn lemma_failures_trip_breaker(b: Breaker, n: nat, now_ms: u64)
    requires
        b.wf(),
        b.state is Closed,
        n >= 1,
        b.failures + n == b.config.threshold,
    ensures
        record_failures(b, n, now_ms).state is Open,
        record_failures(b, n, now_ms).opened_at_ms == now_ms,
        record_failures(b, n, now_ms).wf(),
        forall|t: u64|
            t < now_ms + b.config.cooldown_ms ==> !record_failures(b, n, now_ms).allows(t),
        forall|t: u64|
            t >= now_ms + b.config.cooldown_ms ==> record_failures(b, n, now_ms).allows(t),
{
    lemma_failures_accumulate(b, (n - 1) as nat, now_ms);
    let before = record_failures(b, (n - 1) as nat, now_ms);
    assert(before.failures + 1 == b.config.threshold);
    let tripped = record_failures(b, n, now_ms);
    assert(tripped == before.record_step(false, now_ms));
    assert forall|t: u64| t < now_ms + b.config.cooldown_ms implies !tripped.allows(t) by {
        assert(!tripped.cooled(t));
    }
}

/// Law: once the cool-down has elapsed after a trip and the probe bound is
/// one, exactly one probe is admitted: the first `allow` returns true and
/// moves the breaker to `HalfOpen`, and every further `allow` is denied and
/// changes nothing, until the probe's outcome is recorded.
pub proof fn lemma_single_probe(b: Breaker, now_ms: u64)
    requires
        b.wf(),
        b.state is Open,
        b.cooled(now_ms),
        b.config.half_open_max == 1,
    ensures
        b.allows(now_ms),
        b.allow_step(now_ms).state is HalfOpen,
        b.allow_step(now_ms).wf(),
        forall|t: u64| !b.allow_step(now_ms).allows(t),
        forall|t: u64| b.allow_step(now_ms).allow_step(t) == b.allow_step(now_ms),
{
}

/// Law: in `HalfOpen`, a successful outcome clears the failure count and
/// closes the breaker, so requests flow again at any time; a failed outcome
/// re-opens it and restarts the cool-down from the failure's time.
pub proof fn lemma_half_open_outcome(b: Breaker, now_ms: u64)
    requires
        b.wf(),
        b.state is HalfOpen,
    ensures
        b.record_step(true, now_ms).state is Closed,
        b.record_step(true, now_ms).failures == 0,
        forall|t: u64| b.record_step(true, now_ms).allows(t),
        b.record_step(false, now_ms).state is Open,
        b.record_step(false, now_ms).opened_at_ms == now_ms,
        forall|t: u64|
            t < now_ms + b.config.cooldown_ms ==> !b.record_step(false, now_ms).allows(t),
{
    assert forall|t: u64| t < now_ms + b.config.cooldown_ms implies !b.record_step(
        false,
        now_ms,
    ).allows(t) by {
        assert(!b.record_step(false, now_ms).cooled(t));
    }
}

/// An `allow` that answers `false` changes nothing: denial has no
/// side effect on the machine.
pub proof fn lemma_deny_is_stutter(b: Breaker, now_ms: u64)
    requires
        !b.allows(now_ms),
    ensures
        b.allow_step(now_ms) == b,
{
}

} // verus!
