//! Cadence control: two independent timers decide when to ask the server for
//! incremental and for full synchronisation.
use vstd::prelude::*;

use crate::protocol::OutboundRequest;

verus! {

/// Default period (ms) of incremental synchronisation.
pub const INCREMENTAL_PERIOD_MS: u64 = 300;

/// Default period (ms) of full synchronisation.
pub const FULL_PERIOD_MS: u64 = 3000;

/// Default widest period (ms) that backpressure can stretch incremental
/// synchronisation to.
pub const MAX_INCREMENTAL_PERIOD_MS: u64 = 2400;

/// Whether a timer last fired at `last` (never, if `None`) is due at `now`.
pub open spec fn is_due(last: Option<u64>, period_ms: u64, now_ms: u64) -> bool {
    match last {
        None => true,
        Some(l) => now_ms >= l + period_ms,
    }
}

/// A repeating timer, driven by the local clock the caller reads.
#[derive(Clone, Copy, Debug, PartialEq, Eq, Structural)]
pub struct Interval {
    pub period_ms: u64,
    /// When the timer last fired; `None` before its first firing.
    pub last_ms: Option<u64>,
}

impl Interval {
    /// A timer that first fires one period after `now_ms`.
    pub fn new(period_ms: u64, now_ms: u64) -> (r: Self)
        ensures
            r.period_ms == period_ms,
            r.last_ms == Some(now_ms),
    {
        Interval { period_ms, last_ms: Some(now_ms) }
    }

    /// A timer that fires at its first check.
    pub fn new_elapsed(period_ms: u64) -> (r: Self)
        ensures
            r.period_ms == period_ms,
            r.last_ms == None::<u64>,
    {
        Interval { period_ms, last_ms: None }
    }

    /// Fires when a period has passed since the last firing, and then
    /// restarts from `now_ms`.
    pub fn check(&mut self, now_ms: u64) -> (r: bool)
        ensures
            r == is_due(old(self).last_ms, old(self).period_ms, now_ms),
            final(self).period_ms == old(self).period_ms,
            final(self).last_ms == if r {
                Some(now_ms)
            } else {
                old(self).last_ms
            },
    {
        let due = match self.last_ms {
            None => true,
            Some(l) => now_ms >= l && now_ms - l >= self.period_ms,
        };
        if due {
            self.last_ms = Some(now_ms);
        }
        due
    }
}

/// Decides what to ask the server for, and when, and batches the local
/// commands produced between two incremental synchronisations.
pub struct CadenceController<C> {
    pub incremental: Interval,
    pub full: Interval,
    /// Local commands not yet sent, in the order produced.
    pub pending: Vec<C>,
    pub base_incremental_ms: u64,
    pub max_incremental_ms: u64,
    /// Whether backpressure was signalled since the last full synchronisation.
    pub throttled: bool,
}

/// The incremental period after a backpressure signal: doubled, up to `max`.
pub open spec fn widened(period: u64, max: u64) -> u64 {
    if 2 * period > max {
        max
    } else {
        (2 * period) as u64
    }
}

/// The incremental period after a quiet full-sync period: halved, down to `base`.
pub open spec fn narrowed(period: u64, base: u64) -> u64 {
    if period / 2 < base {
        base
    } else {
        (period / 2) as u64
    }
}

impl<C> CadenceController<C> {
    pub open spec fn wf(&self) -> bool {
        self.base_incremental_ms <= self.incremental.period_ms <= self.max_incremental_ms
    }

    /// A controller whose timers both start at `now_ms`.
    pub fn new(incremental_ms: u64, full_ms: u64, max_incremental_ms: u64, now_ms: u64) -> (r:
        Self)
        requires
            incremental_ms <= max_incremental_ms,
        ensures
            r.wf(),
            r.incremental == (Interval { period_ms: incremental_ms, last_ms: Some(now_ms) }),
            r.full == (Interval { period_ms: full_ms, last_ms: Some(now_ms) }),
            r.pending@.len() == 0,
            r.base_incremental_ms == incremental_ms,
            r.max_incremental_ms == max_incremental_ms,
            !r.throttled,
    {
        CadenceController {
            incremental: Interval::new(incremental_ms, now_ms),
            full: Interval::new(full_ms, now_ms),
            pending: Vec::new(),
            base_incremental_ms: incremental_ms,
            max_incremental_ms,
            throttled: false,
        }
    }

    /// Backpressure from the server: incremental synchronisation slows down.
    pub fn on_backpressure(&mut self)
        requires
            old(self).wf(),
        ensures
            final(self).wf(),
            final(self).incremental.period_ms == widened(
                old(self).incremental.period_ms,
                old(self).max_incremental_ms,
            ),
            final(self).incremental.last_ms == old(self).incremental.last_ms,
            final(self).full == old(self).full,
            final(self).pending@ == old(self).pending@,
            final(self).base_incremental_ms == old(self).base_incremental_ms,
            final(self).max_incremental_ms == old(self).max_incremental_ms,
            final(self).throttled,
    {
        let p = self.incremental.period_ms;
        if p > self.max_incremental_ms / 2 {
            self.incremental.period_ms = self.max_incremental_ms;
        } else {
            self.incremental.period_ms = 2 * p;
        }
        self.throttled = true;
    }

    /// The requests due at `now_ms`, in the order they are to be sent: when
    /// the incremental timer fires, the pending commands (if any) and a
    /// request for incremental synchronisation; when the full timer fires, a
    /// request for full synchronisation. A full period without backpressure
    /// lets the incremental period recover toward its base.
    pub fn poll(&mut self, now_ms: u64) -> (r: Vec<OutboundRequest<C>>)
        requires
            old(self).wf(),
        ensures
            final(self).wf(),
            ({
                let inc = is_due(
                    old(self).incremental.last_ms,
                    old(self).incremental.period_ms,
                    now_ms,
                );
                let full = is_due(old(self).full.last_ms, old(self).full.period_ms, now_ms);
                let cmds: int = if inc && old(self).pending@.len() > 0 {
                    1
                } else {
                    0
                };
                let sync: int = if inc {
                    1
                } else {
                    0
                };
                &&& r@.len() == cmds + sync + if full {
                    1int
                } else {
                    0
                }
                &&& cmds == 1 ==> (r@[0] is SubmitCommands && r@[0]->SubmitCommands_0@
                    == old(self).pending@)
                &&& inc ==> r@[cmds] is RequestIncrementalSync
                &&& full ==> r@[cmds + sync] is RequestFullSync
                &&& final(self).pending@ == if inc {
                    Seq::<C>::empty()
                } else {
                    old(self).pending@
                }
                &&& final(self).incremental.last_ms == if inc {
                    Some(now_ms)
                } else {
                    old(self).incremental.last_ms
                }
                &&& final(self).full.last_ms == if full {
                    Some(now_ms)
                } else {
                    old(self).full.last_ms
                }
                &&& final(self).full.period_ms == old(self).full.period_ms
                &&& final(self).incremental.period_ms == if full && !old(self).throttled {
                    narrowed(old(self).incremental.period_ms, old(self).base_incremental_ms)
                } else {
                    old(self).incremental.period_ms
                }
                &&& final(self).throttled == (old(self).throttled && !full)
                &&& final(self).base_incremental_ms == old(self).base_incremental_ms
                &&& final(self).max_incremental_ms == old(self).max_incremental_ms
            }),
    {
        let mut out: Vec<OutboundRequest<C>> = Vec::new();
        if self.incremental.check(now_ms) {
            if self.pending.len() > 0 {
                let mut batch: Vec<C> = Vec::new();
                std::mem::swap(&mut batch, &mut self.pending);
                out.push(OutboundRequest::SubmitCommands(batch));
            }
            out.push(OutboundRequest::RequestIncrementalSync);
        }
        if self.full.check(now_ms) {
            out.push(OutboundRequest::RequestFullSync);
            if !self.throttled {
                let half = self.incremental.period_ms / 2;
                self.incremental.period_ms = if half < self.base_incremental_ms {
                    self.base_incremental_ms
                } else {
                    half
                };
            }
            self.throttled = false;
        }
        out
    }
}

} // verus!
