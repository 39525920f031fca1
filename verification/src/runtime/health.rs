//! The dispatch heartbeat and the staleness check on it.

use vstd::prelude::*;

verus! {

/// The last heartbeat of the dispatch loop and whether it is overdue.
pub struct Heartbeat {
    pub last_heartbeat_ms: u64,
    pub degraded: bool,
}

/// Whether a heartbeat at `last` is stale at `now`: more than `stale_ms`
/// have passed (a clock that went back counts as no time).
pub open spec fn is_stale(last: u64, now: u64, stale_ms: u64) -> bool {
    if now >= last {
        now - last > stale_ms
    } else {
        false
    }
}

impl Heartbeat {
    pub fn new() -> (h: Self)
        ensures
            h.last_heartbeat_ms == 0,
            !h.degraded,
    {
        Heartbeat { last_heartbeat_ms: 0, degraded: false }
    }

    /// Records a heartbeat at `now_ms`.
    pub fn touch_at(&mut self, now_ms: u64)
        ensures
            final(self).last_heartbeat_ms == now_ms,
            !final(self).degraded,
    {
        self.last_heartbeat_ms = now_ms;
        self.degraded = false;
    }

    /// Marks the heartbeat degraded when it is stale at `now_ms`, and says
    /// whether it is; before the first heartbeat nothing is stale.
    pub fn evaluate_at(&mut self, now_ms: u64, stale_ms: u64) -> (stale: bool)
        ensures
            old(self).last_heartbeat_ms == 0 ==> !stale && *final(self) == *old(self),
            old(self).last_heartbeat_ms != 0 ==> stale == is_stale(
                old(self).last_heartbeat_ms,
                now_ms,
                stale_ms,
            ) && final(self).degraded == stale && final(self).last_heartbeat_ms == old(
                self,
            ).last_heartbeat_ms,
    {
        if self.last_heartbeat_ms == 0 {
            return false;
        }
        let stale = now_ms.saturating_sub(self.last_heartbeat_ms) > stale_ms;
        self.degraded = stale;
        stale
    }
}

/// A heartbeat just recorded is never stale.
pub proof fn law_fresh_heartbeat_not_stale(now: u64, stale_ms: u64)
    ensures
        !is_stale(now, now, stale_ms),
{
}

} // verus!
