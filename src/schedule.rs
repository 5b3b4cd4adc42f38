//! Round-robin order of probing: every endpoint once, in configured order,
//! then a pause of the configured interval, forever.
use vstd::prelude::*;

verus! {

/// Pause after each endpoint's probe and uploads, in milliseconds.
pub const PACING_MS: u64 = 5_000;

/// Pause between an inclusion upload and the finalization upload that
/// follows it, in milliseconds.
pub const SETTLE_MS: u64 = 5_000;

/// What the scheduler asks for next.
#[derive(Clone, Copy, Debug, PartialEq, Eq, Structural)]
pub enum Tick {
    /// Probe the endpoint at this position, upload its timings, then pause
    /// for [`PACING_MS`].
    Probe { endpoint: usize },
    /// The round is complete: sleep this long before the next one.
    RoundPause { ms: u64 },
}

#[derive(Clone, Copy, Debug, PartialEq, Eq, Structural)]
pub struct RoundRobin {
    /// Number of configured endpoints.
    pub len: usize,
    /// Position of the next endpoint to probe; `len` once the round is done.
    pub next: usize,
    /// Pause between rounds, in seconds.
    pub interval_sec: u32,
}

impl RoundRobin {
    pub open spec fn wf(self) -> bool {
        self.next <= self.len
    }

    /// The tick that follows `self`, and the state after it.
    pub open spec fn after(self) -> (RoundRobin, Tick) {
        if self.next < self.len {
            (RoundRobin { next: (self.next + 1) as usize, ..self }, Tick::Probe { endpoint: self.next })
        } else {
            (
                RoundRobin { next: 0, ..self },
                Tick::RoundPause { ms: (self.interval_sec * 1000) as u64 },
            )
        }
    }

    pub fn new(len: usize, interval_sec: u32) -> (r: RoundRobin)
        ensures
            r.wf(),
            r == (RoundRobin { len, next: 0, interval_sec }),
    {
        RoundRobin { len, next: 0, interval_sec }
    }

    /// The next step: the next endpoint of the round, or the pause that
    /// ends the round and starts the next one from the first endpoint.
    pub fn advance(&mut self) -> (t: Tick)
        requires
            old(self).wf(),
        ensures
            final(self).wf(),
            (*final(self), t) == old(self).after(),
    {
        if self.next < self.len {
            let endpoint = self.next;
            self.next = self.next + 1;
            Tick::Probe { endpoint }
        } else {
            self.next = 0;
            Tick::RoundPause { ms: self.interval_sec as u64 * 1000 }
        }
    }
}

/// The state reached after `k` ticks.
pub open spec fn advanced(r: RoundRobin, k: nat) -> RoundRobin
    decreases k,
{
    if k == 0 {
        r
    } else {
        advanced(r, (k - 1) as nat).after().0
    }
}

/// From the start of a round, tick `k` probes endpoint `k` while
/// `k < len`; tick `len` is the pause of the configured interval, after
/// which the next round starts again from the first endpoint.
pub proof fn round_visits_in_order(r: RoundRobin, k: nat)
    requires
        r.next == 0,
        k <= r.len,
    ensures
        k < r.len ==> advanced(r, k).after().1 == (Tick::Probe { endpoint: k as usize }),
        k == r.len ==> advanced(r, k).after().1 == (Tick::RoundPause {
            ms: (r.interval_sec * 1000) as u64,
        }),
        k == r.len ==> advanced(r, k + 1) == r,
{
    lemma_advanced_position(r, k);
}

proof fn lemma_advanced_position(r: RoundRobin, k: nat)
    requires
        r.next == 0,
        k <= r.len,
    ensures
        advanced(r, k) == (RoundRobin { next: k as usize, ..r }),
    decreases k,
{
    if k > 0 {
        lemma_advanced_position(r, (k - 1) as nat);
    }
}

} // verus!
