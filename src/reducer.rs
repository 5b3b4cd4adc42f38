//! Reduction of the status events of one watched submission to its timings.
//!
//! Each event arrives with the milliseconds elapsed since the submission, as
//! measured by the caller's monotonic clock. The reducer records when the
//! transaction first entered a best block and when it was finalized, and
//! when the stream closes it turns what it saw into a [`TxTiming`] or a
//! [`ProbeError`].
use vstd::prelude::*;

verus! {

/// Duration substituted for a measurement that a degraded stream will never
/// deliver, in milliseconds.
pub const SENTINEL_MS: u64 = 60_000;

/// A status reported by the ledger client for a watched transaction.
#[derive(Clone, Copy, Debug, PartialEq, Eq, Structural)]
pub enum StatusEvent {
    Validated,
    Broadcasted,
    IncludedInBestBlock,
    NoLongerInBestBlock,
    FinalizedInBlock,
    /// Any other status: the stream is not behaving as expected.
    Unexpected,
}

/// A status event with the milliseconds elapsed since submission when it
/// arrived.
#[derive(Clone, Copy, Debug, PartialEq, Eq, Structural)]
pub struct Observed {
    pub status: StatusEvent,
    pub elapsed_ms: u64,
}

/// How the reducer treats a degraded or incomplete stream.
#[derive(Clone, Copy, Debug, PartialEq, Eq, Structural)]
pub struct ReducerPolicy {
    /// On an unexpected status, fill every missing duration with
    /// [`SENTINEL_MS`].
    pub backfill_unexpected: bool,
    /// When the stream closes after inclusion without finalization, report
    /// the inclusion duration as the finalization duration.
    pub finalization_fallback: bool,
}

impl ReducerPolicy {
    /// Backfills on unexpected statuses; a missing finalization is an error.
    pub fn hardened() -> (r: ReducerPolicy)
        ensures
            r.backfill_unexpected,
            !r.finalization_fallback,
    {
        ReducerPolicy { backfill_unexpected: true, finalization_fallback: false }
    }
}

/// What the reducer has recorded so far.
#[derive(Clone, Copy, Debug, PartialEq, Eq, Structural)]
pub struct ReductionState {
    pub inclusion_ms: Option<u64>,
    pub finalization_ms: Option<u64>,
    /// The inclusion duration is the sentinel rather than a measurement.
    pub inclusion_backfilled: bool,
    /// The finalization duration is the sentinel rather than a measurement.
    pub finalization_backfilled: bool,
}

impl ReductionState {
    pub open spec fn initial() -> ReductionState {
        ReductionState {
            inclusion_ms: None,
            finalization_ms: None,
            inclusion_backfilled: false,
            finalization_backfilled: false,
        }
    }

    /// The state after one more event.
    pub open spec fn next(self, policy: ReducerPolicy, ev: Observed) -> ReductionState {
        match ev.status {
            StatusEvent::IncludedInBestBlock => if self.inclusion_ms is Some {
                self
            } else {
                ReductionState { inclusion_ms: Some(ev.elapsed_ms), ..self }
            },
            StatusEvent::FinalizedInBlock => ReductionState {
                finalization_ms: Some(ev.elapsed_ms),
                finalization_backfilled: false,
                ..self
            },
            StatusEvent::Unexpected => if policy.backfill_unexpected {
                ReductionState {
                    inclusion_ms: Some(self.inclusion_ms.unwrap_or(SENTINEL_MS)),
                    finalization_ms: Some(self.finalization_ms.unwrap_or(SENTINEL_MS)),
                    inclusion_backfilled: self.inclusion_backfilled || self.inclusion_ms is None,
                    finalization_backfilled: self.finalization_backfilled
                        || self.finalization_ms is None,
                }
            } else {
                self
            },
            _ => self,
        }
    }
}

/// The state after a whole sequence of events, from the initial state.
pub open spec fn reduce(policy: ReducerPolicy, events: Seq<Observed>) -> ReductionState
    decreases events.len(),
{
    if events.len() == 0 {
        ReductionState::initial()
    } else {
        reduce(policy, events.drop_last()).next(policy, events.last())
    }
}

/// The timings of one probe.
#[derive(Clone, Copy, Debug, PartialEq, Eq, Structural)]
pub struct TxTiming {
    /// Wall-clock time of submission, in milliseconds since the Unix epoch.
    pub when: i64,
    pub inclusion_ms: u64,
    pub finalization_ms: u64,
    /// At least one duration is a substitute (the sentinel, or the other
    /// duration) rather than a measurement.
    pub approximated: bool,
}

#[derive(Clone, Copy, Debug, PartialEq, Eq, Structural)]
pub enum ProbeError {
    /// The stream closed before the transaction entered a best block.
    NotIncluded,
    /// The stream closed before the transaction was finalized.
    NotFinalized,
}

impl ProbeError {
    pub fn message(&self) -> (r: String)
        ensures
            *self == ProbeError::NotIncluded ==> r@ == "Not included"@,
            *self == ProbeError::NotFinalized ==> r@ == "Not finalized"@,
    {
        match self {
            ProbeError::NotIncluded => String::from_str("Not included"),
            ProbeError::NotFinalized => String::from_str("Not finalized"),
        }
    }
}

/// The result for a closed stream whose events left `s`. Without an
/// inclusion (measured or backfilled) the transaction was not included; a
/// missing finalization is taken from the inclusion only under the fallback
/// policy, and such timings are marked as approximated.
pub open spec fn outcome(policy: ReducerPolicy, s: ReductionState, when: i64) -> Result<
    TxTiming,
    ProbeError,
> {
    match (s.inclusion_ms, s.finalization_ms) {
        (None, _) => Err(ProbeError::NotIncluded),
        (Some(i), Some(f)) => Ok(
            TxTiming {
                when,
                inclusion_ms: i,
                finalization_ms: f,
                approximated: s.inclusion_backfilled || s.finalization_backfilled,
            },
        ),
        (Some(i), None) => if policy.finalization_fallback {
            Ok(TxTiming { when, inclusion_ms: i, finalization_ms: i, approximated: true })
        } else {
            Err(ProbeError::NotFinalized)
        },
    }
}

/// Reduces the status stream of one watched submission.
#[derive(Clone, Copy, Debug, PartialEq, Eq, Structural)]
pub struct Reducer {
    pub policy: ReducerPolicy,
    pub state: ReductionState,
}

impl Reducer {
    pub fn new(policy: ReducerPolicy) -> (r: Reducer)
        ensures
            r.policy == policy,
            r.state == ReductionState::initial(),
    {
        Reducer {
            policy,
            state: ReductionState {
                inclusion_ms: None,
                finalization_ms: None,
                inclusion_backfilled: false,
                finalization_backfilled: false,
            },
        }
    }

    /// Takes one event into account. A repeated inclusion (a reorganisation)
    /// never overwrites the first one; every finalization is recorded.
    pub fn observe(&mut self, ev: Observed)
        ensures
            final(self).policy == old(self).policy,
            final(self).state == old(self).state.next(old(self).policy, ev),
    {
        match ev.status {
            StatusEvent::IncludedInBestBlock => {
                if self.state.inclusion_ms.is_none() {
                    self.state.inclusion_ms = Some(ev.elapsed_ms);
                }
            },
            StatusEvent::FinalizedInBlock => {
                self.state.finalization_ms = Some(ev.elapsed_ms);
                self.state.finalization_backfilled = false;
            },
            StatusEvent::Unexpected => {
                if self.policy.backfill_unexpected {
                    if self.state.inclusion_ms.is_none() {
                        self.state.inclusion_ms = Some(SENTINEL_MS);
                        self.state.inclusion_backfilled = true;
                    }
                    if self.state.finalization_ms.is_none() {
                        self.state.finalization_ms = Some(SENTINEL_MS);
                        self.state.finalization_backfilled = true;
                    }
                }
            },
            _ => {},
        }
    }

    /// Resolves the closed stream into timings stamped with `when`.
    pub fn finish(&self, when: i64) -> (r: Result<TxTiming, ProbeError>)
        ensures
            r == outcome(self.policy, self.state, when),
    {
        match (self.state.inclusion_ms, self.state.finalization_ms) {
            (None, _) => Err(ProbeError::NotIncluded),
            (Some(i), Some(f)) => Ok(
                TxTiming {
                    when,
                    inclusion_ms: i,
                    finalization_ms: f,
                    approximated: self.state.inclusion_backfilled
                        || self.state.finalization_backfilled,
                },
            ),
            (Some(i), None) => {
                if self.policy.finalization_fallback {
                    Ok(TxTiming { when, inclusion_ms: i, finalization_ms: i, approximated: true })
                } else {
                    Err(ProbeError::NotFinalized)
                }
            },
        }
    }
}

/// Reduces a whole recorded stream and resolves it.
pub fn reduce_events(policy: ReducerPolicy, events: &Vec<Observed>, when: i64) -> (r: Result<
    TxTiming,
    ProbeError,
>)
    ensures
        r == outcome(policy, reduce(policy, events@), when),
{
    let mut reducer = Reducer::new(policy);
    let mut i: usize = 0;
    while i < events.len()
        invariant
            i <= events@.len(),
            reducer.policy == policy,
            reducer.state == reduce(policy, events@.take(i as int)),
        decreases events@.len() - i,
    {
        assert(events@.take(i + 1).drop_last() == events@.take(i as int));
        reducer.observe(events[i]);
        i = i + 1;
    }
    assert(events@.take(i as int) == events@);
    reducer.finish(when)
}

proof fn lemma_reduce_step(policy: ReducerPolicy, events: Seq<Observed>, n: int)
    requires
        0 < n <= events.len(),
    ensures
        reduce(policy, events.take(n)) == reduce(policy, events.take(n - 1)).next(
            policy,
            events[n - 1],
        ),
{
    assert(events.take(n).drop_last() == events.take(n - 1));
}

proof fn lemma_single_pair_prefix(
    policy: ReducerPolicy,
    events: Seq<Observed>,
    a: int,
    b: int,
    n: int,
)
    requires
        0 <= a < b < events.len(),
        0 <= n <= events.len(),
        events[a].status == StatusEvent::IncludedInBestBlock,
        events[b].status == StatusEvent::FinalizedInBlock,
        forall|k: int|
            0 <= k < events.len() && k != a ==> events[k].status
                != StatusEvent::IncludedInBestBlock,
        forall|k: int|
            0 <= k < events.len() && k != b ==> events[k].status != StatusEvent::FinalizedInBlock,
        policy.backfill_unexpected ==> forall|k: int|
            0 <= k < a ==> events[k].status != StatusEvent::Unexpected,
    ensures
        ({
            let s = reduce(policy, events.take(n));
            &&& n <= a ==> s == ReductionState::initial()
            &&& n > a ==> s.inclusion_ms == Some(events[a].elapsed_ms) && !s.inclusion_backfilled
            &&& n > b ==> s.finalization_ms == Some(events[b].elapsed_ms)
                && !s.finalization_backfilled
        }),
    decreases n,
{
    if n > 0 {
        lemma_single_pair_prefix(policy, events, a, b, n - 1);
        lemma_reduce_step(policy, events, n);
    } else {
        assert(events.take(0) =~= Seq::<Observed>::empty());
    }
}

/// A stream with exactly one inclusion followed later by exactly one
/// finalization, stamped by a clock that never runs backwards, resolves to
/// the two measured durations, and the finalization duration is at least the
/// inclusion duration. Under the backfill policy this needs that no
/// unexpected status precedes the inclusion: the sentinel would take the
/// inclusion's place.
pub proof fn inclusion_then_finalization(
    policy: ReducerPolicy,
    events: Seq<Observed>,
    a: int,
    b: int,
    when: i64,
)
    requires
        0 <= a < b < events.len(),
        events[a].status == StatusEvent::IncludedInBestBlock,
        events[b].status == StatusEvent::FinalizedInBlock,
        forall|k: int|
            0 <= k < events.len() && k != a ==> events[k].status
                != StatusEvent::IncludedInBestBlock,
        forall|k: int|
            0 <= k < events.len() && k != b ==> events[k].status != StatusEvent::FinalizedInBlock,
        forall|j: int, k: int|
            0 <= j <= k < events.len() ==> events[j].elapsed_ms <= events[k].elapsed_ms,
        policy.backfill_unexpected ==> forall|k: int|
            0 <= k < a ==> events[k].status != StatusEvent::Unexpected,
    ensures
        outcome(policy, reduce(policy, events), when) == Ok::<TxTiming, ProbeError>(
            TxTiming {
                when,
                inclusion_ms: events[a].elapsed_ms,
                finalization_ms: events[b].elapsed_ms,
                approximated: false,
            },
        ),
        0 <= events[a].elapsed_ms <= events[b].elapsed_ms,
{
    lemma_single_pair_prefix(policy, events, a, b, events.len() as int);
    assert(events.take(events.len() as int) == events);
}

proof fn lemma_inserted_inclusion(
    policy: ReducerPolicy,
    events: Seq<Observed>,
    at: int,
    elapsed_ms: u64,
    n: int,
)
    requires
        0 <= at <= n <= events.len(),
        reduce(policy, events.take(at)).inclusion_ms is Some,
    ensures
        reduce(
            policy,
            events.insert(at, Observed { status: StatusEvent::IncludedInBestBlock, elapsed_ms }).take(
                n + 1,
            ),
        ) == reduce(policy, events.take(n)),
    decreases n - at,
{
    let dup = Observed { status: StatusEvent::IncludedInBestBlock, elapsed_ms };
    let inserted = events.insert(at, dup);
    if n == at {
        assert(inserted.take(n + 1).drop_last() == events.take(at));
        assert(inserted.take(n + 1).last() == dup);
    } else {
        lemma_inserted_inclusion(policy, events, at, elapsed_ms, n - 1);
        assert(inserted.take(n + 1).drop_last() == inserted.take(n));
        assert(inserted.take(n + 1).last() == events[n - 1]);
        lemma_reduce_step(policy, events, n);
    }
}

/// An inclusion reported again, at any point after one has been recorded
/// (a reorganisation), leaves the reduction of the whole stream unchanged,
/// and with it the recorded inclusion duration.
pub proof fn repeated_inclusion_kept(
    policy: ReducerPolicy,
    events: Seq<Observed>,
    at: int,
    elapsed_ms: u64,
)
    requires
        0 <= at <= events.len(),
        reduce(policy, events.take(at)).inclusion_ms is Some,
    ensures
        reduce(
            policy,
            events.insert(at, Observed { status: StatusEvent::IncludedInBestBlock, elapsed_ms }),
        ) == reduce(policy, events),
{
    let dup = Observed { status: StatusEvent::IncludedInBestBlock, elapsed_ms };
    let inserted = events.insert(at, dup);
    lemma_inserted_inclusion(policy, events, at, elapsed_ms, events.len() as int);
    assert(inserted.take(events.len() + 1 as int) == inserted);
    assert(events.take(events.len() as int) == events);
}

proof fn lemma_unfinalized_prefix(policy: ReducerPolicy, events: Seq<Observed>, n: int)
    requires
        0 <= n <= events.len(),
        forall|k: int| 0 <= k < events.len() ==> events[k].status != StatusEvent::FinalizedInBlock,
        policy.backfill_unexpected ==> forall|k: int|
            0 <= k < events.len() ==> events[k].status != StatusEvent::Unexpected,
    ensures
        ({
            let s = reduce(policy, events.take(n));
            &&& s.finalization_ms is None
            &&& !s.inclusion_backfilled
            &&& (s.inclusion_ms is Some <==> exists|k: int|
                0 <= k < n && events[k].status == StatusEvent::IncludedInBestBlock)
        }),
    decreases n,
{
    if n > 0 {
        lemma_unfinalized_prefix(policy, events, n - 1);
        lemma_reduce_step(policy, events, n);
        if events[n - 1].status == StatusEvent::IncludedInBestBlock {
            assert(exists|k: int|
                0 <= k < n && events[k].status == StatusEvent::IncludedInBestBlock);
        }
        if exists|k: int| 0 <= k < n && events[k].status == StatusEvent::IncludedInBestBlock {
            let k = choose|k: int|
                0 <= k < n && events[k].status == StatusEvent::IncludedInBestBlock;
            if k < n - 1 {
                assert(exists|j: int|
                    0 <= j < n - 1 && events[j].status == StatusEvent::IncludedInBestBlock);
            }
        }
    } else {
        assert(events.take(0) =~= Seq::<Observed>::empty());
    }
}

/// A stream that closes after an inclusion but without a finalization, and
/// without an unexpected status that the backfill policy would act on, ends
/// in a "not finalized" error; under the fallback policy it yields instead
/// the inclusion duration for both, marked as approximated.
pub proof fn unfinalized_stream(policy: ReducerPolicy, events: Seq<Observed>, when: i64)
    requires
        exists|k: int| 0 <= k < events.len() && events[k].status == StatusEvent::IncludedInBestBlock,
        forall|k: int| 0 <= k < events.len() ==> events[k].status != StatusEvent::FinalizedInBlock,
        policy.backfill_unexpected ==> forall|k: int|
            0 <= k < events.len() ==> events[k].status != StatusEvent::Unexpected,
    ensures
        !policy.finalization_fallback ==> outcome(policy, reduce(policy, events), when) == Err::<
            TxTiming,
            ProbeError,
        >(ProbeError::NotFinalized),
        policy.finalization_fallback ==> ({
            let r = outcome(policy, reduce(policy, events), when);
            &&& r is Ok
            &&& r->Ok_0.inclusion_ms == reduce(policy, events).inclusion_ms->Some_0
            &&& r->Ok_0.finalization_ms == r->Ok_0.inclusion_ms
            &&& r->Ok_0.approximated
        }),
{
    lemma_unfinalized_prefix(policy, events, events.len() as int);
    assert(events.take(events.len() as int) == events);
}

proof fn lemma_backfilled_prefix(policy: ReducerPolicy, events: Seq<Observed>, u: int, n: int)
    requires
        policy.backfill_unexpected,
        0 <= u < events.len(),
        0 <= n <= events.len(),
        events[u].status == StatusEvent::Unexpected,
        forall|k: int| 0 <= k < events.len() ==> events[k].status != StatusEvent::FinalizedInBlock,
    ensures
        ({
            let s = reduce(policy, events.take(n));
            &&& s.finalization_ms is Some ==> s.finalization_ms == Some(SENTINEL_MS)
                && s.finalization_backfilled && s.inclusion_ms is Some
            &&& n > u ==> s.finalization_ms is Some
        }),
    decreases n,
{
    if n > 0 {
        lemma_backfilled_prefix(policy, events, u, n - 1);
        lemma_reduce_step(policy, events, n);
    } else {
        assert(events.take(0) =~= Seq::<Observed>::empty());
    }
}

/// Under the backfill policy, a stream that reports an unexpected status
/// and never a finalization still resolves: its finalization duration is
/// the sentinel and the timings are marked as approximated.
pub proof fn unexpected_status_backfills(
    policy: ReducerPolicy,
    events: Seq<Observed>,
    u: int,
    when: i64,
)
    requires
        policy.backfill_unexpected,
        0 <= u < events.len(),
        events[u].status == StatusEvent::Unexpected,
        forall|k: int| 0 <= k < events.len() ==> events[k].status != StatusEvent::FinalizedInBlock,
    ensures
        ({
            let r = outcome(policy, reduce(policy, events), when);
            &&& r is Ok
            &&& r->Ok_0.finalization_ms == SENTINEL_MS
            &&& r->Ok_0.approximated
        }),
{
    lemma_backfilled_prefix(policy, events, u, events.len() as int);
    assert(events.take(events.len() as int) == events);
}

/// A stream that closes without any event ends in a "not included" error.
pub proof fn empty_stream_not_included(policy: ReducerPolicy, when: i64)
    ensures
        outcome(policy, reduce(policy, Seq::empty()), when) == Err::<TxTiming, ProbeError>(
            ProbeError::NotIncluded,
        ),
{
}

} // verus!
