//! Decisions of the single-owner inference batcher. One owner thread serves
//! single-position requests from a bounded queue, coalescing them into
//! batches. The owner's loop (queue waits, the model call, sending replies)
//! runs outside; it asks this module what to do after each wait, which reply
//! each request of a batch gets, and how the counters move. Every request
//! receives exactly one reply: a result or an error.

use vstd::prelude::*;

use crate::evaluator::EvalError;

verus! {

/// What waiting for the first request of a batch produced.
#[derive(Debug, Clone, Copy, PartialEq, Eq, Structural)]
pub enum IdleEvent {
    /// A request arrived.
    Request,
    /// The idle poll interval passed without a request.
    TimedOut,
    /// Every sender is gone.
    Disconnected,
}

/// What the owner does next.
#[derive(Debug, Clone, Copy, PartialEq, Eq, Structural)]
pub enum IdleStep {
    /// Collect a batch starting with the request that arrived.
    Serve,
    /// Wait again.
    KeepWaiting,
    /// Answer the request that arrived with `Shutdown`, answer everything
    /// still queued with `Shutdown`, and stop.
    RefuseAndStop,
    /// Answer everything still queued with `Shutdown` and stop.
    Stop,
}

/// The owner's step after an idle wait, given whether shutdown was requested.
pub fn on_idle(event: IdleEvent, cancelled: bool) -> (r: IdleStep)
    ensures
        r == (match event {
            IdleEvent::Request => if cancelled { IdleStep::RefuseAndStop } else { IdleStep::Serve },
            IdleEvent::TimedOut => if cancelled { IdleStep::Stop } else { IdleStep::KeepWaiting },
            IdleEvent::Disconnected => IdleStep::Stop,
        }),
{
    match event {
        IdleEvent::Request => if cancelled { IdleStep::RefuseAndStop } else { IdleStep::Serve },
        IdleEvent::TimedOut => if cancelled { IdleStep::Stop } else { IdleStep::KeepWaiting },
        IdleEvent::Disconnected => IdleStep::Stop,
    }
}

/// A batch that stopped filling because its time ran out before it was full
/// counts as a timeout flush.
pub fn is_timeout_flush(timed_out: bool, size: usize, max_batch: usize) -> (r: bool)
    ensures
        r == (timed_out && size < max_batch),
{
    timed_out && size < max_batch
}

/// The reply one request of a batch gets.
#[derive(Debug, PartialEq, Eq)]
pub enum Reply {
    /// The model's result at this index of the batch output.
    Result(usize),
    /// An error.
    Error(EvalError),
}

/// The error every request of a batch gets when the model returned a
/// different number of results than requests.
pub open spec fn length_mismatch(e: EvalError) -> bool {
    e matches EvalError::Backend(m) && m@ == "batch result length mismatch"@
}

/// Whether `r` is the reply for request `i` of a batch of `size` requests
/// whose model call returned `outcome` (its result count, or its error).
pub open spec fn reply_for(r: Reply, i: int, size: nat, outcome: Result<usize, EvalError>) -> bool {
    match outcome {
        Ok(n) => if n == size { r == Reply::Result(i as usize) } else { r matches Reply::Error(e) && length_mismatch(e) },
        Err(e) => r == Reply::Error(e),
    }
}

/// The replies of a batch of `size` requests, in request order: the i-th
/// result for each request when the model returned one result per request,
/// otherwise the same error for every request.
pub fn replies(size: usize, outcome: &Result<usize, EvalError>) -> (r: Vec<Reply>)
    ensures
        r@.len() == size,
        forall|i: int| 0 <= i < size ==> reply_for(#[trigger] r@[i], i, size as nat, *outcome),
{
    let mut out: Vec<Reply> = Vec::new();
    let mut i: usize = 0;
    while i < size
        invariant
            i <= size,
            out@.len() == i,
            forall|j: int| 0 <= j < i ==> reply_for(#[trigger] out@[j], j, size as nat, *outcome),
        decreases size - i,
    {
        let reply = match outcome {
            Ok(n) => if *n == size {
                Reply::Result(i)
            } else {
                Reply::Error(EvalError::Backend(String::from_str("batch result length mismatch")))
            },
            Err(e) => Reply::Error(e.clone()),
        };
        out.push(reply);
        i = i + 1;
    }
    out
}

/// Most retained batch-size and queue-wait samples (for percentiles).
pub const MAX_SAMPLES: usize = 1_000_000;

/// Batcher counters and the retained per-batch samples.
#[derive(Debug, Clone, PartialEq, Eq)]
pub struct BatchStats {
    pub submitted: u64,
    pub completed: u64,
    pub errors: u64,
    pub batches: u64,
    pub batch_size_sum: u64,
    pub batch_size_max: u64,
    pub timeout_flushes: u64,
    pub queue_wait_us_sum: u64,
    pub forward_us_sum: u64,
    /// Batch sizes of the first `MAX_SAMPLES` batches.
    pub batch_sizes: Vec<u32>,
    /// Queue waits (microseconds) of the first `MAX_SAMPLES` batches.
    pub queue_waits_us: Vec<u64>,
}

impl BatchStats {
    /// Nothing recorded.
    pub fn new() -> (s: Self)
        ensures
            s.submitted == 0 && s.completed == 0 && s.errors == 0 && s.batches == 0,
            s.batch_size_sum == 0 && s.batch_size_max == 0 && s.timeout_flushes == 0,
            s.queue_wait_us_sum == 0 && s.forward_us_sum == 0,
            s.batch_sizes@.len() == 0 && s.queue_waits_us@.len() == 0,
    {
        BatchStats {
            submitted: 0,
            completed: 0,
            errors: 0,
            batches: 0,
            batch_size_sum: 0,
            batch_size_max: 0,
            timeout_flushes: 0,
            queue_wait_us_sum: 0,
            forward_us_sum: 0,
            batch_sizes: Vec::new(),
            queue_waits_us: Vec::new(),
        }
    }

    /// Record one served batch: its size, its longest queue wait and the
    /// model call's duration. The sample lists stop growing at `MAX_SAMPLES`.
    pub fn record_batch(&mut self, size: u32, queue_wait_us: u64, forward_us: u64)
        requires
            old(self).batches < u64::MAX,
            old(self).batch_size_sum + size <= u64::MAX,
            old(self).queue_wait_us_sum + queue_wait_us <= u64::MAX,
            old(self).forward_us_sum + forward_us <= u64::MAX,
            old(self).batch_sizes@.len() == old(self).queue_waits_us@.len(),
        ensures
            final(self).batches == old(self).batches + 1,
            final(self).batch_size_sum == old(self).batch_size_sum + size,
            final(self).batch_size_max == (if size > old(self).batch_size_max { size as u64 } else { old(self).batch_size_max }),
            final(self).queue_wait_us_sum == old(self).queue_wait_us_sum + queue_wait_us,
            final(self).forward_us_sum == old(self).forward_us_sum + forward_us,
            old(self).batch_sizes@.len() < MAX_SAMPLES ==> final(self).batch_sizes@ == old(self).batch_sizes@.push(size)
                && final(self).queue_waits_us@ == old(self).queue_waits_us@.push(queue_wait_us),
            old(self).batch_sizes@.len() >= MAX_SAMPLES ==> final(self).batch_sizes@ == old(self).batch_sizes@
                && final(self).queue_waits_us@ == old(self).queue_waits_us@,
            final(self).submitted == old(self).submitted,
            final(self).completed == old(self).completed,
            final(self).errors == old(self).errors,
            final(self).timeout_flushes == old(self).timeout_flushes,
            event_effect(*old(self), *final(self), StatsEvent::Other),
    {
        self.batches = self.batches + 1;
        self.batch_size_sum = self.batch_size_sum + size as u64;
        if size as u64 > self.batch_size_max {
            self.batch_size_max = size as u64;
        }
        self.queue_wait_us_sum = self.queue_wait_us_sum + queue_wait_us;
        self.forward_us_sum = self.forward_us_sum + forward_us;
        if self.batch_sizes.len() < MAX_SAMPLES {
            self.batch_sizes.push(size);
            self.queue_waits_us.push(queue_wait_us);
        }
    }

    /// Count the replies sent: results as completed, errors as errors.
    pub fn record_replies(&mut self, replies: &Vec<Reply>)
        requires
            old(self).completed + replies@.len() <= u64::MAX,
            old(self).errors + replies@.len() <= u64::MAX,
        ensures
            final(self).completed + final(self).errors == old(self).completed + old(self).errors + replies@.len(),
            final(self).completed == old(self).completed + results_in(replies@),
            final(self).batches == old(self).batches,
            final(self).submitted == old(self).submitted,
            final(self).timeout_flushes == old(self).timeout_flushes,
            final(self).batch_size_sum == old(self).batch_size_sum,
            final(self).batch_size_max == old(self).batch_size_max,
            final(self).queue_wait_us_sum == old(self).queue_wait_us_sum,
            final(self).forward_us_sum == old(self).forward_us_sum,
            final(self).batch_sizes == old(self).batch_sizes,
            final(self).queue_waits_us == old(self).queue_waits_us,
            event_effect(*old(self), *final(self), StatsEvent::Answered(replies@.len() as u64)),
    {
        let mut i: usize = 0;
        while i < replies.len()
            invariant
                i <= replies@.len(),
                self.completed + self.errors == old(self).completed + old(self).errors + i,
                self.completed == old(self).completed + results_in(replies@.take(i as int)),
                old(self).completed + replies@.len() <= u64::MAX,
                old(self).errors + replies@.len() <= u64::MAX,
                self.completed >= old(self).completed,
                self.errors >= old(self).errors,
                self.batches == old(self).batches,
                self.submitted == old(self).submitted,
                self.timeout_flushes == old(self).timeout_flushes,
                self.batch_size_sum == old(self).batch_size_sum,
                self.batch_size_max == old(self).batch_size_max,
                self.queue_wait_us_sum == old(self).queue_wait_us_sum,
                self.forward_us_sum == old(self).forward_us_sum,
                self.batch_sizes == old(self).batch_sizes,
                self.queue_waits_us == old(self).queue_waits_us,
            decreases replies.len() - i,
        {
            assert(replies@.take(i + 1).drop_last() =~= replies@.take(i as int));
            match &replies[i] {
                Reply::Result(_) => {
                    self.completed = self.completed + 1;
                },
                Reply::Error(_) => {
                    self.errors = self.errors + 1;
                },
            }
            i = i + 1;
        }
        assert(replies@.take(i as int) =~= replies@);
    }

    /// Count one request accepted into the queue.
    pub fn record_submitted(&mut self)
        requires
            old(self).submitted < u64::MAX,
        ensures
            *final(self) == (BatchStats { submitted: (old(self).submitted + 1) as u64, ..*old(self) }),
            event_effect(*old(self), *final(self), StatsEvent::Submitted),
    {
        self.submitted = self.submitted + 1;
    }

    /// Count one request answered with an error outside a batch (refused at
    /// shutdown or drained from the queue).
    pub fn record_error(&mut self)
        requires
            old(self).errors < u64::MAX,
        ensures
            *final(self) == (BatchStats { errors: (old(self).errors + 1) as u64, ..*old(self) }),
            event_effect(*old(self), *final(self), StatsEvent::Answered(1)),
    {
        self.errors = self.errors + 1;
    }

    /// Count one timeout flush.
    pub fn record_timeout_flush(&mut self)
        requires
            old(self).timeout_flushes < u64::MAX,
        ensures
            *final(self) == (BatchStats { timeout_flushes: (old(self).timeout_flushes + 1) as u64, ..*old(self) }),
            event_effect(*old(self), *final(self), StatsEvent::Other),
    {
        self.timeout_flushes = self.timeout_flushes + 1;
    }
}

/// What one counter update did to the request accounting.
#[derive(Debug, Clone, Copy, PartialEq, Eq, Structural)]
pub enum StatsEvent {
    /// A request was accepted into the queue.
    Submitted,
    /// This many requests were answered (with results or errors).
    Answered(u64),
    /// Bookkeeping that accepts and answers nothing.
    Other,
}

/// How one update moved the counters: `submitted` grows by the requests
/// accepted, `completed + errors` by the requests answered.
pub open spec fn event_effect(before: BatchStats, after: BatchStats, e: StatsEvent) -> bool {
    match e {
        StatsEvent::Submitted => after.submitted == before.submitted + 1 && after.completed + after.errors
            == before.completed + before.errors,
        StatsEvent::Answered(n) => after.submitted == before.submitted && after.completed + after.errors
            == before.completed + before.errors + n,
        StatsEvent::Other => after.submitted == before.submitted && after.completed + after.errors
            == before.completed + before.errors,
    }
}

/// Requests accepted over a run of updates.
pub open spec fn submitted_in(es: Seq<StatsEvent>) -> nat
    decreases es.len(),
{
    if es.len() == 0 {
        0
    } else {
        submitted_in(es.drop_last()) + if es.last() is Submitted { 1nat } else { 0 }
    }
}

/// Requests answered over a run of updates.
pub open spec fn answered_in(es: Seq<StatsEvent>) -> nat
    decreases es.len(),
{
    if es.len() == 0 {
        0
    } else {
        answered_in(es.drop_last()) + match es.last() {
            StatsEvent::Answered(n) => n as nat,
            _ => 0nat,
        }
    }
}

/// Request accounting over an owner's lifetime: starting from fresh
/// counters, after any run of updates `submitted` counts the requests
/// accepted and `completed + errors` the requests answered; so once every
/// accepted request has been answered, `submitted == completed + errors`.
pub proof fn lemma_requests_accounted(states: Seq<BatchStats>, events: Seq<StatsEvent>)
    requires
        states.len() == events.len() + 1,
        states[0].submitted == 0 && states[0].completed == 0 && states[0].errors == 0,
        forall|i: int| 0 <= i < events.len() ==> event_effect(#[trigger] states[i], states[i + 1], events[i]),
    ensures
        states.last().submitted == submitted_in(events),
        states.last().completed + states.last().errors == answered_in(events),
        answered_in(events) == submitted_in(events) ==> states.last().submitted == states.last().completed
            + states.last().errors,
    decreases events.len(),
{
    if events.len() > 0 {
        let s0 = states.drop_last();
        let e0 = events.drop_last();
        assert forall|i: int| 0 <= i < e0.len() implies event_effect(#[trigger] s0[i], s0[i + 1], e0[i]) by {
            assert(event_effect(states[i], states[i + 1], events[i]));
        }
        lemma_requests_accounted(s0, e0);
        assert(event_effect(states[events.len() - 1], states[events.len() as int], events.last()));
    }
}

/// The number of results among `r`.
pub open spec fn results_in(r: Seq<Reply>) -> nat
    decreases r.len(),
{
    if r.len() == 0 {
        0
    } else {
        results_in(r.drop_last()) + if r.last() is Result { 1nat } else { 0 }
    }
}

/// Every request of a batch receives exactly one reply, in request order; a
/// batch whose model call fails answers every request with an error, and
/// one that succeeds answers request `i` with result `i`.
pub proof fn lemma_every_request_answered_once(size: nat, outcome: Result<usize, EvalError>, r: Seq<Reply>)
    requires
        size <= usize::MAX,
        r.len() == size,
        forall|i: int| 0 <= i < size ==> reply_for(#[trigger] r[i], i, size, outcome),
    ensures
        outcome is Err ==> results_in(r) == 0,
        (outcome matches Ok(n) && n == size) ==> results_in(r) == size,
        (outcome matches Ok(n) && n != size) ==> results_in(r) == 0,
{
    lemma_results_in_counts(r, size, outcome);
}

proof fn lemma_results_in_counts(r: Seq<Reply>, size: nat, outcome: Result<usize, EvalError>)
    requires
        size <= usize::MAX,
        r.len() <= size,
        forall|i: int| 0 <= i < r.len() ==> reply_for(#[trigger] r[i], i, size, outcome),
    ensures
        outcome is Err ==> results_in(r) == 0,
        (outcome matches Ok(n) && n == size) ==> results_in(r) == r.len(),
        (outcome matches Ok(n) && n != size) ==> results_in(r) == 0,
    decreases r.len(),
{
    if r.len() > 0 {
        let r0 = r.drop_last();
        assert forall|i: int| 0 <= i < r0.len() implies reply_for(#[trigger] r0[i], i, size, outcome) by {
            assert(r0[i] == r[i]);
        }
        lemma_results_in_counts(r0, size, outcome);
        assert(reply_for(r[r.len() - 1], r.len() - 1, size, outcome));
    }
}

} // verus!
