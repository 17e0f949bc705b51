use vstd::prelude::*;

verus! {

/// What the task that awaits readiness does next.
#[derive(Debug, Clone, Copy, PartialEq, Eq)]
pub enum ProbeStep {
    /// Sleep for `delay_ms`, then issue one health request.
    Probe { delay_ms: u64 },
    /// The health endpoint answered with a success status.
    Ready,
    /// The attempt budget ran out without a success.
    TimedOut,
}

/// Bounded readiness polling: one health request per attempt, each preceded
/// by a sleep of `interval_ms`, at most `max_attempts` attempts.
///
/// `outcome` is `None` while polling goes on, `Some(true)` once the server
/// answered healthy and `Some(false)` once the budget is spent.
#[derive(Debug, Clone, Copy)]
pub struct Prober {
    pub max_attempts: u32,
    pub interval_ms: u64,
    pub attempts: u32,
    pub outcome: Option<bool>,
}

/// The prober before any attempt.
pub open spec fn fresh(max_attempts: u32, interval_ms: u64) -> Prober {
    Prober {
        max_attempts,
        interval_ms,
        attempts: 0,
        outcome: if max_attempts == 0 { Some(false) } else { None },
    }
}

/// The prober after one more attempt whose answer was `healthy`.
pub open spec fn recorded(p: Prober, healthy: bool) -> Prober {
    let n = (p.attempts + 1) as u32;
    Prober {
        max_attempts: p.max_attempts,
        interval_ms: p.interval_ms,
        attempts: n,
        outcome: if healthy {
            Some(true)
        } else if n >= p.max_attempts {
            Some(false)
        } else {
            None
        },
    }
}

/// The step that a prober in state `p` asks for.
pub open spec fn step_of(p: Prober) -> ProbeStep {
    match p.outcome {
        None => ProbeStep::Probe { delay_ms: p.interval_ms },
        Some(true) => ProbeStep::Ready,
        Some(false) => ProbeStep::TimedOut,
    }
}

/// The prober after feeding it `answers` in order, one per attempt, until it
/// stops polling or the answers run out.
pub open spec fn drive(p: Prober, answers: Seq<bool>) -> Prober
    decreases answers.len(),
{
    if answers.len() == 0 || p.outcome is Some {
        p
    } else {
        drive(recorded(p, answers[0]), answers.drop_first())
    }
}

impl Prober {
    pub open spec fn wf(&self) -> bool {
        &&& self.attempts <= self.max_attempts
        &&& self.outcome is None ==> self.attempts < self.max_attempts
        &&& self.outcome == Some(false) ==> self.attempts == self.max_attempts
        &&& self.outcome == Some(true) ==> 1 <= self.attempts
    }

    /// A prober that has made no attempt yet.
    pub fn new(max_attempts: u32, interval_ms: u64) -> (r: Prober)
        ensures
            r == fresh(max_attempts, interval_ms),
            r.wf(),
    {
        Prober {
            max_attempts,
            interval_ms,
            attempts: 0,
            outcome: if max_attempts == 0 { Some(false) } else { None },
        }
    }

    /// Whether another health request is due.
    pub fn is_polling(&self) -> (r: bool)
        ensures
            r == (self.outcome is None),
    {
        self.outcome.is_none()
    }

    /// The step asked for now.
    pub fn next_step(&self) -> (r: ProbeStep)
        ensures
            r == step_of(*self),
    {
        match self.outcome {
            None => ProbeStep::Probe { delay_ms: self.interval_ms },
            Some(true) => ProbeStep::Ready,
            Some(false) => ProbeStep::TimedOut,
        }
    }

    /// Records the answer to the attempt just made and returns the next step.
    pub fn record(&mut self, healthy: bool) -> (r: ProbeStep)
        requires
            old(self).wf(),
            old(self).outcome is None,
        ensures
            *final(self) == recorded(*old(self), healthy),
            final(self).wf(),
            r == step_of(*final(self)),
    {
        let n: u32 = self.attempts + 1;
        self.attempts = n;
        if healthy {
            self.outcome = Some(true);
        } else if n >= self.max_attempts {
            self.outcome = Some(false);
        }
        self.next_step()
    }
}

proof fn lemma_ready_from(p: Prober, answers: Seq<bool>, k: nat)
    requires
        p.wf(),
        p.outcome is None,
        k < answers.len(),
        answers[k as int],
        forall|j: int| 0 <= j < k ==> !answers[j],
        p.attempts + k < p.max_attempts,
    ensures
        drive(p, answers).outcome == Some(true),
        drive(p, answers).attempts == p.attempts + k + 1,
    decreases k,
{
    let q = recorded(p, answers[0]);
    let rest = answers.drop_first();
    assert(drive(p, answers) == drive(q, rest));
    if k == 0 {
        assert(drive(q, rest) == q);
    } else {
        assert(!answers[0]);
        assert forall|j: int| 0 <= j < k - 1 implies !rest[j] by {
            assert(rest[j] == answers[j + 1]);
        }
        lemma_ready_from(q, rest, (k - 1) as nat);
    }
}

proof fn lemma_timeout_from(p: Prober, answers: Seq<bool>)
    requires
        p.wf(),
        p.outcome is None,
        answers.len() >= p.max_attempts - p.attempts,
        forall|j: int| 0 <= j < p.max_attempts - p.attempts ==> !answers[j],
    ensures
        drive(p, answers).outcome == Some(false),
        drive(p, answers).attempts == p.max_attempts,
    decreases p.max_attempts - p.attempts,
{
    let q = recorded(p, answers[0]);
    let rest = answers.drop_first();
    assert(!answers[0]);
    assert(drive(p, answers) == drive(q, rest));
    if q.outcome is None {
        assert forall|j: int| 0 <= j < q.max_attempts - q.attempts implies !rest[j] by {
            assert(rest[j] == answers[j + 1]);
        }
        lemma_timeout_from(q, rest);
    } else {
        assert(drive(q, rest) == q);
    }
}

/// Polling stops at the first healthy answer: when the first `k` answers are
/// unhealthy and answer `k` is healthy, with `k` below the budget, the prober
/// ends ready after exactly `k + 1` health requests. Each of them followed a
/// `Probe` step, which asks for a sleep of the interval first.
pub proof fn lemma_ready_at_first_healthy(
    max_attempts: u32,
    interval_ms: u64,
    answers: Seq<bool>,
    k: nat,
)
    requires
        k < max_attempts,
        k < answers.len(),
        answers[k as int],
        forall|j: int| 0 <= j < k ==> !answers[j],
    ensures
        drive(fresh(max_attempts, interval_ms), answers).outcome == Some(true),
        drive(fresh(max_attempts, interval_ms), answers).attempts == k + 1,
{
    lemma_ready_from(fresh(max_attempts, interval_ms), answers, k);
}

/// A server that never answers healthy within the budget makes the prober
/// time out after exactly `max_attempts` health requests.
pub proof fn lemma_times_out_after_budget(
    max_attempts: u32,
    interval_ms: u64,
    answers: Seq<bool>,
)
    requires
        answers.len() >= max_attempts,
        forall|j: int| 0 <= j < max_attempts ==> !answers[j],
    ensures
        drive(fresh(max_attempts, interval_ms), answers).outcome == Some(false),
        drive(fresh(max_attempts, interval_ms), answers).attempts == max_attempts,
{
    if max_attempts > 0 {
        lemma_timeout_from(fresh(max_attempts, interval_ms), answers);
    }
}

} // verus!
