use vstd::prelude::*;

verus! {

/// How the delivery of the terminate command is retried while the device is
/// disconnected. The wait after the `k`-th reconnect is `initial_backoff_ms`
/// doubled `k` times, capped at `max_backoff_ms`; equal values give a fixed
/// backoff. `max_attempts` of `None` retries without end.
#[derive(Debug, Clone, Copy, PartialEq, Eq, Structural)]
pub struct RetryPolicy {
    pub initial_backoff_ms: u64,
    pub max_backoff_ms: u64,
    pub max_attempts: Option<u64>,
}

/// What the caller does after one connection check.
#[derive(Debug, Clone, Copy, PartialEq, Eq, Structural)]
pub enum TerminateAction {
    /// Send the terminate command; the loop is over.
    SendTerminate,
    /// Connect again, then wait `wait_ms` before the next check.
    ReconnectThenWait { wait_ms: u64 },
    /// The retry ceiling was reached; the loop is over without delivery.
    GiveUp,
    /// The loop was already over; nothing to do.
    Finished,
}

/// Progress of the terminate-delivery loop.
#[derive(Debug, Clone, Copy, PartialEq, Eq, Structural)]
pub struct TerminateLoop {
    pub policy: RetryPolicy,
    /// Reconnects requested so far.
    pub attempts: u64,
    /// The wait that goes with the next reconnect.
    pub next_wait_ms: u64,
    pub finished: bool,
}

pub open spec fn min_of(a: int, b: int) -> int {
    if a <= b { a } else { b }
}

/// The wait after reconnect number `attempt` (counted from 0).
pub open spec fn backoff_ms(p: RetryPolicy, attempt: nat) -> int
    decreases attempt,
{
    if attempt == 0 {
        min_of(p.initial_backoff_ms as int, p.max_backoff_ms as int)
    } else {
        min_of(2 * backoff_ms(p, (attempt - 1) as nat), p.max_backoff_ms as int)
    }
}

/// Whether the policy still allows a reconnect after `attempts` of them.
pub open spec fn may_retry(p: RetryPolicy, attempts: int) -> bool {
    match p.max_attempts {
        None => true,
        Some(m) => attempts < m,
    }
}

/// The state and action that follow one connection check.
pub open spec fn terminate_step(s: TerminateLoop, connected: bool) -> (TerminateLoop, TerminateAction) {
    if s.finished {
        (s, TerminateAction::Finished)
    } else if connected {
        (TerminateLoop { finished: true, ..s }, TerminateAction::SendTerminate)
    } else if !may_retry(s.policy, s.attempts as int) || s.attempts == u64::MAX {
        (TerminateLoop { finished: true, ..s }, TerminateAction::GiveUp)
    } else {
        (
            TerminateLoop {
                attempts: (s.attempts + 1) as u64,
                next_wait_ms: min_of(2 * s.next_wait_ms, s.policy.max_backoff_ms as int) as u64,
                ..s
            },
            TerminateAction::ReconnectThenWait { wait_ms: s.next_wait_ms },
        )
    }
}

/// The actions that a sequence of connection checks produces.
pub open spec fn terminate_trace(s: TerminateLoop, checks: Seq<bool>) -> Seq<TerminateAction>
    decreases checks.len(),
{
    if checks.len() == 0 {
        Seq::empty()
    } else {
        let (s2, a) = terminate_step(s, checks[0]);
        seq![a] + terminate_trace(s2, checks.drop_first())
    }
}

/// `r` disconnected checks followed by a connected one.
pub open spec fn down_then_up(r: nat) -> Seq<bool> {
    Seq::new(r, |i: int| false).push(true)
}

impl TerminateLoop {
    /// The wait is the policy's backoff for the number of reconnects so far.
    pub open spec fn wf(&self) -> bool {
        self.next_wait_ms == backoff_ms(self.policy, self.attempts as nat)
    }

    pub fn new(policy: RetryPolicy) -> (r: TerminateLoop)
        ensures
            r.wf(),
            r.policy == policy,
            r.attempts == 0,
            !r.finished,
    {
        let w = if policy.initial_backoff_ms <= policy.max_backoff_ms {
            policy.initial_backoff_ms
        } else {
            policy.max_backoff_ms
        };
        TerminateLoop { policy, attempts: 0, next_wait_ms: w, finished: false }
    }

    /// Decides what to do after a check that found the device `connected`:
    /// send the terminate command when connected, otherwise reconnect and wait
    /// the backoff, until the policy's ceiling is reached.
    pub fn on_check(&mut self, connected: bool) -> (r: TerminateAction)
        requires
            old(self).wf(),
        ensures
            final(self).wf(),
            (*final(self), r) == terminate_step(*old(self), connected),
    {
        if self.finished {
            return TerminateAction::Finished;
        }
        if connected {
            self.finished = true;
            return TerminateAction::SendTerminate;
        }
        let may = match self.policy.max_attempts {
            None => true,
            Some(m) => self.attempts < m,
        };
        if !may || self.attempts == u64::MAX {
            self.finished = true;
            return TerminateAction::GiveUp;
        }
        let wait = self.next_wait_ms;
        self.attempts = self.attempts + 1;
        self.next_wait_ms = if wait > self.policy.max_backoff_ms / 2 {
            self.policy.max_backoff_ms
        } else {
            2 * wait
        };
        TerminateAction::ReconnectThenWait { wait_ms: wait }
    }
}

proof fn lemma_backoff_bounded(p: RetryPolicy, attempt: nat)
    ensures
        0 <= backoff_ms(p, attempt) <= p.max_backoff_ms,
    decreases attempt,
{
    if attempt > 0 {
        lemma_backoff_bounded(p, (attempt - 1) as nat);
    }
}

proof fn lemma_trace_from(s: TerminateLoop, r: nat)
    requires
        s.wf(),
        !s.finished,
        s.attempts + r < u64::MAX,
        match s.policy.max_attempts {
            None => true,
            Some(m) => s.attempts + r <= m,
        },
    ensures
        terminate_trace(s, down_then_up(r)) == Seq::new(
            r,
            |i: int| TerminateAction::ReconnectThenWait { wait_ms: backoff_ms(s.policy, (s.attempts + i) as nat) as u64 },
        ).push(TerminateAction::SendTerminate),
    decreases r,
{
    let checks = down_then_up(r);
    if r == 0 {
        let (s2, a) = terminate_step(s, checks[0]);
        assert(checks.drop_first() =~= Seq::<bool>::empty());
        assert(terminate_trace(s2, checks.drop_first()) == Seq::<TerminateAction>::empty());
        assert(terminate_trace(s, checks) =~= seq![TerminateAction::SendTerminate]);
    } else {
        let (s2, a) = terminate_step(s, checks[0]);
        lemma_backoff_bounded(s.policy, s.attempts as nat);
        assert(s2.wf());
        assert(checks.drop_first() =~= down_then_up((r - 1) as nat));
        lemma_trace_from(s2, (r - 1) as nat);
        assert(terminate_trace(s, checks) =~= Seq::new(
            r,
            |i: int| TerminateAction::ReconnectThenWait { wait_ms: backoff_ms(s.policy, (s.attempts + i) as nat) as u64 },
        ).push(TerminateAction::SendTerminate));
    }
}

/// Against a device that is reported disconnected for the first `r` checks
/// and connected afterwards, a fresh loop requests `r` reconnects, the `k`-th
/// followed by the policy's `k`-th backoff, and then sends the terminate
/// command exactly once, provided the policy's ceiling allows `r` reconnects.
pub proof fn terminate_after_reconnects(policy: RetryPolicy, r: nat)
    requires
        r < u64::MAX,
        match policy.max_attempts {
            None => true,
            Some(m) => r <= m,
        },
    ensures
        ({
            let s = TerminateLoop {
                policy,
                attempts: 0,
                next_wait_ms: backoff_ms(policy, 0) as u64,
                finished: false,
            };
            let t = terminate_trace(s, down_then_up(r));
            &&& t.len() == r + 1
            &&& forall|k: int| 0 <= k < r ==> #[trigger] t[k] == TerminateAction::ReconnectThenWait {
                wait_ms: backoff_ms(policy, k as nat) as u64,
            }
            &&& t[r as int] == TerminateAction::SendTerminate
            &&& forall|k: int| 0 <= k < t.len() && #[trigger] t[k] == TerminateAction::SendTerminate ==> k == r
        }),
{
    let s = TerminateLoop { policy, attempts: 0, next_wait_ms: backoff_ms(policy, 0) as u64, finished: false };
    lemma_backoff_bounded(policy, 0);
    lemma_trace_from(s, r);
}

} // verus!
