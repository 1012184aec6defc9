//! The retry executor: a policy, the backoff it prescribes, and the decision
//! taken after each attempt. A driver that performs real work (and sleeps)
//! feeds each outcome to [`RetryPolicy::decide`]; [`run_scripted`] drives a
//! scripted operation the same way.

use vstd::prelude::*;
use crate::error::{ErrorClass, MemoryError};
use vstd::string::StringExecFns;

verus! {

/// Largest value of a delay in milliseconds.
pub open spec fn saturate(x: int) -> int {
    if x > u64::MAX {
        u64::MAX as int
    } else {
        x
    }
}

/// `unit` doubled `k` times.
pub open spec fn doubled(unit: int, k: nat) -> int
    decreases k,
{
    if k == 0 {
        unit
    } else {
        2 * doubled(unit, (k - 1) as nat)
    }
}

proof fn lemma_doubled_nonneg(unit: int, k: nat)
    requires
        unit >= 0,
    ensures
        doubled(unit, k) >= unit,
    decreases k,
{
    if k > 0 {
        lemma_doubled_nonneg(unit, (k - 1) as nat);
    }
}

/// How the pause between attempts grows.
#[derive(Debug, Clone, Copy, PartialEq, Eq, Structural)]
pub enum Backoff {
    /// `base_ms * (attempt + 1)`: suited to database operations.
    Linear { base_ms: u64 },
    /// `unit_ms * 2^attempt`, at most `cap_ms` when one is set: suited to HTTP calls.
    Exponential { unit_ms: u64, cap_ms: Option<u64> },
}

/// How many times an operation is retried, and how long to wait in between.
#[derive(Debug, Clone, Copy, PartialEq, Eq, Structural)]
pub struct RetryPolicy {
    pub max_retries: u32,
    pub backoff: Backoff,
}

impl RetryPolicy {
    /// The pause in milliseconds after failed attempt `attempt` (counted from 0),
    /// before a server's `Retry-After` hint is taken into account.
    pub open spec fn spec_base_delay(&self, attempt: nat) -> int {
        match self.backoff {
            Backoff::Linear { base_ms } => saturate(base_ms * (attempt + 1)),
            Backoff::Exponential { unit_ms, cap_ms } => {
                let d = saturate(doubled(unit_ms as int, attempt));
                match cap_ms {
                    Some(cap) => if d > cap { cap as int } else { d },
                    None => d,
                }
            },
        }
    }

    /// The pause after failed attempt `attempt`: the larger of the policy's
    /// delay and the hint, when there is one.
    pub open spec fn spec_delay(&self, attempt: nat, hint_ms: Option<u64>) -> int {
        let d = self.spec_base_delay(attempt);
        match hint_ms {
            Some(h) => if h > d { h as int } else { d },
            None => d,
        }
    }

    /// Linear backoff with the given unit, for database operations.
    pub fn linear(max_retries: u32, base_ms: u64) -> (r: RetryPolicy)
        ensures
            r == (RetryPolicy { max_retries, backoff: Backoff::Linear { base_ms } }),
    {
        RetryPolicy { max_retries, backoff: Backoff::Linear { base_ms } }
    }

    /// Exponential backoff with the given unit and optional cap, for HTTP calls.
    pub fn exponential(max_retries: u32, unit_ms: u64, cap_ms: Option<u64>) -> (r: RetryPolicy)
        ensures
            r == (RetryPolicy { max_retries, backoff: Backoff::Exponential { unit_ms, cap_ms } }),
    {
        RetryPolicy { max_retries, backoff: Backoff::Exponential { unit_ms, cap_ms } }
    }

    /// The pause in milliseconds after failed attempt `attempt`.
    pub fn delay_ms(&self, attempt: u32, hint_ms: Option<u64>) -> (r: u64)
        ensures
            r == self.spec_delay(attempt as nat, hint_ms),
    {
        let d: u64 = match self.backoff {
            Backoff::Linear { base_ms } => {
                match base_ms.checked_mul(attempt as u64 + 1) {
                    Some(v) => v,
                    None => u64::MAX,
                }
            },
            Backoff::Exponential { unit_ms, cap_ms } => {
                let mut v: u64 = unit_ms;
                let mut k: u32 = 0;
                while k < attempt
                    invariant
                        k <= attempt,
                        v == saturate(doubled(unit_ms as int, k as nat)),
                    decreases attempt - k,
                {
                    proof {
                        lemma_doubled_nonneg(unit_ms as int, k as nat);
                    }
                    if v > u64::MAX / 2 {
                        v = u64::MAX;
                    } else {
                        v = 2 * v;
                    }
                    k = k + 1;
                }
                match cap_ms {
                    Some(cap) => if v > cap { cap } else { v },
                    None => v,
                }
            },
        };
        match hint_ms {
            Some(h) => if h > d { h } else { d },
            None => d,
        }
    }

    /// What to do after attempt `attempt` ended with `outcome` (`None` for
    /// success, else the class of the error).
    pub open spec fn spec_decide(
        &self,
        attempt: nat,
        outcome: Option<ErrorClass>,
        hint_ms: Option<u64>,
    ) -> RetryDecision {
        match outcome {
            Some(ErrorClass::Retryable) => if attempt < self.max_retries {
                RetryDecision::RetryAfter { delay_ms: self.spec_delay(attempt, hint_ms) as u64 }
            } else {
                RetryDecision::Stop
            },
            _ => RetryDecision::Stop,
        }
    }

    /// Decides whether to attempt again: only after a retryable error, and
    /// only while attempts are left.
    pub fn decide(&self, attempt: u32, outcome: Option<ErrorClass>, hint_ms: Option<u64>) -> (r:
        RetryDecision)
        ensures
            r == self.spec_decide(attempt as nat, outcome, hint_ms),
    {
        match outcome {
            Some(ErrorClass::Retryable) => if attempt < self.max_retries {
                RetryDecision::RetryAfter { delay_ms: self.delay_ms(attempt, hint_ms) }
            } else {
                RetryDecision::Stop
            },
            _ => RetryDecision::Stop,
        }
    }
}

/// What the executor does after an attempt.
#[derive(Debug, Clone, Copy, PartialEq, Eq, Structural)]
pub enum RetryDecision {
    /// Hand the last outcome to the caller.
    Stop,
    /// Wait, then attempt again.
    RetryAfter { delay_ms: u64 },
}

/// The class of the outcome at position `i` of a script; past its end the
/// operation fails with an error that is not retried.
pub open spec fn class_at(script: Seq<Option<ErrorClass>>, i: int) -> Option<ErrorClass> {
    if 0 <= i < script.len() {
        script[i]
    } else {
        Some(ErrorClass::Terminal)
    }
}

/// Number of attempts made from attempt `i` on, with at most `max_retries` retries.
pub open spec fn attempts_from(max_retries: nat, script: Seq<Option<ErrorClass>>, i: nat) -> nat
    decreases max_retries - i,
{
    if i >= max_retries || class_at(script, i as int) != Some(ErrorClass::Retryable) {
        i + 1
    } else {
        attempts_from(max_retries, script, i + 1)
    }
}

/// Number of times the executor invokes an operation whose successive
/// outcomes have the classes of `script` (`None` for success).
pub open spec fn attempts_made(max_retries: nat, script: Seq<Option<ErrorClass>>) -> nat {
    attempts_from(max_retries, script, 0)
}

/// The class of each outcome of a script.
pub open spec fn outcome_classes(outcomes: Seq<Result<u64, MemoryError>>) -> Seq<Option<ErrorClass>> {
    outcomes.map_values(
        |o: Result<u64, MemoryError>|
            match o {
                Ok(_) => None,
                Err(e) => Some(e.spec_class()),
            },
    )
}

/// The pauses taken before attempts `1..=n`.
pub open spec fn pauses(policy: RetryPolicy, n: nat) -> Seq<u64> {
    Seq::new(n, |k: int| policy.spec_delay(k as nat, None) as u64)
}

proof fn lemma_attempts_skip(max_retries: nat, script: Seq<Option<ErrorClass>>, i: nat, a: nat)
    requires
        i <= a,
        a <= max_retries,
        forall|k: int| i <= k < a ==> class_at(script, k) == Some(ErrorClass::Retryable),
    ensures
        attempts_from(max_retries, script, i) == attempts_from(max_retries, script, a),
    decreases a - i,
{
    if i < a {
        lemma_attempts_skip(max_retries, script, i + 1, a);
    }
}

/// An operation that replays a fixed list of outcomes, and records how often
/// it was invoked and the pauses it was asked to take.
pub struct ScriptedOperation {
    outcomes: Vec<Result<u64, MemoryError>>,
    calls: usize,
    pauses: Vec<u64>,
}

impl ScriptedOperation {
    /// The outcomes not yet handed out.
    pub closed spec fn remaining(&self) -> Seq<Result<u64, MemoryError>> {
        self.outcomes@
    }

    /// How many times the operation was invoked.
    pub closed spec fn spec_calls(&self) -> nat {
        self.calls as nat
    }

    /// The pauses requested so far, in order.
    pub closed spec fn spec_pauses(&self) -> Seq<u64> {
        self.pauses@
    }

    /// An operation that returns `outcomes` in order.
    pub fn new(outcomes: Vec<Result<u64, MemoryError>>) -> (r: ScriptedOperation)
        ensures
            r.remaining() == outcomes@,
            r.spec_calls() == 0,
            r.spec_pauses() == Seq::<u64>::empty(),
    {
        ScriptedOperation { outcomes, calls: 0, pauses: Vec::new() }
    }

    /// How many times the operation was invoked.
    pub fn calls(&self) -> (r: usize)
        ensures
            r == self.spec_calls(),
    {
        self.calls
    }

    /// The pauses requested so far, in order.
    pub fn pauses(&self) -> (r: &Vec<u64>)
        ensures
            r@ == self.spec_pauses(),
    {
        &self.pauses
    }

    /// Hands out the next outcome; once the script is exhausted, a failed
    /// operation.
    pub fn invoke(&mut self) -> (r: Result<u64, MemoryError>)
        requires
            old(self).spec_calls() < usize::MAX,
        ensures
            final(self).spec_calls() == old(self).spec_calls() + 1,
            final(self).spec_pauses() == old(self).spec_pauses(),
            old(self).remaining().len() > 0 ==> r == old(self).remaining()[0]
                && final(self).remaining() == old(self).remaining().drop_first(),
            old(self).remaining().len() == 0 ==> r is Err && r->Err_0 is DatabaseOperationFailed
                && final(self).remaining() == old(self).remaining(),
    {
        self.calls = self.calls + 1;
        if self.outcomes.len() == 0 {
            Err(
                MemoryError::DatabaseOperationFailed {
                    operation: String::from_str("scripted_operation"),
                    details: String::from_str("no outcome left"),
                },
            )
        } else {
            let r = self.outcomes.remove(0);
            assert(self.outcomes@ =~= old(self).outcomes@.drop_first());
            r
        }
    }

    /// Records a pause of `delay_ms` milliseconds.
    pub fn pause(&mut self, delay_ms: u64)
        ensures
            final(self).spec_pauses() == old(self).spec_pauses().push(delay_ms),
            final(self).spec_calls() == old(self).spec_calls(),
            final(self).remaining() == old(self).remaining(),
    {
        self.pauses.push(delay_ms);
    }
}

/// Runs a scripted operation under `policy`: the operation is attempted until
/// it succeeds, fails with an error that is not retryable, or has been retried
/// `max_retries` times; the outcome of the last attempt is returned.
pub fn run_scripted(policy: &RetryPolicy, op: &mut ScriptedOperation) -> (r: Result<u64, MemoryError>)
    requires
        old(op).spec_calls() + policy.max_retries + 1 <= usize::MAX,
    ensures
        ({
            let n = attempts_made(policy.max_retries as nat, outcome_classes(old(op).remaining()));
            &&& final(op).spec_calls() == old(op).spec_calls() + n
            &&& final(op).spec_pauses() == old(op).spec_pauses() + pauses(*policy, (n - 1) as nat)
            &&& n <= old(op).remaining().len() ==> r == old(op).remaining()[n - 1]
                && final(op).remaining() == old(op).remaining().skip(n as int)
            &&& n > old(op).remaining().len() ==> r is Err && r->Err_0 is DatabaseOperationFailed
                && final(op).remaining().len() == 0
        }),
{
    let ghost script = old(op).remaining();
    let ghost cls = outcome_classes(script);
    let ghost max = policy.max_retries as nat;
    let mut attempt: u32 = 0;
    loop
        invariant
            attempt <= policy.max_retries,
            script == old(op).remaining(),
            cls == outcome_classes(script),
            max == policy.max_retries as nat,
            op.spec_calls() == old(op).spec_calls() + attempt,
            old(op).spec_calls() + policy.max_retries + 1 <= usize::MAX,
            forall|k: int| 0 <= k < attempt ==> class_at(cls, k) == Some(ErrorClass::Retryable),
            attempt <= script.len(),
            op.remaining() == script.skip(attempt as int),
            op.spec_pauses() == old(op).spec_pauses() + pauses(*policy, attempt as nat),
        decreases policy.max_retries - attempt,
    {
        let ghost pre_pauses = op.spec_pauses();
        let out = op.invoke();
        let class = match &out {
            Ok(_) => None,
            Err(e) => Some(e.class()),
        };
        proof {
            if attempt < script.len() {
                assert(out == script[attempt as int]);
                assert(class == cls[attempt as int]);
            }
        }
        match policy.decide(attempt, class, None) {
            RetryDecision::Stop => {
                proof {
                    lemma_attempts_skip(max, cls, 0, attempt as nat);
                    assert(attempts_made(max, cls) == attempt + 1);
                    assert(pauses(*policy, attempt as nat) =~= pauses(*policy, (attempt + 1 - 1) as nat));
                    if attempt < script.len() {
                        assert(op.remaining() =~= script.skip(attempt + 1));
                    }
                }
                return out;
            },
            RetryDecision::RetryAfter { delay_ms } => {
                op.pause(delay_ms);
                proof {
                    assert(op.remaining() =~= script.skip(attempt + 1));
                    assert(op.spec_pauses() =~= old(op).spec_pauses() + pauses(*policy, (attempt + 1) as nat));
                }
                attempt = attempt + 1;
            },
        }
    }
}

/// An operation that fails with a retryable error on each of its first `n`
/// attempts (`n <= max_retries`) and then succeeds is invoked `n + 1` times,
/// and the executor returns the success.
pub proof fn lemma_retries_then_success(max_retries: nat, script: Seq<Option<ErrorClass>>, n: nat)
    requires
        n <= max_retries,
        n < script.len(),
        forall|k: int| 0 <= k < n ==> script[k] == Some(ErrorClass::Retryable),
        script[n as int] == None::<ErrorClass>,
    ensures
        attempts_made(max_retries, script) == n + 1,
        class_at(script, attempts_made(max_retries, script) - 1) == None::<ErrorClass>,
{
    lemma_attempts_skip(max_retries, script, 0, n);
}

/// An operation whose first attempt fails with a fatal error is invoked
/// exactly once, whatever the retry budget.
pub proof fn lemma_fatal_short_circuit(max_retries: nat, script: Seq<Option<ErrorClass>>)
    requires
        script.len() > 0,
        script[0] == Some(ErrorClass::Fatal),
    ensures
        attempts_made(max_retries, script) == 1,
{
}

} // verus!
