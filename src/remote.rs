//! The retry policy of a forwarded call. The caller performs each attempt
//! against the owning peer and reports what came back; `RemoteCall` decides
//! whether that answer is final, whether to try again after the fixed delay,
//! or whether the attempts are used up.
use vstd::prelude::*;

verus! {

/// Attempts made for one forwarded call before it is given up.
pub const MAX_ATTEMPTS: u32 = 3;

/// Connect, read and write timeout of one attempt, in milliseconds.
pub const ATTEMPT_TIMEOUT_MS: u64 = 100;

/// Fixed pause between two attempts, in milliseconds.
pub const RETRY_DELAY_MS: u64 = 50;

/// The HTTP verb of a forwarded call.
#[derive(Clone, Copy, Debug, PartialEq, Eq, Structural)]
pub enum Verb {
    Get,
    Post,
    Delete,
}

/// How many attempts a call may make and how it paces them.
#[derive(Clone, Copy, Debug, PartialEq, Eq, Structural)]
pub struct RetryPolicy {
    pub max_attempts: u32,
    pub timeout_ms: u64,
    pub delay_ms: u64,
}

impl RetryPolicy {
    /// The policy every node uses for forwarding.
    pub fn standard() -> (r: RetryPolicy)
        ensures
            r.max_attempts == MAX_ATTEMPTS,
            r.timeout_ms == ATTEMPT_TIMEOUT_MS,
            r.delay_ms == RETRY_DELAY_MS,
    {
        RetryPolicy {
            max_attempts: MAX_ATTEMPTS,
            timeout_ms: ATTEMPT_TIMEOUT_MS,
            delay_ms: RETRY_DELAY_MS,
        }
    }
}

/// What one attempt brought back.
pub enum Attempt {
    /// No HTTP answer: timeout, refused connection, unresolvable name.
    Unreachable,
    /// The peer answered with this status and body.
    Answered(u16, String),
}

/// An attempt's outcome, with its body as characters.
pub ghost enum AttemptView {
    Unreachable,
    Answered(u16, Seq<char>),
}

impl View for Attempt {
    type V = AttemptView;

    open spec fn view(&self) -> AttemptView {
        match self {
            Attempt::Unreachable => AttemptView::Unreachable,
            Attempt::Answered(s, b) => AttemptView::Answered(*s, b@),
        }
    }
}

/// What the caller does after an attempt.
pub enum Step {
    /// The peer gave a definitive answer: relay it.
    Finished(u16, String),
    /// Transient failure: wait this many milliseconds and try again.
    RetryAfter(u64),
    /// Transient failure on the last allowed attempt: the call has failed.
    Exhausted,
}

/// A step, with its body as characters.
pub ghost enum StepView {
    Finished(u16, Seq<char>),
    RetryAfter(u64),
    Exhausted,
}

impl View for Step {
    type V = StepView;

    open spec fn view(&self) -> StepView {
        match self {
            Step::Finished(s, b) => StepView::Finished(*s, b@),
            Step::RetryAfter(d) => StepView::RetryAfter(*d),
            Step::Exhausted => StepView::Exhausted,
        }
    }
}

/// An outcome worth retrying: no answer, or a server error (status 500 and up).
pub open spec fn is_transient(a: AttemptView) -> bool {
    match a {
        AttemptView::Unreachable => true,
        AttemptView::Answered(status, _) => status >= 500,
    }
}

/// The step after the `made`-th attempt (counting from 1) brought `a`.
pub open spec fn next_step(policy: RetryPolicy, made: nat, a: AttemptView) -> StepView {
    match a {
        AttemptView::Answered(status, body) if status < 500 => StepView::Finished(status, body),
        _ => if made < policy.max_attempts {
            StepView::RetryAfter(policy.delay_ms)
        } else {
            StepView::Exhausted
        },
    }
}

/// The state of one forwarded call: its policy and the attempts made so far.
pub struct RemoteCall {
    policy: RetryPolicy,
    made: u32,
}

impl RemoteCall {
    /// The policy the call follows.
    pub closed spec fn policy(&self) -> RetryPolicy {
        self.policy
    }

    /// Attempts made so far.
    pub closed spec fn made(&self) -> nat {
        self.made as nat
    }

    /// A call that has made no attempt yet.
    pub fn new(policy: RetryPolicy) -> (r: RemoteCall)
        ensures
            r.policy() == policy,
            r.made() == 0,
    {
        RemoteCall { policy, made: 0 }
    }

    /// Whether the policy allows another attempt.
    pub fn may_attempt(&self) -> (r: bool)
        ensures
            r == (self.made() < self.policy().max_attempts),
    {
        self.made < self.policy.max_attempts
    }

    /// Records what the next attempt brought and says what to do next.
    pub fn record(&mut self, a: Attempt) -> (r: Step)
        requires
            old(self).made() < old(self).policy().max_attempts,
        ensures
            final(self).policy() == old(self).policy(),
            final(self).made() == old(self).made() + 1,
            r@ == next_step(old(self).policy(), final(self).made(), a@),
    {
        self.made = self.made + 1;
        match a {
            Attempt::Answered(status, body) => {
                if status < 500 {
                    return Step::Finished(status, body);
                }
            },
            Attempt::Unreachable => {},
        }
        if self.made < self.policy.max_attempts {
            Step::RetryAfter(self.policy.delay_ms)
        } else {
            Step::Exhausted
        }
    }
}

/// A definitive answer ends the call at once, and is handed on unchanged; a
/// transient failure is retried while attempts remain, and ends the call as
/// failed on the last one.
pub proof fn lemma_retry_only_transient(policy: RetryPolicy, made: nat, a: AttemptView)
    requires
        1 <= made <= policy.max_attempts,
    ensures
        !is_transient(a) ==> next_step(policy, made, a) == (match a {
            AttemptView::Answered(s, b) => StepView::Finished(s, b),
            AttemptView::Unreachable => StepView::Exhausted,
        }),
        is_transient(a) && made < policy.max_attempts ==> next_step(policy, made, a)
            == StepView::RetryAfter(policy.delay_ms),
        is_transient(a) && made == policy.max_attempts ==> next_step(policy, made, a)
            == StepView::Exhausted,
{
}

} // verus!
