use vstd::prelude::*;

verus! {

/// What to do after an attempt.
#[derive(Debug, Clone, Copy, PartialEq, Eq, Structural)]
pub enum Step {
    /// The attempt succeeded.
    Done,
    /// It failed and attempts are left: wait, then try again.
    Retry,
    /// It failed and none are left.
    GiveUp,
}

/// The step after the `made`-th attempt of at most `max`.
pub open spec fn step_after(made: nat, max: nat, succeeded: bool) -> Step {
    if succeeded {
        Step::Done
    } else if made >= max {
        Step::GiveUp
    } else {
        Step::Retry
    }
}

/// Attempting, from `made` attempts already made, with the outcomes in
/// `outcomes` (one per attempt) until success, exhaustion, or the end of the
/// outcomes: how many attempts were then made, and the last step.
pub open spec fn drive(made: nat, max: nat, outcomes: Seq<bool>) -> (nat, Step)
    decreases outcomes.len(),
{
    if made >= max {
        (made, Step::GiveUp)
    } else if outcomes.len() == 0 {
        (made, Step::Retry)
    } else {
        let s = step_after(made + 1, max, outcomes[0]);
        if s == Step::Retry {
            drive(made + 1, max, outcomes.drop_first())
        } else {
            (made + 1, s)
        }
    }
}

/// A bounded number of attempts: a readiness probe, or the delivery of a
/// record to the keeper.
pub struct AttemptBudget {
    max_attempts: u32,
    made: u32,
}

impl AttemptBudget {
    pub closed spec fn max(&self) -> nat {
        self.max_attempts as nat
    }

    pub closed spec fn made(&self) -> nat {
        self.made as nat
    }

    /// At most `max_attempts` attempts, none made yet.
    pub fn new(max_attempts: u32) -> (r: AttemptBudget)
        ensures
            r.max() == max_attempts,
            r.made() == 0,
    {
        AttemptBudget { max_attempts, made: 0 }
    }

    /// Whether another attempt may be made.
    pub fn can_attempt(&self) -> (r: bool)
        ensures
            r == (self.made() < self.max()),
    {
        self.made < self.max_attempts
    }

    /// How many attempts were made.
    pub fn attempts(&self) -> (r: u32)
        ensures
            r == self.made(),
    {
        self.made
    }

    /// Counts an attempt and its outcome, and says what comes next.
    pub fn record(&mut self, succeeded: bool) -> (r: Step)
        requires
            old(self).made() < old(self).max(),
        ensures
            final(self).made() == old(self).made() + 1,
            final(self).max() == old(self).max(),
            r == step_after(final(self).made(), old(self).max(), succeeded),
    {
        self.made = self.made + 1;
        if succeeded {
            Step::Done
        } else if self.made >= self.max_attempts {
            Step::GiveUp
        } else {
            Step::Retry
        }
    }
}

/// Where the first success comes at attempt `k + 1` and `k < max`, the
/// attempts stop there, successfully.
pub proof fn lemma_ready_at_first_success(max: nat, outcomes: Seq<bool>, k: nat)
    requires
        k < max,
        k < outcomes.len(),
        outcomes[k as int],
        forall|i: int| 0 <= i < k ==> !outcomes[i],
    ensures
        drive(0, max, outcomes) == (k + 1, Step::Done),
{
    lemma_success_from(0, max, outcomes, k);
}

proof fn lemma_success_from(made: nat, max: nat, outcomes: Seq<bool>, k: nat)
    requires
        made + k < max,
        k < outcomes.len(),
        outcomes[k as int],
        forall|i: int| 0 <= i < k ==> !outcomes[i],
    ensures
        drive(made, max, outcomes) == (made + k + 1, Step::Done),
    decreases k,
{
    if k > 0 {
        let rest = outcomes.drop_first();
        assert forall|i: int| 0 <= i < (k - 1) as nat implies !rest[i] by {
            assert(rest[i] == outcomes[i + 1]);
        }
        lemma_success_from(made + 1, max, rest, (k - 1) as nat);
    }
}

/// Where no success comes within the first `max` outcomes (a sink that
/// always fails, say), exactly `max` attempts are made, then given up.
pub proof fn lemma_retry_bound(max: nat, outcomes: Seq<bool>)
    requires
        outcomes.len() >= max,
        forall|i: int| 0 <= i < max ==> !outcomes[i],
    ensures
        drive(0, max, outcomes) == (max, Step::GiveUp),
{
    lemma_fail_prefix(0, max, outcomes);
}

proof fn lemma_fail_prefix(made: nat, max: nat, outcomes: Seq<bool>)
    requires
        made <= max,
        outcomes.len() >= max - made,
        forall|i: int| 0 <= i < max - made ==> !outcomes[i],
    ensures
        drive(made, max, outcomes) == (max, Step::GiveUp),
    decreases outcomes.len(),
{
    if made < max {
        let rest = outcomes.drop_first();
        assert forall|i: int| 0 <= i < max - (made + 1) implies !rest[i] by {
            assert(rest[i] == outcomes[i + 1]);
        }
        lemma_fail_prefix(made + 1, max, rest);
    }
}

} // verus!
