//! Trying again: how often something is fetched, and when to pause in between.

use vstd::prelude::*;

verus! {

/// How long to wait before the next attempt, in milliseconds.
pub const RETRY_DELAY_MILLIS: u64 = 200;

/// The attempts at one fetch.
#[derive(Debug)]
pub struct Retry {
    attempt: u32,
    limit: u32,
}

/// Whether there is an attempt left, out of `limit`, after `failed` of them have
/// failed.
pub open spec fn attempt_left(failed: nat, limit: nat) -> bool {
    failed < limit
}

impl Retry {
    /// How many attempts have failed.
    pub closed spec fn failed(self) -> nat {
        self.attempt as nat
    }

    /// How many attempts there may be.
    pub closed spec fn limit(self) -> nat {
        self.limit as nat
    }

    /// Whether there is an attempt left.
    pub open spec fn may_try(self) -> bool {
        attempt_left(self.failed(), self.limit())
    }

    /// No attempt made yet, out of `limit`.
    pub fn new(limit: u32) -> (res: Self)
        ensures
            res.failed() == 0,
            res.limit() == limit,
    {
        Retry { attempt: 0, limit }
    }

    /// Whether there is an attempt left.
    pub fn can_try(&self) -> (res: bool)
        ensures
            res == self.may_try(),
            res <==> self.failed() < self.limit(),
    {
        self.attempt < self.limit
    }

    /// Notes that an attempt has failed. Gives whether to wait and try again.
    pub fn fail(&mut self) -> (res: bool)
        requires
            old(self).may_try(),
        ensures
            final(self).failed() == old(self).failed() + 1,
            final(self).limit() == old(self).limit(),
            res == final(self).may_try(),
            res <==> old(self).failed() + 1 < old(self).limit(),
    {
        self.attempt = self.attempt + 1;
        self.attempt < self.limit
    }
}

// ---------------------------------------------------------------------------
// Laws
// ---------------------------------------------------------------------------
/// What a whole fetch comes to.
pub struct RetryRun {
    /// How many attempts were made.
    pub attempts: nat,
    /// How many times there was a wait.
    pub waits: nat,
    /// Whether an attempt succeeded.
    pub success: bool,
}

/// The fetch in which, after `failed` attempts have failed, the next ones come to
/// the given outcomes, in order.
pub open spec fn run_from(failed: nat, limit: nat, outcomes: Seq<bool>) -> RetryRun
    decreases outcomes.len(),
{
    if !attempt_left(failed, limit) || outcomes.len() == 0 {
        RetryRun { attempts: 0, waits: 0, success: false }
    } else if outcomes[0] {
        RetryRun { attempts: 1, waits: 0, success: true }
    } else if attempt_left(failed + 1, limit) {
        let rest = run_from(failed + 1, limit, outcomes.subrange(1, outcomes.len() as int));
        RetryRun { attempts: rest.attempts + 1, waits: rest.waits + 1, ..rest }
    } else {
        RetryRun { attempts: 1, waits: 0, success: false }
    }
}

proof fn lemma_run(failed: nat, limit: nat, outcomes: Seq<bool>)
    requires
        failed < limit,
        outcomes.len() >= limit - failed,
    ensures
        ({
            let run = run_from(failed, limit, outcomes);
            &&& 1 <= run.attempts <= limit - failed
            &&& run.waits == run.attempts - 1
            &&& run.success == outcomes[run.attempts - 1]
            &&& !run.success ==> run.attempts == limit - failed
            &&& forall|i: int| 0 <= i < run.attempts - 1 ==> !(#[trigger] outcomes[i])
        }),
    decreases outcomes.len(),
{
    if !outcomes[0] && failed + 1 < limit {
        let rest = outcomes.subrange(1, outcomes.len() as int);
        lemma_run(failed + 1, limit, rest);
        let run = run_from(failed, limit, outcomes);
        assert forall|i: int| 0 <= i < run.attempts - 1 implies !(#[trigger] outcomes[i]) by {
            if i > 0 {
                assert(rest[i - 1] == outcomes[i]);
            }
        }
    }
}

/// A fetch makes attempts until one succeeds or `limit` of them have failed, and
/// waits between attempts only: never before the first, nor after the last.
pub proof fn law_fetch_stops_at_first_success(limit: nat, outcomes: Seq<bool>)
    requires
        limit > 0,
        outcomes.len() >= limit,
    ensures
        ({
            let run = run_from(0, limit, outcomes);
            &&& 1 <= run.attempts <= limit
            &&& run.waits == run.attempts - 1
            &&& run.success == outcomes[run.attempts - 1]
            &&& !run.success ==> run.attempts == limit
            &&& forall|i: int| 0 <= i < run.attempts - 1 ==> !(#[trigger] outcomes[i])
        }),
{
    lemma_run(0, limit, outcomes);
}

/// Without any attempts allowed, none is made.
pub proof fn law_no_attempts_without_a_limit(outcomes: Seq<bool>)
    ensures
        run_from(0, 0, outcomes) == (RetryRun { attempts: 0, waits: 0, success: false }),
{
}

/// An attempt is left exactly as long as fewer than `limit` have failed.
pub proof fn law_attempts_are_left_below_the_limit(failed: nat, limit: nat)
    ensures
        attempt_left(failed, limit) <==> failed < limit,
        !attempt_left(limit, limit),
        attempt_left(failed + 1, limit) ==> attempt_left(failed, limit),
{
}

/// Between two attempts there is a fifth of a second.
pub proof fn law_attempts_are_a_fifth_of_a_second_apart()
    ensures
        5 * RETRY_DELAY_MILLIS == 1000,
{
}

} // verus!
