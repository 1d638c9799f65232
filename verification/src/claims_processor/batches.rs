//! What an automatic run over the queue comes to as a whole.

use crate::claims_processor::laws::Request;
use crate::claims_processor::state::{MAX_BATCH_SIZE, ProcessorState, is_subsequence};
use crate::claims_processor::types::{ClaimResult, ClaimStatus, Reply, Step};
use crate::text::Addr;
use vstd::prelude::*;

verus! {

impl ProcessorState {
    /// One attempt of an automatic run: the state after it and what became of
    /// the claim. `answers` holds what the other contracts answer, or nothing
    /// where they fail. `None` where the claim is passed over: it is no longer
    /// pending or was evaluated before, or its processing fails.
    pub open spec fn attempt(
        self,
        now: u64,
        keeper: Addr,
        claim_id: u128,
        answers: Option<Reply>,
    ) -> Option<(ProcessorState, ClaimResult)> {
        if !self.is_candidate(claim_id) {
            None
        } else {
            match answers {
                None => None,
                Some(reply) => match self.auto_process(
                    now,
                    keeper,
                    self.claims[claim_id].policy_id,
                    None,
                    reply,
                ) {
                    Ok((t, Step::Done(result))) => Some((t, result)),
                    _ => None,
                },
            }
        }
    }

    /// The state and the results after the first `n` claims of a queue were
    /// attempted in turn.
    pub open spec fn run_batch(
        self,
        now: u64,
        keeper: Addr,
        queue: Seq<u128>,
        answers: Seq<Option<Reply>>,
        n: nat,
    ) -> (ProcessorState, Seq<(u128, ClaimResult)>)
        decreases n,
    {
        if n == 0 {
            (self, Seq::empty())
        } else {
            let (s, results) = self.run_batch(now, keeper, queue, answers, (n - 1) as nat);
            match s.attempt(now, keeper, queue[n - 1], answers[n - 1]) {
                Some((t, result)) => (t, results.push((queue[n - 1], result))),
                None => (s, results),
            }
        }
    }
}

/// The claims that results speak of, in order.
pub open spec fn claims_of(results: Seq<(u128, ClaimResult)>) -> Seq<u128> {
    results.map_values(|p: (u128, ClaimResult)| p.0)
}

/// The results of an automatic run speak of some of the claims in its queue, in
/// their order. The queue is the head of the pending claims, as long as `limit`
/// says but never longer than a batch may be.
pub proof fn law_batch_follows_the_queue(
    s: ProcessorState,
    now: u64,
    keeper: Addr,
    limit: u32,
    answers: Seq<Option<Reply>>,
    n: nat,
)
    requires
        n <= s.batch_queue(limit).len(),
    ensures
        ({
            let queue = s.batch_queue(limit);
            let results = s.demand(keeper).run_batch(now, keeper, queue, answers, n).1;
            &&& queue.is_prefix_of(s.pending_claims)
            &&& queue.len() <= limit && queue.len() <= MAX_BATCH_SIZE
            &&& queue.len() == s.pending_claims.len() || queue.len() == limit || queue.len()
                == MAX_BATCH_SIZE
            &&& limit >= MAX_BATCH_SIZE ==> queue == s.batch_queue(u32::MAX)
            &&& is_subsequence(claims_of(results), queue.take(n as int))
            &&& results.len() <= n
        }),
    decreases n,
{
    let queue = s.batch_queue(limit);
    let start = s.demand(keeper);
    let results = start.run_batch(now, keeper, queue, answers, n).1;
    if n == 0 {
        assert(claims_of(results) =~= Seq::<u128>::empty());
    } else {
        law_batch_follows_the_queue(s, now, keeper, limit, answers, (n - 1) as nat);
        let before = start.run_batch(now, keeper, queue, answers, (n - 1) as nat).1;
        let seen = queue.take(n as int);
        assert(seen.drop_last() =~= queue.take(n - 1));
        if results != before {
            assert(claims_of(results).drop_last() =~= claims_of(before));
            assert(claims_of(results).last() == seen.last());
        }
    }
}

/// Each claim of an automatic run is on its own. One that is passed over leaves
/// the state and the results as they were, and those after it are attempted all
/// the same; for any other, the result is what automatic processing of its
/// policy answered, in the state that the claims before it left.
pub proof fn law_batch_attempts_each_claim(
    s: ProcessorState,
    now: u64,
    keeper: Addr,
    queue: Seq<u128>,
    answers: Seq<Option<Reply>>,
    n: nat,
    i: nat,
)
    requires
        i < n <= queue.len(),
    ensures
        ({
            let (before, earlier) = s.run_batch(now, keeper, queue, answers, i);
            let (next, later) = s.run_batch(now, keeper, queue, answers, i + 1);
            let results = s.run_batch(now, keeper, queue, answers, n).1;
            &&& later.is_prefix_of(results)
            &&& match before.attempt(now, keeper, queue[i as int], answers[i as int]) {
                None => next == before && later == earlier,
                Some((t, result)) => {
                    &&& next == t
                    &&& later == earlier.push((queue[i as int], result))
                    &&& before.claims[queue[i as int]].status == ClaimStatus::Pending
                    &&& before.auto_process(
                        now,
                        keeper,
                        before.claims[queue[i as int]].policy_id,
                        None,
                        answers[i as int]->0,
                    ) == Ok::<_, crate::claims_processor::types::Error>((t, Step::Done(result)))
                },
            }
        }),
    decreases n,
{
    if n > i + 1 {
        law_batch_attempts_each_claim(s, now, keeper, queue, answers, (n - 1) as nat, i);
    }
}

/// A run is a sequence of requests for automatic processing, so whatever these
/// keep, it keeps: a claim attempted is one such request, and one passed over is
/// none.
pub proof fn law_attempt_is_a_request(
    s: ProcessorState,
    now: u64,
    keeper: Addr,
    claim_id: u128,
    answers: Option<Reply>,
)
    ensures
        s.attempt(now, keeper, claim_id, answers) matches Some((t, _)) ==> t == s.apply(
            Request::AutoProcess {
                now,
                keeper,
                policy_id: s.claims[claim_id].policy_id,
                bps: None,
                reply: answers->0,
            },
        ),
{
    reveal(ProcessorState::apply);
}

} // verus!
