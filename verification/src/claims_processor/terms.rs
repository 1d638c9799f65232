//! What the processor's answers amount to: which claims are taken, what they are
//! paid, when, and what the fraud detector makes of them.

use crate::claims_processor::state::{ProcessorState, claim_ttl_of};
use crate::claims_processor::types::{
    AdminUpdated, Claim, ClaimDeadlineUpdated, ClaimDisputed, ClaimEscalated, ClaimResolved,
    ClaimResult, ClaimStatus, ClaimSubmitted, Effect, Error, EscalationThresholdUpdated, Event,
    FraudConfig, FraudConfigUpdated, FraudFlagged, FraudMode, FraudRecord, Initialized,
    InstallmentPaid, InstallmentPayoutScheduled, InstallmentSchedule, PayoutDelayUpdated, Question,
    Reply, Step,
};
use crate::oracle_verifier::types::{TriggerComparison, TriggerCondition};
use crate::outcome::after;
use crate::policy_engine::types::{Policy, PolicyStatus};
use crate::text::{Addr, Sym};
use vstd::prelude::*;

verus! {

/// The order to pay a policy: the engine closes it and the pool lets the money go.
pub open spec fn payment(s: ProcessorState, policy_id: u128) -> Seq<Effect> {
    seq![
        Effect::PayPolicy { policy_engine: s.policy_engine->0, policy_id },
        Effect::ReleaseForClaim { risk_pool: s.risk_pool->0, policy_id },
    ]
}

/// A pending claim is settled by a keeper on the oracle's verdict. Where the
/// trigger is met the claimant gets the share asked for, at most all of the
/// coverage and all of it where no share is named, rounded down; the payment is
/// made now, or promised for the end of the payout delay. Where it is not met the
/// claim is rejected and nothing is paid.
pub proof fn law_payouts(
    s: ProcessorState,
    now: u64,
    keeper: Addr,
    id: u128,
    bps: Option<u32>,
    policy: Policy,
    met: bool,
)
    requires
        s.keepers.contains_key(keeper) && s.keepers[keeper],
        !s.paused,
        s.oracle_verifier is Some,
        s.policy_engine is Some,
        s.risk_pool is Some,
        s.claims.contains_key(id),
        s.claims[id].id == id,
        s.claims[id].status == ClaimStatus::Pending,
        s.claims[id].coverage_amount >= 0,
    ensures
        ({
            let reply = Reply { policy: Some(policy), trigger: Some(met) };
            let outcome = s.process_claim(now, keeper, id, bps, reply);
            let claim = s.claims[id];
            let share = match bps {
                Some(b) => if b < 10_000 {
                    b as int
                } else {
                    10_000
                },
                None => 10_000,
            };
            let identified = claim.identity_verified || !s.identity_requirements.contains_key(
                policy.product_id,
            );
            &&& outcome is Ok <==> !met || identified
            &&& met && !identified ==> outcome == Err::<
                (ProcessorState, Step<ClaimResult>),
                Error,
            >(Error::IdentityVerificationRequired)
            &&& outcome matches Ok((t, answer)) ==> {
                let c = t.claims[id];
                let policy_id = claim.policy_id;
                let coverage_amount = claim.coverage_amount;
                &&& t =~= (ProcessorState {
                    claims: s.claims.insert(id, c),
                    pending_claims: t.pending_claims,
                    outbox: s.outbox + seq![Effect::RequireAuth(keeper)] + (if met && s.payout_delay
                        == 0 {
                        payment(s, policy_id)
                    } else {
                        seq![]
                    }) + seq![
                        Effect::Emit(
                            if met {
                                Event::ClaimPaid { claim_id: id, policy_id, coverage_amount }
                            } else {
                                Event::ClaimRejected { claim_id: id, policy_id }
                            },
                        ),
                        Effect::Emit(
                            Event::ClaimSettled { claim_id: id, trigger_met: met, coverage_amount },
                        ),
                    ],
                    ..s
                })
                &&& c == (Claim {
                    trigger_met: met,
                    processed_at: Some(now),
                    status: c.status,
                    paid_amount: c.paid_amount,
                    partial_payout_bps: c.partial_payout_bps,
                    payout_ready_at: c.payout_ready_at,
                    ..claim
                })
                &&& !met ==> {
                    &&& answer == Step::Done(ClaimResult::Rejected)
                    &&& c.status == ClaimStatus::Rejected
                    &&& c.paid_amount == claim.paid_amount
                    &&& c.payout_ready_at == claim.payout_ready_at
                    &&& c.partial_payout_bps == claim.partial_payout_bps
                }
                &&& met ==> {
                    &&& c.paid_amount is Some
                    &&& c.partial_payout_bps is Some && c.partial_payout_bps->0 == share
                    &&& share == 10_000 ==> c.paid_amount->0 == claim.coverage_amount && c.status
                        == ClaimStatus::Paid && answer == Step::Done(ClaimResult::Paid)
                    &&& share < 10_000 ==> c.paid_amount->0 * 10_000 <= claim.coverage_amount
                        * share < (c.paid_amount->0 + 1) * 10_000 && c.status
                        == ClaimStatus::PartiallyPaid && answer == Step::Done(
                        ClaimResult::PartiallyPaid,
                    )
                    &&& s.payout_delay == 0 ==> c.payout_ready_at == claim.payout_ready_at
                    &&& s.payout_delay > 0 ==> {
                        &&& c.payout_ready_at is Some
                        &&& now + s.payout_delay <= u64::MAX ==> c.payout_ready_at->0 == now
                            + s.payout_delay
                    }
                }
            }
        }),
{
    let claim = s.claims[id];
    let share = match bps {
        Some(b) => if b < 10_000 {
            b as int
        } else {
            10_000
        },
        None => 10_000,
    };
    let x = claim.coverage_amount * share;
    assert(0 <= x <= claim.coverage_amount * 10_000) by (nonlinear_arith)
        requires
            claim.coverage_amount >= 0,
            0 <= share <= 10_000,
            x == claim.coverage_amount * share,
    ;
    assert(0 <= x / 10_000 <= claim.coverage_amount);
    assert((x / 10_000) * 10_000 <= x < (x / 10_000 + 1) * 10_000);
}

/// What a keeper is told or asked: nobody else may settle claims, and nobody
/// while the processor is paused; what is settled stays settled; the policy comes
/// from the engine, and the verdict from the oracle, on the policy's own terms
/// and on data no older than allowed (seven days where nothing was set).
pub proof fn law_what_is_asked(
    s: ProcessorState,
    now: u64,
    keeper: Addr,
    id: u128,
    bps: Option<u32>,
    reply: Reply,
)
    ensures
        ({
            let outcome = s.process_claim(now, keeper, id, bps, reply);
            let may = s.keepers.contains_key(keeper) && s.keepers[keeper];
            let claim = s.claims[id];
            let wired = s.oracle_verifier is Some && s.policy_engine is Some && s.risk_pool is Some;
            &&& !may ==> outcome == Err::<(ProcessorState, Step<ClaimResult>), Error>(
                Error::Unauthorized,
            )
            &&& may && s.paused ==> outcome == Err::<(ProcessorState, Step<ClaimResult>), Error>(
                Error::Paused,
            )
            &&& may && !s.paused && !s.claims.contains_key(id) ==> outcome == Err::<
                (ProcessorState, Step<ClaimResult>),
                Error,
            >(Error::ClaimNotFound)
            &&& may && !s.paused && s.claims.contains_key(id) && claim.status
                != ClaimStatus::Pending ==> (outcome matches Ok((t, answer)) && answer
                == Step::Done(ClaimResult::AlreadyProcessed) && t.claims == s.claims)
            &&& may && !s.paused && s.claims.contains_key(id) && claim.status
                == ClaimStatus::Pending && wired && reply.policy is None ==> (outcome matches Ok(
                (t, answer),
            ) && t == s && answer == (Step::<ClaimResult>::Ask {
                item: 0,
                question: Question::Policy {
                    policy_engine: s.policy_engine->0,
                    policy_id: claim.policy_id,
                },
            }))
            &&& may && !s.paused && s.claims.contains_key(id) && claim.status
                == ClaimStatus::Pending && wired && reply.policy is Some && reply.trigger is None
                ==> (outcome matches Ok((t, answer)) && t == s && answer == (Step::<
                ClaimResult,
            >::Ask { item: 0, question: question_on(s, reply.policy->0) }))
        }),
{
}

/// The question whether a policy's trigger is met.
pub open spec fn question_on(s: ProcessorState, policy: Policy) -> Question {
    Question::Trigger {
        oracle_verifier: s.oracle_verifier->0,
        condition: TriggerCondition {
            data_type: policy.oracle_data_type,
            key: policy.oracle_key,
            threshold: policy.trigger_threshold,
            comparison: if policy.trigger_comparison is LessThan {
                TriggerComparison::LessThan
            } else if policy.trigger_comparison is GreaterThan {
                TriggerComparison::GreaterThan
            } else {
                TriggerComparison::Equal
            },
            tolerance: 0,
        },
        max_age_seconds: match s.staleness_threshold {
            Some(age) => age,
            None => 604_800,
        },
    }
}

/// A claim is taken from the holder of an active policy that has none yet, up to
/// the deadline after the policy's end (thirty days where nothing was set),
/// unless the fraud detector blocks it. It is the next in number and in the
/// queue, for the policy's coverage.
pub proof fn law_submissions(
    s: ProcessorState,
    now: u64,
    claimant: Addr,
    policy_id: u128,
    policy: Policy,
)
    requires
        s.policy_engine is Some,
        s.next_claim_id is Some,
        s.next_claim_id->0 < u128::MAX,
    ensures
        ({
            let reply = Reply { policy: Some(policy), trigger: None };
            let outcome = s.submit_claim(now, claimant, policy_id, reply);
            let grace = match s.claim_deadline {
                Some(d) => d as int,
                None => 2_592_000,
            };
            &&& outcome is Ok <==> {
                &&& !s.paused
                &&& !s.policy_claims.contains_key(policy_id)
                &&& policy.policyholder == claimant
                &&& policy.status == PolicyStatus::Active
                &&& policy.end_time == 0 || now <= policy.end_time + grace
                &&& !(s.is_flagged(now, claimant, policy.coverage_amount) && s.fraud_config->0.mode
                    == FraudMode::Block)
            }
            &&& outcome matches Ok((t, answer)) ==> {
                let id = s.next_claim_id->0;
                let c = t.claims[id];
                &&& answer == Step::Done(id)
                &&& t =~= (ProcessorState {
                    next_claim_id: Some((id + 1) as u128),
                    claims: s.claims.insert(id, c),
                    policy_claims: s.policy_claims.insert(policy_id, id),
                    pending_claims: s.pending_claims.push(id),
                    claimant_history: t.claimant_history,
                    fraud_records: t.fraud_records,
                    outbox: s.outbox + seq![Effect::RequireAuth(claimant)] + (if s.is_flagged(
                        now,
                        claimant,
                        policy.coverage_amount,
                    ) {
                        seq![
                            Effect::Emit(
                                Event::FraudFlagged(
                                    FraudFlagged {
                                        claim_id: id,
                                        claimant,
                                        score: s.judge(now, claimant, policy.coverage_amount).0,
                                        flags: s.judge(now, claimant, policy.coverage_amount).1,
                                        mode: s.fraud_config->0.mode,
                                    },
                                ),
                            ),
                        ]
                    } else {
                        seq![]
                    }) + seq![
                        Effect::Emit(
                            Event::ClaimSubmitted(
                                ClaimSubmitted {
                                    claim_id: id,
                                    policy_id,
                                    claimant,
                                    coverage_amount: policy.coverage_amount,
                                },
                            ),
                        ),
                    ],
                    ..s
                })
                &&& c.id == id && c.policy_id == policy_id && c.claimant == claimant
                &&& c.coverage_amount == policy.coverage_amount
                &&& c.status == ClaimStatus::Pending && c.submitted_at == now
                &&& c.processed_at is None && c.paid_amount is None && c.installments is None
                &&& c.payout_ready_at is None && !c.trigger_met && !c.identity_verified
                &&& c.observed_value is None && c.dispute_reason is None
                &&& c.partial_payout_bps is None && c.verification_type is None
                &&& c.verification_time is None
            }
        }),
{
}

/// Whether a claimant's submission comes too soon after the one before.
pub open spec fn too_soon(cfg: FraudConfig, now: u64, last: u64) -> bool {
    cfg.rate_score > 0 && last > 0 && now < last + cfg.rate_window_secs && cfg.rate_window_secs > 0
}

/// What the fraud detector makes of a submission by someone who submitted before:
/// each rule that fires adds its score and sets its flag. The rules are that the
/// last submission was less than the rate window ago, that this one is at least
/// the burst count's within the burst window, and that the coverage is more than
/// a multiple of the highest before.
pub proof fn law_fraud_scores(s: ProcessorState, now: u64, claimant: Addr, coverage: i128)
    requires
        s.fraud_config is Some,
        s.claimant_history.contains_key(claimant),
        s.claimant_history[claimant].burst_count < u32::MAX,
    ensures
        ({
            let cfg = s.fraud_config->0;
            let h = s.claimant_history[claimant];
            let (score, flags) = s.judge(now, claimant, coverage);
            let soon = too_soon(cfg, now, h.last_submission_at);
            let place = if h.burst_bucket_start > 0 && now < h.burst_bucket_start
                + cfg.burst_window_secs {
                h.burst_count + 1
            } else {
                1
            };
            let burst = cfg.burst_window_secs > 0 && cfg.burst_count > 0 && cfg.burst_score > 0
                && place >= cfg.burst_count;
            let large = cfg.coverage_anomaly_multiplier > 0 && cfg.coverage_score > 0
                && h.max_coverage_ever > 0 && coverage > h.max_coverage_ever
                * cfg.coverage_anomaly_multiplier;
            let sum = (if soon {
                cfg.rate_score as int
            } else {
                0
            }) + (if burst {
                cfg.burst_score as int
            } else {
                0
            }) + (if large {
                cfg.coverage_score as int
            } else {
                0
            });
            &&& sum <= u32::MAX ==> score == sum
            &&& sum > u32::MAX ==> score == u32::MAX
            &&& flags == 0 <==> !soon && !burst && !large
            &&& flags % 2 == 1 <==> soon
            &&& (flags / 2) % 2 == 1 <==> burst
            &&& (flags / 4) % 2 == 1 <==> large
            &&& flags < 8
            &&& s.is_flagged(now, claimant, coverage) <==> cfg.fraud_threshold_score > 0 && (sum
                >= cfg.fraud_threshold_score)
        }),
{
    let cfg = s.fraud_config->0;
    let h = s.claimant_history[claimant];
    let m = h.max_coverage_ever * cfg.coverage_anomaly_multiplier;
    assert(h.max_coverage_ever > 0 && cfg.coverage_anomaly_multiplier > 0 ==> m > 0)
        by (nonlinear_arith)
        requires
            m == h.max_coverage_ever * cfg.coverage_anomaly_multiplier,
    ;
}

/// Of a first submission only the rule on bursts can fire, and it does only where
/// one submission is already too many. Without a detector nothing is flagged.
pub proof fn law_first_submissions(s: ProcessorState, now: u64, claimant: Addr, coverage: i128)
    requires
        !s.claimant_history.contains_key(claimant),
    ensures
        ({
            let (score, flags) = s.judge(now, claimant, coverage);
            let cfg = s.fraud_config->0;
            let burst = s.fraud_config is Some && cfg.burst_count == 1 && cfg.burst_window_secs > 0
                && cfg.burst_score > 0;
            &&& burst ==> score == cfg.burst_score && flags == 2
            &&& !burst ==> score == 0 && flags == 0
            &&& s.fraud_config is None ==> !s.is_flagged(now, claimant, coverage)
        }),
{
}

/// A submission that is let through goes into the claimant's history: its time,
/// its place in a burst, the highest coverage so far and the number of them. A
/// burst starts with the first submission after the window of the one before is
/// over. One that is flagged goes on record with its score.
pub proof fn law_submissions_are_remembered(
    s: ProcessorState,
    now: u64,
    claimant: Addr,
    policy_id: u128,
    policy: Policy,
    other: Addr,
)
    requires
        s.submit_claim(
            now,
            claimant,
            policy_id,
            Reply { policy: Some(policy), trigger: None },
        ) is Ok,
        s.claimant_history.contains_key(claimant),
        s.claimant_history[claimant].burst_count < u32::MAX,
        s.claimant_history[claimant].total_submissions < u32::MAX,
        other != claimant,
    ensures
        ({
            let t = after(
                s,
                s.submit_claim(
                    now,
                    claimant,
                    policy_id,
                    Reply { policy: Some(policy), trigger: None },
                ),
            );
            let h = s.claimant_history[claimant];
            let k = t.claimant_history[claimant];
            let window = s.fraud_config->0.burst_window_secs;
            let followed = s.fraud_config is Some && window > 0;
            let goes_on = h.burst_bucket_start > 0 && now < h.burst_bucket_start + window;
            let id = s.claim_counter();
            &&& t.claimant_history.contains_key(claimant)
            &&& k.last_submission_at == now
            &&& k.total_submissions == h.total_submissions + 1
            &&& policy.coverage_amount >= h.max_coverage_ever ==> k.max_coverage_ever
                == policy.coverage_amount
            &&& policy.coverage_amount <= h.max_coverage_ever ==> k.max_coverage_ever
                == h.max_coverage_ever
            &&& !followed ==> k.burst_count == 0 && k.burst_bucket_start == 0
            &&& followed && goes_on ==> k.burst_count == h.burst_count + 1 && k.burst_bucket_start
                == h.burst_bucket_start
            &&& followed && !goes_on ==> k.burst_count == 1 && k.burst_bucket_start == now
            &&& t.claimant_history.contains_key(other) <==> s.claimant_history.contains_key(other)
            &&& t.claimant_history[other] == s.claimant_history[other]
            &&& s.is_flagged(now, claimant, policy.coverage_amount) ==> t.fraud_records
                == s.fraud_records.insert(
                id,
                FraudRecord {
                    claim_id: id,
                    score: s.judge(now, claimant, policy.coverage_amount).0,
                    flags: s.judge(now, claimant, policy.coverage_amount).1,
                    checked_at: now,
                },
            )
            &&& !s.is_flagged(now, claimant, policy.coverage_amount) ==> t.fraud_records
                == s.fraud_records
        }),
{
}

/// The first submission of a claimant starts the history.
pub proof fn law_first_submission_is_remembered(
    s: ProcessorState,
    now: u64,
    claimant: Addr,
    policy_id: u128,
    policy: Policy,
)
    requires
        s.submit_claim(
            now,
            claimant,
            policy_id,
            Reply { policy: Some(policy), trigger: None },
        ) is Ok,
        !s.claimant_history.contains_key(claimant),
    ensures
        ({
            let t = after(
                s,
                s.submit_claim(
                    now,
                    claimant,
                    policy_id,
                    Reply { policy: Some(policy), trigger: None },
                ),
            );
            let k = t.claimant_history[claimant];
            let followed = s.fraud_config is Some && s.fraud_config->0.burst_window_secs > 0;
            &&& t.claimant_history.contains_key(claimant)
            &&& k.last_submission_at == now && k.total_submissions == 1
            &&& policy.coverage_amount >= 0 ==> k.max_coverage_ever == policy.coverage_amount
            &&& followed ==> k.burst_count == 1 && k.burst_bucket_start == now
            &&& !followed ==> k.burst_count == 0 && k.burst_bucket_start == 0
        }),
{
}

/// Automatic processing: a policy that has run out is expired and its reserve
/// released; one that was settled before, cancelled or expired is left alone; and
/// one that is running is settled on the oracle's verdict, a claim being opened
/// for its holder where there is none.
pub proof fn law_automatic_processing(
    s: ProcessorState,
    now: u64,
    keeper: Addr,
    policy_id: u128,
    bps: Option<u32>,
    policy: Policy,
    met: bool,
)
    requires
        s.keepers.contains_key(keeper) && s.keepers[keeper],
        !s.paused,
        s.oracle_verifier is Some,
        s.policy_engine is Some,
        s.risk_pool is Some,
        !s.policy_claims.contains_key(policy_id),
        s.claim_counter() < u128::MAX,
        policy.coverage_amount >= 0,
    ensures
        ({
            let reply = Reply { policy: Some(policy), trigger: Some(met) };
            let outcome = s.auto_process(now, keeper, policy_id, bps, reply);
            let active = policy.status == PolicyStatus::Active;
            &&& policy.status == PolicyStatus::Claimed ==> (outcome matches Ok((t, answer))
                && t =~= s.demand(keeper) && answer == Step::Done(ClaimResult::AlreadyClaimed))
            &&& policy.status == PolicyStatus::Expired ==> (outcome matches Ok((t, answer))
                && t =~= s.demand(keeper) && answer == Step::Done(ClaimResult::Expired))
            &&& policy.status == PolicyStatus::Cancelled ==> (outcome matches Ok((t, answer))
                && t =~= s.demand(keeper) && answer == Step::Done(ClaimResult::PolicyNotActive))
            &&& active && policy.end_time <= now ==> (outcome matches Ok((t, answer)) && answer
                == Step::Done(ClaimResult::Expired) && t =~= (ProcessorState {
                outbox: s.outbox + seq![
                    Effect::RequireAuth(keeper),
                    Effect::ExpirePolicy { policy_engine: s.policy_engine->0, policy_id },
                    Effect::ReleaseForExpiry { risk_pool: s.risk_pool->0, policy_id },
                ],
                ..s
            }))
            &&& active && now < policy.end_time && met && s.identity_requirements.contains_key(
                policy.product_id,
            ) ==> outcome == Err::<(ProcessorState, Step<ClaimResult>), Error>(
                Error::IdentityVerificationRequired,
            )
            &&& active && now < policy.end_time && (!met || !s.identity_requirements.contains_key(
                policy.product_id,
            )) ==> (outcome matches Ok((t, answer)) && {
                let id = s.claim_counter();
                let c = t.claims[id];
                &&& t =~= (ProcessorState {
                    next_claim_id: Some((id + 1) as u128),
                    claims: s.claims.insert(id, c),
                    policy_claims: s.policy_claims.insert(policy_id, id),
                    pending_claims: t.pending_claims,
                    outbox: s.outbox + seq![
                        Effect::RequireAuth(keeper),
                        Effect::Emit(
                            Event::ClaimSubmitted(
                                ClaimSubmitted {
                                    claim_id: id,
                                    policy_id,
                                    claimant: policy.policyholder,
                                    coverage_amount: policy.coverage_amount,
                                },
                            ),
                        ),
                    ] + (if met && s.payout_delay == 0 {
                        payment(s, policy_id)
                    } else {
                        seq![]
                    }) + seq![
                        Effect::Emit(
                            if met {
                                Event::ClaimPaid {
                                    claim_id: id,
                                    policy_id,
                                    coverage_amount: policy.coverage_amount,
                                }
                            } else {
                                Event::ClaimRejected { claim_id: id, policy_id }
                            },
                        ),
                        Effect::Emit(
                            Event::ClaimSettled {
                                claim_id: id,
                                trigger_met: met,
                                coverage_amount: policy.coverage_amount,
                            },
                        ),
                    ],
                    ..s
                })
                &&& c.id == id && c.policy_id == policy_id && c.claimant == policy.policyholder
                &&& !(met && s.payout_delay > 0) ==> c.payout_ready_at is None
                &&& met && s.payout_delay > 0 && now + s.payout_delay <= u64::MAX
                    ==> c.payout_ready_at == Some((now + s.payout_delay) as u64)
                &&& c.coverage_amount == policy.coverage_amount && c.submitted_at == now
                &&& c.trigger_met == met && c.processed_at == Some(now)
                &&& !met ==> answer == Step::Done(ClaimResult::Rejected) && c.status
                    == ClaimStatus::Rejected && c.paid_amount is None
                &&& met && (bps is None || bps->0 >= 10_000) ==> answer == Step::Done(
                    ClaimResult::Paid,
                ) && c.status == ClaimStatus::Paid && c.paid_amount == Some(policy.coverage_amount)
                &&& met && bps is Some && bps->0 < 10_000 ==> answer == Step::Done(
                    ClaimResult::PartiallyPaid,
                ) && c.status == ClaimStatus::PartiallyPaid && c.paid_amount is Some
                    && c.paid_amount->0 * 10_000 <= policy.coverage_amount * bps->0 < (
                c.paid_amount->0 + 1) * 10_000
            })
        }),
{
    if bps is Some && bps->0 < 10_000 {
        let b = bps->0 as int;
        let x = policy.coverage_amount * b;
        assert(0 <= x <= policy.coverage_amount * 10_000) by (nonlinear_arith)
            requires
                policy.coverage_amount >= 0,
                0 <= b <= 10_000,
                x == policy.coverage_amount * b,
        ;
        assert(0 <= x / 10_000 <= policy.coverage_amount);
        assert((x / 10_000) * 10_000 <= x < (x / 10_000 + 1) * 10_000);
    }
}

/// Where a running policy has a pending claim, automatic processing settles that
/// one, as a keeper would; where the claim was decided nothing happens.
pub proof fn law_automatic_processing_of_claims(
    s: ProcessorState,
    now: u64,
    keeper: Addr,
    policy_id: u128,
    bps: Option<u32>,
    reply: Reply,
)
    requires
        s.keepers.contains_key(keeper) && s.keepers[keeper],
        !s.paused,
        s.policy_claims.contains_key(policy_id),
        s.claims.contains_key(s.policy_claims[policy_id]),
        s.claims[s.policy_claims[policy_id]].policy_id == policy_id,
    ensures
        ({
            let id = s.policy_claims[policy_id];
            let outcome = s.auto_process(now, keeper, policy_id, bps, reply);
            &&& s.claims[id].status != ClaimStatus::Pending ==> (outcome matches Ok((t, answer))
                && t == s.demand(keeper) && answer == Step::Done(ClaimResult::AlreadyProcessed))
            &&& s.claims[id].status == ClaimStatus::Pending && (reply.policy matches Some(policy)
                && policy.status == PolicyStatus::Active && now < policy.end_time) ==> outcome
                == s.process_claim(now, keeper, id, bps, reply)
            &&& s.claims[id].status == ClaimStatus::Pending && reply.policy is None ==> outcome
                == s.process_claim(now, keeper, id, bps, reply)
        }),
{
}

/// A claim that has been pending for the escalation threshold (seven days where
/// nothing was set) is overdue: it is listed as such, and anyone may escalate it.
pub proof fn law_escalation(s: ProcessorState, now: u64, caller: Addr, id: u128)
    requires
        s.claims.contains_key(id),
    ensures
        ({
            let claim = s.claims[id];
            let pending = claim.status == ClaimStatus::Pending;
            let limit = match s.escalation_threshold {
                Some(t) => t as int,
                None => 604_800,
            };
            let waited = if now >= claim.submitted_at {
                now - claim.submitted_at
            } else {
                0
            };
            let info = s.age_info(now, id);
            let outcome = s.escalate_claim(now, caller, id);
            &&& outcome is Ok <==> !s.paused && pending && waited >= limit
            &&& outcome matches Ok((t, _)) ==> t =~= (ProcessorState {
                claims: s.claims.insert(id, Claim { status: ClaimStatus::Escalated, ..claim }),
                pending_claims: t.pending_claims,
                outbox: s.outbox + seq![
                    Effect::RequireAuth(caller),
                    Effect::Emit(
                        Event::ClaimEscalated(
                            ClaimEscalated {
                                claim_id: id,
                                policy_id: claim.policy_id,
                                claimant: claim.claimant,
                                pending_for: waited as u64,
                                escalated_by: caller,
                            },
                        ),
                    ),
                ],
                ..s
            })
            &&& outcome is Err ==> {
                ||| outcome == Err::<(ProcessorState, ()), Error>(Error::Paused) && s.paused
                ||| outcome == Err::<(ProcessorState, ()), Error>(Error::NotEscalatable) && (
                !pending || waited < limit)
            }
            &&& s.is_overdue(now)(id) <==> pending && waited >= limit
            &&& info.claim_id == id && info.status == claim.status && info.submitted_at
                == claim.submitted_at
            &&& info.escalation_threshold == limit
            &&& info.escalatable <==> pending && waited >= limit
            &&& pending ==> info.pending_for == waited
            &&& !pending ==> info.pending_for == 0 && info.seconds_until_escalatable == 0
            &&& pending && waited < limit ==> waited + info.seconds_until_escalatable == limit
            &&& pending && waited >= limit ==> info.seconds_until_escalatable == 0
        }),
{
}

/// A claim that is paid, wholly or in part, can be spread over installments that
/// come to no more than the coverage. The first falls due one interval from now.
pub proof fn law_installment_plans(
    s: ProcessorState,
    now: u64,
    keeper: Addr,
    id: u128,
    amount: i128,
    count: u32,
    interval: u64,
)
    requires
        s.claims.contains_key(id),
        i128::MIN <= amount * count <= i128::MAX,
    ensures
        ({
            let outcome = s.schedule_installments(now, keeper, id, amount, count, interval);
            let claim = s.claims[id];
            &&& outcome is Ok <==> {
                &&& s.keepers.contains_key(keeper) && s.keepers[keeper]
                &&& !s.paused
                &&& claim.status == ClaimStatus::Paid || claim.status == ClaimStatus::PartiallyPaid
                &&& amount * count <= claim.coverage_amount
            }
            &&& outcome matches Ok((t, _)) ==> {
                let c = t.claims[id];
                let plan = c.installments->0;
                &&& t =~= (ProcessorState {
                    claims: s.claims.insert(id, c),
                    outbox: s.outbox + seq![
                        Effect::RequireAuth(keeper),
                        Effect::Emit(
                            Event::InstallmentPayoutScheduled(
                                InstallmentPayoutScheduled {
                                    claim_id: id,
                                    policy_id: claim.policy_id,
                                    claimant: claim.claimant,
                                    total_amount: (amount * count) as i128,
                                    num_installments: count,
                                    interval_seconds: interval,
                                    first_installment_at: plan.first_installment_at,
                                },
                            ),
                        ),
                    ],
                    ..s
                })
                &&& c == (Claim { installments: c.installments, ..claim })
                &&& c.installments is Some && plan.amount_per_installment == amount
                &&& plan.num_installments == count && plan.interval_seconds == interval
                &&& plan.total_amount == amount * count && plan.paid_count == 0
                &&& now + interval <= u64::MAX ==> plan.first_installment_at == now + interval
            }
        }),
{
}

/// A claimant can have the installments that have fallen due and were not paid:
/// as many as whole intervals have gone by since the first, that one counted, and
/// no more than there are.
pub proof fn law_installments(s: ProcessorState, now: u64, claimant: Addr, id: u128)
    requires
        s.claims.contains_key(id),
        s.claims[id].installments is Some,
        s.claims[id].installments->0.interval_seconds > 0,
        s.risk_pool is Some,
    ensures
        ({
            let claim = s.claims[id];
            let plan = claim.installments->0;
            let outcome = s.claim_installment(now, claimant, id);
            let since = now - plan.first_installment_at;
            let interval = plan.interval_seconds as int;
            &&& outcome is Ok <==> {
                &&& !s.paused
                &&& claim.claimant == claimant
                &&& plan.paid_count < plan.num_installments
                &&& since >= plan.paid_count * interval
            }
            &&& outcome matches Ok((t, amount)) ==> {
                let c = t.claims[id];
                let due = c.installments->0.paid_count as int;
                &&& t =~= (ProcessorState {
                    claims: s.claims.insert(
                        id,
                        Claim {
                            installments: Some(
                                InstallmentSchedule { paid_count: due as u32, ..plan },
                            ),
                            ..claim
                        },
                    ),
                    outbox: s.outbox + seq![
                        Effect::RequireAuth(claimant),
                        Effect::ReleaseForClaim {
                            risk_pool: s.risk_pool->0,
                            policy_id: claim.policy_id,
                        },
                        Effect::Emit(
                            Event::InstallmentPaid(
                                InstallmentPaid {
                                    claim_id: id,
                                    claimant,
                                    amount,
                                    paid_count: due as u32,
                                    total_installments: plan.num_installments,
                                },
                            ),
                        ),
                    ],
                    ..s
                })
                &&& plan.paid_count < due <= plan.num_installments
                &&& (due - 1) * interval <= since
                &&& due < plan.num_installments ==> since < due * interval
                &&& i128::MIN <= plan.amount_per_installment * (due - plan.paid_count) <= i128::MAX
                    ==> amount == plan.amount_per_installment * (due - plan.paid_count)
            }
        }),
{
    let plan = s.claims[id].installments->0;
    let since = now - plan.first_installment_at;
    let interval = plan.interval_seconds as int;
    let paid = plan.paid_count as int;
    let q = since / interval;
    if since >= 0 {
        assert(q * interval <= since < (q + 1) * interval && q >= 0) by (nonlinear_arith)
            requires
                interval > 0,
                since >= 0,
                q == since / interval,
        ;
        assert(q >= paid <==> since >= paid * interval) by (nonlinear_arith)
            requires
                interval > 0,
                q * interval <= since < (q + 1) * interval,
        ;
        let n = plan.num_installments as int;
        assert(q + 1 > n ==> (n - 1) * interval <= since) by (nonlinear_arith)
            requires
                interval > 0,
                q * interval <= since,
        ;
    } else {
        assert(paid * interval >= 0) by (nonlinear_arith)
            requires
                paid >= 0,
                interval > 0,
        ;
    }
}

/// Installments can be counted unless another one could be due and no time lies
/// between them.
pub proof fn law_installments_are_computable(
    s: ProcessorState,
    now: u64,
    claimant: Addr,
    id: u128,
)
    requires
        s.claims.contains_key(id),
    ensures
        ({
            let claim = s.claims[id];
            let plan = claim.installments->0;
            !s.interval_ok(now, claimant, id) <==> !s.paused && claim.claimant == claimant
                && claim.installments is Some && plan.interval_seconds == 0 && plan.paid_count
                < plan.num_installments && plan.first_installment_at <= now
        }),
{
}

/// A payment that was promised is released once its day has come, to a claimant
/// who is identified where that is asked for, and only once.
pub proof fn law_promised_payouts(
    s: ProcessorState,
    now: u64,
    id: u128,
    policy: Policy,
    later: u64,
    again: Option<Policy>,
)
    requires
        s.claims.contains_key(id),
        s.policy_engine is Some,
        s.risk_pool is Some,
    ensures
        ({
            let claim = s.claims[id];
            let outcome = s.claim_payout(now, id, Some(policy));
            &&& outcome is Ok <==> {
                &&& !s.paused
                &&& claim.payout_ready_at is Some && claim.payout_ready_at->0 <= now
                &&& claim.paid_amount is Some
                &&& claim.identity_verified || !s.identity_requirements.contains_key(
                    policy.product_id,
                )
            }
            &&& outcome matches Ok((t, answer)) ==> {
                &&& answer == Step::Done(claim.paid_amount->0)
                &&& t =~= (ProcessorState {
                    claims: s.claims.insert(id, Claim { payout_ready_at: None, ..claim }),
                    outbox: s.outbox + payment(s, claim.policy_id) + seq![
                        Effect::Emit(
                            Event::PayoutReleased {
                                claim_id: id,
                                policy_id: claim.policy_id,
                                paid_amount: claim.paid_amount->0,
                            },
                        ),
                    ],
                    ..s
                })
                &&& t.claim_payout(later, id, again) is Err
            }
        }),
{
}

/// A claimant can dispute a claim that is pending, rejected or paid in part; the
/// administrator puts it back in the queue.
pub proof fn law_disputes(s: ProcessorState, who: Addr, id: u128, reason: Sym)
    requires
        s.claims.contains_key(id),
    ensures
        ({
            let claim = s.claims[id];
            let disputed = s.dispute_claim(who, id, reason);
            let resolved = s.resolve_dispute(who, id);
            &&& disputed is Ok <==> claim.claimant == who && (claim.status == ClaimStatus::Pending
                || claim.status == ClaimStatus::Rejected || claim.status
                == ClaimStatus::PartiallyPaid)
            &&& disputed matches Ok((t, _)) ==> t =~= (ProcessorState {
                claims: s.claims.insert(
                    id,
                    Claim { status: ClaimStatus::Disputed, dispute_reason: Some(reason), ..claim },
                ),
                pending_claims: t.pending_claims,
                outbox: s.outbox + seq![
                    Effect::RequireAuth(who),
                    Effect::Emit(
                        Event::ClaimDisputed(ClaimDisputed { claim_id: id, claimant: who, reason }),
                    ),
                ],
                ..s
            })
            &&& resolved is Ok <==> s.admin == Some(who) && claim.status == ClaimStatus::Disputed
            &&& resolved matches Ok((t, _)) ==> t =~= (ProcessorState {
                claims: s.claims.insert(
                    id,
                    Claim { status: ClaimStatus::Pending, dispute_reason: None, ..claim },
                ),
                pending_claims: s.pending_claims.push(id),
                outbox: s.outbox + seq![
                    Effect::RequireAuth(who),
                    Effect::Emit(
                        Event::ClaimResolved(ClaimResolved { claim_id: id, resolver: who }),
                    ),
                ],
                ..s
            })
        }),
{
}

/// A batch settles its claims in order, at most fifty of them, and tells the
/// result of each.
pub proof fn law_batches_in_order(
    s: ProcessorState,
    now: u64,
    keeper: Addr,
    ids: Seq<u128>,
    bps: Option<u32>,
    replies: Seq<Reply>,
    i: int,
)
    ensures
        s.batch_process_claims(now, keeper, ids, bps, replies) matches Ok((_, Step::Done(results)))
            ==> {
            &&& ids.len() <= 50 ==> results.len() == ids.len()
            &&& ids.len() > 50 ==> results.len() == 50
            &&& 0 <= i < results.len() ==> results[i].0 == ids[i]
        },
{
    let count = if ids.len() <= 50 {
        ids.len()
    } else {
        50
    };
    lemma_results_in_order(s.demand(keeper), now, ids, bps, replies, count, i);
}

proof fn lemma_results_in_order(
    s: ProcessorState,
    now: u64,
    ids: Seq<u128>,
    bps: Option<u32>,
    replies: Seq<Reply>,
    n: nat,
    i: int,
)
    ensures
        s.process_items(now, ids, bps, replies, n) matches Ok((_, Step::Done(results)))
            ==> results.len() == n && (0 <= i < n ==> results[i].0 == ids[i]),
    decreases n,
{
    if n > 0 {
        lemma_results_in_order(s, now, ids, bps, replies, (n - 1) as nat, i);
    }
}

/// A batch of submissions opens a claim for each policy, at most fifty of them,
/// numbered on from the last, or none at all.
pub proof fn law_batches_of_submissions(
    s: ProcessorState,
    now: u64,
    claimant: Addr,
    policy_ids: Seq<u128>,
    replies: Seq<Reply>,
    i: int,
)
    requires
        s.claim_counter() + 50 <= u128::MAX,
    ensures
        s.batch_submit_claims(now, claimant, policy_ids, replies) matches Ok((t, Step::Done(ids)))
            ==> {
            &&& policy_ids.len() <= 50 ==> ids.len() == policy_ids.len()
            &&& policy_ids.len() > 50 ==> ids.len() == 50
            &&& 0 <= i < ids.len() ==> ids[i] == s.claim_counter() + i
            &&& 0 <= i < ids.len() ==> t.policy_claims.contains_key(policy_ids[i])
                && t.policy_claims[policy_ids[i]] == ids[i]
        },
{
    let count = if policy_ids.len() <= 50 {
        policy_ids.len()
    } else {
        50
    };
    lemma_submissions_in_order(s.demand(claimant), now, claimant, policy_ids, replies, count, i);
}

proof fn lemma_submissions_in_order(
    s: ProcessorState,
    now: u64,
    claimant: Addr,
    policy_ids: Seq<u128>,
    replies: Seq<Reply>,
    n: nat,
    i: int,
)
    requires
        s.claim_counter() + 50 <= u128::MAX,
        n <= 50,
    ensures
        s.submit_items(now, claimant, policy_ids, replies, n) matches Ok((t, Step::Done(ids)))
            ==> {
            &&& ids.len() == n
            &&& t.claim_counter() == s.claim_counter() + n
            &&& 0 <= i < n ==> ids[i] == s.claim_counter() + i
            &&& 0 <= i < n ==> t.policy_claims.contains_key(policy_ids[i])
                && t.policy_claims[policy_ids[i]] == ids[i]
        },
    decreases n,
{
    if n > 0 {
        lemma_submissions_in_order(
            s,
            now,
            claimant,
            policy_ids,
            replies,
            (n - 1) as nat,
            i,
        );
    }
}

/// An automatic batch takes claims from the head of the queue, as many as it is
/// asked to and at most fifty.
pub proof fn law_queue_head(s: ProcessorState, limit: u32, i: int)
    ensures
        ({
            let head = s.batch_queue(limit);
            let n = s.pending_claims.len();
            &&& limit <= 50 && limit <= n ==> head.len() == limit
            &&& limit >= 50 && 50 <= n ==> head.len() == 50
            &&& limit >= n && n <= 50 ==> head.len() == n
            &&& 0 <= i < head.len() ==> head[i] == s.pending_claims[i]
        }),
{
}

/// A claim's record is kept for a year of ledgers, one every five seconds, or for
/// as long as the network keeps anything.
pub proof fn law_retention(max_ttl: u32)
    ensures
        max_ttl <= 6_307_200 ==> claim_ttl_of(max_ttl) == max_ttl,
        max_ttl >= 6_307_200 ==> claim_ttl_of(max_ttl) == 6_307_200,
{
}

/// Settings are the administrator's: an escalation threshold of at least an hour,
/// a deadline of at least an hour or none, any payout delay, and a detector whose
/// threshold is at most a hundred. What was set is in force.
pub proof fn law_settings(s: ProcessorState, admin: Addr, seconds: u64, config: FraudConfig)
    ensures
        ({
            let may = s.admin == Some(admin);
            let escalation = s.set_escalation_threshold(admin, seconds);
            let deadline = s.set_claim_deadline(admin, seconds);
            let delay = s.set_payout_delay(admin, seconds);
            let fraud = s.set_fraud_config(admin, config);
            &&& escalation is Ok <==> may && seconds >= 3_600
            &&& escalation matches Ok((t, _)) ==> t =~= (ProcessorState {
                escalation_threshold: Some(seconds),
                outbox: s.outbox + seq![
                    Effect::RequireAuth(admin),
                    Effect::Emit(
                        Event::EscalationThresholdUpdated(EscalationThresholdUpdated { threshold: seconds }),
                    ),
                ],
                ..s
            })
            &&& deadline is Ok <==> may && (seconds == 0 || seconds >= 3_600)
            &&& deadline matches Ok((t, _)) ==> t =~= (ProcessorState {
                claim_deadline: Some(seconds),
                outbox: s.outbox + seq![
                    Effect::RequireAuth(admin),
                    Effect::Emit(
                        Event::ClaimDeadlineUpdated(ClaimDeadlineUpdated { deadline: seconds }),
                    ),
                ],
                ..s
            })
            &&& delay is Ok <==> may
            &&& delay matches Ok((t, _)) ==> t =~= (ProcessorState {
                payout_delay: seconds,
                outbox: s.outbox + seq![
                    Effect::RequireAuth(admin),
                    Effect::Emit(
                        Event::PayoutDelayUpdated(PayoutDelayUpdated { delay_seconds: seconds }),
                    ),
                ],
                ..s
            })
            &&& fraud is Ok <==> may && config.fraud_threshold_score <= 100
            &&& fraud matches Ok((t, _)) ==> t =~= (ProcessorState {
                fraud_config: Some(config),
                outbox: s.outbox + seq![
                    Effect::RequireAuth(admin),
                    Effect::Emit(
                        Event::FraudConfigUpdated(
                            FraudConfigUpdated {
                                rate_window_secs: config.rate_window_secs,
                                rate_score: config.rate_score,
                                burst_window_secs: config.burst_window_secs,
                                burst_count: config.burst_count,
                                burst_score: config.burst_score,
                                coverage_anomaly_multiplier: config.coverage_anomaly_multiplier,
                                coverage_score: config.coverage_score,
                                fraud_threshold_score: config.fraud_threshold_score,
                                mode: config.mode,
                            },
                        ),
                    ),
                ],
                ..s
            })
        }),
{
}

/// The administrator names and dismisses keepers, asks for identities and vouches
/// for them.
pub proof fn law_people(
    s: ProcessorState,
    now: u64,
    admin: Addr,
    keeper: Addr,
    product_id: u128,
    id_type: Sym,
    claim_id: u128,
)
    ensures
        ({
            let may = s.admin == Some(admin);
            let added = s.add_keeper(admin, keeper);
            let removed = s.remove_keeper(admin, keeper);
            let asked = s.require_identity_for_category(admin, product_id, id_type);
            let waived = s.remove_identity_requirement(admin, product_id);
            let vouched = s.verify_claimant_identity(now, admin, claim_id, id_type);
            &&& added is Ok <==> may
            &&& added matches Ok((t, _)) ==> t =~= (ProcessorState {
                keepers: s.keepers.insert(keeper, true),
                outbox: s.outbox + seq![
                    Effect::RequireAuth(admin),
                    Effect::Emit(Event::KeeperAdded { keeper }),
                ],
                ..s
            })
            &&& removed is Ok <==> may
            &&& removed matches Ok((t, _)) ==> t =~= (ProcessorState {
                keepers: s.keepers.remove(keeper),
                outbox: s.outbox + seq![
                    Effect::RequireAuth(admin),
                    Effect::Emit(Event::KeeperRemoved { keeper }),
                ],
                ..s
            })
            &&& asked is Ok <==> may
            &&& asked matches Ok((t, _)) ==> t =~= (ProcessorState {
                identity_requirements: s.identity_requirements.insert(product_id, id_type),
                outbox: s.outbox + seq![
                    Effect::RequireAuth(admin),
                    Effect::Emit(Event::IdentityRequirementSet { product_id, id_type }),
                ],
                ..s
            })
            &&& waived is Ok <==> may
            &&& waived matches Ok((t, _)) ==> t =~= (ProcessorState {
                identity_requirements: s.identity_requirements.remove(product_id),
                outbox: s.outbox + seq![
                    Effect::RequireAuth(admin),
                    Effect::Emit(Event::IdentityRequirementRemoved { product_id }),
                ],
                ..s
            })
            &&& vouched is Ok <==> may && s.claims.contains_key(claim_id)
            &&& vouched matches Ok((t, _)) ==> t =~= (ProcessorState {
                claims: s.claims.insert(
                    claim_id,
                    Claim {
                        identity_verified: true,
                        verification_type: Some(id_type),
                        verification_time: Some(now),
                        ..s.claims[claim_id]
                    },
                ),
                outbox: s.outbox + seq![
                    Effect::RequireAuth(admin),
                    Effect::Emit(Event::IdentityVerified { claim_id, id_type, now }),
                ],
                ..s
            })
        }),
{
}

/// A new administrator, proposed without guardians, takes over 48 hours later and
/// not before; nobody else does. With guardians the proposal waits for them.
pub proof fn law_admin_transfer(
    s: ProcessorState,
    now: u64,
    admin: Addr,
    new_admin: Addr,
    later: u64,
    who: Addr,
)
    requires
        s.propose_new_admin(now, admin, new_admin) is Ok,
    ensures
        ({
            let t = after(s, s.propose_new_admin(now, admin, new_admin));
            let outcome = t.accept_admin(later, who);
            &&& s.admin == Some(admin) && s.pending_admin is None
            &&& new_admin@.len() == 56 && (new_admin@[0] == 71 || new_admin@[0] == 67)
            &&& t.admin == s.admin
            &&& s.guardian_threshold > 0 ==> t.pending_admin is None && outcome is Err
            &&& s.guardian_threshold == 0 && now + 172_800 <= u64::MAX ==> (outcome is Ok <==> who
                == new_admin && later >= now + 172_800)
            &&& s.guardian_threshold == 0 ==> t =~= (ProcessorState {
                pending_admin: Some(new_admin),
                pending_admin_since: Some(now),
                outbox: s.outbox + seq![Effect::RequireAuth(admin)],
                ..s
            })
            &&& s.guardian_threshold > 0 ==> t =~= (ProcessorState {
                pending_admin_change: t.pending_admin_change,
                outbox: s.outbox + seq![Effect::RequireAuth(admin)],
                ..s
            }) && t.pending_admin_change is Some && t.pending_admin_change->0.new_admin == new_admin
                && t.pending_admin_change->0.approvals.len() == 0
            &&& outcome matches Ok((u, _)) ==> u =~= (ProcessorState {
                admin: Some(new_admin),
                pending_admin: None,
                pending_admin_since: None,
                outbox: t.outbox + seq![
                    Effect::RequireAuth(new_admin),
                    Effect::Emit(Event::AdminUpdated(AdminUpdated { new_admin })),
                ],
                ..t
            })
        }),
{
}

/// The processor is set up once, with well-formed addresses, and starts with a
/// deadline of thirty days and an escalation threshold of seven.
pub proof fn law_setup(
    s: ProcessorState,
    admin: Addr,
    policy_engine: Addr,
    risk_pool: Addr,
    oracle: Addr,
    age: u64,
)
    ensures
        ({
            let outcome = s.initialize(admin, policy_engine, risk_pool, oracle, age);
            &&& outcome is Ok <==> {
                &&& !s.initialized
                &&& admin@.len() == 56 && (admin@[0] == 71 || admin@[0] == 67)
                &&& policy_engine@.len() == 56 && (policy_engine@[0] == 71 || policy_engine@[0]
                    == 67)
                &&& risk_pool@.len() == 56 && (risk_pool@[0] == 71 || risk_pool@[0] == 67)
                &&& oracle@.len() == 56 && (oracle@[0] == 71 || oracle@[0] == 67)
            }
            &&& outcome matches Ok((t, _)) ==> t =~= (ProcessorState {
                initialized: true,
                paused: false,
                admin: Some(admin),
                policy_engine: Some(policy_engine),
                risk_pool: Some(risk_pool),
                oracle_verifier: Some(oracle),
                staleness_threshold: Some(age),
                claim_deadline: Some(2_592_000),
                escalation_threshold: Some(604_800),
                next_claim_id: Some(1),
                pending_claims: seq![],
                outbox: s.outbox + seq![
                    Effect::RequireAuth(admin),
                    Effect::Emit(
                        Event::Initialized(
                            Initialized {
                                admin,
                                policy_engine,
                                risk_pool,
                                oracle_verifier: oracle,
                                staleness_threshold: age,
                            },
                        ),
                    ),
                ],
                ..s
            })
        }),
{
}

/// A new processor is open and empty, of the first version, without guardians,
/// keepers, detector or delay, with a deadline of thirty days, an escalation
/// threshold of seven and data of at most seven. What is set takes the place of
/// these.
pub proof fn law_defaults(s: ProcessorState, claimant: Addr)
    ensures
        ({
            let n = ProcessorState::fresh();
            &&& !n.initialized && !n.paused && n.admin is None && n.pending_admin is None
            &&& n.policy_engine is None && n.risk_pool is None && n.oracle_verifier is None
            &&& n.claims =~= Map::empty() && n.policy_claims =~= Map::empty()
            &&& n.pending_claims.len() == 0 && n.keepers =~= Map::empty()
            &&& n.pending_admin_change is None && n.pending_upgrade is None
            &&& n.guardians.len() == 0 && n.guardian_threshold == 0 && n.payout_delay == 0
            &&& n.identity_requirements =~= Map::empty() && n.fraud_config is None
            &&& n.claimant_history =~= Map::empty() && n.fraud_records =~= Map::empty()
            &&& n.outbox.len() == 0
            &&& n.deadline() == 2_592_000 && n.escalation_after() == 604_800
            &&& n.staleness() == 604_800 && n.stored_version() == 1 && n.claim_counter() == 1
        }),
        s.claim_deadline is Some ==> s.deadline() == s.claim_deadline->0,
        s.escalation_threshold is Some ==> s.escalation_after() == s.escalation_threshold->0,
        s.staleness_threshold is Some ==> s.staleness() == s.staleness_threshold->0,
        s.version is Some ==> s.stored_version() == s.version->0,
        s.next_claim_id is Some ==> s.claim_counter() == s.next_claim_id->0,
        s.claimant_history.contains_key(claimant) ==> s.history_of(claimant)
            == s.claimant_history[claimant],
        !s.claimant_history.contains_key(claimant) ==> ({
            let h = s.history_of(claimant);
            &&& h.last_submission_at == 0 && h.burst_bucket_start == 0 && h.burst_count == 0
            &&& h.max_coverage_ever == 0 && h.total_submissions == 0
        }),
{
}

/// A coverage that ten thousand times fits the range can be paid in any share.
pub proof fn law_ordinary_payouts_are_computable(
    s: ProcessorState,
    id: u128,
    policy_id: u128,
    bps: Option<u32>,
    reply: Reply,
)
    requires
        s.claims.contains_key(id) ==> 0 <= s.claims[id].coverage_amount * 10_000 <= i128::MAX,
        s.policy_claims.contains_key(policy_id) ==> s.policy_claims[policy_id] == id,
        reply.policy is Some ==> 0 <= reply.policy->0.coverage_amount * 10_000 <= i128::MAX,
    ensures
        s.claim_fits(id, bps, reply),
        s.auto_fits(policy_id, bps, reply),
{
    let share = match bps {
        Some(b) => if b < 10_000 {
            b as int
        } else {
            10_000
        },
        None => 10_000,
    };
    let x = s.claims[id].coverage_amount as int;
    let y = reply.policy->0.coverage_amount as int;
    assert(x >= 0 ==> 0 <= x * share <= x * 10_000) by (nonlinear_arith)
        requires
            0 <= share <= 10_000,
    ;
    assert(y >= 0 ==> 0 <= y * share <= y * 10_000) by (nonlinear_arith)
        requires
            0 <= share <= 10_000,
    ;
}

/// Pausing stops and resuming allows work, and changes nothing else.
pub proof fn law_pausing(s: ProcessorState, admin: Addr, paused: bool)
    ensures
        ({
            let outcome = s.set_paused(admin, paused);
            &&& outcome is Ok <==> s.admin == Some(admin)
            &&& outcome matches Ok((t, _)) ==> t =~= (ProcessorState {
                paused,
                outbox: s.outbox + seq![
                    Effect::RequireAuth(admin),
                    Effect::Emit(
                        if paused {
                            Event::Paused { admin }
                        } else {
                            Event::Resumed { admin }
                        },
                    ),
                ],
                ..s
            })
        }),
{
}

/// A refused submission names what is wrong.
pub proof fn law_refused_submissions(
    s: ProcessorState,
    now: u64,
    claimant: Addr,
    policy_id: u128,
    reply: Reply,
)
    ensures
        ({
            let policy = reply.policy->0;
            let grace = match s.claim_deadline {
                Some(d) => d as int,
                None => 2_592_000,
            };
            s.submit_claim(now, claimant, policy_id, reply) matches Err(e) ==> {
                ||| e == Error::Paused && s.paused
                ||| e == Error::AlreadyClaimed && s.policy_claims.contains_key(policy_id)
                ||| e == Error::NotInitialized && s.policy_engine is None
                ||| reply.policy is Some && {
                    ||| e == Error::Unauthorized && policy.policyholder != claimant
                    ||| e == Error::PolicyNotActive && policy.status != PolicyStatus::Active
                    ||| e == Error::ClaimDeadlinePassed && now > policy.end_time + grace
                    ||| e == Error::FraudSuspected && s.is_flagged(
                        now,
                        claimant,
                        policy.coverage_amount,
                    ) && s.fraud_config->0.mode == FraudMode::Block
                }
            }
        }),
{
}

/// A submission without the policy at hand asks the engine for it.
pub proof fn law_submissions_ask_for_the_policy(
    s: ProcessorState,
    now: u64,
    claimant: Addr,
    policy_id: u128,
    reply: Reply,
)
    requires
        reply.policy is None,
        !s.paused,
        s.policy_engine is Some,
        !s.policy_claims.contains_key(policy_id),
    ensures
        s.submit_claim(now, claimant, policy_id, reply) == Ok::<
            (ProcessorState, Step<u128>),
            Error,
        >(
            (
                s,
                Step::Ask {
                    item: 0,
                    question: Question::Policy { policy_engine: s.policy_engine->0, policy_id },
                },
            ),
        ),
{
}

/// A refusal about installments, promised payments or disputes names what is
/// wrong.
pub proof fn law_refused_claims(
    s: ProcessorState,
    now: u64,
    who: Addr,
    id: u128,
    policy: Policy,
    reason: Sym,
    amount: i128,
    count: u32,
    interval: u64,
)
    ensures
        ({
            let claim = s.claims[id];
            let known = s.claims.contains_key(id);
            &&& s.claim_installment(now, who, id) matches Err(e) ==> {
                ||| e == Error::Paused && s.paused
                ||| e == Error::ClaimNotFound && !known
                ||| e == Error::Unauthorized && known && claim.claimant != who
                ||| e == Error::InvalidInput && known
                ||| e == Error::NotInitialized && s.risk_pool is None
            }
            &&& s.claim_payout(now, id, Some(policy)) matches Err(e) ==> {
                ||| e == Error::Paused && s.paused
                ||| e == Error::ClaimNotFound && (!known || claim.paid_amount is None)
                ||| e == Error::PayoutDelayNotElapsed && known && (claim.payout_ready_at is None
                    || now < claim.payout_ready_at->0)
                ||| e == Error::NotInitialized && (s.policy_engine is None || s.risk_pool is None)
                ||| e == Error::IdentityVerificationRequired && !claim.identity_verified
                    && s.identity_requirements.contains_key(policy.product_id)
            }
            &&& s.dispute_claim(who, id, reason) matches Err(e) ==> {
                ||| e == Error::ClaimNotFound && !known
                ||| e == Error::Unauthorized && known && claim.claimant != who
                ||| e == Error::AlreadyProcessed && known && claim.status != ClaimStatus::Pending
            }
            &&& s.resolve_dispute(who, id) matches Err(e) ==> {
                ||| e == Error::NotInitialized && s.admin is None
                ||| e == Error::Unauthorized && s.admin is Some && s.admin != Some(who)
                ||| e == Error::ClaimNotFound && !known
                ||| e == Error::AlreadyProcessed && known && claim.status != ClaimStatus::Disputed
            }
            &&& s.schedule_installments(now, who, id, amount, count, interval) matches Err(e) ==> {
                ||| e == Error::Unauthorized && !(s.keepers.contains_key(who) && s.keepers[who])
                ||| e == Error::Paused && s.paused
                ||| e == Error::ClaimNotFound && !known
                ||| e == Error::InvalidInput && known && (amount * count > claim.coverage_amount
                    || claim.status != ClaimStatus::Paid && claim.status
                    != ClaimStatus::PartiallyPaid)
            }
        }),
{
}

/// New code has a higher number than the old. Without guardians it is put in
/// place at once; with them it waits until as many as the threshold says, each
/// once, have approved that very code.
pub proof fn law_upgrades(
    s: ProcessorState,
    admin: Addr,
    hash: [u8; 32],
    new_version: u32,
    guardian: Addr,
    guardians: Seq<Addr>,
    threshold: u32,
)
    ensures
        ({
            let outcome = s.upgrade(admin, hash, new_version);
            let current = match s.version {
                Some(v) => v,
                None => 1,
            };
            let approval = s.approve_upgrade(guardian, hash);
            let pending = s.pending_upgrade->0;
            let named = s.set_guardians(admin, guardians, threshold);
            &&& outcome is Ok <==> s.admin == Some(admin) && new_version > current
            &&& outcome matches Ok((t, _)) ==> {
                &&& t =~= (ProcessorState {
                    version: t.version,
                    pending_upgrade: t.pending_upgrade,
                    outbox: t.outbox,
                    ..s
                })
                &&& t.outbox[s.outbox.len() as int] == Effect::RequireAuth(admin)
                &&& s.guardian_threshold == 0 ==> t.version == Some(new_version)
                    && t.pending_upgrade == s.pending_upgrade && t.outbox[t.outbox.len() - 2]
                    == Effect::ReplaceCode(hash)
                &&& s.guardian_threshold > 0 ==> t.version == s.version && t.outbox.len()
                    == s.outbox.len() + 1 && t.pending_upgrade is Some
                    && t.pending_upgrade->0.new_wasm_hash == hash
                    && t.pending_upgrade->0.new_version == new_version
                    && t.pending_upgrade->0.approvals.len() == 0
            }
            &&& approval is Ok <==> s.guardians.contains(guardian) && s.pending_upgrade is Some
                && pending.new_wasm_hash == hash && !pending.approvals.contains(guardian)
            &&& approval matches Ok((t, _)) ==> {
                &&& t =~= (ProcessorState {
                    version: t.version,
                    pending_upgrade: t.pending_upgrade,
                    outbox: t.outbox,
                    ..s
                })
                &&& t.outbox[s.outbox.len() as int] == Effect::RequireAuth(guardian)
                &&& pending.approvals.len() + 1 >= s.guardian_threshold ==> t.version == Some(
                    pending.new_version,
                ) && t.pending_upgrade is None && t.outbox[t.outbox.len() - 2]
                    == Effect::ReplaceCode(hash)
                &&& pending.approvals.len() + 1 < s.guardian_threshold ==> t.version == s.version
                    && t.pending_upgrade is Some && t.pending_upgrade->0.approvals
                    == pending.approvals.push(guardian)
            }
            &&& named is Ok <==> s.admin == Some(admin) && threshold <= guardians.len()
            &&& named matches Ok((t, _)) ==> t =~= (ProcessorState {
                guardians,
                guardian_threshold: threshold,
                outbox: t.outbox,
                ..s
            }) && t.outbox[s.outbox.len() as int] == Effect::RequireAuth(admin)
            &&& s.cancel_pending_upgrade(admin) is Ok <==> s.admin == Some(admin)
                && s.pending_upgrade is Some
            &&& s.cancel_pending_upgrade(admin) matches Ok((t, _)) ==> t =~= (ProcessorState {
                pending_upgrade: None,
                outbox: s.outbox + seq![Effect::RequireAuth(admin)],
                ..s
            })
        }),
{
}

/// Enough guardians' approvals, each given once, set the wait for a new
/// administrator going.
pub proof fn law_admin_approvals(s: ProcessorState, now: u64, guardian: Addr, new_admin: Addr)
    ensures
        ({
            let outcome = s.approve_admin_change(now, guardian, new_admin);
            let pending = s.pending_admin_change->0;
            &&& outcome is Ok <==> s.guardians.contains(guardian) && s.pending_admin_change is Some
                && pending.new_admin == new_admin && !pending.approvals.contains(guardian)
            &&& outcome matches Ok((t, _)) ==> {
                &&& t =~= (ProcessorState {
                    pending_admin: t.pending_admin,
                    pending_admin_since: t.pending_admin_since,
                    pending_admin_change: t.pending_admin_change,
                    outbox: s.outbox + seq![Effect::RequireAuth(guardian)],
                    ..s
                })
                &&& pending.approvals.len() + 1 >= s.guardian_threshold ==> t.pending_admin == Some(
                    new_admin,
                ) && t.pending_admin_change is None && t.pending_admin_since is Some
                &&& pending.approvals.len() + 1 >= s.guardian_threshold && s.pending_admin_since
                    is None ==> t.pending_admin_since == Some(now)
                &&& pending.approvals.len() + 1 < s.guardian_threshold ==> t.pending_admin
                    == s.pending_admin && t.pending_admin_change is Some
                    && t.pending_admin_change->0.approvals == pending.approvals.push(guardian)
            }
        }),
{
}

} // verus!
