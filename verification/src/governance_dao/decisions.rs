//! What the DAO's answers amount to: who may propose, vote and decide, when,
//! with what weight, and which proposals pass.

use crate::governance_dao::state::{DaoState, ProposalRecord, TemplateRecord, sum_of};
use crate::governance_dao::types::{
    Argument, DaoConfig, DepositReclaimed, Effect, Error, Event, Initialized, ProposalCancelled,
    ProposalCreated, ProposalExecuted, ProposalFinalized, ProposalKind, ProposalStatus,
    QuorumDecayConfigUpdated, TemplateRegistered, VoteCast, VoteChoice, VoteRecord,
};
use crate::outcome::after;
use crate::sums::{lemma_sum_by_last, sum_by};
use crate::text::{Addr, Sym, sym_of};
use vstd::prelude::*;

verus! {

/// The share of the For votes reaches the majority exactly where For times 10000
/// reaches the majority times the votes of both sides.
proof fn lemma_majority(votes_for: int, sides: int, majority: int)
    requires
        votes_for >= 0,
        sides > 0,
        majority >= 0,
    ensures
        votes_for * 10_000 / sides >= majority <==> votes_for * 10_000 >= majority * sides,
        votes_for * 10_000 / sides >= 0,
{
    let x = votes_for * 10_000;
    let y = x / sides;
    assert(y * sides <= x < (y + 1) * sides && y >= 0) by (nonlinear_arith)
        requires
            sides > 0,
            x >= 0,
            y == x / sides,
    ;
    if y >= majority {
        assert(majority * sides <= y * sides) by (nonlinear_arith)
            requires
                majority <= y,
                sides > 0,
        ;
    } else {
        assert((y + 1) * sides <= majority * sides) by (nonlinear_arith)
            requires
                y + 1 <= majority,
                sides > 0,
        ;
    }
}

/// Whether `after` is `before` with `last` at the end, and at most one notice in
/// between.
pub open spec fn ends_with(after: Seq<Effect>, before: Seq<Effect>, last: Seq<Effect>) -> bool {
    ||| after =~= before + last
    ||| after.len() == before.len() + 1 + last.len() && after[before.len() as int] is Emit && after
        =~= before.push(after[before.len() as int]) + last
}

/// A proposal that is open can be finalized as soon as more than five minutes
/// have gone by since its voting ended, and not before.
pub proof fn law_when_decided(s: DaoState, now: u64, id: u64)
    ensures
        s.finalize(now, id) is Ok <==> s.proposals.contains_key(id) && (s.proposals[id].status
            == ProposalStatus::Active || s.proposals[id].status == ProposalStatus::Discussion) && now
            > s.proposals[id].vote_end + 300,
        s.proposals.contains_key(id) && s.proposals[id].status == ProposalStatus::Active && now
            <= s.proposals[id].vote_end + 300 ==> s.finalize(now, id) == Err::<
            (DaoState, ()),
            Error,
        >(Error::FinalizeDelayNotMet),
{
}

/// A proposal that is finalized has passed or failed. It passes exactly where
/// enough of the supply voted for the quorum in force (rounded down to whole
/// votes), somebody took a side, and For times 10000 is at least the configured
/// majority times For and Against. Abstentions help the quorum only. Either way
/// the proposer has the deposit back.
pub proof fn law_which_proposals_pass(s: DaoState, now: u64, id: u64)
    requires
        s.finalize(now, id) is Ok,
        s.config is Some,
        s.proposals[id].votes_for >= 0,
        s.proposals[id].votes_against >= 0,
        s.proposals[id].votes_abstain >= 0,
        s.proposals[id].votes_for + s.proposals[id].votes_against + s.proposals[id].votes_abstain
            <= i128::MAX,
    ensures
        ({
            let t = after(s, s.finalize(now, id));
            let p = s.proposals[id];
            let d = t.proposals[id];
            let sides = p.votes_for + p.votes_against;
            let turnout = sides + p.votes_abstain;
            let majority = s.config->0.majority_bps;
            let quorum = p.total_supply * s.effective_quorum(s.config->0).quorum_bps;
            &&& d.status == ProposalStatus::Passed || d.status == ProposalStatus::Failed
            &&& p.votes_for * 10_000 < majority * sides ==> d.status == ProposalStatus::Failed
            &&& sides == 0 ==> d.status == ProposalStatus::Failed
            &&& p.votes_for * 10_000 <= i128::MAX && i128::MIN <= quorum <= i128::MAX ==> {
                d.status == ProposalStatus::Passed <==> {
                    &&& sides > 0
                    &&& (turnout + 1) * 10_000 > quorum
                    &&& p.votes_for * 10_000 >= majority * sides
                }
            }
            &&& d.status == ProposalStatus::Passed && now + s.config->0.proposal_timelock
                <= u64::MAX ==> d.execution_time == now + s.config->0.proposal_timelock
            &&& d.status == ProposalStatus::Failed ==> d.execution_time == p.execution_time
            &&& d == (ProposalRecord {
                status: d.status,
                execution_time: d.execution_time,
                ..p
            })
            &&& t =~= (DaoState {
                proposals: s.proposals.insert(id, d),
                recent_bps: t.recent_bps,
                total_recorded: t.total_recorded,
                outbox: t.outbox,
                ..s
            })
            &&& s.total_recorded < u64::MAX ==> t.total_recorded == s.total_recorded + 1
            &&& ends_with(
                t.outbox,
                s.outbox,
                seq![
                    Effect::Pay {
                        token: s.config->0.gov_token,
                        to: p.proposer,
                        amount: p.deposit,
                    },
                    Effect::Emit(
                        Event::ProposalFinalized(
                            ProposalFinalized { proposal_id: id, status: d.status },
                        ),
                    ),
                ],
            )
        }),
{
    let p = s.proposals[id];
    let sides = p.votes_for + p.votes_against;
    let majority = s.config->0.majority_bps as int;
    if sides > 0 {
        lemma_majority(p.votes_for as int, sides, majority);
        assert(p.votes_for * 10_000 < majority * sides ==> majority > 0) by (nonlinear_arith)
            requires
                p.votes_for >= 0,
                sides > 0,
                majority >= 0,
        ;
    }
}

/// Who voted For and who Against decides in the way one expects: with more For,
/// or less Against, a proposal that passes still passes.
pub proof fn law_support_helps(s: DaoState, t: DaoState, now: u64, id: u64)
    requires
        s.finalize(now, id) is Ok,
        t.finalize(now, id) is Ok,
        s.config is Some,
        t.config == s.config,
        t.effective_quorum(t.config->0) == s.effective_quorum(s.config->0),
        s.config->0.majority_bps <= 10_000,
        s.proposals[id].votes_for >= 0,
        s.proposals[id].votes_against >= 0,
        s.proposals[id].votes_abstain >= 0,
        t.proposals[id].total_supply == s.proposals[id].total_supply,
        t.proposals[id].votes_for >= s.proposals[id].votes_for,
        t.proposals[id].votes_against == s.proposals[id].votes_against,
        t.proposals[id].votes_abstain == s.proposals[id].votes_abstain,
        t.proposals[id].votes_for * 10_000 <= i128::MAX,
        t.proposals[id].votes_for + t.proposals[id].votes_against + t.proposals[id].votes_abstain
            <= i128::MAX,
        i128::MIN <= s.proposals[id].total_supply * s.effective_quorum(s.config->0).quorum_bps
            <= i128::MAX,
        after(s, s.finalize(now, id)).proposals[id].status == ProposalStatus::Passed,
    ensures
        after(t, t.finalize(now, id)).proposals[id].status == ProposalStatus::Passed,
{
    law_which_proposals_pass(s, now, id);
    law_which_proposals_pass(t, now, id);
    let a = s.proposals[id].votes_for as int;
    let b = t.proposals[id].votes_for as int;
    let c = s.proposals[id].votes_against as int;
    let m = s.config->0.majority_bps as int;
    assert(b * 10_000 >= m * (b + c)) by (nonlinear_arith)
        requires
            a * 10_000 >= m * (a + c),
            b >= a,
            0 <= m <= 10_000,
    ;
}

/// The turnouts added up agree with the sum.
proof fn lemma_turnouts(s: Seq<u32>)
    ensures
        sum_of(s) == sum_by(s, |x: u32| x as int),
        0 <= sum_by(s, |x: u32| x as int) <= s.len() * 0xFFFF_FFFF,
    decreases s.len(),
{
    if s.len() > 0 {
        lemma_turnouts(s.drop_last());
        lemma_sum_by_last(s, |x: u32| x as int);
    }
}

/// The quorum in force is the configured one, unless an adaptive quorum is on
/// and the remembered turnouts are below it on average. Then it is lowered by
/// the whole steps that fit into what the average, rounded down, is short of it,
/// but not below the floor. The result is that number of steps.
pub proof fn law_quorum_in_force(s: DaoState, config: DaoConfig) -> (k: int)
    ensures
        ({
            let q = s.effective_quorum(config);
            let base = config.quorum_bps as int;
            let n = s.recent_bps.len();
            let turnouts = sum_by(s.recent_bps, |x: u32| x as int);
            let adaptive = s.quorum_decay is Some && s.quorum_decay->0.enabled && n > 0 && turnouts
                < base * n;
            let floor = s.quorum_decay->0.floor_bps as int;
            let step = s.quorum_decay->0.decay_per_period_bps as int;
            let avg = q.avg_participation_bps as int;
            &&& q.base_bps == base
            &&& q.decayed <==> q.quorum_bps < base
            &&& n > 0 ==> avg * n <= turnouts < (avg + 1) * n
            &&& n == 0 ==> avg == 0
            &&& !adaptive ==> q.quorum_bps == base
            &&& adaptive && step > 0 ==> {
                &&& 0 <= k && k * step <= base - avg < (k + 1) * step
                &&& base - k * step >= floor ==> q.quorum_bps == base - k * step
                &&& base - k * step <= floor ==> q.quorum_bps == floor
            }
        }),
{
    let base = config.quorum_bps as int;
    let n = s.recent_bps.len() as int;
    let turnouts = sum_by(s.recent_bps, |x: u32| x as int);
    lemma_turnouts(s.recent_bps);
    let step = s.quorum_decay->0.decay_per_period_bps as int;
    let a = if n > 0 {
        turnouts / n
    } else {
        0
    };
    if n > 0 {
        assert(a * n <= turnouts < (a + 1) * n && 0 <= a <= 0xFFFF_FFFF) by (nonlinear_arith)
            requires
                n > 0,
                a == turnouts / n,
                0 <= turnouts <= n * 0xFFFF_FFFF,
        ;
        assert(a >= base <==> turnouts >= base * n) by (nonlinear_arith)
            requires
                n > 0,
                a * n <= turnouts < (a + 1) * n,
        ;
    }
    let k = if step > 0 {
        (base - a) / step
    } else {
        0
    };
    if step > 0 && a < base {
        assert(0 <= k && k * step <= base - a < (k + 1) * step) by (nonlinear_arith)
            requires
                step > 0,
                base - a > 0,
                k == (base - a) / step,
        ;
    }
    k
}

/// Closing a proposal, by finalizing it or by taking its deposit back, remembers
/// the turnout: what share of the supply voted, in basis
/// points rounded down, and all of it where more voted than that. The oldest
/// goes where the window is full: five turnouts, unless another was set.
pub proof fn law_turnout_remembered(s: DaoState, t: DaoState, now: u64, id: u64, i: int)
    requires
        s.finalize(now, id) is Ok && t == after(s, s.finalize(now, id)) || s.reclaim_deposit(
            now,
            id,
        ) is Ok && t == after(s, s.reclaim_deposit(now, id)),
        s.proposals[id].total_supply > 0,
        s.proposals[id].votes_for >= 0,
        s.proposals[id].votes_against >= 0,
        s.proposals[id].votes_abstain >= 0,
        (s.proposals[id].votes_for + s.proposals[id].votes_against
            + s.proposals[id].votes_abstain) * 10_000 <= i128::MAX,
    ensures
        ({
            let p = s.proposals[id];
            let voted = p.votes_for + p.votes_against + p.votes_abstain;
            let share = t.recent_bps.last();
            let window = match s.quorum_decay {
                Some(d) => if d.window == 0 {
                    5
                } else {
                    d.window as int
                },
                None => 5,
            };
            let n = s.recent_bps.len() as int;
            &&& voted <= p.total_supply ==> share * p.total_supply <= voted * 10_000 < (share + 1)
                * p.total_supply
            &&& voted >= p.total_supply ==> share == 10_000
            &&& n < window ==> t.recent_bps.len() == n + 1
            &&& n >= window ==> t.recent_bps.len() == window
            &&& 0 <= i < t.recent_bps.len() - 1 ==> t.recent_bps[i] == s.recent_bps[i + (n + 1
                - t.recent_bps.len())]
        }),
{
    let p = s.proposals[id];
    let voted = p.votes_for + p.votes_against + p.votes_abstain;
    let supply = p.total_supply as int;
    let x = voted * 10_000;
    assert((x / supply) * supply <= x < (x / supply + 1) * supply && 0 <= x / supply)
        by (nonlinear_arith)
        requires
            supply > 0,
            x >= 0,
    ;
    assert(voted <= supply ==> x / supply <= 10_000) by (nonlinear_arith)
        requires
            supply > 0,
            x == voted * 10_000,
    ;
    assert(voted >= supply ==> x / supply >= 10_000) by (nonlinear_arith)
        requires
            supply > 0,
            x == voted * 10_000,
    ;
    assert(voted == supply ==> 10_000 * supply <= x < 10_001 * supply);
}

/// A vote is taken from someone who holds tokens and has not voted on the
/// proposal, from the day it opens for voting to the end of voting. It counts
/// with the tokens held, or with the cap where one is set and they exceed it,
/// for the chosen side alone. All the tokens held are taken and locked.
pub proof fn law_votes(
    s: DaoState,
    now: u64,
    voter: Addr,
    id: u64,
    choice: VoteChoice,
    balance: i128,
)
    requires
        s.config is Some,
        s.vote_fits(id, choice, balance),
    ensures
        ({
            let outcome = s.vote(now, voter, id, choice, balance);
            let p = s.proposals[id];
            let cap = s.config->0.vote_weight_cap;
            let weight = if 0 < cap < balance {
                cap
            } else {
                balance
            };
            &&& outcome is Ok <==> {
                &&& s.proposals.contains_key(id)
                &&& p.status == ProposalStatus::Active || p.status == ProposalStatus::Discussion
                &&& p.created_at <= now <= p.vote_end
                &&& !s.votes.contains_key((id, voter))
                &&& balance > 0
            }
            &&& outcome matches Ok((t, _)) ==> {
                let v = t.proposals[id];
                &&& v.votes_for == p.votes_for + if choice == VoteChoice::For {
                    weight as int
                } else {
                    0
                }
                &&& v.votes_against == p.votes_against + if choice == VoteChoice::Against {
                    weight as int
                } else {
                    0
                }
                &&& v.votes_abstain == p.votes_abstain + if choice == VoteChoice::Abstain {
                    weight as int
                } else {
                    0
                }
                &&& v == (ProposalRecord {
                    status: ProposalStatus::Active,
                    votes_for: v.votes_for,
                    votes_against: v.votes_against,
                    votes_abstain: v.votes_abstain,
                    ..p
                })
                &&& t =~= (DaoState {
                    proposals: s.proposals.insert(id, v),
                    locked: s.locked.insert((id, voter), balance),
                    votes: s.votes.insert((id, voter), VoteRecord { voter, choice, weight }),
                    outbox: t.outbox,
                    ..s
                })
                &&& ends_with(
                    t.outbox,
                    s.outbox,
                    seq![
                        Effect::RequireAuth(voter),
                        Effect::Collect {
                            token: s.config->0.gov_token,
                            from: voter,
                            amount: balance,
                        },
                        Effect::Emit(
                            Event::VoteCast(VoteCast { proposal_id: id, voter, choice, weight }),
                        ),
                    ],
                )
                &&& t.outbox.len() == s.outbox.len() + 4 <==> p.status
                    == ProposalStatus::Discussion
            }
        }),
{
}

/// Locked tokens go back to the voter, all of them, once the proposal is no
/// longer open.
pub proof fn law_withdrawals(s: DaoState, voter: Addr, id: u64)
    requires
        s.config is Some,
    ensures
        ({
            let outcome = s.withdraw_tokens(voter, id);
            let p = s.proposals[id];
            &&& outcome is Ok <==> s.proposals.contains_key(id) && p.status
                != ProposalStatus::Active && p.status != ProposalStatus::Discussion
                && s.locked.contains_key((id, voter)) && s.locked[(id, voter)] > 0
            &&& outcome matches Ok((t, _)) ==> {
                let amount = s.locked[(id, voter)];
                t =~= (DaoState {
                    locked: s.locked.remove((id, voter)),
                    outbox: s.outbox + seq![
                        Effect::RequireAuth(voter),
                        Effect::Pay { token: s.config->0.gov_token, to: voter, amount },
                        Effect::Emit(Event::TokensWithdrawn { proposal_id: id, voter, amount }),
                    ],
                    ..s
                })
            }
        }),
{
}

/// A proposal is taken, for a well-formed address, with a title of at most 256
/// bytes and an analysis of 1 to 4096 bytes, from someone who holds the threshold,
/// which is taken as the deposit. It is numbered on from the last, open for
/// voting after the discussion period and for the voting period, to be executed
/// within seven days of the five minutes after that, and counts against today's
/// supply.
pub proof fn law_proposals(
    s: DaoState,
    now: u64,
    proposer: Addr,
    title: Seq<u8>,
    target: Addr,
    function: Sym,
    args: Seq<Argument>,
    kind: ProposalKind,
    impact_analysis: Seq<u8>,
    balance: i128,
)
    requires
        s.config is Some,
        s.next_proposal_id is Some,
        s.next_proposal_id->0 < u64::MAX,
    ensures
        ({
            let outcome = s.propose(
                now,
                proposer,
                title,
                target,
                function,
                args,
                kind,
                impact_analysis,
                balance,
            );
            let config = s.config->0;
            let end = now + config.discussion_period + config.voting_period;
            &&& outcome is Ok <==> {
                &&& target@.len() == 56 && (target@[0] == 71 || target@[0] == 67)
                &&& title.len() <= 256
                &&& 1 <= impact_analysis.len() <= 4096
                &&& balance >= config.proposal_threshold
            }
            &&& outcome matches Ok((t, id)) ==> {
                let p = t.proposals[id];
                &&& id == s.next_proposal_id->0
                &&& p.id == id && p.proposer == proposer && p.title == title
                &&& p.target == target && p.function == function && p.args == args
                &&& p.kind == kind && p.impact_analysis == impact_analysis
                &&& p.deposit == config.proposal_threshold
                &&& p.total_supply == config.total_supply
                &&& p.votes_for == 0 && p.votes_against == 0 && p.votes_abstain == 0
                &&& p.status == ProposalStatus::Active <==> config.discussion_period == 0
                &&& p.status == ProposalStatus::Active || p.status == ProposalStatus::Discussion
                &&& p.execution_time == 0 && !p.execution_verified && p.verification_callback
                    is None
                &&& end + 605_100 <= u64::MAX ==> {
                    &&& p.created_at == now + config.discussion_period
                    &&& p.vote_end == end
                    &&& p.execution_deadline == end + 605_100
                }
                &&& t =~= (DaoState {
                    proposals: s.proposals.insert(id, p),
                    next_proposal_id: Some((id + 1) as u64),
                    outbox: s.outbox + seq![
                        Effect::RequireAuth(proposer),
                        Effect::Collect {
                            token: config.gov_token,
                            from: proposer,
                            amount: config.proposal_threshold,
                        },
                        Effect::Emit(
                            Event::ProposalCreated(
                                ProposalCreated { proposal_id: id, proposer, target, function },
                            ),
                        ),
                    ],
                    ..s
                })
            }
        }),
{
}

/// A refused proposal, vote or withdrawal names what is wrong.
pub proof fn law_refusals(
    s: DaoState,
    now: u64,
    who: Addr,
    title: Seq<u8>,
    target: Addr,
    function: Sym,
    args: Seq<Argument>,
    kind: ProposalKind,
    analysis: Seq<u8>,
    balance: i128,
    id: u64,
    choice: VoteChoice,
)
    ensures
        s.propose(now, who, title, target, function, args, kind, analysis, balance) matches Err(e)
            ==> {
            ||| e == Error::InvalidAddress && !(target@.len() == 56 && (target@[0] == 71
                || target@[0] == 67))
            ||| e == Error::TitleTooLong && title.len() > 256
            ||| e == Error::ImpactAnalysisMissing && analysis.len() == 0
            ||| e == Error::ImpactAnalysisTooLong && analysis.len() > 4096
            ||| e == Error::NotInitialized && s.config is None
            ||| e == Error::InsufficientWeight && s.config is Some && balance
                < s.config->0.proposal_threshold
            ||| e == Error::LimitReached && s.next_proposal_id == Some(u64::MAX)
        },
        s.vote(now, who, id, choice, balance) matches Err(e) ==> {
            let p = s.proposals[id];
            let open = p.status == ProposalStatus::Active || p.status == ProposalStatus::Discussion;
            ||| e == Error::ProposalNotFound && !s.proposals.contains_key(id)
            ||| e == Error::ProposalNotActive && s.proposals.contains_key(id) && (!open || now
                < p.created_at)
            ||| e == Error::VotingClosed && s.proposals.contains_key(id) && open && now
                > p.vote_end
            ||| e == Error::AlreadyVoted && s.votes.contains_key((id, who))
            ||| e == Error::InsufficientWeight && balance <= 0
        },
        s.withdraw_tokens(who, id) matches Err(e) ==> {
            let p = s.proposals[id];
            let open = p.status == ProposalStatus::Active || p.status == ProposalStatus::Discussion;
            ||| e == Error::ProposalNotFound && !s.proposals.contains_key(id)
            ||| e == Error::ProposalNotActive && s.proposals.contains_key(id) && open
            ||| e == Error::InsufficientWeight && (!s.locked.contains_key((id, who)) || s.locked[(
                id,
                who,
            )] <= 0)
        },
{
}

/// A refusal to close, execute or cancel a proposal names what is wrong.
pub proof fn law_refused_decisions(s: DaoState, now: u64, who: Addr, id: u64)
    ensures
        ({
            let p = s.proposals[id];
            let known = s.proposals.contains_key(id);
            let open = p.status == ProposalStatus::Active || p.status == ProposalStatus::Discussion;
            &&& s.finalize(now, id) matches Err(e) ==> {
                ||| e == Error::ProposalNotFound && !known
                ||| e == Error::ProposalNotActive && known && !open
                ||| e == Error::FinalizeDelayNotMet && known && open && now <= p.vote_end + 300
            }
            &&& s.reclaim_deposit(now, id) matches Err(e) ==> {
                ||| e == Error::ProposalNotFound && !known
                ||| e == Error::ProposalNotActive && known && !open
                ||| e == Error::ProposalNotExpired && known && open && now <= p.vote_end
                    + 1_209_600
            }
            &&& s.execute(now, id) matches Err(e) ==> {
                ||| e == Error::ProposalNotFound && !known
                ||| e == Error::AlreadyExecuted && known && p.status == ProposalStatus::Executed
                ||| e == Error::AlreadyCancelled && known && p.status == ProposalStatus::Cancelled
                ||| e == Error::ProposalNotPassed && known && p.status != ProposalStatus::Passed
                    && p.status != ProposalStatus::Executed && p.status != ProposalStatus::Cancelled
                ||| e == Error::TimelockNotExpired && known && p.status == ProposalStatus::Passed
                    && now < p.execution_time
                ||| e == Error::ProposalExpired && known && p.status == ProposalStatus::Passed
                    && now > p.execution_deadline
                ||| e == Error::InvalidAddress && known && !(p.target@.len() == 56 && (p.target@[0]
                    == 71 || p.target@[0] == 67))
            }
            &&& s.cancel(now, who, id) matches Err(e) ==> {
                ||| e == Error::NotInitialized && s.admin is None
                ||| e == Error::Unauthorized && s.admin is Some && s.admin != Some(who)
                ||| e == Error::ProposalNotFound && !known
                ||| e == Error::ProposalNotActive && known && !open
                ||| e == Error::VotingClosed && known && open && now > p.vote_end
            }
        }),
{
}

/// A plain proposal calls what it names; a proposal to upgrade calls `upgrade` on
/// its target, in the DAO's name, with the new code.
pub proof fn law_kinds_of_proposals(
    s: DaoState,
    now: u64,
    proposer: Addr,
    title: Seq<u8>,
    target: Addr,
    function: Sym,
    args: Seq<Argument>,
    hash: [u8; 32],
    impact_analysis: Seq<u8>,
    balance: i128,
)
    ensures
        s.create_proposal(
            now,
            proposer,
            title,
            target,
            function,
            args,
            impact_analysis,
            balance,
        ) matches Ok((t, id)) ==> t.proposals[id].kind == ProposalKind::Standard
            && t.proposals[id].function == function && t.proposals[id].args == args
            && t.proposals[id].title == title && t.proposals[id].proposer == proposer,
        s.propose_upgrade(
            now,
            proposer,
            title,
            target,
            hash,
            impact_analysis,
            balance,
        ) matches Ok((t, id)) ==> t.proposals[id].kind == ProposalKind::Upgrade
            && t.proposals[id].target == target && t.proposals[id].function == sym_of(
            seq![0x75u8, 0x70u8, 0x67u8, 0x72u8, 0x61u8, 0x64u8, 0x65u8],
        ) && t.proposals[id].args == seq![Argument::Dao, Argument::CodeHash(hash)],
{
}

/// The deposit of a proposal that nobody finalized can be had back when more
/// than fourteen days have gone by since the end of voting. The proposal has then
/// failed.
pub proof fn law_reclaiming(s: DaoState, now: u64, id: u64)
    requires
        s.config is Some,
        s.proposals.contains_key(id),
        s.proposals[id].vote_end + 1_209_600 <= u64::MAX,
    ensures
        ({
            let outcome = s.reclaim_deposit(now, id);
            let p = s.proposals[id];
            &&& outcome is Ok <==> (p.status == ProposalStatus::Active || p.status
                == ProposalStatus::Discussion) && now > p.vote_end + 1_209_600
            &&& outcome matches Ok((t, _)) ==> {
                t =~= (DaoState {
                    proposals: s.proposals.insert(
                        id,
                        ProposalRecord { status: ProposalStatus::Failed, ..p },
                    ),
                    recent_bps: t.recent_bps,
                    total_recorded: t.total_recorded,
                    outbox: s.outbox + seq![
                        Effect::Pay {
                            token: s.config->0.gov_token,
                            to: p.proposer,
                            amount: p.deposit,
                        },
                        Effect::Emit(
                            Event::DepositReclaimed(
                                DepositReclaimed {
                                    proposal_id: id,
                                    proposer: p.proposer,
                                    amount: p.deposit,
                                },
                            ),
                        ),
                    ],
                    ..s
                })
            }
        }),
{
}

/// A proposal that passed can be executed from the end of its timelock to its
/// deadline, once. Only an upgrade calls its target. Where nothing is to confirm
/// the outcome it counts as confirmed.
pub proof fn law_executions(s: DaoState, now: u64, id: u64)
    requires
        s.proposals.contains_key(id),
    ensures
        ({
            let outcome = s.execute(now, id);
            let p = s.proposals[id];
            &&& outcome is Ok <==> p.status == ProposalStatus::Passed && p.execution_time <= now
                <= p.execution_deadline && p.target@.len() == 56 && (p.target@[0] == 71
                || p.target@[0] == 67)
            &&& outcome matches Ok((t, _)) ==> {
                let call = Effect::Invoke {
                    proposal_id: id,
                    target: p.target,
                    function: p.function,
                };
                let told = Effect::Emit(
                    Event::ProposalExecuted(ProposalExecuted { proposal_id: id }),
                );
                t =~= (DaoState {
                    proposals: s.proposals.insert(
                        id,
                        ProposalRecord {
                            status: ProposalStatus::Executed,
                            execution_verified: p.verification_callback is None,
                            ..p
                        },
                    ),
                    outbox: s.outbox + if p.kind == ProposalKind::Upgrade {
                        seq![call, told]
                    } else {
                        seq![told]
                    },
                    ..s
                })
            }
            &&& p.status == ProposalStatus::Passed && now < p.execution_time ==> outcome == Err::<
                (DaoState, ()),
                Error,
            >(Error::TimelockNotExpired)
            &&& p.status == ProposalStatus::Passed && p.execution_time <= now && now
                > p.execution_deadline ==> outcome == Err::<(DaoState, ()), Error>(
                Error::ProposalExpired,
            )
        }),
{
}

/// The administrator can cancel a proposal while its voting has not ended; the
/// proposer has the deposit back.
pub proof fn law_cancellations(s: DaoState, now: u64, admin: Addr, id: u64)
    requires
        s.config is Some,
        s.proposals.contains_key(id),
    ensures
        ({
            let outcome = s.cancel(now, admin, id);
            let p = s.proposals[id];
            &&& outcome is Ok <==> s.admin == Some(admin) && (p.status == ProposalStatus::Active
                || p.status == ProposalStatus::Discussion) && now <= p.vote_end
            &&& outcome matches Ok((t, _)) ==> {
                t =~= (DaoState {
                    proposals: s.proposals.insert(
                        id,
                        ProposalRecord { status: ProposalStatus::Cancelled, ..p },
                    ),
                    outbox: s.outbox + seq![
                        Effect::RequireAuth(admin),
                        Effect::Pay {
                            token: s.config->0.gov_token,
                            to: p.proposer,
                            amount: p.deposit,
                        },
                        Effect::Emit(
                            Event::ProposalCancelled(ProposalCancelled { proposal_id: id }),
                        ),
                    ],
                    ..s
                })
            }
        }),
{
}

/// A configuration is taken with a voting period of an hour to thirty days and a
/// quorum of at least a tenth of the supply, from the administrator, and then in
/// force as it stands.
pub proof fn law_configurations(s: DaoState, admin: Addr, config: DaoConfig)
    ensures
        ({
            let sound = 3_600 <= config.voting_period <= 2_592_000 && config.quorum_bps >= 1_000;
            let first = s.initialize(admin, config);
            let next = s.update_config(admin, config);
            &&& first is Ok <==> {
                &&& !s.initialized
                &&& admin@.len() == 56 && (admin@[0] == 71 || admin@[0] == 67)
                &&& config.gov_token@.len() == 56 && config.gov_token@[0] == 67
                &&& sound
            }
            &&& first matches Ok((t, _)) ==> t =~= (DaoState {
                initialized: true,
                admin: Some(admin),
                config: Some(config),
                next_proposal_id: Some(0),
                outbox: s.outbox + seq![
                    Effect::Emit(
                        Event::Initialized(Initialized { admin, gov_token: config.gov_token }),
                    ),
                ],
                ..s
            })
            &&& next is Ok <==> s.admin == Some(admin) && sound
            &&& next matches Ok((t, _)) ==> t =~= (DaoState {
                config: Some(config),
                outbox: t.outbox,
                ..s
            }) && t.outbox.len() == s.outbox.len() + 2 && t.outbox[s.outbox.len() as int]
                == Effect::RequireAuth(admin)
            &&& !sound && s.admin == Some(admin) ==> {
                ||| next == Err::<(DaoState, ()), Error>(Error::VotingPeriodTooShort)
                    && config.voting_period < 3_600
                ||| next == Err::<(DaoState, ()), Error>(Error::VotingPeriodTooLong)
                    && config.voting_period > 2_592_000
                ||| next == Err::<(DaoState, ()), Error>(Error::QuorumTooLow) && config.quorum_bps
                    < 1_000
            }
        }),
{
}

/// A new DAO is empty, of the first version, without guardians and with a fixed
/// quorum.
pub proof fn law_defaults(s: DaoState)
    ensures
        ({
            let n = DaoState::fresh();
            &&& !n.initialized && n.admin is None && n.config is None
            &&& n.proposals =~= Map::empty() && n.votes =~= Map::empty()
            &&& n.locked =~= Map::empty()
            &&& n.guardians.len() == 0 && n.guardian_threshold == 0 && n.pending_upgrade is None
            &&& n.recent_bps.len() == 0 && n.total_recorded == 0
            &&& n.templates =~= Map::empty() && n.template_list.len() == 0 && n.outbox.len() == 0
            &&& n.proposal_counter() == 0 && n.stored_version() == 1
            &&& !n.decay().enabled && n.decay().floor_bps == 1_000
                && n.decay().decay_per_period_bps == 0 && n.decay().window == 0
        }),
        s.next_proposal_id is Some ==> s.proposal_counter() == s.next_proposal_id->0,
        s.version is Some ==> s.stored_version() == s.version->0,
        s.quorum_decay is Some ==> s.decay() == s.quorum_decay->0,
{
}

/// Votes that fit the range when added up, and dates that do, are all that the
/// DAO's arithmetic asks for.
pub proof fn law_ordinary_votes_are_computable(
    s: DaoState,
    now: u64,
    id: u64,
    choice: VoteChoice,
    balance: i128,
)
    requires
        s.proposals.contains_key(id),
        s.config is Some,
        s.proposals[id].votes_for >= 0,
        s.proposals[id].votes_against >= 0,
        s.proposals[id].votes_abstain >= 0,
        balance >= 0,
        s.proposals[id].votes_for + s.proposals[id].votes_against + s.proposals[id].votes_abstain
            + balance <= i128::MAX,
        s.proposals[id].vote_end + 300 <= u64::MAX,
        now + s.config->0.proposal_timelock <= u64::MAX,
    ensures
        s.vote_fits(id, choice, balance),
        s.finalize_fits(now, id),
        s.reclaim_fits(now, id),
{
}

/// A request to finalize that comes too early, or for a proposal that is not
/// open, can always be answered.
pub proof fn law_early_requests_are_computable(s: DaoState, now: u64, id: u64)
    requires
        s.proposals.contains_key(id) ==> now <= s.proposals[id].vote_end + 300 <= u64::MAX || (
        s.proposals[id].status != ProposalStatus::Active && s.proposals[id].status
            != ProposalStatus::Discussion),
    ensures
        s.finalize_fits(now, id),
        s.finalize(now, id) is Err,
{
}

/// An adaptive quorum is switched on with a floor below the quorum, a step, and
/// a window of one to twenty turnouts; it can always be switched off. A floor
/// under a tenth counts as a tenth.
pub proof fn law_quorum_settings(
    s: DaoState,
    admin: Addr,
    enabled: bool,
    floor_bps: u32,
    step: u32,
    window: u32,
)
    requires
        s.admin == Some(admin),
        s.config is Some,
    ensures
        ({
            let outcome = s.set_quorum_decay(admin, enabled, floor_bps, step, window);
            &&& outcome is Ok <==> (enabled ==> floor_bps < s.config->0.quorum_bps && 1 <= window
                <= 20 && step > 0)
            &&& outcome matches Ok((t, _)) ==> {
                let d = t.quorum_decay->0;
                &&& t.quorum_decay is Some && d.enabled == enabled && d.decay_per_period_bps == step
                &&& d.window == window
                &&& floor_bps >= 1_000 ==> d.floor_bps == floor_bps
                &&& floor_bps <= 1_000 ==> d.floor_bps == 1_000
                &&& t =~= (DaoState {
                    quorum_decay: t.quorum_decay,
                    outbox: s.outbox + seq![
                        Effect::RequireAuth(admin),
                        Effect::Emit(
                            Event::QuorumDecayConfigUpdated(
                                QuorumDecayConfigUpdated {
                                    enabled,
                                    floor_bps: d.floor_bps,
                                    decay_per_period_bps: step,
                                    window,
                                },
                            ),
                        ),
                    ],
                    ..s
                })
            }
        }),
{
}

/// A proposal made from a template is one that could be made without it, with a
/// title of the least length and the number of arguments that the template asks
/// for, while the template is on.
pub proof fn law_templates(
    s: DaoState,
    now: u64,
    proposer: Addr,
    name: Sym,
    title: Seq<u8>,
    target: Addr,
    function: Sym,
    args: Seq<Argument>,
    impact_analysis: Seq<u8>,
    balance: i128,
)
    ensures
        ({
            let outcome = s.create_proposal_from_template(
                now,
                proposer,
                name,
                title,
                target,
                function,
                args,
                impact_analysis,
                balance,
            );
            let plain = s.create_proposal(
                now,
                proposer,
                title,
                target,
                function,
                args,
                impact_analysis,
                balance,
            );
            let template = s.templates[name];
            &&& outcome is Ok <==> {
                &&& s.templates.contains_key(name)
                &&& template.active
                &&& title.len() >= template.min_title_len
                &&& args.len() == template.required_arg_count
                &&& plain is Ok
            }
            &&& outcome is Ok ==> after(s, outcome).proposals == after(s, plain).proposals
        }),
{
}

/// The administrator registers and switches off templates.
pub proof fn law_template_settings(
    s: DaoState,
    admin: Addr,
    name: Sym,
    description: Seq<u8>,
    min_title_len: u32,
    arg_count: u32,
)
    ensures
        ({
            let made = s.register_template(admin, name, description, min_title_len, arg_count);
            let off = s.deactivate_template(admin, name);
            &&& made is Ok <==> s.admin == Some(admin)
            &&& made matches Ok((t, _)) ==> {
                let template = t.templates[name];
                &&& t =~= (DaoState {
                    templates: s.templates.insert(name, template),
                    template_list: t.template_list,
                    outbox: s.outbox + seq![
                        Effect::RequireAuth(admin),
                        Effect::Emit(
                            Event::TemplateRegistered(
                                TemplateRegistered {
                                    name,
                                    min_title_len,
                                    required_arg_count: arg_count,
                                },
                            ),
                        ),
                    ],
                    ..s
                })
                &&& s.template_list.contains(name) ==> t.template_list == s.template_list
                &&& !s.template_list.contains(name) ==> t.template_list == s.template_list.push(
                    name,
                )
                &&& t.templates.contains_key(name) && t.template_list.contains(name)
                &&& template.name == name && template.description == description
                &&& template.min_title_len == min_title_len
                &&& template.required_arg_count == arg_count && template.active
            }
            &&& off is Ok <==> s.admin == Some(admin) && s.templates.contains_key(name)
            &&& off matches Ok((t, _)) ==> t =~= (DaoState {
                templates: s.templates.insert(
                    name,
                    TemplateRecord { active: false, ..s.templates[name] },
                ),
                outbox: s.outbox + seq![Effect::RequireAuth(admin)],
                ..s
            })
        }),
{
    if let Ok((t, _)) = s.register_template(admin, name, description, min_title_len, arg_count) {
        if !s.template_list.contains(name) {
            assert(t.template_list[s.template_list.len() as int] == name);
        }
    }
}

/// New code has a higher number than the old. Without guardians it is put in
/// place at once; with them it waits until as many as the threshold says, each
/// once, have approved that very code.
pub proof fn law_upgrades(
    s: DaoState,
    admin: Addr,
    hash: [u8; 32],
    new_version: u32,
    guardian: Addr,
    guardians: Seq<Addr>,
    threshold: u32,
)
    ensures
        ({
            let outcome = s.upgrade(admin, hash, new_version);
            let current = match s.version {
                Some(v) => v,
                None => 1,
            };
            let approval = s.approve_upgrade(guardian, hash);
            let pending = s.pending_upgrade->0;
            let named = s.set_guardians(admin, guardians, threshold);
            &&& outcome is Ok <==> s.admin == Some(admin) && new_version > current
            &&& outcome matches Ok((t, _)) ==> {
                &&& t =~= (DaoState {
                    version: t.version,
                    pending_upgrade: t.pending_upgrade,
                    outbox: t.outbox,
                    ..s
                })
                &&& t.outbox[s.outbox.len() as int] == Effect::RequireAuth(admin)
                &&& s.guardian_threshold == 0 ==> t.version == Some(new_version)
                    && t.pending_upgrade == s.pending_upgrade && t.outbox[t.outbox.len() - 2]
                    == Effect::ReplaceCode(hash)
                &&& s.guardian_threshold > 0 ==> t.version == s.version && t.outbox.len()
                    == s.outbox.len() + 1 && t.pending_upgrade is Some
                    && t.pending_upgrade->0.new_wasm_hash == hash
                    && t.pending_upgrade->0.new_version == new_version
                    && t.pending_upgrade->0.approvals.len() == 0
            }
            &&& approval is Ok <==> s.guardians.contains(guardian) && s.pending_upgrade is Some
                && pending.new_wasm_hash == hash && !pending.approvals.contains(guardian)
            &&& approval matches Ok((t, _)) ==> {
                &&& t =~= (DaoState {
                    version: t.version,
                    pending_upgrade: t.pending_upgrade,
                    outbox: t.outbox,
                    ..s
                })
                &&& t.outbox[s.outbox.len() as int] == Effect::RequireAuth(guardian)
                &&& pending.approvals.len() + 1 >= s.guardian_threshold ==> t.version == Some(
                    pending.new_version,
                ) && t.pending_upgrade is None && t.outbox[t.outbox.len() - 2]
                    == Effect::ReplaceCode(hash)
                &&& pending.approvals.len() + 1 < s.guardian_threshold ==> t.version == s.version
                    && t.pending_upgrade is Some && t.pending_upgrade->0.approvals
                    == pending.approvals.push(guardian)
            }
            &&& named is Ok <==> s.admin == Some(admin) && threshold <= guardians.len()
            &&& named matches Ok((t, _)) ==> t =~= (DaoState {
                guardians,
                guardian_threshold: threshold,
                outbox: t.outbox,
                ..s
            }) && t.outbox[s.outbox.len() as int] == Effect::RequireAuth(admin)
            &&& s.cancel_pending_upgrade(admin) is Ok <==> s.admin == Some(admin)
                && s.pending_upgrade is Some
            &&& s.cancel_pending_upgrade(admin) matches Ok((t, _)) ==> t =~= (DaoState {
                pending_upgrade: None,
                outbox: s.outbox + seq![Effect::RequireAuth(admin)],
                ..s
            })
        }),
{
}

} // verus!
