//! What holds of governance as a whole.

use crate::arith::greatest;
use crate::governance_dao::state::{
    DEFAULT_PARTICIPATION_WINDOW, DaoState, EXECUTION_WINDOW, FINALIZE_DELAY, MIN_QUORUM_BPS,
    ProposalRecord, UpgradeProposal, average_of, decayed_quorum, is_open, quorum_votes, sum_of,
    turnout_bps,
};
use crate::governance_dao::types::{
    Argument, DaoConfig, Effect, Error, Event, ProposalKind, ProposalStatus, QuorumDecayConfig,
    VoteChoice, VoteRecord,
};
use crate::outcome::after;
use crate::text::{Addr, Sym, sym_of};
use vstd::prelude::*;

verus! {

/// A request that can change the DAO.
pub enum Request {
    Initialize { admin: Addr, config: DaoConfig },
    CreateProposal { now: u64, proposer: Addr, title: Seq<u8>, target: Addr, function: Sym, args: Seq<Argument>, impact_analysis: Seq<u8>, balance: i128 },
    ProposeUpgrade { now: u64, proposer: Addr, title: Seq<u8>, target: Addr, new_wasm_hash: [u8; 32], impact_analysis: Seq<u8>, balance: i128 },
    CreateProposalFromTemplate { now: u64, proposer: Addr, template_name: Sym, title: Seq<u8>, target: Addr, function: Sym, args: Seq<Argument>, impact_analysis: Seq<u8>, balance: i128 },
    Vote { now: u64, voter: Addr, proposal_id: u64, choice: VoteChoice, balance: i128 },
    WithdrawTokens { voter: Addr, proposal_id: u64 },
    Finalize { now: u64, proposal_id: u64 },
    ReclaimDeposit { now: u64, proposal_id: u64 },
    Execute { now: u64, proposal_id: u64 },
    Cancel { now: u64, admin: Addr, proposal_id: u64 },
    SetQuorumDecay { admin: Addr, enabled: bool, floor_bps: u32, decay_per_period_bps: u32, window: u32 },
    RegisterTemplate { admin: Addr, name: Sym, description: Seq<u8>, min_title_len: u32, required_arg_count: u32 },
    DeactivateTemplate { admin: Addr, name: Sym },
    UpdateConfig { admin: Addr, config: DaoConfig },
    Upgrade { admin: Addr, new_wasm_hash: [u8; 32], new_version: u32 },
    SetGuardians { admin: Addr, guardians: Seq<Addr>, threshold: u32 },
    ApproveUpgrade { guardian: Addr, new_wasm_hash: [u8; 32] },
    CancelPendingUpgrade { admin: Addr },
}

impl DaoState {
    /// The state after a request, whether it was refused or not.
    #[verifier::opaque]
    pub open spec fn apply(self, r: Request) -> DaoState {
        match r {
            Request::Initialize { admin, config } => after(
                self,
                self.initialize(admin, config),
            ),
            Request::CreateProposal { now, proposer, title, target, function, args, impact_analysis, balance } => after(
                self,
                self.create_proposal(now, proposer, title, target, function, args, impact_analysis, balance),
            ),
            Request::ProposeUpgrade { now, proposer, title, target, new_wasm_hash, impact_analysis, balance } => after(
                self,
                self.propose_upgrade(now, proposer, title, target, new_wasm_hash, impact_analysis, balance),
            ),
            Request::CreateProposalFromTemplate { now, proposer, template_name, title, target, function, args, impact_analysis, balance } => after(
                self,
                self.create_proposal_from_template(now, proposer, template_name, title, target, function, args, impact_analysis, balance),
            ),
            Request::Vote { now, voter, proposal_id, choice, balance } => after(
                self,
                self.vote(now, voter, proposal_id, choice, balance),
            ),
            Request::WithdrawTokens { voter, proposal_id } => after(
                self,
                self.withdraw_tokens(voter, proposal_id),
            ),
            Request::Finalize { now, proposal_id } => after(
                self,
                self.finalize(now, proposal_id),
            ),
            Request::ReclaimDeposit { now, proposal_id } => after(
                self,
                self.reclaim_deposit(now, proposal_id),
            ),
            Request::Execute { now, proposal_id } => after(
                self,
                self.execute(now, proposal_id),
            ),
            Request::Cancel { now, admin, proposal_id } => after(
                self,
                self.cancel(now, admin, proposal_id),
            ),
            Request::SetQuorumDecay { admin, enabled, floor_bps, decay_per_period_bps, window } => after(
                self,
                self.set_quorum_decay(admin, enabled, floor_bps, decay_per_period_bps, window),
            ),
            Request::RegisterTemplate { admin, name, description, min_title_len, required_arg_count } => after(
                self,
                self.register_template(admin, name, description, min_title_len, required_arg_count),
            ),
            Request::DeactivateTemplate { admin, name } => after(
                self,
                self.deactivate_template(admin, name),
            ),
            Request::UpdateConfig { admin, config } => after(
                self,
                self.update_config(admin, config),
            ),
            Request::Upgrade { admin, new_wasm_hash, new_version } => after(
                self,
                self.upgrade(admin, new_wasm_hash, new_version),
            ),
            Request::SetGuardians { admin, guardians, threshold } => after(
                self,
                self.set_guardians(admin, guardians, threshold),
            ),
            Request::ApproveUpgrade { guardian, new_wasm_hash } => after(
                self,
                self.approve_upgrade(guardian, new_wasm_hash),
            ),
            Request::CancelPendingUpgrade { admin } => after(
                self,
                self.cancel_pending_upgrade(admin),
            ),
        }
    }

    /// Whether a request stays within the DAO's arithmetic.
    pub open spec fn has_room(self, r: Request) -> bool {
        match r {
            Request::Vote { now, voter, proposal_id, choice, balance } => self.vote_error(
                now,
                voter,
                proposal_id,
                balance,
            ) is None ==> self.vote_fits(proposal_id, choice, balance),
            Request::Finalize { now, proposal_id } => self.finalize_fits(now, proposal_id),
            Request::ReclaimDeposit { now, proposal_id } => self.reclaim_fits(now, proposal_id),
            _ => true,
        }
    }

    /// The state after requests made one after the other.
    pub open spec fn apply_all(self, requests: Seq<Request>) -> DaoState
        decreases requests.len(),
    {
        if requests.len() == 0 {
            self
        } else {
            self.apply_all(requests.drop_last()).apply(requests.last())
        }
    }

    /// Whether all of the requests stay within the DAO's arithmetic.
    pub open spec fn has_room_for_all(self, requests: Seq<Request>) -> bool
        decreases requests.len(),
    {
        requests.len() > 0 ==> self.has_room_for_all(requests.drop_last()) && self.apply_all(
            requests.drop_last(),
        ).has_room(requests.last())
    }

    /// Proposals are filed under their own numbers, which are below the next
    /// one to be given out.
    pub open spec fn numbered(self) -> bool {
        forall|id: u64| #[trigger]
            self.proposals.contains_key(id) ==> self.proposals[id].id == id && id
                < self.proposal_counter()
    }

    /// Every vote is on a proposal and carries weight, and is locked at least
    /// until the proposal is decided; what is locked covers the weight of a
    /// vote.
    pub open spec fn locks_ok(self) -> bool {
        &&& forall|k: (u64, Addr)| #[trigger]
            self.votes.contains_key(k) ==> self.proposals.contains_key(k.0) && self.votes[k].weight
                > 0 && (is_open(self.proposals[k.0].status)
                ==> self.locked.contains_key(k))
        &&& forall|k: (u64, Addr)| #[trigger]
            self.locked.contains_key(k) ==> self.votes.contains_key(k) && self.locked[k]
                >= self.votes[k].weight
    }

    /// Before it is set up, the DAO holds nothing.
    pub open spec fn empty_before_start(self) -> bool {
        if self.initialized {
            self.config is Some
        } else {
            &&& self.admin is None
            &&& self.config is None
            &&& forall|id: u64| !#[trigger] self.proposals.contains_key(id)
        }
    }

    /// No quorum is ever set below the lowest, and no turnout is above the
    /// supply.
    pub open spec fn quorum_ok(self) -> bool {
        &&& self.config matches Some(config) ==> config.quorum_bps >= MIN_QUORUM_BPS
        &&& self.decay().floor_bps >= MIN_QUORUM_BPS
        &&& self.recent_bps.len() <= u32::MAX
        &&& forall|i: int|
            0 <= i < self.recent_bps.len() ==> #[trigger] self.recent_bps[i] <= 10_000
    }

    /// What every request keeps.
    #[verifier::opaque]
    pub open spec fn inv(self) -> bool {
        &&& self.numbered()
        &&& self.locks_ok()
        &&& self.empty_before_start()
        &&& self.quorum_ok()
    }

    /// What a request leaves in place, `t` being the state after it.
    #[verifier::opaque]
    pub open spec fn kept_by(self, r: Request, t: DaoState) -> bool {
        &&& t.inv()
        &&& forall|id: u64| #[trigger]
            self.proposals.contains_key(id) ==> t.proposals.contains_key(id) && proposal_kept(
                self.proposals[id],
                t.proposals[id],
            ) && (tally_kept(self.proposals[id], t.proposals[id]) || self.counts_vote(r, t, id))
        &&& forall|k: (u64, Addr)| #[trigger]
            self.votes.contains_key(k) ==> t.votes.contains_key(k) && t.votes[k] == self.votes[k]
        &&& forall|k: (u64, Addr)| #[trigger]
            self.locked.contains_key(k) ==> (t.locked.contains_key(k) && t.locked[k]
                == self.locked[k]) || withdraws(r, k)
    }

    /// Whether a request is a vote on a proposal that adds its weight to one
    /// tally.
    pub open spec fn counts_vote(self, r: Request, t: DaoState, id: u64) -> bool {
        match r {
            Request::Vote { now, voter, proposal_id, choice, balance } => proposal_id == id
                && t.proposals[id] == Self::counted(
                self.proposals[id],
                choice,
                self.cast_weight(balance),
            ) && t.votes.contains_key((id, voter)) && t.votes[(id, voter)].weight
                == self.cast_weight(balance),
            _ => false,
        }
    }
}

/// Whether a request is that a voter's tokens be given back.
pub open spec fn withdraws(r: Request, k: (u64, Addr)) -> bool {
    match r {
        Request::WithdrawTokens { voter, proposal_id } => proposal_id == k.0 && voter == k.1,
        _ => false,
    }
}

/// What never changes about a proposal, and how its status can change.
pub open spec fn proposal_kept(a: ProposalRecord, b: ProposalRecord) -> bool {
    &&& b.id == a.id
    &&& b.proposer == a.proposer
    &&& b.title == a.title
    &&& b.target == a.target
    &&& b.function == a.function
    &&& b.args == a.args
    &&& b.deposit == a.deposit
    &&& b.created_at == a.created_at
    &&& b.vote_end == a.vote_end
    &&& b.execution_deadline == a.execution_deadline
    &&& b.total_supply == a.total_supply
    &&& b.kind == a.kind
    &&& b.impact_analysis == a.impact_analysis
    &&& b.verification_callback == a.verification_callback
    &&& b.execution_verified == a.execution_verified || b.status == ProposalStatus::Executed
    &&& may_become(a.status, b.status)
}

/// The votes counted on a proposal are as before.
pub open spec fn tally_kept(a: ProposalRecord, b: ProposalRecord) -> bool {
    a.votes_for == b.votes_for && a.votes_against == b.votes_against && a.votes_abstain
        == b.votes_abstain
}

/// How the status of a proposal can change in one request: one under discussion
/// becomes active, an open one is decided or cancelled, one that passed is
/// executed.
pub open spec fn may_become(a: ProposalStatus, b: ProposalStatus) -> bool {
    ||| a == b
    ||| a == ProposalStatus::Discussion && b == ProposalStatus::Active
    ||| is_open(a) && (b == ProposalStatus::Passed || b == ProposalStatus::Failed
        || b == ProposalStatus::Cancelled)
    ||| a == ProposalStatus::Passed && b == ProposalStatus::Executed
}

/// A new DAO meets the invariant.
pub proof fn law_fresh_inv()
    ensures
        DaoState::fresh().inv(),
{
    reveal(DaoState::inv);
}

proof fn lemma_inv_facts(s: DaoState)
    requires
        s.inv(),
    ensures
        s.initialized ==> s.config is Some,
        !s.initialized ==> s.admin is None && s.config is None,
        s.config is None ==> !s.initialized,
        s.numbered(),
        s.wf(),
        s.quorum_ok(),
        s.locks_ok(),
{
    reveal(DaoState::inv);
}

/// States that differ in nothing the invariant speaks of but quorums.
proof fn lemma_same_records(s: DaoState, t: DaoState)
    requires
        s.inv(),
        t.proposals == s.proposals,
        t.votes == s.votes,
        t.locked == s.locked,
        t.proposal_counter() == s.proposal_counter(),
        t.initialized == s.initialized,
        !s.initialized ==> t.admin is None && t.config is None,
        s.initialized ==> t.config is Some,
        t.quorum_ok(),
    ensures
        t.inv(),
{
    reveal(DaoState::inv);
}

/// A change of one proposal.
proof fn lemma_proposal_changed(s: DaoState, t: DaoState, id: u64)
    requires
        s.inv(),
        s.proposals.contains_key(id),
        t.proposals == s.proposals.insert(id, t.proposals[id]),
        t.proposals[id].id == id,
        is_open(t.proposals[id].status) ==> is_open(s.proposals[id].status),
        t.votes == s.votes,
        t.locked == s.locked,
        t.proposal_counter() == s.proposal_counter(),
        t.initialized == s.initialized,
        t.admin == s.admin,
        t.config == s.config,
        t.quorum_ok(),
    ensures
        t.inv(),
{
    reveal(DaoState::inv);
    assert forall|x: u64| #[trigger] t.proposals.contains_key(x) implies t.proposals[x].id == x && x
        < t.proposal_counter() by {
        assert(s.proposals.contains_key(x));
    }
    assert forall|k: (u64, Addr)| #[trigger] t.votes.contains_key(k) implies
        t.proposals.contains_key(k.0) && t.votes[k].weight > 0 && (is_open(t.proposals[k.0].status)
        ==> t.locked.contains_key(k)) by {
        assert(s.votes.contains_key(k));
    }
    assert forall|k: (u64, Addr)| #[trigger] t.locked.contains_key(k) implies
        t.votes.contains_key(k) && t.locked[k] >= t.votes[k].weight by {
        assert(s.locked.contains_key(k));
    }
}

/// A new proposal.
proof fn lemma_propose(
    s: DaoState,
    now: u64,
    proposer: Addr,
    title: Seq<u8>,
    target: Addr,
    function: Sym,
    args: Seq<Argument>,
    kind: ProposalKind,
    impact_analysis: Seq<u8>,
    balance: i128,
)
    requires
        s.inv(),
    ensures
        ({
            let t = after(
                s,
                s.propose(now, proposer, title, target, function, args, kind, impact_analysis, balance),
            );
            &&& t.inv()
            &&& t.votes == s.votes
            &&& t.locked == s.locked
            &&& t.initialized == s.initialized
            &&& t.config == s.config
            &&& forall|id: u64| #[trigger]
                s.proposals.contains_key(id) ==> t.proposals.contains_key(id) && t.proposals[id]
                    == s.proposals[id]
        }),
{
    reveal(DaoState::inv);
    let outcome = s.propose(now, proposer, title, target, function, args, kind, impact_analysis, balance);
    if outcome is Ok {
        let t = after(s, outcome);
        let id = s.proposal_counter();
        assert(!s.proposals.contains_key(id));
        assert forall|x: u64| #[trigger] t.proposals.contains_key(x) implies t.proposals[x].id == x
            && x < t.proposal_counter() by {
            if x != id {
                assert(s.proposals.contains_key(x));
            }
        }
        assert forall|k: (u64, Addr)| #[trigger] t.votes.contains_key(k) implies
            t.proposals.contains_key(k.0) && t.votes[k].weight > 0 && (is_open(t.proposals[k.0].status)
        ==> t.locked.contains_key(k)) by {
            assert(s.votes.contains_key(k));
            assert(s.proposals.contains_key(k.0));
        }
    }
}

/// Remembering a turnout.
proof fn lemma_recorded(s: DaoState, total_votes: int, total_supply: int)
    requires
        s.inv(),
    ensures
        s.recorded(total_votes, total_supply).quorum_ok(),
{
    reveal(DaoState::inv);
    let t = s.recorded(total_votes, total_supply);
    let all = s.recent_bps.push(turnout_bps(total_votes, total_supply));
    assert forall|i: int| 0 <= i < t.recent_bps.len() implies #[trigger] t.recent_bps[i]
        <= 10_000 by {
        let w = all.len() - t.recent_bps.len();
        assert(t.recent_bps[i] == all[i + w]);
        if i + w < s.recent_bps.len() {
            assert(s.recent_bps[i + w] <= 10_000);
        }
    }
}

proof fn lemma_set_quorum_decay(s: DaoState, r: Request)
    requires
        s.inv(),
        s.has_room(r),
        r is SetQuorumDecay,
    ensures
        s.kept_by(r, s.apply(r)),
{
    reveal(DaoState::apply);
    reveal(DaoState::kept_by);
    let t = s.apply(r);
    lemma_inv_facts(s);
    lemma_same_records(s, t);
}

proof fn lemma_register_template(s: DaoState, r: Request)
    requires
        s.inv(),
        s.has_room(r),
        r is RegisterTemplate,
    ensures
        s.kept_by(r, s.apply(r)),
{
    reveal(DaoState::apply);
    reveal(DaoState::kept_by);
    let t = s.apply(r);
    lemma_inv_facts(s);
    lemma_same_records(s, t);
}

proof fn lemma_deactivate_template(s: DaoState, r: Request)
    requires
        s.inv(),
        s.has_room(r),
        r is DeactivateTemplate,
    ensures
        s.kept_by(r, s.apply(r)),
{
    reveal(DaoState::apply);
    reveal(DaoState::kept_by);
    let t = s.apply(r);
    lemma_inv_facts(s);
    lemma_same_records(s, t);
}

proof fn lemma_update_config(s: DaoState, r: Request)
    requires
        s.inv(),
        s.has_room(r),
        r is UpdateConfig,
    ensures
        s.kept_by(r, s.apply(r)),
{
    reveal(DaoState::apply);
    reveal(DaoState::kept_by);
    let t = s.apply(r);
    lemma_inv_facts(s);
    lemma_same_records(s, t);
}

proof fn lemma_upgrade(s: DaoState, r: Request)
    requires
        s.inv(),
        s.has_room(r),
        r is Upgrade,
    ensures
        s.kept_by(r, s.apply(r)),
{
    reveal(DaoState::apply);
    reveal(DaoState::kept_by);
    let t = s.apply(r);
    lemma_inv_facts(s);
    lemma_same_records(s, t);
}

proof fn lemma_set_guardians(s: DaoState, r: Request)
    requires
        s.inv(),
        s.has_room(r),
        r is SetGuardians,
    ensures
        s.kept_by(r, s.apply(r)),
{
    reveal(DaoState::apply);
    reveal(DaoState::kept_by);
    let t = s.apply(r);
    lemma_inv_facts(s);
    lemma_same_records(s, t);
}

proof fn lemma_approve_upgrade(s: DaoState, r: Request)
    requires
        s.inv(),
        s.has_room(r),
        r is ApproveUpgrade,
    ensures
        s.kept_by(r, s.apply(r)),
{
    reveal(DaoState::apply);
    reveal(DaoState::kept_by);
    let t = s.apply(r);
    lemma_inv_facts(s);
    lemma_same_records(s, t);
}

proof fn lemma_cancel_pending_upgrade(s: DaoState, r: Request)
    requires
        s.inv(),
        s.has_room(r),
        r is CancelPendingUpgrade,
    ensures
        s.kept_by(r, s.apply(r)),
{
    reveal(DaoState::apply);
    reveal(DaoState::kept_by);
    let t = s.apply(r);
    lemma_inv_facts(s);
    lemma_same_records(s, t);
}

proof fn lemma_initialize(s: DaoState, r: Request)
    requires
        s.inv(),
        s.has_room(r),
        r is Initialize,
    ensures
        s.kept_by(r, s.apply(r)),
{
    reveal(DaoState::apply);
    reveal(DaoState::kept_by);
    let t = s.apply(r);
    lemma_inv_facts(s);
    if !s.initialized {
        assert(t.inv()) by {
            reveal(DaoState::inv);
            assert forall|k: (u64, Addr)| !#[trigger] s.votes.contains_key(k) by {
                if s.votes.contains_key(k) {
                    assert(s.proposals.contains_key(k.0));
                }
            }
        }
    }
}

proof fn lemma_create_proposal(s: DaoState, r: Request)
    requires
        s.inv(),
        s.has_room(r),
        r is CreateProposal,
    ensures
        s.kept_by(r, s.apply(r)),
{
    reveal(DaoState::apply);
    reveal(DaoState::kept_by);
    let t = s.apply(r);
    lemma_inv_facts(s);
    match r {
        Request::CreateProposal { now, proposer, title, target, function, args, impact_analysis, balance } => {
            lemma_propose(
                s,
                now,
                proposer,
                title,
                target,
                function,
                args,
                ProposalKind::Standard,
                impact_analysis,
                balance,
            );
        },
        _ => {},
    }
}

proof fn lemma_propose_upgrade(s: DaoState, r: Request)
    requires
        s.inv(),
        s.has_room(r),
        r is ProposeUpgrade,
    ensures
        s.kept_by(r, s.apply(r)),
{
    reveal(DaoState::apply);
    reveal(DaoState::kept_by);
    let t = s.apply(r);
    lemma_inv_facts(s);
    match r {
        Request::ProposeUpgrade { now, proposer, title, target, new_wasm_hash, impact_analysis, balance } => {
            lemma_propose(
                s,
                now,
                proposer,
                title,
                target,
                sym_of(crate::governance_dao::state::upgrade_text()),
                seq![Argument::Dao, Argument::CodeHash(new_wasm_hash)],
                ProposalKind::Upgrade,
                impact_analysis,
                balance,
            );
        },
        _ => {},
    }
}

proof fn lemma_create_proposal_from_template(s: DaoState, r: Request)
    requires
        s.inv(),
        s.has_room(r),
        r is CreateProposalFromTemplate,
    ensures
        s.kept_by(r, s.apply(r)),
{
    reveal(DaoState::apply);
    reveal(DaoState::kept_by);
    let t = s.apply(r);
    lemma_inv_facts(s);
    match r {
        Request::CreateProposalFromTemplate { now, proposer, template_name, title, target, function, args, impact_analysis, balance } => {
            lemma_propose(
                s,
                now,
                proposer,
                title,
                target,
                function,
                args,
                ProposalKind::Standard,
                impact_analysis,
                balance,
            );
            let u = after(
                s,
                s.create_proposal(now, proposer, title, target, function, args, impact_analysis, balance),
            );
            lemma_inv_facts(u);
            if s.create_proposal_from_template(
                now,
                proposer,
                template_name,
                title,
                target,
                function,
                args,
                impact_analysis,
                balance,
            ) is Ok {
                lemma_same_records(u, t);
            }
        },
        _ => {},
    }
}

proof fn lemma_vote(s: DaoState, r: Request)
    requires
        s.inv(),
        s.has_room(r),
        r is Vote,
    ensures
        s.kept_by(r, s.apply(r)),
{
    reveal(DaoState::apply);
    reveal(DaoState::kept_by);
    let t = s.apply(r);
    lemma_inv_facts(s);
    match r {
        Request::Vote { now, voter, proposal_id, choice, balance } => {
            if s.vote_error(now, voter, proposal_id, balance) is None {
                assert(t.inv()) by {
                    reveal(DaoState::inv);
                    assert forall|x: u64| #[trigger]
                        t.proposals.contains_key(x) implies t.proposals[x].id == x && x
                        < t.proposal_counter() by {
                        assert(s.proposals.contains_key(x));
                    }
                    assert forall|k: (u64, Addr)| #[trigger] t.votes.contains_key(k) implies
                        t.proposals.contains_key(k.0) && t.votes[k].weight > 0 && (is_open(t.proposals[k.0].status) ==> t.locked.contains_key(k)) by {
                        if k != (proposal_id, voter) {
                            assert(s.votes.contains_key(k));
                        }
                    }
                    assert forall|k: (u64, Addr)| #[trigger] t.locked.contains_key(k) implies
                        t.votes.contains_key(k) && t.locked[k] >= t.votes[k].weight by {
                        if k != (proposal_id, voter) {
                            assert(s.locked.contains_key(k));
                        }
                    }
                }
                assert forall|k: (u64, Addr)| #[trigger] s.locked.contains_key(k) implies
                    t.locked.contains_key(k) && t.locked[k] == s.locked[k] by {
                    assert(s.votes.contains_key(k));
                }
            }
        },
        _ => {},
    }
}

proof fn lemma_withdraw_tokens(s: DaoState, r: Request)
    requires
        s.inv(),
        s.has_room(r),
        r is WithdrawTokens,
    ensures
        s.kept_by(r, s.apply(r)),
{
    reveal(DaoState::apply);
    reveal(DaoState::kept_by);
    let t = s.apply(r);
    lemma_inv_facts(s);
    match r {
        Request::WithdrawTokens { voter, proposal_id } => {
            if s.withdraw_tokens(voter, proposal_id) is Ok {
                assert(t.inv()) by {
                    reveal(DaoState::inv);
                    assert forall|k: (u64, Addr)| #[trigger] t.votes.contains_key(k) implies
                        t.proposals.contains_key(k.0) && t.votes[k].weight > 0 && (is_open(t.proposals[k.0].status) ==> t.locked.contains_key(k)) by {
                        assert(s.votes.contains_key(k));
                    }
                    assert forall|k: (u64, Addr)| #[trigger] t.locked.contains_key(k) implies
                        t.votes.contains_key(k) && t.locked[k] >= t.votes[k].weight by {
                        assert(s.locked.contains_key(k));
                    }
                }
            }
        },
        _ => {},
    }
}

proof fn lemma_finalize(s: DaoState, r: Request)
    requires
        s.inv(),
        s.has_room(r),
        r is Finalize,
    ensures
        s.kept_by(r, s.apply(r)),
{
    reveal(DaoState::apply);
    reveal(DaoState::kept_by);
    let t = s.apply(r);
    lemma_inv_facts(s);
    match r {
        Request::Finalize { now, proposal_id } => {
            if s.finalize(now, proposal_id) is Ok {
                let p = s.proposals[proposal_id];
                let noted = s.quorum_noted(proposal_id);
                lemma_same_records(s, noted);
                lemma_recorded(noted, p.total_votes(), p.total_supply as int);
                assert(t.proposals[proposal_id] == s.decided(now, p));
                assert(t.proposals == s.proposals.insert(proposal_id, t.proposals[proposal_id]));
                assert(t.quorum_ok());
                lemma_proposal_changed(s, t, proposal_id);
            }
        },
        _ => {},
    }
}

proof fn lemma_reclaim_deposit(s: DaoState, r: Request)
    requires
        s.inv(),
        s.has_room(r),
        r is ReclaimDeposit,
    ensures
        s.kept_by(r, s.apply(r)),
{
    reveal(DaoState::apply);
    reveal(DaoState::kept_by);
    let t = s.apply(r);
    lemma_inv_facts(s);
    match r {
        Request::ReclaimDeposit { now, proposal_id } => {
            if s.reclaim_deposit(now, proposal_id) is Ok {
                let p = s.proposals[proposal_id];
                lemma_recorded(s, p.total_votes(), p.total_supply as int);
                assert(t.proposals == s.proposals.insert(proposal_id, t.proposals[proposal_id]));
                assert(t.quorum_ok());
                lemma_proposal_changed(s, t, proposal_id);
            }
        },
        _ => {},
    }
}

proof fn lemma_execute(s: DaoState, r: Request)
    requires
        s.inv(),
        s.has_room(r),
        r is Execute,
    ensures
        s.kept_by(r, s.apply(r)),
{
    reveal(DaoState::apply);
    reveal(DaoState::kept_by);
    let t = s.apply(r);
    lemma_inv_facts(s);
    match r {
        Request::Execute { now, proposal_id } => {
            if s.execute(now, proposal_id) is Ok {
                assert(t.proposals == s.proposals.insert(proposal_id, t.proposals[proposal_id]));
                lemma_proposal_changed(s, t, proposal_id);
            }
        },
        _ => {},
    }
}

proof fn lemma_cancel(s: DaoState, r: Request)
    requires
        s.inv(),
        s.has_room(r),
        r is Cancel,
    ensures
        s.kept_by(r, s.apply(r)),
{
    reveal(DaoState::apply);
    reveal(DaoState::kept_by);
    let t = s.apply(r);
    lemma_inv_facts(s);
    match r {
        Request::Cancel { now, admin, proposal_id } => {
            if s.cancel(now, admin, proposal_id) is Ok {
                assert(t.proposals == s.proposals.insert(proposal_id, t.proposals[proposal_id]));
                lemma_proposal_changed(s, t, proposal_id);
            }
        },
        _ => {},
    }
}

proof fn lemma_kept(s: DaoState, r: Request)
    requires
        s.inv(),
        s.has_room(r),
    ensures
        s.kept_by(r, s.apply(r)),
{
    match r {
        Request::Initialize { .. } => lemma_initialize(s, r),
        Request::CreateProposal { .. } => lemma_create_proposal(s, r),
        Request::ProposeUpgrade { .. } => lemma_propose_upgrade(s, r),
        Request::CreateProposalFromTemplate { .. } => lemma_create_proposal_from_template(s, r),
        Request::Vote { .. } => lemma_vote(s, r),
        Request::WithdrawTokens { .. } => lemma_withdraw_tokens(s, r),
        Request::Finalize { .. } => lemma_finalize(s, r),
        Request::ReclaimDeposit { .. } => lemma_reclaim_deposit(s, r),
        Request::Execute { .. } => lemma_execute(s, r),
        Request::Cancel { .. } => lemma_cancel(s, r),
        Request::SetQuorumDecay { .. } => lemma_set_quorum_decay(s, r),
        Request::RegisterTemplate { .. } => lemma_register_template(s, r),
        Request::DeactivateTemplate { .. } => lemma_deactivate_template(s, r),
        Request::UpdateConfig { .. } => lemma_update_config(s, r),
        Request::Upgrade { .. } => lemma_upgrade(s, r),
        Request::SetGuardians { .. } => lemma_set_guardians(s, r),
        Request::ApproveUpgrade { .. } => lemma_approve_upgrade(s, r),
        Request::CancelPendingUpgrade { .. } => lemma_cancel_pending_upgrade(s, r),
    }
}

/// No request breaks the invariant: proposals keep their own numbers, every
/// vote stays locked until its proposal is decided, what is locked covers the
/// weight of a vote, and no quorum is set below the lowest.
pub proof fn law_requests_keep_inv(s: DaoState, r: Request)
    requires
        s.inv(),
        s.has_room(r),
    ensures
        s.apply(r).inv(),
        s.apply(r).wf(),
{
    lemma_kept(s, r);
    reveal(DaoState::kept_by);
    lemma_inv_facts(s.apply(r));
}

/// Whatever requests a new DAO gets, the invariant holds.
pub proof fn law_inv_always(requests: Seq<Request>)
    requires
        DaoState::fresh().has_room_for_all(requests),
    ensures
        DaoState::fresh().apply_all(requests).inv(),
    decreases requests.len(),
{
    if requests.len() == 0 {
        law_fresh_inv();
    } else {
        law_inv_always(requests.drop_last());
        law_requests_keep_inv(DaoState::fresh().apply_all(requests.drop_last()), requests.last());
    }
}

/// A proposal stays on record. Its deposit, its supply and what it proposes
/// never change, whatever becomes of the configuration; its status changes only
/// as `may_become` allows; and its tallies change only by votes on it, each
/// adding its weight to one of them.
pub proof fn law_proposal_history(s: DaoState, r: Request, id: u64)
    requires
        s.inv(),
        s.has_room(r),
        s.proposals.contains_key(id),
    ensures
        s.apply(r).proposals.contains_key(id),
        proposal_kept(s.proposals[id], s.apply(r).proposals[id]),
        tally_kept(s.proposals[id], s.apply(r).proposals[id]) || s.counts_vote(r, s.apply(r), id),
{
    lemma_kept(s, r);
    reveal(DaoState::kept_by);
}

/// Changing the configuration touches no proposal.
pub proof fn law_config_keeps_proposals(s: DaoState, admin: Addr, config: DaoConfig)
    ensures
        after(s, s.update_config(admin, config)).proposals == s.proposals,
{
}

/// A vote is cast at most once: whatever else is asked of the DAO, a second
/// vote on the same proposal is refused, and the first one stands.
pub proof fn law_vote_once(
    s: DaoState,
    now: u64,
    voter: Addr,
    id: u64,
    choice: VoteChoice,
    balance: i128,
    requests: Seq<Request>,
    later: u64,
    choice2: VoteChoice,
    balance2: i128,
)
    requires
        s.inv(),
        s.vote(now, voter, id, choice, balance) is Ok,
        s.vote_fits(id, choice, balance),
        after(s, s.vote(now, voter, id, choice, balance)).has_room_for_all(requests),
    ensures
        ({
            let t = after(s, s.vote(now, voter, id, choice, balance)).apply_all(requests);
            &&& t.inv()
            &&& t.votes.contains_key((id, voter))
            &&& t.votes[(id, voter)] == (VoteRecord {
                voter,
                choice,
                weight: s.cast_weight(balance),
            })
            &&& t.vote(later, voter, id, choice2, balance2) is Err
        }),
    decreases requests.len(),
{
    let voted = after(s, s.vote(now, voter, id, choice, balance));
    if requests.len() == 0 {
        let r = Request::Vote { now, voter, proposal_id: id, choice, balance };
        assert(s.apply(r) == voted) by {
            reveal(DaoState::apply);
        }
        law_requests_keep_inv(s, r);
    } else {
        law_vote_once(
            s,
            now,
            voter,
            id,
            choice,
            balance,
            requests.drop_last(),
            later,
            choice2,
            balance2,
        );
        lemma_kept(voted.apply_all(requests.drop_last()), requests.last());
        reveal(DaoState::kept_by);
    }
}

/// Whether none of the requests withdraws what is locked under `k`.
pub open spec fn none_withdraws(requests: Seq<Request>, k: (u64, Addr)) -> bool {
    forall|i: int| 0 <= i < requests.len() ==> !withdraws(#[trigger] requests[i], k)
}

/// What a vote locked stays locked until it is withdrawn, which succeeds once
/// the proposal is no longer open, gives back exactly what was locked, and
/// cannot be repeated.
pub proof fn law_locked_tokens_come_back(
    s: DaoState,
    now: u64,
    voter: Addr,
    id: u64,
    choice: VoteChoice,
    balance: i128,
    requests: Seq<Request>,
)
    requires
        s.inv(),
        s.vote(now, voter, id, choice, balance) is Ok,
        s.vote_fits(id, choice, balance),
        after(s, s.vote(now, voter, id, choice, balance)).has_room_for_all(requests),
        none_withdraws(requests, (id, voter)),
    ensures
        ({
            let t = after(s, s.vote(now, voter, id, choice, balance)).apply_all(requests);
            let u = after(t, t.withdraw_tokens(voter, id));
            &&& t.inv()
            &&& t.proposals.contains_key(id)
            &&& t.locked_by(id, voter) == balance
            &&& t.withdraw_tokens(voter, id) is Ok <==> !is_open(t.proposals[id].status)
            &&& t.withdraw_tokens(voter, id) is Ok ==> {
                &&& u == t.demand(voter).pay(voter, balance).emit(
                    Event::TokensWithdrawn { proposal_id: id, voter, amount: balance },
                ).without_lock(id, voter)
                &&& u.withdraw_tokens(voter, id) == Err::<(DaoState, ()), Error>(
                    Error::InsufficientWeight,
                )
            }
        }),
    decreases requests.len(),
{
    let voted = after(s, s.vote(now, voter, id, choice, balance));
    if requests.len() == 0 {
        let r = Request::Vote { now, voter, proposal_id: id, choice, balance };
        assert(s.apply(r) == voted) by {
            reveal(DaoState::apply);
        }
        law_requests_keep_inv(s, r);
    } else {
        let earlier = requests.drop_last();
        assert(none_withdraws(earlier, (id, voter))) by {
            assert forall|i: int| 0 <= i < earlier.len() implies !withdraws(
                #[trigger] earlier[i],
                (id, voter),
            ) by {
                assert(!withdraws(requests[i], (id, voter)));
            }
        }
        law_locked_tokens_come_back(s, now, voter, id, choice, balance, earlier);
        let v = voted.apply_all(earlier);
        assert(v.locked.contains_key((id, voter)));
        assert(!withdraws(requests[requests.len() - 1], (id, voter)));
        lemma_kept(v, requests.last());
        reveal(DaoState::kept_by);
    }
    let t = voted.apply_all(requests);
    let u = after(t, t.withdraw_tokens(voter, id));
    if t.withdraw_tokens(voter, id) is Ok {
        assert(u =~= t.demand(voter).pay(voter, balance).emit(
            Event::TokensWithdrawn { proposal_id: id, voter, amount: balance },
        ).without_lock(id, voter));
    }
}

impl DaoState {
    /// The state with nothing locked by a voter on a proposal.
    pub open spec fn without_lock(self, id: u64, voter: Addr) -> DaoState {
        DaoState { locked: self.locked.remove((id, voter)), ..self }
    }
}

/// Whether an effect gives a proposer the deposit back.
pub open spec fn refunds(s: DaoState, p: ProposalRecord, e: Effect) -> bool {
    e == Effect::Pay { token: s.config->0.gov_token, to: p.proposer, amount: p.deposit }
}

/// However an open proposal ends, by a count, by cancellation or by a
/// reclaimed deposit, the proposer gets exactly the deposit back, once: after
/// that none of the three can happen to it again.
pub proof fn law_deposit_comes_back_once(s: DaoState, r: Request, id: u64, now: u64, admin: Addr)
    requires
        s.inv(),
        s.has_room(r),
        s.proposals.contains_key(id),
        is_open(s.proposals[id].status),
        !is_open(s.apply(r).proposals[id].status),
    ensures
        ({
            let t = s.apply(r);
            let p = s.proposals[id];
            &&& exists|i: int|
                s.outbox.len() <= i < t.outbox.len() && refunds(s, p, #[trigger] t.outbox[i])
            &&& forall|i: int|
                s.outbox.len() <= i < t.outbox.len() && (#[trigger] t.outbox[i] is Pay) ==> refunds(
                    s,
                    p,
                    t.outbox[i],
                )
            &&& forall|i: int, j: int|
                s.outbox.len() <= i < t.outbox.len() && s.outbox.len() <= j < t.outbox.len() && (
                #[trigger] t.outbox[i] is Pay) && (#[trigger] t.outbox[j] is Pay) ==> i == j
            &&& t.finalize(now, id) is Err
            &&& t.cancel(now, admin, id) is Err
            &&& t.reclaim_deposit(now, id) is Err
        }),
{
    lemma_inv_facts(s);
    let t = s.apply(r);
    let p = s.proposals[id];
    lemma_kept(s, r);
    match r {
        Request::Finalize { now: n, proposal_id } => {
            reveal(DaoState::apply);
            if proposal_id == id && s.finalize(n, id) is Ok {
                let k = if s.effective_quorum(s.config->0).decayed {
                    s.outbox.len() as int + 1
                } else {
                    s.outbox.len() as int
                };
                assert(refunds(s, p, t.outbox[k]));
            }
        },
        Request::Cancel { now: n, admin: a, proposal_id } => {
            reveal(DaoState::apply);
            if proposal_id == id && s.cancel(n, a, id) is Ok {
                assert(refunds(s, p, t.outbox[s.outbox.len() as int + 1]));
            }
        },
        Request::ReclaimDeposit { now: n, proposal_id } => {
            reveal(DaoState::apply);
            if proposal_id == id && s.reclaim_deposit(n, id) is Ok {
                assert(refunds(s, p, t.outbox[s.outbox.len() as int]));
            }
        },
        _ => {
            lemma_stays_open(s, r, id);
        },
    }
}

proof fn lemma_open_proposing(s: DaoState, r: Request, id: u64)
    requires
        s.inv(),
        s.proposals.contains_key(id),
        is_open(s.proposals[id].status),
        r is CreateProposal || r is ProposeUpgrade || r is CreateProposalFromTemplate,
    ensures
        is_open(s.apply(r).proposals[id].status),
{
    lemma_inv_facts(s);
    reveal(DaoState::apply);
}

proof fn lemma_open_voting(s: DaoState, r: Request, id: u64)
    requires
        s.inv(),
        s.proposals.contains_key(id),
        is_open(s.proposals[id].status),
        r is Vote || r is WithdrawTokens || r is Execute || r is Initialize,
    ensures
        is_open(s.apply(r).proposals[id].status),
{
    lemma_inv_facts(s);
    reveal(DaoState::apply);
}

proof fn lemma_open_settings(s: DaoState, r: Request, id: u64)
    requires
        s.inv(),
        s.proposals.contains_key(id),
        is_open(s.proposals[id].status),
        r is SetQuorumDecay || r is RegisterTemplate || r is DeactivateTemplate || r is UpdateConfig,
    ensures
        is_open(s.apply(r).proposals[id].status),
{
    lemma_inv_facts(s);
    reveal(DaoState::apply);
}

proof fn lemma_open_upgrading(s: DaoState, r: Request, id: u64)
    requires
        s.inv(),
        s.proposals.contains_key(id),
        is_open(s.proposals[id].status),
        r is Upgrade || r is SetGuardians || r is ApproveUpgrade || r is CancelPendingUpgrade,
    ensures
        is_open(s.apply(r).proposals[id].status),
{
    lemma_inv_facts(s);
    reveal(DaoState::apply);
}

/// Only a count, a cancellation or a reclaimed deposit ends an open proposal.
proof fn lemma_stays_open(s: DaoState, r: Request, id: u64)
    requires
        s.inv(),
        s.proposals.contains_key(id),
        is_open(s.proposals[id].status),
        !(r is Finalize),
        !(r is Cancel),
        !(r is ReclaimDeposit),
    ensures
        is_open(s.apply(r).proposals[id].status),
{
    match r {
        Request::CreateProposal { .. }
        | Request::ProposeUpgrade { .. }
        | Request::CreateProposalFromTemplate { .. } => lemma_open_proposing(s, r, id),
        Request::Vote { .. }
        | Request::WithdrawTokens { .. }
        | Request::Execute { .. }
        | Request::Initialize { .. } => lemma_open_voting(s, r, id),
        Request::SetQuorumDecay { .. }
        | Request::RegisterTemplate { .. }
        | Request::DeactivateTemplate { .. }
        | Request::UpdateConfig { .. } => lemma_open_settings(s, r, id),
        _ => lemma_open_upgrading(s, r, id),
    }
}

/// The quorum in force never exceeds the configured one, unless the floor of
/// the adaptive quorum does, and never falls below the lowest quorum. Without a
/// remembered turnout, or where turnout was no lower than it, it is the
/// configured one.
pub proof fn law_effective_quorum(s: DaoState, config: DaoConfig)
    requires
        s.inv(),
        config.quorum_bps >= MIN_QUORUM_BPS,
    ensures
        ({
            let q = s.effective_quorum(config);
            &&& q.quorum_bps >= MIN_QUORUM_BPS
            &&& s.decay().floor_bps <= config.quorum_bps ==> q.quorum_bps <= config.quorum_bps
            &&& q.decayed <==> q.quorum_bps < config.quorum_bps
            &&& !s.decay().enabled || s.recent_bps.len() == 0 || q.avg_participation_bps
                >= config.quorum_bps ==> q.quorum_bps == config.quorum_bps
            &&& q.avg_participation_bps <= 10_000
        }),
{
    lemma_inv_facts(s);
    let decay = s.decay();
    lemma_average_bound(s.recent_bps);
    let avg = average_of(s.recent_bps) as u32;
    if config.quorum_bps > avg {
        lemma_decayed(config.quorum_bps, avg, decay);
    }
}

proof fn lemma_decayed(base: u32, avg: u32, decay: QuorumDecayConfig)
    requires
        avg <= base,
    ensures
        decayed_quorum(base, avg, decay) >= decay.floor_bps,
        decayed_quorum(base, avg, decay) <= greatest(base as int, decay.floor_bps as int),
{
    let step = greatest(decay.decay_per_period_bps as int, 1);
    let d = decay.decay_per_period_bps as int;
    let gap = base - avg;
    let k = gap / step;
    assert(0 <= k && k * step <= gap) by (nonlinear_arith)
        requires
            k == gap / step,
            step > 0,
            gap >= 0,
    ;
    assert(0 <= k * d <= k * step) by (nonlinear_arith)
        requires
            0 <= d <= step,
            k >= 0,
    ;
}

proof fn lemma_sum_bound(s: Seq<u32>)
    requires
        forall|i: int| 0 <= i < s.len() ==> #[trigger] s[i] <= 10_000,
    ensures
        sum_of(s) <= 10_000 * s.len(),
    decreases s.len(),
{
    if s.len() > 0 {
        assert forall|i: int| 0 <= i < s.drop_last().len() implies #[trigger] s.drop_last()[i]
            <= 10_000 by {
            assert(s[i] <= 10_000);
        }
        lemma_sum_bound(s.drop_last());
        assert(s[s.len() - 1] <= 10_000);
    }
}

proof fn lemma_average_bound(s: Seq<u32>)
    requires
        forall|i: int| 0 <= i < s.len() ==> #[trigger] s[i] <= 10_000,
    ensures
        0 <= average_of(s) <= 10_000,
{
    lemma_sum_bound(s);
    if s.len() > 0 {
        let x = sum_of(s) as int;
        let n = s.len() as int;
        assert(0 <= x / n <= 10_000) by (nonlinear_arith)
            requires
                0 <= x <= 10_000 * n,
                n > 0,
        ;
    }
}

/// Of the turnouts no more are remembered than the window holds, and those are
/// the latest ones.
pub proof fn law_turnout_window(s: DaoState, total_votes: int, total_supply: int)
    ensures
        ({
            let t = s.recorded(total_votes, total_supply);
            let window = if s.decay().window == 0 {
                DEFAULT_PARTICIPATION_WINDOW
            } else {
                s.decay().window
            };
            &&& 0 < t.recent_bps.len() <= window
            &&& t.recent_bps.last() == turnout_bps(total_votes, total_supply)
            &&& s.recent_bps.len() < window ==> t.recent_bps == s.recent_bps.push(
                turnout_bps(total_votes, total_supply),
            )
        }),
{
}

/// Abstentions count toward the quorum and are never against a proposal: one
/// that carries still carries with more of them. Without a vote for or against
/// it, none carries.
pub proof fn law_abstentions(p: ProposalRecord, more: i128, quorum_bps: u32, majority_bps: u32)
    requires
        p.votes_abstain <= more,
        p.total_votes() > 0,
    ensures
        p.carries(quorum_bps, majority_bps) ==> (ProposalRecord { votes_abstain: more, ..p }).carries(
            quorum_bps,
            majority_bps,
        ),
        p.votes_for == 0 && p.votes_against == 0 ==> !p.carries(quorum_bps, majority_bps),
{
}

/// A tie is not a majority.
pub proof fn law_tie_fails(p: ProposalRecord, quorum_bps: u32, majority_bps: u32)
    requires
        p.votes_for == p.votes_against,
        p.votes_for >= 0,
        majority_bps > 5_000,
    ensures
        !p.carries(quorum_bps, majority_bps),
{
    let v = p.votes_for as int;
    if v > 0 {
        assert(v * 10_000 / (v + v) == 5_000) by (nonlinear_arith)
            requires
                v > 0,
        ;
    }
}

/// Below the quorum no proposal carries, however many of the votes were for it.
pub proof fn law_quorum_is_needed(p: ProposalRecord, quorum_bps: u32, majority_bps: u32)
    requires
        p.total_votes() < quorum_votes(p.total_supply as int, quorum_bps),
    ensures
        !p.carries(quorum_bps, majority_bps),
{
}

/// What passes can be executed only once its timelock is over and before its
/// deadline, and only once. Only an upgrade proposal calls its target. Where no
/// callback is to confirm it, the execution counts as verified.
pub proof fn law_execution(s: DaoState, now: u64, id: u64, later: u64, last: u64)
    requires
        s.inv(),
        s.finalize_fits(now, id),
        s.finalize(now, id) is Ok,
    ensures
        ({
            let t = after(s, s.finalize(now, id));
            let u = after(t, t.execute(later, id));
            &&& now > s.proposals[id].vote_end + FINALIZE_DELAY
            &&& t.execute(later, id) is Ok ==> t.proposals[id].status == ProposalStatus::Passed
                && later >= now + s.config->0.proposal_timelock && later
                <= s.proposals[id].execution_deadline
            &&& t.execute(later, id) is Ok ==> u.proposals[id].execution_verified == (
            s.proposals[id].verification_callback is None)
            &&& s.proposals[id].kind != ProposalKind::Upgrade ==> forall|i: int|
                t.outbox.len() <= i < u.outbox.len() ==> !(#[trigger] u.outbox[i] is Invoke)
            &&& t.execute(later, id) is Ok ==> u.execute(last, id) == Err::<
                (DaoState, ()),
                Error,
            >(Error::AlreadyExecuted)
        }),
{
    lemma_inv_facts(s);
}

/// A proposal has a short title and an analysis of its impact. Its votes are
/// cast between the end of its discussion and the end of its voting period; the
/// deadline for its execution lies a week past the delay after that.
pub proof fn law_proposal_dates(
    s: DaoState,
    now: u64,
    proposer: Addr,
    title: Seq<u8>,
    target: Addr,
    function: Sym,
    args: Seq<Argument>,
    impact_analysis: Seq<u8>,
    balance: i128,
    later: u64,
    voter: Addr,
    choice: VoteChoice,
    weight: i128,
)
    requires
        s.create_proposal(now, proposer, title, target, function, args, impact_analysis, balance) is Ok,
        now + s.config->0.discussion_period + s.config->0.voting_period + FINALIZE_DELAY
            + EXECUTION_WINDOW <= u64::MAX,
    ensures
        ({
            let outcome = s.create_proposal(now, proposer, title, target, function, args, impact_analysis, balance);
            let t = after(s, outcome);
            let id = outcome->Ok_0.1;
            let config = s.config->0;
            &&& title.len() <= 256
            &&& 0 < impact_analysis.len() <= 4096
            &&& t.proposals[id].impact_analysis == impact_analysis
            &&& t.vote(later, voter, id, choice, weight) is Ok ==> now + config.discussion_period
                <= later <= now + config.discussion_period + config.voting_period
            &&& t.proposals[id].execution_deadline == t.proposals[id].vote_end + FINALIZE_DELAY
                + EXECUTION_WINDOW
        }),
{
}

/// No vote counts for more than the cap, and one within the cap, or where there
/// is no cap, counts for the voter's whole balance.
pub proof fn law_vote_weight(s: DaoState, balance: i128)
    requires
        s.config is Some,
        balance > 0,
    ensures
        ({
            let cap = s.config->0.vote_weight_cap;
            let weight = s.cast_weight(balance);
            &&& 0 < weight <= balance
            &&& cap > 0 ==> weight <= cap
            &&& cap <= 0 || balance <= cap ==> weight == balance
        }),
{
}

/// While guardians have to approve, the administrator alone replaces no code:
/// an upgrade only becomes pending.
pub proof fn law_guardians_hold_upgrades(
    s: DaoState,
    admin: Addr,
    new_wasm_hash: [u8; 32],
    new_version: u32,
)
    requires
        s.guardian_threshold > 0,
    ensures
        ({
            let t = after(s, s.upgrade(admin, new_wasm_hash, new_version));
            &&& t.version == s.version
            &&& forall|i: int|
                s.outbox.len() <= i < t.outbox.len() ==> !(#[trigger] t.outbox[i] is ReplaceCode)
        }),
{
}

/// The code is replaced on the approval of a guardian only where that approval,
/// from someone who had not approved before, makes enough of them.
pub proof fn law_enough_guardians_approve(s: DaoState, guardian: Addr, new_wasm_hash: [u8; 32])
    requires
        s.approve_upgrade(guardian, new_wasm_hash) is Ok,
    ensures
        ({
            let p = s.pending_upgrade->0;
            let t = after(s, s.approve_upgrade(guardian, new_wasm_hash));
            &&& s.guardians.contains(guardian)
            &&& !p.approvals.contains(guardian)
            &&& p.approvals.len() + 1 >= s.guardian_threshold ==> t.version == Some(p.new_version)
                && t.pending_upgrade is None
            &&& p.approvals.len() + 1 < s.guardian_threshold ==> t.version == s.version
                && t.pending_upgrade == Some(
                UpgradeProposal { approvals: p.approvals.push(guardian), ..p },
            )
        }),
{
}

/// A proposal made from a template is the proposal made without one, where it
/// fits the template.
pub proof fn law_template_only_adds_a_check(
    s: DaoState,
    now: u64,
    proposer: Addr,
    name: Sym,
    title: Seq<u8>,
    target: Addr,
    function: Sym,
    args: Seq<Argument>,
    impact_analysis: Seq<u8>,
    balance: i128,
)
    ensures
        s.create_proposal_from_template(
            now,
            proposer,
            name,
            title,
            target,
            function,
            args,
            impact_analysis,
            balance,
        ) is Ok <==> s.template_error(name, title, args) is None && s.create_proposal(
            now,
            proposer,
            title,
            target,
            function,
            args,
            impact_analysis,
            balance,
        ) is Ok,
        s.create_proposal_from_template(
            now,
            proposer,
            name,
            title,
            target,
            function,
            args,
            impact_analysis,
            balance,
        ) matches Ok((t, id)) ==> t.proposals == after(
            s,
            s.create_proposal(now, proposer, title, target, function, args, impact_analysis, balance),
        ).proposals,
{
}

/// The administrator that a request claims to come from.
pub open spec fn admin_of(r: Request) -> Option<Addr> {
    match r {
        Request::Cancel { admin, .. } => Some(admin),
        Request::SetQuorumDecay { admin, .. } => Some(admin),
        Request::RegisterTemplate { admin, .. } => Some(admin),
        Request::DeactivateTemplate { admin, .. } => Some(admin),
        Request::UpdateConfig { admin, .. } => Some(admin),
        Request::Upgrade { admin, .. } => Some(admin),
        Request::SetGuardians { admin, .. } => Some(admin),
        Request::CancelPendingUpgrade { admin } => Some(admin),
        _ => None,
    }
}

/// An administrative request has an effect only where it comes from the stored
/// administrator, whose authorisation is demanded.
pub proof fn law_admin_only(s: DaoState, r: Request)
    requires
        admin_of(r) is Some,
        s.apply(r) != s,
    ensures
        s.admin == admin_of(r),
        s.apply(r).outbox.len() > s.outbox.len(),
        s.apply(r).outbox[s.outbox.len() as int] == Effect::RequireAuth(admin_of(r)->0),
{
    reveal(DaoState::apply);
}

} // verus!
