//! What holds of the processor as a whole.

use crate::arith::{clamp_i128, fits_i128};
use crate::claims_processor::state::{
    MAX_BATCH_SIZE, ProcessorState, UpgradeProposal, batch_count, blank_history, burst_rule,
    coverage_rule, fraud_flags, fraud_score, installments_due, payout_bps, payout_of, rate_rule,
    reply_at, settled_claim,
};
use crate::claims_processor::types::{
    Claim, ClaimResult, ClaimStatus, ClaimantHistory, Effect, Error, FraudConfig, FraudMode,
    InstallmentSchedule, Reply, Step,
};
use crate::common::{or_default, timelock_end};
use crate::outcome::after;
use crate::policy_engine::types::{Policy, PolicyStatus};
use crate::table::{lemma_push_value, lemma_remove_value};
use crate::text::{Addr, Sym};
use vstd::prelude::*;

verus! {

/// A request that can change the processor. The attempts of an automatic run
/// are `AutoProcess` requests.
pub enum Request {
    Initialize { admin: Addr, policy_engine: Addr, risk_pool: Addr, oracle_verifier: Addr, staleness_threshold: u64 },
    AddKeeper { admin: Addr, keeper: Addr },
    RemoveKeeper { admin: Addr, keeper: Addr },
    SubmitClaim { now: u64, claimant: Addr, policy_id: u128, reply: Reply },
    BatchSubmitClaims { now: u64, claimant: Addr, policy_ids: Seq<u128>, replies: Seq<Reply> },
    ProcessClaim { now: u64, keeper: Addr, claim_id: u128, bps: Option<u32>, reply: Reply },
    BatchProcessClaims { now: u64, keeper: Addr, claim_ids: Seq<u128>, bps: Option<u32>, replies: Seq<Reply> },
    AutoProcess { now: u64, keeper: Addr, policy_id: u128, bps: Option<u32>, reply: Reply },
    DisputeClaim { claimant: Addr, claim_id: u128, reason: Sym },
    ResolveDispute { admin: Addr, claim_id: u128 },
    ScheduleInstallments { now: u64, caller: Addr, claim_id: u128, amount_per_installment: i128, num_installments: u32, interval_seconds: u64 },
    ClaimInstallment { now: u64, claimant: Addr, claim_id: u128 },
    SetPaused { admin: Addr, paused: bool },
    Upgrade { admin: Addr, new_wasm_hash: [u8; 32], new_version: u32 },
    SetGuardians { admin: Addr, guardians: Seq<Addr>, guardian_threshold: u32 },
    ApproveUpgrade { guardian: Addr, new_wasm_hash: [u8; 32] },
    CancelPendingUpgrade { admin: Addr },
    ProposeNewAdmin { now: u64, admin: Addr, new_admin: Addr },
    ApproveAdminChange { now: u64, guardian: Addr, new_admin: Addr },
    AcceptAdmin { now: u64, admin: Addr },
    SetEscalationThreshold { admin: Addr, threshold: u64 },
    SetClaimDeadline { admin: Addr, deadline: u64 },
    SetPayoutDelay { admin: Addr, delay_seconds: u64 },
    SetFraudConfig { admin: Addr, config: FraudConfig },
    ClaimPayout { now: u64, claim_id: u128, policy: Option<Policy> },
    EscalateClaim { now: u64, caller: Addr, claim_id: u128 },
    RequireIdentity { admin: Addr, product_id: u128, id_type: Sym },
    RemoveIdentity { admin: Addr, product_id: u128 },
    VerifyIdentity { now: u64, admin: Addr, claim_id: u128, id_type: Sym },
}

impl ProcessorState {
    /// The state after a request, whether it was refused, asked something or
    /// took effect.
    #[verifier::opaque]
    pub open spec fn apply(self, r: Request) -> ProcessorState {
        match r {
            Request::Initialize { admin, policy_engine, risk_pool, oracle_verifier, staleness_threshold } => after(
                self,
                self.initialize(admin, policy_engine, risk_pool, oracle_verifier, staleness_threshold),
            ),
            Request::AddKeeper { admin, keeper } => after(
                self,
                self.add_keeper(admin, keeper),
            ),
            Request::RemoveKeeper { admin, keeper } => after(
                self,
                self.remove_keeper(admin, keeper),
            ),
            Request::SubmitClaim { now, claimant, policy_id, reply } => after(
                self,
                self.submit_claim(now, claimant, policy_id, reply),
            ),
            Request::BatchSubmitClaims { now, claimant, policy_ids, replies } => after(
                self,
                self.batch_submit_claims(now, claimant, policy_ids, replies),
            ),
            Request::ProcessClaim { now, keeper, claim_id, bps, reply } => after(
                self,
                self.process_claim(now, keeper, claim_id, bps, reply),
            ),
            Request::BatchProcessClaims { now, keeper, claim_ids, bps, replies } => after(
                self,
                self.batch_process_claims(now, keeper, claim_ids, bps, replies),
            ),
            Request::AutoProcess { now, keeper, policy_id, bps, reply } => after(
                self,
                self.auto_process(now, keeper, policy_id, bps, reply),
            ),
            Request::DisputeClaim { claimant, claim_id, reason } => after(
                self,
                self.dispute_claim(claimant, claim_id, reason),
            ),
            Request::ResolveDispute { admin, claim_id } => after(
                self,
                self.resolve_dispute(admin, claim_id),
            ),
            Request::ScheduleInstallments { now, caller, claim_id, amount_per_installment, num_installments, interval_seconds } => after(
                self,
                self.schedule_installments(now, caller, claim_id, amount_per_installment, num_installments, interval_seconds),
            ),
            Request::ClaimInstallment { now, claimant, claim_id } => after(
                self,
                self.claim_installment(now, claimant, claim_id),
            ),
            Request::SetPaused { admin, paused } => after(
                self,
                self.set_paused(admin, paused),
            ),
            Request::Upgrade { admin, new_wasm_hash, new_version } => after(
                self,
                self.upgrade(admin, new_wasm_hash, new_version),
            ),
            Request::SetGuardians { admin, guardians, guardian_threshold } => after(
                self,
                self.set_guardians(admin, guardians, guardian_threshold),
            ),
            Request::ApproveUpgrade { guardian, new_wasm_hash } => after(
                self,
                self.approve_upgrade(guardian, new_wasm_hash),
            ),
            Request::CancelPendingUpgrade { admin } => after(
                self,
                self.cancel_pending_upgrade(admin),
            ),
            Request::ProposeNewAdmin { now, admin, new_admin } => after(
                self,
                self.propose_new_admin(now, admin, new_admin),
            ),
            Request::ApproveAdminChange { now, guardian, new_admin } => after(
                self,
                self.approve_admin_change(now, guardian, new_admin),
            ),
            Request::AcceptAdmin { now, admin } => after(
                self,
                self.accept_admin(now, admin),
            ),
            Request::SetEscalationThreshold { admin, threshold } => after(
                self,
                self.set_escalation_threshold(admin, threshold),
            ),
            Request::SetClaimDeadline { admin, deadline } => after(
                self,
                self.set_claim_deadline(admin, deadline),
            ),
            Request::SetPayoutDelay { admin, delay_seconds } => after(
                self,
                self.set_payout_delay(admin, delay_seconds),
            ),
            Request::SetFraudConfig { admin, config } => after(
                self,
                self.set_fraud_config(admin, config),
            ),
            Request::ClaimPayout { now, claim_id, policy } => after(
                self,
                self.claim_payout(now, claim_id, policy),
            ),
            Request::EscalateClaim { now, caller, claim_id } => after(
                self,
                self.escalate_claim(now, caller, claim_id),
            ),
            Request::RequireIdentity { admin, product_id, id_type } => after(
                self,
                self.require_identity_for_category(admin, product_id, id_type),
            ),
            Request::RemoveIdentity { admin, product_id } => after(
                self,
                self.remove_identity_requirement(admin, product_id),
            ),
            Request::VerifyIdentity { now, admin, claim_id, id_type } => after(
                self,
                self.verify_claimant_identity(now, admin, claim_id, id_type),
            ),
        }
    }

    /// Whether a request stays within the processor's arithmetic: the numbers
    /// that it would give out are not used up, and installments fall due at
    /// intervals that are not zero.
    pub open spec fn has_room(self, r: Request) -> bool {
        match r {
            Request::SubmitClaim { .. } => self.claim_counter() < u128::MAX,
            Request::BatchSubmitClaims { .. } => self.claim_counter() + MAX_BATCH_SIZE <= u128::MAX,
            Request::AutoProcess { .. } => self.claim_counter() < u128::MAX,
            Request::ClaimInstallment { now, claimant, claim_id } => self.interval_ok(
                now,
                claimant,
                claim_id,
            ),
            _ => true,
        }
    }

    /// The state after requests made one after the other.
    pub open spec fn apply_all(self, requests: Seq<Request>) -> ProcessorState
        decreases requests.len(),
    {
        if requests.len() == 0 {
            self
        } else {
            self.apply_all(requests.drop_last()).apply(requests.last())
        }
    }

    /// Whether all of the requests stay within the processor's arithmetic.
    pub open spec fn has_room_for_all(self, requests: Seq<Request>) -> bool
        decreases requests.len(),
    {
        requests.len() > 0 ==> self.has_room_for_all(requests.drop_last()) && self.apply_all(
            requests.drop_last(),
        ).has_room(requests.last())
    }

    /// A claim is filed under its own number, which is below the next one to be
    /// given out, and is the one claim of its policy.
    pub open spec fn claim_ok(self, id: u128) -> bool {
        let claim = self.claims[id];
        &&& claim.id == id
        &&& id < self.claim_counter()
        &&& self.policy_claims.contains_key(claim.policy_id)
        &&& self.policy_claims[claim.policy_id] == id
        &&& schedule_ok(claim)
    }

    pub open spec fn claims_ok(self) -> bool {
        forall|id: u128| #[trigger] self.claims.contains_key(id) ==> self.claim_ok(id)
    }

    /// The claim on record for a policy is a claim on that policy.
    pub open spec fn policies_ok(self) -> bool {
        forall|p: u128| #[trigger]
            self.policy_claims.contains_key(p) ==> self.claims.contains_key(self.policy_claims[p])
                && self.claims[self.policy_claims[p]].policy_id == p
    }

    /// The queue names exactly the pending claims, each once.
    pub open spec fn queue_exact(self) -> bool {
        &&& self.pending_claims.no_duplicates()
        &&& forall|id: u128| #[trigger]
            self.pending_claims.contains(id) <==> self.is_pending(id)
    }

    /// Whether a claim is pending.
    pub open spec fn is_pending(self, id: u128) -> bool {
        self.claims.contains_key(id) && self.claims[id].status == ClaimStatus::Pending
    }

    /// Before it is set up, the processor holds nothing.
    pub open spec fn empty_before_start(self) -> bool {
        !self.initialized ==> {
            &&& self.admin is None
            &&& self.policy_engine is None
            &&& forall|id: u128| !#[trigger] self.claims.contains_key(id)
            &&& forall|p: u128| !#[trigger] self.policy_claims.contains_key(p)
        }
    }

    /// A transfer is armed exactly while its timelock has a start.
    pub open spec fn transfer_ok(self) -> bool {
        &&& self.pending_admin is Some <==> self.pending_admin_since is Some
        &&& !self.initialized ==> self.pending_admin is None && self.pending_admin_change is None
    }

    /// What every request keeps.
    #[verifier::opaque]
    pub open spec fn inv(self) -> bool {
        &&& self.claims_ok()
        &&& self.policies_ok()
        &&& self.queue_exact()
        &&& self.empty_before_start()
        &&& self.transfer_ok()
    }

    /// What a request leaves in place, `t` being the state after it.
    #[verifier::opaque]
    pub open spec fn kept_by(self, r: Request, t: ProcessorState) -> bool {
        &&& t.inv()
        &&& forall|id: u128| #[trigger]
            self.claims.contains_key(id) ==> t.claims.contains_key(id) && claim_kept(
                self.claims[id],
                t.claims[id],
            )
        &&& forall|p: u128| #[trigger]
            self.policy_claims.contains_key(p) ==> t.policy_claims.contains_key(p)
                && t.policy_claims[p] == self.policy_claims[p]
        &&& self.pending_admin_since is Some ==> t.pending_admin_since == self.pending_admin_since
            || self.transfer_accepted(r, t)
    }

    /// The pending administrator took over after the timelock.
    pub open spec fn transfer_accepted(self, r: Request, t: ProcessorState) -> bool {
        match r {
            Request::AcceptAdmin { now, admin } => Some(admin) == self.pending_admin && now
                >= timelock_end(or_default(self.pending_admin_since, 0)) && t.admin == Some(admin),
            _ => false,
        }
    }
}

/// The installments of a claim add up to no more than its coverage, and no
/// more of them are paid than there are.
pub open spec fn schedule_ok(claim: Claim) -> bool {
    match claim.installments {
        Some(s) => s.total_amount == clamp_i128(s.amount_per_installment * s.num_installments)
            && s.total_amount <= claim.coverage_amount && s.paid_count <= s.num_installments,
        None => true,
    }
}

/// What never changes about a claim, and how its status can change.
pub open spec fn claim_kept(a: Claim, b: Claim) -> bool {
    &&& b.id == a.id
    &&& b.policy_id == a.policy_id
    &&& b.claimant == a.claimant
    &&& b.coverage_amount == a.coverage_amount
    &&& b.submitted_at == a.submitted_at
    &&& may_become(a.status, b.status)
}

/// How the status of a claim can change in one request: a pending claim is
/// settled, disputed or escalated; one that was rejected or paid in part can be
/// disputed; a disputed one can become pending again. What is paid in full or
/// escalated stays so.
pub open spec fn may_become(a: ClaimStatus, b: ClaimStatus) -> bool {
    ||| a == b
    ||| a == ClaimStatus::Pending && b != ClaimStatus::Expired
    ||| (a == ClaimStatus::Rejected || a == ClaimStatus::PartiallyPaid) && b
        == ClaimStatus::Disputed
    ||| a == ClaimStatus::Disputed && b == ClaimStatus::Pending
}

/// A new processor meets the invariant.
pub proof fn law_fresh_inv()
    ensures
        ProcessorState::fresh().inv(),
{
    reveal(ProcessorState::inv);
}

proof fn lemma_inv_facts(s: ProcessorState)
    requires
        s.inv(),
    ensures
        !s.initialized ==> s.admin is None && s.policy_engine is None && s.pending_admin is None
            && s.pending_admin_change is None,
        s.pending_admin is Some <==> s.pending_admin_since is Some,
        forall|id: u128| #[trigger] s.claims.contains_key(id) ==> s.claim_ok(id),
        s.policies_ok(),
{
    reveal(ProcessorState::inv);
}

/// States that differ in nothing the invariant speaks of but the transfer.
proof fn lemma_same_records(s: ProcessorState, t: ProcessorState)
    requires
        s.inv(),
        t.claims == s.claims,
        t.policy_claims == s.policy_claims,
        t.pending_claims == s.pending_claims,
        t.claim_counter() == s.claim_counter(),
        t.initialized == s.initialized,
        t.transfer_ok(),
        !s.initialized ==> t.admin is None && t.policy_engine is None,
    ensures
        t.inv(),
{
    reveal(ProcessorState::inv);
    assert forall|id: u128| #[trigger] t.claims.contains_key(id) implies t.claim_ok(id) by {
        assert(s.claim_ok(id));
    }
    assert forall|id: u128| #[trigger] t.pending_claims.contains(id) <==> t.is_pending(id) by {
        assert(s.pending_claims.contains(id) <==> s.is_pending(id));
    }
}

/// A change of one claim, with the queue brought in line.
proof fn lemma_claim_changed(s: ProcessorState, t: ProcessorState, id: u128)
    requires
        s.inv(),
        s.claims.contains_key(id),
        t.claims == s.claims.insert(id, t.claims[id]),
        t.claims[id].id == id,
        t.claims[id].policy_id == s.claims[id].policy_id,
        schedule_ok(t.claims[id]),
        t.policy_claims == s.policy_claims,
        t.claim_counter() == s.claim_counter(),
        t.initialized == s.initialized,
        t.admin == s.admin,
        t.policy_engine == s.policy_engine,
        t.pending_admin == s.pending_admin,
        t.pending_admin_since == s.pending_admin_since,
        t.pending_admin_change == s.pending_admin_change,
        t.pending_claims.no_duplicates(),
        forall|x: u128| x != id ==> (#[trigger] t.pending_claims.contains(x)
            <==> s.pending_claims.contains(x)),
        t.pending_claims.contains(id) <==> t.claims[id].status == ClaimStatus::Pending,
    ensures
        t.inv(),
{
    reveal(ProcessorState::inv);
    assert(s.claim_ok(id));
    assert forall|x: u128| #[trigger] t.claims.contains_key(x) implies t.claim_ok(x) by {
        assert(s.claim_ok(x));
    }
    assert forall|x: u128| #[trigger] t.pending_claims.contains(x) <==> t.is_pending(x) by {
        assert(s.pending_claims.contains(x) <==> s.is_pending(x));
    }
    assert forall|p: u128| #[trigger] t.policy_claims.contains_key(p) implies t.claims.contains_key(
        t.policy_claims[p],
    ) && t.claims[t.policy_claims[p]].policy_id == p by {
        assert(s.policy_claims.contains_key(p));
    }
}

/// A claim opened for a policy that has none.
proof fn lemma_open_claim(
    s: ProcessorState,
    now: u64,
    policy_id: u128,
    claimant: Addr,
    coverage_amount: i128,
)
    requires
        s.inv(),
        s.initialized,
        !s.policy_claims.contains_key(policy_id),
        s.claim_counter() < u128::MAX,
    ensures
        s.open_claim(now, policy_id, claimant, coverage_amount).inv(),
        !s.claims.contains_key(s.claim_counter()),
{
    reveal(ProcessorState::inv);
    let t = s.open_claim(now, policy_id, claimant, coverage_amount);
    let id = s.claim_counter();
    assert(!s.claims.contains_key(id)) by {
        if s.claims.contains_key(id) {
            assert(s.claim_ok(id));
        }
    }
    assert(s.pending_claims.contains(id) <==> s.is_pending(id));
    lemma_push_value(s.pending_claims, id);
    assert forall|x: u128| #[trigger] t.claims.contains_key(x) implies t.claim_ok(x) by {
        if x != id {
            assert(s.claim_ok(x));
        }
    }
    assert forall|x: u128| #[trigger] t.pending_claims.contains(x) <==> t.is_pending(x) by {
        assert(s.pending_claims.contains(x) <==> s.is_pending(x));
    }
    assert forall|p: u128| #[trigger] t.policy_claims.contains_key(p) implies t.claims.contains_key(
        t.policy_claims[p],
    ) && t.claims[t.policy_claims[p]].policy_id == p by {
        if p != policy_id {
            assert(s.policy_claims.contains_key(p));
        }
    }
}

/// What a state keeps of the claims of an earlier one.
pub open spec fn claims_kept(s: ProcessorState, t: ProcessorState) -> bool {
    &&& forall|id: u128| #[trigger]
        s.claims.contains_key(id) ==> t.claims.contains_key(id) && claim_kept(
            s.claims[id],
            t.claims[id],
        )
    &&& forall|p: u128| #[trigger]
        s.policy_claims.contains_key(p) ==> t.policy_claims.contains_key(p) && t.policy_claims[p]
            == s.policy_claims[p]
    &&& t.pending_admin == s.pending_admin
    &&& t.pending_admin_since == s.pending_admin_since
    &&& t.pending_admin_change == s.pending_admin_change
    &&& t.initialized == s.initialized
}

/// What a state that has more claims keeps of an earlier one.
pub open spec fn claims_extended(s: ProcessorState, t: ProcessorState) -> bool {
    &&& forall|id: u128| #[trigger]
        s.claims.contains_key(id) ==> t.claims.contains_key(id) && t.claims[id] == s.claims[id]
    &&& forall|p: u128| #[trigger]
        s.policy_claims.contains_key(p) ==> t.policy_claims.contains_key(p) && t.policy_claims[p]
            == s.policy_claims[p]
    &&& t.pending_admin == s.pending_admin
    &&& t.pending_admin_since == s.pending_admin_since
    &&& t.pending_admin_change == s.pending_admin_change
    &&& t.initialized == s.initialized
}

proof fn lemma_submit(
    s: ProcessorState,
    now: u64,
    claimant: Addr,
    policy_id: u128,
    policy: Option<Policy>,
    item: usize,
)
    requires
        s.inv(),
        s.claim_counter() < u128::MAX,
    ensures
        ({
            let outcome = s.submit_inner(now, claimant, policy_id, policy, item);
            let t = after(s, outcome);
            &&& t.inv()
            &&& claims_extended(s, t)
            &&& outcome matches Ok((_, Step::Done(_))) ==> t.claim_counter() == s.claim_counter() + 1
            &&& outcome matches Ok((_, Step::Ask { .. })) ==> t == s
        }),
{
    lemma_inv_facts(s);
    let outcome = s.submit_inner(now, claimant, policy_id, policy, item);
    match outcome {
        Ok((t, Step::Done(_))) => {
            let coverage = policy->0.coverage_amount;
            let noted = s.fraud_noted(now, s.claim_counter(), claimant, coverage);
            lemma_same_records(s, noted);
            lemma_open_claim(noted, now, policy_id, claimant, coverage);
            let opened = noted.open_claim(now, policy_id, claimant, coverage);
            lemma_inv_facts(noted);
            lemma_inv_facts(opened);
            lemma_same_records(opened, t);
            assert(!s.claims.contains_key(s.claim_counter()));
        },
        _ => {},
    }
}

proof fn lemma_submit_items(
    s: ProcessorState,
    now: u64,
    claimant: Addr,
    policy_ids: Seq<u128>,
    replies: Seq<Reply>,
    n: nat,
)
    requires
        s.inv(),
        s.claim_counter() + n <= u128::MAX,
    ensures
        s.submit_items(now, claimant, policy_ids, replies, n) matches Ok((t, Step::Done(_)))
            ==> t.inv() && claims_extended(s, t) && t.claim_counter() == s.claim_counter() + n,
    decreases n,
{
    if n > 0 {
        lemma_submit_items(s, now, claimant, policy_ids, replies, (n - 1) as nat);
        match s.submit_items(now, claimant, policy_ids, replies, (n - 1) as nat) {
            Ok((t, Step::Done(_))) => {
                lemma_submit(
                    t,
                    now,
                    claimant,
                    policy_ids[n - 1],
                    reply_at(replies, n - 1).policy,
                    (n - 1) as usize,
                );
            },
            _ => {},
        }
    }
}

/// Claims changed in two steps.
proof fn lemma_kept_chain(s: ProcessorState, t: ProcessorState, u: ProcessorState)
    requires
        claims_kept(s, t),
        claims_kept(t, u),
    ensures
        forall|id: u128| #[trigger]
            s.claims.contains_key(id) && t.claims[id].status == s.claims[id].status
                ==> u.claims.contains_key(id) && claim_kept(s.claims[id], u.claims[id]),
        forall|id: u128| #[trigger]
            s.claims.contains_key(id) && u.claims[id].status == t.claims[id].status
                ==> u.claims.contains_key(id) && claim_kept(s.claims[id], u.claims[id]),
        forall|p: u128| #[trigger]
            s.policy_claims.contains_key(p) ==> u.policy_claims.contains_key(p)
                && u.policy_claims[p] == s.policy_claims[p],
{
    assert forall|id: u128| #[trigger]
        s.claims.contains_key(id) && t.claims[id].status == s.claims[id].status implies
        u.claims.contains_key(id) && claim_kept(s.claims[id], u.claims[id]) by {
        assert(t.claims.contains_key(id));
    }
    assert forall|id: u128| #[trigger]
        s.claims.contains_key(id) && u.claims[id].status == t.claims[id].status implies
        u.claims.contains_key(id) && claim_kept(s.claims[id], u.claims[id]) by {
        assert(t.claims.contains_key(id));
    }
    assert forall|p: u128| #[trigger] s.policy_claims.contains_key(p) implies
        u.policy_claims.contains_key(p) && u.policy_claims[p] == s.policy_claims[p] by {
        assert(t.policy_claims.contains_key(p));
    }
}

/// A pending claim is settled.
proof fn lemma_settled(s: ProcessorState, now: u64, id: u128, met: bool, bps: u32)
    requires
        s.inv(),
        s.is_pending(id),
    ensures
        s.settled(now, s.claims[id], met, bps).inv(),
        claims_kept(s, s.settled(now, s.claims[id], met, bps)),
        s.settled(now, s.claims[id], met, bps).claim_counter() == s.claim_counter(),
        !s.settled(now, s.claims[id], met, bps).is_pending(id),
{
    lemma_inv_facts(s);
    assert(s.claim_ok(id));
    let claim = s.claims[id];
    let t = s.settled(now, claim, met, bps);
    assert(s.pending_claims.no_duplicates()) by {
        reveal(ProcessorState::inv);
    }
    lemma_remove_value(s.pending_claims, id);
    assert(t.claims[id] == settled_claim(claim, now, met, bps, s.payout_delay));
    assert(t.claims == s.claims.insert(id, t.claims[id]));
    lemma_claim_changed(s, t, id);
}

proof fn lemma_process(
    s: ProcessorState,
    now: u64,
    claim_id: u128,
    bps: Option<u32>,
    reply: Reply,
    item: usize,
)
    requires
        s.inv(),
    ensures
        ({
            let outcome = s.process_inner(now, claim_id, bps, reply, item);
            let t = after(s, outcome);
            &&& t.inv()
            &&& claims_kept(s, t)
            &&& t.claim_counter() == s.claim_counter()
            &&& outcome matches Ok((_, Step::Ask { .. })) ==> t == s
            &&& outcome matches Ok((_, Step::Done(_))) ==> !t.is_pending(claim_id)
            &&& forall|id: u128| #[trigger]
                s.claims.contains_key(id) && id != claim_id ==> t.claims[id] == s.claims[id]
        }),
{
    lemma_inv_facts(s);
    if s.is_pending(claim_id) {
        assert(s.claim_ok(claim_id));
        match reply.trigger {
            Some(met) => {
                lemma_settled(s, now, claim_id, met, payout_bps(bps));
            },
            None => {},
        }
    }
}

proof fn lemma_process_items(
    s: ProcessorState,
    now: u64,
    claim_ids: Seq<u128>,
    bps: Option<u32>,
    replies: Seq<Reply>,
    n: nat,
)
    requires
        s.inv(),
    ensures
        s.process_items(now, claim_ids, bps, replies, n) matches Ok((t, Step::Done(_)))
            ==> t.inv() && claims_kept(s, t) && t.claim_counter() == s.claim_counter() && (
        forall|id: u128| #[trigger]
            s.claims.contains_key(id) ==> t.claims[id].status == s.claims[id].status
                || !t.is_pending(id) && s.is_pending(id)),
    decreases n,
{
    if n > 0 {
        lemma_process_items(s, now, claim_ids, bps, replies, (n - 1) as nat);
        match s.process_items(now, claim_ids, bps, replies, (n - 1) as nat) {
            Ok((t, Step::Done(_))) => {
                let reply = reply_at(replies, n - 1);
                let cid = claim_ids[n - 1];
                lemma_process(t, now, cid, bps, reply, (n - 1) as usize);
                let u = after(t, t.process_inner(now, cid, bps, reply, (n - 1) as usize));
                lemma_kept_chain(s, t, u);
                assert forall|id: u128| #[trigger] s.claims.contains_key(id) implies
                    u.claims.contains_key(id) && claim_kept(s.claims[id], u.claims[id]) && (
                u.claims[id].status == s.claims[id].status || !u.is_pending(id) && s.is_pending(
                    id,
                )) by {
                    assert(t.claims.contains_key(id));
                    if id == cid && t.claims[id].status != ClaimStatus::Pending {
                        assert(u == t);
                    }
                }
            },
            _ => {},
        }
    }
}

proof fn lemma_add_keeper(s: ProcessorState, r: Request)
    requires
        s.inv(),
        s.has_room(r),
        r is AddKeeper,
    ensures
        s.kept_by(r, s.apply(r)),
{
    reveal(ProcessorState::apply);
    reveal(ProcessorState::kept_by);
    let t = s.apply(r);
    lemma_inv_facts(s);
    lemma_same_records(s, t);
}

proof fn lemma_remove_keeper(s: ProcessorState, r: Request)
    requires
        s.inv(),
        s.has_room(r),
        r is RemoveKeeper,
    ensures
        s.kept_by(r, s.apply(r)),
{
    reveal(ProcessorState::apply);
    reveal(ProcessorState::kept_by);
    let t = s.apply(r);
    lemma_inv_facts(s);
    lemma_same_records(s, t);
}

proof fn lemma_set_paused(s: ProcessorState, r: Request)
    requires
        s.inv(),
        s.has_room(r),
        r is SetPaused,
    ensures
        s.kept_by(r, s.apply(r)),
{
    reveal(ProcessorState::apply);
    reveal(ProcessorState::kept_by);
    let t = s.apply(r);
    lemma_inv_facts(s);
    lemma_same_records(s, t);
}

proof fn lemma_upgrade(s: ProcessorState, r: Request)
    requires
        s.inv(),
        s.has_room(r),
        r is Upgrade,
    ensures
        s.kept_by(r, s.apply(r)),
{
    reveal(ProcessorState::apply);
    reveal(ProcessorState::kept_by);
    let t = s.apply(r);
    lemma_inv_facts(s);
    lemma_same_records(s, t);
}

proof fn lemma_set_guardians(s: ProcessorState, r: Request)
    requires
        s.inv(),
        s.has_room(r),
        r is SetGuardians,
    ensures
        s.kept_by(r, s.apply(r)),
{
    reveal(ProcessorState::apply);
    reveal(ProcessorState::kept_by);
    let t = s.apply(r);
    lemma_inv_facts(s);
    lemma_same_records(s, t);
}

proof fn lemma_approve_upgrade(s: ProcessorState, r: Request)
    requires
        s.inv(),
        s.has_room(r),
        r is ApproveUpgrade,
    ensures
        s.kept_by(r, s.apply(r)),
{
    reveal(ProcessorState::apply);
    reveal(ProcessorState::kept_by);
    let t = s.apply(r);
    lemma_inv_facts(s);
    lemma_same_records(s, t);
}

proof fn lemma_cancel_pending_upgrade(s: ProcessorState, r: Request)
    requires
        s.inv(),
        s.has_room(r),
        r is CancelPendingUpgrade,
    ensures
        s.kept_by(r, s.apply(r)),
{
    reveal(ProcessorState::apply);
    reveal(ProcessorState::kept_by);
    let t = s.apply(r);
    lemma_inv_facts(s);
    lemma_same_records(s, t);
}

proof fn lemma_propose_new_admin(s: ProcessorState, r: Request)
    requires
        s.inv(),
        s.has_room(r),
        r is ProposeNewAdmin,
    ensures
        s.kept_by(r, s.apply(r)),
{
    reveal(ProcessorState::apply);
    reveal(ProcessorState::kept_by);
    let t = s.apply(r);
    lemma_inv_facts(s);
    lemma_same_records(s, t);
}

proof fn lemma_accept_admin(s: ProcessorState, r: Request)
    requires
        s.inv(),
        s.has_room(r),
        r is AcceptAdmin,
    ensures
        s.kept_by(r, s.apply(r)),
{
    reveal(ProcessorState::apply);
    reveal(ProcessorState::kept_by);
    let t = s.apply(r);
    lemma_inv_facts(s);
    lemma_same_records(s, t);
}

proof fn lemma_set_escalation_threshold(s: ProcessorState, r: Request)
    requires
        s.inv(),
        s.has_room(r),
        r is SetEscalationThreshold,
    ensures
        s.kept_by(r, s.apply(r)),
{
    reveal(ProcessorState::apply);
    reveal(ProcessorState::kept_by);
    let t = s.apply(r);
    lemma_inv_facts(s);
    lemma_same_records(s, t);
}

proof fn lemma_set_claim_deadline(s: ProcessorState, r: Request)
    requires
        s.inv(),
        s.has_room(r),
        r is SetClaimDeadline,
    ensures
        s.kept_by(r, s.apply(r)),
{
    reveal(ProcessorState::apply);
    reveal(ProcessorState::kept_by);
    let t = s.apply(r);
    lemma_inv_facts(s);
    lemma_same_records(s, t);
}

proof fn lemma_set_payout_delay(s: ProcessorState, r: Request)
    requires
        s.inv(),
        s.has_room(r),
        r is SetPayoutDelay,
    ensures
        s.kept_by(r, s.apply(r)),
{
    reveal(ProcessorState::apply);
    reveal(ProcessorState::kept_by);
    let t = s.apply(r);
    lemma_inv_facts(s);
    lemma_same_records(s, t);
}

proof fn lemma_set_fraud_config(s: ProcessorState, r: Request)
    requires
        s.inv(),
        s.has_room(r),
        r is SetFraudConfig,
    ensures
        s.kept_by(r, s.apply(r)),
{
    reveal(ProcessorState::apply);
    reveal(ProcessorState::kept_by);
    let t = s.apply(r);
    lemma_inv_facts(s);
    lemma_same_records(s, t);
}

proof fn lemma_require_identity(s: ProcessorState, r: Request)
    requires
        s.inv(),
        s.has_room(r),
        r is RequireIdentity,
    ensures
        s.kept_by(r, s.apply(r)),
{
    reveal(ProcessorState::apply);
    reveal(ProcessorState::kept_by);
    let t = s.apply(r);
    lemma_inv_facts(s);
    lemma_same_records(s, t);
}

proof fn lemma_remove_identity(s: ProcessorState, r: Request)
    requires
        s.inv(),
        s.has_room(r),
        r is RemoveIdentity,
    ensures
        s.kept_by(r, s.apply(r)),
{
    reveal(ProcessorState::apply);
    reveal(ProcessorState::kept_by);
    let t = s.apply(r);
    lemma_inv_facts(s);
    lemma_same_records(s, t);
}

proof fn lemma_approve_admin_change(s: ProcessorState, r: Request)
    requires
        s.inv(),
        s.has_room(r),
        r is ApproveAdminChange,
    ensures
        s.kept_by(r, s.apply(r)),
{
    reveal(ProcessorState::apply);
    reveal(ProcessorState::kept_by);
    let t = s.apply(r);
    lemma_inv_facts(s);
    lemma_same_records(s, t);
}

proof fn lemma_initialize(s: ProcessorState, r: Request)
    requires
        s.inv(),
        s.has_room(r),
        r is Initialize,
    ensures
        s.kept_by(r, s.apply(r)),
{
    reveal(ProcessorState::apply);
    reveal(ProcessorState::kept_by);
    let t = s.apply(r);
    lemma_inv_facts(s);
    if !s.initialized {
        assert(t.inv()) by {
            reveal(ProcessorState::inv);
        }
    }
}

proof fn lemma_submit_claim(s: ProcessorState, r: Request)
    requires
        s.inv(),
        s.has_room(r),
        r is SubmitClaim,
    ensures
        s.kept_by(r, s.apply(r)),
{
    reveal(ProcessorState::apply);
    reveal(ProcessorState::kept_by);
    let t = s.apply(r);
    lemma_inv_facts(s);
    match r {
        Request::SubmitClaim { now, claimant, policy_id, reply } => {
            let asked = s.demand(claimant);
            lemma_same_records(s, asked);
            lemma_submit(asked, now, claimant, policy_id, reply.policy, 0);
        },
        _ => {},
    }
}

proof fn lemma_batch_submit_claims(s: ProcessorState, r: Request)
    requires
        s.inv(),
        s.has_room(r),
        r is BatchSubmitClaims,
    ensures
        s.kept_by(r, s.apply(r)),
{
    reveal(ProcessorState::apply);
    reveal(ProcessorState::kept_by);
    let t = s.apply(r);
    lemma_inv_facts(s);
    match r {
        Request::BatchSubmitClaims { now, claimant, policy_ids, replies } => {
            let asked = s.demand(claimant);
            let count = batch_count(policy_ids.len());
            lemma_same_records(s, asked);
            lemma_submit_items(asked, now, claimant, policy_ids, replies, count);
            match asked.submit_items(now, claimant, policy_ids, replies, count) {
                Ok((w, Step::Done(_))) => {
                    if !s.paused {
                        lemma_inv_facts(w);
                        lemma_same_records(w, t);
                        assert(t.claims == w.claims && t.policy_claims == w.policy_claims);
                        assert(asked.claims == s.claims && asked.policy_claims == s.policy_claims);
                        assert(t.pending_admin_since == s.pending_admin_since);
                    } else {
                        assert(t == s);
                    }
                },
                _ => {
                    assert(t == s);
                },
            }
        },
        _ => {},
    }
}

proof fn lemma_process_claim(s: ProcessorState, r: Request)
    requires
        s.inv(),
        s.has_room(r),
        r is ProcessClaim,
    ensures
        s.kept_by(r, s.apply(r)),
{
    reveal(ProcessorState::apply);
    reveal(ProcessorState::kept_by);
    let t = s.apply(r);
    lemma_inv_facts(s);
    match r {
        Request::ProcessClaim { now, keeper, claim_id, bps, reply } => {
            let asked = s.demand(keeper);
            lemma_same_records(s, asked);
            lemma_process(asked, now, claim_id, bps, reply, 0);
        },
        _ => {},
    }
}

proof fn lemma_batch_process_claims(s: ProcessorState, r: Request)
    requires
        s.inv(),
        s.has_room(r),
        r is BatchProcessClaims,
    ensures
        s.kept_by(r, s.apply(r)),
{
    reveal(ProcessorState::apply);
    reveal(ProcessorState::kept_by);
    let t = s.apply(r);
    lemma_inv_facts(s);
    match r {
        Request::BatchProcessClaims { now, keeper, claim_ids, bps, replies } => {
            let asked = s.demand(keeper);
            let count = batch_count(claim_ids.len());
            lemma_same_records(s, asked);
            lemma_process_items(asked, now, claim_ids, bps, replies, count);
            match s.batch_process_claims(now, keeper, claim_ids, bps, replies) {
                Ok((u, Step::Done(_))) => {
                    match asked.process_items(now, claim_ids, bps, replies, count) {
                        Ok((w, _)) => {
                            lemma_inv_facts(w);
                            lemma_same_records(w, u);
                        },
                        _ => {},
                    }
                },
                _ => {},
            }
        },
        _ => {},
    }
}

/// What automatic processing does to the claim of a policy.
proof fn lemma_auto(
    s: ProcessorState,
    now: u64,
    policy_id: u128,
    policy: Policy,
    bps: Option<u32>,
    trigger: Option<bool>,
)
    requires
        s.inv(),
        s.initialized,
        s.claim_counter() < u128::MAX,
        !s.is_processed(policy_id),
    ensures
        ({
            let outcome = s.auto_settle(now, policy_id, policy, bps, trigger);
            outcome matches Ok((t, Step::Done(_))) ==> t.inv() && claims_kept(s, t)
                && t.is_processed(policy_id)
        }),
{
    lemma_inv_facts(s);
    let opened = s.with_open_claim(now, policy_id, policy);
    if !s.policy_claims.contains_key(policy_id) {
        lemma_open_claim(s, now, policy_id, policy.policyholder, policy.coverage_amount);
    }
    let id = opened.policy_claims[policy_id];
    assert(opened.is_pending(id));
    lemma_inv_facts(opened);
    assert(opened.claim_ok(id));
    match trigger {
        Some(met) => {
            lemma_settled(opened, now, id, met, payout_bps(bps));
            let t = opened.settled(now, opened.claims[id], met, payout_bps(bps));
            assert(claims_kept(s, opened)) by {
                assert forall|x: u128| #[trigger]
                    s.claims.contains_key(x) implies opened.claims.contains_key(x) && claim_kept(
                    s.claims[x],
                    opened.claims[x],
                ) && opened.claims[x].status == s.claims[x].status by {}
            }
            lemma_kept_chain(s, opened, t);
            assert forall|x: u128| #[trigger] s.claims.contains_key(x) implies
                opened.claims[x].status == s.claims[x].status by {}
        },
        None => {},
    }
}

proof fn lemma_auto_process(s: ProcessorState, r: Request)
    requires
        s.inv(),
        s.has_room(r),
        r is AutoProcess,
    ensures
        s.kept_by(r, s.apply(r)),
{
    reveal(ProcessorState::apply);
    reveal(ProcessorState::kept_by);
    let t = s.apply(r);
    lemma_inv_facts(s);
    match r {
        Request::AutoProcess { now, keeper, policy_id, bps, reply } => {
            let asked = s.demand(keeper);
            lemma_same_records(s, asked);
            if s.keeper_error(keeper) is None && s.policy_engine is Some && !s.is_processed(
                policy_id,
            ) {
                match reply.policy {
                    Some(policy) => {
                        if policy.status == PolicyStatus::Active && now >= policy.end_time {
                            lemma_same_records(s, t);
                        }
                        lemma_auto(asked, now, policy_id, policy, bps, reply.trigger);
                    },
                    None => {},
                }
            }
        },
        _ => {},
    }
}

proof fn lemma_dispute_claim(s: ProcessorState, r: Request)
    requires
        s.inv(),
        s.has_room(r),
        r is DisputeClaim,
    ensures
        s.kept_by(r, s.apply(r)),
{
    reveal(ProcessorState::apply);
    reveal(ProcessorState::kept_by);
    let t = s.apply(r);
    lemma_inv_facts(s);
    match r {
        Request::DisputeClaim { claimant, claim_id, reason } => {
            if s.dispute_claim(claimant, claim_id, reason) is Ok {
                assert(s.claim_ok(claim_id));
                assert(s.pending_claims.no_duplicates() && (s.pending_claims.contains(claim_id)
                    <==> s.is_pending(claim_id))) by {
                    reveal(ProcessorState::inv);
                }
                lemma_remove_value(s.pending_claims, claim_id);
                assert(t.claims == s.claims.insert(claim_id, t.claims[claim_id]));
                lemma_claim_changed(s, t, claim_id);
            }
        },
        _ => {},
    }
}

proof fn lemma_resolve_dispute(s: ProcessorState, r: Request)
    requires
        s.inv(),
        s.has_room(r),
        r is ResolveDispute,
    ensures
        s.kept_by(r, s.apply(r)),
{
    reveal(ProcessorState::apply);
    reveal(ProcessorState::kept_by);
    let t = s.apply(r);
    lemma_inv_facts(s);
    match r {
        Request::ResolveDispute { admin, claim_id } => {
            if s.resolve_dispute(admin, claim_id) is Ok {
                assert(s.claim_ok(claim_id));
                assert(s.pending_claims.no_duplicates() && (s.pending_claims.contains(claim_id)
                    <==> s.is_pending(claim_id))) by {
                    reveal(ProcessorState::inv);
                }
                lemma_push_value(s.pending_claims, claim_id);
                assert(t.claims == s.claims.insert(claim_id, t.claims[claim_id]));
                lemma_claim_changed(s, t, claim_id);
            }
        },
        _ => {},
    }
}

proof fn lemma_schedule_installments(s: ProcessorState, r: Request)
    requires
        s.inv(),
        s.has_room(r),
        r is ScheduleInstallments,
    ensures
        s.kept_by(r, s.apply(r)),
{
    reveal(ProcessorState::apply);
    reveal(ProcessorState::kept_by);
    let t = s.apply(r);
    lemma_inv_facts(s);
    match r {
        Request::ScheduleInstallments { now, caller, claim_id, amount_per_installment, num_installments, interval_seconds } => {
            if s.schedule_installments(now, caller, claim_id, amount_per_installment, num_installments, interval_seconds) is Ok {
                assert(s.claim_ok(claim_id));
                assert(s.pending_claims.no_duplicates() && (s.pending_claims.contains(claim_id)
                    <==> s.is_pending(claim_id))) by {
                    reveal(ProcessorState::inv);
                }
                assert(t.claims == s.claims.insert(claim_id, t.claims[claim_id]));
                lemma_claim_changed(s, t, claim_id);
            }
        },
        _ => {},
    }
}

/// No more installments fall due than there are.
proof fn lemma_installments_due(s: InstallmentSchedule, now: u64)
    requires
        now >= s.first_installment_at ==> s.interval_seconds > 0,
    ensures
        installments_due(s, now) <= s.num_installments,
{
    if now >= s.first_installment_at {
        let x = now - s.first_installment_at;
        let y = s.interval_seconds as int;
        assert(x / y >= 0) by (nonlinear_arith)
            requires
                x >= 0,
                y > 0,
        ;
    }
}

proof fn lemma_claim_installment(s: ProcessorState, r: Request)
    requires
        s.inv(),
        s.has_room(r),
        r is ClaimInstallment,
    ensures
        s.kept_by(r, s.apply(r)),
{
    reveal(ProcessorState::apply);
    reveal(ProcessorState::kept_by);
    let t = s.apply(r);
    lemma_inv_facts(s);
    match r {
        Request::ClaimInstallment { now, claimant, claim_id } => {
            if s.claim_installment(now, claimant, claim_id) is Ok {
                assert(s.claim_ok(claim_id));
                assert(s.pending_claims.no_duplicates() && (s.pending_claims.contains(claim_id)
                    <==> s.is_pending(claim_id))) by {
                    reveal(ProcessorState::inv);
                }
                lemma_installments_due(s.claims[claim_id].installments->0, now);
                assert(t.claims == s.claims.insert(claim_id, t.claims[claim_id]));
                lemma_claim_changed(s, t, claim_id);
            }
        },
        _ => {},
    }
}

proof fn lemma_claim_payout(s: ProcessorState, r: Request)
    requires
        s.inv(),
        s.has_room(r),
        r is ClaimPayout,
    ensures
        s.kept_by(r, s.apply(r)),
{
    reveal(ProcessorState::apply);
    reveal(ProcessorState::kept_by);
    let t = s.apply(r);
    lemma_inv_facts(s);
    match r {
        Request::ClaimPayout { now, claim_id, policy } => {
            if s.claim_payout(now, claim_id, policy) matches Ok((_, Step::Done(_))) {
                assert(s.claim_ok(claim_id));
                assert(s.pending_claims.no_duplicates() && (s.pending_claims.contains(claim_id)
                    <==> s.is_pending(claim_id))) by {
                    reveal(ProcessorState::inv);
                }
                assert(t.claims == s.claims.insert(claim_id, t.claims[claim_id]));
                lemma_claim_changed(s, t, claim_id);
            }
        },
        _ => {},
    }
}

proof fn lemma_escalate_claim(s: ProcessorState, r: Request)
    requires
        s.inv(),
        s.has_room(r),
        r is EscalateClaim,
    ensures
        s.kept_by(r, s.apply(r)),
{
    reveal(ProcessorState::apply);
    reveal(ProcessorState::kept_by);
    let t = s.apply(r);
    lemma_inv_facts(s);
    match r {
        Request::EscalateClaim { now, caller, claim_id } => {
            if s.escalate_claim(now, caller, claim_id) is Ok {
                assert(s.claim_ok(claim_id));
                assert(s.pending_claims.no_duplicates() && (s.pending_claims.contains(claim_id)
                    <==> s.is_pending(claim_id))) by {
                    reveal(ProcessorState::inv);
                }
                lemma_remove_value(s.pending_claims, claim_id);
                assert(t.claims == s.claims.insert(claim_id, t.claims[claim_id]));
                lemma_claim_changed(s, t, claim_id);
            }
        },
        _ => {},
    }
}

proof fn lemma_verify_identity(s: ProcessorState, r: Request)
    requires
        s.inv(),
        s.has_room(r),
        r is VerifyIdentity,
    ensures
        s.kept_by(r, s.apply(r)),
{
    reveal(ProcessorState::apply);
    reveal(ProcessorState::kept_by);
    let t = s.apply(r);
    lemma_inv_facts(s);
    match r {
        Request::VerifyIdentity { now, admin, claim_id, id_type } => {
            if s.verify_claimant_identity(now, admin, claim_id, id_type) is Ok {
                assert(s.claim_ok(claim_id));
                assert(s.pending_claims.no_duplicates() && (s.pending_claims.contains(claim_id)
                    <==> s.is_pending(claim_id))) by {
                    reveal(ProcessorState::inv);
                }
                assert(t.claims == s.claims.insert(claim_id, t.claims[claim_id]));
                lemma_claim_changed(s, t, claim_id);
            }
        },
        _ => {},
    }
}

proof fn lemma_kept(s: ProcessorState, r: Request)
    requires
        s.inv(),
        s.has_room(r),
    ensures
        s.kept_by(r, s.apply(r)),
{
    match r {
        Request::Initialize { .. } => lemma_initialize(s, r),
        Request::AddKeeper { .. } => lemma_add_keeper(s, r),
        Request::RemoveKeeper { .. } => lemma_remove_keeper(s, r),
        Request::SubmitClaim { .. } => lemma_submit_claim(s, r),
        Request::BatchSubmitClaims { .. } => lemma_batch_submit_claims(s, r),
        Request::ProcessClaim { .. } => lemma_process_claim(s, r),
        Request::BatchProcessClaims { .. } => lemma_batch_process_claims(s, r),
        Request::AutoProcess { .. } => lemma_auto_process(s, r),
        Request::DisputeClaim { .. } => lemma_dispute_claim(s, r),
        Request::ResolveDispute { .. } => lemma_resolve_dispute(s, r),
        Request::ScheduleInstallments { .. } => lemma_schedule_installments(s, r),
        Request::ClaimInstallment { .. } => lemma_claim_installment(s, r),
        Request::SetPaused { .. } => lemma_set_paused(s, r),
        Request::Upgrade { .. } => lemma_upgrade(s, r),
        Request::SetGuardians { .. } => lemma_set_guardians(s, r),
        Request::ApproveUpgrade { .. } => lemma_approve_upgrade(s, r),
        Request::CancelPendingUpgrade { .. } => lemma_cancel_pending_upgrade(s, r),
        Request::ProposeNewAdmin { .. } => lemma_propose_new_admin(s, r),
        Request::ApproveAdminChange { .. } => lemma_approve_admin_change(s, r),
        Request::AcceptAdmin { .. } => lemma_accept_admin(s, r),
        Request::SetEscalationThreshold { .. } => lemma_set_escalation_threshold(s, r),
        Request::SetClaimDeadline { .. } => lemma_set_claim_deadline(s, r),
        Request::SetPayoutDelay { .. } => lemma_set_payout_delay(s, r),
        Request::SetFraudConfig { .. } => lemma_set_fraud_config(s, r),
        Request::ClaimPayout { .. } => lemma_claim_payout(s, r),
        Request::EscalateClaim { .. } => lemma_escalate_claim(s, r),
        Request::RequireIdentity { .. } => lemma_require_identity(s, r),
        Request::RemoveIdentity { .. } => lemma_remove_identity(s, r),
        Request::VerifyIdentity { .. } => lemma_verify_identity(s, r),
    }
}

/// No request breaks the invariant: a policy has at most one claim, the queue
/// names exactly the pending claims, each once, and the installments of a claim
/// do not exceed its coverage.
pub proof fn law_requests_keep_inv(s: ProcessorState, r: Request)
    requires
        s.inv(),
        s.has_room(r),
    ensures
        s.apply(r).inv(),
{
    lemma_kept(s, r);
    reveal(ProcessorState::kept_by);
}

/// Whatever requests a new processor gets, the invariant holds.
pub proof fn law_inv_always(requests: Seq<Request>)
    requires
        ProcessorState::fresh().has_room_for_all(requests),
    ensures
        ProcessorState::fresh().apply_all(requests).inv(),
    decreases requests.len(),
{
    if requests.len() == 0 {
        law_fresh_inv();
    } else {
        law_inv_always(requests.drop_last());
        law_requests_keep_inv(
            ProcessorState::fresh().apply_all(requests.drop_last()),
            requests.last(),
        );
    }
}

/// A claim stays on record with its number, policy, claimant and coverage, and
/// its status changes only as `may_become` allows: what is paid in full or
/// escalated stays so.
pub proof fn law_claim_history(s: ProcessorState, r: Request, id: u128)
    requires
        s.inv(),
        s.has_room(r),
        s.claims.contains_key(id),
    ensures
        s.apply(r).claims.contains_key(id),
        claim_kept(s.claims[id], s.apply(r).claims[id]),
        s.claims[id].status == ClaimStatus::Paid ==> s.apply(r).claims[id].status
            == ClaimStatus::Paid,
        s.claims[id].status == ClaimStatus::Escalated ==> s.apply(r).claims[id].status
            == ClaimStatus::Escalated,
{
    lemma_kept(s, r);
    reveal(ProcessorState::kept_by);
}

/// A policy has at most one claim, for good: whatever else is asked of the
/// processor, the claim of a policy remains its claim, and no other can be
/// submitted.
pub proof fn law_one_claim_per_policy(
    s: ProcessorState,
    requests: Seq<Request>,
    policy_id: u128,
    now: u64,
    claimant: Addr,
    reply: Reply,
)
    requires
        s.inv(),
        s.has_room_for_all(requests),
        s.policy_claims.contains_key(policy_id),
    ensures
        ({
            let t = s.apply_all(requests);
            &&& t.inv()
            &&& t.policy_claims.contains_key(policy_id)
            &&& t.policy_claims[policy_id] == s.policy_claims[policy_id]
            &&& t.submit_claim(now, claimant, policy_id, reply) is Err
        }),
    decreases requests.len(),
{
    if requests.len() > 0 {
        law_one_claim_per_policy(
            s,
            requests.drop_last(),
            policy_id,
            now,
            claimant,
            reply,
        );
        lemma_kept(s.apply_all(requests.drop_last()), requests.last());
        reveal(ProcessorState::kept_by);
    }
}

/// Two claims are never on the same policy.
pub proof fn law_claims_are_on_different_policies(s: ProcessorState, a: u128, b: u128)
    requires
        s.inv(),
        s.claims.contains_key(a),
        s.claims.contains_key(b),
        s.claims[a].policy_id == s.claims[b].policy_id,
    ensures
        a == b,
{
    lemma_inv_facts(s);
    assert(s.claim_ok(a) && s.claim_ok(b));
}

/// A claim is in the queue exactly while it is pending: settled, disputed and
/// escalated claims have left it.
pub proof fn law_queue_is_the_pending_claims(s: ProcessorState, id: u128)
    requires
        s.inv(),
    ensures
        s.pending_claims.no_duplicates(),
        s.pending_claims.contains(id) <==> s.claims.contains_key(id) && s.claims[id].status
            == ClaimStatus::Pending,
{
    reveal(ProcessorState::inv);
    assert(s.pending_claims.contains(id) <==> s.is_pending(id));
}

/// Settling is idempotent: once a claim was processed or a policy's claim
/// settled automatically, processing either again says so and settles nothing.
pub proof fn law_settling_is_idempotent(
    s: ProcessorState,
    now: u64,
    keeper: Addr,
    policy_id: u128,
    bps: Option<u32>,
    reply: Reply,
    later: u64,
    keeper2: Addr,
    bps2: Option<u32>,
    reply2: Reply,
)
    requires
        s.inv(),
        s.claim_counter() < u128::MAX,
        s.auto_process(now, keeper, policy_id, bps, reply) matches Ok((_, Step::Done(result))) && (
        result == ClaimResult::Paid || result == ClaimResult::PartiallyPaid || result
            == ClaimResult::Rejected),
    ensures
        ({
            let t = after(s, s.auto_process(now, keeper, policy_id, bps, reply));
            t.keeper_error(keeper2) is None ==> {
                &&& t.auto_process(later, keeper2, policy_id, bps2, reply2) == Ok::<_, Error>(
                    (t.demand(keeper2), Step::Done(ClaimResult::AlreadyProcessed)),
                )
                &&& t.process_claim(
                    later,
                    keeper2,
                    t.policy_claims[policy_id],
                    bps2,
                    reply2,
                ) == Ok::<_, Error>((t.demand(keeper2), Step::Done(ClaimResult::AlreadyProcessed)))
            }
        }),
{
    lemma_inv_facts(s);
    let asked = s.demand(keeper);
    lemma_same_records(s, asked);
    let policy = reply.policy->0;
    lemma_auto(asked, now, policy_id, policy, bps, reply.trigger);
}

/// Processing a claim twice settles it once.
pub proof fn law_processing_is_idempotent(
    s: ProcessorState,
    now: u64,
    keeper: Addr,
    claim_id: u128,
    bps: Option<u32>,
    reply: Reply,
    later: u64,
    keeper2: Addr,
    bps2: Option<u32>,
    reply2: Reply,
)
    requires
        s.inv(),
        s.process_claim(now, keeper, claim_id, bps, reply) matches Ok((_, Step::Done(_))),
    ensures
        ({
            let t = after(s, s.process_claim(now, keeper, claim_id, bps, reply));
            t.keeper_error(keeper2) is None ==> t.process_claim(
                later,
                keeper2,
                claim_id,
                bps2,
                reply2,
            ) == Ok::<_, Error>((t.demand(keeper2), Step::Done(ClaimResult::AlreadyProcessed)))
        }),
{
    lemma_inv_facts(s);
    let asked = s.demand(keeper);
    lemma_same_records(s, asked);
    lemma_process(asked, now, claim_id, bps, reply, 0);
}

/// A request that asks another contract something changes nothing.
pub proof fn law_asking_changes_nothing(
    s: ProcessorState,
    now: u64,
    who: Addr,
    id: u128,
    ids: Seq<u128>,
    bps: Option<u32>,
    reply: Reply,
    replies: Seq<Reply>,
    policy: Option<Policy>,
)
    ensures
        s.submit_claim(now, who, id, reply) matches Ok((t, Step::Ask { .. })) ==> t == s,
        s.batch_submit_claims(now, who, ids, replies) matches Ok((t, Step::Ask { .. })) ==> t == s,
        s.process_claim(now, who, id, bps, reply) matches Ok((t, Step::Ask { .. })) ==> t == s,
        s.batch_process_claims(now, who, ids, bps, replies) matches Ok((t, Step::Ask { .. }))
            ==> t == s,
        s.auto_process(now, who, id, bps, reply) matches Ok((t, Step::Ask { .. })) ==> t == s,
        s.claim_payout(now, id, policy) matches Ok((t, Step::Ask { .. })) ==> t == s,
{
}

/// A met trigger pays the coverage, in full by default; a share of it is never
/// more than the whole.
pub proof fn law_payout_bounds(coverage: int, bps: Option<u32>)
    requires
        coverage >= 0,
    ensures
        payout_bps(None) == 10_000,
        payout_of(coverage, payout_bps(None)) == coverage,
        0 <= payout_of(coverage, payout_bps(bps)) <= coverage,
{
    let b = payout_bps(bps);
    if b < 10_000 {
        let p = coverage * b;
        assert(0 <= p <= coverage * 10_000) by (nonlinear_arith)
            requires
                coverage >= 0,
                0 <= b <= 10_000,
                p == coverage * b,
        ;
        assert(0 <= p / 10_000 <= coverage) by (nonlinear_arith)
            requires
                0 <= p <= coverage * 10_000,
        ;
    }
}

/// A delayed payout can be collected once.
pub proof fn law_payout_is_collected_once(
    s: ProcessorState,
    now: u64,
    claim_id: u128,
    policy: Option<Policy>,
    later: u64,
    policy2: Option<Policy>,
)
    requires
        s.claim_payout(now, claim_id, policy) matches Ok((_, Step::Done(_))),
    ensures
        after(s, s.claim_payout(now, claim_id, policy)).claim_payout(later, claim_id, policy2)
            == Err::<(ProcessorState, Step<i128>), Error>(Error::PayoutDelayNotElapsed),
{
}

/// While a payout is delayed nothing is paid: settling a claim under a payout
/// delay calls neither the policy engine nor the risk pool, and the payout is
/// refused until the delay is over.
pub proof fn law_payout_waits_for_the_delay(
    s: ProcessorState,
    now: u64,
    claim: Claim,
    met: bool,
    bps: u32,
    earlier: u64,
    policy: Option<Policy>,
)
    requires
        s.payout_delay > 0,
        met,
        now + s.payout_delay <= u64::MAX,
        earlier < now + s.payout_delay,
    ensures
        ({
            let t = s.settled(now, claim, met, bps);
            &&& t.outbox.len() == s.outbox.len() + 2
            &&& t.outbox[s.outbox.len() as int] is Emit
            &&& t.outbox.last() is Emit
            &&& t.claim_payout(earlier, claim.id, policy) is Err
        }),
{
}

/// The installments paid so far never exceed the coverage.
pub proof fn law_installments_stay_within_coverage(s: ProcessorState, id: u128)
    requires
        s.inv(),
        s.claims.contains_key(id),
        s.claims[id].installments is Some,
        s.claims[id].installments->0.amount_per_installment >= 0,
        fits_i128(
            s.claims[id].installments->0.amount_per_installment
                * s.claims[id].installments->0.num_installments,
        ),
    ensures
        ({
            let schedule = s.claims[id].installments->0;
            0 <= schedule.amount_per_installment * schedule.paid_count
                <= s.claims[id].coverage_amount
        }),
{
    lemma_inv_facts(s);
    assert(s.claim_ok(id));
    let schedule = s.claims[id].installments->0;
    let a = schedule.amount_per_installment as int;
    let paid = schedule.paid_count as int;
    let n = schedule.num_installments as int;
    assert(0 <= a * paid <= a * n) by (nonlinear_arith)
        requires
            0 <= a,
            0 <= paid <= n,
    ;
}

/// What an installment payment pays is what it adds to the installments paid.
pub proof fn law_installment_amount(s: ProcessorState, now: u64, claimant: Addr, id: u128)
    requires
        s.claim_installment(now, claimant, id) is Ok,
        s.interval_ok(now, claimant, id),
        s.claims[id].installments->0.amount_per_installment >= 0,
        fits_i128(
            s.claims[id].installments->0.amount_per_installment
                * s.claims[id].installments->0.num_installments,
        ),
    ensures
        ({
            let before = s.claims[id].installments->0;
            let outcome = s.claim_installment(now, claimant, id);
            let t = after(s, outcome);
            let later = t.claims[id].installments->0;
            &&& later.paid_count > before.paid_count
            &&& outcome matches Ok((_, amount)) && amount == before.amount_per_installment
                * later.paid_count - before.amount_per_installment * before.paid_count
        }),
{
    let before = s.claims[id].installments->0;
    lemma_installments_due(before, now);
    let due = installments_due(before, now);
    let a = before.amount_per_installment as int;
    let n = before.num_installments as int;
    let d = due as int;
    let p = before.paid_count as int;
    assert(a * (d - p) == a * d - a * p) by (nonlinear_arith);
    assert(0 <= a * (d - p) <= a * n) by (nonlinear_arith)
        requires
            0 <= a,
            0 <= d - p <= n,
    ;
}

/// A dispute that is resolved puts the claim back in the queue, pending, as it
/// was but for the dispute.
pub proof fn law_resolved_dispute_is_pending(
    s: ProcessorState,
    claimant: Addr,
    admin: Addr,
    id: u128,
    reason: Sym,
)
    requires
        s.inv(),
        s.dispute_claim(claimant, id, reason) is Ok,
        s.admin == Some(admin),
    ensures
        ({
            let disputed = after(s, s.dispute_claim(claimant, id, reason));
            let t = after(disputed, disputed.resolve_dispute(admin, id));
            &&& !disputed.pending_claims.contains(id)
            &&& disputed.resolve_dispute(admin, id) is Ok
            &&& t.pending_claims.contains(id)
            &&& t.claims[id] == (Claim {
                status: ClaimStatus::Pending,
                dispute_reason: None,
                ..s.claims[id]
            })
        }),
{
    let disputed = after(s, s.dispute_claim(claimant, id, reason));
    assert(s.pending_claims.no_duplicates()) by {
        reveal(ProcessorState::inv);
    }
    lemma_remove_value(s.pending_claims, id);
    let t = after(disputed, disputed.resolve_dispute(admin, id));
    assert(t.pending_claims.last() == id);
    assert(t.pending_claims[t.pending_claims.len() - 1] == id);
}

/// In blocking mode a flagged submission is refused and leaves no trace.
pub proof fn law_blocked_submission_leaves_no_trace(
    s: ProcessorState,
    now: u64,
    claimant: Addr,
    policy_id: u128,
    policy: Policy,
)
    requires
        s.is_flagged(now, claimant, policy.coverage_amount),
        s.fraud_config matches Some(cfg) && cfg.mode == FraudMode::Block,
    ensures
        ({
            let reply = Reply { policy: Some(policy), trigger: None };
            &&& s.submit_claim(now, claimant, policy_id, reply) is Err
            &&& after(s, s.submit_claim(now, claimant, policy_id, reply)) == s
        }),
{
}

/// Without a configuration the fraud detector flags nothing.
pub proof fn law_no_detector_no_flag(s: ProcessorState, now: u64, claimant: Addr, coverage: i128)
    requires
        s.fraud_config is None,
    ensures
        s.judge(now, claimant, coverage) == (0u32, 0u32),
        !s.is_flagged(now, claimant, coverage),
{
}

/// A score is zero exactly where no rule fires, and never above the scores of
/// all three rules together. A first submission trips neither the rule on rapid
/// resubmission nor the one on coverage.
pub proof fn law_fraud_score(cfg: FraudConfig, now: u64, history: ClaimantHistory, coverage: i128)
    ensures
        fraud_score(cfg, now, history, coverage) == 0 <==> fraud_flags(cfg, now, history, coverage)
            == 0,
        fraud_flags(cfg, now, history, coverage) == 0 <==> !rate_rule(cfg, now, history)
            && !burst_rule(cfg, now, history) && !coverage_rule(cfg, history, coverage),
        fraud_flags(cfg, now, history, coverage) <= 7,
        fraud_score(cfg, now, history, coverage) <= cfg.rate_score + cfg.burst_score
            + cfg.coverage_score,
        !rate_rule(cfg, now, blank_history()),
        !coverage_rule(cfg, blank_history(), coverage),
        cfg.burst_count > 1 ==> fraud_score(cfg, now, blank_history(), coverage) == 0,
{
}

/// While guardians have to approve, the administrator alone replaces no code:
/// an upgrade only becomes pending.
pub proof fn law_guardians_hold_upgrades(
    s: ProcessorState,
    admin: Addr,
    new_wasm_hash: [u8; 32],
    new_version: u32,
)
    requires
        s.guardian_threshold > 0,
    ensures
        ({
            let t = after(s, s.upgrade(admin, new_wasm_hash, new_version));
            &&& t.version == s.version
            &&& forall|i: int|
                s.outbox.len() <= i < t.outbox.len() ==> !(#[trigger] t.outbox[i] is ReplaceCode)
        }),
{
}

/// The code is replaced on the approval of a guardian only where that approval,
/// from someone who had not approved before, makes enough of them.
pub proof fn law_enough_guardians_approve(s: ProcessorState, guardian: Addr, new_wasm_hash: [u8; 32])
    requires
        s.approve_upgrade(guardian, new_wasm_hash) is Ok,
    ensures
        ({
            let p = s.pending_upgrade->0;
            let t = after(s, s.approve_upgrade(guardian, new_wasm_hash));
            &&& s.guardians.contains(guardian)
            &&& !p.approvals.contains(guardian)
            &&& p.approvals.len() + 1 >= s.guardian_threshold ==> t.version == Some(p.new_version)
                && t.pending_upgrade is None
            &&& p.approvals.len() + 1 < s.guardian_threshold ==> t.version == s.version
                && t.pending_upgrade == Some(
                UpgradeProposal { approvals: p.approvals.push(guardian), ..p },
            )
        }),
{
}

/// Once a transfer is armed, its timelock runs from then on, whatever is asked
/// of the processor, until the transfer is accepted after its end.
pub proof fn law_timelock_cannot_be_restarted(s: ProcessorState, r: Request)
    requires
        s.inv(),
        s.has_room(r),
        s.pending_admin_since is Some,
    ensures
        s.apply(r).pending_admin_since == s.pending_admin_since || s.transfer_accepted(
            r,
            s.apply(r),
        ),
{
    lemma_kept(s, r);
    reveal(ProcessorState::kept_by);
}

/// While the processor is paused, no claim is submitted, settled, escalated or
/// paid out.
pub proof fn law_pause_halts_claims(s: ProcessorState, r: Request)
    requires
        s.paused,
        r is SubmitClaim || r is BatchSubmitClaims || r is ProcessClaim || r is BatchProcessClaims
            || r is AutoProcess || r is ScheduleInstallments || r is ClaimInstallment
            || r is ClaimPayout || r is EscalateClaim,
    ensures
        s.apply(r) == s,
{
    reveal(ProcessorState::apply);
}

/// The administrator that a request claims to come from.
pub open spec fn admin_of(r: Request) -> Option<Addr> {
    match r {
        Request::AddKeeper { admin, .. } => Some(admin),
        Request::RemoveKeeper { admin, .. } => Some(admin),
        Request::ResolveDispute { admin, .. } => Some(admin),
        Request::SetPaused { admin, .. } => Some(admin),
        Request::Upgrade { admin, .. } => Some(admin),
        Request::SetGuardians { admin, .. } => Some(admin),
        Request::CancelPendingUpgrade { admin } => Some(admin),
        Request::ProposeNewAdmin { admin, .. } => Some(admin),
        Request::SetEscalationThreshold { admin, .. } => Some(admin),
        Request::SetClaimDeadline { admin, .. } => Some(admin),
        Request::SetPayoutDelay { admin, .. } => Some(admin),
        Request::SetFraudConfig { admin, .. } => Some(admin),
        Request::RequireIdentity { admin, .. } => Some(admin),
        Request::RemoveIdentity { admin, .. } => Some(admin),
        Request::VerifyIdentity { admin, .. } => Some(admin),
        _ => None,
    }
}

/// An administrative request has an effect only where it comes from the stored
/// administrator, whose authorisation is demanded.
pub proof fn law_admin_only(s: ProcessorState, r: Request)
    requires
        admin_of(r) is Some,
        s.apply(r) != s,
    ensures
        s.admin == admin_of(r),
        s.apply(r).outbox.len() > s.outbox.len(),
        s.apply(r).outbox[s.outbox.len() as int] == Effect::RequireAuth(admin_of(r)->0),
{
    reveal(ProcessorState::apply);
}

/// Where a product asks for a verified identity, no claim on it is paid to a
/// claimant without one: a claim whose trigger is met is refused, and stays as
/// it is. One whose trigger is not met is rejected all the same, and once the
/// identity is verified the claim is settled either way.
pub proof fn law_no_payout_without_identity(
    s: ProcessorState,
    now: u64,
    keeper: Addr,
    claim_id: u128,
    bps: Option<u32>,
    policy: Policy,
    met: bool,
    admin: Addr,
    id_type: Sym,
)
    requires
        s.identity_requirements.contains_key(policy.product_id),
        s.claims.contains_key(claim_id),
        s.claims[claim_id].id == claim_id,
        s.claims[claim_id].status == ClaimStatus::Pending,
        s.is_wired(),
        s.keeper_error(keeper) is None,
    ensures
        ({
            let reply = Reply { policy: Some(policy), trigger: Some(met) };
            let outcome = s.process_claim(now, keeper, claim_id, bps, reply);
            let known = after(s, s.verify_claimant_identity(now, admin, claim_id, id_type));
            &&& met && !s.claims[claim_id].identity_verified ==> outcome == Err::<
                (ProcessorState, Step<ClaimResult>),
                Error,
            >(Error::IdentityVerificationRequired)
            &&& !met ==> (outcome matches Ok((t, Step::Done(ClaimResult::Rejected)))
                && t.claims[claim_id].status == ClaimStatus::Rejected)
            &&& s.verify_claimant_identity(now, admin, claim_id, id_type) is Ok ==> (
            known.process_claim(now, keeper, claim_id, bps, reply) matches Ok((_, Step::Done(_))))
        }),
{
}

/// Nor is a delayed payout made to such a claimant, even where the product came
/// to ask for an identity after the claim was settled.
pub proof fn law_identity_before_payout(
    s: ProcessorState,
    now: u64,
    claim_id: u128,
    policy: Policy,
)
    requires
        s.claims.contains_key(claim_id),
        !s.claims[claim_id].identity_verified,
        s.identity_requirements.contains_key(policy.product_id),
    ensures
        s.claim_payout(now, claim_id, Some(policy)) is Err,
        !(s.claim_payout(now, claim_id, None) matches Ok((_, Step::Done(_)))),
{
}

/// What the detector flags as a burst is what the history shows as one: after a
/// submission, the claimant's burst is as long as the detector allows, or
/// longer, exactly where the submission was flagged for it. The submission is
/// counted, its coverage remembered, and nobody else's history changes.
pub proof fn law_burst_is_remembered(
    s: ProcessorState,
    cfg: FraudConfig,
    now: u64,
    claimant: Addr,
    coverage: i128,
    other: Addr,
)
    requires
        s.fraud_config == Some(cfg),
        cfg.burst_window_secs > 0,
        cfg.burst_count > 0,
        cfg.burst_score > 0,
        other != claimant,
    ensures
        ({
            let h0 = s.history_of(claimant);
            let t = s.remembered(now, claimant, coverage);
            let h1 = t.history_of(claimant);
            let flags = fraud_flags(cfg, now, h0, coverage);
            &&& h1.burst_count >= cfg.burst_count <==> flags & 2 != 0
            &&& h1.last_submission_at == now
            &&& h1.total_submissions == if h0.total_submissions < u32::MAX {
                (h0.total_submissions + 1) as u32
            } else {
                u32::MAX
            }
            &&& h1.max_coverage_ever == if h0.max_coverage_ever >= coverage {
                h0.max_coverage_ever
            } else {
                coverage
            }
            &&& t.history_of(other) == s.history_of(other)
        }),
{
    let flags = fraud_flags(cfg, now, s.history_of(claimant), coverage);
    assert(flags <= 7);
    assert(flags & 2 != 0 <==> (flags == 2 || flags == 3 || flags == 6 || flags == 7))
        by (bit_vector)
        requires
            flags <= 7,
    ;
}

/// The policy engine is asked to pay exactly where the trigger was met and no
/// payout delay is set.
pub proof fn law_paid_exactly_where_met(
    s: ProcessorState,
    now: u64,
    claim: Claim,
    met: bool,
    bps: u32,
)
    ensures
        ({
            let t = s.settled(now, claim, met, bps);
            let pays = Effect::PayPolicy {
                policy_engine: s.policy_engine->0,
                policy_id: claim.policy_id,
            };
            &&& met && s.payout_delay == 0 ==> t.outbox[s.outbox.len() as int] == pays
            &&& !met || s.payout_delay > 0 ==> forall|i: int|
                s.outbox.len() <= i < t.outbox.len() ==> !(#[trigger] t.outbox[i] is PayPolicy)
        }),
{
}

/// Only keepers settle: a request to process claims has an effect only where it
/// comes from a keeper, whose authorisation is demanded.
pub proof fn law_only_keepers_settle(s: ProcessorState, r: Request)
    requires
        r is ProcessClaim || r is AutoProcess || r is ScheduleInstallments,
        s.apply(r) != s,
    ensures
        keeper_of(r) matches Some(keeper) && s.is_keeper(keeper) && s.apply(r).outbox.len()
            > s.outbox.len() && s.apply(r).outbox[s.outbox.len() as int] == Effect::RequireAuth(
            keeper,
        ),
{
    reveal(ProcessorState::apply);
}

/// The keeper that a request claims to come from.
pub open spec fn keeper_of(r: Request) -> Option<Addr> {
    match r {
        Request::ProcessClaim { keeper, .. } => Some(keeper),
        Request::AutoProcess { keeper, .. } => Some(keeper),
        Request::ScheduleInstallments { caller, .. } => Some(caller),
        _ => None,
    }
}

} // verus!
