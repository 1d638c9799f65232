//! What votes and tokens add up to.

use crate::governance_dao::laws::Request;
use crate::governance_dao::state::{DaoState, ProposalRecord, is_open};
use crate::governance_dao::types::{Argument, Effect, ProposalKind, VoteChoice};
use crate::outcome::after;
use crate::sums::{lemma_total_insert, lemma_total_remove, total};
use crate::text::{Addr, Sym, sym_of};
use vstd::prelude::*;
use vstd::set_lib::lemma_len_subset;

verus! {

/// What an effect brings into the DAO of a token; out of it, below zero.
pub open spec fn flow_of(e: Effect, of: Addr) -> int {
    match e {
        Effect::Collect { token, amount, .. } => if token == of {
            amount as int
        } else {
            0
        },
        Effect::Pay { token, amount, .. } => if token == of {
            -amount
        } else {
            0
        },
        _ => 0,
    }
}

/// What effects bring into the DAO of a token on the whole.
pub open spec fn net_flow(effects: Seq<Effect>, of: Addr) -> int
    decreases effects.len(),
{
    if effects.len() == 0 {
        0
    } else {
        net_flow(effects.drop_last(), of) + flow_of(effects.last(), of)
    }
}

/// Whether a request leaves the DAO with another governance token.
pub open spec fn changes_token(s: DaoState, r: Request) -> bool {
    s.config is Some && s.apply(r).config->0.gov_token != s.config->0.gov_token
}

/// Whether none of the requests, made one after the other, leaves the DAO with
/// another governance token.
pub open spec fn keeps_token(s: DaoState, requests: Seq<Request>) -> bool
    decreases requests.len(),
{
    requests.len() > 0 ==> keeps_token(s, requests.drop_last()) && !changes_token(
        s.apply_all(requests.drop_last()),
        requests.last(),
    )
}

impl DaoState {
    /// The weights of the votes cast for `choice` on a proposal.
    pub open spec fn weights(self, id: u64, choice: VoteChoice) -> Map<(u64, Addr), int> {
        Map::new(
            |k: (u64, Addr)| self.votes.contains_key(k) && k.0 == id && self.votes[k].choice == choice,
            |k: (u64, Addr)| self.votes[k].weight as int,
        )
    }

    /// The tallies of a proposal are its votes added up.
    pub open spec fn tally_exact(self, id: u64) -> bool {
        &&& self.proposals[id].votes_for == total(self.weights(id, VoteChoice::For))
        &&& self.proposals[id].votes_against == total(self.weights(id, VoteChoice::Against))
        &&& self.proposals[id].votes_abstain == total(self.weights(id, VoteChoice::Abstain))
    }

    /// The tallies of all proposals are their votes added up.
    #[verifier::opaque]
    pub open spec fn tallied(self) -> bool {
        &&& self.votes.dom().finite()
        &&& forall|id: u64| #[trigger] self.proposals.contains_key(id) ==> self.tally_exact(id)
    }

    /// The deposits that wait for a decision.
    pub open spec fn open_deposits(self) -> Map<u64, int> {
        Map::new(
            |id: u64|
                self.proposals.contains_key(id) && is_open(self.proposals[id].status),
            |id: u64| self.proposals[id].deposit as int,
        )
    }

    /// The tokens that are locked on votes.
    pub open spec fn locked_tokens(self) -> Map<(u64, Addr), int> {
        Map::new(|k: (u64, Addr)| self.locked.contains_key(k), |k: (u64, Addr)| self.locked[k] as int)
    }

    /// What the DAO owes to proposers and voters.
    pub open spec fn owed(self) -> int {
        total(self.open_deposits()) + total(self.locked_tokens())
    }

    /// What came in of the governance token and did not go out again is what the
    /// DAO owes; before there is a token, nothing came in.
    #[verifier::opaque]
    pub open spec fn balanced(self) -> bool {
        &&& self.proposals.dom().finite()
        &&& self.locked.dom().finite()
        &&& match self.config {
            Some(config) => net_flow(self.outbox, config.gov_token) == self.owed(),
            None => self.owed() == 0 && forall|of: Addr| #[trigger] net_flow(self.outbox, of) == 0,
        }
    }

    /// Whether the two states have the same records, the same governance token
    /// and the same token flows.
    pub open spec fn same_books(self, t: DaoState) -> bool {
        &&& t.proposals == self.proposals
        &&& t.votes == self.votes
        &&& t.locked == self.locked
        &&& (t.config is Some <==> self.config is Some)
        &&& self.config is Some ==> t.config->0.gov_token == self.config->0.gov_token
        &&& forall|of: Addr| #[trigger] net_flow(t.outbox, of) == net_flow(self.outbox, of)
    }
}

broadcast proof fn lemma_flow_push(effects: Seq<Effect>, e: Effect, of: Addr)
    ensures
        #[trigger] net_flow(effects.push(e), of) == net_flow(effects, of) + flow_of(e, of),
{
    assert(effects.push(e).drop_last() =~= effects);
}

/// Nothing adds up to nothing.
proof fn lemma_total_empty<K>(m: Map<K, int>)
    requires
        forall|k: K| !#[trigger] m.contains_key(k),
    ensures
        total(m) == 0,
{
    assert(m.dom() =~= Set::empty());
}

proof fn lemma_finite(s: DaoState)
    ensures
        s.votes.dom().finite() ==> forall|id: u64, choice: VoteChoice| #[trigger]
            s.weights(id, choice).dom().finite(),
        s.proposals.dom().finite() ==> s.open_deposits().dom().finite(),
        s.locked.dom().finite() ==> s.locked_tokens().dom().finite(),
{
    if s.votes.dom().finite() {
        assert forall|id: u64, choice: VoteChoice| #[trigger]
            s.weights(id, choice).dom().finite() by {
            lemma_len_subset(s.weights(id, choice).dom(), s.votes.dom());
        }
    }
    if s.proposals.dom().finite() {
        lemma_len_subset(s.open_deposits().dom(), s.proposals.dom());
    }
    if s.locked.dom().finite() {
        lemma_len_subset(s.locked_tokens().dom(), s.locked.dom());
    }
}

proof fn lemma_same_books(s: DaoState, t: DaoState)
    requires
        s.same_books(t),
    ensures
        s.tallied() ==> t.tallied(),
        s.balanced() ==> t.balanced(),
{
    reveal(DaoState::tallied);
    reveal(DaoState::balanced);
    assert(forall|id: u64, choice: VoteChoice|
        #![trigger t.weights(id, choice)]
        t.weights(id, choice) =~= s.weights(id, choice));
    assert(t.open_deposits() =~= s.open_deposits());
    assert(t.locked_tokens() =~= s.locked_tokens());
}

proof fn lemma_settings(s: DaoState, r: Request)
    requires
        s.inv(),
        r is SetQuorumDecay || r is RegisterTemplate || r is DeactivateTemplate || r is UpdateConfig,
        r is UpdateConfig ==> !changes_token(s, r),
    ensures
        s.same_books(s.apply(r)),
{
    reveal(DaoState::apply);
    reveal(DaoState::inv);
    broadcast use lemma_flow_push;

}

proof fn lemma_upgrades(s: DaoState, r: Request)
    requires
        r is Upgrade || r is SetGuardians || r is ApproveUpgrade || r is CancelPendingUpgrade,
    ensures
        s.same_books(s.apply(r)),
{
    reveal(DaoState::apply);
    broadcast use lemma_flow_push;

}

/// Setting up gives the DAO its token; nothing came in before.
proof fn lemma_setup(s: DaoState, r: Request)
    requires
        s.inv(),
        r is Initialize,
    ensures
        s.tallied() ==> s.apply(r).tallied(),
        s.balanced() ==> s.apply(r).balanced(),
{
    reveal(DaoState::apply);
    reveal(DaoState::inv);
    reveal(DaoState::tallied);
    reveal(DaoState::balanced);
    broadcast use lemma_flow_push;

    let t = s.apply(r);
    assert(forall|id: u64, choice: VoteChoice|
        #![trigger t.weights(id, choice)]
        t.weights(id, choice) =~= s.weights(id, choice));
    assert(t.open_deposits() =~= s.open_deposits());
    assert(t.locked_tokens() =~= s.locked_tokens());
    if t != s && s.balanced() {
        let token = t.config->0.gov_token;
        assert(net_flow(s.outbox, token) == 0);
        assert(net_flow(t.outbox, token) == net_flow(s.outbox, token));
    }
}

/// A new proposal: no votes yet, and a deposit that came in.
proof fn lemma_proposed(s: DaoState, t: DaoState, id: u64)
    requires
        s.inv(),
        !s.proposals.contains_key(id),
        t.proposals == s.proposals.insert(id, t.proposals[id]),
        t.proposals.contains_key(id),
        is_open(t.proposals[id].status),
        t.proposals[id].votes_for == 0,
        t.proposals[id].votes_against == 0,
        t.proposals[id].votes_abstain == 0,
        t.votes == s.votes,
        t.locked == s.locked,
        s.config is Some,
        t.config == s.config,
        net_flow(t.outbox, s.config->0.gov_token) == net_flow(s.outbox, s.config->0.gov_token)
            + t.proposals[id].deposit,
    ensures
        s.tallied() ==> t.tallied(),
        s.balanced() ==> t.balanced(),
{
    reveal(DaoState::tallied);
    reveal(DaoState::balanced);
    reveal(DaoState::inv);
    lemma_finite(s);
    assert(forall|x: u64, choice: VoteChoice|
        #![trigger t.weights(x, choice)]
        t.weights(x, choice) =~= s.weights(x, choice));
    assert(t.locked_tokens() =~= s.locked_tokens());
    if s.tallied() {
        assert forall|x: u64| #[trigger] t.proposals.contains_key(x) implies t.tally_exact(x) by {
            if x == id {
                assert forall|k: (u64, Addr)| !(#[trigger] s.votes.contains_key(k) && k.0 == id) by {
                    if s.votes.contains_key(k) {
                        assert(s.proposals.contains_key(k.0));
                    }
                }
                lemma_total_empty(t.weights(id, VoteChoice::For));
                lemma_total_empty(t.weights(id, VoteChoice::Against));
                lemma_total_empty(t.weights(id, VoteChoice::Abstain));
            } else {
                assert(s.proposals.contains_key(x));
                assert(s.tally_exact(x));
            }
        }
    }
    if s.balanced() {
        lemma_total_insert(s.open_deposits(), id, t.proposals[id].deposit as int);
        assert(t.open_deposits() =~= s.open_deposits().insert(
            id,
            t.proposals[id].deposit as int,
        ));
    }
}

proof fn lemma_propose_adds_up(
    s: DaoState,
    now: u64,
    proposer: Addr,
    title: Seq<u8>,
    target: Addr,
    function: Sym,
    args: Seq<Argument>,
    kind: ProposalKind,
    impact_analysis: Seq<u8>,
    balance: i128,
)
    requires
        s.inv(),
    ensures
        ({
            let t = after(
                s,
                s.propose(now, proposer, title, target, function, args, kind, impact_analysis, balance),
            );
            &&& s.tallied() ==> t.tallied()
            &&& s.balanced() ==> t.balanced()
        }),
{
    broadcast use lemma_flow_push;

    let outcome = s.propose(now, proposer, title, target, function, args, kind, impact_analysis, balance);
    if outcome is Ok {
        let t = after(s, outcome);
        let id = s.proposal_counter();
        assert(!s.proposals.contains_key(id)) by {
            reveal(DaoState::inv);
        }
        assert(t.proposals =~= s.proposals.insert(id, t.proposals[id]));
        lemma_proposed(s, t, id);
    }
}

proof fn lemma_proposals(s: DaoState, r: Request)
    requires
        s.inv(),
        r is CreateProposal || r is ProposeUpgrade || r is CreateProposalFromTemplate,
    ensures
        s.tallied() ==> s.apply(r).tallied(),
        s.balanced() ==> s.apply(r).balanced(),
{
    reveal(DaoState::apply);
    broadcast use lemma_flow_push;

    match r {
        Request::CreateProposal { now, proposer, title, target, function, args, impact_analysis, balance } => {
            lemma_propose_adds_up(
                s,
                now,
                proposer,
                title,
                target,
                function,
                args,
                ProposalKind::Standard,
                impact_analysis,
                balance,
            );
        },
        Request::ProposeUpgrade { now, proposer, title, target, new_wasm_hash, impact_analysis, balance } => {
            lemma_propose_adds_up(
                s,
                now,
                proposer,
                title,
                target,
                sym_of(crate::governance_dao::state::upgrade_text()),
                seq![Argument::Dao, Argument::CodeHash(new_wasm_hash)],
                ProposalKind::Upgrade,
                impact_analysis,
                balance,
            );
        },
        Request::CreateProposalFromTemplate {
            now,
            proposer,
            template_name,
            title,
            target,
            function,
            args,
            impact_analysis,
            balance,
        } => {
            lemma_propose_adds_up(
                s,
                now,
                proposer,
                title,
                target,
                function,
                args,
                ProposalKind::Standard,
                impact_analysis,
                balance,
            );
            let u = after(
                s,
                s.create_proposal(now, proposer, title, target, function, args, impact_analysis, balance),
            );
            if s.apply(r) != s {
                lemma_same_books(u, s.apply(r));
            }
        },
        _ => {},
    }
}

/// One vote more on one tally, and its weight locked.
proof fn lemma_vote_adds_up(s: DaoState, r: Request)
    requires
        s.inv(),
        s.has_room(r),
        r is Vote,
    ensures
        s.tallied() ==> s.apply(r).tallied(),
        s.balanced() ==> s.apply(r).balanced(),
{
    reveal(DaoState::apply);
    reveal(DaoState::tallied);
    reveal(DaoState::balanced);
    reveal(DaoState::inv);
    broadcast use lemma_flow_push;

    let t = s.apply(r);
    lemma_finite(s);
    match r {
        Request::Vote { now, voter, proposal_id, choice, balance } => {
            if s.vote_error(now, voter, proposal_id, balance) is None {
                let k = (proposal_id, voter);
                let weight = s.cast_weight(balance);
                assert(!s.locked.contains_key(k));
                if s.tallied() {
                    assert forall|x: u64, c: VoteChoice| #![trigger t.weights(x, c)]
                        x != proposal_id || c != choice implies t.weights(x, c) == s.weights(x, c) by {
                        assert(t.weights(x, c) =~= s.weights(x, c));
                    }
                    lemma_total_insert(s.weights(proposal_id, choice), k, weight as int);
                    assert(t.weights(proposal_id, choice) =~= s.weights(proposal_id, choice).insert(
                        k,
                        weight as int,
                    ));
                    assert forall|x: u64| #[trigger] t.proposals.contains_key(x) implies t.tally_exact(
                        x,
                    ) by {
                        assert(s.proposals.contains_key(x));
                        assert(s.tally_exact(x));
                    }
                }
                if s.balanced() {
                    assert(t.open_deposits() =~= s.open_deposits());
                    lemma_total_insert(s.locked_tokens(), k, balance as int);
                    assert(t.locked_tokens() =~= s.locked_tokens().insert(k, balance as int));
                }
            }
        },
        _ => {},
    }
}

proof fn lemma_withdrawal_adds_up(s: DaoState, r: Request)
    requires
        s.inv(),
        r is WithdrawTokens,
    ensures
        s.tallied() ==> s.apply(r).tallied(),
        s.balanced() ==> s.apply(r).balanced(),
{
    reveal(DaoState::apply);
    reveal(DaoState::tallied);
    reveal(DaoState::balanced);
    reveal(DaoState::inv);
    broadcast use lemma_flow_push;

    let t = s.apply(r);
    lemma_finite(s);
    match r {
        Request::WithdrawTokens { voter, proposal_id } => {
            if s.withdraw_tokens(voter, proposal_id) is Ok {
                let k = (proposal_id, voter);
                assert(forall|x: u64, c: VoteChoice|
                    #![trigger t.weights(x, c)]
                    t.weights(x, c) =~= s.weights(x, c));
                if s.tallied() {
                    assert forall|x: u64| #[trigger] t.proposals.contains_key(x) implies t.tally_exact(
                        x,
                    ) by {
                        assert(s.proposals.contains_key(x));
                        assert(s.tally_exact(x));
                    }
                }
                if s.balanced() {
                    assert(t.open_deposits() =~= s.open_deposits());
                    lemma_total_remove(s.locked_tokens(), k);
                    assert(t.locked_tokens() =~= s.locked_tokens().remove(k));
                }
            }
        },
        _ => {},
    }
}

/// A proposal whose tally stays: its deposit goes back when it stops being
/// open, and only then.
proof fn lemma_decided(s: DaoState, t: DaoState, id: u64, p: ProposalRecord)
    requires
        s.proposals.contains_key(id),
        t.proposals == s.proposals.insert(id, p),
        p.votes_for == s.proposals[id].votes_for,
        p.votes_against == s.proposals[id].votes_against,
        p.votes_abstain == s.proposals[id].votes_abstain,
        p.deposit == s.proposals[id].deposit,
        !is_open(p.status),
        t.votes == s.votes,
        t.locked == s.locked,
        s.config is Some,
        t.config == s.config,
        net_flow(t.outbox, s.config->0.gov_token) == net_flow(
            s.outbox,
            s.config->0.gov_token,
        ) - if is_open(s.proposals[id].status) {
            p.deposit as int
        } else {
            0
        },
    ensures
        s.tallied() ==> t.tallied(),
        s.balanced() ==> t.balanced(),
{
    reveal(DaoState::tallied);
    reveal(DaoState::balanced);
    lemma_finite(s);
    assert(forall|x: u64, c: VoteChoice|
        #![trigger t.weights(x, c)]
        t.weights(x, c) =~= s.weights(x, c));
    assert(t.locked_tokens() =~= s.locked_tokens());
    if s.tallied() {
        assert forall|x: u64| #[trigger] t.proposals.contains_key(x) implies t.tally_exact(x) by {
            assert(s.proposals.contains_key(x));
            assert(s.tally_exact(x));
        }
    }
    if s.balanced() {
        if is_open(s.proposals[id].status) {
            lemma_total_remove(s.open_deposits(), id);
            assert(t.open_deposits() =~= s.open_deposits().remove(id));
        } else {
            assert(t.open_deposits() =~= s.open_deposits());
        }
    }
}

proof fn lemma_decision_adds_up(s: DaoState, r: Request)
    requires
        s.inv(),
        r is Finalize || r is ReclaimDeposit || r is Execute || r is Cancel,
    ensures
        s.tallied() ==> s.apply(r).tallied(),
        s.balanced() ==> s.apply(r).balanced(),
{
    reveal(DaoState::apply);
    reveal(DaoState::inv);
    broadcast use lemma_flow_push;

    let t = s.apply(r);
    match r {
        Request::Finalize { now, proposal_id } => {
            if s.finalize(now, proposal_id) is Ok {
                lemma_decided(s, t, proposal_id, t.proposals[proposal_id]);
            }
        },
        Request::ReclaimDeposit { now, proposal_id } => {
            if s.reclaim_deposit(now, proposal_id) is Ok {
                lemma_decided(s, t, proposal_id, t.proposals[proposal_id]);
            }
        },
        Request::Execute { now, proposal_id } => {
            if s.execute(now, proposal_id) is Ok {
                lemma_decided(s, t, proposal_id, t.proposals[proposal_id]);
            }
        },
        Request::Cancel { now, admin, proposal_id } => {
            if s.cancel(now, admin, proposal_id) is Ok {
                lemma_decided(s, t, proposal_id, t.proposals[proposal_id]);
            }
        },
        _ => {},
    }
}

/// A change of the configuration touches neither proposals nor votes.
proof fn lemma_votes_untouched(s: DaoState, r: Request)
    requires
        r is UpdateConfig,
    ensures
        s.tallied() ==> s.apply(r).tallied(),
{
    reveal(DaoState::apply);
    reveal(DaoState::tallied);
    let t = s.apply(r);
    assert(forall|id: u64, choice: VoteChoice|
        #![trigger t.weights(id, choice)]
        t.weights(id, choice) =~= s.weights(id, choice));
    if s.tallied() {
        assert forall|x: u64| #[trigger] t.proposals.contains_key(x) implies t.tally_exact(x) by {
            assert(s.proposals.contains_key(x));
            assert(s.tally_exact(x));
        }
    }
}

/// No request makes a tally differ from the votes on record. None that leaves
/// the governance token as it is makes what came in of it and did not go out
/// again differ from what the DAO owes.
pub proof fn law_requests_add_up(s: DaoState, r: Request)
    requires
        s.inv(),
        s.has_room(r),
    ensures
        s.tallied() ==> s.apply(r).tallied(),
        s.balanced() && !changes_token(s, r) ==> s.apply(r).balanced(),
{
    match r {
        Request::Initialize { .. } => lemma_setup(s, r),
        Request::CreateProposal { .. } => lemma_proposals(s, r),
        Request::ProposeUpgrade { .. } => lemma_proposals(s, r),
        Request::CreateProposalFromTemplate { .. } => lemma_proposals(s, r),
        Request::Vote { .. } => lemma_vote_adds_up(s, r),
        Request::WithdrawTokens { .. } => lemma_withdrawal_adds_up(s, r),
        Request::Finalize { .. } => lemma_decision_adds_up(s, r),
        Request::ReclaimDeposit { .. } => lemma_decision_adds_up(s, r),
        Request::Execute { .. } => lemma_decision_adds_up(s, r),
        Request::Cancel { .. } => lemma_decision_adds_up(s, r),
        Request::SetQuorumDecay { .. } => {
            lemma_settings(s, r);
            lemma_same_books(s, s.apply(r));
        },
        Request::RegisterTemplate { .. } => {
            lemma_settings(s, r);
            lemma_same_books(s, s.apply(r));
        },
        Request::DeactivateTemplate { .. } => {
            lemma_settings(s, r);
            lemma_same_books(s, s.apply(r));
        },
        Request::UpdateConfig { .. } => {
            if changes_token(s, r) {
                lemma_votes_untouched(s, r);
            } else {
                lemma_settings(s, r);
                lemma_same_books(s, s.apply(r));
            }
        },
        Request::Upgrade { .. } => {
            lemma_upgrades(s, r);
            lemma_same_books(s, s.apply(r));
        },
        Request::SetGuardians { .. } => {
            lemma_upgrades(s, r);
            lemma_same_books(s, s.apply(r));
        },
        Request::ApproveUpgrade { .. } => {
            lemma_upgrades(s, r);
            lemma_same_books(s, s.apply(r));
        },
        Request::CancelPendingUpgrade { .. } => {
            lemma_upgrades(s, r);
            lemma_same_books(s, s.apply(r));
        },
    }
}

/// Whatever requests a new DAO gets, the tallies of every proposal are the
/// votes on it added up.
pub proof fn law_tallies_are_the_votes(requests: Seq<Request>)
    requires
        DaoState::fresh().has_room_for_all(requests),
    ensures
        DaoState::fresh().apply_all(requests).tallied(),
    decreases requests.len(),
{
    if requests.len() == 0 {
        reveal(DaoState::tallied);
    } else {
        law_tallies_are_the_votes(requests.drop_last());
        crate::governance_dao::laws::law_inv_always(requests.drop_last());
        law_requests_add_up(DaoState::fresh().apply_all(requests.drop_last()), requests.last());
    }
}

/// Whatever requests a new DAO gets that leave it with its governance token, what
/// it collected of that token and did not pay out are the open deposits and the
/// locked votes: it can always give back what it owes, and holds nothing else.
pub proof fn law_books_balance(requests: Seq<Request>)
    requires
        DaoState::fresh().has_room_for_all(requests),
        keeps_token(DaoState::fresh(), requests),
    ensures
        DaoState::fresh().apply_all(requests).balanced(),
    decreases requests.len(),
{
    if requests.len() == 0 {
        reveal(DaoState::balanced);
        let s = DaoState::fresh();
        lemma_total_empty(s.open_deposits());
        lemma_total_empty(s.locked_tokens());
    } else {
        law_books_balance(requests.drop_last());
        crate::governance_dao::laws::law_inv_always(requests.drop_last());
        law_requests_add_up(DaoState::fresh().apply_all(requests.drop_last()), requests.last());
    }
}

} // verus!
