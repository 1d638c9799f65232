//! Governance by token holders.
//!
//! A holder of enough tokens makes a proposal; holders vote with their whole
//! balance, capped where a cap is set, which stays locked until the proposal is decided; a proposal that
//! reaches quorum and majority can be executed once its timelock is over. Each
//! method is one request, atomic: it is refused with an error and changes
//! nothing, or it takes effect and leaves in the outbox what the ledger has to
//! do for it.

pub mod accounts;
pub mod decisions;
pub mod laws;
pub mod state;
pub mod types;

use crate::arith::quotient;
use crate::common::{is_address, is_address_text, is_contract, same_hash};
use crate::governance_dao::state::{
    DEFAULT_PARTICIPATION_WINDOW, DEPOSIT_RECLAIM_TIMEOUT, DaoState, EXECUTION_WINDOW,
    FINALIZE_DELAY, MAX_IMPACT_ANALYSIS_LEN, MAX_PARTICIPATION_WINDOW, MAX_TITLE_LEN,
    MAX_VOTING_PERIOD, MIN_QUORUM_BPS, MIN_VOTING_PERIOD, ProposalRecord, TemplateRecord,
    UpgradeProposal, approval_bps, average_of, config_error, decayed_quorum, is_open, quorum_votes,
    sum_of, turnout_bps, upgrade_text,
};
use crate::governance_dao::types::{
    Argument, ContractUpgraded, DaoConfig, DaoConfigUpdated, DepositReclaimed,
    DiscussionPeriodEnded, Effect, EffectiveQuorum, Error, Event, Initialized, ParticipationHistory,
    PendingUpgrade, Proposal, ProposalCancelled, ProposalCreated, ProposalCreatedFromTemplate,
    ProposalExecuted, ProposalFinalized, ProposalKind, ProposalStatus, ProposalTemplate,
    QuorumDecayApplied, QuorumDecayConfig, QuorumDecayConfigUpdated, TemplateRegistered,
    UpgradeApproved, VoteCast, VoteChoice, VoteRecord,
};
use crate::outcome::{after, answer};
use crate::roster::Roster;
use crate::table::{Table, index_of};
use crate::text::{Addr, Sym};
use vstd::prelude::*;

verus! {

/// The governance contract.
pub struct GovernanceDao {
    pub initialized: bool,
    pub admin: Option<Addr>,
    pub config: Option<DaoConfig>,
    pub next_proposal_id: Option<u64>,
    pub proposals: Table<u64, Proposal>,
    /// The votes cast, by proposal and voter.
    pub votes: Table<(u64, Addr), VoteRecord>,
    /// The tokens locked, by proposal and voter.
    pub locked: Table<(u64, Addr), i128>,
    pub version: Option<u32>,
    pub guardians: Vec<Addr>,
    pub guardian_threshold: u32,
    pub pending_upgrade: Option<PendingUpgrade>,
    pub quorum_decay: Option<QuorumDecayConfig>,
    pub participation: ParticipationHistory,
    pub templates: Table<Sym, ProposalTemplate>,
    pub template_list: Vec<Sym>,
    /// What the ledger has to do for the calls made so far.
    pub outbox: Vec<Effect>,
}

impl View for Proposal {
    type V = ProposalRecord;

    open spec fn view(&self) -> ProposalRecord {
        ProposalRecord {
            id: self.id,
            proposer: self.proposer,
            title: self.title@,
            target: self.target,
            function: self.function,
            args: self.args@,
            deposit: self.deposit,
            status: self.status,
            votes_for: self.votes_for,
            votes_against: self.votes_against,
            votes_abstain: self.votes_abstain,
            created_at: self.created_at,
            vote_end: self.vote_end,
            execution_time: self.execution_time,
            execution_deadline: self.execution_deadline,
            total_supply: self.total_supply,
            kind: self.kind,
            impact_analysis: self.impact_analysis@,
            verification_callback: self.verification_callback,
            execution_verified: self.execution_verified,
        }
    }
}

impl View for ProposalTemplate {
    type V = TemplateRecord;

    open spec fn view(&self) -> TemplateRecord {
        TemplateRecord {
            name: self.name,
            description: self.description@,
            min_title_len: self.min_title_len,
            required_arg_count: self.required_arg_count,
            active: self.active,
        }
    }
}

impl View for PendingUpgrade {
    type V = UpgradeProposal;

    open spec fn view(&self) -> UpgradeProposal {
        UpgradeProposal {
            new_wasm_hash: self.new_wasm_hash,
            new_version: self.new_version,
            approvals: self.approvals@,
        }
    }
}

impl View for GovernanceDao {
    type V = DaoState;

    open spec fn view(&self) -> DaoState {
        DaoState {
            initialized: self.initialized,
            admin: self.admin,
            config: self.config,
            next_proposal_id: self.next_proposal_id,
            proposals: self.proposals@.map_values(|p: Proposal| p@),
            votes: self.votes@,
            locked: self.locked@,
            version: self.version,
            guardians: self.guardians@,
            guardian_threshold: self.guardian_threshold,
            pending_upgrade: match self.pending_upgrade {
                Some(p) => Some(p@),
                None => None,
            },
            quorum_decay: self.quorum_decay,
            recent_bps: self.participation.recent_bps@,
            total_recorded: self.participation.total_recorded,
            templates: self.templates@.map_values(|t: ProposalTemplate| t@),
            template_list: self.template_list@,
            outbox: self.outbox@,
        }
    }
}

/// Refuse a configuration with a voting period or a quorum out of bounds.
fn check_config(config: &DaoConfig) -> (r: Result<(), Error>)
    ensures
        match config_error(*config) {
            Some(e) => r == Err::<(), Error>(e),
            None => r is Ok,
        },
{
    if config.voting_period < MIN_VOTING_PERIOD {
        return Err(Error::VotingPeriodTooShort);
    }
    if config.voting_period > MAX_VOTING_PERIOD {
        return Err(Error::VotingPeriodTooLong);
    }
    if config.quorum_bps < MIN_QUORUM_BPS {
        return Err(Error::QuorumTooLow);
    }
    Ok(())
}

/// The turnout of a vote in basis points of the supply.
fn turnout(total_votes: i128, total_supply: i128) -> (r: u32)
    ensures
        r == turnout_bps(total_votes as int, total_supply as int),
{
    if total_supply <= 0 {
        return 0;
    }
    match total_votes.checked_mul(10_000) {
        Some(v) => {
            let q: i128 = quotient(v, total_supply);
            if q < 0 {
                0
            } else if q > 10_000 {
                10_000
            } else {
                q as u32
            }
        },
        None => 10_000,
    }
}

/// The average of numbers, rounded down, or `None` where there are none.
fn average_participation_bps(recent_bps: &Vec<u32>) -> (r: Option<u32>)
    requires
        recent_bps@.len() <= u32::MAX,
    ensures
        r is Some <==> recent_bps@.len() > 0,
        r matches Some(a) ==> a == average_of(recent_bps@),
{
    if recent_bps.len() == 0 {
        return None;
    }
    let mut sum: u64 = 0;
    let mut i: usize = 0;
    while i < recent_bps.len()
        invariant
            i <= recent_bps@.len() <= u32::MAX,
            sum == sum_of(recent_bps@.take(i as int)),
            sum <= i * u32::MAX,
        decreases recent_bps.len() - i,
    {
        assert(recent_bps@.take(i + 1).drop_last() =~= recent_bps@.take(i as int));
        assert(i * u32::MAX + u32::MAX == (i + 1) * u32::MAX) by (nonlinear_arith);
        assert((i + 1) * u32::MAX <= u32::MAX * u32::MAX) by (nonlinear_arith)
            requires
                i + 1 <= u32::MAX,
        ;
        sum = sum + recent_bps[i] as u64;
        i += 1;
    }
    assert(recent_bps@.take(i as int) =~= recent_bps@);
    let n: u64 = recent_bps.len() as u64;
    assert(sum as int / n as int <= u32::MAX) by (nonlinear_arith)
        requires
            0 <= sum <= n * u32::MAX,
            n > 0,
    ;
    Some((sum / n) as u32)
}

/// Whether a proposal of this status waits for its decision.
fn is_open_status(status: ProposalStatus) -> (r: bool)
    ensures
        r == is_open(status),
{
    status == ProposalStatus::Discussion || status == ProposalStatus::Active
}

/// Whether the votes on `p` can be added up.
fn tally_computable(p: &Proposal) -> (r: bool)
    ensures
        r == p@.tally_fits(),
{
    match p.votes_for.checked_add(p.votes_against) {
        Some(partisan) => partisan.checked_add(p.votes_abstain).is_some(),
        None => false,
    }
}

/// Whether enough of the supply voted on `p`, and enough of those who took a
/// side were in favour.
fn carries(p: &Proposal, quorum_bps: u32, majority_bps: u32) -> (r: bool)
    requires
        p@.tally_fits(),
    ensures
        r == p@.carries(quorum_bps, majority_bps),
{
    let partisan: i128 = p.votes_for + p.votes_against;
    let total_votes: i128 = partisan + p.votes_abstain;
    let needed: i128 = match p.total_supply.checked_mul(quorum_bps as i128) {
        Some(v) => quotient(v, 10_000),
        None => i128::MAX,
    };
    assert(needed == quorum_votes(p.total_supply as int, quorum_bps));
    if total_votes == 0 || total_votes < needed || partisan <= 0 {
        false
    } else {
        let for_bps: i128 = match p.votes_for.checked_mul(10_000) {
            Some(v) => quotient(v, partisan),
            None => 0,
        };
        assert(for_bps == approval_bps(p.votes_for as int, p.votes_against as int));
        for_bps >= majority_bps as i128
    }
}

impl GovernanceDao {
    /// A DAO that nothing was stored in.
    pub fn new() -> (r: GovernanceDao)
        ensures
            r@ == DaoState::fresh(),
    {
        let r = GovernanceDao {
            initialized: false,
            admin: None,
            config: None,
            next_proposal_id: None,
            proposals: Table::new(),
            votes: Table::new(),
            locked: Table::new(),
            version: None,
            guardians: Vec::new(),
            guardian_threshold: 0,
            pending_upgrade: None,
            quorum_decay: None,
            participation: ParticipationHistory { recent_bps: Vec::new(), total_recorded: 0 },
            templates: Table::new(),
            template_list: Vec::new(),
            outbox: Vec::new(),
        };
        assert(r@ =~= DaoState::fresh());
        r
    }

    fn send(&mut self, e: Effect)
        ensures
            final(self)@ == old(self)@.send(e),
            final(self).proposals == old(self).proposals,
    {
        self.outbox.push(e);
        assert(self@ =~= old(self)@.send(e));
    }

    fn emit(&mut self, e: Event)
        ensures
            final(self)@ == old(self)@.emit(e),
            final(self).proposals == old(self).proposals,
    {
        self.send(Effect::Emit(e));
    }

    fn demand(&mut self, who: Addr)
        ensures
            final(self)@ == old(self)@.demand(who),
            final(self).proposals == old(self).proposals,
    {
        self.send(Effect::RequireAuth(who));
    }

    fn require_admin(&self, caller: &Addr) -> (r: Result<(), Error>)
        ensures
            match self@.admin_error(*caller) {
                Some(e) => r == Err::<(), Error>(e),
                None => r is Ok,
            },
    {
        match self.admin {
            None => Err(Error::NotInitialized),
            Some(admin) => if caller.same(&admin) {
                Ok(())
            } else {
                Err(Error::Unauthorized)
            },
        }
    }

    /// Refuse an address that is neither an account's nor a contract's.
    pub fn validate_stellar_address(address: &Addr) -> (r: Result<(), Error>)
        ensures
            r == if is_address_text(address@) {
                Ok(())
            } else {
                Err(Error::InvalidAddress)
            },
    {
        if is_address(address) {
            Ok(())
        } else {
            Err(Error::InvalidAddress)
        }
    }

    /// Set the DAO up, once.
    pub fn initialize(&mut self, admin: Addr, config: DaoConfig) -> (r: Result<(), Error>)
        ensures
            r == answer(old(self)@.initialize(admin, config)),
            final(self)@ == after(old(self)@, old(self)@.initialize(admin, config)),
            old(self)@.wf() ==> final(self)@.wf(),
    {
        if self.initialized {
            return Err(Error::AlreadyInitialized);
        }
        if !is_address(&admin) || !is_contract(&config.gov_token) {
            return Err(Error::InvalidAddress);
        }
        match check_config(&config) {
            Err(e) => {
                return Err(e);
            },
            Ok(()) => {},
        }
        self.initialized = true;
        self.admin = Some(admin);
        self.config = Some(config);
        self.next_proposal_id = Some(0);
        self.emit(Event::Initialized(Initialized { admin, gov_token: config.gov_token }));
        assert(self@ =~= after(old(self)@, old(self)@.initialize(admin, config)));
        Ok(())
    }

    /// Put a proposal under its number.
    fn put_proposal(&mut self, id: u64, p: Proposal)
        ensures
            final(self)@ == old(self)@.with_proposal(id, p@),
    {
        self.proposals.insert(id, p);
        assert(self@ =~= old(self)@.with_proposal(id, p@));
    }

    /// Take a proposal out, to put it back changed.
    fn take_proposal(&mut self, id: u64) -> (p: Proposal)
        requires
            old(self)@.proposals.contains_key(id),
        ensures
            p@ == old(self)@.proposals[id],
            final(self)@ == (DaoState { proposals: old(self)@.proposals.remove(id), ..old(self)@ }),
    {
        let p = self.proposals.remove(&id);
        assert(self@ =~= (DaoState { proposals: old(self)@.proposals.remove(id), ..old(self)@ }));
        p.unwrap()
    }

    fn propose(
        &mut self,
        now: u64,
        proposer: Addr,
        title: Vec<u8>,
        target: Addr,
        function: Sym,
        args: Vec<Argument>,
        kind: ProposalKind,
        impact_analysis: Vec<u8>,
        balance: i128,
    ) -> (r: Result<u64, Error>)
        ensures
            r == answer(
                old(self)@.propose(
                    now,
                    proposer,
                    title@,
                    target,
                    function,
                    args@,
                    kind,
                    impact_analysis@,
                    balance,
                ),
            ),
            final(self)@ == after(
                old(self)@,
                old(self)@.propose(
                    now,
                    proposer,
                    title@,
                    target,
                    function,
                    args@,
                    kind,
                    impact_analysis@,
                    balance,
                ),
            ),
            old(self)@.wf() ==> final(self)@.wf(),
    {
        match Self::validate_stellar_address(&target) {
            Err(e) => {
                return Err(e);
            },
            Ok(()) => {},
        }
        if title.len() > MAX_TITLE_LEN {
            return Err(Error::TitleTooLong);
        }
        if impact_analysis.len() == 0 {
            return Err(Error::ImpactAnalysisMissing);
        }
        if impact_analysis.len() > MAX_IMPACT_ANALYSIS_LEN {
            return Err(Error::ImpactAnalysisTooLong);
        }
        let config = match self.config {
            Some(c) => c,
            None => {
                return Err(Error::NotInitialized);
            },
        };
        if balance < config.proposal_threshold {
            return Err(Error::InsufficientWeight);
        }
        let deposit: i128 = config.proposal_threshold;
        let id: u64 = self.proposal_count();
        let next: u64 = match id.checked_add(1) {
            Some(n) => n,
            None => {
                return Err(Error::LimitReached);
            },
        };
        let created_at: u64 = now.saturating_add(config.discussion_period);
        let vote_end: u64 = created_at.saturating_add(config.voting_period);
        let proposal = Proposal {
            id,
            proposer,
            title,
            target,
            function,
            args,
            deposit,
            status: if config.discussion_period == 0 {
                ProposalStatus::Active
            } else {
                ProposalStatus::Discussion
            },
            votes_for: 0,
            votes_against: 0,
            votes_abstain: 0,
            created_at,
            vote_end,
            execution_time: 0,
            execution_deadline: vote_end.saturating_add(FINALIZE_DELAY).saturating_add(
                EXECUTION_WINDOW,
            ),
            total_supply: config.total_supply,
            kind,
            impact_analysis,
            verification_callback: None,
            execution_verified: false,
        };
        self.put_proposal(id, proposal);
        self.next_proposal_id = Some(next);
        self.demand(proposer);
        self.send(Effect::Collect { token: config.gov_token, from: proposer, amount: deposit });
        self.emit(
            Event::ProposalCreated(
                ProposalCreated { proposal_id: id, proposer, target, function },
            ),
        );
        assert(self@ =~= after(
            old(self)@,
            old(self)@.propose(
                now,
                proposer,
                title@,
                target,
                function,
                args@,
                kind,
                impact_analysis@,
                balance,
            ),
        ));
        Ok(id)
    }

    /// Propose a call of `target`, with an analysis of its impact. The proposer,
    /// who holds `balance` tokens, deposits the proposal threshold.
    pub fn create_proposal(
        &mut self,
        now: u64,
        proposer: Addr,
        title: Vec<u8>,
        target: Addr,
        function: Sym,
        args: Vec<Argument>,
        impact_analysis: Vec<u8>,
        balance: i128,
    ) -> (r: Result<u64, Error>)
        ensures
            r == answer(
                old(self)@.create_proposal(
                    now,
                    proposer,
                    title@,
                    target,
                    function,
                    args@,
                    impact_analysis@,
                    balance,
                ),
            ),
            final(self)@ == after(
                old(self)@,
                old(self)@.create_proposal(
                    now,
                    proposer,
                    title@,
                    target,
                    function,
                    args@,
                    impact_analysis@,
                    balance,
                ),
            ),
            old(self)@.wf() ==> final(self)@.wf(),
    {
        self.propose(
            now,
            proposer,
            title,
            target,
            function,
            args,
            ProposalKind::Standard,
            impact_analysis,
            balance,
        )
    }

    /// Propose that the code of `target` be replaced. The target has to know
    /// the DAO as its administrator.
    pub fn propose_upgrade(
        &mut self,
        now: u64,
        proposer: Addr,
        title: Vec<u8>,
        target: Addr,
        new_wasm_hash: [u8; 32],
        impact_analysis: Vec<u8>,
        balance: i128,
    ) -> (r: Result<u64, Error>)
        ensures
            r == answer(
                old(self)@.propose_upgrade(
                    now,
                    proposer,
                    title@,
                    target,
                    new_wasm_hash,
                    impact_analysis@,
                    balance,
                ),
            ),
            final(self)@ == after(
                old(self)@,
                old(self)@.propose_upgrade(
                    now,
                    proposer,
                    title@,
                    target,
                    new_wasm_hash,
                    impact_analysis@,
                    balance,
                ),
            ),
            old(self)@.wf() ==> final(self)@.wf(),
    {
        let text: [u8; 7] = [117, 112, 103, 114, 97, 100, 101];
        assert(text@ =~= upgrade_text());
        let function = Sym::new(&text).unwrap();
        let args: Vec<Argument> = vec![Argument::Dao, Argument::CodeHash(new_wasm_hash)];
        assert(args@ =~= seq![Argument::Dao, Argument::CodeHash(new_wasm_hash)]);
        self.propose(
            now,
            proposer,
            title,
            target,
            function,
            args,
            ProposalKind::Upgrade,
            impact_analysis,
            balance,
        )
    }

    /// Propose a call of `target` in the form that a template prescribes.
    pub fn create_proposal_from_template(
        &mut self,
        now: u64,
        proposer: Addr,
        template_name: Sym,
        title: Vec<u8>,
        target: Addr,
        function: Sym,
        args: Vec<Argument>,
        impact_analysis: Vec<u8>,
        balance: i128,
    ) -> (r: Result<u64, Error>)
        ensures
            r == answer(
                old(self)@.create_proposal_from_template(
                    now,
                    proposer,
                    template_name,
                    title@,
                    target,
                    function,
                    args@,
                    impact_analysis@,
                    balance,
                ),
            ),
            final(self)@ == after(
                old(self)@,
                old(self)@.create_proposal_from_template(
                    now,
                    proposer,
                    template_name,
                    title@,
                    target,
                    function,
                    args@,
                    impact_analysis@,
                    balance,
                ),
            ),
            old(self)@.wf() ==> final(self)@.wf(),
    {
        match self.templates.get(&template_name) {
            Some(template) => {
                if !template.active {
                    return Err(Error::TemplateInactive);
                }
                if (title.len() as u64) < template.min_title_len as u64 {
                    return Err(Error::TitleTooShort);
                }
                if args.len() as u64 != template.required_arg_count as u64 {
                    return Err(Error::ArgCountMismatch);
                }
            },
            None => {
                return Err(Error::TemplateNotFound);
            },
        }
        let r = self.create_proposal(
            now,
            proposer,
            title,
            target,
            function,
            args,
            impact_analysis,
            balance,
        );
        match r {
            Ok(proposal_id) => {
                self.emit(
                    Event::ProposalCreatedFromTemplate(
                        ProposalCreatedFromTemplate { proposal_id, template_name },
                    ),
                );
            },
            Err(_) => {},
        }
        r
    }

    /// Why a vote is refused.
    fn vote_error(&self, now: u64, voter: &Addr, proposal_id: u64, balance: i128) -> (r: Option<
        Error,
    >)
        ensures
            r == self@.vote_error(now, *voter, proposal_id, balance),
    {
        match self.proposals.get(&proposal_id) {
            Some(p) => {
                assert(p@ == self@.proposals[proposal_id]);
                if !is_open_status(p.status) || now < p.created_at {
                    return Some(Error::ProposalNotActive);
                }
                if now > p.vote_end {
                    return Some(Error::VotingClosed);
                }
            },
            None => {
                return Some(Error::ProposalNotFound);
            },
        }
        if self.votes.contains(&(proposal_id, *voter)) {
            return Some(Error::AlreadyVoted);
        }
        if balance <= 0 {
            return Some(Error::InsufficientWeight);
        }
        None
    }

    /// The weight that a vote of someone who holds `balance` tokens carries.
    fn cast_weight(&self, balance: i128) -> (r: i128)
        ensures
            r == self@.cast_weight(balance),
    {
        match self.config {
            Some(config) => if config.vote_weight_cap > 0 && balance > config.vote_weight_cap {
                config.vote_weight_cap
            } else {
                balance
            },
            None => balance,
        }
    }

    /// Whether a vote that is not refused can be added to those for the same
    /// choice.
    pub fn vote_computable(
        &self,
        now: u64,
        voter: Addr,
        proposal_id: u64,
        choice: VoteChoice,
        balance: i128,
    ) -> (r: bool)
        ensures
            r == (self@.vote_error(now, voter, proposal_id, balance) is None ==> self@.vote_fits(
                proposal_id,
                choice,
                balance,
            )),
    {
        if self.vote_error(now, &voter, proposal_id, balance).is_some() {
            return true;
        }
        let weight: i128 = self.cast_weight(balance);
        match self.proposals.get(&proposal_id) {
            Some(p) => {
                assert(p@ == self@.proposals[proposal_id]);
                let sum = match choice {
                    VoteChoice::For => p.votes_for.checked_add(weight),
                    VoteChoice::Against => p.votes_against.checked_add(weight),
                    VoteChoice::Abstain => p.votes_abstain.checked_add(weight),
                };
                sum.is_some()
            },
            None => true,
        }
    }

    /// Vote on a proposal. The whole `balance` of the voter is locked, and counts
    /// up to the cap on weights. Everyone votes at most once per proposal, and
    /// not before its discussion is over.
    pub fn vote(
        &mut self,
        now: u64,
        voter: Addr,
        proposal_id: u64,
        choice: VoteChoice,
        balance: i128,
    ) -> (r: Result<(), Error>)
        requires
            old(self)@.wf(),
            old(self)@.vote_error(now, voter, proposal_id, balance) is None
                ==> old(self)@.vote_fits(proposal_id, choice, balance),
        ensures
            r == answer(old(self)@.vote(now, voter, proposal_id, choice, balance)),
            final(self)@ == after(
                old(self)@,
                old(self)@.vote(now, voter, proposal_id, choice, balance),
            ),
            final(self)@.wf(),
    {
        match self.vote_error(now, &voter, proposal_id, balance) {
            Some(e) => {
                return Err(e);
            },
            None => {},
        }
        assert(self@.proposals.contains_key(proposal_id));
        let token = self.config.unwrap().gov_token;
        let weight: i128 = self.cast_weight(balance);
        let mut proposal = self.take_proposal(proposal_id);
        let in_discussion = proposal.status == ProposalStatus::Discussion;
        proposal.status = ProposalStatus::Active;
        match choice {
            VoteChoice::For => {
                proposal.votes_for = proposal.votes_for + weight;
            },
            VoteChoice::Against => {
                proposal.votes_against = proposal.votes_against + weight;
            },
            VoteChoice::Abstain => {
                proposal.votes_abstain = proposal.votes_abstain + weight;
            },
        }
        assert(proposal@ =~= DaoState::counted(old(self)@.proposals[proposal_id], choice, weight));
        self.put_proposal(proposal_id, proposal);
        self.locked.insert((proposal_id, voter), balance);
        self.votes.insert((proposal_id, voter), VoteRecord { voter, choice, weight });
        if in_discussion {
            self.emit(Event::DiscussionPeriodEnded(DiscussionPeriodEnded { proposal_id }));
        }
        self.demand(voter);
        self.send(Effect::Collect { token, from: voter, amount: balance });
        self.emit(Event::VoteCast(VoteCast { proposal_id, voter, choice, weight }));
        assert(self@ =~= after(
            old(self)@,
            old(self)@.vote(now, voter, proposal_id, choice, balance),
        ));
        Ok(())
    }

    /// Give a voter back what was locked on a proposal, once it is decided.
    pub fn withdraw_tokens(&mut self, voter: Addr, proposal_id: u64) -> (r: Result<(), Error>)
        requires
            old(self)@.wf(),
        ensures
            r == answer(old(self)@.withdraw_tokens(voter, proposal_id)),
            final(self)@ == after(old(self)@, old(self)@.withdraw_tokens(voter, proposal_id)),
            final(self)@.wf(),
    {
        match self.proposals.get(&proposal_id) {
            Some(p) => {
                assert(p@ == self@.proposals[proposal_id]);
                if is_open_status(p.status) {
                    return Err(Error::ProposalNotActive);
                }
            },
            None => {
                return Err(Error::ProposalNotFound);
            },
        }
        let amount: i128 = match self.locked.get(&(proposal_id, voter)) {
            Some(a) => *a,
            None => 0,
        };
        if amount <= 0 {
            return Err(Error::InsufficientWeight);
        }
        assert(self@.proposals.contains_key(proposal_id));
        let token = self.config.unwrap().gov_token;
        let _ = self.locked.remove(&(proposal_id, voter));
        self.demand(voter);
        self.send(Effect::Pay { token, to: voter, amount });
        self.emit(Event::TokensWithdrawn { proposal_id, voter, amount });
        assert(self@ =~= after(old(self)@, old(self)@.withdraw_tokens(voter, proposal_id)));
        Ok(())
    }

    fn quorum_decay_config(&self) -> (r: QuorumDecayConfig)
        ensures
            r == self@.decay(),
    {
        match self.quorum_decay {
            Some(d) => d,
            None => QuorumDecayConfig {
                enabled: false,
                floor_bps: MIN_QUORUM_BPS,
                decay_per_period_bps: 0,
                window: 0,
            },
        }
    }

    fn effective_quorum(&self, config: &DaoConfig) -> (r: EffectiveQuorum)
        requires
            self@.wf(),
        ensures
            r == self@.effective_quorum(*config),
    {
        let base_bps: u32 = config.quorum_bps;
        let decay = self.quorum_decay_config();
        let avg = average_participation_bps(&self.participation.recent_bps);
        let avg_bps: u32 = match avg {
            Some(a) => a,
            None => 0,
        };
        if !decay.enabled || avg.is_none() || avg_bps >= base_bps {
            return EffectiveQuorum {
                quorum_bps: base_bps,
                base_bps,
                avg_participation_bps: avg_bps,
                decayed: false,
            };
        }
        let shortfall: u32 = base_bps - avg_bps;
        let step: u32 = if decay.decay_per_period_bps == 0 {
            1
        } else {
            decay.decay_per_period_bps
        };
        let steps: u32 = shortfall / step;
        proof {
            let d = decay.decay_per_period_bps as int;
            let k = steps as int;
            let s = shortfall as int;
            assert(k == s / (step as int));
            assert(k * (step as int) <= s) by (nonlinear_arith)
                requires
                    k == s / (step as int),
                    step > 0,
                    s >= 0,
            ;
            assert(0 <= k * d <= k * (step as int)) by (nonlinear_arith)
                requires
                    0 <= d <= step,
                    k >= 0,
            ;
        }
        let reduction: u32 = steps * decay.decay_per_period_bps;
        let lowered: u32 = base_bps - reduction;
        let quorum_bps: u32 = if lowered >= decay.floor_bps {
            lowered
        } else {
            decay.floor_bps
        };
        assert(quorum_bps == decayed_quorum(base_bps, avg_bps, decay));
        EffectiveQuorum {
            quorum_bps,
            base_bps,
            avg_participation_bps: avg_bps,
            decayed: quorum_bps < base_bps,
        }
    }

    fn record_participation(&mut self, total_votes: i128, total_supply: i128)
        requires
            old(self)@.wf(),
        ensures
            final(self)@ == old(self)@.recorded(total_votes as int, total_supply as int),
            final(self)@.wf(),
    {
        let decay = self.quorum_decay_config();
        let window: u32 = if decay.window == 0 {
            DEFAULT_PARTICIPATION_WINDOW
        } else {
            decay.window
        };
        let ghost all = self@.recent_bps.push(
            turnout_bps(total_votes as int, total_supply as int),
        );
        self.participation.recent_bps.push(turnout(total_votes, total_supply));
        let n: usize = self.participation.recent_bps.len();
        if n > window as usize {
            let kept = self.participation.recent_bps.split_off(n - window as usize);
            self.participation.recent_bps = kept;
        }
        self.participation.total_recorded = self.participation.total_recorded.saturating_add(1);
        assert(self@ =~= old(self)@.recorded(total_votes as int, total_supply as int));
    }

    /// Whether the votes on a proposal can be counted at `now`: no sum of
    /// theirs, and no time that follows from them, is too large for a number.
    pub fn finalize_computable(&self, now: u64, proposal_id: u64) -> (r: bool)
        requires
            self@.wf(),
        ensures
            r == self@.finalize_fits(now, proposal_id),
    {
        match self.proposals.get(&proposal_id) {
            Some(p) => {
                assert(p@ == self@.proposals[proposal_id]);
                if !is_open_status(p.status) {
                    return true;
                }
                if p.vote_end > u64::MAX - FINALIZE_DELAY {
                    return false;
                }
                if now <= p.vote_end + FINALIZE_DELAY {
                    return true;
                }
                if !tally_computable(p) {
                    return false;
                }
                let config = self.config.unwrap();
                let quorum = self.effective_quorum(&config);
                !carries(p, quorum.quorum_bps, config.majority_bps) || now
                    <= u64::MAX - config.proposal_timelock
            },
            None => true,
        }
    }

    /// Count the votes on a proposal and decide it, some time after voting has
    /// closed. The deposit goes back to the proposer either way.
    pub fn finalize(&mut self, now: u64, proposal_id: u64) -> (r: Result<(), Error>)
        requires
            old(self)@.wf(),
            old(self)@.finalize_fits(now, proposal_id),
        ensures
            r == answer(old(self)@.finalize(now, proposal_id)),
            final(self)@ == after(old(self)@, old(self)@.finalize(now, proposal_id)),
            final(self)@.wf(),
    {
        let config;
        let quorum;
        let (proposer, deposit, total_votes, total_supply, passed) = match self.proposals.get(
            &proposal_id,
        ) {
            Some(p) => {
                assert(p@ == self@.proposals[proposal_id]);
                if !is_open_status(p.status) {
                    return Err(Error::ProposalNotActive);
                }
                if now <= p.vote_end + FINALIZE_DELAY {
                    return Err(Error::FinalizeDelayNotMet);
                }
                config = self.config.unwrap();
                quorum = self.effective_quorum(&config);
                (
                    p.proposer,
                    p.deposit,
                    p.votes_for + p.votes_against + p.votes_abstain,
                    p.total_supply,
                    carries(p, quorum.quorum_bps, config.majority_bps),
                )
            },
            None => {
                return Err(Error::ProposalNotFound);
            },
        };
        let ghost before = self@.proposals[proposal_id];
        if quorum.decayed {
            self.emit(
                Event::QuorumDecayApplied(
                    QuorumDecayApplied {
                        proposal_id,
                        base_bps: quorum.base_bps,
                        effective_bps: quorum.quorum_bps,
                        avg_participation_bps: quorum.avg_participation_bps,
                    },
                ),
            );
        }
        assert(self@ == old(self)@.quorum_noted(proposal_id));
        self.record_participation(total_votes, total_supply);
        self.send(Effect::Pay { token: config.gov_token, to: proposer, amount: deposit });
        let ghost settled = self@;
        let mut proposal = self.take_proposal(proposal_id);
        if passed {
            proposal.status = ProposalStatus::Passed;
            proposal.execution_time = now + config.proposal_timelock;
        } else {
            proposal.status = ProposalStatus::Failed;
        }
        let status = proposal.status;
        assert(proposal@ =~= old(self)@.decided(now, before));
        self.put_proposal(proposal_id, proposal);
        assert(self@ =~= settled.with_proposal(proposal_id, proposal@));
        self.emit(Event::ProposalFinalized(ProposalFinalized { proposal_id, status }));
        Ok(())
    }

    /// Whether the deposit of a proposal can be given back at `now` as far as
    /// adding up its votes goes.
    pub fn reclaim_computable(&self, now: u64, proposal_id: u64) -> (r: bool)
        ensures
            r == self@.reclaim_fits(now, proposal_id),
    {
        match self.proposals.get(&proposal_id) {
            Some(p) => {
                assert(p@ == self@.proposals[proposal_id]);
                !is_open_status(p.status) || now <= p.vote_end.saturating_add(
                    DEPOSIT_RECLAIM_TIMEOUT,
                ) || tally_computable(p)
            },
            None => true,
        }
    }

    /// Give back the deposit of a proposal that nobody finalized for a long
    /// time; the proposal has failed.
    pub fn reclaim_deposit(&mut self, now: u64, proposal_id: u64) -> (r: Result<(), Error>)
        requires
            old(self)@.wf(),
            old(self)@.reclaim_fits(now, proposal_id),
        ensures
            r == answer(old(self)@.reclaim_deposit(now, proposal_id)),
            final(self)@ == after(old(self)@, old(self)@.reclaim_deposit(now, proposal_id)),
            final(self)@.wf(),
    {
        let (proposer, deposit, total_votes, total_supply) = match self.proposals.get(
            &proposal_id,
        ) {
            Some(p) => {
                assert(p@ == self@.proposals[proposal_id]);
                if !is_open_status(p.status) {
                    return Err(Error::ProposalNotActive);
                }
                if now <= p.vote_end.saturating_add(DEPOSIT_RECLAIM_TIMEOUT) {
                    return Err(Error::ProposalNotExpired);
                }
                (
                    p.proposer,
                    p.deposit,
                    p.votes_for + p.votes_against + p.votes_abstain,
                    p.total_supply,
                )
            },
            None => {
                return Err(Error::ProposalNotFound);
            },
        };
        assert(self@.proposals.contains_key(proposal_id));
        let token = self.config.unwrap().gov_token;
        self.record_participation(total_votes, total_supply);
        self.send(Effect::Pay { token, to: proposer, amount: deposit });
        let ghost settled = self@;
        let mut proposal = self.take_proposal(proposal_id);
        proposal.status = ProposalStatus::Failed;
        self.put_proposal(proposal_id, proposal);
        assert(self@ =~= settled.with_proposal(proposal_id, proposal@));
        self.emit(
            Event::DepositReclaimed(DepositReclaimed { proposal_id, proposer, amount: deposit }),
        );
        Ok(())
    }

    /// Mark a proposal that passed as executed, once its timelock is over and
    /// before its deadline. An upgrade proposal calls its target; the call of any
    /// other is left to the caller. Where no callback is to confirm it, the
    /// execution counts as verified.
    pub fn execute(&mut self, now: u64, proposal_id: u64) -> (r: Result<(), Error>)
        ensures
            r == answer(old(self)@.execute(now, proposal_id)),
            final(self)@ == after(old(self)@, old(self)@.execute(now, proposal_id)),
            old(self)@.wf() ==> final(self)@.wf(),
    {
        let (kind, target, function) = match self.proposals.get(&proposal_id) {
            Some(p) => {
                assert(p@ == self@.proposals[proposal_id]);
                if p.status == ProposalStatus::Executed {
                    return Err(Error::AlreadyExecuted);
                }
                if p.status == ProposalStatus::Cancelled {
                    return Err(Error::AlreadyCancelled);
                }
                if p.status != ProposalStatus::Passed {
                    return Err(Error::ProposalNotPassed);
                }
                if now < p.execution_time {
                    return Err(Error::TimelockNotExpired);
                }
                if now > p.execution_deadline {
                    return Err(Error::ProposalExpired);
                }
                match Self::validate_stellar_address(&p.target) {
                    Err(e) => {
                        return Err(e);
                    },
                    Ok(()) => {},
                }
                (p.kind, p.target, p.function)
            },
            None => {
                return Err(Error::ProposalNotFound);
            },
        };
        if kind == ProposalKind::Upgrade {
            self.send(Effect::Invoke { proposal_id, target, function });
        }
        let ghost called = self@;
        let mut proposal = self.take_proposal(proposal_id);
        proposal.status = ProposalStatus::Executed;
        proposal.execution_verified = proposal.verification_callback.is_none();
        self.put_proposal(proposal_id, proposal);
        assert(self@ =~= called.with_proposal(proposal_id, proposal@));
        self.emit(Event::ProposalExecuted(ProposalExecuted { proposal_id }));
        Ok(())
    }

    /// Cancel a proposal before its voting closes, and give the deposit back.
    pub fn cancel(&mut self, now: u64, admin: Addr, proposal_id: u64) -> (r: Result<(), Error>)
        requires
            old(self)@.wf(),
        ensures
            r == answer(old(self)@.cancel(now, admin, proposal_id)),
            final(self)@ == after(old(self)@, old(self)@.cancel(now, admin, proposal_id)),
            final(self)@.wf(),
    {
        match self.require_admin(&admin) {
            Err(e) => {
                return Err(e);
            },
            Ok(()) => {},
        }
        let (proposer, deposit) = match self.proposals.get(&proposal_id) {
            Some(p) => {
                assert(p@ == self@.proposals[proposal_id]);
                if !is_open_status(p.status) {
                    return Err(Error::ProposalNotActive);
                }
                if now > p.vote_end {
                    return Err(Error::VotingClosed);
                }
                (p.proposer, p.deposit)
            },
            None => {
                return Err(Error::ProposalNotFound);
            },
        };
        assert(self@.proposals.contains_key(proposal_id));
        let token = self.config.unwrap().gov_token;
        self.demand(admin);
        let ghost asked = self@;
        let mut proposal = self.take_proposal(proposal_id);
        proposal.status = ProposalStatus::Cancelled;
        self.put_proposal(proposal_id, proposal);
        assert(self@ =~= asked.with_proposal(proposal_id, proposal@));
        self.send(Effect::Pay { token, to: proposer, amount: deposit });
        self.emit(Event::ProposalCancelled(ProposalCancelled { proposal_id }));
        Ok(())
    }

    /// Set the adaptive quorum. The floor is raised to the lowest quorum where
    /// it is below it.
    pub fn set_quorum_decay(
        &mut self,
        admin: Addr,
        enabled: bool,
        floor_bps: u32,
        decay_per_period_bps: u32,
        window: u32,
    ) -> (r: Result<(), Error>)
        ensures
            r == answer(
                old(self)@.set_quorum_decay(
                    admin,
                    enabled,
                    floor_bps,
                    decay_per_period_bps,
                    window,
                ),
            ),
            final(self)@ == after(
                old(self)@,
                old(self)@.set_quorum_decay(
                    admin,
                    enabled,
                    floor_bps,
                    decay_per_period_bps,
                    window,
                ),
            ),
            old(self)@.wf() ==> final(self)@.wf(),
    {
        match self.require_admin(&admin) {
            Err(e) => {
                return Err(e);
            },
            Ok(()) => {},
        }
        let config = match self.config {
            Some(c) => c,
            None => {
                return Err(Error::NotInitialized);
            },
        };
        if enabled && (floor_bps >= config.quorum_bps || window == 0 || window
            > MAX_PARTICIPATION_WINDOW || decay_per_period_bps == 0) {
            return Err(Error::InvalidQuorumDecay);
        }
        let floor: u32 = if floor_bps >= MIN_QUORUM_BPS {
            floor_bps
        } else {
            MIN_QUORUM_BPS
        };
        self.quorum_decay = Some(
            QuorumDecayConfig { enabled, floor_bps: floor, decay_per_period_bps, window },
        );
        self.demand(admin);
        self.emit(
            Event::QuorumDecayConfigUpdated(
                QuorumDecayConfigUpdated { enabled, floor_bps: floor, decay_per_period_bps, window },
            ),
        );
        assert(self@ =~= after(
            old(self)@,
            old(self)@.set_quorum_decay(admin, enabled, floor_bps, decay_per_period_bps, window),
        ));
        Ok(())
    }

    /// The adaptive-quorum settings.
    pub fn get_quorum_decay(&self) -> (r: QuorumDecayConfig)
        ensures
            r == self@.decay(),
    {
        self.quorum_decay_config()
    }

    /// The turnout of recent proposals.
    pub fn get_participation_history(&self) -> (r: &ParticipationHistory)
        ensures
            r.recent_bps@ == self@.recent_bps,
            r.total_recorded == self@.total_recorded,
    {
        &self.participation
    }

    /// The quorum that a proposal finalized now would need.
    pub fn get_effective_quorum(&self) -> (r: Result<EffectiveQuorum, Error>)
        requires
            self@.wf(),
        ensures
            r == match self@.config {
                Some(config) => Ok(self@.effective_quorum(config)),
                None => Err(Error::NotInitialized),
            },
    {
        match self.config {
            Some(config) => Ok(self.effective_quorum(&config)),
            None => Err(Error::NotInitialized),
        }
    }

    /// Register a proposal template, or replace the one of that name.
    pub fn register_template(
        &mut self,
        admin: Addr,
        name: Sym,
        description: Vec<u8>,
        min_title_len: u32,
        required_arg_count: u32,
    ) -> (r: Result<(), Error>)
        ensures
            r == answer(
                old(self)@.register_template(
                    admin,
                    name,
                    description@,
                    min_title_len,
                    required_arg_count,
                ),
            ),
            final(self)@ == after(
                old(self)@,
                old(self)@.register_template(
                    admin,
                    name,
                    description@,
                    min_title_len,
                    required_arg_count,
                ),
            ),
            old(self)@.wf() ==> final(self)@.wf(),
    {
        match self.require_admin(&admin) {
            Err(e) => {
                return Err(e);
            },
            Ok(()) => {},
        }
        let template = ProposalTemplate {
            name,
            description,
            min_title_len,
            required_arg_count,
            active: true,
        };
        self.templates.insert(name, template);
        if index_of(&self.template_list, &name).is_none() {
            self.template_list.push(name);
        }
        self.demand(admin);
        self.emit(
            Event::TemplateRegistered(
                TemplateRegistered { name, min_title_len, required_arg_count },
            ),
        );
        assert(self@ =~= after(
            old(self)@,
            old(self)@.register_template(
                admin,
                name,
                description@,
                min_title_len,
                required_arg_count,
            ),
        ));
        Ok(())
    }

    /// Withdraw a template from use for new proposals.
    pub fn deactivate_template(&mut self, admin: Addr, name: Sym) -> (r: Result<(), Error>)
        ensures
            r == answer(old(self)@.deactivate_template(admin, name)),
            final(self)@ == after(old(self)@, old(self)@.deactivate_template(admin, name)),
            old(self)@.wf() ==> final(self)@.wf(),
    {
        match self.require_admin(&admin) {
            Err(e) => {
                return Err(e);
            },
            Ok(()) => {},
        }
        let mut template = match self.templates.remove(&name) {
            Some(t) => t,
            None => {
                assert(self@ =~= old(self)@);
                return Err(Error::TemplateNotFound);
            },
        };
        template.active = false;
        self.templates.insert(name, template);
        self.demand(admin);
        assert(self@ =~= after(old(self)@, old(self)@.deactivate_template(admin, name)));
        Ok(())
    }

    /// The template of a name.
    pub fn get_template(&self, name: Sym) -> (r: Result<&ProposalTemplate, Error>)
        ensures
            match r {
                Ok(t) => self@.templates.contains_key(name) && t@ == self@.templates[name],
                Err(e) => !self@.templates.contains_key(name) && e == Error::TemplateNotFound,
            },
    {
        match self.templates.get(&name) {
            Some(t) => Ok(t),
            None => Err(Error::TemplateNotFound),
        }
    }

    /// The names of all templates.
    pub fn list_templates(&self) -> (r: &Vec<Sym>)
        ensures
            r@ == self@.template_list,
    {
        &self.template_list
    }

    /// The proposal with the given number.
    pub fn get_proposal(&self, proposal_id: u64) -> (r: Result<&Proposal, Error>)
        ensures
            match r {
                Ok(p) => self@.proposals.contains_key(proposal_id) && p@
                    == self@.proposals[proposal_id],
                Err(e) => !self@.proposals.contains_key(proposal_id) && e
                    == Error::ProposalNotFound,
            },
    {
        match self.proposals.get(&proposal_id) {
            Some(p) => Ok(p),
            None => Err(Error::ProposalNotFound),
        }
    }

    /// How someone voted on a proposal, if they did.
    pub fn get_vote(&self, proposal_id: u64, voter: Addr) -> (r: Option<VoteRecord>)
        ensures
            r == if self@.votes.contains_key((proposal_id, voter)) {
                Some(self@.votes[(proposal_id, voter)])
            } else {
                None
            },
    {
        match self.votes.get(&(proposal_id, voter)) {
            Some(v) => Some(*v),
            None => None,
        }
    }

    /// The configuration.
    pub fn get_config(&self) -> (r: Result<DaoConfig, Error>)
        ensures
            r == match self@.config {
                Some(c) => Ok(c),
                None => Err(Error::NotInitialized),
            },
    {
        match self.config {
            Some(c) => Ok(c),
            None => Err(Error::NotInitialized),
        }
    }

    /// The administrator.
    pub fn get_admin(&self) -> (r: Result<Addr, Error>)
        ensures
            r == match self@.admin {
                Some(a) => Ok(a),
                None => Err(Error::NotInitialized),
            },
    {
        match self.admin {
            Some(a) => Ok(a),
            None => Err(Error::NotInitialized),
        }
    }

    /// How many proposals were ever made.
    pub fn proposal_count(&self) -> (r: u64)
        ensures
            r == self@.proposal_counter(),
    {
        match self.next_proposal_id {
            Some(n) => n,
            None => 0,
        }
    }

    /// The version of the storage layout; 1 before any upgrade.
    pub fn get_version(&self) -> (r: u32)
        ensures
            r == self@.stored_version(),
    {
        match self.version {
            Some(v) => v,
            None => 1,
        }
    }

    /// Drop the upgrade that waits for approvals.
    pub fn cancel_pending_upgrade(&mut self, admin: Addr) -> (r: Result<(), Error>)
        ensures
            r == answer(old(self)@.cancel_pending_upgrade(admin)),
            final(self)@ == after(old(self)@, old(self)@.cancel_pending_upgrade(admin)),
            old(self)@.wf() ==> final(self)@.wf(),
    {
        match self.require_admin(&admin) {
            Err(e) => {
                return Err(e);
            },
            Ok(()) => {},
        }
        if self.pending_upgrade.is_none() {
            return Err(Error::NoPendingUpgrade);
        }
        self.pending_upgrade = None;
        self.demand(admin);
        assert(self@ =~= after(old(self)@, old(self)@.cancel_pending_upgrade(admin)));
        Ok(())
    }

    /// Replace the configuration. Proposals already made keep the deposit and the
    /// supply that they were made with.
    pub fn update_config(&mut self, admin: Addr, config: DaoConfig) -> (r: Result<(), Error>)
        ensures
            r == answer(old(self)@.update_config(admin, config)),
            final(self)@ == after(old(self)@, old(self)@.update_config(admin, config)),
            old(self)@.wf() ==> final(self)@.wf(),
    {
        match self.require_admin(&admin) {
            Err(e) => {
                return Err(e);
            },
            Ok(()) => {},
        }
        match check_config(&config) {
            Err(e) => {
                return Err(e);
            },
            Ok(()) => {},
        }
        self.config = Some(config);
        self.demand(admin);
        self.emit(Event::DaoConfigUpdated(
                DaoConfigUpdated {
                    gov_token: config.gov_token,
                    proposal_threshold: config.proposal_threshold,
                    total_supply: config.total_supply,
                    voting_period: config.voting_period,
                    proposal_timelock: config.proposal_timelock,
                },
            ));
        assert(self@ =~= after(old(self)@, old(self)@.update_config(admin, config)));
        Ok(())
    }

    /// Replace the code and note the new version.
    fn install(&mut self, new_wasm_hash: [u8; 32], new_version: u32)
        ensures
            final(self)@ == old(self)@.upgraded(new_wasm_hash, new_version),
    {
        let old_version: u32 = self.get_version();
        self.version = Some(new_version);
        assert(self@ =~= (DaoState { version: Some(new_version), ..old(self)@ }));
        self.send(Effect::ReplaceCode(new_wasm_hash));
        self.emit(Event::ContractUpgraded(ContractUpgraded { old_version, new_version }));
    }

    /// Replace the DAO's code: at once, or where guardians are set, once enough
    /// of them have approved.
    pub fn upgrade(&mut self, admin: Addr, new_wasm_hash: [u8; 32], new_version: u32) -> (r: Result<
        (),
        Error,
    >)
        ensures
            r == answer(old(self)@.upgrade(admin, new_wasm_hash, new_version)),
            final(self)@ == after(
                old(self)@,
                old(self)@.upgrade(admin, new_wasm_hash, new_version),
            ),
            old(self)@.wf() ==> final(self)@.wf(),
    {
        match self.require_admin(&admin) {
            Err(e) => {
                return Err(e);
            },
            Ok(()) => {},
        }
        if new_version <= self.get_version() {
            return Err(Error::VersionNotNewer);
        }
        if self.guardian_threshold == 0 {
            self.demand(admin);
            self.install(new_wasm_hash, new_version);
            return Ok(());
        }
        self.pending_upgrade = Some(
            PendingUpgrade { new_wasm_hash, new_version, approvals: Vec::new() },
        );
        self.demand(admin);
        assert(self@ =~= after(old(self)@, old(self)@.upgrade(admin, new_wasm_hash, new_version)));
        Ok(())
    }

    /// Set the guardians and how many of them have to approve a critical
    /// action; zero for none.
    pub fn set_guardians(&mut self, admin: Addr, guardians: Vec<Addr>, threshold: u32) -> (r: Result<
        (),
        Error,
    >)
        ensures
            r == answer(old(self)@.set_guardians(admin, guardians@, threshold)),
            final(self)@ == after(
                old(self)@,
                old(self)@.set_guardians(admin, guardians@, threshold),
            ),
            old(self)@.wf() ==> final(self)@.wf(),
    {
        match self.require_admin(&admin) {
            Err(e) => {
                return Err(e);
            },
            Ok(()) => {},
        }
        if threshold as u64 > guardians.len() as u64 {
            return Err(Error::InvalidThreshold);
        }
        let roster = Roster::of(&guardians);
        self.guardians = guardians;
        self.guardian_threshold = threshold;
        self.demand(admin);
        self.emit(Event::GuardiansUpdated { guardians: roster, threshold });
        assert(self@ =~= after(old(self)@, old(self)@.set_guardians(admin, guardians@, threshold)));
        Ok(())
    }

    /// The guardians.
    pub fn get_guardians(&self) -> (r: &Vec<Addr>)
        ensures
            r@ == self@.guardians,
    {
        &self.guardians
    }

    /// How many guardians have to approve a critical action.
    pub fn get_guardian_threshold(&self) -> (r: u32)
        ensures
            r == self@.guardian_threshold,
    {
        self.guardian_threshold
    }

    /// The upgrade that waits for approvals, if there is one.
    pub fn get_pending_upgrade(&self) -> (r: Option<&PendingUpgrade>)
        ensures
            match r {
                Some(p) => self@.pending_upgrade == Some(p@),
                None => self@.pending_upgrade is None,
            },
    {
        self.pending_upgrade.as_ref()
    }

    /// Approve the pending upgrade as a guardian. The approval that reaches the
    /// threshold replaces the code.
    pub fn approve_upgrade(&mut self, guardian: Addr, new_wasm_hash: [u8; 32]) -> (r: Result<
        (),
        Error,
    >)
        requires
            old(self)@.pending_upgrade matches Some(p) ==> p.approvals.len() < u32::MAX,
        ensures
            r == answer(old(self)@.approve_upgrade(guardian, new_wasm_hash)),
            final(self)@ == after(old(self)@, old(self)@.approve_upgrade(guardian, new_wasm_hash)),
            old(self)@.wf() ==> final(self)@.wf(),
    {
        if index_of(&self.guardians, &guardian).is_none() {
            return Err(Error::NotGuardian);
        }
        match &self.pending_upgrade {
            Some(p) => {
                if !same_hash(&p.new_wasm_hash, &new_wasm_hash) {
                    return Err(Error::NoPendingUpgrade);
                }
                if index_of(&p.approvals, &guardian).is_some() {
                    return Err(Error::AlreadyApprovedAction);
                }
            },
            None => {
                return Err(Error::NoPendingUpgrade);
            },
        }
        let mut taken: Option<PendingUpgrade> = None;
        std::mem::swap(&mut taken, &mut self.pending_upgrade);
        let mut pending = taken.unwrap();
        pending.approvals.push(guardian);
        let approvals: u32 = pending.approvals.len() as u32;
        let threshold: u32 = self.guardian_threshold;
        assert(self@ =~= (DaoState { pending_upgrade: None, ..old(self)@ }));
        self.demand(guardian);
        self.emit(
            Event::UpgradeApproved(
                UpgradeApproved { new_wasm_hash, approver: guardian, approvals, threshold },
            ),
        );
        if approvals >= threshold {
            self.install(new_wasm_hash, pending.new_version);
        } else {
            self.pending_upgrade = Some(pending);
        }
        assert(self@ =~= after(old(self)@, old(self)@.approve_upgrade(guardian, new_wasm_hash)));
        Ok(())
    }
}

} // verus!
