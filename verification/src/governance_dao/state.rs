//! The DAO's state as mathematics, and what each request does to it.

use crate::arith::{fits_i128, greatest, least, trunc_div};
use crate::common::{is_address_text, is_contract_text, or_default};
use crate::governance_dao::types::{
    Argument, ContractUpgraded, DaoConfig, DaoConfigUpdated, DepositReclaimed,
    DiscussionPeriodEnded, Effect, EffectiveQuorum, Error, Event, Initialized, ProposalCancelled,
    ProposalCreated, ProposalCreatedFromTemplate, ProposalExecuted, ProposalFinalized, ProposalKind,
    ProposalStatus, QuorumDecayApplied, QuorumDecayConfig, QuorumDecayConfigUpdated,
    TemplateRegistered, UpgradeApproved, VoteCast, VoteChoice, VoteRecord,
};
use crate::roster::roster_of;
use crate::text::{Addr, Sym, sym_of};
use vstd::prelude::*;

verus! {

/// Shortest voting period: an hour.
pub const MIN_VOTING_PERIOD: u64 = 3_600;

/// Longest voting period: thirty days.
pub const MAX_VOTING_PERIOD: u64 = 30 * 24 * 3_600;

/// Seconds after the end of voting before a proposal can be finalized: five
/// minutes.
pub const FINALIZE_DELAY: u64 = 300;

/// Seconds after the end of voting from which the deposit of a proposal that
/// nobody finalized can be reclaimed: fourteen days.
pub const DEPOSIT_RECLAIM_TIMEOUT: u64 = 14 * 24 * 3_600;

/// Seconds after the delay in which a proposal that passed can be executed:
/// seven days.
pub const EXECUTION_WINDOW: u64 = 7 * 24 * 3_600;

/// Longest title of a proposal, in bytes.
pub const MAX_TITLE_LEN: usize = 256;

/// Longest impact analysis of a proposal, in bytes.
pub const MAX_IMPACT_ANALYSIS_LEN: usize = 4096;

/// Lowest quorum, in basis points of the total supply.
pub const MIN_QUORUM_BPS: u32 = 1_000;

/// How many turnouts are remembered when no window was set.
pub const DEFAULT_PARTICIPATION_WINDOW: u32 = 5;

/// Most turnouts that can be remembered for an adaptive quorum.
pub const MAX_PARTICIPATION_WINDOW: u32 = 20;

/// A proposal, its texts as sequences.
#[verifier::ext_equal]
pub struct ProposalRecord {
    pub id: u64,
    pub proposer: Addr,
    pub title: Seq<u8>,
    pub target: Addr,
    pub function: Sym,
    pub args: Seq<Argument>,
    pub deposit: i128,
    pub status: ProposalStatus,
    pub votes_for: i128,
    pub votes_against: i128,
    pub votes_abstain: i128,
    pub created_at: u64,
    pub vote_end: u64,
    pub execution_time: u64,
    pub execution_deadline: u64,
    pub total_supply: i128,
    pub kind: ProposalKind,
    pub impact_analysis: Seq<u8>,
    pub verification_callback: Option<Sym>,
    pub execution_verified: bool,
}

/// A proposal template, its description as a sequence.
#[verifier::ext_equal]
pub struct TemplateRecord {
    pub name: Sym,
    pub description: Seq<u8>,
    pub min_title_len: u32,
    pub required_arg_count: u32,
    pub active: bool,
}

/// An upgrade that waits for guardian approvals.
#[verifier::ext_equal]
pub struct UpgradeProposal {
    pub new_wasm_hash: [u8; 32],
    pub new_version: u32,
    pub approvals: Seq<Addr>,
}

/// Everything the DAO remembers.
#[verifier::ext_equal]
pub struct DaoState {
    pub initialized: bool,
    pub admin: Option<Addr>,
    pub config: Option<DaoConfig>,
    pub next_proposal_id: Option<u64>,
    pub proposals: Map<u64, ProposalRecord>,
    /// The votes cast, by proposal and voter.
    pub votes: Map<(u64, Addr), VoteRecord>,
    /// The tokens locked, by proposal and voter.
    pub locked: Map<(u64, Addr), i128>,
    pub version: Option<u32>,
    pub guardians: Seq<Addr>,
    pub guardian_threshold: u32,
    pub pending_upgrade: Option<UpgradeProposal>,
    pub quorum_decay: Option<QuorumDecayConfig>,
    /// The turnout of recent proposals in basis points, oldest first.
    pub recent_bps: Seq<u32>,
    pub total_recorded: u64,
    pub templates: Map<Sym, TemplateRecord>,
    pub template_list: Seq<Sym>,
    pub outbox: Seq<Effect>,
}

/// Whether a proposal waits for its decision.
pub open spec fn is_open(status: ProposalStatus) -> bool {
    status == ProposalStatus::Discussion || status == ProposalStatus::Active
}

/// The weight that a vote of someone who holds `balance` tokens carries.
pub open spec fn vote_weight(balance: i128, cap: i128) -> i128 {
    if cap > 0 && balance > cap {
        cap
    } else {
        balance
    }
}

/// The text "upgrade".
pub open spec fn upgrade_text() -> Seq<u8> {
    seq![117u8, 112u8, 103u8, 114u8, 97u8, 100u8, 101u8]
}

/// What is wrong with the periods and thresholds of a configuration.
pub open spec fn config_error(config: DaoConfig) -> Option<Error> {
    if config.voting_period < MIN_VOTING_PERIOD {
        Some(Error::VotingPeriodTooShort)
    } else if config.voting_period > MAX_VOTING_PERIOD {
        Some(Error::VotingPeriodTooLong)
    } else if config.quorum_bps < MIN_QUORUM_BPS {
        Some(Error::QuorumTooLow)
    } else {
        None
    }
}

/// `a + b`, held at the end of the range.
pub open spec fn sum_u64(a: u64, b: u64) -> u64 {
    least(a + b, u64::MAX as int) as u64
}

/// All numbers added up.
pub open spec fn sum_of(s: Seq<u32>) -> nat
    decreases s.len(),
{
    if s.len() == 0 {
        0
    } else {
        sum_of(s.drop_last()) + s.last() as nat
    }
}

/// The average turnout, rounded down; zero where none is remembered.
pub open spec fn average_of(s: Seq<u32>) -> int {
    if s.len() == 0 {
        0
    } else {
        sum_of(s) as int / s.len() as int
    }
}

/// The turnout of a vote in basis points of the supply, at most all of it.
pub open spec fn turnout_bps(total_votes: int, total_supply: int) -> u32 {
    if total_supply <= 0 {
        0
    } else if !fits_i128(total_votes * 10_000) {
        10_000
    } else {
        greatest(least(trunc_div(total_votes * 10_000, total_supply), 10_000), 0) as u32
    }
}

/// The list without its oldest items, so that at most `n` are left.
pub open spec fn newest(s: Seq<u32>, n: int) -> Seq<u32> {
    if s.len() > n {
        s.subrange(s.len() - n, s.len() as int)
    } else {
        s
    }
}

/// The votes that a quorum asks for.
pub open spec fn quorum_votes(total_supply: int, quorum_bps: u32) -> int {
    if fits_i128(total_supply * quorum_bps) {
        trunc_div(total_supply * quorum_bps, 10_000)
    } else {
        i128::MAX as int
    }
}

/// The share of the For votes among For and Against, in basis points.
pub open spec fn approval_bps(votes_for: int, votes_against: int) -> int {
    if fits_i128(votes_for * 10_000) {
        trunc_div(votes_for * 10_000, votes_for + votes_against)
    } else {
        0
    }
}

impl ProposalRecord {
    /// Everyone who voted, abstentions counted.
    pub open spec fn total_votes(self) -> int {
        self.votes_for + self.votes_against + self.votes_abstain
    }

    /// Those who took a side.
    pub open spec fn partisan_votes(self) -> int {
        self.votes_for + self.votes_against
    }

    /// Whether the votes can be added up.
    pub open spec fn tally_fits(self) -> bool {
        fits_i128(self.partisan_votes()) && fits_i128(self.total_votes())
    }

    /// Whether enough of the supply voted and enough of those who took a side
    /// were in favour. Abstentions count toward the quorum only.
    pub open spec fn carries(self, quorum_bps: u32, majority_bps: u32) -> bool {
        &&& self.total_votes() != 0
        &&& self.total_votes() >= quorum_votes(self.total_supply as int, quorum_bps)
        &&& self.partisan_votes() > 0
        &&& approval_bps(self.votes_for as int, self.votes_against as int) >= majority_bps
    }
}

impl DaoState {
    /// The state before anything was stored.
    pub open spec fn fresh() -> DaoState {
        DaoState {
            initialized: false,
            admin: None,
            config: None,
            next_proposal_id: None,
            proposals: Map::empty(),
            votes: Map::empty(),
            locked: Map::empty(),
            version: None,
            guardians: Seq::empty(),
            guardian_threshold: 0,
            pending_upgrade: None,
            quorum_decay: None,
            recent_bps: Seq::empty(),
            total_recorded: 0,
            templates: Map::empty(),
            template_list: Seq::empty(),
            outbox: Seq::empty(),
        }
    }

    /// Proposals are only made under a configuration, and no more turnouts are
    /// remembered than can be counted.
    pub open spec fn wf(self) -> bool {
        &&& forall|id: u64| #[trigger] self.proposals.contains_key(id) ==> self.config is Some
        &&& self.recent_bps.len() <= u32::MAX
    }

    pub open spec fn send(self, e: Effect) -> DaoState {
        DaoState { outbox: self.outbox.push(e), ..self }
    }

    pub open spec fn emit(self, e: Event) -> DaoState {
        self.send(Effect::Emit(e))
    }

    /// The state with a demand that `who` authorised the call.
    pub open spec fn demand(self, who: Addr) -> DaoState {
        self.send(Effect::RequireAuth(who))
    }

    /// The state with governance tokens taken from `from`.
    pub open spec fn collect(self, from: Addr, amount: i128) -> DaoState {
        self.send(Effect::Collect { token: self.config->0.gov_token, from, amount })
    }

    /// The state with governance tokens given to `to`.
    pub open spec fn pay(self, to: Addr, amount: i128) -> DaoState {
        self.send(Effect::Pay { token: self.config->0.gov_token, to, amount })
    }

    pub open spec fn with_proposal(self, id: u64, p: ProposalRecord) -> DaoState {
        DaoState { proposals: self.proposals.insert(id, p), ..self }
    }

    /// Why `caller` may not act as the administrator.
    pub open spec fn admin_error(self, caller: Addr) -> Option<Error> {
        match self.admin {
            None => Some(Error::NotInitialized),
            Some(admin) => if caller == admin {
                None
            } else {
                Some(Error::Unauthorized)
            },
        }
    }

    /// The number that the next proposal gets.
    pub open spec fn proposal_counter(self) -> u64 {
        or_default(self.next_proposal_id, 0)
    }

    pub open spec fn stored_version(self) -> u32 {
        or_default(self.version, 1)
    }

    /// The adaptive-quorum settings; off by default.
    pub open spec fn decay(self) -> QuorumDecayConfig {
        or_default(
            self.quorum_decay,
            QuorumDecayConfig {
                enabled: false,
                floor_bps: MIN_QUORUM_BPS,
                decay_per_period_bps: 0,
                window: 0,
            },
        )
    }

    pub open spec fn initialize(self, admin: Addr, config: DaoConfig) -> Result<
        (DaoState, ()),
        Error,
    > {
        if self.initialized {
            Err(Error::AlreadyInitialized)
        } else if !is_address_text(admin@) || !is_contract_text(config.gov_token@) {
            Err(Error::InvalidAddress)
        } else {
            match config_error(config) {
                Some(e) => Err(e),
                None => Ok((
                    DaoState {
                        initialized: true,
                        admin: Some(admin),
                        config: Some(config),
                        next_proposal_id: Some(0),
                        ..self
                    }.emit(
                        Event::Initialized(Initialized { admin, gov_token: config.gov_token }),
                    ),
                    (),
                )),
            }
        }
    }

    /// Why a proposal is refused to someone who holds `balance` tokens.
    pub open spec fn propose_error(
        self,
        title: Seq<u8>,
        target: Addr,
        impact_analysis: Seq<u8>,
        balance: i128,
    ) -> Option<Error> {
        if !is_address_text(target@) {
            Some(Error::InvalidAddress)
        } else if title.len() > MAX_TITLE_LEN {
            Some(Error::TitleTooLong)
        } else if impact_analysis.len() == 0 {
            Some(Error::ImpactAnalysisMissing)
        } else if impact_analysis.len() > MAX_IMPACT_ANALYSIS_LEN {
            Some(Error::ImpactAnalysisTooLong)
        } else {
            match self.config {
                None => Some(Error::NotInitialized),
                Some(config) => if balance < config.proposal_threshold {
                    Some(Error::InsufficientWeight)
                } else if self.proposal_counter() == u64::MAX {
                    Some(Error::LimitReached)
                } else {
                    None
                },
            }
        }
    }

    /// A proposal of either kind.
    pub open spec fn propose(
        self,
        now: u64,
        proposer: Addr,
        title: Seq<u8>,
        target: Addr,
        function: Sym,
        args: Seq<Argument>,
        kind: ProposalKind,
        impact_analysis: Seq<u8>,
        balance: i128,
    ) -> Result<(DaoState, u64), Error> {
        match self.propose_error(title, target, impact_analysis, balance) {
            Some(e) => Err(e),
            None => {
                let config = self.config->0;
                let id = self.proposal_counter();
                let opens = sum_u64(now, config.discussion_period);
                let vote_end = sum_u64(opens, config.voting_period);
                let proposal = ProposalRecord {
                    id,
                    proposer,
                    title,
                    target,
                    function,
                    args,
                    deposit: config.proposal_threshold,
                    status: if config.discussion_period == 0 {
                        ProposalStatus::Active
                    } else {
                        ProposalStatus::Discussion
                    },
                    votes_for: 0,
                    votes_against: 0,
                    votes_abstain: 0,
                    created_at: opens,
                    vote_end,
                    execution_time: 0,
                    execution_deadline: sum_u64(
                        sum_u64(vote_end, FINALIZE_DELAY),
                        EXECUTION_WINDOW,
                    ),
                    total_supply: config.total_supply,
                    kind,
                    impact_analysis,
                    verification_callback: None,
                    execution_verified: false,
                };
                Ok((
                    DaoState {
                        next_proposal_id: Some((id + 1) as u64),
                        ..self.with_proposal(id, proposal)
                    }.demand(proposer).collect(proposer, config.proposal_threshold).emit(
                        Event::ProposalCreated(
                            ProposalCreated { proposal_id: id, proposer, target, function },
                        ),
                    ),
                    id,
                ))
            },
        }
    }

    pub open spec fn create_proposal(
        self,
        now: u64,
        proposer: Addr,
        title: Seq<u8>,
        target: Addr,
        function: Sym,
        args: Seq<Argument>,
        impact_analysis: Seq<u8>,
        balance: i128,
    ) -> Result<(DaoState, u64), Error> {
        self.propose(
            now,
            proposer,
            title,
            target,
            function,
            args,
            ProposalKind::Standard,
            impact_analysis,
            balance,
        )
    }

    pub open spec fn propose_upgrade(
        self,
        now: u64,
        proposer: Addr,
        title: Seq<u8>,
        target: Addr,
        new_wasm_hash: [u8; 32],
        impact_analysis: Seq<u8>,
        balance: i128,
    ) -> Result<(DaoState, u64), Error> {
        self.propose(
            now,
            proposer,
            title,
            target,
            sym_of(upgrade_text()),
            seq![Argument::Dao, Argument::CodeHash(new_wasm_hash)],
            ProposalKind::Upgrade,
            impact_analysis,
            balance,
        )
    }

    /// Why a proposal does not fit a template.
    pub open spec fn template_error(self, name: Sym, title: Seq<u8>, args: Seq<Argument>) -> Option<
        Error,
    > {
        if !self.templates.contains_key(name) {
            Some(Error::TemplateNotFound)
        } else {
            let template = self.templates[name];
            if !template.active {
                Some(Error::TemplateInactive)
            } else if title.len() < template.min_title_len {
                Some(Error::TitleTooShort)
            } else if args.len() != template.required_arg_count {
                Some(Error::ArgCountMismatch)
            } else {
                None
            }
        }
    }

    pub open spec fn create_proposal_from_template(
        self,
        now: u64,
        proposer: Addr,
        template_name: Sym,
        title: Seq<u8>,
        target: Addr,
        function: Sym,
        args: Seq<Argument>,
        impact_analysis: Seq<u8>,
        balance: i128,
    ) -> Result<(DaoState, u64), Error> {
        match self.template_error(template_name, title, args) {
            Some(e) => Err(e),
            None => match self.create_proposal(
                now,
                proposer,
                title,
                target,
                function,
                args,
                impact_analysis,
                balance,
            ) {
                Err(e) => Err(e),
                Ok((s, id)) => Ok((
                    s.emit(
                        Event::ProposalCreatedFromTemplate(
                            ProposalCreatedFromTemplate { proposal_id: id, template_name },
                        ),
                    ),
                    id,
                )),
            },
        }
    }

    /// Why a vote is refused to someone who holds `balance` tokens.
    pub open spec fn vote_error(self, now: u64, voter: Addr, proposal_id: u64, balance: i128) -> Option<
        Error,
    > {
        if !self.proposals.contains_key(proposal_id) {
            Some(Error::ProposalNotFound)
        } else if !is_open(self.proposals[proposal_id].status) || now
            < self.proposals[proposal_id].created_at {
            Some(Error::ProposalNotActive)
        } else if now > self.proposals[proposal_id].vote_end {
            Some(Error::VotingClosed)
        } else if self.votes.contains_key((proposal_id, voter)) {
            Some(Error::AlreadyVoted)
        } else if balance <= 0 {
            Some(Error::InsufficientWeight)
        } else {
            None
        }
    }

    /// The weight that a vote of someone who holds `balance` tokens carries.
    pub open spec fn cast_weight(self, balance: i128) -> i128 {
        match self.config {
            Some(config) => vote_weight(balance, config.vote_weight_cap),
            None => balance,
        }
    }

    /// A proposal with one more vote, for which it has to be open for voting.
    pub open spec fn counted(p: ProposalRecord, choice: VoteChoice, weight: i128) -> ProposalRecord {
        let open = ProposalRecord { status: ProposalStatus::Active, ..p };
        match choice {
            VoteChoice::For => ProposalRecord { votes_for: (p.votes_for + weight) as i128, ..open },
            VoteChoice::Against => ProposalRecord {
                votes_against: (p.votes_against + weight) as i128,
                ..open
            },
            VoteChoice::Abstain => ProposalRecord {
                votes_abstain: (p.votes_abstain + weight) as i128,
                ..open
            },
        }
    }

    /// Whether a vote can be added to the others.
    pub open spec fn vote_fits(self, proposal_id: u64, choice: VoteChoice, balance: i128) -> bool {
        self.proposals.contains_key(proposal_id) ==> {
            let p = self.proposals[proposal_id];
            let weight = self.cast_weight(balance);
            match choice {
                VoteChoice::For => fits_i128(p.votes_for + weight),
                VoteChoice::Against => fits_i128(p.votes_against + weight),
                VoteChoice::Abstain => fits_i128(p.votes_abstain + weight),
            }
        }
    }

    pub open spec fn vote(
        self,
        now: u64,
        voter: Addr,
        proposal_id: u64,
        choice: VoteChoice,
        balance: i128,
    ) -> Result<(DaoState, ()), Error> {
        match self.vote_error(now, voter, proposal_id, balance) {
            Some(e) => Err(e),
            None => {
                let weight = self.cast_weight(balance);
                Ok((
                    DaoState {
                        locked: self.locked.insert((proposal_id, voter), balance),
                        votes: self.votes.insert(
                            (proposal_id, voter),
                            VoteRecord { voter, choice, weight },
                        ),
                        ..self.opening_noted(proposal_id).with_proposal(
                            proposal_id,
                            Self::counted(self.proposals[proposal_id], choice, weight),
                        )
                    }.demand(voter).collect(voter, balance).emit(
                        Event::VoteCast(VoteCast { proposal_id, voter, choice, weight }),
                    ),
                    (),
                ))
            },
        }
    }

    /// The state with a notice, where the first vote ends the discussion.
    pub open spec fn opening_noted(self, proposal_id: u64) -> DaoState {
        if self.proposals[proposal_id].status == ProposalStatus::Discussion {
            self.emit(Event::DiscussionPeriodEnded(DiscussionPeriodEnded { proposal_id }))
        } else {
            self
        }
    }

    /// The tokens that a voter has locked on a proposal.
    pub open spec fn locked_by(self, proposal_id: u64, voter: Addr) -> i128 {
        if self.locked.contains_key((proposal_id, voter)) {
            self.locked[(proposal_id, voter)]
        } else {
            0
        }
    }

    pub open spec fn withdraw_tokens(self, voter: Addr, proposal_id: u64) -> Result<
        (DaoState, ()),
        Error,
    > {
        if !self.proposals.contains_key(proposal_id) {
            Err(Error::ProposalNotFound)
        } else if is_open(self.proposals[proposal_id].status) {
            Err(Error::ProposalNotActive)
        } else {
            let amount = self.locked_by(proposal_id, voter);
            if amount <= 0 {
                Err(Error::InsufficientWeight)
            } else {
                Ok((
                    DaoState { locked: self.locked.remove((proposal_id, voter)), ..self }.demand(
                        voter,
                    ).pay(voter, amount).emit(
                        Event::TokensWithdrawn { proposal_id, voter, amount },
                    ),
                    (),
                ))
            }
        }
    }

    /// The quorum in force: the configured one, relaxed where turnout was low
    /// and an adaptive quorum is set, but not below the floor.
    pub open spec fn effective_quorum(self, config: DaoConfig) -> EffectiveQuorum {
        let base_bps = config.quorum_bps;
        let decay = self.decay();
        let avg = average_of(self.recent_bps) as u32;
        let quorum_bps = if !decay.enabled || self.recent_bps.len() == 0 || avg >= base_bps {
            base_bps
        } else {
            decayed_quorum(base_bps, avg, decay)
        };
        EffectiveQuorum {
            quorum_bps,
            base_bps,
            avg_participation_bps: avg,
            decayed: quorum_bps < base_bps,
        }
    }

    /// The state with the turnout of a vote remembered.
    pub open spec fn recorded(self, total_votes: int, total_supply: int) -> DaoState {
        let window = if self.decay().window == 0 {
            DEFAULT_PARTICIPATION_WINDOW
        } else {
            self.decay().window
        };
        DaoState {
            recent_bps: newest(
                self.recent_bps.push(turnout_bps(total_votes, total_supply)),
                window as int,
            ),
            total_recorded: sum_u64(self.total_recorded, 1),
            ..self
        }
    }

    /// Why a proposal cannot be finalized.
    pub open spec fn finalize_error(self, now: u64, proposal_id: u64) -> Option<Error> {
        if !self.proposals.contains_key(proposal_id) {
            Some(Error::ProposalNotFound)
        } else if !is_open(self.proposals[proposal_id].status) {
            Some(Error::ProposalNotActive)
        } else if now <= self.proposals[proposal_id].vote_end + FINALIZE_DELAY {
            Some(Error::FinalizeDelayNotMet)
        } else {
            None
        }
    }

    /// Whether finalizing a proposal stays within the DAO's arithmetic.
    pub open spec fn finalize_fits(self, now: u64, proposal_id: u64) -> bool {
        self.proposals.contains_key(proposal_id) && is_open(
            self.proposals[proposal_id].status,
        ) ==> {
            let p = self.proposals[proposal_id];
            &&& p.vote_end + FINALIZE_DELAY <= u64::MAX
            &&& now > p.vote_end + FINALIZE_DELAY ==> {
                &&& p.tally_fits()
                &&& p.carries(
                    self.effective_quorum(self.config->0).quorum_bps,
                    self.config->0.majority_bps,
                ) ==> now + self.config->0.proposal_timelock <= u64::MAX
            }
        }
    }

    /// A proposal once its votes are counted.
    pub open spec fn decided(self, now: u64, p: ProposalRecord) -> ProposalRecord {
        let config = self.config->0;
        if p.carries(self.effective_quorum(config).quorum_bps, config.majority_bps) {
            ProposalRecord {
                status: ProposalStatus::Passed,
                execution_time: (now + config.proposal_timelock) as u64,
                ..p
            }
        } else {
            ProposalRecord { status: ProposalStatus::Failed, ..p }
        }
    }

    /// The state with a notice, where the quorum in force was relaxed.
    pub open spec fn quorum_noted(self, proposal_id: u64) -> DaoState {
        let q = self.effective_quorum(self.config->0);
        if q.decayed {
            self.emit(
                Event::QuorumDecayApplied(
                    QuorumDecayApplied {
                        proposal_id,
                        base_bps: q.base_bps,
                        effective_bps: q.quorum_bps,
                        avg_participation_bps: q.avg_participation_bps,
                    },
                ),
            )
        } else {
            self
        }
    }

    pub open spec fn finalize(self, now: u64, proposal_id: u64) -> Result<(DaoState, ()), Error> {
        match self.finalize_error(now, proposal_id) {
            Some(e) => Err(e),
            None => {
                let p = self.proposals[proposal_id];
                let after = self.decided(now, p);
                Ok((
                    self.quorum_noted(proposal_id).recorded(
                        p.total_votes(),
                        p.total_supply as int,
                    ).pay(p.proposer, p.deposit).with_proposal(proposal_id, after).emit(
                        Event::ProposalFinalized(
                            ProposalFinalized { proposal_id, status: after.status },
                        ),
                    ),
                    (),
                ))
            },
        }
    }

    /// Whether the votes on a proposal whose deposit is reclaimed can be added
    /// up.
    pub open spec fn reclaim_fits(self, now: u64, proposal_id: u64) -> bool {
        self.proposals.contains_key(proposal_id) && is_open(
            self.proposals[proposal_id].status,
        ) && now > sum_u64(
            self.proposals[proposal_id].vote_end,
            DEPOSIT_RECLAIM_TIMEOUT,
        ) ==> self.proposals[proposal_id].tally_fits()
    }

    pub open spec fn reclaim_deposit(self, now: u64, proposal_id: u64) -> Result<
        (DaoState, ()),
        Error,
    > {
        if !self.proposals.contains_key(proposal_id) {
            Err(Error::ProposalNotFound)
        } else {
            let p = self.proposals[proposal_id];
            if !is_open(p.status) {
                Err(Error::ProposalNotActive)
            } else if now <= sum_u64(p.vote_end, DEPOSIT_RECLAIM_TIMEOUT) {
                Err(Error::ProposalNotExpired)
            } else {
                Ok((
                    self.recorded(p.total_votes(), p.total_supply as int).pay(
                        p.proposer,
                        p.deposit,
                    ).with_proposal(
                        proposal_id,
                        ProposalRecord { status: ProposalStatus::Failed, ..p },
                    ).emit(
                        Event::DepositReclaimed(
                            DepositReclaimed {
                                proposal_id,
                                proposer: p.proposer,
                                amount: p.deposit,
                            },
                        ),
                    ),
                    (),
                ))
            }
        }
    }

    pub open spec fn execute(self, now: u64, proposal_id: u64) -> Result<(DaoState, ()), Error> {
        if !self.proposals.contains_key(proposal_id) {
            Err(Error::ProposalNotFound)
        } else {
            let p = self.proposals[proposal_id];
            if p.status == ProposalStatus::Executed {
                Err(Error::AlreadyExecuted)
            } else if p.status == ProposalStatus::Cancelled {
                Err(Error::AlreadyCancelled)
            } else if p.status != ProposalStatus::Passed {
                Err(Error::ProposalNotPassed)
            } else if now < p.execution_time {
                Err(Error::TimelockNotExpired)
            } else if now > p.execution_deadline {
                Err(Error::ProposalExpired)
            } else if !is_address_text(p.target@) {
                Err(Error::InvalidAddress)
            } else {
                let called = if p.kind == ProposalKind::Upgrade {
                    self.send(
                        Effect::Invoke { proposal_id, target: p.target, function: p.function },
                    )
                } else {
                    self
                };
                Ok((
                    called.with_proposal(
                        proposal_id,
                        ProposalRecord {
                            status: ProposalStatus::Executed,
                            execution_verified: p.verification_callback is None,
                            ..p
                        },
                    ).emit(Event::ProposalExecuted(ProposalExecuted { proposal_id })),
                    (),
                ))
            }
        }
    }

    pub open spec fn cancel(self, now: u64, admin: Addr, proposal_id: u64) -> Result<
        (DaoState, ()),
        Error,
    > {
        match self.admin_error(admin) {
            Some(e) => Err(e),
            None => if !self.proposals.contains_key(proposal_id) {
                Err(Error::ProposalNotFound)
            } else {
                let p = self.proposals[proposal_id];
                if !is_open(p.status) {
                    Err(Error::ProposalNotActive)
                } else if now > p.vote_end {
                    Err(Error::VotingClosed)
                } else {
                    Ok((
                        self.demand(admin).with_proposal(
                            proposal_id,
                            ProposalRecord { status: ProposalStatus::Cancelled, ..p },
                        ).pay(p.proposer, p.deposit).emit(
                            Event::ProposalCancelled(ProposalCancelled { proposal_id }),
                        ),
                        (),
                    ))
                }
            },
        }
    }

    pub open spec fn set_quorum_decay(
        self,
        admin: Addr,
        enabled: bool,
        floor_bps: u32,
        decay_per_period_bps: u32,
        window: u32,
    ) -> Result<(DaoState, ()), Error> {
        match self.admin_error(admin) {
            Some(e) => Err(e),
            None => match self.config {
                None => Err(Error::NotInitialized),
                Some(config) => if enabled && (floor_bps >= config.quorum_bps || window == 0
                    || window > MAX_PARTICIPATION_WINDOW || decay_per_period_bps == 0) {
                    Err(Error::InvalidQuorumDecay)
                } else {
                    let floor = greatest(floor_bps as int, MIN_QUORUM_BPS as int) as u32;
                    Ok((
                        DaoState {
                            quorum_decay: Some(
                                QuorumDecayConfig {
                                    enabled,
                                    floor_bps: floor,
                                    decay_per_period_bps,
                                    window,
                                },
                            ),
                            ..self
                        }.demand(admin).emit(
                            Event::QuorumDecayConfigUpdated(
                                QuorumDecayConfigUpdated {
                                    enabled,
                                    floor_bps: floor,
                                    decay_per_period_bps,
                                    window,
                                },
                            ),
                        ),
                        (),
                    ))
                },
            },
        }
    }

    pub open spec fn register_template(
        self,
        admin: Addr,
        name: Sym,
        description: Seq<u8>,
        min_title_len: u32,
        required_arg_count: u32,
    ) -> Result<(DaoState, ()), Error> {
        match self.admin_error(admin) {
            Some(e) => Err(e),
            None => Ok((
                DaoState {
                    templates: self.templates.insert(
                        name,
                        TemplateRecord {
                            name,
                            description,
                            min_title_len,
                            required_arg_count,
                            active: true,
                        },
                    ),
                    template_list: if self.template_list.contains(name) {
                        self.template_list
                    } else {
                        self.template_list.push(name)
                    },
                    ..self
                }.demand(admin).emit(
                    Event::TemplateRegistered(
                        TemplateRegistered { name, min_title_len, required_arg_count },
                    ),
                ),
                (),
            )),
        }
    }

    pub open spec fn deactivate_template(self, admin: Addr, name: Sym) -> Result<
        (DaoState, ()),
        Error,
    > {
        match self.admin_error(admin) {
            Some(e) => Err(e),
            None => if !self.templates.contains_key(name) {
                Err(Error::TemplateNotFound)
            } else {
                Ok((
                    DaoState {
                        templates: self.templates.insert(
                            name,
                            TemplateRecord { active: false, ..self.templates[name] },
                        ),
                        ..self
                    }.demand(admin),
                    (),
                ))
            },
        }
    }

    pub open spec fn update_config(self, admin: Addr, config: DaoConfig) -> Result<
        (DaoState, ()),
        Error,
    > {
        match self.admin_error(admin) {
            Some(e) => Err(e),
            None => match config_error(config) {
                Some(e) => Err(e),
                None => Ok((
                    DaoState { config: Some(config), ..self }.demand(admin).emit(
                        Event::DaoConfigUpdated(
                            DaoConfigUpdated {
                                gov_token: config.gov_token,
                                proposal_threshold: config.proposal_threshold,
                                total_supply: config.total_supply,
                                voting_period: config.voting_period,
                                proposal_timelock: config.proposal_timelock,
                            },
                        ),
                    ),
                    (),
                )),
            },
        }
    }

    /// The state after the code was replaced.
    pub open spec fn upgraded(self, new_wasm_hash: [u8; 32], new_version: u32) -> DaoState {
        DaoState { version: Some(new_version), ..self }.send(
            Effect::ReplaceCode(new_wasm_hash),
        ).emit(
            Event::ContractUpgraded(
                ContractUpgraded { old_version: self.stored_version(), new_version },
            ),
        )
    }

    pub open spec fn upgrade(self, admin: Addr, new_wasm_hash: [u8; 32], new_version: u32) -> Result<
        (DaoState, ()),
        Error,
    > {
        match self.admin_error(admin) {
            Some(e) => Err(e),
            None => if new_version <= self.stored_version() {
                Err(Error::VersionNotNewer)
            } else if self.guardian_threshold == 0 {
                Ok((self.demand(admin).upgraded(new_wasm_hash, new_version), ()))
            } else {
                Ok((
                    DaoState {
                        pending_upgrade: Some(
                            UpgradeProposal { new_wasm_hash, new_version, approvals: Seq::empty() },
                        ),
                        ..self
                    }.demand(admin),
                    (),
                ))
            },
        }
    }

    pub open spec fn set_guardians(self, admin: Addr, guardians: Seq<Addr>, threshold: u32) -> Result<
        (DaoState, ()),
        Error,
    > {
        match self.admin_error(admin) {
            Some(e) => Err(e),
            None => if threshold > guardians.len() {
                Err(Error::InvalidThreshold)
            } else {
                Ok((
                    DaoState { guardians, guardian_threshold: threshold, ..self }.demand(
                        admin,
                    ).emit(Event::GuardiansUpdated { guardians: roster_of(guardians), threshold }),
                    (),
                ))
            },
        }
    }

    pub open spec fn approve_upgrade(self, guardian: Addr, new_wasm_hash: [u8; 32]) -> Result<
        (DaoState, ()),
        Error,
    > {
        if !self.guardians.contains(guardian) {
            Err(Error::NotGuardian)
        } else {
            match self.pending_upgrade {
                None => Err(Error::NoPendingUpgrade),
                Some(p) => if p.new_wasm_hash != new_wasm_hash {
                    Err(Error::NoPendingUpgrade)
                } else if p.approvals.contains(guardian) {
                    Err(Error::AlreadyApprovedAction)
                } else {
                    let approvals = p.approvals.push(guardian);
                    let asked = self.demand(guardian).emit(
                        Event::UpgradeApproved(
                            UpgradeApproved {
                                new_wasm_hash,
                                approver: guardian,
                                approvals: approvals.len() as u32,
                                threshold: self.guardian_threshold,
                            },
                        ),
                    );
                    Ok((
                        if approvals.len() >= self.guardian_threshold {
                            DaoState { pending_upgrade: None, ..asked }.upgraded(
                                new_wasm_hash,
                                p.new_version,
                            )
                        } else {
                            DaoState {
                                pending_upgrade: Some(UpgradeProposal { approvals, ..p }),
                                ..asked
                            }
                        },
                        (),
                    ))
                },
            }
        }
    }

    pub open spec fn cancel_pending_upgrade(self, admin: Addr) -> Result<(DaoState, ()), Error> {
        match self.admin_error(admin) {
            Some(e) => Err(e),
            None => if self.pending_upgrade is None {
                Err(Error::NoPendingUpgrade)
            } else {
                Ok((DaoState { pending_upgrade: None, ..self }.demand(admin), ()))
            },
        }
    }
}

/// The quorum after decay: lowered by the shortfall of the average turnout,
/// rounded down to whole steps, but not below the floor.
pub open spec fn decayed_quorum(base_bps: u32, avg: u32, decay: QuorumDecayConfig) -> u32 {
    let step = greatest(decay.decay_per_period_bps as int, 1);
    let reduction = ((base_bps - avg) / step) * decay.decay_per_period_bps;
    greatest(base_bps - reduction, decay.floor_bps as int) as u32
}

} // verus!
