//! Proposals, votes, and what is reported about them.

use crate::roster::Roster;
use crate::text::{Addr, Sym};
use vstd::prelude::*;

verus! {

/// Current lifecycle state of a governance proposal.
#[derive(Clone, Copy, Debug, PartialEq, Eq, Structural)]
pub enum ProposalStatus {
    /// In mandatory discussion period before voting opens.
    Discussion,
    /// Accepting votes
    Active,
    /// Passed quorum + majority; ready to execute
    Passed,
    /// Failed to reach quorum or majority
    Failed,
    /// Execution was called and succeeded
    Executed,
    /// Cancelled by admin before vote close
    Cancelled,
    /// Passed but execution deadline expired without execution
    Expired,
}

/// On-chain comment on a proposal for discussion and feedback.
#[derive(Debug, PartialEq, Eq)]
pub struct ProposalComment {
    pub id: u128,
    pub proposal_id: u64,
    pub author: Addr,
    pub text: Vec<u8>,
    pub created_at: u64,
    /// Optional: ID of the comment this replies to, for threaded discussion
    pub reply_to: Option<u128>,
}

/// Vote direction cast by a token holder.
#[derive(Clone, Copy, Debug, PartialEq, Eq, Structural)]
pub enum VoteChoice {
    For,
    Against,
    Abstain,
}

/// What kind of action a proposal performs on execution.
#[derive(Clone, Copy, Debug, PartialEq, Eq, Structural)]
pub enum ProposalKind {
    /// Arbitrary `target::function(args)` call, as authored by the proposer.
    Standard,
    /// Upgrades `target`'s contract WASM. `target` must have this DAO
    /// configured as its admin for execution to succeed.
    Upgrade,
}

/// An argument of the call that a proposal makes.
#[derive(Clone, Copy, Debug, PartialEq, Eq)]
pub enum Argument {
    /// The address of the governance contract itself.
    Dao,
    /// The hash of contract code.
    CodeHash([u8; 32]),
    /// A value of the ledger host that governance does not look into.
    HostValue(u64),
}

/// A governance proposal for a protocol parameter change.
#[derive(Debug, PartialEq, Eq)]
pub struct Proposal {
    pub id: u64,
    pub proposer: Addr,
    /// Short human-readable title, at most 256 bytes long.
    pub title: Vec<u8>,
    /// The contract that the proposal is about. An upgrade proposal calls it on
    /// execution; the call of any other is left to who executes it.
    pub target: Addr,
    /// The function of the contract to call.
    pub function: Sym,
    pub args: Vec<Argument>,
    /// Governance tokens locked from the proposer at creation, and refunded
    /// unchanged whatever the configuration says later.
    pub deposit: i128,
    pub status: ProposalStatus,
    pub votes_for: i128,
    pub votes_against: i128,
    pub votes_abstain: i128,
    /// Ledger timestamp when voting opens.
    pub created_at: u64,
    /// Ledger timestamp when voting closes.
    pub vote_end: u64,
    /// Timelock expiration timestamp for execution.
    pub execution_time: u64,
    /// Ledger timestamp after which a proposal that passed can no longer be
    /// executed.
    pub execution_deadline: u64,
    /// Total supply at creation, which quorum is measured against.
    pub total_supply: i128,
    /// Whether this is a generic call or a contract-upgrade proposal.
    pub kind: ProposalKind,
    /// What the proposal may lead to, in at most 4096 bytes. Every proposal has
    /// an analysis.
    pub impact_analysis: Vec<u8>,
    /// A function of the target that confirms that execution did what it should.
    /// Proposals are made without one.
    pub verification_callback: Option<Sym>,
    /// Whether the proposal was executed and nothing is left to confirm.
    pub execution_verified: bool,
}

/// A single vote record stored per (proposal_id, voter) key.
#[derive(Clone, Copy, Debug, PartialEq, Eq)]
pub struct VoteRecord {
    pub voter: Addr,
    pub choice: VoteChoice,
    /// Token weight at the time of voting.
    pub weight: i128,
}

/// DAO configuration set at initialization.
#[derive(Clone, Copy, Debug, PartialEq, Eq)]
pub struct DaoConfig {
    /// Governance token address (balance = voting weight).
    pub gov_token: Addr,
    /// Minimum tokens needed to create a proposal (7-decimal).
    pub proposal_threshold: i128,
    pub total_supply: i128,
    /// Minimum share of the total supply that must vote (basis points).
    pub quorum_bps: u32,
    /// Minimum share of the For and Against votes that must be For (basis
    /// points).
    pub majority_bps: u32,
    /// Voting period in seconds.
    pub voting_period: u64,
    /// Timelock period in seconds before an approved proposal can be executed.
    pub proposal_timelock: u64,
    /// Discussion period in seconds before voting opens. With 0, proposals open
    /// for voting as soon as they are created.
    pub discussion_period: u64,
    /// Most weight that one address can cast on a proposal; 0 is no cap.
    pub vote_weight_cap: i128,
}

/// Settings controlling adaptive (decaying) quorum.
///
/// A static quorum assumes participation is stable. It is not: token holders
/// drift away, delegates go quiet, and a DAO that was healthy at 20% turnout
/// can spend months unable to pass anything — including the proposals that
/// would fix its own participation problem. Governance deadlock is itself a
/// failure mode.
///
/// Decay lowers the bar as participation falls, but only down to `floor_bps`,
/// which can never go below the contract's hard `MIN_QUORUM_BPS`. The
/// intent is to keep a quiet DAO governable, not to let a handful of holders
/// quietly take it over.
#[derive(Clone, Copy, Debug, PartialEq, Eq)]
pub struct QuorumDecayConfig {
    /// Whether adaptive quorum is applied at all. Off by default, so an
    /// existing DAO's behaviour does not change until it opts in.
    pub enabled: bool,
    /// Absolute lower bound the decayed quorum can reach, in basis points.
    /// Clamped up to the contract's `MIN_QUORUM_BPS` if set below it.
    pub floor_bps: u32,
    /// Basis points of decay applied per consecutive low-participation
    /// proposal, subtracted from the configured `quorum_bps`.
    pub decay_per_period_bps: u32,
    /// Number of recent proposals whose turnout is averaged to decide whether
    /// participation counts as low.
    pub window: u32,
}

/// Rolling record of recent participation, used to compute adaptive quorum.
#[derive(Debug, PartialEq, Eq)]
pub struct ParticipationHistory {
    /// Turnout in basis points for each of the last `window` finalized
    /// proposals, oldest first.
    pub recent_bps: Vec<u32>,
    /// Number of finalized proposals recorded so far (saturating).
    pub total_recorded: u64,
}

/// The quorum actually applied to a proposal, and why.
#[derive(Clone, Copy, Debug, PartialEq, Eq)]
pub struct EffectiveQuorum {
    /// The quorum requirement in effect, in basis points.
    pub quorum_bps: u32,
    /// The configured, undecayed requirement.
    pub base_bps: u32,
    /// Average turnout across the participation window, in basis points.
    pub avg_participation_bps: u32,
    /// True when decay actually lowered the requirement below `base_bps`.
    pub decayed: bool,
}

/// A standing delegation of voting power from one holder to another.
///
/// Delegation transfers *authority*, never tokens. The delegator keeps custody
/// throughout — the DAO simply counts their balance toward the delegate's vote
/// at the moment that vote is cast.
#[derive(Clone, Copy, Debug, PartialEq, Eq)]
pub struct Delegation {
    pub delegator: Addr,
    pub delegate: Addr,
    pub delegated_at: u64,
}

/// A delegate's standing, for display and for pre-vote checks.
#[derive(Debug, PartialEq, Eq)]
pub struct DelegateInfo {
    pub delegate: Addr,
    /// Addresses currently delegating to this account.
    pub delegators: Vec<Addr>,
    /// Sum of those delegators' live token balances.
    pub delegated_weight: i128,
    /// The delegate's own balance.
    pub own_weight: i128,
    /// `own_weight + delegated_weight` — what a vote right now would carry.
    pub total_weight: i128,
}

#[derive(Clone, Copy, Debug, PartialEq, Eq)]
pub struct Initialized {
    pub admin: Addr,
    pub gov_token: Addr,
}

#[derive(Clone, Copy, Debug, PartialEq, Eq)]
pub struct ProposalCreated {
    pub proposal_id: u64,
    pub proposer: Addr,
    pub target: Addr,
    pub function: Sym,
}

#[derive(Clone, Copy, Debug, PartialEq, Eq)]
pub struct VoteCast {
    pub proposal_id: u64,
    pub voter: Addr,
    pub choice: VoteChoice,
    pub weight: i128,
}

#[derive(Clone, Copy, Debug, PartialEq, Eq)]
pub struct ProposalFinalized {
    pub proposal_id: u64,
    pub status: ProposalStatus,
}

#[derive(Clone, Copy, Debug, PartialEq, Eq)]
pub struct ExecutionAuditRecord {
    pub proposal_id: u64,
    pub executor: Addr,
    pub target: Addr,
    pub function: Sym,
    pub executed_at: u64,
    pub votes_for: i128,
    pub votes_against: i128,
}

#[derive(Clone, Copy, Debug, PartialEq, Eq)]
pub struct ProposalExecuted {
    pub proposal_id: u64,
}

#[derive(Clone, Copy, Debug, PartialEq, Eq)]
pub struct ProposalCancelled {
    pub proposal_id: u64,
}

#[derive(Clone, Copy, Debug, PartialEq, Eq)]
pub struct ProposalVetoed {
    pub proposal_id: u64,
    pub guardian: Addr,
    pub reason: Sym,
}

#[derive(Clone, Copy, Debug, PartialEq, Eq)]
pub struct DiscussionPeriodEnded {
    pub proposal_id: u64,
}

#[derive(Clone, Copy, Debug, PartialEq, Eq)]
pub struct DaoConfigUpdated {
    pub gov_token: Addr,
    pub proposal_threshold: i128,
    pub total_supply: i128,
    pub voting_period: u64,
    pub proposal_timelock: u64,
}

#[derive(Clone, Copy, Debug, PartialEq, Eq)]
pub struct VotingPowerDelegated {
    pub delegator: Addr,
    pub delegate: Addr,
    pub weight: i128,
}

#[derive(Clone, Copy, Debug, PartialEq, Eq)]
pub struct DelegationRevoked {
    pub delegator: Addr,
    pub delegate: Addr,
}

#[derive(Clone, Copy, Debug, PartialEq, Eq)]
pub struct QuorumDecayConfigUpdated {
    pub enabled: bool,
    pub floor_bps: u32,
    pub decay_per_period_bps: u32,
    pub window: u32,
}

/// Emitted at finalize when the applied quorum differed from the configured one.
#[derive(Clone, Copy, Debug, PartialEq, Eq)]
pub struct QuorumDecayApplied {
    pub proposal_id: u64,
    pub base_bps: u32,
    pub effective_bps: u32,
    pub avg_participation_bps: u32,
}

#[derive(Clone, Copy, Debug, PartialEq, Eq)]
pub struct ContractUpgraded {
    pub old_version: u32,
    pub new_version: u32,
}

#[derive(Debug, PartialEq, Eq)]
pub struct GuardiansUpdated {
    pub guardians: Vec<Addr>,
    pub threshold: u32,
}

#[derive(Clone, Copy, Debug, PartialEq, Eq)]
pub struct UpgradeApproved {
    pub new_wasm_hash: [u8; 32],
    pub approver: Addr,
    pub approvals: u32,
    pub threshold: u32,
}

/// A pending contract-upgrade action awaiting guardian approvals.
#[derive(Debug, PartialEq, Eq)]
pub struct PendingUpgrade {
    pub new_wasm_hash: [u8; 32],
    pub new_version: u32,
    pub approvals: Vec<Addr>,
}

/// Emitted when a proposer (or anyone on their behalf) reclaims a deposit
/// via `reclaim_deposit` on a proposal nobody ever finalized.
#[derive(Clone, Copy, Debug, PartialEq, Eq)]
pub struct DepositReclaimed {
    pub proposal_id: u64,
    pub proposer: Addr,
    pub amount: i128,
}

/// A registered structural template for a common proposal type.
///
/// It fixes the least that a proposal of this kind must have, the length of
/// its title and the number of its arguments, so that such proposals are alike.
#[derive(Debug, PartialEq, Eq)]
pub struct ProposalTemplate {
    pub name: Sym,
    /// Human-readable description of what this template is for.
    pub description: Vec<u8>,
    /// Minimum number of bytes required in a proposal's `title`.
    pub min_title_len: u32,
    /// Exact number of entries required in a proposal's `args`.
    pub required_arg_count: u32,
    /// Whether new proposals may still be created from this template.
    pub active: bool,
}

#[derive(Clone, Copy, Debug, PartialEq, Eq)]
pub struct TemplateRegistered {
    pub name: Sym,
    pub min_title_len: u32,
    pub required_arg_count: u32,
}

#[derive(Clone, Copy, Debug, PartialEq, Eq)]
pub struct ProposalCreatedFromTemplate {
    pub proposal_id: u64,
    pub template_name: Sym,
}

/// Emitted when the vote weight cap is updated via DAO config.
#[derive(Clone, Copy, Debug, PartialEq, Eq)]
pub struct VoteWeightCapUpdated {
    pub vote_weight_cap: i128,
}

/// Emitted when a delegation's weight is used in a vote.
///
/// Tracks the moment delegated voting power is actually exercised,
/// making it possible to see which delegations contributed to which
/// proposals and how much weight they carried.
#[derive(Clone, Copy, Debug, PartialEq, Eq)]
pub struct DelegationUsed {
    pub proposal_id: u64,
    pub delegate: Addr,
    pub delegator: Addr,
    pub weight: i128,
}

/// Emitted when a delegation is created or revoked, recording the
/// full delegation graph at a point in time for off-chain indexing.
#[derive(Clone, Copy, Debug, PartialEq, Eq)]
pub struct DelegationRecorded {
    pub delegator: Addr,
    pub delegate: Addr,
    pub action: Sym,
    pub recorded_at: u64,
}

#[derive(Clone, Copy, Debug, PartialEq, Eq)]
pub struct ExecutionVerified {
    pub proposal_id: u64,
    pub executor: Addr,
    pub target: Addr,
    pub verification_callback: Sym,
    pub verified_at: u64,
}

#[derive(Clone, Copy, Debug, PartialEq, Eq)]
pub struct ExecutionVerificationFailed {
    pub proposal_id: u64,
    pub executor: Addr,
    pub target: Addr,
    pub callback: Sym,
    pub error: Sym,
}

/// Emitted when a comment is posted on a proposal for discussion.
#[derive(Clone, Copy, Debug, PartialEq, Eq)]
pub struct ProposalCommentAdded {
    pub proposal_id: u64,
    pub comment_id: u128,
    pub author: Addr,
    pub reply_to: Option<u128>,
    pub created_at: u64,
}

/// Why the DAO refuses a request.
#[derive(Clone, Copy, Debug, PartialEq, Eq, PartialOrd, Ord, Structural)]
pub enum Error {
    AlreadyInitialized,
    NotInitialized,
    Unauthorized,
    InsufficientWeight,
    ProposalNotFound,
    ProposalNotActive,
    AlreadyVoted,
    VotingClosed,
    VotingStillOpen,
    ProposalNotPassed,
    AlreadyExecuted,
    AlreadyCancelled,
    TimelockNotExpired,
    FinalizeDelayNotMet,
    VersionNotNewer,
    LimitReached,
    VotingPeriodTooShort,
    VotingPeriodTooLong,
    InvalidAddress,
    NotGuardian,
    AlreadyApprovedAction,
    NoPendingUpgrade,
    InvalidThreshold,
    QuorumTooLow,
    InvalidQuorumDecay,
    ProposalNotExpired,
    TemplateNotFound,
    TemplateInactive,
    TitleTooShort,
    ArgCountMismatch,
    /// The deadline for executing a proposal that passed is over.
    ProposalExpired,
    /// The title of a proposal is longer than titles may be.
    TitleTooLong,
    /// A proposal comes without an impact analysis.
    ImpactAnalysisMissing,
    /// The impact analysis of a proposal is longer than it may be.
    ImpactAnalysisTooLong,
}

impl Error {
    /// The number by which callers on the ledger know the error.
    pub open spec fn code_spec(self) -> u32 {
        match self {
            Error::AlreadyInitialized => 1,
            Error::NotInitialized => 2,
            Error::Unauthorized => 3,
            Error::InsufficientWeight => 4,
            Error::ProposalNotFound => 5,
            Error::ProposalNotActive => 6,
            Error::AlreadyVoted => 7,
            Error::VotingClosed => 8,
            Error::VotingStillOpen => 9,
            Error::ProposalNotPassed => 10,
            Error::AlreadyExecuted => 11,
            Error::AlreadyCancelled => 12,
            Error::TimelockNotExpired => 13,
            Error::FinalizeDelayNotMet => 14,
            Error::VersionNotNewer => 15,
            Error::LimitReached => 16,
            Error::VotingPeriodTooShort => 17,
            Error::VotingPeriodTooLong => 18,
            Error::InvalidAddress => 19,
            Error::NotGuardian => 20,
            Error::AlreadyApprovedAction => 21,
            Error::NoPendingUpgrade => 22,
            Error::InvalidThreshold => 23,
            Error::QuorumTooLow => 24,
            Error::InvalidQuorumDecay => 25,
            Error::ProposalNotExpired => 26,
            Error::TemplateNotFound => 27,
            Error::TemplateInactive => 28,
            Error::TitleTooShort => 29,
            Error::ArgCountMismatch => 30,
            Error::ProposalExpired => 31,
            Error::TitleTooLong => 32,
            Error::ImpactAnalysisMissing => 33,
            Error::ImpactAnalysisTooLong => 34,
        }
    }

    /// The number by which callers on the ledger know the error.
    pub fn code(self) -> (r: u32)
        ensures
            r == self.code_spec(),
    {
        match self {
            Error::AlreadyInitialized => 1,
            Error::NotInitialized => 2,
            Error::Unauthorized => 3,
            Error::InsufficientWeight => 4,
            Error::ProposalNotFound => 5,
            Error::ProposalNotActive => 6,
            Error::AlreadyVoted => 7,
            Error::VotingClosed => 8,
            Error::VotingStillOpen => 9,
            Error::ProposalNotPassed => 10,
            Error::AlreadyExecuted => 11,
            Error::AlreadyCancelled => 12,
            Error::TimelockNotExpired => 13,
            Error::FinalizeDelayNotMet => 14,
            Error::VersionNotNewer => 15,
            Error::LimitReached => 16,
            Error::VotingPeriodTooShort => 17,
            Error::VotingPeriodTooLong => 18,
            Error::InvalidAddress => 19,
            Error::NotGuardian => 20,
            Error::AlreadyApprovedAction => 21,
            Error::NoPendingUpgrade => 22,
            Error::InvalidThreshold => 23,
            Error::QuorumTooLow => 24,
            Error::InvalidQuorumDecay => 25,
            Error::ProposalNotExpired => 26,
            Error::TemplateNotFound => 27,
            Error::TemplateInactive => 28,
            Error::TitleTooShort => 29,
            Error::ArgCountMismatch => 30,
            Error::ProposalExpired => 31,
            Error::TitleTooLong => 32,
            Error::ImpactAnalysisMissing => 33,
            Error::ImpactAnalysisTooLong => 34,
        }
    }
}

/// What the DAO announces.
#[derive(Debug, PartialEq, Eq)]
pub enum Event {
    Initialized(Initialized),
    ProposalCreated(ProposalCreated),
    DiscussionPeriodEnded(DiscussionPeriodEnded),
    VoteCast(VoteCast),
    TokensWithdrawn { proposal_id: u64, voter: Addr, amount: i128 },
    QuorumDecayApplied(QuorumDecayApplied),
    ProposalFinalized(ProposalFinalized),
    DepositReclaimed(DepositReclaimed),
    ProposalExecuted(ProposalExecuted),
    ProposalCancelled(ProposalCancelled),
    QuorumDecayConfigUpdated(QuorumDecayConfigUpdated),
    TemplateRegistered(TemplateRegistered),
    ProposalCreatedFromTemplate(ProposalCreatedFromTemplate),
    DaoConfigUpdated(DaoConfigUpdated),
    ContractUpgraded(ContractUpgraded),
    GuardiansUpdated { guardians: Roster, threshold: u32 },
    UpgradeApproved(UpgradeApproved),
}

/// What the ledger has to do for a call of the DAO to stand. A call whose
/// effects cannot all be carried out has no effect at all.
#[derive(Debug, PartialEq, Eq)]
pub enum Effect {
    /// The address must have authorised the call.
    RequireAuth(Addr),
    /// Move `amount` of `token` from `from` to the DAO.
    Collect { token: Addr, from: Addr, amount: i128 },
    /// Move `amount` of `token` from the DAO to `to`.
    Pay { token: Addr, to: Addr, amount: i128 },
    /// Call a contract's function with the arguments of an upgrade proposal.
    Invoke { proposal_id: u64, target: Addr, function: Sym },
    /// Publish an event.
    Emit(Event),
    /// Replace the DAO's code.
    ReplaceCode([u8; 32]),
}

} // verus!
