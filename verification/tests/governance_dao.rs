//! The governance DAO with a token ledger that carries out its effects.

use parashield::governance_dao::types::{
    Argument, DaoConfig, Effect, Error, Event, ProposalKind, ProposalStatus, VoteChoice,
};
use parashield::governance_dao::GovernanceDao;
use parashield::text::{Addr, Sym};

const VOTING_PERIOD: u64 = 7 * 24 * 3600; // 7 days in seconds
const PAST_DELAY: u64 = VOTING_PERIOD + (24 * 3600) + 1;
const IMPACT: &[u8] = b"Impact analysis: no material risk identified.";
const UNIT: i128 = 10_000_000;

fn address(kind: u8, n: u8) -> Addr {
    let mut text = [b'A'; 56];
    text[0] = kind;
    text[55] = b'A' + n;
    Addr::new(&text).unwrap()
}

fn sym(text: &str) -> Sym {
    Sym::new(text.as_bytes()).unwrap()
}

fn code<T: std::fmt::Debug>(r: Result<T, Error>) -> u32 {
    r.unwrap_err().code()
}

struct World {
    now: u64,
    dao: GovernanceDao,
    admin: Addr,
    voter1: Addr,
    voter2: Addr,
    target: Addr,
    balances: Vec<(Addr, i128)>,
    invoked: Vec<(u64, Addr, Sym)>,
    done: usize,
}

fn config() -> DaoConfig {
    DaoConfig {
        gov_token: address(b'C', 9),
        total_supply: 1_600_000 * UNIT,
        proposal_threshold: 10_000 * UNIT, // 10k SHIELD
        quorum_bps: 1_000,                 // 10%
        majority_bps: 5_100,               // 51%
        voting_period: VOTING_PERIOD,
        proposal_timelock: 0,
        discussion_period: 0,
        vote_weight_cap: 0,
    }
}

fn world(config: DaoConfig, second: i128) -> World {
    let (admin, voter1, voter2) = (address(b'G', 1), address(b'G', 2), address(b'G', 3));
    let mut dao = GovernanceDao::new();
    dao.initialize(admin, config).unwrap();
    let done = dao.outbox.len();
    World {
        now: 0,
        dao,
        admin,
        voter1,
        voter2,
        target: address(b'C', 4),
        balances: vec![(voter1, 1_000_000 * UNIT), (voter2, second), (admin, 100_000 * UNIT)],
        invoked: vec![],
        done,
    }
}

fn setup() -> World {
    world(config(), 500_000 * UNIT)
}

fn base_config() -> DaoConfig {
    DaoConfig { total_supply: 1_100_000 * UNIT, ..config() }
}

fn make_dao() -> World {
    world(base_config(), 0)
}

impl World {
    fn balance(&self, who: Addr) -> i128 {
        self.balances.iter().find(|(a, _)| *a == who).map(|(_, b)| *b).unwrap_or(0)
    }

    fn give(&mut self, who: Addr, amount: i128) {
        let total = self.balance(who) + amount;
        assert!(total >= 0);
        self.balances.retain(|(a, _)| *a != who);
        self.balances.push((who, total));
    }

    fn settle(&mut self) {
        while self.done < self.dao.outbox.len() {
            match self.dao.outbox[self.done] {
                Effect::Collect { from, amount, .. } => self.give(from, -amount),
                Effect::Pay { to, amount, .. } => self.give(to, amount),
                Effect::Invoke { proposal_id, target, function } => {
                    self.invoked.push((proposal_id, target, function))
                }
                _ => {}
            }
            self.done += 1;
        }
    }

    fn try_propose(&mut self, who: Addr, title: &str, function: &str) -> Result<u64, Error> {
        let balance = self.balance(who);
        let r = self.dao.create_proposal(
            self.now,
            who,
            title.as_bytes().to_vec(),
            self.target,
            sym(function),
            vec![],
            IMPACT.to_vec(),
            balance,
        );
        self.settle();
        r
    }

    fn propose(&mut self, title: &str) -> u64 {
        let who = self.voter1;
        self.try_propose(who, title, "update").unwrap()
    }

    fn vote(&mut self, who: Addr, id: u64, choice: VoteChoice) -> Result<(), Error> {
        let balance = self.balance(who);
        let r = self.dao.vote(self.now, who, id, choice, balance);
        self.settle();
        r
    }

    fn finalize(&mut self, id: u64) -> Result<(), Error> {
        let r = self.dao.finalize(self.now, id);
        self.settle();
        r
    }

    fn execute(&mut self, id: u64) -> Result<(), Error> {
        let r = self.dao.execute(self.now, id);
        self.settle();
        r
    }

    fn status(&self, id: u64) -> ProposalStatus {
        self.dao.get_proposal(id).unwrap().status
    }
}

// ── initialization ────────────────────────────────────────────────────────────

#[test]
fn initialize_stores_config() {
    let w = setup();
    let cfg = w.dao.get_config().unwrap();
    assert_eq!(cfg.quorum_bps, 1_000);
    assert_eq!(cfg.majority_bps, 5_100);
    assert_eq!(w.dao.get_admin(), Ok(w.admin));
    assert_eq!(w.dao.proposal_count(), 0);
    assert_eq!(w.dao.get_version(), 1);
}

#[test]
fn cannot_initialize_twice() {
    let mut w = setup();
    let cfg = DaoConfig {
        gov_token: config().gov_token,
        total_supply: 0,
        proposal_threshold: 0,
        quorum_bps: 0,
        majority_bps: 0,
        voting_period: 0,
        proposal_timelock: 0,
        discussion_period: 0,
        vote_weight_cap: 0,
    };
    assert_eq!(code(w.dao.initialize(w.admin, cfg)), 1);
}

#[test]
fn a_dao_checks_its_configuration() {
    let admin = address(b'G', 1);
    let bad = Addr::new(b"G").unwrap();
    for (who, cfg, error) in [
        (bad, config(), 19),
        (admin, DaoConfig { gov_token: bad, ..config() }, 19),
        (admin, DaoConfig { gov_token: address(b'G', 5), ..config() }, 19),
        (admin, DaoConfig { voting_period: 3_599, ..config() }, 17),
        (admin, DaoConfig { voting_period: 30 * 24 * 3_600 + 1, ..config() }, 18),
        (admin, DaoConfig { quorum_bps: 999, ..config() }, 24),
    ] {
        let mut dao = GovernanceDao::new();
        assert_eq!(code(dao.initialize(who, cfg)), error);
        assert!(dao.outbox.is_empty());
        assert_eq!(code(dao.get_config()), 2);
        assert_eq!(code(dao.get_admin()), 2);
    }
    for period in [3_600, 30 * 24 * 3_600] {
        let mut dao = GovernanceDao::new();
        assert_eq!(dao.initialize(admin, DaoConfig { voting_period: period, ..config() }), Ok(()));
    }
}

// ── proposal creation ─────────────────────────────────────────────────────────

#[test]
fn create_proposal_increments_counter() {
    let mut w = setup();
    let id = w.propose("Lower quorum to 5%");
    assert_eq!(id, 0);
    assert_eq!(w.dao.proposal_count(), 1);
    assert_eq!(w.balance(w.voter1), 990_000 * UNIT);
}

#[test]
fn create_proposal_below_threshold_fails() {
    let mut w = setup();
    let nobody = address(b'G', 20);
    assert_eq!(code(w.try_propose(nobody, "Sneaky proposal", "update")), 4);
    assert_eq!(w.dao.proposal_count(), 0);
}

// ── voting ────────────────────────────────────────────────────────────────────

#[test]
fn vote_for_records_weight() {
    let mut w = setup();
    let pid = w.propose("Test proposal");
    let voter = w.voter1;
    w.vote(voter, pid, VoteChoice::For).unwrap();
    let rec = w.dao.get_vote(pid, voter).unwrap();
    assert_eq!(rec.weight, 990_000 * UNIT);
    assert_eq!(w.dao.get_vote(pid, w.voter2), None);
    assert_eq!(code(w.vote(voter, 7, VoteChoice::For)), 5);
}

#[test]
fn double_vote_fails() {
    let mut w = setup();
    let pid = w.propose("Test proposal");
    let voter = w.voter1;
    w.vote(voter, pid, VoteChoice::For).unwrap();
    assert_eq!(code(w.vote(voter, pid, VoteChoice::Against)), 7);
}

#[test]
fn vote_after_period_fails() {
    let mut w = setup();
    let pid = w.propose("Test proposal");
    w.now += VOTING_PERIOD + 1;
    let voter = w.voter1;
    assert_eq!(code(w.vote(voter, pid, VoteChoice::For)), 8);
}

// ── finalize ──────────────────────────────────────────────────────────────────

#[test]
fn proposal_passes_with_quorum_and_majority() {
    let mut w = setup();
    let pid = w.propose("Pass me");
    let (a, b) = (w.voter1, w.voter2);
    w.vote(a, pid, VoteChoice::For).unwrap();
    w.vote(b, pid, VoteChoice::For).unwrap();
    w.now += PAST_DELAY;
    w.finalize(pid).unwrap();
    assert_eq!(w.status(pid), ProposalStatus::Passed);
    assert_eq!(code(w.finalize(pid)), 6);
    assert_eq!(code(w.vote(a, pid, VoteChoice::For)), 6);
}

#[test]
fn proposal_fails_without_quorum() {
    let mut w = setup();
    let pid = w.propose("Quorum miss");
    w.now += PAST_DELAY;
    w.finalize(pid).unwrap();
    assert_eq!(w.status(pid), ProposalStatus::Failed);
}

#[test]
fn finalize_while_voting_open_fails() {
    let mut w = setup();
    let pid = w.propose("Too early");
    assert_eq!(code(w.finalize(pid)), 14);
    assert_eq!(code(w.finalize(88)), 5);
}

#[test]
fn an_exact_tie_fails_and_quorum_can_be_met_exactly() {
    let mut w = setup();
    let pid = w.propose("Tie");
    let (a, b) = (address(b'G', 6), address(b'G', 7));
    w.give(a, 80_000 * UNIT);
    w.give(b, 80_000 * UNIT);
    w.vote(a, pid, VoteChoice::For).unwrap();
    w.vote(b, pid, VoteChoice::Against).unwrap();
    let clear = w.propose("Clear");
    w.give(a, 160_000 * UNIT);
    w.vote(a, clear, VoteChoice::For).unwrap();
    let short = w.propose("Short");
    w.give(a, 160_000 * UNIT - 1);
    w.vote(a, short, VoteChoice::For).unwrap();
    w.now += PAST_DELAY;
    for id in [pid, clear, short] {
        w.finalize(id).unwrap();
    }
    assert_eq!(w.status(pid), ProposalStatus::Failed);
    assert_eq!(w.status(clear), ProposalStatus::Passed);
    assert_eq!(w.status(short), ProposalStatus::Failed);
}

// ── execute / cancel ──────────────────────────────────────────────────────────

fn passed() -> (World, u64) {
    let mut w = setup();
    let pid = w.propose("Execute me");
    let (a, b) = (w.voter1, w.voter2);
    w.vote(a, pid, VoteChoice::For).unwrap();
    w.vote(b, pid, VoteChoice::For).unwrap();
    w.now += PAST_DELAY;
    w.finalize(pid).unwrap();
    (w, pid)
}

#[test]
fn execute_passed_proposal() {
    let (mut w, pid) = passed();
    w.execute(pid).unwrap();
    assert_eq!(w.status(pid), ProposalStatus::Executed);
}

#[test]
fn execute_failed_proposal_panics() {
    let mut w = setup();
    let pid = w.propose("Doomed");
    w.now += PAST_DELAY;
    w.finalize(pid).unwrap(); // fails (no votes)
    assert_eq!(code(w.execute(pid)), 10);
}

#[test]
fn admin_can_cancel_active_proposal() {
    let mut w = setup();
    let pid = w.propose("Will be cancelled");
    w.dao.cancel(w.now, w.admin, pid).unwrap();
    w.settle();
    assert_eq!(w.status(pid), ProposalStatus::Cancelled);
    assert_eq!(w.balance(w.voter1), 1_000_000 * UNIT);
    assert_eq!(code(w.execute(pid)), 12);
    assert_eq!(code(w.dao.cancel(w.now, w.admin, 9)), 5);
}

#[test]
fn non_admin_cannot_cancel() {
    let mut w = setup();
    let pid = w.propose("No cancel");
    assert_eq!(code(w.dao.cancel(w.now, w.voter2, pid)), 3);
}

#[test]
fn execute_non_existent_proposal_fails() {
    let mut w = setup();
    assert_eq!(code(w.execute(9999)), 5);
}

#[test]
fn test_proposal_timelock_execution() {
    let cfg = DaoConfig {
        total_supply: 1_000_000 * UNIT,
        voting_period: 604800,
        proposal_timelock: 604800,
        ..config()
    };
    let mut w = world(cfg, 0);
    let voter = w.voter1;
    let pid = w.try_propose(voter, "Upgrade Admin Address", "upgrade").unwrap();
    w.vote(voter, pid, VoteChoice::For).unwrap();
    w.now = 604800 + 86400 + 1;
    w.finalize(pid).unwrap();
    assert_eq!(w.status(pid), ProposalStatus::Passed);
    // Attempt to execute immediately (timelock not expired)
    assert_eq!(code(w.execute(pid)), 13);
}

#[test]
fn test_finalize_cooldown_delay_enforced() {
    let mut w = setup();
    let pid = w.propose("Race Condition Test");
    let voter = w.voter1;
    w.vote(voter, pid, VoteChoice::For).unwrap();
    w.now += VOTING_PERIOD + 1;
    assert_eq!(code(w.finalize(pid)), 14);
    w.now += 24 * 3600;
    assert!(w.finalize(pid).is_ok(), "Failed to finalize after cooldown expired");
}

#[test]
fn test_execute_active_proposal_without_voting_panics() {
    let mut w = setup();
    let pid = w.propose("Unapproved proposal");
    assert_eq!(code(w.execute(pid)), 10);
}

#[test]
fn test_execute_rejected_proposal_panics() {
    let mut w = setup();
    let pid = w.propose("Rejected proposal");
    let (a, b) = (w.voter1, w.voter2);
    w.vote(a, pid, VoteChoice::Against).unwrap();
    w.vote(b, pid, VoteChoice::Against).unwrap();
    w.now += PAST_DELAY;
    w.finalize(pid).unwrap();
    assert_eq!(w.status(pid), ProposalStatus::Failed);
    assert_eq!(code(w.execute(pid)), 10);
}

// ── config update ─────────────────────────────────────────────────────────────

#[test]
fn admin_can_update_config() {
    let mut w = make_dao();
    let before = w.dao.get_config().unwrap();
    let cfg = DaoConfig { quorum_bps: 2_000, majority_bps: 6_000, ..before };
    w.dao.update_config(w.admin, cfg).unwrap();
    let after = w.dao.get_config().unwrap();
    assert_eq!(after.quorum_bps, 2_000);
    assert_eq!(after.majority_bps, 6_000);
}

#[test]
fn non_admin_cannot_update_config() {
    let mut w = make_dao();
    let cfg = w.dao.get_config().unwrap();
    assert_eq!(code(w.dao.update_config(w.voter1, cfg)), 3);
}

// ── abstain vote ──────────────────────────────────────────────────────────────

#[test]
fn abstain_contributes_to_quorum_but_not_majority() {
    let mut w = make_dao();
    let pid = w.propose("Abstain test");
    let voter = w.voter1;
    w.vote(voter, pid, VoteChoice::Abstain).unwrap();
    w.now += PAST_DELAY;
    w.finalize(pid).unwrap();
    let p = w.dao.get_proposal(pid).unwrap();
    assert_eq!(p.status, ProposalStatus::Failed);
    assert_eq!(p.votes_abstain, 990_000 * UNIT);
    assert_eq!(p.votes_for, 0);
}

#[test]
fn large_abstain_bloc_does_not_sink_a_partisan_majority() {
    let mut w = setup();
    let pid = w.propose("Large abstain bloc");
    let (a, b, c) = (w.voter1, w.voter2, w.admin);
    w.vote(a, pid, VoteChoice::Abstain).unwrap();
    w.vote(b, pid, VoteChoice::For).unwrap();
    w.vote(c, pid, VoteChoice::Against).unwrap();
    w.now += PAST_DELAY;
    w.finalize(pid).unwrap();
    let p = w.dao.get_proposal(pid).unwrap();
    assert_eq!(p.status, ProposalStatus::Passed);
    assert_eq!(p.votes_abstain, 990_000 * UNIT);
    assert_eq!(p.votes_for, 500_000 * UNIT);
    assert_eq!(p.votes_against, 100_000 * UNIT);
}

#[test]
fn abstain_still_counts_toward_quorum() {
    let mut w = setup();
    let pid = w.propose("Abstain quorum test");
    let voter = w.voter1;
    w.vote(voter, pid, VoteChoice::Abstain).unwrap();
    w.now += PAST_DELAY;
    w.finalize(pid).unwrap();
    let p = w.dao.get_proposal(pid).unwrap();
    assert_eq!(p.status, ProposalStatus::Failed);
    assert_eq!(p.votes_abstain, 990_000 * UNIT);
}

#[test]
fn proposal_count_increments_per_proposal() {
    let mut w = make_dao();
    let voter = w.voter1;
    assert_eq!(w.dao.proposal_count(), 0);
    w.try_propose(voter, "P1", "fn1").unwrap();
    assert_eq!(w.dao.proposal_count(), 1);
    w.try_propose(voter, "P2", "fn2").unwrap();
    assert_eq!(w.dao.proposal_count(), 2);
}

// ── double-execute guard ──────────────────────────────────────────────────────

#[test]
fn execute_twice_fails() {
    let mut w = make_dao();
    let pid = w.propose("Execute twice");
    let voter = w.voter1;
    w.vote(voter, pid, VoteChoice::For).unwrap();
    w.now += PAST_DELAY;
    w.finalize(pid).unwrap();
    w.execute(pid).unwrap();
    assert_eq!(code(w.execute(pid)), 11);
}

#[test]
fn test_double_voting_attack_prevention() {
    let mut w = setup();
    let voter = w.voter1;
    let attacker_b = address(b'G', 20);
    assert!(w.balance(voter) > 0);
    let pid = w.try_propose(voter, "Malicious Proposal", "drain").unwrap();
    w.vote(voter, pid, VoteChoice::For).unwrap();
    assert_eq!(w.balance(voter), 0, "tokens were not locked");
    // nothing is left to hand to the second account
    assert_eq!(code(w.vote(attacker_b, pid, VoteChoice::For)), 4);
}

#[test]
fn test_successful_token_withdrawal_post_finalize() {
    let mut w = setup();
    let voter = w.voter1;
    let pid = w.propose("Legitimate Proposal");
    w.vote(voter, pid, VoteChoice::For).unwrap();
    assert_eq!(w.balance(voter), 0);
    assert_eq!(code(w.dao.withdraw_tokens(voter, pid)), 6);
    assert_eq!(code(w.dao.withdraw_tokens(voter, 8)), 5);
    w.now += PAST_DELAY;
    w.finalize(pid).unwrap();
    w.dao.withdraw_tokens(voter, pid).unwrap();
    w.settle();
    assert!(w.balance(voter) > 0);
    assert_eq!(w.balance(voter), 1_000_000 * UNIT);
    assert_eq!(code(w.dao.withdraw_tokens(voter, pid)), 4);
}

#[test]
fn admin_cannot_manipulate_total_supply_during_active_vote() {
    let mut w = make_dao();
    let voter = w.voter1;
    let pid = w.propose("Test proposal");
    w.vote(voter, pid, VoteChoice::For).unwrap();
    let cfg = DaoConfig { total_supply: 500_000 * UNIT, ..w.dao.get_config().unwrap() };
    w.dao.update_config(w.admin, cfg).unwrap();
    w.now += PAST_DELAY;
    w.finalize(pid).unwrap();
    let p = w.dao.get_proposal(pid).unwrap();
    assert_eq!(p.status, ProposalStatus::Passed);
    assert_eq!(p.total_supply, 1_100_000 * UNIT);
}

#[test]
fn test_proposal_id_overflow_panics_with_limit_reached() {
    let mut w = make_dao();
    // Force the counter to u64::MAX so the next increment overflows.
    w.dao.next_proposal_id = Some(u64::MAX);
    let voter = w.voter1;
    assert_eq!(code(w.try_propose(voter, "Overflow test", "update")), 16);
    assert_eq!(w.balance(voter), 1_000_000 * UNIT);
}

#[test]
fn initialize_rejects_quorum_below_floor() {
    let mut dao = GovernanceDao::new();
    let mut cfg = base_config();
    cfg.quorum_bps = 999; // just under the 10% floor
    assert_eq!(code(dao.initialize(address(b'G', 1), cfg)), 24);
}

#[test]
fn update_config_rejects_quorum_below_floor() {
    let mut w = make_dao();
    let mut cfg = w.dao.get_config().unwrap();
    cfg.quorum_bps = 0;
    assert_eq!(code(w.dao.update_config(w.admin, cfg)), 24);
}

#[test]
fn finalize_fails_proposal_with_zero_votes() {
    let mut w = make_dao();
    let pid = w.propose("No turnout");
    w.now += PAST_DELAY;
    w.finalize(pid).unwrap();
    assert_eq!(w.status(pid), ProposalStatus::Failed);
}

// ── deposits, quorum decay, templates, upgrades ───────────────────────────────

#[test]
fn deposits_come_back_when_nobody_finalizes() {
    let mut w = setup();
    let voter = w.voter1;
    let pid = w.propose("Forgotten");
    let end = VOTING_PERIOD;
    w.now = end + 14 * 24 * 3600;
    assert_eq!(code(w.dao.reclaim_deposit(w.now, pid)), 26);
    assert_eq!(code(w.dao.reclaim_deposit(w.now, 44)), 5);
    w.now += 1;
    w.dao.reclaim_deposit(w.now, pid).unwrap();
    w.settle();
    assert_eq!(w.balance(voter), 1_000_000 * UNIT);
    assert_eq!(w.status(pid), ProposalStatus::Failed);
    assert_eq!(code(w.dao.reclaim_deposit(w.now, pid)), 6);
}

#[test]
fn a_threshold_change_does_not_change_deposits() {
    let mut w = setup();
    let voter = w.voter1;
    let pid = w.propose("Deposit");
    let cfg = DaoConfig { proposal_threshold: 1, ..config() };
    w.dao.update_config(w.admin, cfg).unwrap();
    w.now += PAST_DELAY;
    w.finalize(pid).unwrap();
    assert_eq!(w.balance(voter), 1_000_000 * UNIT);
}

#[test]
fn the_quorum_follows_turnout_down_to_the_floor() {
    let mut w = setup();
    let admin = w.admin;
    w.dao.update_config(admin, DaoConfig { quorum_bps: 3_000, ..config() }).unwrap();
    assert!(!w.dao.get_quorum_decay().enabled);
    let r = w.dao.get_effective_quorum().unwrap();
    assert_eq!((r.quorum_bps, r.base_bps, r.decayed), (3_000, 3_000, false));
    assert_eq!(code(w.dao.set_quorum_decay(w.voter1, true, 2_000, 700, 2)), 3);
    assert_eq!(code(w.dao.set_quorum_decay(admin, true, 2_000, 700, 21)), 25);
    assert_eq!(code(w.dao.set_quorum_decay(admin, true, 10_001, 700, 2)), 25);
    w.dao.set_quorum_decay(admin, true, 2_000, 700, 2).unwrap();
    for _ in 0..3 {
        let pid = w.propose("Quiet");
        w.now += PAST_DELAY;
        w.finalize(pid).unwrap();
    }
    assert_eq!(w.dao.get_participation_history().recent_bps, vec![0, 0]);
    assert_eq!(w.dao.get_participation_history().total_recorded, 3);
    let r = w.dao.get_effective_quorum().unwrap();
    assert_eq!((r.quorum_bps, r.base_bps, r.avg_participation_bps, r.decayed), (2_000, 3_000, 0, true));
    // a busy proposal: 990,000 of 1,600,000
    let voter = w.voter1;
    let pid = w.propose("Busy");
    w.vote(voter, pid, VoteChoice::For).unwrap();
    w.now += PAST_DELAY;
    w.finalize(pid).unwrap();
    assert_eq!(w.dao.get_participation_history().recent_bps, vec![0, 6_187]);
    assert!(w
        .dao
        .outbox
        .iter()
        .any(|e| matches!(e, Effect::Emit(Event::QuorumDecayApplied(q)) if q.proposal_id == pid)));
    let r = w.dao.get_effective_quorum().unwrap();
    assert_eq!((r.quorum_bps, r.avg_participation_bps, r.decayed), (3_000, 3_093, false));
}

#[test]
fn templates_only_add_a_check() {
    let mut w = setup();
    let admin = w.admin;
    let voter = w.voter1;
    let name = sym("grant");
    assert_eq!(code(w.dao.register_template(voter, name, b"grants".to_vec(), 5, 1)), 3);
    assert_eq!(code(w.dao.get_template(name)), 27);
    assert_eq!(code(w.dao.deactivate_template(admin, name)), 27);
    w.dao.register_template(admin, name, b"grants".to_vec(), 5, 1).unwrap();
    w.dao.register_template(admin, name, b"grants again".to_vec(), 5, 1).unwrap();
    assert_eq!(w.dao.list_templates(), &vec![name]);
    assert_eq!(w.dao.get_template(name).unwrap().description, b"grants again".to_vec());
    let target = w.target;
    let balance = w.balance(voter);
    let mut with = |template: &str, title: &str, args: Vec<Argument>| {
        w.dao.create_proposal_from_template(
            0,
            voter,
            sym(template),
            title.as_bytes().to_vec(),
            target,
            sym("pay"),
            args,
            IMPACT.to_vec(),
            balance,
        )
    };
    assert_eq!(code(with("none", "Grants", vec![])), 27);
    assert_eq!(code(with("grant", "Gran", vec![Argument::HostValue(5)])), 29);
    assert_eq!(code(with("grant", "Grants", vec![])), 30);
    assert_eq!(with("grant", "Grant", vec![Argument::HostValue(5)]), Ok(0));
    w.settle();
    w.dao.deactivate_template(admin, name).unwrap();
    assert!(!w.dao.get_template(name).unwrap().active);
    let r = w.dao.create_proposal_from_template(
        0,
        voter,
        name,
        b"Grant".to_vec(),
        target,
        sym("pay"),
        vec![Argument::HostValue(5)],
        IMPACT.to_vec(),
        balance,
    );
    assert_eq!(code(r), 28);
}

#[test]
fn only_an_upgrade_proposal_calls_its_target() {
    let mut w = setup();
    let (a, b) = (w.voter1, w.voter2);
    let standard = w.propose("Nothing to call");
    let balance = w.balance(a);
    let upgrade = w
        .dao
        .propose_upgrade(0, a, b"Up".to_vec(), w.target, [7; 32], IMPACT.to_vec(), balance)
        .unwrap();
    w.settle();
    let p = w.dao.get_proposal(upgrade).unwrap();
    assert_eq!(p.kind, ProposalKind::Upgrade);
    assert_eq!(p.function, sym("upgrade"));
    assert_eq!(p.args, vec![Argument::Dao, Argument::CodeHash([7; 32])]);
    w.vote(a, standard, VoteChoice::For).unwrap();
    w.vote(b, upgrade, VoteChoice::For).unwrap();
    w.now += PAST_DELAY;
    for id in [standard, upgrade] {
        w.finalize(id).unwrap();
    }
    let sent = w.dao.outbox.len();
    w.execute(standard).unwrap();
    assert_eq!(w.dao.outbox.len(), sent + 1);
    assert!(w.invoked.is_empty());
    w.execute(upgrade).unwrap();
    assert_eq!(w.invoked, vec![(upgrade, w.target, sym("upgrade"))]);
}

#[test]
fn timelocks_and_deadlines_bound_execution() {
    let mut w = world(DaoConfig { proposal_timelock: 1_000, ..config() }, 500_000 * UNIT);
    let (a, b) = (w.voter1, w.voter2);
    let early = w.propose("Early");
    let late = w.propose("Late");
    w.vote(a, early, VoteChoice::For).unwrap();
    w.vote(b, late, VoteChoice::For).unwrap();
    w.now = VOTING_PERIOD + 301;
    w.finalize(early).unwrap();
    w.finalize(late).unwrap();
    w.now += 999;
    assert_eq!(code(w.execute(early)), 13);
    w.now += 1;
    assert_eq!(w.execute(early), Ok(()));
    let deadline = VOTING_PERIOD + 300 + 7 * 24 * 3600;
    assert_eq!(w.dao.get_proposal(late).unwrap().execution_deadline, deadline);
    w.now = deadline + 1;
    assert_eq!(code(w.execute(late)), 31);
    assert_eq!(w.status(late), ProposalStatus::Passed);
    w.now = deadline;
    assert_eq!(w.execute(late), Ok(()));
}

#[test]
fn votes_wait_for_the_discussion() {
    let mut w = world(DaoConfig { discussion_period: 100, ..config() }, 500_000 * UNIT);
    let (a, b) = (w.voter1, w.voter2);
    let pid = w.propose("Talk first");
    assert_eq!(w.status(pid), ProposalStatus::Discussion);
    w.now = 99;
    assert_eq!(code(w.vote(a, pid, VoteChoice::For)), 6);
    w.now = 100;
    w.vote(a, pid, VoteChoice::For).unwrap();
    assert_eq!(w.status(pid), ProposalStatus::Active);
    w.now = 100 + VOTING_PERIOD;
    w.vote(b, pid, VoteChoice::For).unwrap();
    let ended = w
        .dao
        .outbox
        .iter()
        .filter(|e| matches!(e, Effect::Emit(Event::DiscussionPeriodEnded(d)) if d.proposal_id == pid))
        .count();
    assert_eq!(ended, 1);
    w.now = 100 + VOTING_PERIOD + 301;
    w.finalize(pid).unwrap();
    assert_eq!(w.status(pid), ProposalStatus::Passed);
    let silent = w.propose("Nobody talks");
    w.now += 100 + VOTING_PERIOD + 301;
    w.finalize(silent).unwrap();
    assert_eq!(w.status(silent), ProposalStatus::Failed);
}

#[test]
fn weights_are_capped() {
    let mut w = world(DaoConfig { vote_weight_cap: 200_000 * UNIT, ..config() }, 500_000 * UNIT);
    let (a, b, c) = (w.voter1, w.voter2, w.admin);
    let pid = w.propose("Whales");
    w.vote(a, pid, VoteChoice::For).unwrap();
    w.vote(b, pid, VoteChoice::Against).unwrap();
    w.vote(c, pid, VoteChoice::Against).unwrap();
    let p = w.dao.get_proposal(pid).unwrap();
    assert_eq!(p.votes_for, 200_000 * UNIT);
    assert_eq!(p.votes_against, 300_000 * UNIT);
    assert_eq!(w.dao.get_vote(pid, a).unwrap().weight, 200_000 * UNIT);
    // the whole balance is locked, and comes back
    assert_eq!(w.balance(a), 0);
    w.now += PAST_DELAY;
    w.finalize(pid).unwrap();
    assert_eq!(w.status(pid), ProposalStatus::Failed);
    w.dao.withdraw_tokens(a, pid).unwrap();
    w.settle();
    assert_eq!(w.balance(a), 1_000_000 * UNIT);
}

#[test]
fn cancelling_ends_with_voting() {
    let mut w = setup();
    let pid = w.propose("On time");
    let late = w.propose("Too late");
    w.now = VOTING_PERIOD;
    assert_eq!(w.dao.cancel(w.now, w.admin, pid), Ok(()));
    w.now = VOTING_PERIOD + 1;
    assert_eq!(code(w.dao.cancel(w.now, w.admin, late)), 8);
    assert_eq!(w.status(late), ProposalStatus::Active);
}

#[test]
fn every_proposal_comes_with_an_impact_analysis() {
    let mut w = setup();
    let (a, target) = (w.voter1, w.target);
    let balance = w.balance(a);
    let mut with = |analysis: Vec<u8>| {
        w.dao.create_proposal(0, a, b"T".to_vec(), target, sym("update"), vec![], analysis, balance)
    };
    assert_eq!(code(with(vec![])), 33);
    assert_eq!(code(with(vec![b'x'; 4097])), 34);
    assert_eq!(with(vec![b'x'; 4096]), Ok(0));
    assert_eq!(code(w.dao.propose_upgrade(0, a, vec![], target, [1; 32], vec![], balance)), 33);
    assert_eq!(w.dao.get_proposal(0).unwrap().impact_analysis, vec![b'x'; 4096]);
}

#[test]
fn an_execution_without_a_callback_is_verified() {
    let (mut w, pid) = passed();
    let p = w.dao.get_proposal(pid).unwrap();
    assert_eq!((p.verification_callback, p.execution_verified), (None, false));
    w.execute(pid).unwrap();
    assert!(w.dao.get_proposal(pid).unwrap().execution_verified);
}

#[test]
fn titles_are_short() {
    let mut w = setup();
    let a = w.voter1;
    let long = "x".repeat(257);
    assert_eq!(code(w.try_propose(a, &long, "update")), 32);
    assert_eq!(w.try_propose(a, &long[..256], "update"), Ok(0));
}

#[test]
fn code_changes_wait_for_guardians() {
    let mut w = setup();
    let admin = w.admin;
    let (g1, g2) = (address(b'G', 10), address(b'G', 11));
    assert_eq!(code(w.dao.upgrade(admin, [1; 32], 1)), 15);
    w.dao.upgrade(admin, [1; 32], 2).unwrap();
    assert_eq!(w.dao.get_version(), 2);
    assert_eq!(code(w.dao.set_guardians(admin, vec![g1], 2)), 23);
    w.dao.set_guardians(admin, vec![g1, g2], 2).unwrap();
    match w.dao.outbox.last() {
        Some(Effect::Emit(Event::GuardiansUpdated { guardians, threshold })) => {
            assert_eq!(guardians.to_list(), vec![g1, g2]);
            assert_eq!(*threshold, 2);
        }
        other => panic!("{:?}", other),
    }
    assert_eq!(w.dao.get_guardians(), &vec![g1, g2]);
    assert_eq!(w.dao.get_guardian_threshold(), 2);
    assert_eq!(code(w.dao.approve_upgrade(g1, [3; 32])), 22);
    w.dao.upgrade(admin, [3; 32], 3).unwrap();
    assert_eq!(w.dao.get_version(), 2);
    assert_eq!(code(w.dao.approve_upgrade(admin, [3; 32])), 20);
    w.dao.approve_upgrade(g1, [3; 32]).unwrap();
    assert_eq!(code(w.dao.approve_upgrade(g1, [3; 32])), 21);
    w.dao.approve_upgrade(g2, [3; 32]).unwrap();
    assert_eq!(w.dao.get_version(), 3);
    assert!(w.dao.outbox.contains(&Effect::ReplaceCode([3; 32])));
    assert!(w.dao.get_pending_upgrade().is_none());
    assert_eq!(code(w.dao.cancel_pending_upgrade(admin)), 22);
    w.dao.upgrade(admin, [4; 32], 4).unwrap();
    w.dao.cancel_pending_upgrade(admin).unwrap();
    assert_eq!(code(w.dao.approve_upgrade(g1, [4; 32])), 22);
}

/// The tokens that the DAO took in and did not give back.
fn held(w: &World) -> i128 {
    w.dao
        .outbox
        .iter()
        .map(|e| match e {
            Effect::Collect { amount, .. } => *amount,
            Effect::Pay { amount, .. } => -*amount,
            _ => 0,
        })
        .sum()
}

#[test]
fn tallies_and_books_add_up() {
    let mut w = setup();
    let (a, b, c) = (w.voter1, w.voter2, w.admin);
    let first = w.propose("First");
    let second = w.propose("Second");
    w.vote(a, first, VoteChoice::For).unwrap();
    w.vote(b, first, VoteChoice::Against).unwrap();
    w.vote(c, second, VoteChoice::Abstain).unwrap();
    let p = w.dao.get_proposal(first).unwrap();
    assert_eq!(p.votes_for, w.dao.get_vote(first, a).unwrap().weight);
    assert_eq!(p.votes_against, w.dao.get_vote(first, b).unwrap().weight);
    assert_eq!((p.votes_for, p.votes_against, p.votes_abstain), (980_000 * UNIT, 500_000 * UNIT, 0));
    // two deposits, and all that the three hold
    assert_eq!(held(&w), 1_600_000 * UNIT);
    w.dao.cancel(w.now, c, second).unwrap();
    w.settle();
    assert_eq!(held(&w), 1_590_000 * UNIT);
    w.now += PAST_DELAY;
    w.finalize(first).unwrap();
    assert_eq!(held(&w), 1_580_000 * UNIT);
    w.dao.withdraw_tokens(a, first).unwrap();
    w.dao.withdraw_tokens(b, first).unwrap();
    w.dao.withdraw_tokens(c, second).unwrap();
    assert_eq!(held(&w), 0);
}

#[test]
fn overflows_are_seen_beforehand() {
    let mut w = setup();
    let (a, b) = (w.voter1, w.voter2);
    let pid = w.propose("Huge");
    let other = w.propose("Late");
    assert!(w.dao.vote_computable(0, a, pid, VoteChoice::For, i128::MAX));
    w.dao.vote(w.now, a, pid, VoteChoice::For, i128::MAX).unwrap();
    assert!(!w.dao.vote_computable(0, b, pid, VoteChoice::For, 1));
    assert!(w.dao.vote_computable(0, b, pid, VoteChoice::Against, 1));
    // what is refused anyway need not be computed
    assert!(w.dao.vote_computable(0, a, pid, VoteChoice::For, 1));
    assert!(w.dao.vote_computable(0, b, 99, VoteChoice::For, 1));
    w.dao.vote(w.now, b, pid, VoteChoice::Against, 1).unwrap();
    assert!(w.dao.finalize_computable(0, pid));
    assert!(!w.dao.finalize_computable(PAST_DELAY, pid));
    assert!(w.dao.finalize_computable(PAST_DELAY, 99));
    assert!(w.dao.reclaim_computable(PAST_DELAY, pid));
    assert!(!w.dao.reclaim_computable(u64::MAX, pid));
    assert!(w.dao.reclaim_computable(u64::MAX, 99));
    w.dao.vote(w.now, a, other, VoteChoice::For, 1_600_000 * UNIT).unwrap();
    assert!(w.dao.finalize_computable(PAST_DELAY, other));
    let cfg = DaoConfig { proposal_timelock: u64::MAX, ..config() };
    w.dao.update_config(w.admin, cfg).unwrap();
    assert!(!w.dao.finalize_computable(PAST_DELAY, other));
}
