use astera_contracts::access_control::{
    AccessControlContract, ActionPayload, Role,
};
use astera_contracts::calls::{CallArg, TargetCall};
use astera_contracts::governance::{
    category_from_discriminant, count_fits, execute_governance_action, LoyaltyTier, validate_bps, Governance, GovernanceAction, GovernanceError,
    ComplianceAction, InvoiceAction, OracleRegistryAction, PoolAction, ProposalCategory, ProposalStatus,
};

const VOTING_PERIOD: u64 = 86_400;
const EXEC_DELAY: u64 = 100;
const QUORUM_BPS: u32 = 1_000;
const PASS_BPS: u32 = 6_000;
const MIN_SHARE_BALANCE: i128 = 1;
/// The governance contract's own address.
const GOVERNANCE_SELF: u64 = 9;
/// The target contract of the proposals.
const TARGET: u64 = 3;

/// A share token that remembers every balance change with its time, so that
/// balances can be read as of a past moment.
#[derive(Default)]
struct Shares {
    changes: Vec<(u64, u64, i128)>,
}

impl Shares {
    fn mint(&mut self, now: u64, to: u64, amount: i128) {
        self.changes.push((now, to, amount));
    }

    fn transfer(&mut self, now: u64, from: u64, to: u64, amount: i128) {
        self.changes.push((now, from, -amount));
        self.changes.push((now, to, amount));
    }

    fn balance_at(&self, who: u64, at: u64) -> i128 {
        self.changes
            .iter()
            .filter(|(t, a, _)| *a == who && *t <= at)
            .map(|(_, _, d)| *d)
            .sum()
    }

    fn balance(&self, who: u64) -> i128 {
        self.balance_at(who, u64::MAX)
    }

    fn total_supply(&self) -> i128 {
        self.changes.iter().map(|(_, _, d)| *d).sum()
    }
}

/// A target contract that records what governance sets on it. It accepts a
/// setter call only when the authorising governance, the first argument, is
/// the governance contract it trusts.
#[derive(Default)]
struct MockTarget {
    yield_bps: u32,
    grace_days: u32,
    treasury: Option<u64>,
    exchange_rates: Vec<(u64, i128)>,
}

impl MockTarget {
    fn apply(&mut self, call: &TargetCall) {
        assert_eq!(call.target, TARGET);
        assert_eq!(call.args[0], CallArg::Account(GOVERNANCE_SELF), "caller is not the trusted governance");
        match (call.entry_point, &call.args[1..]) {
            ("set_yield_via_governance", [CallArg::U32(b)]) => self.yield_bps = *b,
            ("set_grace_period_via_governance", [CallArg::U32(d)]) => self.grace_days = *d,
            ("set_treasury_via_governance", [CallArg::OptionalAccount(t)]) => self.treasury = *t,
            ("set_exchange_rate_via_governance", [CallArg::Account(token), CallArg::I128(rate)]) => {
                self.exchange_rates.push((*token, *rate))
            }
            _ => panic!("the mock target has no such entry point"),
        }
    }
}

struct World {
    gov: Governance,
    shares: Shares,
    target: MockTarget,
    target_id: u64,
    admin: u64,
    now: u64,
    next_account: u64,
}

impl World {
    fn new() -> World {
        World::with_min_share(MIN_SHARE_BALANCE)
    }

    fn with_min_share(min_share: i128) -> World {
        let mut gov = Governance::new();
        gov.initialize(1, 2, VOTING_PERIOD, QUORUM_BPS, PASS_BPS, EXEC_DELAY, min_share)
            .unwrap();
        World {
            gov,
            shares: Shares::default(),
            target: MockTarget::default(),
            target_id: TARGET,
            admin: 1,
            now: 1_000,
            next_account: 100,
        }
    }

    fn account(&mut self) -> u64 {
        self.next_account += 1;
        self.next_account
    }

    fn mint(&mut self, to: u64, amount: i128) {
        let now = self.now;
        self.shares.mint(now, to, amount);
    }

    fn try_create(
        &mut self,
        proposer: u64,
        description: &str,
        action: GovernanceAction,
        category: ProposalCategory,
    ) -> Result<u64, GovernanceError> {
        let balance = self.shares.balance_at(proposer, self.now);
        let supply = self.shares.total_supply();
        let target = self.target_id;
        self.gov.create_proposal(
            proposer,
            description.to_string(),
            target,
            action,
            category,
            self.now,
            balance,
            supply,
        )
    }

    fn make_proposal(&mut self, proposer: u64) -> u64 {
        self.try_create(
            proposer,
            "Test proposal",
            placeholder_action(),
            ProposalCategory::ParameterChange,
        )
        .unwrap()
    }

    fn make_proposal_with_category(&mut self, proposer: u64, category: ProposalCategory) -> u64 {
        self.try_create(proposer, "Test proposal", placeholder_action(), category)
            .unwrap()
    }

    fn try_vote(&mut self, id: u64, voter: u64, in_favor: bool) -> Result<(), GovernanceError> {
        let created = self.gov.get_proposal(id).map(|p| p.created_at).unwrap_or(0);
        let weight = self.shares.balance_at(voter, created);
        self.gov.vote(id, voter, in_favor, self.now, weight)
    }

    fn vote(&mut self, id: u64, voter: u64, in_favor: bool) {
        self.try_vote(id, voter, in_favor).unwrap()
    }

    /// Executes a proposal, delivering its action to the target when due.
    fn try_execute(&mut self, id: u64) -> Result<(), GovernanceError> {
        let call = self.gov.execute_proposal(id, self.now, GOVERNANCE_SELF)?;
        self.target.apply(&call);
        Ok(())
    }

    fn execute(&mut self, id: u64) {
        self.try_execute(id).unwrap()
    }

    fn list(&mut self) {
        let now = self.now;
        self.gov.list_proposals(now);
    }

    fn status(&self, id: u64) -> ProposalStatus {
        self.gov.get_proposal(id).unwrap().status
    }
}

fn placeholder_action() -> GovernanceAction {
    GovernanceAction::Pool(PoolAction::SetPoolYield(1500))
}

// ── snapshot captured at creation ────────────────────────────────────────────

#[test]
fn test_snapshot_supply_recorded_at_creation() {
    let mut w = World::new();
    let proposer = w.account();
    w.mint(proposer, 1_000_000);
    let id = w.make_proposal(proposer);
    assert_eq!(w.gov.get_proposal(id).unwrap().snapshot_supply, 1_000_000i128);
}

#[test]
fn test_snapshot_supply_does_not_reflect_later_mints() {
    let mut w = World::new();
    let proposer = w.account();
    w.mint(proposer, 500_000);
    let id = w.make_proposal(proposer);
    w.mint(proposer, 4_500_000);
    assert_eq!(w.shares.total_supply(), 5_000_000i128);
    assert_eq!(w.gov.get_proposal(id).unwrap().snapshot_supply, 500_000i128);
}

#[test]
fn test_post_creation_minting_cannot_suppress_passing_proposal() {
    let mut w = World::new();
    let share_admin = w.account();
    let proposer = w.account();
    let voter_a = w.account();
    let voter_b = w.account();
    w.mint(proposer, 1_000);
    w.mint(voter_a, 80_000);
    w.mint(voter_b, 25_000);
    let id = w.make_proposal(proposer);
    w.vote(id, voter_a, true);
    w.vote(id, voter_b, true);
    w.now += VOTING_PERIOD + 1;
    w.mint(share_admin, 2_000_000);
    w.now += EXEC_DELAY + 1;
    w.execute(id);
    assert_eq!(w.status(id), ProposalStatus::Executed);
}

#[test]
fn test_post_creation_minting_cannot_manufacture_quorum() {
    let mut w = World::new();
    let proposer = w.account();
    let voter = w.account();
    w.mint(proposer, 1_000_000);
    w.mint(voter, 50_000);
    let id = w.make_proposal(proposer);
    w.vote(id, voter, true);
    w.now += VOTING_PERIOD + EXEC_DELAY + 2;
    let result = w.try_execute(id);
    assert!(result.is_err(), "proposal below quorum must be rejected");
    w.list();
    assert_eq!(w.status(id), ProposalStatus::Rejected);
}

// ── normal voting flow still works ───────────────────────────────────────────

#[test]
fn test_proposal_passes_when_quorum_and_threshold_met() {
    let mut w = World::new();
    let proposer = w.account();
    let voter = w.account();
    w.mint(proposer, 1_000);
    w.mint(voter, 200_000);
    let id = w.make_proposal(proposer);
    w.vote(id, voter, true);
    w.now += VOTING_PERIOD + EXEC_DELAY + 2;
    w.execute(id);
    assert_eq!(w.status(id), ProposalStatus::Executed);
}

#[test]
fn lib_test_proposal_rejected_when_quorum_not_met() {
    let mut w = World::new();
    let proposer = w.account();
    let small_voter = w.account();
    w.mint(proposer, 900_000);
    w.mint(small_voter, 1_000);
    let id = w.make_proposal(proposer);
    w.vote(id, small_voter, true);
    w.now += VOTING_PERIOD + EXEC_DELAY + 2;
    assert!(w.try_execute(id).is_err());
    w.list();
    assert_eq!(w.status(id), ProposalStatus::Rejected);
}

#[test]
fn test_proposal_rejected_when_pass_threshold_not_met() {
    let mut w = World::new();
    let proposer = w.account();
    let yes_voter = w.account();
    let no_voter = w.account();
    w.mint(proposer, 1_000);
    w.mint(yes_voter, 100_000);
    w.mint(no_voter, 100_000);
    let id = w.make_proposal(proposer);
    w.vote(id, yes_voter, true);
    w.vote(id, no_voter, false);
    w.now += VOTING_PERIOD + EXEC_DELAY + 2;
    assert!(w.try_execute(id).is_err());
    w.list();
    assert_eq!(w.status(id), ProposalStatus::Rejected);
}

// ── edge cases ────────────────────────────────────────────────────────────────

#[test]
fn test_zero_quorum_supply_of_one_still_passes() {
    let mut w = World::new();
    let proposer = w.account();
    w.mint(proposer, 1);
    let id = w
        .try_create(
            proposer,
            "zero-quorum proposal",
            placeholder_action(),
            ProposalCategory::ParameterChange,
        )
        .unwrap();
    w.now += VOTING_PERIOD + EXEC_DELAY + 2;
    w.execute(id);
    let p = w.gov.get_proposal(id).unwrap();
    assert_eq!(p.snapshot_supply, 1i128);
    assert_eq!(p.status, ProposalStatus::Executed);
}

#[test]
fn test_cannot_vote_after_voting_period_ends() {
    let mut w = World::new();
    let proposer = w.account();
    let voter = w.account();
    w.mint(proposer, 1_000);
    w.mint(voter, 100_000);
    let id = w.make_proposal(proposer);
    w.now += VOTING_PERIOD + 1;
    let result = w.try_vote(id, voter, true);
    assert!(result.is_err(), "voting after period must fail");
}

#[test]
fn test_cannot_vote_twice() {
    let mut w = World::new();
    let proposer = w.account();
    let voter = w.account();
    w.mint(proposer, 1_000);
    w.mint(voter, 100_000);
    let id = w.make_proposal(proposer);
    w.vote(id, voter, true);
    let result = w.try_vote(id, voter, false);
    assert!(result.is_err(), "double vote must fail");
}

// ── cancel_proposal ───────────────────────────────────────────────────────────

#[test]
fn test_cancel_proposal_by_proposer_while_active() {
    let mut w = World::new();
    let proposer = w.account();
    w.mint(proposer, 10_000);
    let id = w.make_proposal(proposer);
    w.gov.cancel_proposal(id, proposer).unwrap();
    assert_eq!(w.status(id), ProposalStatus::Cancelled);
}

#[test]
fn test_proposer_cannot_cancel_passed_proposal() {
    let mut w = World::new();
    let proposer = w.account();
    let voter = w.account();
    w.mint(proposer, 1_000);
    w.mint(voter, 200_000);
    let id = w.make_proposal(proposer);
    w.vote(id, voter, true);
    w.now += VOTING_PERIOD + 1;
    w.list();
    assert_eq!(w.status(id), ProposalStatus::Passed);
    let result = w.gov.cancel_proposal(id, proposer);
    assert_eq!(result, Err(GovernanceError::Unauthorized));
    assert_eq!(w.status(id), ProposalStatus::Passed);
}

#[test]
fn test_admin_can_cancel_passed_proposal() {
    let mut w = World::new();
    let proposer = w.account();
    let voter = w.account();
    w.mint(proposer, 1_000);
    w.mint(voter, 200_000);
    let id = w.make_proposal(proposer);
    w.vote(id, voter, true);
    w.now += VOTING_PERIOD + 1;
    w.list();
    assert_eq!(w.status(id), ProposalStatus::Passed);
    let admin = w.admin;
    w.gov.cancel_proposal(id, admin).unwrap();
    assert_eq!(w.status(id), ProposalStatus::Cancelled);
}

// ── vote weight is snapshotted at proposal creation ──────────────────────────

#[test]
fn test_vote_weight_ignores_shares_acquired_after_proposal_creation() {
    let mut w = World::new();
    let proposer = w.account();
    let latecomer = w.account();
    w.mint(proposer, 1_000_000);
    let id = w.make_proposal(proposer);
    w.now += 10;
    w.mint(latecomer, 5_000_000);
    let result = w.try_vote(id, latecomer, true);
    assert!(
        result.is_err(),
        "voter with zero balance at snapshot time must not be able to vote"
    );
}

#[test]
fn test_vote_weight_uses_balance_at_creation_not_at_vote_time() {
    let mut w = World::new();
    let proposer = w.account();
    let voter = w.account();
    w.mint(proposer, 1_000);
    w.mint(voter, 50_000);
    let id = w.make_proposal(proposer);
    w.now += 10;
    let stranger = w.account();
    let now = w.now;
    w.shares.transfer(now, voter, stranger, 49_000);
    assert_eq!(w.shares.balance(voter), 1_000);
    w.vote(id, voter, true);
    w.now += VOTING_PERIOD + EXEC_DELAY + 2;
    w.execute(id);
    let p = w.gov.get_proposal(id).unwrap();
    assert_eq!(p.votes_for, 50_000i128);
    assert_eq!(p.status, ProposalStatus::Executed);
}

// ── governance-configurable quorum / pass threshold ──────────────────────────

#[test]
fn test_update_config_by_admin_changes_quorum_and_threshold() {
    let mut w = World::new();
    let admin = w.admin;
    w.gov.update_config(admin, 2_000, 5_500).unwrap();
    let config = w.gov.get_config().unwrap();
    assert_eq!(config.quorum_bps, 2_000);
    assert_eq!(config.pass_bps, 5_500);
}

#[test]
fn test_update_config_rejects_non_admin_caller() {
    let mut w = World::new();
    let impostor = w.account();
    assert!(w.gov.update_config(impostor, 2_000, 5_500).is_err());
}

#[test]
fn test_update_config_rejects_invalid_threshold() {
    let mut w = World::new();
    let admin = w.admin;
    assert!(w.gov.update_config(admin, 2_000, 5_000).is_err());
}

// ── min_share_balance is updatable after initialize ─────────────────────────

#[test]
fn test_update_min_share_balance_by_admin() {
    let mut w = World::new();
    let admin = w.admin;
    w.gov.update_min_share_balance(admin, 10_000).unwrap();
    assert_eq!(w.gov.get_config().unwrap().min_share_balance, 10_000i128);
    let proposer = w.account();
    w.mint(proposer, 9_999);
    let result = w.try_create(
        proposer,
        "under new threshold",
        placeholder_action(),
        ProposalCategory::ParameterChange,
    );
    assert_eq!(result, Err(GovernanceError::InsufficientShareBalance));
}

#[test]
fn test_update_min_share_balance_rejects_non_admin_caller() {
    let mut w = World::new();
    let impostor = w.account();
    assert_eq!(
        w.gov.update_min_share_balance(impostor, 10_000),
        Err(GovernanceError::Unauthorized)
    );
}

#[test]
fn test_update_min_share_balance_rejects_non_positive_value() {
    let mut w = World::new();
    let admin = w.admin;
    assert_eq!(
        w.gov.update_min_share_balance(admin, 0),
        Err(GovernanceError::InvalidConfig)
    );
    assert_eq!(
        w.gov.update_min_share_balance(admin, -1),
        Err(GovernanceError::InvalidConfig)
    );
}

// ── passed proposals expire if not executed in time ──────────────────────────

#[test]
fn test_passed_proposal_expires_if_not_executed_within_seven_days() {
    let mut w = World::new();
    let proposer = w.account();
    let voter = w.account();
    w.mint(proposer, 1_000);
    w.mint(voter, 200_000);
    let id = w.make_proposal(proposer);
    w.vote(id, voter, true);
    w.now += VOTING_PERIOD + EXEC_DELAY + 2;
    w.list();
    assert_eq!(w.status(id), ProposalStatus::Passed);
    w.now += 7 * 86_400 + 1;
    assert!(w.try_execute(id).is_err(), "expired proposal must not be executable");
    w.list();
    assert_eq!(w.status(id), ProposalStatus::Expired);
}

#[test]
fn test_passed_proposal_executes_within_expiry_window() {
    let mut w = World::new();
    let proposer = w.account();
    let voter = w.account();
    w.mint(proposer, 1_000);
    w.mint(voter, 200_000);
    let id = w.make_proposal(proposer);
    w.vote(id, voter, true);
    w.now += VOTING_PERIOD + EXEC_DELAY + 2;
    w.now += 3 * 86_400;
    w.execute(id);
    assert_eq!(w.status(id), ProposalStatus::Executed);
}

// ── voting period must fully elapse before execute ───────────────────────────

#[test]
fn test_execute_rejected_at_exact_voting_ends_at() {
    let mut w = World::new();
    let proposer = w.account();
    let voter = w.account();
    w.mint(proposer, 1_000);
    w.mint(voter, 200_000);
    let id = w.make_proposal(proposer);
    w.vote(id, voter, true);
    w.now = w.gov.get_proposal(id).unwrap().voting_ends_at;
    assert_eq!(
        w.try_execute(id),
        Err(GovernanceError::VotingPeriodActive),
        "execute at voting_ends_at must fail even with unanimous support"
    );
    let late_voter = w.account();
    w.mint(late_voter, 10_000);
    assert!(w.try_vote(id, late_voter, true).is_err(), "vote at voting_ends_at must fail");
}

#[test]
fn test_execute_requires_voting_period_elapsed_before_timelock() {
    let mut w = World::new();
    let proposer = w.account();
    let voter = w.account();
    w.mint(proposer, 1_000);
    w.mint(voter, 200_000);
    let id = w.make_proposal(proposer);
    w.vote(id, voter, true);
    w.now += VOTING_PERIOD / 2;
    assert_eq!(w.try_execute(id), Err(GovernanceError::VotingPeriodActive));
    w.now = w.gov.get_proposal(id).unwrap().voting_ends_at + 1;
    assert_eq!(w.try_execute(id), Err(GovernanceError::TimelockActive));
}

// ── proposal threshold / create eligibility ──────────────────────────────────

#[test]
fn test_create_proposal_rejects_zero_balance() {
    let mut w = World::new();
    let holder = w.account();
    w.mint(holder, 100_000);
    let poor = w.account();
    let result = w.try_create(poor, "spam", placeholder_action(), ProposalCategory::ParameterChange);
    assert_eq!(result, Err(GovernanceError::InsufficientShareBalance));
}

#[test]
fn test_create_proposal_rejects_below_min_share_balance() {
    let mut w = World::with_min_share(10_000);
    let proposer = w.account();
    w.mint(proposer, 9_999);
    let result = w.try_create(
        proposer,
        "under threshold",
        placeholder_action(),
        ProposalCategory::ParameterChange,
    );
    assert_eq!(result, Err(GovernanceError::InsufficientShareBalance));
    w.mint(proposer, 1);
    let id = w
        .try_create(proposer, "at threshold", placeholder_action(), ProposalCategory::ParameterChange)
        .unwrap();
    assert_eq!(id, 1u64);
}

// ── proposal categories with per-category quorum ─────────────────────────────

#[test]
fn test_category_quorum_defaults_and_snapshot() {
    let mut w = World::new();
    assert_eq!(
        w.gov.get_category_quorum(ProposalCategory::ParameterChange),
        Ok(QUORUM_BPS)
    );
    assert_eq!(w.gov.get_category_quorum(ProposalCategory::Treasury), Ok(2_000));
    assert_eq!(w.gov.get_category_quorum(ProposalCategory::Critical), Ok(5_000));
    let proposer = w.account();
    w.mint(proposer, 1_000_000);
    let param_id = w.make_proposal_with_category(proposer, ProposalCategory::ParameterChange);
    let treasury_id = w.make_proposal_with_category(proposer, ProposalCategory::Treasury);
    let critical_id = w.make_proposal_with_category(proposer, ProposalCategory::Critical);
    assert_eq!(w.gov.get_proposal(param_id).unwrap().quorum_bps, QUORUM_BPS);
    assert_eq!(w.gov.get_proposal(treasury_id).unwrap().quorum_bps, 2_000);
    assert_eq!(w.gov.get_proposal(critical_id).unwrap().quorum_bps, 5_000);
    assert_eq!(
        w.gov.get_proposal(critical_id).unwrap().category,
        ProposalCategory::Critical
    );
    let admin = w.admin;
    w.gov
        .set_category_quorum(admin, ProposalCategory::Critical, 8_000)
        .unwrap();
    assert_eq!(w.gov.get_category_quorum(ProposalCategory::Critical), Ok(8_000));
    assert_eq!(
        w.gov.get_proposal(critical_id).unwrap().quorum_bps,
        5_000,
        "in-flight proposal keeps creation-time quorum"
    );
    let new_critical = w.make_proposal_with_category(proposer, ProposalCategory::Critical);
    assert_eq!(w.gov.get_proposal(new_critical).unwrap().quorum_bps, 8_000);
}

#[test]
fn test_critical_category_requires_higher_quorum() {
    let mut w = World::new();
    let proposer = w.account();
    let voter = w.account();
    w.mint(proposer, 800_000);
    w.mint(voter, 200_000);
    let param_id = w.make_proposal_with_category(proposer, ProposalCategory::ParameterChange);
    let critical_id = w.make_proposal_with_category(proposer, ProposalCategory::Critical);
    w.vote(param_id, voter, true);
    w.vote(critical_id, voter, true);
    w.now += VOTING_PERIOD + EXEC_DELAY + 2;
    w.execute(param_id);
    assert_eq!(w.status(param_id), ProposalStatus::Executed);
    assert!(w.try_execute(critical_id).is_err());
    w.list();
    assert_eq!(w.status(critical_id), ProposalStatus::Rejected);
}

#[test]
fn test_set_category_quorum_rejects_non_admin_and_invalid() {
    let mut w = World::new();
    let impostor = w.account();
    let admin = w.admin;
    assert!(w
        .gov
        .set_category_quorum(impostor, ProposalCategory::Treasury, 3_000)
        .is_err());
    assert!(w.gov.set_category_quorum(admin, ProposalCategory::Treasury, 0).is_err());
    assert!(w
        .gov
        .set_category_quorum(admin, ProposalCategory::Treasury, 10_001)
        .is_err());
}

// ── proposal → vote → timelock → execute cycle ──────────────────────────────

/// Admin holds a small stake; the voter a supermajority.
fn flow() -> (World, u64) {
    let mut gov = Governance::new();
    gov.initialize(1, 2, 86_400, 1_000, 6_000, 86_400, 1).unwrap();
    let mut w = World {
        gov,
        shares: Shares::default(),
        target: MockTarget::default(),
        target_id: 3,
        admin: 1,
        now: 0,
        next_account: 100,
    };
    let voter = w.account();
    let admin = w.admin;
    w.mint(admin, 1_000);
    w.mint(voter, 1_000_000);
    (w, voter)
}

fn pass_and_advance(w: &mut World, voter: u64, id: u64) {
    w.vote(id, voter, true);
    w.now += 86_400 + 86_400 + 2;
}

#[test]
fn test_create_proposal() {
    let (mut w, _voter) = flow();
    let admin = w.admin;
    let id = w.make_proposal(admin);
    let p = w.gov.get_proposal(id).unwrap();
    assert_eq!(p.proposer, admin);
    assert_eq!(p.target_contract, w.target_id);
    assert_eq!(p.description, "Test proposal".to_string());
}

#[test]
fn test_vote_on_proposal() {
    let (mut w, voter) = flow();
    let admin = w.admin;
    let id = w.make_proposal(admin);
    w.vote(id, voter, true);
    let p = w.gov.get_proposal(id).unwrap();
    assert_eq!(p.votes_for, 1_000_000i128);
    assert_eq!(p.votes_against, 0i128);
}

#[test]
fn test_execute_proposal_after_timelock() {
    let (mut w, voter) = flow();
    let admin = w.admin;
    let id = w.make_proposal(admin);
    pass_and_advance(&mut w, voter, id);
    w.execute(id);
    assert_eq!(w.status(id), ProposalStatus::Executed);
}

#[test]
fn test_execute_proposal_invokes_pool_style_setter() {
    let (mut w, voter) = flow();
    let admin = w.admin;
    let id = w
        .try_create(admin, "Update yield", placeholder_action(), ProposalCategory::ParameterChange)
        .unwrap();
    pass_and_advance(&mut w, voter, id);
    w.execute(id);
    assert_eq!(w.target.yield_bps, 1500u32);
}

#[test]
fn test_execute_proposal_invokes_oracle_registry_style_setter() {
    let (mut w, voter) = flow();
    let admin = w.admin;
    let new_treasury = w.account();
    let id = w
        .try_create(
            admin,
            "Update treasury",
            GovernanceAction::OracleRegistry(OracleRegistryAction::SetOracleRegistryTreasury(
                Some(new_treasury),
            )),
            ProposalCategory::ParameterChange,
        )
        .unwrap();
    pass_and_advance(&mut w, voter, id);
    w.execute(id);
    assert_eq!(w.target.treasury, Some(new_treasury));
}

#[test]
fn test_execute_proposal_rejects_before_quorum_finalizes() {
    let (mut w, _voter) = flow();
    let admin = w.admin;
    let id = w.make_proposal(admin);
    w.now += 86_400 + 86_400 + 2;
    assert_eq!(w.try_execute(id), Err(GovernanceError::QuorumNotMet));
    assert_eq!(w.target.yield_bps, 0u32);
}

#[test]
fn governance_flow_tests_test_proposal_rejected_when_quorum_not_met() {
    let (mut w, _voter) = flow();
    let admin = w.admin;
    let id = w.make_proposal(admin);
    let small_voter = w.account();
    w.mint(small_voter, 100);
    w.vote(id, small_voter, true);
    w.now += 86_400 + 86_400 + 2;
    assert_eq!(w.try_execute(id), Err(GovernanceError::QuorumNotMet));
}

#[test]
fn test_proposal_cannot_execute_before_timelock() {
    let (mut w, voter) = flow();
    let admin = w.admin;
    let id = w.make_proposal(admin);
    w.vote(id, voter, true);
    w.now += 86_400 + 1;
    assert_eq!(w.try_execute(id), Err(GovernanceError::TimelockActive));
}

// ── multisig access-control path ─────────────────────────────────────────────

fn ac_setup() -> (Governance, u64) {
    let mut gov = Governance::new();
    gov.initialize(1, 2, 0, 2_000, 6_000, 0, 1).unwrap();
    (gov, 1)
}

#[test]
fn test_legacy_admin_update_config_still_works_unmodified() {
    let (mut gov, admin) = ac_setup();
    gov.update_config(admin, 3_000, 7_000).unwrap();
    let cfg = gov.get_config().unwrap();
    assert_eq!(cfg.quorum_bps, 3_000);
    assert_eq!(cfg.pass_bps, 7_000);
}

#[test]
fn test_via_ac_entrypoint_rejected_when_access_control_not_configured() {
    let (mut gov, _admin) = ac_setup();
    assert_eq!(
        gov.update_config_via_ac(500, 3_000, 7_000),
        Err(GovernanceError::AccessControlNotConfigured)
    );
}

#[test]
fn test_via_ac_entrypoint_rejected_from_a_non_matching_address() {
    let (mut gov, admin) = ac_setup();
    gov.set_access_control(admin, 500).unwrap();
    assert_eq!(
        gov.update_config_via_ac(501, 3_000, 7_000),
        Err(GovernanceError::Unauthorized)
    );
    assert_eq!(gov.get_config().unwrap().quorum_bps, 2_000);
}

#[test]
fn test_via_ac_entrypoints_apply_the_same_effects_as_their_legacy_admin_counterparts() {
    let (mut gov, admin) = ac_setup();
    let access_control = 500;
    gov.set_access_control(admin, access_control).unwrap();
    gov.update_config_via_ac(access_control, 4_000, 8_000).unwrap();
    let cfg = gov.get_config().unwrap();
    assert_eq!(cfg.quorum_bps, 4_000);
    assert_eq!(cfg.pass_bps, 8_000);
    gov.set_category_quorum_via_ac(access_control, ProposalCategory::Treasury, 5_500)
        .unwrap();
    assert_eq!(gov.get_config().unwrap().treasury_quorum_bps, 5_500);
    gov.set_access_control_via_ac(access_control, 777).unwrap();
    assert_eq!(gov.get_access_control(), Some(777));
}

/// Runs a call of the access-control contract on the governance contract,
/// as the host does: the first argument is the authorising origin.
fn deliver(gov: &mut Governance, call: &TargetCall) {
    let origin = match call.args[0] {
        CallArg::Account(a) => a,
        _ => panic!("a call starts with its origin"),
    };
    match (call.entry_point, &call.args[1..]) {
        ("update_config_via_ac", [CallArg::U32(q), CallArg::U32(p)]) => {
            gov.update_config_via_ac(origin, *q, *p).unwrap()
        }
        ("set_category_quorum_via_ac", [CallArg::U32(d), CallArg::U32(q)]) => {
            let category = category_from_discriminant(*d).unwrap();
            gov.set_category_quorum_via_ac(origin, category, *q).unwrap()
        }
        ("set_access_control_via_ac", [CallArg::Account(a)]) => gov.set_access_control_via_ac(origin, *a).unwrap(),
        _ => panic!("not a governance entry point"),
    }
}

#[test]
fn test_real_access_control_contract_2_of_3_treasury_manager_changes_real_config() {
    let (mut gov, admin) = ac_setup();
    let governance_id = 9;
    let ac_id = 600;
    let mut ac = AccessControlContract::new(ac_id);
    let (super1, super2) = (601, 602);
    ac.initialize(vec![super1, super2], 2, 604_800).unwrap();
    gov.set_access_control(admin, ac_id).unwrap();
    let now = 0;
    for signer in [701u64, 702, 703] {
        let add = ac
            .propose_action(Role::SuperAdmin, super1, ac_id, ActionPayload::AddSigner(Role::TreasuryManager, signer), now)
            .unwrap();
        ac.approve_action(super2, add, now).unwrap();
        ac.execute_action(super1, add, now).unwrap();
    }
    let set_threshold = ac
        .propose_action(Role::SuperAdmin, super1, ac_id, ActionPayload::SetThreshold(Role::TreasuryManager, 2), now)
        .unwrap();
    ac.approve_action(super2, set_threshold, now).unwrap();
    ac.execute_action(super1, set_threshold, now).unwrap();
    let id = ac
        .propose_action(
            Role::TreasuryManager,
            701,
            governance_id,
            ActionPayload::UpdateGovernanceConfig(4_500, 7_500),
            now,
        )
        .unwrap();
    assert!(ac.execute_action(701, id, now).is_err());
    assert_eq!(gov.get_config().unwrap().quorum_bps, 2_000);
    ac.approve_action(702, id, now).unwrap();
    let call = ac.execute_action(701, id, now).unwrap().unwrap();
    assert_eq!(call.target, governance_id);
    assert_eq!(call.args[0], CallArg::Account(ac_id));
    deliver(&mut gov, &call);
    let cfg = gov.get_config().unwrap();
    assert_eq!(cfg.quorum_bps, 4_500);
    assert_eq!(cfg.pass_bps, 7_500);
}

// ── further cases ─────────────────────────────────────────────────────────────

#[test]
fn test_validate_bps_bounds() {
    assert_eq!(validate_bps(1, 5_001), Ok(()));
    assert_eq!(validate_bps(10_000, 10_000), Ok(()));
    assert_eq!(validate_bps(0, 6_000), Err(GovernanceError::InvalidConfig));
    assert_eq!(validate_bps(10_001, 6_000), Err(GovernanceError::InvalidConfig));
    assert_eq!(validate_bps(1_000, 5_000), Err(GovernanceError::InvalidConfig));
    assert_eq!(validate_bps(1_000, 10_001), Err(GovernanceError::InvalidConfig));
}

#[test]
fn test_category_from_discriminant_decodes_three_categories() {
    assert_eq!(category_from_discriminant(0), Ok(ProposalCategory::ParameterChange));
    assert_eq!(category_from_discriminant(1), Ok(ProposalCategory::Treasury));
    assert_eq!(category_from_discriminant(2), Ok(ProposalCategory::Critical));
    assert_eq!(category_from_discriminant(3), Err(GovernanceError::InvalidConfig));
}

#[test]
fn test_error_codes_follow_declaration_order() {
    assert_eq!(GovernanceError::NotInitialized.code(), 1);
    assert_eq!(GovernanceError::QuorumNotMet.code(), 8);
    assert_eq!(GovernanceError::GovernanceNotConfigured.code(), 14);
}

#[test]
fn test_initialize_rejections_and_defaults() {
    let mut gov = Governance::new();
    assert_eq!(
        gov.initialize(1, 2, 0, 0, 6_000, 0, 1).unwrap_err(),
        astera_contracts::governance::GovernanceInitError::InvalidQuorum
    );
    assert!(gov.initialize(1, 2, 0, 1_000, 5_000, 0, 1).is_err());
    assert!(gov.initialize(1, 2, 100, 1_000, 6_000, 0, 1).is_err());
    assert!(gov.initialize(1, 2, 0, 1_000, 6_000, 0, 0).is_err());
    gov.initialize(1, 2, 0, 1_000, 6_000, 0, 1).unwrap();
    let cfg = gov.get_config().unwrap();
    assert_eq!(cfg.voting_period_secs, 604_800);
    assert_eq!(cfg.execution_delay_secs, 172_800);
    assert_eq!(
        gov.initialize(1, 2, 0, 1_000, 6_000, 0, 1).unwrap_err(),
        astera_contracts::governance::GovernanceInitError::AlreadyInitialized
    );
}

#[test]
fn test_uninitialized_governance_refuses_proposals() {
    let mut gov = Governance::new();
    let r = gov.create_proposal(5, "x".to_string(), 3, placeholder_action(), ProposalCategory::ParameterChange, 0, 10, 10);
    assert_eq!(r, Err(GovernanceError::NotInitialized));
    assert_eq!(gov.get_config(), Err(GovernanceError::NotInitialized));
}

#[test]
fn test_vote_on_unknown_and_finished_proposals() {
    let mut w = World::new();
    let proposer = w.account();
    w.mint(proposer, 1_000);
    assert_eq!(w.try_vote(9, proposer, true), Err(GovernanceError::ProposalNotFound));
    let id = w.make_proposal(proposer);
    w.gov.cancel_proposal(id, proposer).unwrap();
    assert_eq!(w.try_vote(id, proposer, true), Err(GovernanceError::ProposalInactive));
    assert_eq!(w.try_execute(id), Err(GovernanceError::ProposalInactive));
    assert_eq!(
        w.gov.cancel_proposal(id, proposer),
        Err(GovernanceError::InvalidProposalState)
    );
}

#[test]
fn test_stranger_cannot_cancel_and_voting_power_preview() {
    let mut w = World::new();
    let proposer = w.account();
    let stranger = w.account();
    w.mint(proposer, 4_000);
    let id = w.make_proposal(proposer);
    assert_eq!(w.gov.cancel_proposal(id, stranger), Err(GovernanceError::Unauthorized));
    let weight = w.shares.balance_at(proposer, w.gov.get_proposal(id).unwrap().created_at);
    assert_eq!(w.gov.get_voting_power(id, weight), Ok(4_000));
    assert_eq!(w.gov.get_voting_power(42, weight), Err(GovernanceError::ProposalNotFound));
}

#[test]
fn test_finalize_arithmetic_uses_floor_quorum_and_pass_ratio() {
    // Supply 10_001 at 10% quorum needs floor(1_000.1) = 1_000 votes; 6_000
    // bps passes exactly at 60% in favour.
    let mut w = World::new();
    let proposer = w.account();
    let yes = w.account();
    let no = w.account();
    w.mint(proposer, 9_001);
    w.mint(yes, 600);
    w.mint(no, 400);
    let id = w.make_proposal(proposer);
    w.vote(id, yes, true);
    w.vote(id, no, false);
    w.now += VOTING_PERIOD;
    w.list();
    let p = w.gov.get_proposal(id).unwrap();
    assert_eq!(p.status, ProposalStatus::Passed);
    assert_eq!(p.passed_at, p.voting_ends_at);
}

#[test]
fn test_governance_address_check() {
    let mut w = World::new();
    assert_eq!(w.gov.require_governance(5), Err(GovernanceError::GovernanceNotConfigured));
    let admin = w.admin;
    assert_eq!(w.gov.set_governance_address(7, 5), Err(GovernanceError::Unauthorized));
    w.gov.set_governance_address(admin, 5).unwrap();
    assert_eq!(w.gov.get_governance_address(), Some(5));
    assert_eq!(w.gov.require_governance(5), Ok(()));
    assert_eq!(w.gov.require_governance(6), Err(GovernanceError::Unauthorized));
}

#[test]
fn test_every_action_names_its_setter() {
    let setter = |a: GovernanceAction| execute_governance_action(GOVERNANCE_SELF, TARGET, &a).entry_point;
    let tiers = vec![LoyaltyTier { days_threshold: 30, bonus_bps: 50 }];
    assert_eq!(
        setter(GovernanceAction::Pool(PoolAction::SetPoolLoyaltyTiers(tiers))),
        "set_loyalty_tiers_via_governance"
    );
    assert_eq!(setter(GovernanceAction::Pool(PoolAction::SetPoolFeeTier(1, 2))), "set_fee_tier_via_governance");
    assert_eq!(
        setter(GovernanceAction::Pool(PoolAction::SetPoolExchangeRate(3, 5_000))),
        "set_exchange_rate_via_governance"
    );
    assert_eq!(
        setter(GovernanceAction::Pool(PoolAction::SetPoolCollateralConfig(7))),
        "set_collateral_config_via_governance"
    );
    assert_eq!(
        setter(GovernanceAction::Invoice(InvoiceAction::SetInvoiceGracePeriod(5))),
        "set_grace_period_via_governance"
    );
    assert_eq!(
        setter(GovernanceAction::Compliance(ComplianceAction::SetComplianceScreenerTimelock(5))),
        "set_screener_timelock_via_governance"
    );
}

#[test]
fn test_governance_call_carries_own_address_then_fields_in_order() {
    let tiers = vec![LoyaltyTier { days_threshold: 30, bonus_bps: 50 }, LoyaltyTier { days_threshold: 90, bonus_bps: 120 }];
    let call = execute_governance_action(GOVERNANCE_SELF, TARGET, &GovernanceAction::Pool(PoolAction::SetPoolLoyaltyTiers(tiers.clone())));
    assert_eq!(
        call,
        TargetCall {
            target: TARGET,
            entry_point: "set_loyalty_tiers_via_governance",
            args: vec![CallArg::Account(GOVERNANCE_SELF), CallArg::LoyaltyTiers(tiers)],
        }
    );
    let bounds = execute_governance_action(GOVERNANCE_SELF, TARGET, &GovernanceAction::Pool(PoolAction::SetPoolRateBounds(4, 100, 900)));
    assert_eq!(
        bounds.args,
        vec![CallArg::Account(GOVERNANCE_SELF), CallArg::Account(4), CallArg::U32(100), CallArg::U32(900)]
    );
    let config = execute_governance_action(
        GOVERNANCE_SELF,
        TARGET,
        &GovernanceAction::OracleRegistry(OracleRegistryAction::SetOracleRegistryConfig(1_000, 3, 6_000, 3_600, 86_400)),
    );
    assert_eq!(config.entry_point, "set_registry_config_via_governance");
    assert_eq!(
        config.args,
        vec![
            CallArg::Account(GOVERNANCE_SELF),
            CallArg::I128(1_000),
            CallArg::U32(3),
            CallArg::U32(6_000),
            CallArg::U64(3_600),
            CallArg::U64(86_400),
        ]
    );
    let uri = execute_governance_action(
        GOVERNANCE_SELF,
        TARGET,
        &GovernanceAction::Invoice(InvoiceAction::SetInvoiceMetadataImageUri("ipfs://x".to_string())),
    );
    assert_eq!(uri.args, vec![CallArg::Account(GOVERNANCE_SELF), CallArg::Text("ipfs://x".to_string())]);
}

#[test]
fn test_exchange_rate_proposal_calls_the_target_setter() {
    let mut w = World::new();
    let proposer = w.account();
    let voter = w.account();
    w.mint(proposer, 1_000);
    w.mint(voter, 200_000);
    let id = w
        .try_create(
            proposer,
            "rate",
            GovernanceAction::Pool(PoolAction::SetPoolExchangeRate(3, 5_000)),
            ProposalCategory::ParameterChange,
        )
        .unwrap();
    w.vote(id, voter, true);
    w.now += VOTING_PERIOD + EXEC_DELAY + 2;
    w.execute(id);
    assert_eq!(w.target.exchange_rates, vec![(3, 5_000)]);
    assert_eq!(w.status(id), ProposalStatus::Executed);
}

#[test]
fn test_more_yes_votes_with_more_supply_still_pass() {
    // Two worlds alike but for 1_000 more shares, all voting yes.
    let mut a = World::new();
    let mut b = World::new();
    let (pa, pb) = (a.account(), b.account());
    let (ya, yb) = (a.account(), b.account());
    let (na, nb) = (a.account(), b.account());
    let extra = b.account();
    a.mint(pa, 5_000);
    b.mint(pb, 5_000);
    a.mint(ya, 700);
    b.mint(yb, 700);
    a.mint(na, 300);
    b.mint(nb, 300);
    b.mint(extra, 1_000);
    let ida = a.make_proposal(pa);
    let idb = b.make_proposal(pb);
    a.vote(ida, ya, true);
    a.vote(ida, na, false);
    b.vote(idb, yb, true);
    b.vote(idb, nb, false);
    b.vote(idb, extra, true);
    a.now += VOTING_PERIOD;
    b.now += VOTING_PERIOD;
    a.list();
    b.list();
    assert_eq!(a.status(ida), ProposalStatus::Passed);
    assert_eq!(b.status(idb), ProposalStatus::Passed);
}

#[test]
fn test_large_vote_totals_are_recorded_and_their_count_is_checked() {
    let mut w = World::new();
    let proposer = w.account();
    let voter = w.account();
    let huge: i128 = 1_000_000_000_000_000_000_000_000_000_000_000_000;
    w.mint(proposer, 1_000);
    w.mint(voter, huge);
    let id = w.make_proposal(proposer);
    w.vote(id, voter, true);
    let p = w.gov.get_proposal(id).unwrap();
    assert_eq!(p.votes_for, huge);
    assert_eq!(p.snapshot_supply, huge + 1_000);
    // The quorum arithmetic scales the supply by the quorum in basis points,
    // which leaves `i128` here.
    assert!(!count_fits(p));
    let mut v = World::new();
    let small_proposer = v.account();
    v.mint(small_proposer, 1_000);
    let small = v.make_proposal(small_proposer);
    assert!(count_fits(v.gov.get_proposal(small).unwrap()));
}
