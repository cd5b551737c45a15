use astera_contracts::access_control::{
    execute_cross_contract, is_self_management, requires_super_admin, target_interface, validate_config,
    AccessControlContract, AccessControlError, ActionPayload, ProposalStatus, Role,
    TargetInterface, DEFAULT_PROPOSAL_EXPIRY_SECS, MAX_SIGNERS_PER_ROLE,
};
use astera_contracts::calls::{CallArg, TargetCall};

const CONTRACT: u64 = 1;
const START: u64 = 10_000;

struct Fixture {
    ac: AccessControlContract,
    contract_id: u64,
    now: u64,
    next: u64,
    s1: u64,
    s2: u64,
    s3: u64,
}

impl Fixture {
    fn generate(&mut self) -> u64 {
        self.next += 1;
        self.next
    }

    fn propose(&mut self, role: Role, proposer: u64, target: u64, action: ActionPayload) -> u64 {
        self.ac.propose_action(role, proposer, target, action, self.now).unwrap()
    }

    fn try_propose(
        &mut self,
        role: Role,
        proposer: u64,
        target: u64,
        action: ActionPayload,
    ) -> Result<u64, AccessControlError> {
        self.ac.propose_action(role, proposer, target, action, self.now)
    }

    fn approve(&mut self, signer: u64, id: u64) {
        self.ac.approve_action(signer, id, self.now).unwrap()
    }

    fn try_approve(&mut self, signer: u64, id: u64) -> Result<(), AccessControlError> {
        self.ac.approve_action(signer, id, self.now)
    }

    fn execute(&mut self, caller: u64, id: u64) -> Option<TargetCall> {
        self.ac.execute_action(caller, id, self.now).unwrap()
    }

    fn try_execute(&mut self, caller: u64, id: u64) -> Result<Option<TargetCall>, AccessControlError> {
        self.ac.execute_action(caller, id, self.now)
    }

    fn status(&self, id: u64) -> ProposalStatus {
        self.ac.get_proposal(id).unwrap().status
    }

    /// Runs a super-admin self-management action through propose, a second
    /// approval and execution.
    fn super_admin_apply(&mut self, action: ActionPayload) {
        let (s1, s2, id_c) = (self.s1, self.s2, self.contract_id);
        let id = self.propose(Role::SuperAdmin, s1, id_c, action);
        self.approve(s2, id);
        assert!(self.execute(s1, id).is_none());
    }
}

/// The super admin bootstrapped as 2-of-3 (s1, s2, s3).
fn setup() -> Fixture {
    let mut ac = AccessControlContract::new(CONTRACT);
    let (s1, s2, s3) = (11, 12, 13);
    ac.initialize(vec![s1, s2, s3], 2, 604_800).unwrap();
    Fixture { ac, contract_id: CONTRACT, now: START, next: 100, s1, s2, s3 }
}

#[test]
fn test_initialize_can_only_be_called_once() {
    let mut f = setup();
    let s1 = f.s1;
    let result = f.ac.initialize(vec![s1], 1, 604_800);
    assert_eq!(result.unwrap_err(), AccessControlError::AlreadyInitialized);
}

#[test]
fn test_initialize_rejects_threshold_above_signer_count() {
    let mut ac = AccessControlContract::new(CONTRACT);
    let result = ac.initialize(vec![21], 2, 604_800);
    assert_eq!(result.unwrap_err(), AccessControlError::InvalidThreshold);
}

#[test]
fn test_initialize_rejects_duplicate_signers() {
    let mut ac = AccessControlContract::new(CONTRACT);
    let result = ac.initialize(vec![21, 21], 1, 604_800);
    assert_eq!(result.unwrap_err(), AccessControlError::DuplicateSigner);
}

// ── bootstrapping: the super admin manages every role, itself included ─────

#[test]
fn test_super_admin_can_configure_a_new_role_via_its_own_multisig() {
    let mut f = setup();
    let risk1 = f.generate();
    let risk2 = f.generate();
    let c = f.contract_id;

    let unconfigured = f.try_propose(Role::RiskManager, risk1, c, ActionPayload::SetYield(500));
    assert_eq!(unconfigured.unwrap_err(), AccessControlError::RoleNotConfigured);

    f.super_admin_apply(ActionPayload::AddSigner(Role::RiskManager, risk1));
    f.super_admin_apply(ActionPayload::AddSigner(Role::RiskManager, risk2));
    f.super_admin_apply(ActionPayload::SetThreshold(Role::RiskManager, 2));

    let config = f.ac.get_role_config(Role::RiskManager).unwrap();
    assert_eq!(config.signers.len(), 2);
    assert_eq!(config.threshold, 2);
    assert!(f.ac.is_signer(Role::RiskManager, risk1));
    assert!(f.ac.is_signer(Role::RiskManager, risk2));

    // The new role proposes with its own threshold; its actions go to
    // another contract.
    let pool = f.generate();
    let proposal = f.propose(Role::RiskManager, risk1, pool, ActionPayload::SetYield(500));
    assert_eq!(f.status(proposal), ProposalStatus::Pending);
    f.approve(risk2, proposal);
    assert_eq!(f.status(proposal), ProposalStatus::Approved);
}

#[test]
fn test_self_management_action_rejected_under_a_non_super_admin_role() {
    let mut f = setup();
    let risk1 = f.generate();
    f.super_admin_apply(ActionPayload::AddSigner(Role::RiskManager, risk1));
    f.super_admin_apply(ActionPayload::SetThreshold(Role::RiskManager, 1));

    let c = f.contract_id;
    let attempt = f.try_propose(
        Role::RiskManager,
        risk1,
        c,
        ActionPayload::AddSigner(Role::TreasuryManager, risk1),
    );
    assert_eq!(attempt.unwrap_err(), AccessControlError::SelfManagementRequiresSuperAdmin);
}

#[test]
fn test_remove_signer_rejects_dropping_below_threshold() {
    let mut f = setup();
    let (s1, s2, s3, c) = (f.s1, f.s2, f.s3, f.contract_id);
    f.super_admin_apply(ActionPayload::RemoveSigner(Role::SuperAdmin, s3));
    assert_eq!(f.ac.get_role_config(Role::SuperAdmin).unwrap().signers.len(), 2);

    let remove_s2 = f.propose(Role::SuperAdmin, s1, c, ActionPayload::RemoveSigner(Role::SuperAdmin, s2));
    f.approve(s2, remove_s2);
    let result = f.try_execute(s1, remove_s2);
    assert_eq!(result.unwrap_err(), AccessControlError::InvalidThreshold);
}

// ── core proposal lifecycle ───────────────────────────────────────────────

#[test]
fn test_full_lifecycle_propose_approve_execute() {
    let mut f = setup();
    let target = f.generate();
    let (s1, s2, c) = (f.s1, f.s2, f.contract_id);

    let id = f.propose(Role::SuperAdmin, s1, c, ActionPayload::AddSigner(Role::OracleManager, target));
    let proposal = f.ac.get_proposal(id).unwrap();
    assert_eq!(proposal.approvals.len(), 1);
    assert_eq!(proposal.status, ProposalStatus::Pending);

    f.approve(s2, id);
    let proposal = f.ac.get_proposal(id).unwrap();
    assert_eq!(proposal.approvals.len(), 2);
    assert_eq!(proposal.status, ProposalStatus::Approved);

    assert!(f.execute(s1, id).is_none());
    assert_eq!(f.status(id), ProposalStatus::Executed);
    assert!(f.ac.is_signer(Role::OracleManager, target));
}

#[test]
fn test_single_compromised_signer_cannot_execute_alone_at_threshold_two() {
    let mut f = setup();
    let target = f.generate();
    let (s1, c) = (f.s1, f.contract_id);

    let id = f.propose(Role::SuperAdmin, s1, c, ActionPayload::AddSigner(Role::OracleManager, target));
    let result = f.try_execute(s1, id);
    assert_eq!(result.unwrap_err(), AccessControlError::ProposalNotApproved);
    assert_eq!(f.status(id), ProposalStatus::Pending);
    assert!(!f.ac.is_signer(Role::OracleManager, target));
}

#[test]
fn test_duplicate_approval_rejected() {
    let mut f = setup();
    let target = f.generate();
    let (s1, c) = (f.s1, f.contract_id);
    let id = f.propose(Role::SuperAdmin, s1, c, ActionPayload::AddSigner(Role::OracleManager, target));
    let result = f.try_approve(s1, id);
    assert_eq!(result.unwrap_err(), AccessControlError::AlreadyApproved);
}

#[test]
fn test_non_signer_cannot_approve() {
    let mut f = setup();
    let target = f.generate();
    let outsider = f.generate();
    let (s1, c) = (f.s1, f.contract_id);
    let id = f.propose(Role::SuperAdmin, s1, c, ActionPayload::AddSigner(Role::OracleManager, target));
    let result = f.try_approve(outsider, id);
    assert_eq!(result.unwrap_err(), AccessControlError::NotASigner);
}

#[test]
fn test_reject_action_blocks_further_approval_and_execution() {
    let mut f = setup();
    let target = f.generate();
    let (s1, s2, c) = (f.s1, f.s2, f.contract_id);
    let id = f.propose(Role::SuperAdmin, s1, c, ActionPayload::AddSigner(Role::OracleManager, target));
    f.ac.reject_action(s2, id).unwrap();
    assert_eq!(f.status(id), ProposalStatus::Rejected);

    let approve_after_reject = f.try_approve(s2, id);
    assert_eq!(approve_after_reject.unwrap_err(), AccessControlError::ProposalNotPending);
    let execute_after_reject = f.try_execute(s1, id);
    assert_eq!(execute_after_reject.unwrap_err(), AccessControlError::ProposalNotApproved);
}

#[test]
fn test_revoke_approval_removes_own_approval_only() {
    let mut f = setup();
    let target = f.generate();
    let (s1, s2, c) = (f.s1, f.s2, f.contract_id);
    let id = f.propose(Role::SuperAdmin, s1, c, ActionPayload::AddSigner(Role::OracleManager, target));
    f.approve(s2, id);
    assert_eq!(f.ac.get_proposal(id).unwrap().approvals.len(), 2);

    f.ac.revoke_approval(s2, id).unwrap();
    let after = f.ac.get_proposal(id).unwrap();
    assert_eq!(after.approvals.len(), 1);
    assert!(after.approvals.contains(&s1));
    assert!(!after.approvals.contains(&s2));
    assert_eq!(after.status, ProposalStatus::Pending);
}

#[test]
fn test_revoke_approval_rejects_when_no_prior_approval() {
    let mut f = setup();
    let target = f.generate();
    let (s1, s3, c) = (f.s1, f.s3, f.contract_id);
    let id = f.propose(Role::SuperAdmin, s1, c, ActionPayload::AddSigner(Role::OracleManager, target));
    let result = f.ac.revoke_approval(s3, id);
    assert_eq!(result.unwrap_err(), AccessControlError::NoApprovalToRevoke);
}

#[test]
fn test_proposal_expires_and_cannot_be_approved_or_executed_after_window() {
    let mut f = setup();
    let target = f.generate();
    let (s1, s2, c) = (f.s1, f.s2, f.contract_id);
    let id = f.propose(Role::SuperAdmin, s1, c, ActionPayload::AddSigner(Role::OracleManager, target));
    f.now += 604_800 + 1;
    let approve_result = f.try_approve(s2, id);
    assert_eq!(approve_result.unwrap_err(), AccessControlError::ProposalExpired);
}

#[test]
fn test_expired_approved_proposal_cannot_execute() {
    let mut f = setup();
    let target = f.generate();
    let (s1, s2, c) = (f.s1, f.s2, f.contract_id);
    let id = f.propose(Role::SuperAdmin, s1, c, ActionPayload::AddSigner(Role::OracleManager, target));
    f.approve(s2, id);
    assert_eq!(f.status(id), ProposalStatus::Approved);
    f.now += 604_800 + 1;
    let result = f.try_execute(s1, id);
    assert_eq!(result.unwrap_err(), AccessControlError::ProposalExpired);
}

// ── payload / target coherence ─────────────────────────────────────────────

#[test]
fn test_self_management_payload_with_external_target_is_rejected() {
    let mut f = setup();
    let external = f.generate();
    let victim = f.generate();
    let s1 = f.s1;
    let result = f.try_propose(
        Role::SuperAdmin,
        s1,
        external,
        ActionPayload::AddSigner(Role::TreasuryManager, victim),
    );
    assert_eq!(result.unwrap_err(), AccessControlError::IncoherentProposal);
}

#[test]
fn test_remove_signer_payload_with_external_target_is_rejected() {
    let mut f = setup();
    let external = f.generate();
    let (s1, s2) = (f.s1, f.s2);
    let result = f.try_propose(
        Role::SuperAdmin,
        s1,
        external,
        ActionPayload::RemoveSigner(Role::SuperAdmin, s2),
    );
    assert_eq!(result.unwrap_err(), AccessControlError::IncoherentProposal);
}

#[test]
fn test_set_threshold_payload_with_external_target_is_rejected() {
    let mut f = setup();
    let external = f.generate();
    let s1 = f.s1;
    let result = f.try_propose(Role::SuperAdmin, s1, external, ActionPayload::SetThreshold(Role::SuperAdmin, 1));
    assert_eq!(result.unwrap_err(), AccessControlError::IncoherentProposal);
}

#[test]
fn test_cross_contract_payload_with_self_as_target_is_rejected() {
    let mut f = setup();
    let (s1, c) = (f.s1, f.contract_id);
    let result = f.try_propose(Role::SuperAdmin, s1, c, ActionPayload::SetYield(500));
    assert_eq!(result.unwrap_err(), AccessControlError::IncoherentProposal);
}

#[test]
fn test_set_paused_payload_with_self_as_target_is_rejected() {
    let mut f = setup();
    let (s1, c) = (f.s1, f.contract_id);
    let result = f.try_propose(Role::SuperAdmin, s1, c, ActionPayload::SetPaused(true));
    assert_eq!(result.unwrap_err(), AccessControlError::IncoherentProposal);
}

#[test]
fn test_coherent_self_management_proposal_is_accepted() {
    let mut f = setup();
    let new_signer = f.generate();
    let (s1, c) = (f.s1, f.contract_id);
    let id = f.propose(Role::SuperAdmin, s1, c, ActionPayload::AddSigner(Role::OracleManager, new_signer));
    assert_eq!(f.status(id), ProposalStatus::Pending);
}

#[test]
fn test_coherent_cross_contract_proposal_is_accepted() {
    let mut f = setup();
    let external = f.generate();
    let s1 = f.s1;
    let id = f.propose(Role::SuperAdmin, s1, external, ActionPayload::SetYield(800));
    assert_eq!(f.status(id), ProposalStatus::Pending);
}

// ── the proposal expiry window after initialize ────────────────────────────

#[test]
fn test_super_admin_can_update_proposal_expiry_secs() {
    let mut f = setup();
    assert_eq!(f.ac.get_proposal_expiry_secs(), 604_800);

    let new_expiry: u64 = 3_600;
    f.super_admin_apply(ActionPayload::SetProposalExpiry(new_expiry));
    assert_eq!(f.ac.get_proposal_expiry_secs(), new_expiry);

    let target = f.generate();
    let (s1, c) = (f.s1, f.contract_id);
    let pid2 = f.propose(Role::SuperAdmin, s1, c, ActionPayload::AddSigner(Role::OracleManager, target));
    let proposal = f.ac.get_proposal(pid2).unwrap();
    assert_eq!(proposal.expires_at, proposal.created_at + new_expiry);
}

#[test]
fn test_set_proposal_expiry_rejects_zero() {
    let mut f = setup();
    let (s1, s2, c) = (f.s1, f.s2, f.contract_id);
    let id = f.propose(Role::SuperAdmin, s1, c, ActionPayload::SetProposalExpiry(0));
    f.approve(s2, id);
    let result = f.try_execute(s1, id);
    assert_eq!(result.unwrap_err(), AccessControlError::InvalidExpiryWindow);
    assert_eq!(f.ac.get_proposal_expiry_secs(), 604_800);
}

#[test]
fn test_set_proposal_expiry_requires_super_admin() {
    let mut f = setup();
    let risk1 = f.generate();
    f.super_admin_apply(ActionPayload::AddSigner(Role::RiskManager, risk1));
    f.super_admin_apply(ActionPayload::SetThreshold(Role::RiskManager, 1));
    let c = f.contract_id;
    let result = f.try_propose(Role::RiskManager, risk1, c, ActionPayload::SetProposalExpiry(1_800));
    assert_eq!(result.unwrap_err(), AccessControlError::SelfManagementRequiresSuperAdmin);
}

#[test]
fn test_set_proposal_expiry_with_external_target_is_rejected() {
    let mut f = setup();
    let external = f.generate();
    let s1 = f.s1;
    let result = f.try_propose(Role::SuperAdmin, s1, external, ActionPayload::SetProposalExpiry(3_600));
    assert_eq!(result.unwrap_err(), AccessControlError::IncoherentProposal);
}

// ── delivery into a target contract ───────────────────────────────────────

/// A pool that only accepts calls whose origin is its trusted access-control
/// contract.
struct MockPool {
    id: u64,
    trusted: u64,
    yield_bps: u32,
    paused: bool,
}

impl MockPool {
    /// Runs one call: the first argument is the authorising origin, which
    /// must be the trusted access-control contract.
    fn receive(&mut self, call: &TargetCall) {
        assert_eq!(call.target, self.id);
        assert_eq!(call.args[0], CallArg::Account(self.trusted), "caller is not the trusted access control");
        match (call.entry_point, &call.args[1..]) {
            ("set_yield_via_ac", [CallArg::U32(b)]) => self.yield_bps = *b,
            ("set_paused_via_ac", [CallArg::Bool(p)]) => self.paused = *p,
            _ => panic!("the mock pool has no such entry point"),
        }
    }
}

struct CrossFixture {
    f: Fixture,
    pool: MockPool,
}

impl CrossFixture {
    fn execute(&mut self, caller: u64, id: u64) -> Result<(), AccessControlError> {
        if let Some(call) = self.f.try_execute(caller, id)? {
            let p = self.f.ac.get_proposal(id).unwrap();
            assert_eq!(target_interface(&p.action), Some(TargetInterface::Pool));
            self.pool.receive(&call);
        }
        Ok(())
    }
}

fn cross_setup() -> CrossFixture {
    let mut ac = AccessControlContract::new(CONTRACT);
    let (s1, s2) = (11, 12);
    ac.initialize(vec![s1, s2], 2, 604_800).unwrap();
    let f = Fixture { ac, contract_id: CONTRACT, now: START, next: 100, s1, s2, s3: 0 };
    CrossFixture { f, pool: MockPool { id: 50, trusted: CONTRACT, yield_bps: 0, paused: false } }
}

fn seed_risk_manager(cf: &mut CrossFixture, threshold: u32) -> (u64, u64, u64) {
    let r1 = cf.f.generate();
    let r2 = cf.f.generate();
    let r3 = cf.f.generate();
    for signer in [r1, r2, r3] {
        cf.f.super_admin_apply(ActionPayload::AddSigner(Role::RiskManager, signer));
    }
    cf.f.super_admin_apply(ActionPayload::SetThreshold(Role::RiskManager, threshold));
    (r1, r2, r3)
}

#[test]
fn test_risk_manager_2_of_3_yield_change_requires_two_approvals_then_executes() {
    let mut cf = cross_setup();
    let (r1, r2, _r3) = seed_risk_manager(&mut cf, 2);
    assert_eq!(cf.pool.yield_bps, 0);
    let pool = cf.pool.id;
    let id = cf.f.propose(Role::RiskManager, r1, pool, ActionPayload::SetYield(650));

    let premature = cf.execute(r1, id);
    assert!(premature.is_err());
    assert_eq!(cf.pool.yield_bps, 0);
    assert_eq!(cf.f.status(id), ProposalStatus::Pending);

    cf.f.approve(r2, id);
    assert_eq!(cf.f.status(id), ProposalStatus::Approved);

    cf.execute(r1, id).unwrap();
    assert_eq!(cf.pool.yield_bps, 650);
    assert_eq!(cf.f.status(id), ProposalStatus::Executed);
}

#[test]
fn test_execute_action_carries_access_control_own_identity_not_an_arbitrary_caller() {
    let mut cf = cross_setup();
    let (r1, r2, _r3) = seed_risk_manager(&mut cf, 2);
    let pool = cf.pool.id;
    let id = cf.f.propose(Role::RiskManager, r1, pool, ActionPayload::SetPaused(true));
    cf.f.approve(r2, id);
    let stranger = cf.f.generate();
    let call = cf.f.try_execute(stranger, id).unwrap().unwrap();
    assert_eq!(call.target, pool);
    assert_eq!(call.entry_point, "set_paused_via_ac");
    assert_eq!(call.args, vec![CallArg::Account(CONTRACT), CallArg::Bool(true)]);
    assert_ne!(call.args[0], CallArg::Account(stranger));
    cf.pool.receive(&call);
    assert!(cf.pool.paused);
}

#[test]
fn test_second_signer_approving_a_different_proposal_does_not_affect_the_first() {
    let mut cf = cross_setup();
    let (r1, r2, r3) = seed_risk_manager(&mut cf, 2);
    let pool = cf.pool.id;
    let yield_proposal = cf.f.propose(Role::RiskManager, r1, pool, ActionPayload::SetYield(700));
    let pause_proposal = cf.f.propose(Role::RiskManager, r2, pool, ActionPayload::SetPaused(true));

    cf.f.approve(r3, pause_proposal);
    assert_eq!(cf.f.status(yield_proposal), ProposalStatus::Pending);
    assert_eq!(cf.f.status(pause_proposal), ProposalStatus::Approved);

    cf.execute(r2, pause_proposal).unwrap();
    assert!(cf.pool.paused);
    assert_eq!(cf.pool.yield_bps, 0);
}

// ── further cases ─────────────────────────────────────────────────────────

#[test]
fn test_threshold_one_role_approves_on_proposal() {
    let mut f = setup();
    let risk = f.generate();
    f.super_admin_apply(ActionPayload::AddSigner(Role::RiskManager, risk));
    f.super_admin_apply(ActionPayload::SetThreshold(Role::RiskManager, 1));
    let pool = f.generate();
    let id = f.propose(Role::RiskManager, risk, pool, ActionPayload::SetMaxUtilization(9_000));
    assert_eq!(f.status(id), ProposalStatus::Approved);
    assert!(f.execute(risk, id).is_some());
    assert_eq!(f.status(id), ProposalStatus::Executed);
}

#[test]
fn test_executed_proposal_cannot_execute_again_or_be_revoked() {
    let mut f = setup();
    let target = f.generate();
    let (s1, s2, c) = (f.s1, f.s2, f.contract_id);
    let id = f.propose(Role::SuperAdmin, s1, c, ActionPayload::AddSigner(Role::OracleManager, target));
    f.approve(s2, id);
    f.execute(s1, id);
    assert_eq!(f.try_execute(s1, id).unwrap_err(), AccessControlError::ProposalNotApproved);
    assert_eq!(f.ac.revoke_approval(s2, id).unwrap_err(), AccessControlError::ProposalNotPending);
    assert_eq!(f.ac.reject_action(s2, id).unwrap_err(), AccessControlError::ProposalNotPending);
}

#[test]
fn test_revoke_then_approve_again_restores_the_proposal() {
    let mut f = setup();
    let target = f.generate();
    let (s1, s2, c) = (f.s1, f.s2, f.contract_id);
    let id = f.propose(Role::SuperAdmin, s1, c, ActionPayload::AddSigner(Role::OracleManager, target));
    f.ac.revoke_approval(s1, id).unwrap();
    assert_eq!(f.ac.get_proposal(id).unwrap().approvals.len(), 0);
    f.approve(s1, id);
    f.approve(s2, id);
    assert_eq!(f.status(id), ProposalStatus::Approved);
}

#[test]
fn test_unknown_proposal_and_uninitialized_contract() {
    let mut f = setup();
    let s1 = f.s1;
    assert_eq!(f.try_approve(s1, 99).unwrap_err(), AccessControlError::ProposalNotFound);
    assert_eq!(f.try_execute(s1, 99).unwrap_err(), AccessControlError::ProposalNotFound);
    assert!(f.ac.get_proposal(99).is_none());

    let mut fresh = AccessControlContract::new(CONTRACT);
    let r = fresh.propose_action(Role::SuperAdmin, 11, CONTRACT, ActionPayload::SetThreshold(Role::SuperAdmin, 1), 0);
    assert_eq!(r.unwrap_err(), AccessControlError::RoleNotConfigured);
    assert_eq!(fresh.get_proposal_expiry_secs(), DEFAULT_PROPOSAL_EXPIRY_SECS);
    assert!(fresh.get_role_config(Role::SuperAdmin).is_none());
}

#[test]
fn test_add_duplicate_signer_and_remove_unknown_signer_fail() {
    let mut f = setup();
    let (s1, s2, c) = (f.s1, f.s2, f.contract_id);
    let id = f.propose(Role::SuperAdmin, s1, c, ActionPayload::AddSigner(Role::SuperAdmin, s2));
    f.approve(s2, id);
    assert_eq!(f.try_execute(s1, id).unwrap_err(), AccessControlError::DuplicateSigner);

    let stranger = f.generate();
    let id2 = f.propose(Role::SuperAdmin, s1, c, ActionPayload::RemoveSigner(Role::SuperAdmin, stranger));
    f.approve(s2, id2);
    assert_eq!(f.try_execute(s1, id2).unwrap_err(), AccessControlError::SignerNotFound);
}

#[test]
fn test_validate_config_and_action_classification() {
    assert_eq!(validate_config(&vec![], 0).unwrap_err(), AccessControlError::InvalidThreshold);
    assert_eq!(validate_config(&vec![1, 2], 3).unwrap_err(), AccessControlError::InvalidThreshold);
    assert_eq!(validate_config(&vec![1, 1], 1).unwrap_err(), AccessControlError::DuplicateSigner);
    assert!(validate_config(&vec![1, 2, 3], 3).is_ok());

    assert!(is_self_management(&ActionPayload::SetProposalExpiry(1)));
    assert!(!is_self_management(&ActionPayload::SetYield(1)));
    assert!(requires_super_admin(&ActionPayload::SetReferralAccessControl(4)));
    assert!(!requires_super_admin(&ActionPayload::SetBorrowRewardBps(4)));
    assert_eq!(
        target_interface(&ActionPayload::UpdateGovernanceConfig(1, 2)),
        Some(TargetInterface::Governance)
    );
    assert_eq!(target_interface(&ActionPayload::AddSigner(Role::SuperAdmin, 3)), None);
    assert_eq!(AccessControlError::IncoherentProposal.code(), 16);
    assert!(MAX_SIGNERS_PER_ROLE >= 3);
}

#[test]
fn test_next_proposal_id_counts_proposals() {
    let mut f = setup();
    assert_eq!(f.ac.get_next_proposal_id(), 0);
    let external = f.generate();
    let s1 = f.s1;
    let a = f.propose(Role::SuperAdmin, s1, external, ActionPayload::SetYield(1));
    let b = f.propose(Role::SuperAdmin, s1, external, ActionPayload::SetYield(2));
    assert_eq!((a, b), (0, 1));
    assert_eq!(f.ac.get_next_proposal_id(), 2);
}

#[test]
fn test_actions_name_their_target_entry_points() {
    let entry = |a: ActionPayload| execute_cross_contract(CONTRACT, 50, &a).map(|c| c.entry_point);
    assert_eq!(entry(ActionPayload::SetYield(1)), Some("set_yield_via_ac"));
    assert_eq!(entry(ActionPayload::SetBorrowRewardBps(9)), Some("set_borrow_reward_bps_via_ac"));
    assert_eq!(entry(ActionPayload::UpdateGovernanceConfig(1, 2)), Some("update_config_via_ac"));
    assert_eq!(entry(ActionPayload::SetGovernanceAccessControl(4)), Some("set_access_control_via_ac"));
    assert_eq!(entry(ActionPayload::AddSigner(Role::RiskManager, 4)), None);
}

#[test]
fn test_cross_contract_call_carries_origin_then_fields_in_order() {
    assert_eq!(
        execute_cross_contract(CONTRACT, 50, &ActionPayload::WithdrawRevenue(7, 900)),
        Some(TargetCall {
            target: 50,
            entry_point: "withdraw_revenue_via_ac",
            args: vec![CallArg::Account(CONTRACT), CallArg::Account(7), CallArg::I128(900)],
        })
    );
    assert_eq!(
        execute_cross_contract(CONTRACT, 60, &ActionPayload::RegisterDebtor("d-1".to_string(), "Acme".to_string(), 5_000)),
        Some(TargetCall {
            target: 60,
            entry_point: "register_debtor_via_ac",
            args: vec![
                CallArg::Account(CONTRACT),
                CallArg::Text("d-1".to_string()),
                CallArg::Text("Acme".to_string()),
                CallArg::I128(5_000),
            ],
        })
    );
    let thresholds = execute_cross_contract(CONTRACT, 70, &ActionPayload::SetScoreThresholds(800, 700, 600, 500)).unwrap();
    assert_eq!(
        thresholds.args,
        vec![CallArg::Account(CONTRACT), CallArg::U32(800), CallArg::U32(700), CallArg::U32(600), CallArg::U32(500)]
    );
    assert_eq!(execute_cross_contract(CONTRACT, CONTRACT, &ActionPayload::SetProposalExpiry(60)), None);
}

#[test]
fn test_super_admin_threshold_never_drops_to_zero() {
    let mut f = setup();
    let (s1, s2, c) = (f.s1, f.s2, f.contract_id);
    let id = f.propose(Role::SuperAdmin, s1, c, ActionPayload::SetThreshold(Role::SuperAdmin, 0));
    f.approve(s2, id);
    assert_eq!(f.try_execute(s1, id).unwrap_err(), AccessControlError::InvalidThreshold);
    assert_eq!(f.ac.get_role_config(Role::SuperAdmin).unwrap().threshold, 2);
}
