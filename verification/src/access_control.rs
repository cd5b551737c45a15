//! Role-based multi-signature access control: each role has its own signer
//! set and M-of-N threshold; a privileged action is proposed by a signer of
//! a role, approved by its signers until the threshold is met, and executed
//! before it expires, either against this contract's own role
//! configuration or as a call into a target contract.
use vstd::prelude::*;
use crate::assoc::AccountId;
use crate::calls::{call_from, lemma_same_args_prepend, same_arg, same_args, CallArg, TargetCall};

verus! {

/// Window (in seconds) a proposal stays open when none was configured: seven
/// days.
pub const DEFAULT_PROPOSAL_EXPIRY_SECS: u64 = 604_800;
/// Most signers a role can have through `AddSigner`.
pub const MAX_SIGNERS_PER_ROLE: u32 = 32;
/// Number of roles.
pub const ROLE_COUNT: usize = 5;

/// A named role, each with its own signer set and threshold. `SuperAdmin`
/// alone may change signers, thresholds and the expiry window, and rotate
/// target contracts' trust anchors.
#[derive(Clone, Copy, Debug, PartialEq, Eq, Structural)]
pub enum Role {
    SuperAdmin,
    RiskManager,
    TreasuryManager,
    ComplianceOfficer,
    OracleManager,
}

/// The storage slot of a role.
pub open spec fn role_index(role: Role) -> int {
    match role {
        Role::SuperAdmin => 0,
        Role::RiskManager => 1,
        Role::TreasuryManager => 2,
        Role::ComplianceOfficer => 3,
        Role::OracleManager => 4,
    }
}

fn role_slot(role: Role) -> (r: usize)
    ensures
        r == role_index(role),
        r < ROLE_COUNT,
{
    match role {
        Role::SuperAdmin => 0,
        Role::RiskManager => 1,
        Role::TreasuryManager => 2,
        Role::ComplianceOfficer => 3,
        Role::OracleManager => 4,
    }
}

/// M-of-N signer configuration of one role.
#[derive(Clone, Debug)]
pub struct MultiSigConfig {
    pub signers: Vec<AccountId>,
    pub threshold: u32,
}

/// Every privileged action that can be proposed. All but the last four are
/// delivered to a target contract's `*_via_ac` entry point; `AddSigner`,
/// `RemoveSigner`, `SetThreshold` and `SetProposalExpiry` change this
/// contract's own configuration.
#[derive(Clone, Debug)]
pub enum ActionPayload {
    /// Pool: `true` pauses, `false` unpauses.
    SetPaused(bool),
    SetYield(u32),
    SetTreasury(AccountId),
    /// Pool: (token, amount).
    WithdrawRevenue(AccountId, i128),
    SetOracleContract(AccountId),
    SetKycRequired(bool),
    /// Pool: (investor, approved).
    SetInvestorKyc(AccountId, bool),
    SetMaxUtilization(u32),
    /// Invoice.
    SetOracle(AccountId),
    /// Invoice: (debtor id, debtor name, max exposure).
    RegisterDebtor(String, String, i128),
    DeactivateDebtor(String),
    AddKeeper(AccountId),
    /// Credit score.
    SetLateThreshold(i64),
    /// Credit score: (excellent, very good, good, fair).
    SetScoreThresholds(u32, u32, u32, u32),
    /// Credit score: (address, attestor type discriminant, weight in bps).
    RegisterAttestor(AccountId, u32, u32),
    /// Oracle registry.
    SetOracleRegistryInvoiceContract(AccountId),
    SetOracleRegistryTreasury(Option<AccountId>),
    /// Oracle registry: (min stake, required votes, quorum bps, round
    /// duration, deregister cooldown).
    SetOracleRegistryConfig(i128, u32, u32, u64, u64),
    SetOracleRegistryPaused(bool),
    /// Oracle registry: (operator, bps, round id, evidence).
    SlashOracle(AccountId, u32, u64, String),
    /// Oracle registry: (invoice id, approved, reason).
    AdminResolveRound(u64, bool, String),
    /// Compliance.
    SetCompliancePaused(bool),
    RegisterScreener(AccountId),
    ConfirmScreenerRegistration(AccountId),
    DeregisterScreener(AccountId),
    SetRescreeningInterval(u64),
    SetScreenerTimelock(u64),
    /// Governance: (quorum bps, pass bps).
    UpdateGovernanceConfig(u32, u32),
    /// Governance: (category discriminant, quorum bps).
    SetCategoryQuorum(u32, u32),
    /// Referral.
    SetReferralPaused(bool),
    SetReferralPool(AccountId),
    SetBorrowRewardBps(u32),
    SetDepositRewardBps(u32),
    /// Trust-anchor rotation of a target contract (super admin only).
    SetInvoiceAccessControl(AccountId),
    SetCreditScoreAccessControl(AccountId),
    SetOracleRegistryAccessControl(AccountId),
    SetComplianceAccessControl(AccountId),
    SetGovernanceAccessControl(AccountId),
    SetReferralAccessControl(AccountId),
    /// Self-management (super admin only).
    AddSigner(Role, AccountId),
    RemoveSigner(Role, AccountId),
    SetThreshold(Role, u32),
    /// Replaces the proposal expiry window; must be positive.
    SetProposalExpiry(u64),
}

/// The kind of contract whose `*_via_ac` entry point receives an action.
#[derive(Clone, Copy, Debug, PartialEq, Eq, Structural)]
pub enum TargetInterface {
    Pool,
    Invoice,
    CreditScore,
    OracleRegistry,
    Compliance,
    Governance,
    Referral,
}

/// Actions that change this contract's own configuration.
pub open spec fn is_self_management_spec(action: ActionPayload) -> bool {
    match action {
        ActionPayload::AddSigner(..) => true,
        ActionPayload::RemoveSigner(..) => true,
        ActionPayload::SetThreshold(..) => true,
        ActionPayload::SetProposalExpiry(..) => true,
        _ => false,
    }
}

pub fn is_self_management(action: &ActionPayload) -> (r: bool)
    ensures
        r == is_self_management_spec(*action),
{
    match action {
        ActionPayload::AddSigner(..) => true,
        ActionPayload::RemoveSigner(..) => true,
        ActionPayload::SetThreshold(..) => true,
        ActionPayload::SetProposalExpiry(..) => true,
        _ => false,
    }
}

/// Actions only the super admin role may propose: self-management and the
/// rotation of a target contract's trusted access-control contract.
pub open spec fn requires_super_admin_spec(action: ActionPayload) -> bool {
    is_self_management_spec(action) || match action {
        ActionPayload::SetInvoiceAccessControl(..) => true,
        ActionPayload::SetCreditScoreAccessControl(..) => true,
        ActionPayload::SetOracleRegistryAccessControl(..) => true,
        ActionPayload::SetComplianceAccessControl(..) => true,
        ActionPayload::SetGovernanceAccessControl(..) => true,
        ActionPayload::SetReferralAccessControl(..) => true,
        _ => false,
    }
}

pub fn requires_super_admin(action: &ActionPayload) -> (r: bool)
    ensures
        r == requires_super_admin_spec(*action),
{
    if is_self_management(action) {
        return true;
    }
    match action {
        ActionPayload::SetInvoiceAccessControl(..) => true,
        ActionPayload::SetCreditScoreAccessControl(..) => true,
        ActionPayload::SetOracleRegistryAccessControl(..) => true,
        ActionPayload::SetComplianceAccessControl(..) => true,
        ActionPayload::SetGovernanceAccessControl(..) => true,
        ActionPayload::SetReferralAccessControl(..) => true,
        _ => false,
    }
}

/// The contract interface that receives a cross-contract action; none for
/// self-management.
pub open spec fn target_interface_spec(action: ActionPayload) -> Option<TargetInterface> {
    match action {
        ActionPayload::SetPaused(..) => Some(TargetInterface::Pool),
        ActionPayload::SetYield(..) => Some(TargetInterface::Pool),
        ActionPayload::SetTreasury(..) => Some(TargetInterface::Pool),
        ActionPayload::WithdrawRevenue(..) => Some(TargetInterface::Pool),
        ActionPayload::SetOracleContract(..) => Some(TargetInterface::Pool),
        ActionPayload::SetKycRequired(..) => Some(TargetInterface::Pool),
        ActionPayload::SetInvestorKyc(..) => Some(TargetInterface::Pool),
        ActionPayload::SetMaxUtilization(..) => Some(TargetInterface::Pool),
        ActionPayload::SetOracle(..) => Some(TargetInterface::Invoice),
        ActionPayload::RegisterDebtor(..) => Some(TargetInterface::Invoice),
        ActionPayload::DeactivateDebtor(..) => Some(TargetInterface::Invoice),
        ActionPayload::AddKeeper(..) => Some(TargetInterface::Invoice),
        ActionPayload::SetInvoiceAccessControl(..) => Some(TargetInterface::Invoice),
        ActionPayload::SetLateThreshold(..) => Some(TargetInterface::CreditScore),
        ActionPayload::SetScoreThresholds(..) => Some(TargetInterface::CreditScore),
        ActionPayload::RegisterAttestor(..) => Some(TargetInterface::CreditScore),
        ActionPayload::SetCreditScoreAccessControl(..) => Some(TargetInterface::CreditScore),
        ActionPayload::SetOracleRegistryInvoiceContract(..) => Some(TargetInterface::OracleRegistry),
        ActionPayload::SetOracleRegistryTreasury(..) => Some(TargetInterface::OracleRegistry),
        ActionPayload::SetOracleRegistryConfig(..) => Some(TargetInterface::OracleRegistry),
        ActionPayload::SetOracleRegistryPaused(..) => Some(TargetInterface::OracleRegistry),
        ActionPayload::SlashOracle(..) => Some(TargetInterface::OracleRegistry),
        ActionPayload::AdminResolveRound(..) => Some(TargetInterface::OracleRegistry),
        ActionPayload::SetOracleRegistryAccessControl(..) => Some(TargetInterface::OracleRegistry),
        ActionPayload::SetCompliancePaused(..) => Some(TargetInterface::Compliance),
        ActionPayload::RegisterScreener(..) => Some(TargetInterface::Compliance),
        ActionPayload::ConfirmScreenerRegistration(..) => Some(TargetInterface::Compliance),
        ActionPayload::DeregisterScreener(..) => Some(TargetInterface::Compliance),
        ActionPayload::SetRescreeningInterval(..) => Some(TargetInterface::Compliance),
        ActionPayload::SetScreenerTimelock(..) => Some(TargetInterface::Compliance),
        ActionPayload::SetComplianceAccessControl(..) => Some(TargetInterface::Compliance),
        ActionPayload::UpdateGovernanceConfig(..) => Some(TargetInterface::Governance),
        ActionPayload::SetCategoryQuorum(..) => Some(TargetInterface::Governance),
        ActionPayload::SetGovernanceAccessControl(..) => Some(TargetInterface::Governance),
        ActionPayload::SetReferralPaused(..) => Some(TargetInterface::Referral),
        ActionPayload::SetReferralPool(..) => Some(TargetInterface::Referral),
        ActionPayload::SetBorrowRewardBps(..) => Some(TargetInterface::Referral),
        ActionPayload::SetDepositRewardBps(..) => Some(TargetInterface::Referral),
        ActionPayload::SetReferralAccessControl(..) => Some(TargetInterface::Referral),
        ActionPayload::AddSigner(..) => None,
        ActionPayload::RemoveSigner(..) => None,
        ActionPayload::SetThreshold(..) => None,
        ActionPayload::SetProposalExpiry(..) => None,
    }
}

/// The `*_via_ac` entry point of the target contract that an executed
/// cross-contract action calls, with this contract's address as the
/// authorising origin followed by the action's fields in declaration order;
/// none for self-management.
pub open spec fn via_ac_setter_name(action: ActionPayload) -> Option<Seq<char>> {
    match action {
        ActionPayload::SetPaused(..) => Some("set_paused_via_ac"@),
        ActionPayload::SetYield(..) => Some("set_yield_via_ac"@),
        ActionPayload::SetTreasury(..) => Some("set_treasury_via_ac"@),
        ActionPayload::WithdrawRevenue(..) => Some("withdraw_revenue_via_ac"@),
        ActionPayload::SetOracleContract(..) => Some("set_oracle_contract_via_ac"@),
        ActionPayload::SetKycRequired(..) => Some("set_kyc_required_via_ac"@),
        ActionPayload::SetInvestorKyc(..) => Some("set_investor_kyc_via_ac"@),
        ActionPayload::SetMaxUtilization(..) => Some("set_max_utilization_via_ac"@),
        ActionPayload::SetOracle(..) => Some("set_oracle_via_ac"@),
        ActionPayload::RegisterDebtor(..) => Some("register_debtor_via_ac"@),
        ActionPayload::DeactivateDebtor(..) => Some("deactivate_debtor_via_ac"@),
        ActionPayload::AddKeeper(..) => Some("add_keeper_via_ac"@),
        ActionPayload::SetLateThreshold(..) => Some("set_late_threshold_via_ac"@),
        ActionPayload::SetScoreThresholds(..) => Some("set_score_thresholds_via_ac"@),
        ActionPayload::RegisterAttestor(..) => Some("register_attestor_via_ac"@),
        ActionPayload::SetOracleRegistryInvoiceContract(..) => Some("set_invoice_contract_via_ac"@),
        ActionPayload::SetOracleRegistryTreasury(..) => Some("set_treasury_via_ac"@),
        ActionPayload::SetOracleRegistryConfig(..) => Some("set_registry_config_via_ac"@),
        ActionPayload::SetOracleRegistryPaused(..) => Some("set_paused_via_ac"@),
        ActionPayload::SlashOracle(..) => Some("slash_oracle_via_ac"@),
        ActionPayload::AdminResolveRound(..) => Some("admin_resolve_round_via_ac"@),
        ActionPayload::SetCompliancePaused(..) => Some("set_paused_via_ac"@),
        ActionPayload::RegisterScreener(..) => Some("register_screener_via_ac"@),
        ActionPayload::ConfirmScreenerRegistration(..) => Some("confirm_screener_via_ac"@),
        ActionPayload::DeregisterScreener(..) => Some("deregister_screener_via_ac"@),
        ActionPayload::SetRescreeningInterval(..) => Some("set_rescreening_interval_via_ac"@),
        ActionPayload::SetScreenerTimelock(..) => Some("set_screener_timelock_via_ac"@),
        ActionPayload::UpdateGovernanceConfig(..) => Some("update_config_via_ac"@),
        ActionPayload::SetCategoryQuorum(..) => Some("set_category_quorum_via_ac"@),
        ActionPayload::SetReferralPaused(..) => Some("set_paused_via_ac"@),
        ActionPayload::SetReferralPool(..) => Some("set_pool_via_ac"@),
        ActionPayload::SetBorrowRewardBps(..) => Some("set_borrow_reward_bps_via_ac"@),
        ActionPayload::SetDepositRewardBps(..) => Some("set_deposit_reward_bps_via_ac"@),
        ActionPayload::SetInvoiceAccessControl(..) => Some("set_access_control_via_ac"@),
        ActionPayload::SetCreditScoreAccessControl(..) => Some("set_access_control_via_ac"@),
        ActionPayload::SetOracleRegistryAccessControl(..) => Some("set_access_control_via_ac"@),
        ActionPayload::SetComplianceAccessControl(..) => Some("set_access_control_via_ac"@),
        ActionPayload::SetGovernanceAccessControl(..) => Some("set_access_control_via_ac"@),
        ActionPayload::SetReferralAccessControl(..) => Some("set_access_control_via_ac"@),
        ActionPayload::AddSigner(..) => None,
        ActionPayload::RemoveSigner(..) => None,
        ActionPayload::SetThreshold(..) => None,
        ActionPayload::SetProposalExpiry(..) => None,
    }
}

fn via_ac_entry_point(action: &ActionPayload) -> (r: Option<&'static str>)
    ensures
        r is None <==> via_ac_setter_name(*action) is None,
        r is Some ==> r->Some_0@ == via_ac_setter_name(*action)->Some_0,
        r is None <==> is_self_management_spec(*action),
{
    match action {
        ActionPayload::SetPaused(..) => Some("set_paused_via_ac"),
        ActionPayload::SetYield(..) => Some("set_yield_via_ac"),
        ActionPayload::SetTreasury(..) => Some("set_treasury_via_ac"),
        ActionPayload::WithdrawRevenue(..) => Some("withdraw_revenue_via_ac"),
        ActionPayload::SetOracleContract(..) => Some("set_oracle_contract_via_ac"),
        ActionPayload::SetKycRequired(..) => Some("set_kyc_required_via_ac"),
        ActionPayload::SetInvestorKyc(..) => Some("set_investor_kyc_via_ac"),
        ActionPayload::SetMaxUtilization(..) => Some("set_max_utilization_via_ac"),
        ActionPayload::SetOracle(..) => Some("set_oracle_via_ac"),
        ActionPayload::RegisterDebtor(..) => Some("register_debtor_via_ac"),
        ActionPayload::DeactivateDebtor(..) => Some("deactivate_debtor_via_ac"),
        ActionPayload::AddKeeper(..) => Some("add_keeper_via_ac"),
        ActionPayload::SetLateThreshold(..) => Some("set_late_threshold_via_ac"),
        ActionPayload::SetScoreThresholds(..) => Some("set_score_thresholds_via_ac"),
        ActionPayload::RegisterAttestor(..) => Some("register_attestor_via_ac"),
        ActionPayload::SetOracleRegistryInvoiceContract(..) => Some("set_invoice_contract_via_ac"),
        ActionPayload::SetOracleRegistryTreasury(..) => Some("set_treasury_via_ac"),
        ActionPayload::SetOracleRegistryConfig(..) => Some("set_registry_config_via_ac"),
        ActionPayload::SetOracleRegistryPaused(..) => Some("set_paused_via_ac"),
        ActionPayload::SlashOracle(..) => Some("slash_oracle_via_ac"),
        ActionPayload::AdminResolveRound(..) => Some("admin_resolve_round_via_ac"),
        ActionPayload::SetCompliancePaused(..) => Some("set_paused_via_ac"),
        ActionPayload::RegisterScreener(..) => Some("register_screener_via_ac"),
        ActionPayload::ConfirmScreenerRegistration(..) => Some("confirm_screener_via_ac"),
        ActionPayload::DeregisterScreener(..) => Some("deregister_screener_via_ac"),
        ActionPayload::SetRescreeningInterval(..) => Some("set_rescreening_interval_via_ac"),
        ActionPayload::SetScreenerTimelock(..) => Some("set_screener_timelock_via_ac"),
        ActionPayload::UpdateGovernanceConfig(..) => Some("update_config_via_ac"),
        ActionPayload::SetCategoryQuorum(..) => Some("set_category_quorum_via_ac"),
        ActionPayload::SetReferralPaused(..) => Some("set_paused_via_ac"),
        ActionPayload::SetReferralPool(..) => Some("set_pool_via_ac"),
        ActionPayload::SetBorrowRewardBps(..) => Some("set_borrow_reward_bps_via_ac"),
        ActionPayload::SetDepositRewardBps(..) => Some("set_deposit_reward_bps_via_ac"),
        ActionPayload::SetInvoiceAccessControl(..) => Some("set_access_control_via_ac"),
        ActionPayload::SetCreditScoreAccessControl(..) => Some("set_access_control_via_ac"),
        ActionPayload::SetOracleRegistryAccessControl(..) => Some("set_access_control_via_ac"),
        ActionPayload::SetComplianceAccessControl(..) => Some("set_access_control_via_ac"),
        ActionPayload::SetGovernanceAccessControl(..) => Some("set_access_control_via_ac"),
        ActionPayload::SetReferralAccessControl(..) => Some("set_access_control_via_ac"),
        ActionPayload::AddSigner(..) => None,
        ActionPayload::RemoveSigner(..) => None,
        ActionPayload::SetThreshold(..) => None,
        ActionPayload::SetProposalExpiry(..) => None,
    }
}

/// The interface of the contract that receives a cross-contract action;
/// none for self-management.
pub fn target_interface(action: &ActionPayload) -> (r: Option<TargetInterface>)
    ensures
        r == target_interface_spec(*action),
        r is None <==> is_self_management_spec(*action),
{
    match action {
        ActionPayload::SetPaused(..) => Some(TargetInterface::Pool),
        ActionPayload::SetYield(..) => Some(TargetInterface::Pool),
        ActionPayload::SetTreasury(..) => Some(TargetInterface::Pool),
        ActionPayload::WithdrawRevenue(..) => Some(TargetInterface::Pool),
        ActionPayload::SetOracleContract(..) => Some(TargetInterface::Pool),
        ActionPayload::SetKycRequired(..) => Some(TargetInterface::Pool),
        ActionPayload::SetInvestorKyc(..) => Some(TargetInterface::Pool),
        ActionPayload::SetMaxUtilization(..) => Some(TargetInterface::Pool),
        ActionPayload::SetOracle(..) => Some(TargetInterface::Invoice),
        ActionPayload::RegisterDebtor(..) => Some(TargetInterface::Invoice),
        ActionPayload::DeactivateDebtor(..) => Some(TargetInterface::Invoice),
        ActionPayload::AddKeeper(..) => Some(TargetInterface::Invoice),
        ActionPayload::SetInvoiceAccessControl(..) => Some(TargetInterface::Invoice),
        ActionPayload::SetLateThreshold(..) => Some(TargetInterface::CreditScore),
        ActionPayload::SetScoreThresholds(..) => Some(TargetInterface::CreditScore),
        ActionPayload::RegisterAttestor(..) => Some(TargetInterface::CreditScore),
        ActionPayload::SetCreditScoreAccessControl(..) => Some(TargetInterface::CreditScore),
        ActionPayload::SetOracleRegistryInvoiceContract(..) => Some(TargetInterface::OracleRegistry),
        ActionPayload::SetOracleRegistryTreasury(..) => Some(TargetInterface::OracleRegistry),
        ActionPayload::SetOracleRegistryConfig(..) => Some(TargetInterface::OracleRegistry),
        ActionPayload::SetOracleRegistryPaused(..) => Some(TargetInterface::OracleRegistry),
        ActionPayload::SlashOracle(..) => Some(TargetInterface::OracleRegistry),
        ActionPayload::AdminResolveRound(..) => Some(TargetInterface::OracleRegistry),
        ActionPayload::SetOracleRegistryAccessControl(..) => Some(TargetInterface::OracleRegistry),
        ActionPayload::SetCompliancePaused(..) => Some(TargetInterface::Compliance),
        ActionPayload::RegisterScreener(..) => Some(TargetInterface::Compliance),
        ActionPayload::ConfirmScreenerRegistration(..) => Some(TargetInterface::Compliance),
        ActionPayload::DeregisterScreener(..) => Some(TargetInterface::Compliance),
        ActionPayload::SetRescreeningInterval(..) => Some(TargetInterface::Compliance),
        ActionPayload::SetScreenerTimelock(..) => Some(TargetInterface::Compliance),
        ActionPayload::SetComplianceAccessControl(..) => Some(TargetInterface::Compliance),
        ActionPayload::UpdateGovernanceConfig(..) => Some(TargetInterface::Governance),
        ActionPayload::SetCategoryQuorum(..) => Some(TargetInterface::Governance),
        ActionPayload::SetGovernanceAccessControl(..) => Some(TargetInterface::Governance),
        ActionPayload::SetReferralPaused(..) => Some(TargetInterface::Referral),
        ActionPayload::SetReferralPool(..) => Some(TargetInterface::Referral),
        ActionPayload::SetBorrowRewardBps(..) => Some(TargetInterface::Referral),
        ActionPayload::SetDepositRewardBps(..) => Some(TargetInterface::Referral),
        ActionPayload::SetReferralAccessControl(..) => Some(TargetInterface::Referral),
        ActionPayload::AddSigner(..) => None,
        ActionPayload::RemoveSigner(..) => None,
        ActionPayload::SetThreshold(..) => None,
        ActionPayload::SetProposalExpiry(..) => None,
    }
}

/// The fields of a cross-contract action in declaration order, as call
/// arguments; none for self-management.
pub open spec fn via_ac_action_fields(action: ActionPayload) -> Seq<CallArg> {
    match action {
        ActionPayload::SetPaused(a0) => seq![CallArg::Bool(a0)],
        ActionPayload::SetYield(a0) => seq![CallArg::U32(a0)],
        ActionPayload::SetTreasury(a0) => seq![CallArg::Account(a0)],
        ActionPayload::WithdrawRevenue(a0, a1) => seq![CallArg::Account(a0), CallArg::I128(a1)],
        ActionPayload::SetOracleContract(a0) => seq![CallArg::Account(a0)],
        ActionPayload::SetKycRequired(a0) => seq![CallArg::Bool(a0)],
        ActionPayload::SetInvestorKyc(a0, a1) => seq![CallArg::Account(a0), CallArg::Bool(a1)],
        ActionPayload::SetMaxUtilization(a0) => seq![CallArg::U32(a0)],
        ActionPayload::SetOracle(a0) => seq![CallArg::Account(a0)],
        ActionPayload::RegisterDebtor(a0, a1, a2) => seq![CallArg::Text(a0), CallArg::Text(a1), CallArg::I128(a2)],
        ActionPayload::DeactivateDebtor(a0) => seq![CallArg::Text(a0)],
        ActionPayload::AddKeeper(a0) => seq![CallArg::Account(a0)],
        ActionPayload::SetLateThreshold(a0) => seq![CallArg::I64(a0)],
        ActionPayload::SetScoreThresholds(a0, a1, a2, a3) => seq![CallArg::U32(a0), CallArg::U32(a1), CallArg::U32(a2), CallArg::U32(a3)],
        ActionPayload::RegisterAttestor(a0, a1, a2) => seq![CallArg::Account(a0), CallArg::U32(a1), CallArg::U32(a2)],
        ActionPayload::SetOracleRegistryInvoiceContract(a0) => seq![CallArg::Account(a0)],
        ActionPayload::SetOracleRegistryTreasury(a0) => seq![CallArg::OptionalAccount(a0)],
        ActionPayload::SetOracleRegistryConfig(a0, a1, a2, a3, a4) => seq![CallArg::I128(a0), CallArg::U32(a1), CallArg::U32(a2), CallArg::U64(a3), CallArg::U64(a4)],
        ActionPayload::SetOracleRegistryPaused(a0) => seq![CallArg::Bool(a0)],
        ActionPayload::SlashOracle(a0, a1, a2, a3) => seq![CallArg::Account(a0), CallArg::U32(a1), CallArg::U64(a2), CallArg::Text(a3)],
        ActionPayload::AdminResolveRound(a0, a1, a2) => seq![CallArg::U64(a0), CallArg::Bool(a1), CallArg::Text(a2)],
        ActionPayload::SetCompliancePaused(a0) => seq![CallArg::Bool(a0)],
        ActionPayload::RegisterScreener(a0) => seq![CallArg::Account(a0)],
        ActionPayload::ConfirmScreenerRegistration(a0) => seq![CallArg::Account(a0)],
        ActionPayload::DeregisterScreener(a0) => seq![CallArg::Account(a0)],
        ActionPayload::SetRescreeningInterval(a0) => seq![CallArg::U64(a0)],
        ActionPayload::SetScreenerTimelock(a0) => seq![CallArg::U64(a0)],
        ActionPayload::UpdateGovernanceConfig(a0, a1) => seq![CallArg::U32(a0), CallArg::U32(a1)],
        ActionPayload::SetCategoryQuorum(a0, a1) => seq![CallArg::U32(a0), CallArg::U32(a1)],
        ActionPayload::SetReferralPaused(a0) => seq![CallArg::Bool(a0)],
        ActionPayload::SetReferralPool(a0) => seq![CallArg::Account(a0)],
        ActionPayload::SetBorrowRewardBps(a0) => seq![CallArg::U32(a0)],
        ActionPayload::SetDepositRewardBps(a0) => seq![CallArg::U32(a0)],
        ActionPayload::SetInvoiceAccessControl(a0) => seq![CallArg::Account(a0)],
        ActionPayload::SetCreditScoreAccessControl(a0) => seq![CallArg::Account(a0)],
        ActionPayload::SetOracleRegistryAccessControl(a0) => seq![CallArg::Account(a0)],
        ActionPayload::SetComplianceAccessControl(a0) => seq![CallArg::Account(a0)],
        ActionPayload::SetGovernanceAccessControl(a0) => seq![CallArg::Account(a0)],
        ActionPayload::SetReferralAccessControl(a0) => seq![CallArg::Account(a0)],
        ActionPayload::AddSigner(..) => Seq::empty(),
        ActionPayload::RemoveSigner(..) => Seq::empty(),
        ActionPayload::SetThreshold(..) => Seq::empty(),
        ActionPayload::SetProposalExpiry(..) => Seq::empty(),
    }
}

/// The arguments of the entry-point call that executing a cross-contract
/// `action` makes: the access-control contract's own address as the
/// authorising origin, then the action's fields in order.
pub open spec fn via_ac_call_args(access_control: AccountId, action: ActionPayload) -> Seq<CallArg> {
    seq![CallArg::Account(access_control)] + via_ac_action_fields(action)
}

/// `call` is the delivery of `action` to `target` by the access-control
/// contract `access_control`: the action's `*_via_ac` entry point, with
/// `access_control` as the authorising origin followed by the action's
/// fields in order.
pub open spec fn is_via_ac_call(call: TargetCall, access_control: AccountId, target: AccountId, action: ActionPayload) -> bool {
    &&& call.target == target
    &&& via_ac_setter_name(action) == Some(call.entry_point@)
    &&& same_args(call.args@, via_ac_call_args(access_control, action))
}

fn via_ac_fields(action: &ActionPayload) -> (r: Vec<CallArg>)
    ensures
        same_args(r@, via_ac_action_fields(*action)),
{
    match action {
        ActionPayload::SetPaused(a0) => vec![CallArg::Bool(*a0)],
        ActionPayload::SetYield(a0) => vec![CallArg::U32(*a0)],
        ActionPayload::SetTreasury(a0) => vec![CallArg::Account(*a0)],
        ActionPayload::WithdrawRevenue(a0, a1) => vec![CallArg::Account(*a0), CallArg::I128(*a1)],
        ActionPayload::SetOracleContract(a0) => vec![CallArg::Account(*a0)],
        ActionPayload::SetKycRequired(a0) => vec![CallArg::Bool(*a0)],
        ActionPayload::SetInvestorKyc(a0, a1) => vec![CallArg::Account(*a0), CallArg::Bool(*a1)],
        ActionPayload::SetMaxUtilization(a0) => vec![CallArg::U32(*a0)],
        ActionPayload::SetOracle(a0) => vec![CallArg::Account(*a0)],
        ActionPayload::RegisterDebtor(a0, a1, a2) => vec![CallArg::Text(a0.clone()), CallArg::Text(a1.clone()), CallArg::I128(*a2)],
        ActionPayload::DeactivateDebtor(a0) => vec![CallArg::Text(a0.clone())],
        ActionPayload::AddKeeper(a0) => vec![CallArg::Account(*a0)],
        ActionPayload::SetLateThreshold(a0) => vec![CallArg::I64(*a0)],
        ActionPayload::SetScoreThresholds(a0, a1, a2, a3) => vec![CallArg::U32(*a0), CallArg::U32(*a1), CallArg::U32(*a2), CallArg::U32(*a3)],
        ActionPayload::RegisterAttestor(a0, a1, a2) => vec![CallArg::Account(*a0), CallArg::U32(*a1), CallArg::U32(*a2)],
        ActionPayload::SetOracleRegistryInvoiceContract(a0) => vec![CallArg::Account(*a0)],
        ActionPayload::SetOracleRegistryTreasury(a0) => vec![CallArg::OptionalAccount(*a0)],
        ActionPayload::SetOracleRegistryConfig(a0, a1, a2, a3, a4) => vec![CallArg::I128(*a0), CallArg::U32(*a1), CallArg::U32(*a2), CallArg::U64(*a3), CallArg::U64(*a4)],
        ActionPayload::SetOracleRegistryPaused(a0) => vec![CallArg::Bool(*a0)],
        ActionPayload::SlashOracle(a0, a1, a2, a3) => vec![CallArg::Account(*a0), CallArg::U32(*a1), CallArg::U64(*a2), CallArg::Text(a3.clone())],
        ActionPayload::AdminResolveRound(a0, a1, a2) => vec![CallArg::U64(*a0), CallArg::Bool(*a1), CallArg::Text(a2.clone())],
        ActionPayload::SetCompliancePaused(a0) => vec![CallArg::Bool(*a0)],
        ActionPayload::RegisterScreener(a0) => vec![CallArg::Account(*a0)],
        ActionPayload::ConfirmScreenerRegistration(a0) => vec![CallArg::Account(*a0)],
        ActionPayload::DeregisterScreener(a0) => vec![CallArg::Account(*a0)],
        ActionPayload::SetRescreeningInterval(a0) => vec![CallArg::U64(*a0)],
        ActionPayload::SetScreenerTimelock(a0) => vec![CallArg::U64(*a0)],
        ActionPayload::UpdateGovernanceConfig(a0, a1) => vec![CallArg::U32(*a0), CallArg::U32(*a1)],
        ActionPayload::SetCategoryQuorum(a0, a1) => vec![CallArg::U32(*a0), CallArg::U32(*a1)],
        ActionPayload::SetReferralPaused(a0) => vec![CallArg::Bool(*a0)],
        ActionPayload::SetReferralPool(a0) => vec![CallArg::Account(*a0)],
        ActionPayload::SetBorrowRewardBps(a0) => vec![CallArg::U32(*a0)],
        ActionPayload::SetDepositRewardBps(a0) => vec![CallArg::U32(*a0)],
        ActionPayload::SetInvoiceAccessControl(a0) => vec![CallArg::Account(*a0)],
        ActionPayload::SetCreditScoreAccessControl(a0) => vec![CallArg::Account(*a0)],
        ActionPayload::SetOracleRegistryAccessControl(a0) => vec![CallArg::Account(*a0)],
        ActionPayload::SetComplianceAccessControl(a0) => vec![CallArg::Account(*a0)],
        ActionPayload::SetGovernanceAccessControl(a0) => vec![CallArg::Account(*a0)],
        ActionPayload::SetReferralAccessControl(a0) => vec![CallArg::Account(*a0)],
        ActionPayload::AddSigner(..) => Vec::new(),
        ActionPayload::RemoveSigner(..) => Vec::new(),
        ActionPayload::SetThreshold(..) => Vec::new(),
        ActionPayload::SetProposalExpiry(..) => Vec::new(),
    }
}


/// The call that executing a cross-contract `action` against `target`
/// makes: the action's `*_via_ac` entry point on `target`, with
/// `this_contract`, this contract's own address (never the executing
/// caller's), as the authorising origin followed by the action's fields in
/// order. Self-management calls nothing. The host makes the call.
pub fn execute_cross_contract(this_contract: AccountId, target: AccountId, action: &ActionPayload) -> (r: Option<TargetCall>)
    ensures
        r is None <==> is_self_management_spec(*action),
        r matches Some(call) ==> is_via_ac_call(call, this_contract, target, *action),
{
    match via_ac_entry_point(action) {
        None => None,
        Some(entry_point) => {
            let fields = via_ac_fields(action);
            let ghost fields_view = fields@;
            let call = call_from(target, entry_point, this_contract, fields);
            proof {
                lemma_same_args_prepend(
                    CallArg::Account(this_contract),
                    fields_view,
                    via_ac_action_fields(*action),
                );
            }
            Some(call)
        },
    }
}

#[derive(Clone, Copy, Debug, PartialEq, Eq, Structural)]
pub enum ProposalStatus {
    Pending,
    Approved,
    Executed,
    Rejected,
}

#[derive(Debug)]
pub struct Proposal {
    pub role: Role,
    /// The contract the action targets, or this contract's own address for
    /// a self-management action.
    pub target: AccountId,
    pub action: ActionPayload,
    pub proposer: AccountId,
    pub approvals: Vec<AccountId>,
    pub created_at: u64,
    pub expires_at: u64,
    pub status: ProposalStatus,
}

#[derive(Clone, Copy, Debug, PartialEq, Eq, Structural)]
pub enum AccessControlError {
    AlreadyInitialized,
    NotInitialized,
    NotASigner,
    AlreadyApproved,
    ThresholdNotMet,
    ProposalNotFound,
    ProposalExpired,
    ProposalNotPending,
    ProposalNotApproved,
    InvalidThreshold,
    DuplicateSigner,
    RoleNotConfigured,
    SelfManagementRequiresSuperAdmin,
    InvalidExpiryWindow,
    SignerNotFound,
    NoApprovalToRevoke,
    /// A self-management action must target this contract, any other
    /// action another contract.
    IncoherentProposal,
    /// The role already has `MAX_SIGNERS_PER_ROLE` signers.
    MaxSignersExceeded,
}

/// The numbering of access-control errors, in declaration order from 0.
pub open spec fn access_control_error_code(e: AccessControlError) -> u32 {
    match e {
        AccessControlError::AlreadyInitialized => 0,
        AccessControlError::NotInitialized => 1,
        AccessControlError::NotASigner => 2,
        AccessControlError::AlreadyApproved => 3,
        AccessControlError::ThresholdNotMet => 4,
        AccessControlError::ProposalNotFound => 5,
        AccessControlError::ProposalExpired => 6,
        AccessControlError::ProposalNotPending => 7,
        AccessControlError::ProposalNotApproved => 8,
        AccessControlError::InvalidThreshold => 9,
        AccessControlError::DuplicateSigner => 10,
        AccessControlError::RoleNotConfigured => 11,
        AccessControlError::SelfManagementRequiresSuperAdmin => 12,
        AccessControlError::InvalidExpiryWindow => 13,
        AccessControlError::SignerNotFound => 14,
        AccessControlError::NoApprovalToRevoke => 15,
        AccessControlError::IncoherentProposal => 16,
        AccessControlError::MaxSignersExceeded => 17,
    }
}

impl AccessControlError {
    /// The contract error code of this error.
    pub fn code(&self) -> (r: u32)
        ensures
            r == access_control_error_code(*self),
    {
        match self {
            AccessControlError::AlreadyInitialized => 0,
            AccessControlError::NotInitialized => 1,
            AccessControlError::NotASigner => 2,
            AccessControlError::AlreadyApproved => 3,
            AccessControlError::ThresholdNotMet => 4,
            AccessControlError::ProposalNotFound => 5,
            AccessControlError::ProposalExpired => 6,
            AccessControlError::ProposalNotPending => 7,
            AccessControlError::ProposalNotApproved => 8,
            AccessControlError::InvalidThreshold => 9,
            AccessControlError::DuplicateSigner => 10,
            AccessControlError::RoleNotConfigured => 11,
            AccessControlError::SelfManagementRequiresSuperAdmin => 12,
            AccessControlError::InvalidExpiryWindow => 13,
            AccessControlError::SignerNotFound => 14,
            AccessControlError::NoApprovalToRevoke => 15,
            AccessControlError::IncoherentProposal => 16,
            AccessControlError::MaxSignersExceeded => 17,
        }
    }
}

/// Whether `a` is in the list.
fn contains_account(v: &Vec<AccountId>, a: AccountId) -> (r: bool)
    ensures
        r == v@.contains(a),
{
    let mut i: usize = 0;
    while i < v.len()
        invariant
            i <= v@.len(),
            forall|j: int| 0 <= j < i ==> v@[j] != a,
        decreases v@.len() - i,
    {
        if v[i] == a {
            assert(v@[i as int] == a);
            return true;
        }
        i = i + 1;
    }
    false
}

/// The first position of `a` in the list.
fn position_of(v: &Vec<AccountId>, a: AccountId) -> (r: Option<usize>)
    ensures
        match r {
            Some(i) => i < v@.len() && v@[i as int] == a && forall|j: int| 0 <= j < i ==> v@[j] != a,
            None => !v@.contains(a),
        },
{
    let mut i: usize = 0;
    while i < v.len()
        invariant
            i <= v@.len(),
            forall|j: int| 0 <= j < i ==> v@[j] != a,
        decreases v@.len() - i,
    {
        if v[i] == a {
            return Some(i);
        }
        i = i + 1;
    }
    None
}

/// A copy of the list.
fn copy_accounts(v: &Vec<AccountId>) -> (r: Vec<AccountId>)
    ensures
        r@ == v@,
{
    let mut r: Vec<AccountId> = Vec::new();
    let mut i: usize = 0;
    while i < v.len()
        invariant
            i <= v@.len(),
            r@ == v@.subrange(0, i as int),
        decreases v@.len() - i,
    {
        r.push(v[i]);
        i = i + 1;
        assert(r@ =~= v@.subrange(0, i as int));
    }
    assert(r@ =~= v@);
    r
}

/// What `validate_config` decides of a signer list and threshold.
pub open spec fn config_check(signers: Seq<AccountId>, threshold: u32) -> Result<
    (),
    AccessControlError,
> {
    if threshold == 0 || threshold > signers.len() {
        Err(AccessControlError::InvalidThreshold)
    } else if !signers.no_duplicates() {
        Err(AccessControlError::DuplicateSigner)
    } else {
        Ok(())
    }
}

/// A threshold must be between one and the number of signers, and no
/// signer may occur twice.
pub fn validate_config(signers: &Vec<AccountId>, threshold: u32) -> (r: Result<(), AccessControlError>)
    ensures
        r == config_check(signers@, threshold),
{
    if threshold == 0 || threshold as usize > signers.len() {
        return Err(AccessControlError::InvalidThreshold);
    }
    let mut i: usize = 0;
    while i < signers.len()
        invariant
            i <= signers@.len(),
            0 < threshold <= signers@.len(),
            forall|x: int, y: int| 0 <= x < y < i ==> signers@[x] != signers@[y],
        decreases signers@.len() - i,
    {
        let a = signers[i];
        let mut j: usize = 0;
        while j < i
            invariant
                i < signers@.len(),
                0 < threshold <= signers@.len(),
                j <= i,
                a == signers@[i as int],
                forall|x: int| 0 <= x < j ==> signers@[x] != a,
            decreases i - j,
        {
            if signers[j] == a {
                assert(!signers@.no_duplicates()) by {
                    assert(signers@[j as int] == signers@[i as int]);
                }
                return Err(AccessControlError::DuplicateSigner);
            }
            j = j + 1;
        }
        i = i + 1;
    }
    Ok(())
}

/// Proposal fields that approvals, revocations and status changes leave
/// alone.
pub open spec fn same_proposal_terms(p: Proposal, q: Proposal) -> bool {
    &&& p.role == q.role
    &&& p.target == q.target
    &&& p.action == q.action
    &&& p.proposer == q.proposer
    &&& p.created_at == q.created_at
    &&& p.expires_at == q.expires_at
}

/// A configured role has distinct signers and a threshold of at most their
/// number.
pub open spec fn role_config_wf(c: Option<MultiSigConfig>) -> bool {
    c matches Some(m) ==> m.signers@.no_duplicates() && m.threshold <= m.signers@.len()
}

/// What the contract keeps in storage. `role_configs` has one slot per role
/// (see `role_index`); proposal `k` is stored at position `k`.
pub struct AccessControlContract {
    /// This contract's own address.
    pub address: AccountId,
    pub initialized: bool,
    pub role_configs: Vec<Option<MultiSigConfig>>,
    pub proposals: Vec<Proposal>,
    pub proposal_expiry_secs: Option<u64>,
}

impl AccessControlContract {
    pub open spec fn role_config(&self, role: Role) -> Option<MultiSigConfig> {
        self.role_configs@[role_index(role)]
    }

    /// The signers of a role; none for an unconfigured role.
    pub open spec fn signers_of(&self, role: Role) -> Seq<AccountId> {
        match self.role_config(role) {
            Some(c) => c.signers@,
            None => Seq::empty(),
        }
    }

    /// The threshold of a role; zero for an unconfigured role.
    pub open spec fn threshold_of(&self, role: Role) -> u32 {
        match self.role_config(role) {
            Some(c) => c.threshold,
            None => 0,
        }
    }

    /// A role's configuration as plain values.
    pub open spec fn role_view(&self, role: Role) -> Option<(Seq<AccountId>, u32)> {
        match self.role_config(role) {
            Some(c) => Some((c.signers@, c.threshold)),
            None => None,
        }
    }

    /// The window new proposals stay open for.
    pub open spec fn expiry_window(&self) -> u64 {
        match self.proposal_expiry_secs {
            Some(s) => s,
            None => DEFAULT_PROPOSAL_EXPIRY_SECS,
        }
    }

    pub open spec fn proposal_exists(&self, id: u64) -> bool {
        id < self.proposals@.len()
    }

    pub open spec fn proposal(&self, id: u64) -> Proposal {
        self.proposals@[id as int]
    }

    /// Every role slot holds a well-formed configuration or none.
    pub open spec fn roles_wf(&self) -> bool {
        &&& self.role_configs@.len() == ROLE_COUNT
        &&& forall|r: Role| role_config_wf(#[trigger] self.role_config(r))
        &&& self.role_config(Role::SuperAdmin) matches Some(m) ==> m.threshold >= 1
        &&& forall|r: Role| #[trigger] self.role_config(r) is Some ==> self.role_config(Role::SuperAdmin) is Some
    }

    pub open spec fn wf(&self) -> bool {
        &&& self.roles_wf()
        &&& self.proposal_expiry_secs matches Some(s) ==> s > 0
        &&& self.proposals@.len() > 0 ==> self.role_config(Role::SuperAdmin) is Some
        &&& forall|i: int|
            0 <= i < self.proposals@.len() ==> {
                let p = #[trigger] self.proposals@[i];
                &&& p.approvals@.no_duplicates()
                &&& requires_super_admin_spec(p.action) ==> p.role == Role::SuperAdmin
                &&& is_self_management_spec(p.action) <==> p.target == self.address
            }
    }

    /// Only the proposal with id `id` differs between the two states, and
    /// roles and settings are equal.
    pub open spec fn only_proposal_changed(&self, old: Self, id: u64) -> bool {
        &&& self.address == old.address
        &&& self.initialized == old.initialized
        &&& self.role_configs == old.role_configs
        &&& self.proposal_expiry_secs == old.proposal_expiry_secs
        &&& self.proposals@.len() == old.proposals@.len()
        &&& forall|j: int|
            0 <= j < old.proposals@.len() && j != id ==> #[trigger] self.proposals@[j]
                == old.proposals@[j]
    }

    /// Role configurations satisfy their invariant in a state whose role
    /// slots equal those of a state where they do.
    proof fn lemma_same_roles(a: Self, b: Self)
        requires
            a.role_configs@ == b.role_configs@,
            forall|r: Role| role_config_wf(#[trigger] a.role_config(r)),
        ensures
            forall|r: Role| role_config_wf(#[trigger] b.role_config(r)),
            forall|r: Role| #[trigger] b.role_config(r) == a.role_config(r),
    {
        assert forall|r: Role| #[trigger] b.role_config(r) == a.role_config(r) by {}
        assert forall|r: Role| role_config_wf(#[trigger] b.role_config(r)) by {
            assert(a.role_config(r) == b.role_config(r));
        }
    }

    /// A contract at `address` that has not been initialized.
    pub fn new(address: AccountId) -> (r: Self)
        ensures
            r.wf(),
            r.address == address,
            !r.initialized,
            forall|role: Role| #[trigger] r.role_config(role) is None,
            r.proposals@.len() == 0,
            r.proposal_expiry_secs is None,
    {
        let mut role_configs: Vec<Option<MultiSigConfig>> = Vec::new();
        let mut i: usize = 0;
        while i < ROLE_COUNT
            invariant
                i <= ROLE_COUNT,
                role_configs@.len() == i,
                forall|j: int| 0 <= j < i ==> role_configs@[j] is None,
            decreases ROLE_COUNT - i,
        {
            role_configs.push(None);
            i = i + 1;
        }
        let r = AccessControlContract {
            address,
            initialized: false,
            role_configs,
            proposals: Vec::new(),
            proposal_expiry_secs: None,
        };
        assert forall|role: Role| #[trigger] r.role_config(role) is None by {
            assert(0 <= role_index(role) < 5);
        }
        r
    }

    pub open spec fn init_check(
        &self,
        signers: Seq<AccountId>,
        threshold: u32,
        proposal_expiry_secs: u64,
    ) -> Result<(), AccessControlError> {
        if self.initialized {
            Err(AccessControlError::AlreadyInitialized)
        } else if config_check(signers, threshold) is Err {
            config_check(signers, threshold)
        } else if proposal_expiry_secs == 0 {
            Err(AccessControlError::InvalidExpiryWindow)
        } else {
            Ok(())
        }
    }

    /// One-time setup: seeds the super admin role (every other role starts
    /// unconfigured) and the proposal expiry window.
    pub fn initialize(
        &mut self,
        super_admin_signers: Vec<AccountId>,
        super_admin_threshold: u32,
        proposal_expiry_secs: u64,
    ) -> (r: Result<(), AccessControlError>)
        requires
            old(self).wf(),
        ensures
            final(self).wf(),
            r == old(self).init_check(
                super_admin_signers@,
                super_admin_threshold,
                proposal_expiry_secs,
            ),
            r is Err ==> *final(self) == *old(self),
            r is Ok ==> {
                &&& final(self).initialized
                &&& final(self).address == old(self).address
                &&& final(self).proposals == old(self).proposals
                &&& final(self).proposal_expiry_secs == Some(proposal_expiry_secs)
                &&& final(self).role_configs@ == old(self).role_configs@.update(
                    role_index(Role::SuperAdmin),
                    Some(
                        MultiSigConfig {
                            signers: super_admin_signers,
                            threshold: super_admin_threshold,
                        },
                    ),
                )
            },
    {
        if self.initialized {
            return Err(AccessControlError::AlreadyInitialized);
        }
        validate_config(&super_admin_signers, super_admin_threshold)?;
        if proposal_expiry_secs == 0 {
            return Err(AccessControlError::InvalidExpiryWindow);
        }
        self.initialized = true;
        self.role_configs.set(
            0,
            Some(MultiSigConfig { signers: super_admin_signers, threshold: super_admin_threshold }),
        );
        self.proposal_expiry_secs = Some(proposal_expiry_secs);
        proof {
            assert forall|r: Role| role_config_wf(#[trigger] self.role_config(r)) by {
                if role_index(r) != 0 {
                    assert(self.role_config(r) == old(self).role_config(r));
                }
            }
        }
        Ok(())
    }

    /// The current proposal expiry window in seconds.
    pub fn get_proposal_expiry_secs(&self) -> (r: u64)
        ensures
            r == self.expiry_window(),
    {
        match self.proposal_expiry_secs {
            Some(s) => s,
            None => DEFAULT_PROPOSAL_EXPIRY_SECS,
        }
    }

    /// A role's signer set and threshold, if it is configured.
    pub fn get_role_config(&self, role: Role) -> (r: Option<&MultiSigConfig>)
        requires
            self.wf(),
        ensures
            r is Some <==> self.role_config(role) is Some,
            r is Some ==> *r->Some_0 == self.role_config(role)->Some_0,
    {
        match &self.role_configs[role_slot(role)] {
            Some(c) => Some(c),
            None => None,
        }
    }

    pub fn is_signer(&self, role: Role, address: AccountId) -> (r: bool)
        requires
            self.wf(),
        ensures
            r == self.signers_of(role).contains(address),
    {
        match &self.role_configs[role_slot(role)] {
            Some(c) => contains_account(&c.signers, address),
            None => false,
        }
    }

    pub fn get_proposal(&self, proposal_id: u64) -> (r: Option<&Proposal>)
        ensures
            r is Some <==> self.proposal_exists(proposal_id),
            r is Some ==> *r->Some_0 == self.proposal(proposal_id),
    {
        if proposal_id < self.proposals.len() as u64 {
            Some(&self.proposals[proposal_id as usize])
        } else {
            None
        }
    }

    pub open spec fn propose_check(
        &self,
        role: Role,
        proposer: AccountId,
        target: AccountId,
        action: ActionPayload,
    ) -> Result<(), AccessControlError> {
        if requires_super_admin_spec(action) && role != Role::SuperAdmin {
            Err(AccessControlError::SelfManagementRequiresSuperAdmin)
        } else if self.role_config(role) is None {
            Err(AccessControlError::RoleNotConfigured)
        } else if is_self_management_spec(action) != (target == self.address) {
            Err(AccessControlError::IncoherentProposal)
        } else if !self.signers_of(role).contains(proposer) {
            Err(AccessControlError::NotASigner)
        } else {
            Ok(())
        }
    }

    /// Raises a proposal under `role` with the next id. The proposer must be
    /// a signer of the role and counts as its first approval; a role whose
    /// threshold is at most one approves it at once. Self-management must
    /// target this contract and every other action another contract.
    pub fn propose_action(
        &mut self,
        role: Role,
        proposer: AccountId,
        target: AccountId,
        action: ActionPayload,
        now: u64,
    ) -> (r: Result<u64, AccessControlError>)
        requires
            old(self).wf(),
            old(self).proposals@.len() < u64::MAX,
            old(self).propose_check(role, proposer, target, action) is Ok ==> now
                + old(self).expiry_window() <= u64::MAX,
        ensures
            final(self).wf(),
            r is Ok <==> old(self).propose_check(role, proposer, target, action) is Ok,
            r is Err ==> r == Err::<u64, AccessControlError>(
                old(self).propose_check(role, proposer, target, action)->Err_0,
            ),
            r is Err ==> *final(self) == *old(self),
            r is Ok ==> {
                let id = old(self).proposals@.len();
                let p = final(self).proposals@[id as int];
                &&& r == Ok::<u64, AccessControlError>(id as u64)
                &&& final(self).address == old(self).address
                &&& final(self).initialized == old(self).initialized
                &&& final(self).role_configs == old(self).role_configs
                &&& final(self).proposal_expiry_secs == old(self).proposal_expiry_secs
                &&& final(self).proposals@.len() == id + 1
                &&& forall|j: int| 0 <= j < id ==> #[trigger] final(self).proposals@[j] == old(self).proposals@[j]
                &&& p.role == role
                &&& p.target == target
                &&& p.action == action
                &&& p.proposer == proposer
                &&& p.approvals@ == seq![proposer]
                &&& p.created_at == now
                &&& p.expires_at == now + old(self).expiry_window()
                &&& p.status == if old(self).threshold_of(role) <= 1 {
                    ProposalStatus::Approved
                } else {
                    ProposalStatus::Pending
                }
            },
    {
        if requires_super_admin(&action) && role != Role::SuperAdmin {
            return Err(AccessControlError::SelfManagementRequiresSuperAdmin);
        }
        let targets_self = target == self.address;
        let self_management = is_self_management(&action);
        let threshold = match &self.role_configs[role_slot(role)] {
            None => {
                return Err(AccessControlError::RoleNotConfigured);
            },
            Some(c) => {
                if self_management != targets_self {
                    return Err(AccessControlError::IncoherentProposal);
                }
                if !contains_account(&c.signers, proposer) {
                    return Err(AccessControlError::NotASigner);
                }
                c.threshold
            },
        };
        let expiry_secs = self.get_proposal_expiry_secs();
        let mut approvals: Vec<AccountId> = Vec::new();
        approvals.push(proposer);
        let status = if threshold <= 1 {
            ProposalStatus::Approved
        } else {
            ProposalStatus::Pending
        };
        let proposal_id = self.proposals.len() as u64;
        let proposal = Proposal {
            role,
            target,
            action,
            proposer,
            approvals,
            created_at: now,
            expires_at: now + expiry_secs,
            status,
        };
        self.proposals.push(proposal);
        proof {
            Self::lemma_same_roles(*old(self), *self);
            assert(self.proposals@[proposal_id as int].approvals@ =~= seq![proposer]);
            assert forall|i: int| 0 <= i < self.proposals@.len() implies {
                let p = #[trigger] self.proposals@[i];
                &&& p.approvals@.no_duplicates()
                &&& requires_super_admin_spec(p.action) ==> p.role == Role::SuperAdmin
                &&& is_self_management_spec(p.action) <==> p.target == self.address
            } by {
                if i < proposal_id {
                    assert(self.proposals@[i] == old(self).proposals@[i]);
                }
            }
        }
        Ok(proposal_id)
    }

    pub open spec fn approve_check(&self, signer: AccountId, proposal_id: u64, now: u64) -> Result<
        (),
        AccessControlError,
    > {
        if !self.proposal_exists(proposal_id) {
            Err(AccessControlError::ProposalNotFound)
        } else {
            let p = self.proposal(proposal_id);
            if p.status != ProposalStatus::Pending && p.status != ProposalStatus::Approved {
                Err(AccessControlError::ProposalNotPending)
            } else if now > p.expires_at {
                Err(AccessControlError::ProposalExpired)
            } else if self.role_config(p.role) is None {
                Err(AccessControlError::RoleNotConfigured)
            } else if !self.signers_of(p.role).contains(signer) {
                Err(AccessControlError::NotASigner)
            } else if p.approvals@.contains(signer) {
                Err(AccessControlError::AlreadyApproved)
            } else {
                Ok(())
            }
        }
    }

    /// Approves an open proposal; each signer of its role approves at most
    /// once, and the proposal becomes approved once its approvals reach the
    /// role's threshold.
    pub fn approve_action(&mut self, signer: AccountId, proposal_id: u64, now: u64) -> (r: Result<
        (),
        AccessControlError,
    >)
        requires
            old(self).wf(),
        ensures
            final(self).wf(),
            r == old(self).approve_check(signer, proposal_id, now),
            r is Err ==> *final(self) == *old(self),
            r is Ok ==> {
                let p = old(self).proposal(proposal_id);
                let q = final(self).proposal(proposal_id);
                &&& final(self).only_proposal_changed(*old(self), proposal_id)
                &&& same_proposal_terms(q, p)
                &&& q.approvals@ == p.approvals@.push(signer)
                &&& q.status == if q.approvals@.len() >= old(self).threshold_of(p.role) {
                    ProposalStatus::Approved
                } else {
                    p.status
                }
            },
    {
        if proposal_id >= self.proposals.len() as u64 {
            return Err(AccessControlError::ProposalNotFound);
        }
        let idx = proposal_id as usize;
        let status = self.proposals[idx].status;
        if status != ProposalStatus::Pending && status != ProposalStatus::Approved {
            return Err(AccessControlError::ProposalNotPending);
        }
        if now > self.proposals[idx].expires_at {
            return Err(AccessControlError::ProposalExpired);
        }
        let role = self.proposals[idx].role;
        let threshold = match &self.role_configs[role_slot(role)] {
            None => {
                return Err(AccessControlError::RoleNotConfigured);
            },
            Some(c) => {
                if !contains_account(&c.signers, signer) {
                    return Err(AccessControlError::NotASigner);
                }
                c.threshold
            },
        };
        if contains_account(&self.proposals[idx].approvals, signer) {
            return Err(AccessControlError::AlreadyApproved);
        }
        let ghost old_ps = self.proposals@;
        let mut proposal = self.proposals.remove(idx);
        proposal.approvals.push(signer);
        if proposal.approvals.len() >= threshold as usize {
            proposal.status = ProposalStatus::Approved;
        }
        self.proposals.insert(idx, proposal);
        proof {
            Self::lemma_same_roles(*old(self), *self);
            assert(self.proposals@ =~= old_ps.update(idx as int, self.proposals@[idx as int]));
            assert forall|i: int| 0 <= i < self.proposals@.len() implies {
                let p = #[trigger] self.proposals@[i];
                &&& p.approvals@.no_duplicates()
                &&& requires_super_admin_spec(p.action) ==> p.role == Role::SuperAdmin
                &&& is_self_management_spec(p.action) <==> p.target == self.address
            } by {
                if i != idx {
                    assert(self.proposals@[i] == old_ps[i]);
                } else {
                    let a = self.proposals@[i].approvals@;
                    let b = old_ps[i].approvals@;
                    assert(a == b.push(signer));
                    assert forall|x: int, y: int| 0 <= x < a.len() && 0 <= y < a.len() && x != y implies a[x]
                        != a[y] by {
                        if x == b.len() {
                            assert(b[y] == a[y]);
                        } else if y == b.len() {
                            assert(b[x] == a[x]);
                        }
                    }
                }
            }
        }
        Ok(())
    }

    pub open spec fn revoke_check(&self, signer: AccountId, proposal_id: u64) -> Result<
        (),
        AccessControlError,
    > {
        if !self.proposal_exists(proposal_id) {
            Err(AccessControlError::ProposalNotFound)
        } else {
            let p = self.proposal(proposal_id);
            if p.status != ProposalStatus::Pending && p.status != ProposalStatus::Approved {
                Err(AccessControlError::ProposalNotPending)
            } else if !p.approvals@.contains(signer) {
                Err(AccessControlError::NoApprovalToRevoke)
            } else if self.role_config(p.role) is None {
                Err(AccessControlError::RoleNotConfigured)
            } else {
                Ok(())
            }
        }
    }

    /// Withdraws the signer's own approval from a proposal that has not
    /// been executed; the status is derived again from the approvals left,
    /// so a proposal can fall back from approved to pending.
    pub fn revoke_approval(&mut self, signer: AccountId, proposal_id: u64) -> (r: Result<
        (),
        AccessControlError,
    >)
        requires
            old(self).wf(),
        ensures
            final(self).wf(),
            r == old(self).revoke_check(signer, proposal_id),
            r is Err ==> *final(self) == *old(self),
            r is Ok ==> {
                let p = old(self).proposal(proposal_id);
                let q = final(self).proposal(proposal_id);
                &&& final(self).only_proposal_changed(*old(self), proposal_id)
                &&& same_proposal_terms(q, p)
                &&& q.approvals@ == p.approvals@.remove(p.approvals@.index_of(signer))
                &&& q.status == if q.approvals@.len() >= old(self).threshold_of(p.role) {
                    ProposalStatus::Approved
                } else {
                    ProposalStatus::Pending
                }
            },
    {
        if proposal_id >= self.proposals.len() as u64 {
            return Err(AccessControlError::ProposalNotFound);
        }
        let idx = proposal_id as usize;
        let status = self.proposals[idx].status;
        if status != ProposalStatus::Pending && status != ProposalStatus::Approved {
            return Err(AccessControlError::ProposalNotPending);
        }
        let pos = match position_of(&self.proposals[idx].approvals, signer) {
            Some(i) => i,
            None => {
                return Err(AccessControlError::NoApprovalToRevoke);
            },
        };
        let role = self.proposals[idx].role;
        let threshold = match &self.role_configs[role_slot(role)] {
            None => {
                return Err(AccessControlError::RoleNotConfigured);
            },
            Some(c) => c.threshold,
        };
        let ghost old_ps = self.proposals@;
        proof {
            let b = old_ps[idx as int].approvals@;
            let k = b.index_of(signer);
            assert(b.contains(signer)) by {
                assert(b[pos as int] == signer);
            }
            assert(0 <= k < b.len() && b[k] == signer);
            assert(k == pos);
        }
        let mut proposal = self.proposals.remove(idx);
        proposal.approvals.remove(pos);
        proposal.status = if proposal.approvals.len() >= threshold as usize {
            ProposalStatus::Approved
        } else {
            ProposalStatus::Pending
        };
        self.proposals.insert(idx, proposal);
        proof {
            Self::lemma_same_roles(*old(self), *self);
            assert(self.proposals@ =~= old_ps.update(idx as int, self.proposals@[idx as int]));
            assert forall|i: int| 0 <= i < self.proposals@.len() implies {
                let p = #[trigger] self.proposals@[i];
                &&& p.approvals@.no_duplicates()
                &&& requires_super_admin_spec(p.action) ==> p.role == Role::SuperAdmin
                &&& is_self_management_spec(p.action) <==> p.target == self.address
            } by {
                if i != idx {
                    assert(self.proposals@[i] == old_ps[i]);
                } else {
                    let a = self.proposals@[i].approvals@;
                    let b = old_ps[i].approvals@;
                    assert(a == b.remove(pos as int));
                    assert forall|x: int, y: int| 0 <= x < a.len() && 0 <= y < a.len() && x != y implies a[x]
                        != a[y] by {
                        let bx = if x < pos { x } else { x + 1 };
                        let by_ = if y < pos { y } else { y + 1 };
                        assert(a[x] == b[bx]);
                        assert(a[y] == b[by_]);
                    }
                }
            }
        }
        Ok(())
    }

    pub open spec fn reject_check(&self, signer: AccountId, proposal_id: u64) -> Result<
        (),
        AccessControlError,
    > {
        if !self.proposal_exists(proposal_id) {
            Err(AccessControlError::ProposalNotFound)
        } else {
            let p = self.proposal(proposal_id);
            if p.status != ProposalStatus::Pending && p.status != ProposalStatus::Approved {
                Err(AccessControlError::ProposalNotPending)
            } else if self.role_config(p.role) is None {
                Err(AccessControlError::RoleNotConfigured)
            } else if !self.signers_of(p.role).contains(signer) {
                Err(AccessControlError::NotASigner)
            } else {
                Ok(())
            }
        }
    }

    /// Rejects a pending or approved proposal before it executes; any signer
    /// of its role may do so, since rejecting only narrows what can execute.
    pub fn reject_action(&mut self, signer: AccountId, proposal_id: u64) -> (r: Result<
        (),
        AccessControlError,
    >)
        requires
            old(self).wf(),
        ensures
            final(self).wf(),
            r == old(self).reject_check(signer, proposal_id),
            r is Err ==> *final(self) == *old(self),
            r is Ok ==> {
                let p = old(self).proposal(proposal_id);
                let q = final(self).proposal(proposal_id);
                &&& final(self).only_proposal_changed(*old(self), proposal_id)
                &&& same_proposal_terms(q, p)
                &&& q.approvals == p.approvals
                &&& q.status == ProposalStatus::Rejected
            },
    {
        if proposal_id >= self.proposals.len() as u64 {
            return Err(AccessControlError::ProposalNotFound);
        }
        let idx = proposal_id as usize;
        let status = self.proposals[idx].status;
        if status != ProposalStatus::Pending && status != ProposalStatus::Approved {
            return Err(AccessControlError::ProposalNotPending);
        }
        let role = self.proposals[idx].role;
        match &self.role_configs[role_slot(role)] {
            None => {
                return Err(AccessControlError::RoleNotConfigured);
            },
            Some(c) => {
                if !contains_account(&c.signers, signer) {
                    return Err(AccessControlError::NotASigner);
                }
            },
        }
        let ghost old_ps = self.proposals@;
        let mut proposal = self.proposals.remove(idx);
        proposal.status = ProposalStatus::Rejected;
        self.proposals.insert(idx, proposal);
        proof {
            Self::lemma_same_roles(*old(self), *self);
            assert(self.proposals@ =~= old_ps.update(idx as int, self.proposals@[idx as int]));
            assert forall|i: int| 0 <= i < self.proposals@.len() implies {
                let p = #[trigger] self.proposals@[i];
                &&& p.approvals@.no_duplicates()
                &&& requires_super_admin_spec(p.action) ==> p.role == Role::SuperAdmin
                &&& is_self_management_spec(p.action) <==> p.target == self.address
            } by {
                if i != idx {
                    assert(self.proposals@[i] == old_ps[i]);
                }
            }
        }
        Ok(())
    }

    pub open spec fn self_management_check(&self, action: ActionPayload) -> Result<
        (),
        AccessControlError,
    > {
        match action {
            ActionPayload::AddSigner(role, a) => if self.signers_of(role).contains(a) {
                Err(AccessControlError::DuplicateSigner)
            } else if self.signers_of(role).len() >= MAX_SIGNERS_PER_ROLE {
                Err(AccessControlError::MaxSignersExceeded)
            } else {
                Ok(())
            },
            ActionPayload::RemoveSigner(role, a) => if self.role_config(role) is None {
                Err(AccessControlError::RoleNotConfigured)
            } else if !self.signers_of(role).contains(a) {
                Err(AccessControlError::SignerNotFound)
            } else if self.signers_of(role).len() - 1 < self.threshold_of(role) {
                Err(AccessControlError::InvalidThreshold)
            } else {
                Ok(())
            },
            ActionPayload::SetThreshold(role, t) => config_check(self.signers_of(role), t),
            ActionPayload::SetProposalExpiry(secs) => if secs == 0 {
                Err(AccessControlError::InvalidExpiryWindow)
            } else {
                Ok(())
            },
            _ => Ok(()),
        }
    }

    /// The configuration of role `r` after the self-management `action`.
    pub open spec fn managed_role_view(&self, action: ActionPayload, r: Role) -> Option<
        (Seq<AccountId>, u32),
    > {
        match action {
            ActionPayload::AddSigner(role, a) => if r == role {
                Some((self.signers_of(role).push(a), self.threshold_of(role)))
            } else {
                self.role_view(r)
            },
            ActionPayload::RemoveSigner(role, a) => if r == role {
                Some(
                    (
                        self.signers_of(role).remove(self.signers_of(role).index_of(a)),
                        self.threshold_of(role),
                    ),
                )
            } else {
                self.role_view(r)
            },
            ActionPayload::SetThreshold(role, t) => if r == role {
                Some((self.signers_of(role), t))
            } else {
                self.role_view(r)
            },
            _ => self.role_view(r),
        }
    }

    /// The expiry setting after the self-management `action`.
    pub open spec fn managed_expiry(&self, action: ActionPayload) -> Option<u64> {
        match action {
            ActionPayload::SetProposalExpiry(secs) => Some(secs),
            _ => self.proposal_expiry_secs,
        }
    }

    /// A copy of the signers and the threshold of a role (none and zero for
    /// an unconfigured role).
    fn role_config_or_default(&self, role: Role) -> (r: (Vec<AccountId>, u32))
        requires
            self.roles_wf(),
        ensures
            r.0@ == self.signers_of(role),
            r.1 == self.threshold_of(role),
    {
        match &self.role_configs[role_slot(role)] {
            Some(c) => (copy_accounts(&c.signers), c.threshold),
            None => (Vec::new(), 0),
        }
    }

    /// Applies a self-management action to this contract's configuration:
    /// adds a signer (at most `MAX_SIGNERS_PER_ROLE`, never twice), removes
    /// one (never below the threshold), sets a threshold (between one and
    /// the signer count) or sets the proposal expiry window (positive).
    /// Other actions change nothing here.
    fn execute_self_management(&mut self, action: &ActionPayload) -> (r: Result<
        (),
        AccessControlError,
    >)
        requires
            old(self).roles_wf(),
            old(self).role_config(Role::SuperAdmin) is Some,
        ensures
            final(self).roles_wf(),
            final(self).role_config(Role::SuperAdmin) is Some,
            r == old(self).self_management_check(*action),
            r is Err ==> *final(self) == *old(self),
            r is Ok ==> {
                &&& forall|role: Role| #[trigger] final(self).role_view(role)
                    == old(self).managed_role_view(*action, role)
                &&& final(self).proposal_expiry_secs == old(self).managed_expiry(*action)
                &&& final(self).address == old(self).address
                &&& final(self).initialized == old(self).initialized
                &&& final(self).proposals == old(self).proposals
            },
    {
        match action {
            ActionPayload::AddSigner(role, a) => {
                let (mut signers, threshold) = self.role_config_or_default(*role);
                if contains_account(&signers, *a) {
                    return Err(AccessControlError::DuplicateSigner);
                }
                if signers.len() >= MAX_SIGNERS_PER_ROLE as usize {
                    return Err(AccessControlError::MaxSignersExceeded);
                }
                signers.push(*a);
                let slot = role_slot(*role);
                self.role_configs.set(slot, Some(MultiSigConfig { signers, threshold }));
                proof {
                    self.lemma_role_update(*old(self), *role);
                }
                Ok(())
            },
            ActionPayload::RemoveSigner(role, a) => {
                let slot = role_slot(*role);
                if self.role_configs[slot].is_none() {
                    return Err(AccessControlError::RoleNotConfigured);
                }
                let (mut signers, threshold) = self.role_config_or_default(*role);
                let idx = match position_of(&signers, *a) {
                    Some(i) => i,
                    None => {
                        return Err(AccessControlError::SignerNotFound);
                    },
                };
                proof {
                    let sg = signers@;
                    assert(sg.contains(*a)) by {
                        assert(sg[idx as int] == *a);
                    }
                    let k = sg.index_of(*a);
                    assert(0 <= k < sg.len() && sg[k] == *a);
                    assert(k == idx);
                }
                signers.remove(idx);
                if signers.len() < threshold as usize {
                    return Err(AccessControlError::InvalidThreshold);
                }
                self.role_configs.set(slot, Some(MultiSigConfig { signers, threshold }));
                proof {
                    self.lemma_role_update(*old(self), *role);
                }
                Ok(())
            },
            ActionPayload::SetThreshold(role, threshold) => {
                let (signers, _) = self.role_config_or_default(*role);
                validate_config(&signers, *threshold)?;
                let slot = role_slot(*role);
                self.role_configs.set(slot, Some(MultiSigConfig { signers, threshold: *threshold }));
                proof {
                    self.lemma_role_update(*old(self), *role);
                }
                Ok(())
            },
            ActionPayload::SetProposalExpiry(new_secs) => {
                if *new_secs == 0 {
                    return Err(AccessControlError::InvalidExpiryWindow);
                }
                self.proposal_expiry_secs = Some(*new_secs);
                proof {
                    Self::lemma_same_roles(*old(self), *self);
                    assert forall|role: Role| #[trigger] self.role_view(role) == old(self).role_view(
                        role,
                    ) by {
                        assert(self.role_config(role) == old(self).role_config(role));
                    }
                }
                Ok(())
            },
            _ => {
                proof {
                    assert forall|role: Role| #[trigger] self.role_view(role) == old(self).role_view(
                        role,
                    ) by {
                        assert(self.role_config(role) == old(self).role_config(role));
                    }
                }
                Ok(())
            },
        }
    }

    /// After one role slot was replaced, the other roles are as before.
    proof fn lemma_role_update(&self, old: Self, role: Role)
        requires
            old.roles_wf(),
            self.role_configs@ == old.role_configs@.update(
                role_index(role),
                self.role_config(role),
            ),
            role_config_wf(self.role_config(role)),
            role == Role::SuperAdmin ==> (self.role_config(role) matches Some(m) ==> m.threshold >= 1),
            self.role_config(Role::SuperAdmin) is Some,
        ensures
            self.roles_wf(),
            forall|r: Role| r != role ==> #[trigger] self.role_view(r) == old.role_view(r),
    {
        if role != Role::SuperAdmin {
            assert(role_index(Role::SuperAdmin) != role_index(role));
            assert(self.role_config(Role::SuperAdmin) == old.role_config(Role::SuperAdmin));
        }
        assert forall|r: Role| role_config_wf(#[trigger] self.role_config(r)) by {
            if r != role {
                assert(role_index(r) != role_index(role));
                assert(self.role_config(r) == old.role_config(r));
            }
        }
        assert forall|r: Role| r != role implies #[trigger] self.role_view(r) == old.role_view(r) by {
            assert(role_index(r) != role_index(role));
            assert(self.role_config(r) == old.role_config(r));
        }
    }

    /// The check of `execute_self_management`, without applying it.
    fn check_self_management(&self, action: &ActionPayload) -> (r: Result<(), AccessControlError>)
        requires
            self.roles_wf(),
        ensures
            r == self.self_management_check(*action),
    {
        match action {
            ActionPayload::AddSigner(role, a) => {
                let (signers, _) = self.role_config_or_default(*role);
                if contains_account(&signers, *a) {
                    return Err(AccessControlError::DuplicateSigner);
                }
                if signers.len() >= MAX_SIGNERS_PER_ROLE as usize {
                    return Err(AccessControlError::MaxSignersExceeded);
                }
                Ok(())
            },
            ActionPayload::RemoveSigner(role, a) => {
                if self.role_configs[role_slot(*role)].is_none() {
                    return Err(AccessControlError::RoleNotConfigured);
                }
                let (signers, threshold) = self.role_config_or_default(*role);
                if !contains_account(&signers, *a) {
                    return Err(AccessControlError::SignerNotFound);
                }
                if signers.len() - 1 < threshold as usize {
                    return Err(AccessControlError::InvalidThreshold);
                }
                Ok(())
            },
            ActionPayload::SetThreshold(role, threshold) => {
                let (signers, _) = self.role_config_or_default(*role);
                validate_config(&signers, *threshold)
            },
            ActionPayload::SetProposalExpiry(new_secs) => {
                if *new_secs == 0 {
                    return Err(AccessControlError::InvalidExpiryWindow);
                }
                Ok(())
            },
            _ => Ok(()),
        }
    }

    pub open spec fn execute_check(&self, proposal_id: u64, now: u64) -> Result<
        (),
        AccessControlError,
    > {
        if !self.proposal_exists(proposal_id) {
            Err(AccessControlError::ProposalNotFound)
        } else {
            let p = self.proposal(proposal_id);
            if p.status != ProposalStatus::Approved {
                Err(AccessControlError::ProposalNotApproved)
            } else if now > p.expires_at {
                Err(AccessControlError::ProposalExpired)
            } else if p.target == self.address {
                self.self_management_check(p.action)
            } else {
                Ok(())
            }
        }
    }

    /// Executes an approved proposal that has not expired: a self-management
    /// action changes this contract's configuration and calls nothing; any
    /// other action is delivered to the proposal's target, and the result
    /// is that call, made with this contract's own address as the
    /// authorising origin (the host makes it). Anyone may submit the
    /// execution; only the recorded approvals authorise it.
    pub fn execute_action(&mut self, caller: AccountId, proposal_id: u64, now: u64) -> (r: Result<
        Option<TargetCall>,
        AccessControlError,
    >)
        requires
            old(self).wf(),
        ensures
            final(self).wf(),
            r is Ok <==> old(self).execute_check(proposal_id, now) is Ok,
            r is Err ==> r == Err::<Option<TargetCall>, AccessControlError>(
                old(self).execute_check(proposal_id, now)->Err_0,
            ),
            r is Err ==> *final(self) == *old(self),
            r is Ok ==> {
                let p = old(self).proposal(proposal_id);
                let q = final(self).proposal(proposal_id);
                let self_managed = p.target == old(self).address;
                &&& (r->Ok_0 is None <==> self_managed)
                &&& r->Ok_0 matches Some(call) ==> is_via_ac_call(
                    call,
                    old(self).address,
                    p.target,
                    p.action,
                )
                &&& final(self).address == old(self).address
                &&& final(self).initialized == old(self).initialized
                &&& final(self).proposals@.len() == old(self).proposals@.len()
                &&& forall|j: int|
                    0 <= j < old(self).proposals@.len() && j != proposal_id
                        ==> #[trigger] final(self).proposals@[j] == old(self).proposals@[j]
                &&& same_proposal_terms(q, p)
                &&& q.approvals == p.approvals
                &&& q.status == ProposalStatus::Executed
                &&& self_managed ==> {
                    &&& forall|role: Role| #[trigger] final(self).role_view(role)
                        == old(self).managed_role_view(p.action, role)
                    &&& final(self).proposal_expiry_secs == old(self).managed_expiry(p.action)
                }
                &&& !self_managed ==> {
                    &&& final(self).role_configs == old(self).role_configs
                    &&& final(self).proposal_expiry_secs == old(self).proposal_expiry_secs
                }
            },
    {
        if proposal_id >= self.proposals.len() as u64 {
            return Err(AccessControlError::ProposalNotFound);
        }
        let idx = proposal_id as usize;
        if self.proposals[idx].status != ProposalStatus::Approved {
            return Err(AccessControlError::ProposalNotApproved);
        }
        if now > self.proposals[idx].expires_at {
            return Err(AccessControlError::ProposalExpired);
        }
        let targets_self = self.proposals[idx].target == self.address;
        if targets_self {
            self.check_self_management(&self.proposals[idx].action)?;
        }
        let ghost old_ps = self.proposals@;
        let mut proposal = self.proposals.remove(idx);
        proposal.status = ProposalStatus::Executed;
        proof {
            Self::lemma_same_roles(*old(self), *self);
        }
        let ghost mid = *self;
        if targets_self {
            let _ = self.execute_self_management(&proposal.action);
        }
        let call = if targets_self {
            None
        } else {
            execute_cross_contract(self.address, proposal.target, &proposal.action)
        };
        let ghost after = *self;
        proof {
            assert forall|role: Role| #[trigger] mid.managed_role_view(proposal.action, role)
                == old(self).managed_role_view(proposal.action, role) by {
                assert(mid.role_config(role) == old(self).role_config(role));
                assert(mid.role_view(role) == old(self).role_view(role));
            }
        }
        self.proposals.insert(idx, proposal);
        proof {
            Self::lemma_same_roles(after, *self);
            assert forall|role: Role| #[trigger] self.role_view(role) == after.role_view(role) by {
                assert(self.role_config(role) == after.role_config(role));
            }
            assert(self.proposals@ =~= old_ps.update(idx as int, self.proposals@[idx as int]));
            assert forall|i: int| 0 <= i < self.proposals@.len() implies {
                let p = #[trigger] self.proposals@[i];
                &&& p.approvals@.no_duplicates()
                &&& requires_super_admin_spec(p.action) ==> p.role == Role::SuperAdmin
                &&& is_self_management_spec(p.action) <==> p.target == self.address
            } by {
                if i != idx {
                    assert(self.proposals@[i] == old_ps[i]);
                }
            }
        }
        Ok(call)
    }

    /// One past the last proposal id: proposals exist for
    /// `0..get_next_proposal_id()`.
    pub fn get_next_proposal_id(&self) -> (r: u64)
        requires
            self.proposals@.len() <= u64::MAX,
        ensures
            r == self.proposals@.len(),
    {
        self.proposals.len() as u64
    }
}

/// Execution needs an approved proposal that has not expired.
pub proof fn law_execution_requires_approval(c: AccessControlContract, proposal_id: u64, now: u64)
    requires
        c.wf(),
        c.execute_check(proposal_id, now) is Ok,
    ensures
        c.proposal(proposal_id).status == ProposalStatus::Approved,
        now <= c.proposal(proposal_id).expires_at,
{
}

/// A delivered action authenticates as this contract: the first argument of
/// the call is this contract's own address, whoever submitted the
/// execution, and the remaining arguments are the action's fields.
pub proof fn law_delivery_carries_own_identity(
    call: TargetCall,
    access_control: AccountId,
    target: AccountId,
    action: ActionPayload,
)
    requires
        is_via_ac_call(call, access_control, target, action),
    ensures
        call.args@.len() == 1 + via_ac_action_fields(action).len(),
        call.args@[0] == CallArg::Account(access_control),
        call.target == target,
{
    assert(same_arg(call.args@[0], via_ac_call_args(access_control, action)[0]));
}

/// The call that delivers a cross-contract action goes to the action's own
/// `*_via_ac` entry point and carries, after this contract's address as
/// the origin, the action's fields in declaration
/// order, each as the argument of its type; for example
/// `SetCategoryQuorum(category, quorum_bps)` is delivered as
/// `(origin, category, quorum_bps)`.
#[verifier::spinoff_prover]
#[verifier::rlimit(50)]
pub proof fn law_delivered_arguments_follow_the_action(
    call: TargetCall,
    access_control: AccountId,
    target: AccountId,
    action: ActionPayload,
)
    requires
        is_via_ac_call(call, access_control, target, action),
    ensures
        action matches ActionPayload::SetPaused(a0) ==> {
            &&& call.entry_point@ == "set_paused_via_ac"@
            &&& call.args@.len() == 2
            &&& call.args@[0] == CallArg::Account(access_control)
            &&& call.args@[1] == CallArg::Bool(a0)
        },
        action matches ActionPayload::SetYield(a0) ==> {
            &&& call.entry_point@ == "set_yield_via_ac"@
            &&& call.args@.len() == 2
            &&& call.args@[0] == CallArg::Account(access_control)
            &&& call.args@[1] == CallArg::U32(a0)
        },
        action matches ActionPayload::SetTreasury(a0) ==> {
            &&& call.entry_point@ == "set_treasury_via_ac"@
            &&& call.args@.len() == 2
            &&& call.args@[0] == CallArg::Account(access_control)
            &&& call.args@[1] == CallArg::Account(a0)
        },
        action matches ActionPayload::WithdrawRevenue(a0, a1) ==> {
            &&& call.entry_point@ == "withdraw_revenue_via_ac"@
            &&& call.args@.len() == 3
            &&& call.args@[0] == CallArg::Account(access_control)
            &&& call.args@[1] == CallArg::Account(a0)
            &&& call.args@[2] == CallArg::I128(a1)
        },
        action matches ActionPayload::SetOracleContract(a0) ==> {
            &&& call.entry_point@ == "set_oracle_contract_via_ac"@
            &&& call.args@.len() == 2
            &&& call.args@[0] == CallArg::Account(access_control)
            &&& call.args@[1] == CallArg::Account(a0)
        },
        action matches ActionPayload::SetKycRequired(a0) ==> {
            &&& call.entry_point@ == "set_kyc_required_via_ac"@
            &&& call.args@.len() == 2
            &&& call.args@[0] == CallArg::Account(access_control)
            &&& call.args@[1] == CallArg::Bool(a0)
        },
        action matches ActionPayload::SetInvestorKyc(a0, a1) ==> {
            &&& call.entry_point@ == "set_investor_kyc_via_ac"@
            &&& call.args@.len() == 3
            &&& call.args@[0] == CallArg::Account(access_control)
            &&& call.args@[1] == CallArg::Account(a0)
            &&& call.args@[2] == CallArg::Bool(a1)
        },
        action matches ActionPayload::SetMaxUtilization(a0) ==> {
            &&& call.entry_point@ == "set_max_utilization_via_ac"@
            &&& call.args@.len() == 2
            &&& call.args@[0] == CallArg::Account(access_control)
            &&& call.args@[1] == CallArg::U32(a0)
        },
        action matches ActionPayload::SetOracle(a0) ==> {
            &&& call.entry_point@ == "set_oracle_via_ac"@
            &&& call.args@.len() == 2
            &&& call.args@[0] == CallArg::Account(access_control)
            &&& call.args@[1] == CallArg::Account(a0)
        },
        action matches ActionPayload::RegisterDebtor(a0, a1, a2) ==> {
            &&& call.entry_point@ == "register_debtor_via_ac"@
            &&& call.args@.len() == 4
            &&& call.args@[0] == CallArg::Account(access_control)
            &&& (call.args@[1] matches CallArg::Text(x) && x@ == a0@)
            &&& (call.args@[2] matches CallArg::Text(x) && x@ == a1@)
            &&& call.args@[3] == CallArg::I128(a2)
        },
        action matches ActionPayload::DeactivateDebtor(a0) ==> {
            &&& call.entry_point@ == "deactivate_debtor_via_ac"@
            &&& call.args@.len() == 2
            &&& call.args@[0] == CallArg::Account(access_control)
            &&& (call.args@[1] matches CallArg::Text(x) && x@ == a0@)
        },
        action matches ActionPayload::AddKeeper(a0) ==> {
            &&& call.entry_point@ == "add_keeper_via_ac"@
            &&& call.args@.len() == 2
            &&& call.args@[0] == CallArg::Account(access_control)
            &&& call.args@[1] == CallArg::Account(a0)
        },
        action matches ActionPayload::SetLateThreshold(a0) ==> {
            &&& call.entry_point@ == "set_late_threshold_via_ac"@
            &&& call.args@.len() == 2
            &&& call.args@[0] == CallArg::Account(access_control)
            &&& call.args@[1] == CallArg::I64(a0)
        },
        action matches ActionPayload::SetScoreThresholds(a0, a1, a2, a3) ==> {
            &&& call.entry_point@ == "set_score_thresholds_via_ac"@
            &&& call.args@.len() == 5
            &&& call.args@[0] == CallArg::Account(access_control)
            &&& call.args@[1] == CallArg::U32(a0)
            &&& call.args@[2] == CallArg::U32(a1)
            &&& call.args@[3] == CallArg::U32(a2)
            &&& call.args@[4] == CallArg::U32(a3)
        },
        action matches ActionPayload::RegisterAttestor(a0, a1, a2) ==> {
            &&& call.entry_point@ == "register_attestor_via_ac"@
            &&& call.args@.len() == 4
            &&& call.args@[0] == CallArg::Account(access_control)
            &&& call.args@[1] == CallArg::Account(a0)
            &&& call.args@[2] == CallArg::U32(a1)
            &&& call.args@[3] == CallArg::U32(a2)
        },
        action matches ActionPayload::SetOracleRegistryInvoiceContract(a0) ==> {
            &&& call.entry_point@ == "set_invoice_contract_via_ac"@
            &&& call.args@.len() == 2
            &&& call.args@[0] == CallArg::Account(access_control)
            &&& call.args@[1] == CallArg::Account(a0)
        },
        action matches ActionPayload::SetOracleRegistryTreasury(a0) ==> {
            &&& call.entry_point@ == "set_treasury_via_ac"@
            &&& call.args@.len() == 2
            &&& call.args@[0] == CallArg::Account(access_control)
            &&& call.args@[1] == CallArg::OptionalAccount(a0)
        },
        action matches ActionPayload::SetOracleRegistryConfig(a0, a1, a2, a3, a4) ==> {
            &&& call.entry_point@ == "set_registry_config_via_ac"@
            &&& call.args@.len() == 6
            &&& call.args@[0] == CallArg::Account(access_control)
            &&& call.args@[1] == CallArg::I128(a0)
            &&& call.args@[2] == CallArg::U32(a1)
            &&& call.args@[3] == CallArg::U32(a2)
            &&& call.args@[4] == CallArg::U64(a3)
            &&& call.args@[5] == CallArg::U64(a4)
        },
        action matches ActionPayload::SetOracleRegistryPaused(a0) ==> {
            &&& call.entry_point@ == "set_paused_via_ac"@
            &&& call.args@.len() == 2
            &&& call.args@[0] == CallArg::Account(access_control)
            &&& call.args@[1] == CallArg::Bool(a0)
        },
        action matches ActionPayload::SlashOracle(a0, a1, a2, a3) ==> {
            &&& call.entry_point@ == "slash_oracle_via_ac"@
            &&& call.args@.len() == 5
            &&& call.args@[0] == CallArg::Account(access_control)
            &&& call.args@[1] == CallArg::Account(a0)
            &&& call.args@[2] == CallArg::U32(a1)
            &&& call.args@[3] == CallArg::U64(a2)
            &&& (call.args@[4] matches CallArg::Text(x) && x@ == a3@)
        },
        action matches ActionPayload::AdminResolveRound(a0, a1, a2) ==> {
            &&& call.entry_point@ == "admin_resolve_round_via_ac"@
            &&& call.args@.len() == 4
            &&& call.args@[0] == CallArg::Account(access_control)
            &&& call.args@[1] == CallArg::U64(a0)
            &&& call.args@[2] == CallArg::Bool(a1)
            &&& (call.args@[3] matches CallArg::Text(x) && x@ == a2@)
        },
        action matches ActionPayload::SetCompliancePaused(a0) ==> {
            &&& call.entry_point@ == "set_paused_via_ac"@
            &&& call.args@.len() == 2
            &&& call.args@[0] == CallArg::Account(access_control)
            &&& call.args@[1] == CallArg::Bool(a0)
        },
        action matches ActionPayload::RegisterScreener(a0) ==> {
            &&& call.entry_point@ == "register_screener_via_ac"@
            &&& call.args@.len() == 2
            &&& call.args@[0] == CallArg::Account(access_control)
            &&& call.args@[1] == CallArg::Account(a0)
        },
        action matches ActionPayload::ConfirmScreenerRegistration(a0) ==> {
            &&& call.entry_point@ == "confirm_screener_via_ac"@
            &&& call.args@.len() == 2
            &&& call.args@[0] == CallArg::Account(access_control)
            &&& call.args@[1] == CallArg::Account(a0)
        },
        action matches ActionPayload::DeregisterScreener(a0) ==> {
            &&& call.entry_point@ == "deregister_screener_via_ac"@
            &&& call.args@.len() == 2
            &&& call.args@[0] == CallArg::Account(access_control)
            &&& call.args@[1] == CallArg::Account(a0)
        },
        action matches ActionPayload::SetRescreeningInterval(a0) ==> {
            &&& call.entry_point@ == "set_rescreening_interval_via_ac"@
            &&& call.args@.len() == 2
            &&& call.args@[0] == CallArg::Account(access_control)
            &&& call.args@[1] == CallArg::U64(a0)
        },
        action matches ActionPayload::SetScreenerTimelock(a0) ==> {
            &&& call.entry_point@ == "set_screener_timelock_via_ac"@
            &&& call.args@.len() == 2
            &&& call.args@[0] == CallArg::Account(access_control)
            &&& call.args@[1] == CallArg::U64(a0)
        },
        action matches ActionPayload::UpdateGovernanceConfig(a0, a1) ==> {
            &&& call.entry_point@ == "update_config_via_ac"@
            &&& call.args@.len() == 3
            &&& call.args@[0] == CallArg::Account(access_control)
            &&& call.args@[1] == CallArg::U32(a0)
            &&& call.args@[2] == CallArg::U32(a1)
        },
        action matches ActionPayload::SetCategoryQuorum(a0, a1) ==> {
            &&& call.entry_point@ == "set_category_quorum_via_ac"@
            &&& call.args@.len() == 3
            &&& call.args@[0] == CallArg::Account(access_control)
            &&& call.args@[1] == CallArg::U32(a0)
            &&& call.args@[2] == CallArg::U32(a1)
        },
        action matches ActionPayload::SetReferralPaused(a0) ==> {
            &&& call.entry_point@ == "set_paused_via_ac"@
            &&& call.args@.len() == 2
            &&& call.args@[0] == CallArg::Account(access_control)
            &&& call.args@[1] == CallArg::Bool(a0)
        },
        action matches ActionPayload::SetReferralPool(a0) ==> {
            &&& call.entry_point@ == "set_pool_via_ac"@
            &&& call.args@.len() == 2
            &&& call.args@[0] == CallArg::Account(access_control)
            &&& call.args@[1] == CallArg::Account(a0)
        },
        action matches ActionPayload::SetBorrowRewardBps(a0) ==> {
            &&& call.entry_point@ == "set_borrow_reward_bps_via_ac"@
            &&& call.args@.len() == 2
            &&& call.args@[0] == CallArg::Account(access_control)
            &&& call.args@[1] == CallArg::U32(a0)
        },
        action matches ActionPayload::SetDepositRewardBps(a0) ==> {
            &&& call.entry_point@ == "set_deposit_reward_bps_via_ac"@
            &&& call.args@.len() == 2
            &&& call.args@[0] == CallArg::Account(access_control)
            &&& call.args@[1] == CallArg::U32(a0)
        },
        action matches ActionPayload::SetInvoiceAccessControl(a0) ==> {
            &&& call.entry_point@ == "set_access_control_via_ac"@
            &&& call.args@.len() == 2
            &&& call.args@[0] == CallArg::Account(access_control)
            &&& call.args@[1] == CallArg::Account(a0)
        },
        action matches ActionPayload::SetCreditScoreAccessControl(a0) ==> {
            &&& call.entry_point@ == "set_access_control_via_ac"@
            &&& call.args@.len() == 2
            &&& call.args@[0] == CallArg::Account(access_control)
            &&& call.args@[1] == CallArg::Account(a0)
        },
        action matches ActionPayload::SetOracleRegistryAccessControl(a0) ==> {
            &&& call.entry_point@ == "set_access_control_via_ac"@
            &&& call.args@.len() == 2
            &&& call.args@[0] == CallArg::Account(access_control)
            &&& call.args@[1] == CallArg::Account(a0)
        },
        action matches ActionPayload::SetComplianceAccessControl(a0) ==> {
            &&& call.entry_point@ == "set_access_control_via_ac"@
            &&& call.args@.len() == 2
            &&& call.args@[0] == CallArg::Account(access_control)
            &&& call.args@[1] == CallArg::Account(a0)
        },
        action matches ActionPayload::SetGovernanceAccessControl(a0) ==> {
            &&& call.entry_point@ == "set_access_control_via_ac"@
            &&& call.args@.len() == 2
            &&& call.args@[0] == CallArg::Account(access_control)
            &&& call.args@[1] == CallArg::Account(a0)
        },
        action matches ActionPayload::SetReferralAccessControl(a0) ==> {
            &&& call.entry_point@ == "set_access_control_via_ac"@
            &&& call.args@.len() == 2
            &&& call.args@[0] == CallArg::Account(access_control)
            &&& call.args@[1] == CallArg::Account(a0)
        },

{
    assert(same_args(call.args@, via_ac_call_args(access_control, action)));
}

/// Every self-management action that execution accepts leaves each role's
/// signer set coherent: distinct signers, a threshold of at most their
/// number, and a super admin threshold of at least one. So no sequence of
/// executions can leave a role below its own threshold or the super admin
/// without a signer requirement.
pub proof fn law_self_management_keeps_roles_coherent(
    c: AccessControlContract,
    action: ActionPayload,
    role: Role,
)
    requires
        c.roles_wf(),
        c.role_config(Role::SuperAdmin) is Some,
        c.self_management_check(action) is Ok,
    ensures
        c.managed_role_view(action, role) matches Some(v) ==> v.0.no_duplicates() && v.1 <= v.0.len(),
        c.managed_role_view(action, Role::SuperAdmin) matches Some(v) && v.1 >= 1,
{
    assert(role_config_wf(c.role_config(role)));
    assert(role_config_wf(c.role_config(Role::SuperAdmin)));
    match action {
        ActionPayload::AddSigner(r, a) => {
            let s = c.signers_of(r);
            assert(role_config_wf(c.role_config(r)));
            assert(s.push(a).no_duplicates()) by {
                assert forall|i: int, j: int| 0 <= i < j < s.push(a).len() implies s.push(a)[i]
                    != s.push(a)[j] by {
                    if j == s.len() {
                        assert(s.push(a)[i] == s[i]);
                        assert(!s.contains(a));
                    }
                }
            }
        },
        ActionPayload::RemoveSigner(r, a) => {
            let s = c.signers_of(r);
            assert(role_config_wf(c.role_config(r)));
            let k = s.index_of(a);
            assert(0 <= k < s.len() && s[k] == a);
            assert(s.remove(k).no_duplicates()) by {
                assert forall|i: int, j: int| 0 <= i < j < s.remove(k).len() implies s.remove(k)[i]
                    != s.remove(k)[j] by {
                    let ii = if i < k { i } else { i + 1 };
                    let jj = if j < k { j } else { j + 1 };
                    assert(s.remove(k)[i] == s[ii] && s.remove(k)[j] == s[jj]);
                }
            }
        },
        ActionPayload::SetThreshold(r, t) => {},
        _ => {},
    }
}

/// Every stored proposal is coherent: self-management targets this
/// contract and everything else another one, and whatever only the super
/// admin may do was proposed under the super admin role. Every configured
/// role has distinct signers and a threshold of at most their number; the
/// super admin role is configured, with a threshold of at least one, so no
/// sequence of calls leaves it without a signer requirement.
pub proof fn law_stored_state_coherent(c: AccessControlContract, proposal_id: u64, role: Role)
    requires
        c.wf(),
        c.proposal_exists(proposal_id),
    ensures
        is_self_management_spec(c.proposal(proposal_id).action) <==> c.proposal(proposal_id).target
            == c.address,
        requires_super_admin_spec(c.proposal(proposal_id).action) ==> c.proposal(proposal_id).role
            == Role::SuperAdmin,
        c.proposal(proposal_id).approvals@.no_duplicates(),
        c.signers_of(role).no_duplicates(),
        c.threshold_of(role) <= c.signers_of(role).len(),
        c.role_config(role) is Some ==> c.role_config(Role::SuperAdmin) is Some,
        c.role_config(Role::SuperAdmin) is Some,
        c.threshold_of(Role::SuperAdmin) >= 1,
{
    let p = c.proposals@[proposal_id as int];
    assert(role_config_wf(c.role_config(role)));
}

/// A signer's approval counts once: approving again is refused.
pub proof fn law_one_approval_per_signer(
    c: AccessControlContract,
    signer: AccountId,
    proposal_id: u64,
    now: u64,
)
    requires
        c.wf(),
        c.proposal_exists(proposal_id),
        c.proposal(proposal_id).approvals@.contains(signer),
    ensures
        c.approve_check(signer, proposal_id, now) is Err,
{
}

/// An executed or rejected proposal stays so: it can no longer be
/// approved, revoked, rejected or executed.
pub proof fn law_finished_proposals_stay_finished(
    c: AccessControlContract,
    signer: AccountId,
    proposal_id: u64,
    now: u64,
)
    requires
        c.wf(),
        c.proposal_exists(proposal_id),
        c.proposal(proposal_id).status == ProposalStatus::Executed || c.proposal(proposal_id).status
            == ProposalStatus::Rejected,
    ensures
        c.approve_check(signer, proposal_id, now) is Err,
        c.revoke_check(signer, proposal_id) is Err,
        c.reject_check(signer, proposal_id) is Err,
        c.execute_check(proposal_id, now) is Err,
{
}

/// Revoking an approval undoes approving: the approvals are as before.
pub proof fn law_revoke_undoes_approve(approvals: Seq<AccountId>, signer: AccountId)
    requires
        approvals.no_duplicates(),
        !approvals.contains(signer),
    ensures
        approvals.push(signer).remove(approvals.push(signer).index_of(signer)) == approvals,
{
    let a = approvals.push(signer);
    assert(a.contains(signer)) by {
        assert(a[approvals.len() as int] == signer);
    }
    let k = a.index_of(signer);
    assert(0 <= k < a.len() && a[k] == signer);
    if k < approvals.len() {
        assert(approvals[k] == signer);
        assert(approvals.contains(signer));
    }
    assert(a.remove(k) =~= approvals);
}

} // verus!
