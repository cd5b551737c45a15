//! Token-weighted governance: share holders open proposals carrying a
//! parameter change for another protocol contract, vote with their balance
//! at the proposal's creation, and a proposal that met its quorum and pass
//! threshold is executed after a timelock and before it expires.
use vstd::prelude::*;
use crate::arith::{saturating_add_u64, saturating_add_u64_spec};
use crate::assoc::AccountId;
use crate::calls::{
    call_from, copy_loyalty_tiers, copy_quorum_tiers, lemma_same_args_prepend, same_arg, same_args,
    CallArg, TargetCall,
};

verus! {

pub const MAX_BPS: u32 = 10_000;
/// Shortest voting period that `initialize` accepts (one day).
pub const MIN_VOTING_PERIOD_SECS: u64 = 86_400;
/// Voting period used when `initialize` is given zero (seven days).
pub const DEFAULT_VOTING_PERIOD_SECS: u64 = 604_800;
/// Execution delay used when `initialize` is given zero (48 hours).
pub const DEFAULT_EXECUTION_DELAY_SECS: u64 = 172_800;
/// Default quorum of treasury proposals (20%).
pub const DEFAULT_TREASURY_QUORUM_BPS: u32 = 2_000;
/// Default quorum of critical proposals (50%).
pub const DEFAULT_CRITICAL_QUORUM_BPS: u32 = 5_000;
/// A passed proposal not executed within this window after passing expires
/// (seven days).
pub const EXECUTION_EXPIRY_SECS: u64 = 604_800;

#[derive(Clone, Copy, Debug, PartialEq, Eq, Structural)]
pub enum ProposalStatus {
    Active,
    Passed,
    Rejected,
    Executed,
    Cancelled,
    Expired,
}

/// Proposal severity: the category selects the quorum a proposal needs.
#[derive(Clone, Copy, Debug, PartialEq, Eq, Structural)]
pub enum ProposalCategory {
    /// Fee and parameter adjustments: the lowest quorum.
    ParameterChange,
    /// Treasury moves and fund allocation.
    Treasury,
    /// Admin changes, upgrades and other high-impact actions: the highest
    /// quorum.
    Critical,
}

#[derive(Clone, Copy, Debug, PartialEq, Eq, Structural)]
pub struct LoyaltyTier {
    pub days_threshold: u32,
    pub bonus_bps: u32,
}

#[derive(Clone, Copy, Debug, PartialEq, Eq, Structural)]
pub struct FeeTier {
    pub min_amount: i128,
    pub max_amount: i128,
    pub min_credit_score: u32,
    pub fee_bps: u32,
}

#[derive(Clone, Copy, Debug, PartialEq, Eq, Structural)]
pub struct CollateralConfig {
    pub threshold: i128,
    pub collateral_bps: u32,
}

#[derive(Clone, Copy, Debug, PartialEq, Eq, Structural)]
pub struct QuorumTier {
    pub min_invoice_amount: i128,
    pub quorum_bps: u32,
}

/// Governance-gated setters of the pool contract.
#[derive(Clone, Debug)]
pub enum PoolAction {
    SetPoolYield(u32),
    SetPoolYieldChangePolicy(u64),
    SetPoolFactoringFee(u32),
    SetPoolFeeTier(u32, u32),
    SetPoolTreasury(AccountId),
    SetPoolMaxUtilization(u32),
    SetPoolMinDeposit(i128),
    SetPoolMaxInvestorConcentration(u32),
    SetPoolLoyaltyTiers(Vec<LoyaltyTier>),
    SetPoolWithdrawalLimits(u32),
    SetPoolMaxWithdrawalQueueAge(u32),
    SetPoolMaxWithdrawalQueueDepth(u32),
    SetPoolOracleContract(AccountId),
    SetPoolOracleStaleThreshold(u64),
    SetPoolFallbackPrice(AccountId, i128),
    SetPoolRateBounds(AccountId, u32, u32),
    SetPoolExchangeRate(AccountId, i128),
    SetPoolComplianceRegistry(AccountId),
    SetPoolRequireComplianceCheck(bool),
    SetPoolReferralRegistry(AccountId),
    SetPoolKycRequired(bool),
    SetPoolCreditScoreContract(AccountId),
    SetPoolInsuranceContract(AccountId),
    SetPoolCompoundInterest(bool),
    SetPoolSecondaryMarketContract(AccountId),
    SetPoolRiskContract(AccountId),
    SetPoolCollateralConfig(i128),
    SetPoolUpgradeTimelock(u64),
    SetPoolOperationDelay(u64),
}

/// Governance-gated setters of the invoice contract.
#[derive(Clone, Debug)]
pub enum InvoiceAction {
    SetInvoiceGracePeriod(u32),
    SetInvoiceMinDueDateWindow(u64),
    SetInvoiceMaxAmount(i128),
    SetInvoiceMaxSmeOutstanding(i128),
    SetInvoiceExpirationDuration(u64),
    SetInvoiceCompletedTtl(u32),
    SetInvoiceDailyLimit(u32),
    SetInvoiceDisputeWindow(u64),
    SetInvoiceOracle(AccountId),
    SetInvoiceSecondaryOracle(Option<AccountId>),
    SetInvoiceOracleRegistry(AccountId),
    SetInvoiceConsensusRequired(bool),
    SetInvoiceComplianceRegistry(AccountId),
    SetInvoiceRequireComplianceCheck(bool),
    SetInvoiceRequireRegisteredDebtor(bool),
    SetInvoiceOracleVerifiedFundingOnly(bool),
    SetInvoiceArbitrationContract(AccountId),
    SetInvoiceDisputeValueThreshold(i128),
    SetInvoiceMetadataImageUri(String),
}

/// Governance-gated setters of the oracle registry contract.
#[derive(Clone, Debug)]
pub enum OracleRegistryAction {
    SetOracleRegistryInvoiceContract(AccountId),
    SetOracleRegistryTreasury(Option<AccountId>),
    SetOracleRegistryConfig(i128, u32, u32, u64, u64),
    SetOracleRegistryQuorumTiers(Vec<QuorumTier>),
}

/// Governance-gated setters of the compliance contract.
#[derive(Clone, Debug)]
pub enum ComplianceAction {
    SetComplianceRescreeningInterval(u64),
    SetComplianceScreenerTimelock(u64),
}

/// The parameter change a proposal carries, by target contract kind.
#[derive(Clone, Debug)]
pub enum GovernanceAction {
    Pool(PoolAction),
    Invoice(InvoiceAction),
    OracleRegistry(OracleRegistryAction),
    Compliance(ComplianceAction),
}

/// The `*_via_governance` setter of the target contract that executing
/// `action` calls, with this contract's address as the authorising
/// governance followed by the action's fields in declaration order.
pub open spec fn governance_setter_name(action: GovernanceAction) -> Seq<char> {
    match action {
        GovernanceAction::Pool(p) => match p {
            PoolAction::SetPoolYield(..) => "set_yield_via_governance"@,
            PoolAction::SetPoolYieldChangePolicy(..) => "set_yield_change_policy_via_governance"@,
            PoolAction::SetPoolFactoringFee(..) => "set_factoring_fee_via_governance"@,
            PoolAction::SetPoolFeeTier(..) => "set_fee_tier_via_governance"@,
            PoolAction::SetPoolTreasury(..) => "set_treasury_via_governance"@,
            PoolAction::SetPoolMaxUtilization(..) => "set_max_utilization_via_governance"@,
            PoolAction::SetPoolMinDeposit(..) => "set_min_deposit_via_governance"@,
            PoolAction::SetPoolMaxInvestorConcentration(..) => "set_max_investor_concentration_via_governance"@,
            PoolAction::SetPoolLoyaltyTiers(..) => "set_loyalty_tiers_via_governance"@,
            PoolAction::SetPoolWithdrawalLimits(..) => "set_withdrawal_limits_via_governance"@,
            PoolAction::SetPoolMaxWithdrawalQueueAge(..) => "set_max_withdrawal_queue_age_via_governance"@,
            PoolAction::SetPoolMaxWithdrawalQueueDepth(..) => "set_max_withdrawal_queue_depth_via_governance"@,
            PoolAction::SetPoolOracleContract(..) => "set_oracle_contract_via_governance"@,
            PoolAction::SetPoolOracleStaleThreshold(..) => "set_oracle_stale_threshold_via_governance"@,
            PoolAction::SetPoolFallbackPrice(..) => "set_fallback_price_via_governance"@,
            PoolAction::SetPoolRateBounds(..) => "set_rate_bounds_via_governance"@,
            PoolAction::SetPoolExchangeRate(..) => "set_exchange_rate_via_governance"@,
            PoolAction::SetPoolComplianceRegistry(..) => "set_compliance_registry_via_governance"@,
            PoolAction::SetPoolRequireComplianceCheck(..) => "set_require_compliance_check_via_governance"@,
            PoolAction::SetPoolReferralRegistry(..) => "set_referral_registry_via_governance"@,
            PoolAction::SetPoolKycRequired(..) => "set_kyc_required_via_governance"@,
            PoolAction::SetPoolCreditScoreContract(..) => "set_credit_score_contract_via_governance"@,
            PoolAction::SetPoolInsuranceContract(..) => "set_insurance_contract_via_governance"@,
            PoolAction::SetPoolCompoundInterest(..) => "set_compound_interest_via_governance"@,
            PoolAction::SetPoolSecondaryMarketContract(..) => "set_secondary_market_contract_via_governance"@,
            PoolAction::SetPoolRiskContract(..) => "set_risk_contract_via_governance"@,
            PoolAction::SetPoolCollateralConfig(..) => "set_collateral_config_via_governance"@,
            PoolAction::SetPoolUpgradeTimelock(..) => "set_upgrade_timelock_via_governance"@,
            PoolAction::SetPoolOperationDelay(..) => "set_operation_delay_via_governance"@,
        },
        GovernanceAction::Invoice(i) => match i {
            InvoiceAction::SetInvoiceGracePeriod(..) => "set_grace_period_via_governance"@,
            InvoiceAction::SetInvoiceMinDueDateWindow(..) => "set_min_due_date_window_via_governance"@,
            InvoiceAction::SetInvoiceMaxAmount(..) => "set_max_invoice_amount_via_governance"@,
            InvoiceAction::SetInvoiceMaxSmeOutstanding(..) => "set_max_sme_outstanding_via_governance"@,
            InvoiceAction::SetInvoiceExpirationDuration(..) => "set_expiration_duration_via_governance"@,
            InvoiceAction::SetInvoiceCompletedTtl(..) => "set_completed_invoice_ttl_via_governance"@,
            InvoiceAction::SetInvoiceDailyLimit(..) => "set_daily_invoice_limit_via_governance"@,
            InvoiceAction::SetInvoiceDisputeWindow(..) => "set_dispute_window_via_governance"@,
            InvoiceAction::SetInvoiceOracle(..) => "set_oracle_via_governance"@,
            InvoiceAction::SetInvoiceSecondaryOracle(..) => "set_secondary_oracle_via_governance"@,
            InvoiceAction::SetInvoiceOracleRegistry(..) => "set_oracle_registry_via_governance"@,
            InvoiceAction::SetInvoiceConsensusRequired(..) => "set_consensus_required_via_governance"@,
            InvoiceAction::SetInvoiceComplianceRegistry(..) => "set_compliance_registry_via_governance"@,
            InvoiceAction::SetInvoiceRequireComplianceCheck(..) => "set_require_compliance_check_via_governance"@,
            InvoiceAction::SetInvoiceRequireRegisteredDebtor(..) => "set_require_registered_debtor_via_governance"@,
            InvoiceAction::SetInvoiceOracleVerifiedFundingOnly(..) => "set_oracle_verified_funding_only_via_governance"@,
            InvoiceAction::SetInvoiceArbitrationContract(..) => "set_arbitration_contract_via_governance"@,
            InvoiceAction::SetInvoiceDisputeValueThreshold(..) => "set_dispute_value_threshold_via_governance"@,
            InvoiceAction::SetInvoiceMetadataImageUri(..) => "set_metadata_image_uri_via_governance"@,
        },
        GovernanceAction::OracleRegistry(o) => match o {
            OracleRegistryAction::SetOracleRegistryInvoiceContract(..) => "set_invoice_contract_via_governance"@,
            OracleRegistryAction::SetOracleRegistryTreasury(..) => "set_treasury_via_governance"@,
            OracleRegistryAction::SetOracleRegistryConfig(..) => "set_registry_config_via_governance"@,
            OracleRegistryAction::SetOracleRegistryQuorumTiers(..) => "set_quorum_tiers_via_governance"@,
        },
        GovernanceAction::Compliance(c) => match c {
            ComplianceAction::SetComplianceRescreeningInterval(..) => "set_rescreening_interval_via_governance"@,
            ComplianceAction::SetComplianceScreenerTimelock(..) => "set_screener_timelock_via_governance"@,
        },
    }
}

fn governance_setter(action: &GovernanceAction) -> (r: &'static str)
    ensures
        r@ == governance_setter_name(*action),
{
    match action {
        GovernanceAction::Pool(p) => match p {
            PoolAction::SetPoolYield(..) => "set_yield_via_governance",
            PoolAction::SetPoolYieldChangePolicy(..) => "set_yield_change_policy_via_governance",
            PoolAction::SetPoolFactoringFee(..) => "set_factoring_fee_via_governance",
            PoolAction::SetPoolFeeTier(..) => "set_fee_tier_via_governance",
            PoolAction::SetPoolTreasury(..) => "set_treasury_via_governance",
            PoolAction::SetPoolMaxUtilization(..) => "set_max_utilization_via_governance",
            PoolAction::SetPoolMinDeposit(..) => "set_min_deposit_via_governance",
            PoolAction::SetPoolMaxInvestorConcentration(..) => "set_max_investor_concentration_via_governance",
            PoolAction::SetPoolLoyaltyTiers(..) => "set_loyalty_tiers_via_governance",
            PoolAction::SetPoolWithdrawalLimits(..) => "set_withdrawal_limits_via_governance",
            PoolAction::SetPoolMaxWithdrawalQueueAge(..) => "set_max_withdrawal_queue_age_via_governance",
            PoolAction::SetPoolMaxWithdrawalQueueDepth(..) => "set_max_withdrawal_queue_depth_via_governance",
            PoolAction::SetPoolOracleContract(..) => "set_oracle_contract_via_governance",
            PoolAction::SetPoolOracleStaleThreshold(..) => "set_oracle_stale_threshold_via_governance",
            PoolAction::SetPoolFallbackPrice(..) => "set_fallback_price_via_governance",
            PoolAction::SetPoolRateBounds(..) => "set_rate_bounds_via_governance",
            PoolAction::SetPoolExchangeRate(..) => "set_exchange_rate_via_governance",
            PoolAction::SetPoolComplianceRegistry(..) => "set_compliance_registry_via_governance",
            PoolAction::SetPoolRequireComplianceCheck(..) => "set_require_compliance_check_via_governance",
            PoolAction::SetPoolReferralRegistry(..) => "set_referral_registry_via_governance",
            PoolAction::SetPoolKycRequired(..) => "set_kyc_required_via_governance",
            PoolAction::SetPoolCreditScoreContract(..) => "set_credit_score_contract_via_governance",
            PoolAction::SetPoolInsuranceContract(..) => "set_insurance_contract_via_governance",
            PoolAction::SetPoolCompoundInterest(..) => "set_compound_interest_via_governance",
            PoolAction::SetPoolSecondaryMarketContract(..) => "set_secondary_market_contract_via_governance",
            PoolAction::SetPoolRiskContract(..) => "set_risk_contract_via_governance",
            PoolAction::SetPoolCollateralConfig(..) => "set_collateral_config_via_governance",
            PoolAction::SetPoolUpgradeTimelock(..) => "set_upgrade_timelock_via_governance",
            PoolAction::SetPoolOperationDelay(..) => "set_operation_delay_via_governance",
        },
        GovernanceAction::Invoice(i) => match i {
            InvoiceAction::SetInvoiceGracePeriod(..) => "set_grace_period_via_governance",
            InvoiceAction::SetInvoiceMinDueDateWindow(..) => "set_min_due_date_window_via_governance",
            InvoiceAction::SetInvoiceMaxAmount(..) => "set_max_invoice_amount_via_governance",
            InvoiceAction::SetInvoiceMaxSmeOutstanding(..) => "set_max_sme_outstanding_via_governance",
            InvoiceAction::SetInvoiceExpirationDuration(..) => "set_expiration_duration_via_governance",
            InvoiceAction::SetInvoiceCompletedTtl(..) => "set_completed_invoice_ttl_via_governance",
            InvoiceAction::SetInvoiceDailyLimit(..) => "set_daily_invoice_limit_via_governance",
            InvoiceAction::SetInvoiceDisputeWindow(..) => "set_dispute_window_via_governance",
            InvoiceAction::SetInvoiceOracle(..) => "set_oracle_via_governance",
            InvoiceAction::SetInvoiceSecondaryOracle(..) => "set_secondary_oracle_via_governance",
            InvoiceAction::SetInvoiceOracleRegistry(..) => "set_oracle_registry_via_governance",
            InvoiceAction::SetInvoiceConsensusRequired(..) => "set_consensus_required_via_governance",
            InvoiceAction::SetInvoiceComplianceRegistry(..) => "set_compliance_registry_via_governance",
            InvoiceAction::SetInvoiceRequireComplianceCheck(..) => "set_require_compliance_check_via_governance",
            InvoiceAction::SetInvoiceRequireRegisteredDebtor(..) => "set_require_registered_debtor_via_governance",
            InvoiceAction::SetInvoiceOracleVerifiedFundingOnly(..) => "set_oracle_verified_funding_only_via_governance",
            InvoiceAction::SetInvoiceArbitrationContract(..) => "set_arbitration_contract_via_governance",
            InvoiceAction::SetInvoiceDisputeValueThreshold(..) => "set_dispute_value_threshold_via_governance",
            InvoiceAction::SetInvoiceMetadataImageUri(..) => "set_metadata_image_uri_via_governance",
        },
        GovernanceAction::OracleRegistry(o) => match o {
            OracleRegistryAction::SetOracleRegistryInvoiceContract(..) => "set_invoice_contract_via_governance",
            OracleRegistryAction::SetOracleRegistryTreasury(..) => "set_treasury_via_governance",
            OracleRegistryAction::SetOracleRegistryConfig(..) => "set_registry_config_via_governance",
            OracleRegistryAction::SetOracleRegistryQuorumTiers(..) => "set_quorum_tiers_via_governance",
        },
        GovernanceAction::Compliance(c) => match c {
            ComplianceAction::SetComplianceRescreeningInterval(..) => "set_rescreening_interval_via_governance",
            ComplianceAction::SetComplianceScreenerTimelock(..) => "set_screener_timelock_via_governance",
        },
    }
}

/// The action's fields in declaration order, as call arguments.
pub open spec fn governance_action_fields(action: GovernanceAction) -> Seq<CallArg> {
    match action {
        GovernanceAction::Pool(x) => match x {
            PoolAction::SetPoolYield(a0) => seq![CallArg::U32(a0)],
            PoolAction::SetPoolYieldChangePolicy(a0) => seq![CallArg::U64(a0)],
            PoolAction::SetPoolFactoringFee(a0) => seq![CallArg::U32(a0)],
            PoolAction::SetPoolFeeTier(a0, a1) => seq![CallArg::U32(a0), CallArg::U32(a1)],
            PoolAction::SetPoolTreasury(a0) => seq![CallArg::Account(a0)],
            PoolAction::SetPoolMaxUtilization(a0) => seq![CallArg::U32(a0)],
            PoolAction::SetPoolMinDeposit(a0) => seq![CallArg::I128(a0)],
            PoolAction::SetPoolMaxInvestorConcentration(a0) => seq![CallArg::U32(a0)],
            PoolAction::SetPoolLoyaltyTiers(a0) => seq![CallArg::LoyaltyTiers(a0)],
            PoolAction::SetPoolWithdrawalLimits(a0) => seq![CallArg::U32(a0)],
            PoolAction::SetPoolMaxWithdrawalQueueAge(a0) => seq![CallArg::U32(a0)],
            PoolAction::SetPoolMaxWithdrawalQueueDepth(a0) => seq![CallArg::U32(a0)],
            PoolAction::SetPoolOracleContract(a0) => seq![CallArg::Account(a0)],
            PoolAction::SetPoolOracleStaleThreshold(a0) => seq![CallArg::U64(a0)],
            PoolAction::SetPoolFallbackPrice(a0, a1) => seq![CallArg::Account(a0), CallArg::I128(a1)],
            PoolAction::SetPoolRateBounds(a0, a1, a2) => seq![CallArg::Account(a0), CallArg::U32(a1), CallArg::U32(a2)],
            PoolAction::SetPoolExchangeRate(a0, a1) => seq![CallArg::Account(a0), CallArg::I128(a1)],
            PoolAction::SetPoolComplianceRegistry(a0) => seq![CallArg::Account(a0)],
            PoolAction::SetPoolRequireComplianceCheck(a0) => seq![CallArg::Bool(a0)],
            PoolAction::SetPoolReferralRegistry(a0) => seq![CallArg::Account(a0)],
            PoolAction::SetPoolKycRequired(a0) => seq![CallArg::Bool(a0)],
            PoolAction::SetPoolCreditScoreContract(a0) => seq![CallArg::Account(a0)],
            PoolAction::SetPoolInsuranceContract(a0) => seq![CallArg::Account(a0)],
            PoolAction::SetPoolCompoundInterest(a0) => seq![CallArg::Bool(a0)],
            PoolAction::SetPoolSecondaryMarketContract(a0) => seq![CallArg::Account(a0)],
            PoolAction::SetPoolRiskContract(a0) => seq![CallArg::Account(a0)],
            PoolAction::SetPoolCollateralConfig(a0) => seq![CallArg::I128(a0)],
            PoolAction::SetPoolUpgradeTimelock(a0) => seq![CallArg::U64(a0)],
            PoolAction::SetPoolOperationDelay(a0) => seq![CallArg::U64(a0)],
        },
        GovernanceAction::Invoice(x) => match x {
            InvoiceAction::SetInvoiceGracePeriod(a0) => seq![CallArg::U32(a0)],
            InvoiceAction::SetInvoiceMinDueDateWindow(a0) => seq![CallArg::U64(a0)],
            InvoiceAction::SetInvoiceMaxAmount(a0) => seq![CallArg::I128(a0)],
            InvoiceAction::SetInvoiceMaxSmeOutstanding(a0) => seq![CallArg::I128(a0)],
            InvoiceAction::SetInvoiceExpirationDuration(a0) => seq![CallArg::U64(a0)],
            InvoiceAction::SetInvoiceCompletedTtl(a0) => seq![CallArg::U32(a0)],
            InvoiceAction::SetInvoiceDailyLimit(a0) => seq![CallArg::U32(a0)],
            InvoiceAction::SetInvoiceDisputeWindow(a0) => seq![CallArg::U64(a0)],
            InvoiceAction::SetInvoiceOracle(a0) => seq![CallArg::Account(a0)],
            InvoiceAction::SetInvoiceSecondaryOracle(a0) => seq![CallArg::OptionalAccount(a0)],
            InvoiceAction::SetInvoiceOracleRegistry(a0) => seq![CallArg::Account(a0)],
            InvoiceAction::SetInvoiceConsensusRequired(a0) => seq![CallArg::Bool(a0)],
            InvoiceAction::SetInvoiceComplianceRegistry(a0) => seq![CallArg::Account(a0)],
            InvoiceAction::SetInvoiceRequireComplianceCheck(a0) => seq![CallArg::Bool(a0)],
            InvoiceAction::SetInvoiceRequireRegisteredDebtor(a0) => seq![CallArg::Bool(a0)],
            InvoiceAction::SetInvoiceOracleVerifiedFundingOnly(a0) => seq![CallArg::Bool(a0)],
            InvoiceAction::SetInvoiceArbitrationContract(a0) => seq![CallArg::Account(a0)],
            InvoiceAction::SetInvoiceDisputeValueThreshold(a0) => seq![CallArg::I128(a0)],
            InvoiceAction::SetInvoiceMetadataImageUri(a0) => seq![CallArg::Text(a0)],
        },
        GovernanceAction::OracleRegistry(x) => match x {
            OracleRegistryAction::SetOracleRegistryInvoiceContract(a0) => seq![CallArg::Account(a0)],
            OracleRegistryAction::SetOracleRegistryTreasury(a0) => seq![CallArg::OptionalAccount(a0)],
            OracleRegistryAction::SetOracleRegistryConfig(a0, a1, a2, a3, a4) => seq![CallArg::I128(a0), CallArg::U32(a1), CallArg::U32(a2), CallArg::U64(a3), CallArg::U64(a4)],
            OracleRegistryAction::SetOracleRegistryQuorumTiers(a0) => seq![CallArg::QuorumTiers(a0)],
        },
        GovernanceAction::Compliance(x) => match x {
            ComplianceAction::SetComplianceRescreeningInterval(a0) => seq![CallArg::U64(a0)],
            ComplianceAction::SetComplianceScreenerTimelock(a0) => seq![CallArg::U64(a0)],
        },
    }
}

/// The arguments of the setter call that executing `action` makes: the
/// governance contract's own address, then the action's fields in order.
pub open spec fn governance_call_args(governance: AccountId, action: GovernanceAction) -> Seq<CallArg> {
    seq![CallArg::Account(governance)] + governance_action_fields(action)
}

/// `call` is the delivery of `action` to `target` by the governance
/// contract `governance`: the action's setter, with `governance` as the
/// authorising caller followed by the action's fields in order.
pub open spec fn is_governance_call(call: TargetCall, governance: AccountId, target: AccountId, action: GovernanceAction) -> bool {
    &&& call.target == target
    &&& call.entry_point@ == governance_setter_name(action)
    &&& same_args(call.args@, governance_call_args(governance, action))
}

#[verifier::spinoff_prover]
fn governance_fields(action: &GovernanceAction) -> (r: Vec<CallArg>)
    ensures
        same_args(r@, governance_action_fields(*action)),
{
    match action {
        GovernanceAction::Pool(x) => match x {
            PoolAction::SetPoolYield(a0) => vec![CallArg::U32(*a0)],
            PoolAction::SetPoolYieldChangePolicy(a0) => vec![CallArg::U64(*a0)],
            PoolAction::SetPoolFactoringFee(a0) => vec![CallArg::U32(*a0)],
            PoolAction::SetPoolFeeTier(a0, a1) => vec![CallArg::U32(*a0), CallArg::U32(*a1)],
            PoolAction::SetPoolTreasury(a0) => vec![CallArg::Account(*a0)],
            PoolAction::SetPoolMaxUtilization(a0) => vec![CallArg::U32(*a0)],
            PoolAction::SetPoolMinDeposit(a0) => vec![CallArg::I128(*a0)],
            PoolAction::SetPoolMaxInvestorConcentration(a0) => vec![CallArg::U32(*a0)],
            PoolAction::SetPoolLoyaltyTiers(a0) => vec![CallArg::LoyaltyTiers(copy_loyalty_tiers(a0))],
            PoolAction::SetPoolWithdrawalLimits(a0) => vec![CallArg::U32(*a0)],
            PoolAction::SetPoolMaxWithdrawalQueueAge(a0) => vec![CallArg::U32(*a0)],
            PoolAction::SetPoolMaxWithdrawalQueueDepth(a0) => vec![CallArg::U32(*a0)],
            PoolAction::SetPoolOracleContract(a0) => vec![CallArg::Account(*a0)],
            PoolAction::SetPoolOracleStaleThreshold(a0) => vec![CallArg::U64(*a0)],
            PoolAction::SetPoolFallbackPrice(a0, a1) => vec![CallArg::Account(*a0), CallArg::I128(*a1)],
            PoolAction::SetPoolRateBounds(a0, a1, a2) => vec![CallArg::Account(*a0), CallArg::U32(*a1), CallArg::U32(*a2)],
            PoolAction::SetPoolExchangeRate(a0, a1) => vec![CallArg::Account(*a0), CallArg::I128(*a1)],
            PoolAction::SetPoolComplianceRegistry(a0) => vec![CallArg::Account(*a0)],
            PoolAction::SetPoolRequireComplianceCheck(a0) => vec![CallArg::Bool(*a0)],
            PoolAction::SetPoolReferralRegistry(a0) => vec![CallArg::Account(*a0)],
            PoolAction::SetPoolKycRequired(a0) => vec![CallArg::Bool(*a0)],
            PoolAction::SetPoolCreditScoreContract(a0) => vec![CallArg::Account(*a0)],
            PoolAction::SetPoolInsuranceContract(a0) => vec![CallArg::Account(*a0)],
            PoolAction::SetPoolCompoundInterest(a0) => vec![CallArg::Bool(*a0)],
            PoolAction::SetPoolSecondaryMarketContract(a0) => vec![CallArg::Account(*a0)],
            PoolAction::SetPoolRiskContract(a0) => vec![CallArg::Account(*a0)],
            PoolAction::SetPoolCollateralConfig(a0) => vec![CallArg::I128(*a0)],
            PoolAction::SetPoolUpgradeTimelock(a0) => vec![CallArg::U64(*a0)],
            PoolAction::SetPoolOperationDelay(a0) => vec![CallArg::U64(*a0)],
        },
        GovernanceAction::Invoice(x) => match x {
            InvoiceAction::SetInvoiceGracePeriod(a0) => vec![CallArg::U32(*a0)],
            InvoiceAction::SetInvoiceMinDueDateWindow(a0) => vec![CallArg::U64(*a0)],
            InvoiceAction::SetInvoiceMaxAmount(a0) => vec![CallArg::I128(*a0)],
            InvoiceAction::SetInvoiceMaxSmeOutstanding(a0) => vec![CallArg::I128(*a0)],
            InvoiceAction::SetInvoiceExpirationDuration(a0) => vec![CallArg::U64(*a0)],
            InvoiceAction::SetInvoiceCompletedTtl(a0) => vec![CallArg::U32(*a0)],
            InvoiceAction::SetInvoiceDailyLimit(a0) => vec![CallArg::U32(*a0)],
            InvoiceAction::SetInvoiceDisputeWindow(a0) => vec![CallArg::U64(*a0)],
            InvoiceAction::SetInvoiceOracle(a0) => vec![CallArg::Account(*a0)],
            InvoiceAction::SetInvoiceSecondaryOracle(a0) => vec![CallArg::OptionalAccount(*a0)],
            InvoiceAction::SetInvoiceOracleRegistry(a0) => vec![CallArg::Account(*a0)],
            InvoiceAction::SetInvoiceConsensusRequired(a0) => vec![CallArg::Bool(*a0)],
            InvoiceAction::SetInvoiceComplianceRegistry(a0) => vec![CallArg::Account(*a0)],
            InvoiceAction::SetInvoiceRequireComplianceCheck(a0) => vec![CallArg::Bool(*a0)],
            InvoiceAction::SetInvoiceRequireRegisteredDebtor(a0) => vec![CallArg::Bool(*a0)],
            InvoiceAction::SetInvoiceOracleVerifiedFundingOnly(a0) => vec![CallArg::Bool(*a0)],
            InvoiceAction::SetInvoiceArbitrationContract(a0) => vec![CallArg::Account(*a0)],
            InvoiceAction::SetInvoiceDisputeValueThreshold(a0) => vec![CallArg::I128(*a0)],
            InvoiceAction::SetInvoiceMetadataImageUri(a0) => vec![CallArg::Text(a0.clone())],
        },
        GovernanceAction::OracleRegistry(x) => match x {
            OracleRegistryAction::SetOracleRegistryInvoiceContract(a0) => vec![CallArg::Account(*a0)],
            OracleRegistryAction::SetOracleRegistryTreasury(a0) => vec![CallArg::OptionalAccount(*a0)],
            OracleRegistryAction::SetOracleRegistryConfig(a0, a1, a2, a3, a4) => vec![CallArg::I128(*a0), CallArg::U32(*a1), CallArg::U32(*a2), CallArg::U64(*a3), CallArg::U64(*a4)],
            OracleRegistryAction::SetOracleRegistryQuorumTiers(a0) => vec![CallArg::QuorumTiers(copy_quorum_tiers(a0))],
        },
        GovernanceAction::Compliance(x) => match x {
            ComplianceAction::SetComplianceRescreeningInterval(a0) => vec![CallArg::U64(*a0)],
            ComplianceAction::SetComplianceScreenerTimelock(a0) => vec![CallArg::U64(*a0)],
        },
    }
}


/// Delivers `action` to `target_contract`: the call of the action's
/// `*_via_governance` setter with this contract's own address as the
/// authorising governance, followed by the action's fields in order. The
/// host makes the call.
pub fn execute_governance_action(this_contract: AccountId, target_contract: AccountId, action: &GovernanceAction) -> (r: TargetCall)
    ensures
        is_governance_call(r, this_contract, target_contract, *action),
{
    let setter = governance_setter(action);
    let fields = governance_fields(action);
    let ghost fields_view = fields@;
    let call = call_from(target_contract, setter, this_contract, fields);
    proof {
        lemma_same_args_prepend(
            CallArg::Account(this_contract),
            fields_view,
            governance_action_fields(*action),
        );
    }
    call
}

#[derive(Clone, Copy, Debug, PartialEq, Eq, Structural)]
pub enum GovernanceError {
    NotInitialized,
    ProposalNotFound,
    ProposalInactive,
    AlreadyVoted,
    InsufficientShareBalance,
    VotingPeriodActive,
    TimelockActive,
    QuorumNotMet,
    InvalidProposalState,
    Unauthorized,
    ProposalExpired,
    InvalidConfig,
    /// A `*_via_ac` entry point was called before an access-control
    /// contract was configured.
    AccessControlNotConfigured,
    /// A `*_via_governance` check ran before a governance contract was
    /// configured.
    GovernanceNotConfigured,
}

/// The numbering of governance errors, in declaration order from 1.
pub open spec fn governance_error_code(e: GovernanceError) -> u32 {
    match e {
        GovernanceError::NotInitialized => 1,
        GovernanceError::ProposalNotFound => 2,
        GovernanceError::ProposalInactive => 3,
        GovernanceError::AlreadyVoted => 4,
        GovernanceError::InsufficientShareBalance => 5,
        GovernanceError::VotingPeriodActive => 6,
        GovernanceError::TimelockActive => 7,
        GovernanceError::QuorumNotMet => 8,
        GovernanceError::InvalidProposalState => 9,
        GovernanceError::Unauthorized => 10,
        GovernanceError::ProposalExpired => 11,
        GovernanceError::InvalidConfig => 12,
        GovernanceError::AccessControlNotConfigured => 13,
        GovernanceError::GovernanceNotConfigured => 14,
    }
}

impl GovernanceError {
    /// The contract error code of this error.
    pub fn code(&self) -> (r: u32)
        ensures
            r == governance_error_code(*self),
    {
        match self {
            GovernanceError::NotInitialized => 1,
            GovernanceError::ProposalNotFound => 2,
            GovernanceError::ProposalInactive => 3,
            GovernanceError::AlreadyVoted => 4,
            GovernanceError::InsufficientShareBalance => 5,
            GovernanceError::VotingPeriodActive => 6,
            GovernanceError::TimelockActive => 7,
            GovernanceError::QuorumNotMet => 8,
            GovernanceError::InvalidProposalState => 9,
            GovernanceError::Unauthorized => 10,
            GovernanceError::ProposalExpired => 11,
            GovernanceError::InvalidConfig => 12,
            GovernanceError::AccessControlNotConfigured => 13,
            GovernanceError::GovernanceNotConfigured => 14,
        }
    }
}

/// Why `initialize` refuses its arguments (the contract aborts the call).
#[derive(Clone, Copy, Debug, PartialEq, Eq, Structural)]
pub enum GovernanceInitError {
    AlreadyInitialized,
    InvalidQuorum,
    InvalidThreshold,
    VotingPeriodTooShort,
    NonPositiveMinShareBalance,
}

#[derive(Clone, Copy, Debug, PartialEq, Eq, Structural)]
pub struct GovernanceConfig {
    pub admin: AccountId,
    pub share_token: AccountId,
    pub voting_period_secs: u64,
    /// Quorum of parameter-change proposals.
    pub quorum_bps: u32,
    pub pass_bps: u32,
    pub execution_delay_secs: u64,
    /// Share balance a proposer must hold to open a proposal.
    pub min_share_balance: i128,
    pub treasury_quorum_bps: u32,
    pub critical_quorum_bps: u32,
}

#[derive(Debug)]
pub struct Proposal {
    pub id: u64,
    pub proposer: AccountId,
    pub description: String,
    /// The contract the action is delivered to.
    pub target_contract: AccountId,
    pub action: GovernanceAction,
    pub votes_for: i128,
    pub votes_against: i128,
    pub status: ProposalStatus,
    pub created_at: u64,
    pub voting_ends_at: u64,
    pub execution_delay: u64,
    /// Share supply at creation: quorum is measured against it, so later
    /// minting cannot move a proposal's quorum.
    pub snapshot_supply: i128,
    /// When the proposal passed (its voting end), or 0.
    pub passed_at: u64,
    pub category: ProposalCategory,
    /// Quorum and pass threshold fixed at creation.
    pub quorum_bps: u32,
    pub pass_bps: u32,
}

/// A quorum is a positive share of at most the whole supply; a pass
/// threshold is a strict majority of at most all votes.
pub open spec fn bps_valid(quorum_bps: u32, pass_bps: u32) -> bool {
    0 < quorum_bps <= MAX_BPS && MAX_BPS / 2 < pass_bps <= MAX_BPS
}

pub fn validate_bps(quorum_bps: u32, pass_bps: u32) -> (r: Result<(), GovernanceError>)
    ensures
        r is Ok <==> bps_valid(quorum_bps, pass_bps),
        r is Err ==> r == Err::<(), GovernanceError>(GovernanceError::InvalidConfig),
{
    if quorum_bps == 0 || quorum_bps > 10_000 {
        return Err(GovernanceError::InvalidConfig);
    }
    if pass_bps <= 5_000 || pass_bps > 10_000 {
        return Err(GovernanceError::InvalidConfig);
    }
    Ok(())
}

/// The quorum the configuration sets for a category.
pub open spec fn category_quorum(config: GovernanceConfig, category: ProposalCategory) -> u32 {
    match category {
        ProposalCategory::ParameterChange => config.quorum_bps,
        ProposalCategory::Treasury => config.treasury_quorum_bps,
        ProposalCategory::Critical => config.critical_quorum_bps,
    }
}

pub fn quorum_for_category(config: &GovernanceConfig, category: ProposalCategory) -> (r: u32)
    ensures
        r == category_quorum(*config, category),
{
    match category {
        ProposalCategory::ParameterChange => config.quorum_bps,
        ProposalCategory::Treasury => config.treasury_quorum_bps,
        ProposalCategory::Critical => config.critical_quorum_bps,
    }
}

/// The configuration with the quorum of `category` replaced.
pub open spec fn with_category_quorum(
    config: GovernanceConfig,
    category: ProposalCategory,
    quorum_bps: u32,
) -> GovernanceConfig {
    match category {
        ProposalCategory::ParameterChange => GovernanceConfig { quorum_bps, ..config },
        ProposalCategory::Treasury => GovernanceConfig { treasury_quorum_bps: quorum_bps, ..config },
        ProposalCategory::Critical => GovernanceConfig { critical_quorum_bps: quorum_bps, ..config },
    }
}

/// The category that access control's numeric encoding names:
/// 0 parameter change, 1 treasury, 2 critical.
pub open spec fn category_of_discriminant(discriminant: u32) -> Option<ProposalCategory> {
    if discriminant == 0 {
        Some(ProposalCategory::ParameterChange)
    } else if discriminant == 1 {
        Some(ProposalCategory::Treasury)
    } else if discriminant == 2 {
        Some(ProposalCategory::Critical)
    } else {
        None
    }
}

pub fn category_from_discriminant(discriminant: u32) -> (r: Result<ProposalCategory, GovernanceError>)
    ensures
        r == match category_of_discriminant(discriminant) {
            Some(c) => Ok(c),
            None => Err(GovernanceError::InvalidConfig),
        },
{
    match discriminant {
        0 => Ok(ProposalCategory::ParameterChange),
        1 => Ok(ProposalCategory::Treasury),
        2 => Ok(ProposalCategory::Critical),
        _ => Err(GovernanceError::InvalidConfig),
    }
}

pub open spec fn total_votes(p: Proposal) -> int {
    p.votes_for + p.votes_against
}

/// Votes needed for quorum: the quorum share of the snapshot supply,
/// rounded down.
pub open spec fn quorum_votes(p: Proposal) -> int {
    (p.snapshot_supply * p.quorum_bps) / (MAX_BPS as int)
}

/// The votes in favour reach the pass threshold of all votes cast.
pub open spec fn pass_reached(p: Proposal) -> bool {
    p.votes_for * MAX_BPS >= total_votes(p) * p.pass_bps
}

/// Finalizing an active proposal finds its quorum missed.
pub open spec fn quorum_missed(p: Proposal) -> bool {
    p.status == ProposalStatus::Active && p.snapshot_supply > 0 && total_votes(p) < quorum_votes(p)
}

/// The proposal once its vote is counted: an active proposal with a
/// positive snapshot, its quorum met and its pass threshold reached passes
/// (as of its voting end); any other active proposal is rejected; a
/// proposal that is no longer active is left as it is.
pub open spec fn finalized(p: Proposal) -> Proposal {
    if p.status != ProposalStatus::Active {
        p
    } else if p.snapshot_supply > 0 && !quorum_missed(p) && pass_reached(p) {
        Proposal { status: ProposalStatus::Passed, passed_at: p.voting_ends_at, ..p }
    } else {
        Proposal { status: ProposalStatus::Rejected, ..p }
    }
}

/// The quorum and pass arithmetic of finalizing `p` stays within `i128`.
pub open spec fn finalize_in_range(p: Proposal) -> bool {
    (p.status == ProposalStatus::Active && p.snapshot_supply > 0) ==> {
        &&& p.snapshot_supply * p.quorum_bps <= i128::MAX
        &&& i128::MIN <= total_votes(p) <= i128::MAX
        &&& total_votes(p) >= quorum_votes(p) ==> {
            &&& i128::MIN <= p.votes_for * MAX_BPS <= i128::MAX
            &&& i128::MIN <= total_votes(p) * p.pass_bps <= i128::MAX
        }
    }
}

/// Whether counting the vote of `p` stays within `i128`, as
/// `finalize_in_range` says; counting a vote whose arithmetic overflows
/// aborts.
pub fn count_fits(p: &Proposal) -> (r: bool)
    ensures
        r == finalize_in_range(*p),
{
    if p.status != ProposalStatus::Active || p.snapshot_supply <= 0 {
        return true;
    }
    let total = match p.votes_for.checked_add(p.votes_against) {
        Some(t) => t,
        None => {
            return false;
        },
    };
    let scaled_supply = match p.snapshot_supply.checked_mul(p.quorum_bps as i128) {
        Some(x) => x,
        None => {
            return false;
        },
    };
    if total < scaled_supply / 10_000i128 {
        return true;
    }
    p.votes_for.checked_mul(10_000i128).is_some() && total.checked_mul(p.pass_bps as i128).is_some()
}

/// What counting the vote of `p` decides: its status afterwards, or a
/// missed quorum. Reads `p` only.
pub fn finalize_decision(p: &Proposal) -> (r: Result<ProposalStatus, GovernanceError>)
    requires
        finalize_in_range(*p),
    ensures
        quorum_missed(*p) ==> r == Err::<ProposalStatus, GovernanceError>(GovernanceError::QuorumNotMet),
        !quorum_missed(*p) ==> r == Ok::<ProposalStatus, GovernanceError>(finalized(*p).status),
{
    if p.status != ProposalStatus::Active {
        return Ok(p.status);
    }
    let snapshot_supply = p.snapshot_supply;
    if snapshot_supply <= 0 {
        return Ok(ProposalStatus::Rejected);
    }
    let total_votes = p.votes_for + p.votes_against;
    let quorum = (snapshot_supply * p.quorum_bps as i128) / 10_000i128;
    if total_votes < quorum {
        return Err(GovernanceError::QuorumNotMet);
    }
    if p.votes_for * 10_000i128 >= total_votes * p.pass_bps as i128 {
        Ok(ProposalStatus::Passed)
    } else {
        Ok(ProposalStatus::Rejected)
    }
}

/// Counts the vote of a proposal whose voting is over; an error reports a
/// missed quorum (the proposal is rejected all the same).
pub fn finalize_proposal(proposal: &mut Proposal) -> (r: Result<(), GovernanceError>)
    requires
        finalize_in_range(*old(proposal)),
    ensures
        *final(proposal) == finalized(*old(proposal)),
        r is Err <==> quorum_missed(*old(proposal)),
        r is Err ==> r == Err::<(), GovernanceError>(GovernanceError::QuorumNotMet),
{
    if proposal.status != ProposalStatus::Active {
        return Ok(());
    }
    match finalize_decision(proposal) {
        Err(e) => {
            proposal.status = ProposalStatus::Rejected;
            Err(e)
        },
        Ok(status) => {
            proposal.status = status;
            if status == ProposalStatus::Passed {
                proposal.passed_at = proposal.voting_ends_at;
            }
            Ok(())
        },
    }
}

/// A passed proposal has expired once more than `EXECUTION_EXPIRY_SECS`
/// have gone by since it passed.
pub open spec fn expiry_due(p: Proposal, now: u64) -> bool {
    p.status == ProposalStatus::Passed && now > saturating_add_u64_spec(p.passed_at, EXECUTION_EXPIRY_SECS)
}

/// Marks a passed proposal expired when its expiry is due; tells whether
/// the proposal is (now) expired.
pub fn mark_expired_if_due(proposal: &mut Proposal, now: u64) -> (r: bool)
    ensures
        expiry_due(*old(proposal), now) ==> *final(proposal) == (Proposal {
            status: ProposalStatus::Expired,
            ..*old(proposal)
        }),
        !expiry_due(*old(proposal), now) ==> *final(proposal) == *old(proposal),
        r == (final(proposal).status == ProposalStatus::Expired),
{
    if proposal.status == ProposalStatus::Passed && now > saturating_add_u64(
        proposal.passed_at,
        EXECUTION_EXPIRY_SECS,
    ) {
        proposal.status = ProposalStatus::Expired;
        true
    } else {
        proposal.status == ProposalStatus::Expired
    }
}

/// A stored proposal has a positive snapshot supply, vote counts that are
/// not negative, and a quorum and pass threshold of at most 100%.
pub open spec fn proposal_wf(p: Proposal) -> bool {
    &&& 0 < p.snapshot_supply
    &&& 0 <= p.votes_for
    &&& 0 <= p.votes_against
    &&& p.quorum_bps <= MAX_BPS
    &&& p.pass_bps <= MAX_BPS
}

/// Extra votes in favour, matched by the same extra snapshot supply, never
/// turn a passing proposal into a failing one: if `p1` would pass when its
/// vote is counted, so would `p2`, which has `x` more votes in favour and
/// `x` more supply and is otherwise the same.
pub proof fn law_more_yes_votes_never_hurt_passage(p1: Proposal, p2: Proposal, x: int)
    requires
        p1.status == ProposalStatus::Active,
        x >= 0,
        p1.quorum_bps <= MAX_BPS,
        p1.pass_bps <= MAX_BPS,
        p2.votes_for == p1.votes_for + x,
        p2.snapshot_supply == p1.snapshot_supply + x,
        p2 == (Proposal { votes_for: p2.votes_for, snapshot_supply: p2.snapshot_supply, ..p1 }),
    ensures
        finalized(p1).status == ProposalStatus::Passed ==> finalized(p2).status
            == ProposalStatus::Passed,
{
    if finalized(p1).status == ProposalStatus::Passed {
        let s = p1.snapshot_supply as int;
        let q = p1.quorum_bps as int;
        let d: int = MAX_BPS as int;
        assert((s + x) * q <= s * q + x * d) by (nonlinear_arith)
            requires
                x >= 0,
                0 <= q <= d,
        ;
        vstd::arithmetic::div_mod::lemma_div_is_ordered((s + x) * q, s * q + x * d, d);
        vstd::arithmetic::div_mod::lemma_hoist_over_denominator(s * q, x, d as nat);
        assert(quorum_votes(p2) <= quorum_votes(p1) + x);
        assert(total_votes(p2) == total_votes(p1) + x);
        let pb = p1.pass_bps as int;
        assert(x * d >= x * pb) by (nonlinear_arith)
            requires
                x >= 0,
                pb <= d,
        ;
        assert(p2.votes_for * d == p1.votes_for * d + x * d) by (nonlinear_arith)
            requires
                p2.votes_for == p1.votes_for + x,
        ;
        assert(total_votes(p2) * pb == total_votes(p1) * pb + x * pb) by (nonlinear_arith)
            requires
                total_votes(p2) == total_votes(p1) + x,
        ;
    }
}

/// Counting the vote of a stored proposal leaves a stored proposal.
pub proof fn lemma_finalized_wf(p: Proposal)
    requires
        proposal_wf(p),
    ensures
        proposal_wf(finalized(p)),
{
}

/// A proposal brought up to date at `now`: an active proposal whose voting
/// is over has its vote counted, and a passed proposal whose expiry is due
/// expires.
pub open spec fn swept(p: Proposal, now: u64) -> Proposal {
    let q = if p.status == ProposalStatus::Active && now >= p.voting_ends_at {
        finalized(p)
    } else {
        p
    };
    if expiry_due(q, now) {
        Proposal { status: ProposalStatus::Expired, ..q }
    } else {
        q
    }
}

/// A configuration that `initialize` or a setter can produce.
pub open spec fn config_wf(c: GovernanceConfig) -> bool {
    &&& bps_valid(c.quorum_bps, c.pass_bps)
    &&& 0 < c.treasury_quorum_bps <= MAX_BPS
    &&& 0 < c.critical_quorum_bps <= MAX_BPS
    &&& c.min_share_balance > 0
}

/// What the contract keeps in storage. Proposal `k` is stored at position
/// `k - 1`; a vote is remembered as the pair (proposal id, voter).
pub struct Governance {
    pub config: Option<GovernanceConfig>,
    pub proposals: Vec<Proposal>,
    pub votes: Vec<(u64, AccountId)>,
    pub access_control: Option<AccountId>,
    pub governance_address: Option<AccountId>,
}

/// The parts of the state other than proposals and votes are equal.
pub open spec fn same_settings(a: Governance, b: Governance) -> bool {
    &&& a.config == b.config
    &&& a.access_control == b.access_control
    &&& a.governance_address == b.governance_address
}

impl Governance {
    pub open spec fn wf(&self) -> bool {
        &&& self.config is None ==> self.proposals@.len() == 0 && self.votes@.len() == 0
        &&& self.config matches Some(c) ==> config_wf(c)
        &&& forall|i: int|
            0 <= i < self.proposals@.len() ==> #[trigger] self.proposals@[i].id == i + 1
                && proposal_wf(self.proposals@[i])
        &&& forall|i: int, j: int|
            0 <= i < j < self.votes@.len() ==> self.votes@[i] != self.votes@[j]
        &&& forall|i: int|
            0 <= i < self.votes@.len() ==> 1 <= #[trigger] self.votes@[i].0 <= self.proposals@.len()
    }

    /// Replacing one stored proposal by a well-formed one with the same id
    /// keeps the invariant.
    proof fn lemma_wf_after_update(old: Self, new: Self, idx: int)
        requires
            old.wf(),
            0 <= idx < old.proposals@.len(),
            new.proposals@ == old.proposals@.update(idx, new.proposals@[idx]),
            new.proposals@[idx].id == idx + 1,
            proposal_wf(new.proposals@[idx]),
            new.config == old.config,
            new.votes == old.votes,
        ensures
            new.wf(),
    {
        assert forall|i: int| 0 <= i < new.proposals@.len() implies #[trigger] new.proposals@[i].id == i + 1
            && proposal_wf(new.proposals@[i]) by {
            if i != idx {
                assert(new.proposals@[i] == old.proposals@[i]);
                assert(old.proposals@[i].id == i + 1);
            }
        }
        assert forall|i: int| 0 <= i < new.votes@.len() implies 1 <= #[trigger] new.votes@[i].0
            <= new.proposals@.len() by {
            assert(old.votes@[i].0 <= old.proposals@.len());
        }
    }

    pub open spec fn proposal_exists(&self, id: u64) -> bool {
        1 <= id <= self.proposals@.len()
    }

    /// The stored proposal with id `id`.
    pub open spec fn proposal(&self, id: u64) -> Proposal {
        self.proposals@[id - 1]
    }

    pub open spec fn has_voted(&self, id: u64, voter: AccountId) -> bool {
        self.votes@.contains((id, voter))
    }

    /// The check of the admin entry points.
    pub open spec fn admin_check(&self, caller: AccountId) -> Result<(), GovernanceError> {
        match self.config {
            None => Err(GovernanceError::NotInitialized),
            Some(c) => if c.admin != caller {
                Err(GovernanceError::Unauthorized)
            } else {
                Ok(())
            },
        }
    }

    /// The check of the `*_via_ac` entry points: the caller must be the
    /// configured access-control contract.
    pub open spec fn access_control_check(&self, caller: AccountId) -> Result<(), GovernanceError> {
        match self.access_control {
            None => Err(GovernanceError::AccessControlNotConfigured),
            Some(a) => if a != caller {
                Err(GovernanceError::Unauthorized)
            } else {
                Ok(())
            },
        }
    }

    /// The check that target contracts make of a governance call: the
    /// caller must be the configured governance contract.
    pub open spec fn governance_check(&self, caller: AccountId) -> Result<(), GovernanceError> {
        match self.governance_address {
            None => Err(GovernanceError::GovernanceNotConfigured),
            Some(a) => if a != caller {
                Err(GovernanceError::Unauthorized)
            } else {
                Ok(())
            },
        }
    }

    /// A contract that has not been initialized.
    pub fn new() -> (r: Self)
        ensures
            r.wf(),
            r.config is None,
            r.proposals@.len() == 0,
            r.votes@.len() == 0,
            r.access_control is None,
            r.governance_address is None,
    {
        Governance {
            config: None,
            proposals: Vec::new(),
            votes: Vec::new(),
            access_control: None,
            governance_address: None,
        }
    }

    fn load_config(&self) -> (r: Result<GovernanceConfig, GovernanceError>)
        ensures
            r == match self.config {
                Some(c) => Ok(c),
                None => Err::<GovernanceConfig, GovernanceError>(GovernanceError::NotInitialized),
            },
    {
        match self.config {
            Some(c) => Ok(c),
            None => Err(GovernanceError::NotInitialized),
        }
    }

    fn require_admin(&self, caller: AccountId) -> (r: Result<GovernanceConfig, GovernanceError>)
        ensures
            r is Ok <==> self.admin_check(caller) is Ok,
            r is Err ==> r == Err::<GovernanceConfig, GovernanceError>(
                self.admin_check(caller)->Err_0,
            ),
            r is Ok ==> self.config == Some(r->Ok_0),
    {
        let config = self.load_config()?;
        if caller != config.admin {
            return Err(GovernanceError::Unauthorized);
        }
        Ok(config)
    }

    fn require_access_control(&self, caller: AccountId) -> (r: Result<(), GovernanceError>)
        ensures
            r == self.access_control_check(caller),
    {
        match self.access_control {
            None => Err(GovernanceError::AccessControlNotConfigured),
            Some(a) => if a != caller {
                Err(GovernanceError::Unauthorized)
            } else {
                Ok(())
            },
        }
    }

    /// Checks that `caller` is the configured governance contract, as the
    /// target contracts' `*_via_governance` setters do.
    pub fn require_governance(&self, caller: AccountId) -> (r: Result<(), GovernanceError>)
        ensures
            r == self.governance_check(caller),
    {
        match self.governance_address {
            None => Err(GovernanceError::GovernanceNotConfigured),
            Some(a) => if a != caller {
                Err(GovernanceError::Unauthorized)
            } else {
                Ok(())
            },
        }
    }

    pub open spec fn init_check(
        &self,
        voting_period_secs: u64,
        quorum_bps: u32,
        pass_bps: u32,
        min_share_balance: i128,
    ) -> Result<(), GovernanceInitError> {
        if self.config is Some {
            Err(GovernanceInitError::AlreadyInitialized)
        } else if quorum_bps == 0 || quorum_bps > MAX_BPS {
            Err(GovernanceInitError::InvalidQuorum)
        } else if pass_bps <= MAX_BPS / 2 || pass_bps > MAX_BPS {
            Err(GovernanceInitError::InvalidThreshold)
        } else if voting_period_secs > 0 && voting_period_secs < MIN_VOTING_PERIOD_SECS {
            Err(GovernanceInitError::VotingPeriodTooShort)
        } else if min_share_balance <= 0 {
            Err(GovernanceInitError::NonPositiveMinShareBalance)
        } else {
            Ok(())
        }
    }

    /// Sets the configuration once. A zero voting period or execution delay
    /// takes the default; category quorums start at their defaults.
    pub fn initialize(
        &mut self,
        admin: AccountId,
        share_token: AccountId,
        voting_period_secs: u64,
        quorum_bps: u32,
        pass_bps: u32,
        execution_delay_secs: u64,
        min_share_balance: i128,
    ) -> (r: Result<(), GovernanceInitError>)
        requires
            old(self).wf(),
        ensures
            final(self).wf(),
            r == old(self).init_check(voting_period_secs, quorum_bps, pass_bps, min_share_balance),
            r is Err ==> *final(self) == *old(self),
            r is Ok ==> *final(self) == (Governance {
                config: Some(
                    GovernanceConfig {
                        admin,
                        share_token,
                        voting_period_secs: if voting_period_secs == 0 {
                            DEFAULT_VOTING_PERIOD_SECS
                        } else {
                            voting_period_secs
                        },
                        quorum_bps,
                        pass_bps,
                        execution_delay_secs: if execution_delay_secs == 0 {
                            DEFAULT_EXECUTION_DELAY_SECS
                        } else {
                            execution_delay_secs
                        },
                        min_share_balance,
                        treasury_quorum_bps: DEFAULT_TREASURY_QUORUM_BPS,
                        critical_quorum_bps: DEFAULT_CRITICAL_QUORUM_BPS,
                    },
                ),
                ..*old(self)
            }),
    {
        if self.config.is_some() {
            return Err(GovernanceInitError::AlreadyInitialized);
        }
        if quorum_bps == 0 || quorum_bps > 10_000 {
            return Err(GovernanceInitError::InvalidQuorum);
        }
        if pass_bps <= 5_000 || pass_bps > 10_000 {
            return Err(GovernanceInitError::InvalidThreshold);
        }
        if voting_period_secs > 0 && voting_period_secs < MIN_VOTING_PERIOD_SECS {
            return Err(GovernanceInitError::VotingPeriodTooShort);
        }
        if min_share_balance <= 0 {
            return Err(GovernanceInitError::NonPositiveMinShareBalance);
        }
        let config = GovernanceConfig {
            admin,
            share_token,
            voting_period_secs: if voting_period_secs == 0 {
                DEFAULT_VOTING_PERIOD_SECS
            } else {
                voting_period_secs
            },
            quorum_bps,
            pass_bps,
            execution_delay_secs: if execution_delay_secs == 0 {
                DEFAULT_EXECUTION_DELAY_SECS
            } else {
                execution_delay_secs
            },
            min_share_balance,
            treasury_quorum_bps: DEFAULT_TREASURY_QUORUM_BPS,
            critical_quorum_bps: DEFAULT_CRITICAL_QUORUM_BPS,
        };
        self.config = Some(config);
        Ok(())
    }

    pub open spec fn create_check(
        &self,
        proposer_balance: i128,
        total_supply: i128,
    ) -> Result<(), GovernanceError> {
        match self.config {
            None => Err(GovernanceError::NotInitialized),
            Some(c) => if proposer_balance < c.min_share_balance {
                Err(GovernanceError::InsufficientShareBalance)
            } else if total_supply <= 0 || proposer_balance <= 0 {
                Err(GovernanceError::InsufficientShareBalance)
            } else {
                Ok(())
            },
        }
    }

    /// Opens a proposal with the next id. `proposer_balance` is the
    /// proposer's share balance now and `total_supply` the share supply now;
    /// the supply, the category's quorum and the pass threshold are fixed on
    /// the proposal.
    pub fn create_proposal(
        &mut self,
        proposer: AccountId,
        description: String,
        target_contract: AccountId,
        action: GovernanceAction,
        category: ProposalCategory,
        now: u64,
        proposer_balance: i128,
        total_supply: i128,
    ) -> (r: Result<u64, GovernanceError>)
        requires
            old(self).wf(),
            old(self).proposals@.len() < u64::MAX,
        ensures
            final(self).wf(),
            r is Ok <==> old(self).create_check(proposer_balance, total_supply) is Ok,
            r is Err ==> r == Err::<u64, GovernanceError>(
                old(self).create_check(proposer_balance, total_supply)->Err_0,
            ),
            r is Err ==> *final(self) == *old(self),
            r is Ok ==> {
                let c = old(self).config->Some_0;
                &&& r == Ok::<u64, GovernanceError>((old(self).proposals@.len() + 1) as u64)
                &&& same_settings(*final(self), *old(self))
                &&& final(self).votes == old(self).votes
                &&& final(self).proposals@ == old(self).proposals@.push(
                    Proposal {
                        id: (old(self).proposals@.len() + 1) as u64,
                        proposer,
                        description,
                        target_contract,
                        action,
                        votes_for: 0,
                        votes_against: 0,
                        status: ProposalStatus::Active,
                        created_at: now,
                        voting_ends_at: saturating_add_u64_spec(now, c.voting_period_secs),
                        execution_delay: c.execution_delay_secs,
                        snapshot_supply: total_supply,
                        passed_at: 0,
                        category,
                        quorum_bps: category_quorum(c, category),
                        pass_bps: c.pass_bps,
                    },
                )
            },
    {
        let config = self.load_config()?;
        if proposer_balance < config.min_share_balance {
            return Err(GovernanceError::InsufficientShareBalance);
        }
        if total_supply <= 0 || proposer_balance <= 0 {
            return Err(GovernanceError::InsufficientShareBalance);
        }
        let count = self.proposals.len() as u64;
        let id = count + 1;
        let quorum_bps = quorum_for_category(&config, category);
        let proposal = Proposal {
            id,
            proposer,
            description,
            target_contract,
            action,
            votes_for: 0,
            votes_against: 0,
            status: ProposalStatus::Active,
            created_at: now,
            voting_ends_at: saturating_add_u64(now, config.voting_period_secs),
            execution_delay: config.execution_delay_secs,
            snapshot_supply: total_supply,
            passed_at: 0,
            category,
            quorum_bps,
            pass_bps: config.pass_bps,
        };
        self.proposals.push(proposal);
        Ok(id)
    }

    pub open spec fn vote_check(
        &self,
        proposal_id: u64,
        voter: AccountId,
        now: u64,
        weight: i128,
    ) -> Result<(), GovernanceError> {
        if self.config is None {
            Err(GovernanceError::NotInitialized)
        } else if !self.proposal_exists(proposal_id) {
            Err(GovernanceError::ProposalNotFound)
        } else if self.proposal(proposal_id).status != ProposalStatus::Active {
            Err(GovernanceError::ProposalInactive)
        } else if self.has_voted(proposal_id, voter) {
            Err(GovernanceError::AlreadyVoted)
        } else if now >= self.proposal(proposal_id).voting_ends_at {
            Err(GovernanceError::VotingPeriodActive)
        } else if weight <= 0 {
            Err(GovernanceError::InsufficientShareBalance)
        } else {
            Ok(())
        }
    }

    /// Casts `voter`'s vote with `weight`, the voter's share balance at the
    /// proposal's creation. Voting is open in `[created_at, voting_ends_at)`;
    /// a vote at or after the end is refused.
    #[verifier::spinoff_prover]
    pub fn vote(
        &mut self,
        proposal_id: u64,
        voter: AccountId,
        in_favor: bool,
        now: u64,
        weight: i128,
    ) -> (r: Result<(), GovernanceError>)
        requires
            old(self).wf(),
            old(self).vote_check(proposal_id, voter, now, weight) is Ok ==> if in_favor {
                old(self).proposal(proposal_id).votes_for + weight <= i128::MAX
            } else {
                old(self).proposal(proposal_id).votes_against + weight <= i128::MAX
            },
        ensures
            final(self).wf(),
            r == old(self).vote_check(proposal_id, voter, now, weight),
            r is Err ==> *final(self) == *old(self),
            r is Ok ==> {
                let p = old(self).proposal(proposal_id);
                &&& same_settings(*final(self), *old(self))
                &&& final(self).votes@ == old(self).votes@.push((proposal_id, voter))
                &&& final(self).proposals@ == old(self).proposals@.update(
                    proposal_id - 1,
                    if in_favor {
                        Proposal { votes_for: (p.votes_for + weight) as i128, ..p }
                    } else {
                        Proposal { votes_against: (p.votes_against + weight) as i128, ..p }
                    },
                )
            },
    {
        if self.config.is_none() {
            return Err(GovernanceError::NotInitialized);
        }
        if proposal_id == 0 || proposal_id > self.proposals.len() as u64 {
            return Err(GovernanceError::ProposalNotFound);
        }
        let idx = (proposal_id - 1) as usize;
        if self.proposals[idx].status != ProposalStatus::Active {
            return Err(GovernanceError::ProposalInactive);
        }
        if self.voted_on(proposal_id, voter) {
            return Err(GovernanceError::AlreadyVoted);
        }
        if now >= self.proposals[idx].voting_ends_at {
            return Err(GovernanceError::VotingPeriodActive);
        }
        if weight <= 0 {
            return Err(GovernanceError::InsufficientShareBalance);
        }
        let ghost old_ps = self.proposals@;
        let mut proposal = self.proposals.remove(idx);
        if in_favor {
            proposal.votes_for = proposal.votes_for + weight;
        } else {
            proposal.votes_against = proposal.votes_against + weight;
        }
        self.proposals.insert(idx, proposal);
        assert(self.proposals@ =~= old_ps.update(idx as int, self.proposals@[idx as int]));
        assert forall|i: int| 0 <= i < self.proposals@.len() implies #[trigger] self.proposals@[i].id
            == i + 1 && proposal_wf(self.proposals@[i]) by {
            if i != idx {
                assert(self.proposals@[i] == old_ps[i]);
            } else {
                let p = old(self).proposal(proposal_id);
                assert(old_ps[i] == p);
                assert(proposal_wf(p));
            }
        }
        self.votes.push((proposal_id, voter));
        proof {
            assert forall|i: int, j: int| 0 <= i < j < self.votes@.len() implies self.votes@[i]
                != self.votes@[j] by {
                if j == self.votes@.len() - 1 {
                    assert(old(self).votes@[i] == self.votes@[i]);
                }
            }
            assert forall|i: int| 0 <= i < self.votes@.len() implies 1 <= #[trigger] self.votes@[i].0
                <= self.proposals@.len() by {
                if i < old(self).votes@.len() {
                    assert(self.votes@[i] == old(self).votes@[i]);
                }
            }
            assert(self.config == old(self).config);
        }
        Ok(())
    }

    /// Executing proposal `id` at `now` gets as far as counting its vote:
    /// the proposal exists and its voting period and execution delay are
    /// over.
    pub open spec fn execute_counts_vote(&self, proposal_id: u64, now: u64) -> bool {
        &&& self.config is Some
        &&& self.proposal_exists(proposal_id)
        &&& now > self.proposal(proposal_id).voting_ends_at
        &&& now >= saturating_add_u64_spec(
            self.proposal(proposal_id).voting_ends_at,
            self.config->Some_0.execution_delay_secs,
        )
    }

    /// The proposal that executing proposal `id` at `now` leaves, or why
    /// execution is refused.
    pub open spec fn execute_outcome(&self, proposal_id: u64, now: u64) -> Result<
        Proposal,
        GovernanceError,
    > {
        match self.config {
            None => Err(GovernanceError::NotInitialized),
            Some(c) => if !self.proposal_exists(proposal_id) {
                Err(GovernanceError::ProposalNotFound)
            } else {
                let p = self.proposal(proposal_id);
                let q = finalized(p);
                if p.status == ProposalStatus::Cancelled || p.status == ProposalStatus::Executed
                    || p.status == ProposalStatus::Expired {
                    Err(GovernanceError::ProposalInactive)
                } else if now <= p.voting_ends_at {
                    Err(GovernanceError::VotingPeriodActive)
                } else if now < saturating_add_u64_spec(p.voting_ends_at, c.execution_delay_secs) {
                    Err(GovernanceError::TimelockActive)
                } else if quorum_missed(p) {
                    Err(GovernanceError::QuorumNotMet)
                } else if q.status != ProposalStatus::Passed {
                    Err(GovernanceError::InvalidProposalState)
                } else if expiry_due(q, now) {
                    Err(GovernanceError::ProposalExpired)
                } else {
                    Ok(Proposal { status: ProposalStatus::Executed, ..q })
                }
            },
        }
    }

    /// Executes a proposal once its voting period is over and the execution
    /// delay has run, counting its vote if that has not happened yet. A
    /// proposal that missed quorum or its pass threshold, or that passed
    /// more than `EXECUTION_EXPIRY_SECS` ago, is refused. On success it
    /// returns the delivery of the proposal's action to its target
    /// contract, made with `this_contract`, this contract's own address, as
    /// the authorising governance; the host then makes that call.
    pub fn execute_proposal(&mut self, proposal_id: u64, now: u64, this_contract: AccountId) -> (r: Result<
        TargetCall,
        GovernanceError,
    >)
        requires
            old(self).wf(),
            old(self).execute_counts_vote(proposal_id, now) ==> finalize_in_range(
                old(self).proposal(proposal_id),
            ),
        ensures
            final(self).wf(),
            r is Ok <==> old(self).execute_outcome(proposal_id, now) is Ok,
            r is Err ==> r == Err::<TargetCall, GovernanceError>(
                old(self).execute_outcome(proposal_id, now)->Err_0,
            ),
            r is Err ==> *final(self) == *old(self),
            r is Ok ==> {
                &&& is_governance_call(
                    r->Ok_0,
                    this_contract,
                    old(self).proposal(proposal_id).target_contract,
                    old(self).proposal(proposal_id).action,
                )
                &&& same_settings(*final(self), *old(self))
                &&& final(self).votes == old(self).votes
                &&& final(self).proposals@ == old(self).proposals@.update(
                    proposal_id - 1,
                    old(self).execute_outcome(proposal_id, now)->Ok_0,
                )
            },
    {
        let config = self.load_config()?;
        if proposal_id == 0 || proposal_id > self.proposals.len() as u64 {
            return Err(GovernanceError::ProposalNotFound);
        }
        let idx = (proposal_id - 1) as usize;
        let status = self.proposals[idx].status;
        if status == ProposalStatus::Cancelled || status == ProposalStatus::Executed || status
            == ProposalStatus::Expired {
            return Err(GovernanceError::ProposalInactive);
        }
        let voting_ends_at = self.proposals[idx].voting_ends_at;
        if now <= voting_ends_at {
            return Err(GovernanceError::VotingPeriodActive);
        }
        if now < saturating_add_u64(voting_ends_at, config.execution_delay_secs) {
            return Err(GovernanceError::TimelockActive);
        }
        let new_status = finalize_decision(&self.proposals[idx])?;
        if new_status != ProposalStatus::Passed {
            return Err(GovernanceError::InvalidProposalState);
        }
        let passed_at = if status == ProposalStatus::Active {
            voting_ends_at
        } else {
            self.proposals[idx].passed_at
        };
        if now > saturating_add_u64(passed_at, EXECUTION_EXPIRY_SECS) {
            return Err(GovernanceError::ProposalExpired);
        }
        let ghost old_ps = self.proposals@;
        let mut proposal = self.proposals.remove(idx);
        let _ = finalize_proposal(&mut proposal);
        let call = execute_governance_action(this_contract, proposal.target_contract, &proposal.action);
        proposal.status = ProposalStatus::Executed;
        self.proposals.insert(idx, proposal);
        assert(self.proposals@ =~= old_ps.update(idx as int, self.proposals@[idx as int]));
        assert forall|i: int| 0 <= i < self.proposals@.len() implies #[trigger] self.proposals@[i].id
            == i + 1 && proposal_wf(self.proposals@[i]) by {
            assert(old(self).proposals@[i].id == i + 1 && proposal_wf(old(self).proposals@[i]));
            if i != idx {
                assert(self.proposals@[i] == old_ps[i]);
            } else {
                lemma_finalized_wf(old_ps[i]);
                assert(self.proposals@[i] == Proposal {
                    status: ProposalStatus::Executed,
                    ..finalized(old_ps[i])
                });
            }
        }
        proof {
            Self::lemma_wf_after_update(*old(self), *self, idx as int);
        }
        assert(self.proposals@ =~= old(self).proposals@.update(
            proposal_id - 1,
            old(self).execute_outcome(proposal_id, now)->Ok_0,
        ));
        Ok(call)
    }

    pub open spec fn cancel_check(&self, proposal_id: u64, caller: AccountId) -> Result<
        (),
        GovernanceError,
    > {
        match self.config {
            None => Err(GovernanceError::NotInitialized),
            Some(c) => if !self.proposal_exists(proposal_id) {
                Err(GovernanceError::ProposalNotFound)
            } else {
                let p = self.proposal(proposal_id);
                let is_admin = caller == c.admin;
                if !is_admin && caller != p.proposer {
                    Err(GovernanceError::Unauthorized)
                } else if p.status == ProposalStatus::Cancelled || p.status
                    == ProposalStatus::Executed || p.status == ProposalStatus::Expired || p.status
                    == ProposalStatus::Rejected {
                    Err(GovernanceError::InvalidProposalState)
                } else if p.status == ProposalStatus::Passed && !is_admin {
                    Err(GovernanceError::Unauthorized)
                } else {
                    Ok(())
                }
            },
        }
    }

    /// Cancels a proposal. The proposer may cancel it while it is active;
    /// the admin may also cancel a passed proposal (to halt it during the
    /// timelock). Finished proposals cannot be cancelled.
    pub fn cancel_proposal(&mut self, proposal_id: u64, caller: AccountId) -> (r: Result<
        (),
        GovernanceError,
    >)
        requires
            old(self).wf(),
        ensures
            final(self).wf(),
            r == old(self).cancel_check(proposal_id, caller),
            r is Err ==> *final(self) == *old(self),
            r is Ok ==> {
                &&& same_settings(*final(self), *old(self))
                &&& final(self).votes == old(self).votes
                &&& final(self).proposals@ == old(self).proposals@.update(
                    proposal_id - 1,
                    Proposal {
                        status: ProposalStatus::Cancelled,
                        ..old(self).proposal(proposal_id)
                    },
                )
            },
    {
        let config = self.load_config()?;
        if proposal_id == 0 || proposal_id > self.proposals.len() as u64 {
            return Err(GovernanceError::ProposalNotFound);
        }
        let idx = (proposal_id - 1) as usize;
        let is_admin = caller == config.admin;
        if !is_admin && caller != self.proposals[idx].proposer {
            return Err(GovernanceError::Unauthorized);
        }
        match self.proposals[idx].status {
            ProposalStatus::Cancelled
            | ProposalStatus::Executed
            | ProposalStatus::Expired
            | ProposalStatus::Rejected => {
                return Err(GovernanceError::InvalidProposalState);
            },
            ProposalStatus::Passed => {
                if !is_admin {
                    return Err(GovernanceError::Unauthorized);
                }
            },
            ProposalStatus::Active => {},
        }
        let ghost old_ps = self.proposals@;
        let mut proposal = self.proposals.remove(idx);
        proposal.status = ProposalStatus::Cancelled;
        self.proposals.insert(idx, proposal);
        assert(self.proposals@ =~= old_ps.update(idx as int, self.proposals@[idx as int]));
        assert forall|i: int| 0 <= i < self.proposals@.len() implies #[trigger] self.proposals@[i].id
            == i + 1 && proposal_wf(self.proposals@[i]) by {
            assert(old(self).proposals@[i].id == i + 1 && proposal_wf(old(self).proposals@[i]));
            if i != idx {
                assert(self.proposals@[i] == old_ps[i]);
            } else {
                assert(self.proposals@[i] == Proposal { status: ProposalStatus::Cancelled, ..old_ps[i] });
            }
        }
        Ok(())
    }

    /// The stored proposal with id `proposal_id`, if any.
    pub fn get_proposal(&self, proposal_id: u64) -> (r: Option<&Proposal>)
        requires
            self.wf(),
        ensures
            r is Some <==> self.proposal_exists(proposal_id),
            r is Some ==> *r->Some_0 == self.proposal(proposal_id),
    {
        if proposal_id == 0 || proposal_id > self.proposals.len() as u64 {
            None
        } else {
            Some(&self.proposals[(proposal_id - 1) as usize])
        }
    }

    /// Brings every proposal up to date at `now` (counting the vote of an
    /// active proposal whose voting is over, expiring a passed one whose
    /// expiry is due) and returns all proposals in id order.
    pub fn list_proposals(&mut self, now: u64) -> (r: &Vec<Proposal>)
        requires
            old(self).wf(),
            forall|i: int|
                0 <= i < old(self).proposals@.len() && now >= #[trigger] old(
                    self,
                ).proposals@[i].voting_ends_at ==> finalize_in_range(old(self).proposals@[i]),
        ensures
            final(self).wf(),
            same_settings(*final(self), *old(self)),
            final(self).votes == old(self).votes,
            final(self).proposals@.len() == old(self).proposals@.len(),
            forall|i: int|
                0 <= i < old(self).proposals@.len() ==> #[trigger] final(self).proposals@[i]
                    == swept(old(self).proposals@[i], now),
            *r == final(self).proposals,
    {
        let n = self.proposals.len();
        let mut i: usize = 0;
        while i < n
            invariant
                old(self).wf(),
                n == self.proposals@.len(),
                n == old(self).proposals@.len(),
                0 <= i <= n,
                same_settings(*self, *old(self)),
                self.votes == old(self).votes,
                forall|j: int| 0 <= j < i ==> self.proposals@[j] == swept(old(self).proposals@[j], now),
                forall|j: int| i <= j < n ==> self.proposals@[j] == old(self).proposals@[j],
                forall|j: int|
                    0 <= j < n && now >= #[trigger] old(self).proposals@[j].voting_ends_at
                        ==> finalize_in_range(old(self).proposals@[j]),
            decreases n - i,
        {
            let ghost before = self.proposals@;
            let mut proposal = self.proposals.remove(i);
            proof {
                assert(proposal == old(self).proposals@[i as int]);
                lemma_finalized_wf(proposal);
            }
            if proposal.status == ProposalStatus::Active && now >= proposal.voting_ends_at {
                let _ = finalize_proposal(&mut proposal);
            }
            let _ = mark_expired_if_due(&mut proposal, now);
            self.proposals.insert(i, proposal);
            assert(self.proposals@ =~= before.update(i as int, self.proposals@[i as int]));
            i = i + 1;
        }
        proof {
            assert forall|i: int| 0 <= i < self.proposals@.len() implies #[trigger] self.proposals@[i].id
                == i + 1 && proposal_wf(self.proposals@[i]) by {
                lemma_finalized_wf(old(self).proposals@[i]);
            }
        }
        &self.proposals
    }

    pub fn get_config(&self) -> (r: Result<GovernanceConfig, GovernanceError>)
        ensures
            r == match self.config {
                Some(c) => Ok(c),
                None => Err::<GovernanceConfig, GovernanceError>(GovernanceError::NotInitialized),
            },
    {
        self.load_config()
    }

    /// Previews a voter's weight on a proposal: `weight` is the voter's
    /// share balance at the proposal's creation, which is what `vote` counts.
    pub fn get_voting_power(&self, proposal_id: u64, weight: i128) -> (r: Result<i128, GovernanceError>)
        ensures
            r == if self.config is None {
                Err(GovernanceError::NotInitialized)
            } else if !self.proposal_exists(proposal_id) {
                Err(GovernanceError::ProposalNotFound)
            } else {
                Ok::<i128, GovernanceError>(weight)
            },
    {
        let _ = self.load_config()?;
        if proposal_id == 0 || proposal_id > self.proposals.len() as u64 {
            return Err(GovernanceError::ProposalNotFound);
        }
        Ok(weight)
    }

    /// Records the governance contract that target contracts trust.
    pub fn set_governance_address(&mut self, caller: AccountId, governance_address: AccountId) -> (r:
        Result<(), GovernanceError>)
        requires
            old(self).wf(),
        ensures
            final(self).wf(),
            r == old(self).admin_check(caller),
            r is Err ==> *final(self) == *old(self),
            r is Ok ==> *final(self) == (Governance {
                governance_address: Some(governance_address),
                ..*old(self)
            }),
    {
        let _ = self.require_admin(caller)?;
        self.governance_address = Some(governance_address);
        Ok(())
    }

    pub fn get_governance_address(&self) -> (r: Option<AccountId>)
        ensures
            r == self.governance_address,
    {
        self.governance_address
    }

    /// Replaces the parameter-change quorum and the pass threshold; proposals
    /// already open keep theirs.
    pub fn update_config(&mut self, caller: AccountId, quorum_bps: u32, pass_bps: u32) -> (r: Result<
        (),
        GovernanceError,
    >)
        requires
            old(self).wf(),
        ensures
            final(self).wf(),
            r == match old(self).admin_check(caller) {
                Err(e) => Err(e),
                Ok(_) => if bps_valid(quorum_bps, pass_bps) {
                    Ok(())
                } else {
                    Err(GovernanceError::InvalidConfig)
                },
            },
            r is Err ==> *final(self) == *old(self),
            r is Ok ==> *final(self) == (Governance {
                config: Some(
                    GovernanceConfig { quorum_bps, pass_bps, ..old(self).config->Some_0 },
                ),
                ..*old(self)
            }),
    {
        let mut config = self.require_admin(caller)?;
        validate_bps(quorum_bps, pass_bps)?;
        config.quorum_bps = quorum_bps;
        config.pass_bps = pass_bps;
        self.config = Some(config);
        Ok(())
    }

    /// Replaces the share balance a proposer must hold, which must stay
    /// positive.
    pub fn update_min_share_balance(&mut self, caller: AccountId, min_share_balance: i128) -> (r:
        Result<(), GovernanceError>)
        requires
            old(self).wf(),
        ensures
            final(self).wf(),
            r == match old(self).admin_check(caller) {
                Err(e) => Err(e),
                Ok(_) => if min_share_balance > 0 {
                    Ok(())
                } else {
                    Err(GovernanceError::InvalidConfig)
                },
            },
            r is Err ==> *final(self) == *old(self),
            r is Ok ==> *final(self) == (Governance {
                config: Some(GovernanceConfig { min_share_balance, ..old(self).config->Some_0 }),
                ..*old(self)
            }),
    {
        let mut config = self.require_admin(caller)?;
        if min_share_balance <= 0 {
            return Err(GovernanceError::InvalidConfig);
        }
        config.min_share_balance = min_share_balance;
        self.config = Some(config);
        Ok(())
    }

    /// Sets the quorum of one category for proposals opened from now on.
    pub fn set_category_quorum(
        &mut self,
        caller: AccountId,
        category: ProposalCategory,
        quorum_bps: u32,
    ) -> (r: Result<(), GovernanceError>)
        requires
            old(self).wf(),
        ensures
            final(self).wf(),
            r == match old(self).admin_check(caller) {
                Err(e) => Err(e),
                Ok(_) => if 0 < quorum_bps <= MAX_BPS {
                    Ok(())
                } else {
                    Err(GovernanceError::InvalidConfig)
                },
            },
            r is Err ==> *final(self) == *old(self),
            r is Ok ==> *final(self) == (Governance {
                config: Some(
                    with_category_quorum(old(self).config->Some_0, category, quorum_bps),
                ),
                ..*old(self)
            }),
    {
        let mut config = self.require_admin(caller)?;
        if quorum_bps == 0 || quorum_bps > 10_000 {
            return Err(GovernanceError::InvalidConfig);
        }
        match category {
            ProposalCategory::ParameterChange => config.quorum_bps = quorum_bps,
            ProposalCategory::Treasury => config.treasury_quorum_bps = quorum_bps,
            ProposalCategory::Critical => config.critical_quorum_bps = quorum_bps,
        }
        self.config = Some(config);
        Ok(())
    }

    pub fn get_category_quorum(&self, category: ProposalCategory) -> (r: Result<u32, GovernanceError>)
        ensures
            r == match self.config {
                Some(c) => Ok(category_quorum(c, category)),
                None => Err::<u32, GovernanceError>(GovernanceError::NotInitialized),
            },
    {
        let config = self.load_config()?;
        Ok(quorum_for_category(&config, category))
    }

    /// Records the access-control contract that the `*_via_ac` entry points
    /// trust.
    pub fn set_access_control(&mut self, caller: AccountId, access_control: AccountId) -> (r: Result<
        (),
        GovernanceError,
    >)
        requires
            old(self).wf(),
        ensures
            final(self).wf(),
            r == old(self).admin_check(caller),
            r is Err ==> *final(self) == *old(self),
            r is Ok ==> *final(self) == (Governance {
                access_control: Some(access_control),
                ..*old(self)
            }),
    {
        let _ = self.require_admin(caller)?;
        self.access_control = Some(access_control);
        Ok(())
    }

    pub fn get_access_control(&self) -> (r: Option<AccountId>)
        ensures
            r == self.access_control,
    {
        self.access_control
    }

    /// Rotates the trusted access-control contract; only the current one
    /// may do so.
    pub fn set_access_control_via_ac(
        &mut self,
        access_control: AccountId,
        new_access_control: AccountId,
    ) -> (r: Result<(), GovernanceError>)
        requires
            old(self).wf(),
        ensures
            final(self).wf(),
            r == old(self).access_control_check(access_control),
            r is Err ==> *final(self) == *old(self),
            r is Ok ==> *final(self) == (Governance {
                access_control: Some(new_access_control),
                ..*old(self)
            }),
    {
        self.require_access_control(access_control)?;
        self.access_control = Some(new_access_control);
        Ok(())
    }

    /// `update_config` on behalf of the access-control contract.
    pub fn update_config_via_ac(&mut self, access_control: AccountId, quorum_bps: u32, pass_bps: u32) -> (r:
        Result<(), GovernanceError>)
        requires
            old(self).wf(),
        ensures
            final(self).wf(),
            r == match old(self).access_control_check(access_control) {
                Err(e) => Err(e),
                Ok(_) => if old(self).config is None {
                    Err(GovernanceError::NotInitialized)
                } else if bps_valid(quorum_bps, pass_bps) {
                    Ok(())
                } else {
                    Err(GovernanceError::InvalidConfig)
                },
            },
            r is Err ==> *final(self) == *old(self),
            r is Ok ==> *final(self) == (Governance {
                config: Some(
                    GovernanceConfig { quorum_bps, pass_bps, ..old(self).config->Some_0 },
                ),
                ..*old(self)
            }),
    {
        self.require_access_control(access_control)?;
        let mut config = self.load_config()?;
        validate_bps(quorum_bps, pass_bps)?;
        config.quorum_bps = quorum_bps;
        config.pass_bps = pass_bps;
        self.config = Some(config);
        Ok(())
    }

    /// `set_category_quorum` on behalf of the access-control contract.
    pub fn set_category_quorum_via_ac(
        &mut self,
        access_control: AccountId,
        category: ProposalCategory,
        quorum_bps: u32,
    ) -> (r: Result<(), GovernanceError>)
        requires
            old(self).wf(),
        ensures
            final(self).wf(),
            r == match old(self).access_control_check(access_control) {
                Err(e) => Err(e),
                Ok(_) => if !(0 < quorum_bps <= MAX_BPS) {
                    Err(GovernanceError::InvalidConfig)
                } else if old(self).config is None {
                    Err(GovernanceError::NotInitialized)
                } else {
                    Ok(())
                },
            },
            r is Err ==> *final(self) == *old(self),
            r is Ok ==> *final(self) == (Governance {
                config: Some(
                    with_category_quorum(old(self).config->Some_0, category, quorum_bps),
                ),
                ..*old(self)
            }),
    {
        self.require_access_control(access_control)?;
        if quorum_bps == 0 || quorum_bps > 10_000 {
            return Err(GovernanceError::InvalidConfig);
        }
        let mut config = self.load_config()?;
        match category {
            ProposalCategory::ParameterChange => config.quorum_bps = quorum_bps,
            ProposalCategory::Treasury => config.treasury_quorum_bps = quorum_bps,
            ProposalCategory::Critical => config.critical_quorum_bps = quorum_bps,
        }
        self.config = Some(config);
        Ok(())
    }

    /// Whether `voter` has voted on proposal `id`.
    fn voted_on(&self, id: u64, voter: AccountId) -> (r: bool)
        ensures
            r == self.has_voted(id, voter),
    {
        let mut i: usize = 0;
        while i < self.votes.len()
            invariant
                i <= self.votes@.len(),
                forall|j: int| 0 <= j < i ==> self.votes@[j] != (id, voter),
            decreases self.votes@.len() - i,
        {
            if self.votes[i].0 == id && self.votes[i].1 == voter {
                assert(self.votes@[i as int] == (id, voter));
                return true;
            }
            i = i + 1;
        }
        false
    }
}

/// The setter call that delivers a governance action goes to the action's
/// own `*_via_governance` setter and carries, after the governance
/// contract's address, the action's fields in declaration
/// order, each as the argument of its type; for example
/// `SetPoolFallbackPrice(token, price)` is delivered as
/// `(governance, token, price)`.
#[verifier::spinoff_prover]
#[verifier::rlimit(50)]
pub proof fn law_delivered_arguments_follow_the_action(
    call: TargetCall,
    governance: AccountId,
    target: AccountId,
    action: GovernanceAction,
)
    requires
        is_governance_call(call, governance, target, action),
    ensures
        action matches GovernanceAction::Pool(PoolAction::SetPoolYield(a0)) ==> {
            &&& call.entry_point@ == "set_yield_via_governance"@
            &&& call.args@.len() == 2
            &&& call.args@[0] == CallArg::Account(governance)
            &&& call.args@[1] == CallArg::U32(a0)
        },
        action matches GovernanceAction::Pool(PoolAction::SetPoolYieldChangePolicy(a0)) ==> {
            &&& call.entry_point@ == "set_yield_change_policy_via_governance"@
            &&& call.args@.len() == 2
            &&& call.args@[0] == CallArg::Account(governance)
            &&& call.args@[1] == CallArg::U64(a0)
        },
        action matches GovernanceAction::Pool(PoolAction::SetPoolFactoringFee(a0)) ==> {
            &&& call.entry_point@ == "set_factoring_fee_via_governance"@
            &&& call.args@.len() == 2
            &&& call.args@[0] == CallArg::Account(governance)
            &&& call.args@[1] == CallArg::U32(a0)
        },
        action matches GovernanceAction::Pool(PoolAction::SetPoolFeeTier(a0, a1)) ==> {
            &&& call.entry_point@ == "set_fee_tier_via_governance"@
            &&& call.args@.len() == 3
            &&& call.args@[0] == CallArg::Account(governance)
            &&& call.args@[1] == CallArg::U32(a0)
            &&& call.args@[2] == CallArg::U32(a1)
        },
        action matches GovernanceAction::Pool(PoolAction::SetPoolTreasury(a0)) ==> {
            &&& call.entry_point@ == "set_treasury_via_governance"@
            &&& call.args@.len() == 2
            &&& call.args@[0] == CallArg::Account(governance)
            &&& call.args@[1] == CallArg::Account(a0)
        },
        action matches GovernanceAction::Pool(PoolAction::SetPoolMaxUtilization(a0)) ==> {
            &&& call.entry_point@ == "set_max_utilization_via_governance"@
            &&& call.args@.len() == 2
            &&& call.args@[0] == CallArg::Account(governance)
            &&& call.args@[1] == CallArg::U32(a0)
        },
        action matches GovernanceAction::Pool(PoolAction::SetPoolMinDeposit(a0)) ==> {
            &&& call.entry_point@ == "set_min_deposit_via_governance"@
            &&& call.args@.len() == 2
            &&& call.args@[0] == CallArg::Account(governance)
            &&& call.args@[1] == CallArg::I128(a0)
        },
        action matches GovernanceAction::Pool(PoolAction::SetPoolMaxInvestorConcentration(a0)) ==> {
            &&& call.entry_point@ == "set_max_investor_concentration_via_governance"@
            &&& call.args@.len() == 2
            &&& call.args@[0] == CallArg::Account(governance)
            &&& call.args@[1] == CallArg::U32(a0)
        },
        action matches GovernanceAction::Pool(PoolAction::SetPoolLoyaltyTiers(a0)) ==> {
            &&& call.entry_point@ == "set_loyalty_tiers_via_governance"@
            &&& call.args@.len() == 2
            &&& call.args@[0] == CallArg::Account(governance)
            &&& (call.args@[1] matches CallArg::LoyaltyTiers(x) && x@ == a0@)
        },
        action matches GovernanceAction::Pool(PoolAction::SetPoolWithdrawalLimits(a0)) ==> {
            &&& call.entry_point@ == "set_withdrawal_limits_via_governance"@
            &&& call.args@.len() == 2
            &&& call.args@[0] == CallArg::Account(governance)
            &&& call.args@[1] == CallArg::U32(a0)
        },
        action matches GovernanceAction::Pool(PoolAction::SetPoolMaxWithdrawalQueueAge(a0)) ==> {
            &&& call.entry_point@ == "set_max_withdrawal_queue_age_via_governance"@
            &&& call.args@.len() == 2
            &&& call.args@[0] == CallArg::Account(governance)
            &&& call.args@[1] == CallArg::U32(a0)
        },
        action matches GovernanceAction::Pool(PoolAction::SetPoolMaxWithdrawalQueueDepth(a0)) ==> {
            &&& call.entry_point@ == "set_max_withdrawal_queue_depth_via_governance"@
            &&& call.args@.len() == 2
            &&& call.args@[0] == CallArg::Account(governance)
            &&& call.args@[1] == CallArg::U32(a0)
        },
        action matches GovernanceAction::Pool(PoolAction::SetPoolOracleContract(a0)) ==> {
            &&& call.entry_point@ == "set_oracle_contract_via_governance"@
            &&& call.args@.len() == 2
            &&& call.args@[0] == CallArg::Account(governance)
            &&& call.args@[1] == CallArg::Account(a0)
        },
        action matches GovernanceAction::Pool(PoolAction::SetPoolOracleStaleThreshold(a0)) ==> {
            &&& call.entry_point@ == "set_oracle_stale_threshold_via_governance"@
            &&& call.args@.len() == 2
            &&& call.args@[0] == CallArg::Account(governance)
            &&& call.args@[1] == CallArg::U64(a0)
        },
        action matches GovernanceAction::Pool(PoolAction::SetPoolFallbackPrice(a0, a1)) ==> {
            &&& call.entry_point@ == "set_fallback_price_via_governance"@
            &&& call.args@.len() == 3
            &&& call.args@[0] == CallArg::Account(governance)
            &&& call.args@[1] == CallArg::Account(a0)
            &&& call.args@[2] == CallArg::I128(a1)
        },
        action matches GovernanceAction::Pool(PoolAction::SetPoolRateBounds(a0, a1, a2)) ==> {
            &&& call.entry_point@ == "set_rate_bounds_via_governance"@
            &&& call.args@.len() == 4
            &&& call.args@[0] == CallArg::Account(governance)
            &&& call.args@[1] == CallArg::Account(a0)
            &&& call.args@[2] == CallArg::U32(a1)
            &&& call.args@[3] == CallArg::U32(a2)
        },
        action matches GovernanceAction::Pool(PoolAction::SetPoolExchangeRate(a0, a1)) ==> {
            &&& call.entry_point@ == "set_exchange_rate_via_governance"@
            &&& call.args@.len() == 3
            &&& call.args@[0] == CallArg::Account(governance)
            &&& call.args@[1] == CallArg::Account(a0)
            &&& call.args@[2] == CallArg::I128(a1)
        },
        action matches GovernanceAction::Pool(PoolAction::SetPoolComplianceRegistry(a0)) ==> {
            &&& call.entry_point@ == "set_compliance_registry_via_governance"@
            &&& call.args@.len() == 2
            &&& call.args@[0] == CallArg::Account(governance)
            &&& call.args@[1] == CallArg::Account(a0)
        },
        action matches GovernanceAction::Pool(PoolAction::SetPoolRequireComplianceCheck(a0)) ==> {
            &&& call.entry_point@ == "set_require_compliance_check_via_governance"@
            &&& call.args@.len() == 2
            &&& call.args@[0] == CallArg::Account(governance)
            &&& call.args@[1] == CallArg::Bool(a0)
        },
        action matches GovernanceAction::Pool(PoolAction::SetPoolReferralRegistry(a0)) ==> {
            &&& call.entry_point@ == "set_referral_registry_via_governance"@
            &&& call.args@.len() == 2
            &&& call.args@[0] == CallArg::Account(governance)
            &&& call.args@[1] == CallArg::Account(a0)
        },
        action matches GovernanceAction::Pool(PoolAction::SetPoolKycRequired(a0)) ==> {
            &&& call.entry_point@ == "set_kyc_required_via_governance"@
            &&& call.args@.len() == 2
            &&& call.args@[0] == CallArg::Account(governance)
            &&& call.args@[1] == CallArg::Bool(a0)
        },
        action matches GovernanceAction::Pool(PoolAction::SetPoolCreditScoreContract(a0)) ==> {
            &&& call.entry_point@ == "set_credit_score_contract_via_governance"@
            &&& call.args@.len() == 2
            &&& call.args@[0] == CallArg::Account(governance)
            &&& call.args@[1] == CallArg::Account(a0)
        },
        action matches GovernanceAction::Pool(PoolAction::SetPoolInsuranceContract(a0)) ==> {
            &&& call.entry_point@ == "set_insurance_contract_via_governance"@
            &&& call.args@.len() == 2
            &&& call.args@[0] == CallArg::Account(governance)
            &&& call.args@[1] == CallArg::Account(a0)
        },
        action matches GovernanceAction::Pool(PoolAction::SetPoolCompoundInterest(a0)) ==> {
            &&& call.entry_point@ == "set_compound_interest_via_governance"@
            &&& call.args@.len() == 2
            &&& call.args@[0] == CallArg::Account(governance)
            &&& call.args@[1] == CallArg::Bool(a0)
        },
        action matches GovernanceAction::Pool(PoolAction::SetPoolSecondaryMarketContract(a0)) ==> {
            &&& call.entry_point@ == "set_secondary_market_contract_via_governance"@
            &&& call.args@.len() == 2
            &&& call.args@[0] == CallArg::Account(governance)
            &&& call.args@[1] == CallArg::Account(a0)
        },
        action matches GovernanceAction::Pool(PoolAction::SetPoolRiskContract(a0)) ==> {
            &&& call.entry_point@ == "set_risk_contract_via_governance"@
            &&& call.args@.len() == 2
            &&& call.args@[0] == CallArg::Account(governance)
            &&& call.args@[1] == CallArg::Account(a0)
        },
        action matches GovernanceAction::Pool(PoolAction::SetPoolCollateralConfig(a0)) ==> {
            &&& call.entry_point@ == "set_collateral_config_via_governance"@
            &&& call.args@.len() == 2
            &&& call.args@[0] == CallArg::Account(governance)
            &&& call.args@[1] == CallArg::I128(a0)
        },
        action matches GovernanceAction::Pool(PoolAction::SetPoolUpgradeTimelock(a0)) ==> {
            &&& call.entry_point@ == "set_upgrade_timelock_via_governance"@
            &&& call.args@.len() == 2
            &&& call.args@[0] == CallArg::Account(governance)
            &&& call.args@[1] == CallArg::U64(a0)
        },
        action matches GovernanceAction::Pool(PoolAction::SetPoolOperationDelay(a0)) ==> {
            &&& call.entry_point@ == "set_operation_delay_via_governance"@
            &&& call.args@.len() == 2
            &&& call.args@[0] == CallArg::Account(governance)
            &&& call.args@[1] == CallArg::U64(a0)
        },
        action matches GovernanceAction::Invoice(InvoiceAction::SetInvoiceGracePeriod(a0)) ==> {
            &&& call.entry_point@ == "set_grace_period_via_governance"@
            &&& call.args@.len() == 2
            &&& call.args@[0] == CallArg::Account(governance)
            &&& call.args@[1] == CallArg::U32(a0)
        },
        action matches GovernanceAction::Invoice(InvoiceAction::SetInvoiceMinDueDateWindow(a0)) ==> {
            &&& call.entry_point@ == "set_min_due_date_window_via_governance"@
            &&& call.args@.len() == 2
            &&& call.args@[0] == CallArg::Account(governance)
            &&& call.args@[1] == CallArg::U64(a0)
        },
        action matches GovernanceAction::Invoice(InvoiceAction::SetInvoiceMaxAmount(a0)) ==> {
            &&& call.entry_point@ == "set_max_invoice_amount_via_governance"@
            &&& call.args@.len() == 2
            &&& call.args@[0] == CallArg::Account(governance)
            &&& call.args@[1] == CallArg::I128(a0)
        },
        action matches GovernanceAction::Invoice(InvoiceAction::SetInvoiceMaxSmeOutstanding(a0)) ==> {
            &&& call.entry_point@ == "set_max_sme_outstanding_via_governance"@
            &&& call.args@.len() == 2
            &&& call.args@[0] == CallArg::Account(governance)
            &&& call.args@[1] == CallArg::I128(a0)
        },
        action matches GovernanceAction::Invoice(InvoiceAction::SetInvoiceExpirationDuration(a0)) ==> {
            &&& call.entry_point@ == "set_expiration_duration_via_governance"@
            &&& call.args@.len() == 2
            &&& call.args@[0] == CallArg::Account(governance)
            &&& call.args@[1] == CallArg::U64(a0)
        },
        action matches GovernanceAction::Invoice(InvoiceAction::SetInvoiceCompletedTtl(a0)) ==> {
            &&& call.entry_point@ == "set_completed_invoice_ttl_via_governance"@
            &&& call.args@.len() == 2
            &&& call.args@[0] == CallArg::Account(governance)
            &&& call.args@[1] == CallArg::U32(a0)
        },
        action matches GovernanceAction::Invoice(InvoiceAction::SetInvoiceDailyLimit(a0)) ==> {
            &&& call.entry_point@ == "set_daily_invoice_limit_via_governance"@
            &&& call.args@.len() == 2
            &&& call.args@[0] == CallArg::Account(governance)
            &&& call.args@[1] == CallArg::U32(a0)
        },
        action matches GovernanceAction::Invoice(InvoiceAction::SetInvoiceDisputeWindow(a0)) ==> {
            &&& call.entry_point@ == "set_dispute_window_via_governance"@
            &&& call.args@.len() == 2
            &&& call.args@[0] == CallArg::Account(governance)
            &&& call.args@[1] == CallArg::U64(a0)
        },
        action matches GovernanceAction::Invoice(InvoiceAction::SetInvoiceOracle(a0)) ==> {
            &&& call.entry_point@ == "set_oracle_via_governance"@
            &&& call.args@.len() == 2
            &&& call.args@[0] == CallArg::Account(governance)
            &&& call.args@[1] == CallArg::Account(a0)
        },
        action matches GovernanceAction::Invoice(InvoiceAction::SetInvoiceSecondaryOracle(a0)) ==> {
            &&& call.entry_point@ == "set_secondary_oracle_via_governance"@
            &&& call.args@.len() == 2
            &&& call.args@[0] == CallArg::Account(governance)
            &&& call.args@[1] == CallArg::OptionalAccount(a0)
        },
        action matches GovernanceAction::Invoice(InvoiceAction::SetInvoiceOracleRegistry(a0)) ==> {
            &&& call.entry_point@ == "set_oracle_registry_via_governance"@
            &&& call.args@.len() == 2
            &&& call.args@[0] == CallArg::Account(governance)
            &&& call.args@[1] == CallArg::Account(a0)
        },
        action matches GovernanceAction::Invoice(InvoiceAction::SetInvoiceConsensusRequired(a0)) ==> {
            &&& call.entry_point@ == "set_consensus_required_via_governance"@
            &&& call.args@.len() == 2
            &&& call.args@[0] == CallArg::Account(governance)
            &&& call.args@[1] == CallArg::Bool(a0)
        },
        action matches GovernanceAction::Invoice(InvoiceAction::SetInvoiceComplianceRegistry(a0)) ==> {
            &&& call.entry_point@ == "set_compliance_registry_via_governance"@
            &&& call.args@.len() == 2
            &&& call.args@[0] == CallArg::Account(governance)
            &&& call.args@[1] == CallArg::Account(a0)
        },
        action matches GovernanceAction::Invoice(InvoiceAction::SetInvoiceRequireComplianceCheck(a0)) ==> {
            &&& call.entry_point@ == "set_require_compliance_check_via_governance"@
            &&& call.args@.len() == 2
            &&& call.args@[0] == CallArg::Account(governance)
            &&& call.args@[1] == CallArg::Bool(a0)
        },
        action matches GovernanceAction::Invoice(InvoiceAction::SetInvoiceRequireRegisteredDebtor(a0)) ==> {
            &&& call.entry_point@ == "set_require_registered_debtor_via_governance"@
            &&& call.args@.len() == 2
            &&& call.args@[0] == CallArg::Account(governance)
            &&& call.args@[1] == CallArg::Bool(a0)
        },
        action matches GovernanceAction::Invoice(InvoiceAction::SetInvoiceOracleVerifiedFundingOnly(a0)) ==> {
            &&& call.entry_point@ == "set_oracle_verified_funding_only_via_governance"@
            &&& call.args@.len() == 2
            &&& call.args@[0] == CallArg::Account(governance)
            &&& call.args@[1] == CallArg::Bool(a0)
        },
        action matches GovernanceAction::Invoice(InvoiceAction::SetInvoiceArbitrationContract(a0)) ==> {
            &&& call.entry_point@ == "set_arbitration_contract_via_governance"@
            &&& call.args@.len() == 2
            &&& call.args@[0] == CallArg::Account(governance)
            &&& call.args@[1] == CallArg::Account(a0)
        },
        action matches GovernanceAction::Invoice(InvoiceAction::SetInvoiceDisputeValueThreshold(a0)) ==> {
            &&& call.entry_point@ == "set_dispute_value_threshold_via_governance"@
            &&& call.args@.len() == 2
            &&& call.args@[0] == CallArg::Account(governance)
            &&& call.args@[1] == CallArg::I128(a0)
        },
        action matches GovernanceAction::Invoice(InvoiceAction::SetInvoiceMetadataImageUri(a0)) ==> {
            &&& call.entry_point@ == "set_metadata_image_uri_via_governance"@
            &&& call.args@.len() == 2
            &&& call.args@[0] == CallArg::Account(governance)
            &&& (call.args@[1] matches CallArg::Text(x) && x@ == a0@)
        },
        action matches GovernanceAction::OracleRegistry(OracleRegistryAction::SetOracleRegistryInvoiceContract(a0)) ==> {
            &&& call.entry_point@ == "set_invoice_contract_via_governance"@
            &&& call.args@.len() == 2
            &&& call.args@[0] == CallArg::Account(governance)
            &&& call.args@[1] == CallArg::Account(a0)
        },
        action matches GovernanceAction::OracleRegistry(OracleRegistryAction::SetOracleRegistryTreasury(a0)) ==> {
            &&& call.entry_point@ == "set_treasury_via_governance"@
            &&& call.args@.len() == 2
            &&& call.args@[0] == CallArg::Account(governance)
            &&& call.args@[1] == CallArg::OptionalAccount(a0)
        },
        action matches GovernanceAction::OracleRegistry(OracleRegistryAction::SetOracleRegistryConfig(a0, a1, a2, a3, a4)) ==> {
            &&& call.entry_point@ == "set_registry_config_via_governance"@
            &&& call.args@.len() == 6
            &&& call.args@[0] == CallArg::Account(governance)
            &&& call.args@[1] == CallArg::I128(a0)
            &&& call.args@[2] == CallArg::U32(a1)
            &&& call.args@[3] == CallArg::U32(a2)
            &&& call.args@[4] == CallArg::U64(a3)
            &&& call.args@[5] == CallArg::U64(a4)
        },
        action matches GovernanceAction::OracleRegistry(OracleRegistryAction::SetOracleRegistryQuorumTiers(a0)) ==> {
            &&& call.entry_point@ == "set_quorum_tiers_via_governance"@
            &&& call.args@.len() == 2
            &&& call.args@[0] == CallArg::Account(governance)
            &&& (call.args@[1] matches CallArg::QuorumTiers(x) && x@ == a0@)
        },
        action matches GovernanceAction::Compliance(ComplianceAction::SetComplianceRescreeningInterval(a0)) ==> {
            &&& call.entry_point@ == "set_rescreening_interval_via_governance"@
            &&& call.args@.len() == 2
            &&& call.args@[0] == CallArg::Account(governance)
            &&& call.args@[1] == CallArg::U64(a0)
        },
        action matches GovernanceAction::Compliance(ComplianceAction::SetComplianceScreenerTimelock(a0)) ==> {
            &&& call.entry_point@ == "set_screener_timelock_via_governance"@
            &&& call.args@.len() == 2
            &&& call.args@[0] == CallArg::Account(governance)
            &&& call.args@[1] == CallArg::U64(a0)
        },

{
    assert(same_args(call.args@, governance_call_args(governance, action)));
}

/// A delivered proposal authenticates as this governance contract: the
/// first argument of the setter call is the governance contract's own
/// address, and the remaining arguments are the action's fields.
pub proof fn law_delivery_carries_own_identity(
    call: TargetCall,
    governance: AccountId,
    target: AccountId,
    action: GovernanceAction,
)
    requires
        is_governance_call(call, governance, target, action),
    ensures
        call.args@.len() == 1 + governance_action_fields(action).len(),
        call.args@[0] == CallArg::Account(governance),
        call.target == target,
{
    assert(same_arg(call.args@[0], governance_call_args(governance, action)[0]));
}

/// A proposal passes only with its quorum met and its pass threshold
/// reached, both measured against what was fixed at its creation; counting
/// a vote never changes the snapshot supply, the quorum or the threshold.
pub proof fn law_pass_requires_quorum_and_threshold(p: Proposal)
    ensures
        finalized(p).status == ProposalStatus::Passed && p.status == ProposalStatus::Active ==> {
            &&& total_votes(p) >= quorum_votes(p)
            &&& pass_reached(p)
            &&& finalized(p).passed_at == p.voting_ends_at
        },
        finalized(p).snapshot_supply == p.snapshot_supply,
        finalized(p).quorum_bps == p.quorum_bps,
        finalized(p).pass_bps == p.pass_bps,
        finalized(p).votes_for == p.votes_for,
        finalized(p).votes_against == p.votes_against,
{
}

/// Voting and execution never both succeed at one instant: a vote is
/// accepted only before the voting end, execution only after it.
pub proof fn law_vote_and_execute_exclusive(
    g: Governance,
    proposal_id: u64,
    voter: AccountId,
    now: u64,
    weight: i128,
)
    requires
        g.wf(),
    ensures
        g.vote_check(proposal_id, voter, now, weight) is Ok ==> g.execute_outcome(
            proposal_id,
            now,
        ) is Err,
{
}

/// A proposal that has been executed, cancelled, expired or rejected stays
/// so: it cannot be voted on, executed or cancelled, and bringing it up to
/// date leaves it as it is.
pub proof fn law_finished_proposals_stay_finished(
    g: Governance,
    proposal_id: u64,
    caller: AccountId,
    now: u64,
    weight: i128,
)
    requires
        g.wf(),
        g.proposal_exists(proposal_id),
        g.proposal(proposal_id).status != ProposalStatus::Active,
        g.proposal(proposal_id).status != ProposalStatus::Passed,
    ensures
        g.vote_check(proposal_id, caller, now, weight) is Err,
        g.execute_outcome(proposal_id, now) is Err,
        g.cancel_check(proposal_id, caller) is Err,
        swept(g.proposal(proposal_id), now) == g.proposal(proposal_id),
{
}

/// An account votes at most once on a proposal: once its vote is recorded,
/// another vote from it is refused.
pub proof fn law_one_vote_per_account(
    g: Governance,
    proposal_id: u64,
    voter: AccountId,
    now: u64,
    weight: i128,
)
    requires
        g.wf(),
        g.has_voted(proposal_id, voter),
    ensures
        g.vote_check(proposal_id, voter, now, weight) is Err,
{
}

/// Execution happens only after the voting period and the execution delay
/// have passed, and within the expiry window of a passed proposal.
pub proof fn law_execution_window(g: Governance, proposal_id: u64, now: u64)
    requires
        g.wf(),
        g.execute_outcome(proposal_id, now) is Ok,
    ensures
        now > g.proposal(proposal_id).voting_ends_at,
        now >= saturating_add_u64_spec(
            g.proposal(proposal_id).voting_ends_at,
            g.config->Some_0.execution_delay_secs,
        ),
        finalized(g.proposal(proposal_id)).status == ProposalStatus::Passed,
        !expiry_due(finalized(g.proposal(proposal_id)), now),
{
}

} // verus!
