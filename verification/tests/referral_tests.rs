use astera_contracts::access_control::{AccessControlContract, ActionPayload, Role};
use astera_contracts::calls::{CallArg, TargetCall};
use astera_contracts::referral::{
    activity_kind, update_leaderboard, ActivityKind, LeaderboardEntry, ReferralContract,
    ReferralError, MAX_LEADERBOARD_SIZE,
};
use std::collections::HashMap;

/// A token ledger standing in for the host's token contracts.
#[derive(Default)]
struct Ledger {
    balances: HashMap<(u64, u64), i128>,
}

impl Ledger {
    fn mint(&mut self, token: u64, to: u64, amount: i128) {
        *self.balances.entry((token, to)).or_insert(0) += amount;
    }

    fn transfer(&mut self, token: u64, from: u64, to: u64, amount: i128) {
        let b = self.balances.entry((token, from)).or_insert(0);
        assert!(*b >= amount, "insufficient balance");
        *b -= amount;
        self.mint(token, to, amount);
    }

    fn balance(&self, token: u64, who: u64) -> i128 {
        *self.balances.get(&(token, who)).unwrap_or(&0)
    }
}

struct Fixture {
    client: ReferralContract,
    address: u64,
    admin: u64,
    pool: u64,
    token: u64,
    ledger: Ledger,
    next: u64,
}

impl Fixture {
    fn generate(&mut self) -> u64 {
        self.next += 1;
        self.next
    }

    fn record(&mut self, caller: u64, referee: u64, kind: &str, fee: i128) -> Result<i128, ReferralError> {
        let token = self.token;
        self.client.record_activity(caller, referee, kind.as_bytes(), fee, token)
    }

    /// Claims through the contract, then transfers what it reports.
    fn claim(&mut self, referrer: u64) -> Result<i128, ReferralError> {
        let balance = self.ledger.balance(self.token, self.address);
        let paid = self.client.claim_rewards(referrer, self.token, balance)?;
        if paid > 0 {
            let (token, address) = (self.token, self.address);
            self.ledger.transfer(token, address, referrer, paid);
        }
        Ok(paid)
    }
}

fn setup() -> Fixture {
    let mut client = ReferralContract::new();
    let (admin, pool) = (2, 3);
    client.initialize(admin, pool).unwrap();
    Fixture { client, address: 1, admin, pool, token: 4, ledger: Ledger::default(), next: 100 }
}

#[test]
fn test_initialize_requires_admin_authorization() {
    let mut client = ReferralContract::new();
    assert_eq!(client.get_pool(), Err(ReferralError::NotInitialized));
    client.initialize(2, 3).unwrap();
    assert_eq!(client.get_pool(), Ok(3));
    assert_eq!(client.initialize(2, 3), Err(ReferralError::AlreadyInitialized));
}

#[test]
fn test_register_sets_referrer() {
    let mut f = setup();
    let referee = f.generate();
    let referrer = f.generate();
    f.client.register(referee, referrer).unwrap();
    assert_eq!(f.client.get_referrer(referee), Some(referrer));
}

#[test]
fn test_register_rejects_self_referral() {
    let mut f = setup();
    let referee = f.generate();
    assert_eq!(f.client.register(referee, referee), Err(ReferralError::SelfReferral));
}

#[test]
fn test_register_cannot_change_referrer() {
    let mut f = setup();
    let referee = f.generate();
    let referrer_a = f.generate();
    let referrer_b = f.generate();
    f.client.register(referee, referrer_a).unwrap();
    assert_eq!(f.client.register(referee, referrer_b), Err(ReferralError::AlreadyRegistered));
    assert_eq!(f.client.get_referrer(referee), Some(referrer_a));
}

#[test]
fn test_record_activity_rejects_non_pool_caller() {
    let mut f = setup();
    let referee = f.generate();
    let referrer = f.generate();
    f.client.register(referee, referrer).unwrap();
    let attacker = f.generate();
    assert_eq!(f.record(attacker, referee, "borrow", 1_000), Err(ReferralError::Unauthorized));
}

#[test]
fn test_record_activity_no_referrer_returns_zero_reward() {
    let mut f = setup();
    let referee = f.generate();
    let pool = f.pool;
    assert_eq!(f.record(pool, referee, "borrow", 1_000), Ok(0));
}

#[test]
fn test_record_activity_requires_a_token_lifetime_cap() {
    let mut f = setup();
    let referee = f.generate();
    let referrer = f.generate();
    f.client.register(referee, referrer).unwrap();
    let pool = f.pool;
    assert_eq!(f.record(pool, referee, "borrow", 1_000_0000000), Ok(0));
    assert_eq!(f.client.get_stats(referrer).referral_count, 1);
}

#[test]
fn test_record_activity_activates_on_zero_fee_first_deposit() {
    let mut f = setup();
    let referee = f.generate();
    let referrer = f.generate();
    let (admin, token, pool) = (f.admin, f.token, f.pool);
    f.client.set_lifetime_reward_cap(admin, token, 60_0000000).unwrap();
    f.client.register(referee, referrer).unwrap();
    assert_eq!(f.record(pool, referee, "deposit", 0), Ok(0));
    assert_eq!(f.client.get_stats(referrer).referral_count, 1);
    assert_eq!(f.client.get_pending_reward(referrer, token), 0);
}

#[test]
fn test_record_activity_credits_borrow_reward_and_activates_once() {
    let mut f = setup();
    let referee = f.generate();
    let referrer = f.generate();
    let (admin, token, pool) = (f.admin, f.token, f.pool);
    f.client.set_lifetime_reward_cap(admin, token, 60_0000000).unwrap();
    f.client.register(referee, referrer).unwrap();

    assert_eq!(f.record(pool, referee, "borrow", 1_000_0000000), Ok(50_0000000));
    assert_eq!(f.client.get_stats(referrer).referral_count, 1);
    assert_eq!(f.client.get_pending_reward(referrer, token), 50_0000000);

    assert_eq!(f.record(pool, referee, "borrow", 200_0000000), Ok(10_0000000));
    assert_eq!(f.client.get_stats(referrer).referral_count, 1);
    assert_eq!(f.client.get_pending_reward(referrer, token), 60_0000000);
    assert_eq!(f.record(pool, referee, "borrow", 200_0000000), Ok(0));
}

#[test]
fn test_record_activity_uses_deposit_bps_for_deposit_kind() {
    let mut f = setup();
    let referee = f.generate();
    let referrer = f.generate();
    let (admin, token, pool) = (f.admin, f.token, f.pool);
    f.client.set_lifetime_reward_cap(admin, token, i128::MAX).unwrap();
    f.client.register(referee, referrer).unwrap();
    assert_eq!(f.record(pool, referee, "deposit", 500_0000000), Ok(50_0000000));
}

#[test]
fn test_admin_can_configure_reward_bps() {
    let mut f = setup();
    let referee = f.generate();
    let referrer = f.generate();
    let (admin, token, pool) = (f.admin, f.token, f.pool);
    f.client.set_lifetime_reward_cap(admin, token, i128::MAX).unwrap();
    f.client.register(referee, referrer).unwrap();
    f.client.set_borrow_reward_bps(admin, 1_000).unwrap();
    assert_eq!(f.client.get_borrow_reward_bps(), 1_000);
    assert_eq!(f.record(pool, referee, "borrow", 1_000_0000000), Ok(100_0000000));
}

#[test]
fn test_set_reward_bps_above_max_rejected() {
    let mut f = setup();
    let admin = f.admin;
    assert_eq!(f.client.set_borrow_reward_bps(admin, 10_001), Err(ReferralError::InvalidBps));
}

#[test]
fn test_claim_rewards_transfers_token_and_resets_pending() {
    let mut f = setup();
    let referee = f.generate();
    let referrer = f.generate();
    let (admin, token, pool, address) = (f.admin, f.token, f.pool, f.address);
    f.client.set_lifetime_reward_cap(admin, token, i128::MAX).unwrap();
    f.client.register(referee, referrer).unwrap();
    let reward = f.record(pool, referee, "borrow", 1_000_0000000).unwrap();
    f.ledger.mint(token, address, reward);

    assert_eq!(f.ledger.balance(token, referrer), 0);
    assert_eq!(f.claim(referrer), Ok(reward));
    assert_eq!(f.ledger.balance(token, referrer), reward);
    assert_eq!(f.client.get_pending_reward(referrer, token), 0);
    assert_eq!(f.claim(referrer), Ok(0));
}

#[test]
fn test_get_top_referrers_empty_by_default() {
    let f = setup();
    assert_eq!(f.client.get_top_referrers(0).len(), 0);
    assert_eq!(f.client.get_top_referrers(5).len(), 0);
}

/// Registers a fresh referee under `referrer` and activates it.
fn activate_new_referee(f: &mut Fixture, referrer: u64) {
    let referee = f.generate();
    f.client.register(referee, referrer).unwrap();
    let pool = f.pool;
    f.record(pool, referee, "deposit", 0).unwrap();
}

#[test]
fn test_get_top_referrers_ranks_by_referral_count_descending() {
    let mut f = setup();
    let referrer_a = f.generate();
    let referrer_b = f.generate();
    let referrer_c = f.generate();
    for _ in 0..3 {
        activate_new_referee(&mut f, referrer_a);
    }
    activate_new_referee(&mut f, referrer_b);
    for _ in 0..2 {
        activate_new_referee(&mut f, referrer_c);
    }
    let board = f.client.get_top_referrers(0);
    assert_eq!(board.len(), 3);
    assert_eq!(board[0].referrer, referrer_a);
    assert_eq!(board[0].referral_count, 3);
    assert_eq!(board[1].referrer, referrer_c);
    assert_eq!(board[1].referral_count, 2);
    assert_eq!(board[2].referrer, referrer_b);
    assert_eq!(board[2].referral_count, 1);
}

#[test]
fn test_get_top_referrers_respects_limit() {
    let mut f = setup();
    for _ in 0..4 {
        let referrer = f.generate();
        activate_new_referee(&mut f, referrer);
    }
    assert_eq!(f.client.get_top_referrers(2).len(), 2);
    assert_eq!(f.client.get_top_referrers(100).len(), 4);
}

#[test]
fn test_get_top_referrers_does_not_double_count_repeat_activity() {
    let mut f = setup();
    let referee = f.generate();
    let referrer = f.generate();
    f.client.register(referee, referrer).unwrap();
    let pool = f.pool;
    f.record(pool, referee, "borrow", 1_000_0000000).unwrap();
    f.record(pool, referee, "borrow", 500_0000000).unwrap();
    let board = f.client.get_top_referrers(0);
    assert_eq!(board.len(), 1);
    assert_eq!(board[0].referral_count, 1);
}

#[test]
fn test_get_top_referrers_evicts_lowest_when_full() {
    let mut f = setup();
    let mut referrers = Vec::new();
    for i in 0..25u32 {
        let referrer = f.generate();
        for _ in 0..=i {
            activate_new_referee(&mut f, referrer);
        }
        referrers.push(referrer);
    }
    assert_eq!(f.client.get_top_referrers(0).len(), 25);
    assert_eq!(f.client.get_top_referrers(0)[24].referral_count, 1);

    let challenger = f.generate();
    for _ in 0..2 {
        activate_new_referee(&mut f, challenger);
    }
    let board = f.client.get_top_referrers(0);
    assert_eq!(board.len(), 25);
    assert!(board.iter().any(|e| e.referrer == challenger), "challenger should be on the leaderboard");
    assert!(
        !board.iter().any(|e| e.referrer == referrers[0]),
        "lowest-ranked referrer (count 1) should have been evicted"
    );
}

#[test]
fn test_pause_blocks_register_and_claim() {
    let mut f = setup();
    let referee = f.generate();
    let referrer = f.generate();
    let (admin, token) = (f.admin, f.token);
    f.client.set_lifetime_reward_cap(admin, token, i128::MAX).unwrap();
    f.client.pause(admin).unwrap();
    assert_eq!(f.client.register(referee, referrer), Err(ReferralError::ContractPaused));
    assert_eq!(f.claim(referrer), Err(ReferralError::ContractPaused));
}

#[test]
fn test_register_rejects_two_party_referral_cycle() {
    let mut f = setup();
    let party_a = f.generate();
    let party_b = f.generate();
    f.client.register(party_a, party_b).unwrap();
    assert_eq!(f.client.register(party_b, party_a), Err(ReferralError::ReferralCycle));
    assert_eq!(f.client.get_referrer(party_a), Some(party_b));
    assert_eq!(f.client.get_referrer(party_b), None);
}

#[test]
fn test_record_activity_rejects_unrecognised_kind() {
    let mut f = setup();
    let referee = f.generate();
    let referrer = f.generate();
    let (admin, token, pool) = (f.admin, f.token, f.pool);
    f.client.set_lifetime_reward_cap(admin, token, i128::MAX).unwrap();
    f.client.register(referee, referrer).unwrap();
    assert_eq!(
        f.record(pool, referee, "unknown", 1_000_0000000),
        Err(ReferralError::InvalidActivityKind)
    );
}

// ── multisig access-control path ──────────────────────────────────────────

#[test]
fn test_legacy_admin_pause_unpause_still_work_unmodified() {
    let mut f = setup();
    let admin = f.admin;
    f.client.pause(admin).unwrap();
    assert!(f.client.is_paused());
    f.client.unpause(admin).unwrap();
    assert!(!f.client.is_paused());
}

#[test]
fn access_control_tests_test_via_ac_entrypoint_rejected_when_access_control_not_configured() {
    let mut f = setup();
    let someone = f.generate();
    assert_eq!(
        f.client.set_paused_via_ac(someone, true),
        Err(ReferralError::AccessControlNotConfigured)
    );
}

#[test]
fn access_control_tests_test_via_ac_entrypoint_rejected_from_a_non_matching_address() {
    let mut f = setup();
    let access_control = f.generate();
    let admin = f.admin;
    f.client.set_access_control(admin, access_control).unwrap();
    let impostor = f.generate();
    assert_eq!(f.client.set_paused_via_ac(impostor, true), Err(ReferralError::Unauthorized));
    assert!(!f.client.is_paused());
}

#[test]
fn access_control_tests_test_via_ac_entrypoints_apply_the_same_effects_as_their_legacy_admin_counterparts() {
    let mut f = setup();
    let access_control = f.generate();
    let admin = f.admin;
    f.client.set_access_control(admin, access_control).unwrap();

    f.client.set_paused_via_ac(access_control, true).unwrap();
    assert!(f.client.is_paused());
    f.client.set_paused_via_ac(access_control, false).unwrap();
    assert!(!f.client.is_paused());

    let new_pool = f.generate();
    f.client.set_pool_via_ac(access_control, new_pool).unwrap();
    assert_eq!(f.client.get_pool(), Ok(new_pool));

    f.client.set_borrow_reward_bps_via_ac(access_control, 750).unwrap();
    assert_eq!(f.client.get_borrow_reward_bps(), 750);
    f.client.set_deposit_reward_bps_via_ac(access_control, 1_500).unwrap();
    assert_eq!(f.client.get_deposit_reward_bps(), 1_500);

    let new_ac = f.generate();
    f.client.set_access_control_via_ac(access_control, new_ac).unwrap();
    assert_eq!(f.client.get_access_control(), Some(new_ac));
}

/// Runs a call of the access-control contract on the referral contract, as
/// the host does: the first argument is the authorising origin.
fn deliver(client: &mut ReferralContract, call: &TargetCall) {
    let origin = match call.args[0] {
        CallArg::Account(a) => a,
        _ => panic!("a call starts with its origin"),
    };
    match (call.entry_point, &call.args[1..]) {
        ("set_paused_via_ac", [CallArg::Bool(p)]) => client.set_paused_via_ac(origin, *p).unwrap(),
        ("set_pool_via_ac", [CallArg::Account(p)]) => client.set_pool_via_ac(origin, *p).unwrap(),
        ("set_borrow_reward_bps_via_ac", [CallArg::U32(b)]) => client.set_borrow_reward_bps_via_ac(origin, *b).unwrap(),
        ("set_deposit_reward_bps_via_ac", [CallArg::U32(b)]) => client.set_deposit_reward_bps_via_ac(origin, *b).unwrap(),
        ("set_access_control_via_ac", [CallArg::Account(a)]) => client.set_access_control_via_ac(origin, *a).unwrap(),
        _ => panic!("not a referral entry point"),
    }
}

#[test]
fn test_real_access_control_contract_2_of_3_treasury_manager_changes_real_referral_bps() {
    let mut f = setup();
    let ac_id = 600;
    let mut ac = AccessControlContract::new(ac_id);
    let (super1, super2) = (601, 602);
    ac.initialize(vec![super1, super2], 2, 604_800).unwrap();
    let admin = f.admin;
    f.client.set_access_control(admin, ac_id).unwrap();
    let now = 1_000_000;
    for signer in [701u64, 702, 703] {
        let add = ac
            .propose_action(Role::SuperAdmin, super1, ac_id, ActionPayload::AddSigner(Role::TreasuryManager, signer), now)
            .unwrap();
        ac.approve_action(super2, add, now).unwrap();
        ac.execute_action(super1, add, now).unwrap();
    }
    let set_threshold = ac
        .propose_action(Role::SuperAdmin, super1, ac_id, ActionPayload::SetThreshold(Role::TreasuryManager, 2), now)
        .unwrap();
    ac.approve_action(super2, set_threshold, now).unwrap();
    ac.execute_action(super1, set_threshold, now).unwrap();

    let id = ac
        .propose_action(Role::TreasuryManager, 701, f.address, ActionPayload::SetBorrowRewardBps(900), now)
        .unwrap();
    assert!(ac.execute_action(701, id, now).is_err());
    assert_eq!(f.client.get_borrow_reward_bps(), 500);

    ac.approve_action(702, id, now).unwrap();
    let call = ac.execute_action(701, id, now).unwrap().unwrap();
    assert_eq!(call.target, f.address);
    assert_eq!(call.args[0], CallArg::Account(ac_id));
    deliver(&mut f.client, &call);
    assert_eq!(f.client.get_borrow_reward_bps(), 900);
}

// ── further cases ─────────────────────────────────────────────────────────

#[test]
fn test_activity_kind_reads_symbols() {
    assert_eq!(activity_kind(b"borrow"), ActivityKind::Borrow);
    assert_eq!(activity_kind(b"deposit"), ActivityKind::Deposit);
    assert_eq!(activity_kind(b"deposits"), ActivityKind::Unknown);
    assert_eq!(activity_kind(b""), ActivityKind::Unknown);
}

#[test]
fn test_reward_is_clamped_to_the_remaining_lifetime_cap() {
    let mut f = setup();
    let referee = f.generate();
    let referrer = f.generate();
    let (admin, token, pool) = (f.admin, f.token, f.pool);
    f.client.set_lifetime_reward_cap(admin, token, 70).unwrap();
    f.client.register(referee, referrer).unwrap();
    // 5% of 1_000 is 50; then 5% of 1_000 again would be 50 but only 20
    // remain under the cap.
    assert_eq!(f.record(pool, referee, "borrow", 1_000), Ok(50));
    assert_eq!(f.record(pool, referee, "borrow", 1_000), Ok(20));
    assert_eq!(f.record(pool, referee, "borrow", 1_000), Ok(0));
    assert_eq!(f.client.get_pending_reward(referrer, token), 70);
}

#[test]
fn test_claim_pays_at_most_the_contract_balance() {
    let mut f = setup();
    let referee = f.generate();
    let referrer = f.generate();
    let (admin, token, pool, address) = (f.admin, f.token, f.pool, f.address);
    f.client.set_lifetime_reward_cap(admin, token, i128::MAX).unwrap();
    f.client.register(referee, referrer).unwrap();
    assert_eq!(f.record(pool, referee, "deposit", 1_000), Ok(100));
    f.ledger.mint(token, address, 30);
    assert_eq!(f.claim(referrer), Ok(30));
    assert_eq!(f.client.get_pending_reward(referrer, token), 70);
    f.ledger.mint(token, address, 100);
    assert_eq!(f.claim(referrer), Ok(70));
    assert_eq!(f.client.get_pending_reward(referrer, token), 0);
}

#[test]
fn test_admin_only_setters_reject_others() {
    let mut f = setup();
    let stranger = f.generate();
    assert_eq!(f.client.pause(stranger), Err(ReferralError::Unauthorized));
    assert_eq!(f.client.set_pool(stranger, 9), Err(ReferralError::Unauthorized));
    assert_eq!(f.client.set_deposit_reward_bps(stranger, 9), Err(ReferralError::Unauthorized));
    let admin = f.admin;
    f.client.set_pool(admin, 9).unwrap();
    assert_eq!(f.client.get_pool(), Ok(9));
    f.client.set_deposit_reward_bps(admin, 2_000).unwrap();
    assert_eq!(f.client.get_deposit_reward_bps(), 2_000);
    assert_eq!(ReferralError::InvalidActivityKind.code(), 8);
}

#[test]
fn test_update_leaderboard_keeps_sorted_bounded_rows() {
    let mut board: Vec<LeaderboardEntry> = Vec::new();
    update_leaderboard(&mut board, 1, 1);
    update_leaderboard(&mut board, 2, 3);
    update_leaderboard(&mut board, 1, 2);
    assert_eq!(
        board,
        vec![
            LeaderboardEntry { referrer: 2, referral_count: 3 },
            LeaderboardEntry { referrer: 1, referral_count: 2 },
        ]
    );
    for r in 10..40u64 {
        update_leaderboard(&mut board, r, 1);
    }
    assert_eq!(board.len() as u32, MAX_LEADERBOARD_SIZE);
}

#[test]
fn test_activation_counts_once_over_many_activities() {
    let mut f = setup();
    let referee = f.generate();
    let referrer = f.generate();
    let stranger = f.generate();
    let (admin, token, pool) = (f.admin, f.token, f.pool);
    f.client.set_lifetime_reward_cap(admin, token, i128::MAX).unwrap();
    f.client.register(referee, referrer).unwrap();
    for fee in [0i128, 1_000, 0, 5_000] {
        f.record(pool, referee, "deposit", fee).unwrap();
    }
    assert_eq!(f.client.get_stats(referrer).referral_count, 1);
    assert!(f.client.is_activated(referee));
    // A referee without a referrer is never activated and earns nothing.
    assert_eq!(f.record(pool, stranger, "borrow", 1_000), Ok(0));
    assert!(!f.client.is_activated(stranger));
}
