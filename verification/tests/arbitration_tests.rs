use astera_contracts::arbitration::{
    commit_hash_of, vote_preimage, ArbitrationContract, ArbitrationError, CaseStatus,
    DisputeResolution, PartyRole, DEFAULT_COMMIT_WINDOW_SECS, DEFAULT_DEREGISTER_COOLDOWN_SECS,
    DEFAULT_EVIDENCE_WINDOW_SECS, DEFAULT_REVEAL_WINDOW_SECS, MAX_EVIDENCE_ENTRIES,
    MAX_EVIDENCE_HASH_LEN,
};
use soroban_sdk::Env;

const ADMIN: u64 = 1;
const INVOICE: u64 = 2;
const STAKE_TOKEN: u64 = 3;
const CLAIMANT: u64 = 20;
const RESPONDENT: u64 = 21;
const JURORS: [u64; 5] = [11, 12, 13, 14, 15];
const T0: u64 = 1_000;

fn salt(seed: u8) -> [u8; 32] {
    let mut s = [0u8; 32];
    for (i, b) in s.iter_mut().enumerate() {
        *b = seed.wrapping_add(i as u8);
    }
    s
}

/// An initialized contract with five jurors staking 1_000 each and one open
/// case (id 0, invoice 77).
fn setup() -> ArbitrationContract {
    let mut c = ArbitrationContract::new();
    c.initialize(ADMIN, INVOICE, STAKE_TOKEN, 100).unwrap();
    for j in JURORS {
        c.register_juror(j, 1_000, 0).unwrap();
    }
    assert_eq!(c.open_case(INVOICE, 77, CLAIMANT, RESPONDENT, 5_000, T0), Ok(0));
    c
}

fn evidence_closed() -> u64 {
    T0 + DEFAULT_EVIDENCE_WINDOW_SECS + 1
}

/// Draws the committee (the pool, reversed, stands for the host's shuffle).
fn draw(c: &mut ArbitrationContract, now: u64) {
    let mut shuffled = c.active_pool();
    shuffled.reverse();
    c.select_jurors(0, now, shuffled).unwrap();
}

#[test]
fn test_commitment_is_sha256_of_vote_byte_and_salt() {
    let env = Env::default();
    let expected: [u8; 32] = [
        26, 125, 253, 234, 255, 238, 218, 196, 137, 40, 126, 133, 190, 94, 156, 4, 154, 47, 246,
        71, 15, 85, 207, 48, 38, 15, 85, 57, 90, 193, 177, 89,
    ];
    assert_eq!(commit_hash_of(&env, true, &[0u8; 32]), expected);
    assert_ne!(commit_hash_of(&env, false, &[0u8; 32]), expected);
    let pre = vote_preimage(true, &salt(7));
    assert_eq!(pre.len(), 33);
    assert_eq!(pre[0], 1);
    assert_eq!(&pre[1..], &salt(7));
}

#[test]
fn test_initialize_and_config() {
    let mut c = ArbitrationContract::new();
    assert_eq!(c.get_config(), Err(ArbitrationError::NotInitialized));
    assert_eq!(c.initialize(ADMIN, INVOICE, STAKE_TOKEN, 0), Err(ArbitrationError::InvalidAmount));
    c.initialize(ADMIN, INVOICE, STAKE_TOKEN, 100).unwrap();
    assert_eq!(c.initialize(ADMIN, INVOICE, STAKE_TOKEN, 100), Err(ArbitrationError::AlreadyInitialized));
    let cfg = c.get_config().unwrap();
    assert_eq!((cfg.min_stake, cfg.stake_token, cfg.committee_size, cfg.quorum_floor), (100, STAKE_TOKEN, 5, 3));
    assert_eq!(c.get_invoice_contract(), Some(INVOICE));

    let mut bad = cfg;
    bad.quorum_floor = 6;
    assert_eq!(c.set_config(ADMIN, bad), Err(ArbitrationError::InvalidConfig));
    assert_eq!(c.set_config(9, cfg), Err(ArbitrationError::Unauthorized));
    let mut next = cfg;
    next.stake_token = 99;
    next.committee_size = 3;
    c.set_config(ADMIN, next).unwrap();
    let got = c.get_config().unwrap();
    assert_eq!((got.committee_size, got.stake_token), (3, STAKE_TOKEN));
}

#[test]
fn test_pause_blocks_entry_points() {
    let mut c = setup();
    assert_eq!(c.pause(9), Err(ArbitrationError::Unauthorized));
    c.pause(ADMIN).unwrap();
    assert!(c.is_paused());
    assert_eq!(c.register_juror(30, 1_000, 0), Err(ArbitrationError::ContractPaused));
    assert_eq!(
        c.open_case(INVOICE, 78, CLAIMANT, RESPONDENT, 1, T0),
        Err(ArbitrationError::ContractPaused)
    );
    c.unpause(ADMIN).unwrap();
    assert!(!c.is_paused());
}

#[test]
fn test_register_rules() {
    let mut c = setup();
    assert_eq!(c.register_juror(30, 99, 0), Err(ArbitrationError::InsufficientStake));
    assert_eq!(c.register_juror(11, 1_000, 0), Err(ArbitrationError::AlreadyRegistered));
    c.register_juror(30, 100, 5).unwrap();
    let j = c.get_juror(30).unwrap();
    assert_eq!((j.stake_amount, j.stake_token, j.is_active, j.registered_at), (100, STAKE_TOKEN, true, 5));
    assert_eq!(c.list_active_jurors().len(), 6);
}

#[test]
fn test_open_case_rules() {
    let mut c = setup();
    assert_eq!(c.open_case(9, 78, CLAIMANT, RESPONDENT, 1, T0), Err(ArbitrationError::Unauthorized));
    assert_eq!(c.open_case(INVOICE, 78, CLAIMANT, RESPONDENT, 0, T0), Err(ArbitrationError::InvalidAmount));
    assert_eq!(
        c.open_case(INVOICE, 78, CLAIMANT, CLAIMANT, 1, T0),
        Err(ArbitrationError::ClaimantCannotBeRespondent)
    );
    let case = c.get_case(0).unwrap();
    assert_eq!(case.status, CaseStatus::EvidenceWindow);
    assert_eq!(case.resolution, DisputeResolution::Pending);
    assert_eq!(case.evidence_deadline, T0 + DEFAULT_EVIDENCE_WINDOW_SECS);
    assert_eq!(c.get_case_by_invoice(77).unwrap().id, 0);
    assert!(c.get_case_by_invoice(78).is_none());

    let mut fresh = ArbitrationContract::new();
    assert_eq!(
        fresh.open_case(INVOICE, 1, CLAIMANT, RESPONDENT, 1, T0),
        Err(ArbitrationError::InvoiceContractNotSet)
    );
}

#[test]
fn test_evidence_parties_window_and_limits() {
    let mut c = setup();
    c.submit_evidence(0, CLAIMANT, "ipfs://claim".to_string(), T0 + 1).unwrap();
    c.submit_evidence(0, RESPONDENT, "ipfs://answer".to_string(), T0 + 2).unwrap();
    let ev = c.get_evidence(0).unwrap();
    assert_eq!(ev.len(), 2);
    assert_eq!(ev[0].party, PartyRole::Claimant);
    assert_eq!(ev[1].party, PartyRole::Respondent);
    assert_eq!(ev[1].evidence_hash, "ipfs://answer");

    assert_eq!(c.submit_evidence(0, 99, "x".to_string(), T0), Err(ArbitrationError::InvalidParty));
    let long = "a".repeat(MAX_EVIDENCE_HASH_LEN + 1);
    assert_eq!(c.submit_evidence(0, CLAIMANT, long, T0), Err(ArbitrationError::EvidenceHashTooLong));
    assert_eq!(
        c.submit_evidence(0, CLAIMANT, "x".to_string(), evidence_closed()),
        Err(ArbitrationError::WindowClosed)
    );
    for _ in 2..MAX_EVIDENCE_ENTRIES {
        c.submit_evidence(0, CLAIMANT, "x".to_string(), T0).unwrap();
    }
    assert_eq!(
        c.submit_evidence(0, RESPONDENT, "y".to_string(), T0),
        Err(ArbitrationError::EvidenceLimitReached)
    );
    assert_eq!(c.submit_evidence(5, CLAIMANT, "x".to_string(), T0), Err(ArbitrationError::CaseNotFound));
}

#[test]
fn test_selection_opens_commit_and_reveal_windows() {
    let mut c = setup();
    assert_eq!(c.select_jurors(0, T0 + 1, c.active_pool()), Err(ArbitrationError::WindowNotClosed));
    let now = evidence_closed();
    draw(&mut c, now);
    let case = c.get_case(0).unwrap();
    assert_eq!(case.status, CaseStatus::CommitReveal);
    assert_eq!(case.jurors, vec![15, 14, 13, 12, 11]);
    assert_eq!(case.commit_deadline, now + DEFAULT_COMMIT_WINDOW_SECS);
    assert_eq!(case.reveal_deadline, now + DEFAULT_COMMIT_WINDOW_SECS + DEFAULT_REVEAL_WINDOW_SECS);
    assert_eq!(case.retry_count, 1);
    assert_eq!(c.get_juror_cases(12), vec![0]);
    assert_eq!(c.list_cases_by_status(CaseStatus::CommitReveal), vec![0]);
    let slot = c.get_vote(0, 12).unwrap();
    assert!(slot.commit_hash.is_none() && slot.revealed_vote.is_none());
    assert_eq!(c.select_jurors(0, now, c.active_pool()), Err(ArbitrationError::InvalidCaseStatus));
}

#[test]
fn test_selection_needs_enough_eligible_jurors() {
    let mut c = ArbitrationContract::new();
    c.initialize(ADMIN, INVOICE, STAKE_TOKEN, 100).unwrap();
    for j in [11, 12, 13, 14] {
        c.register_juror(j, 1_000, 0).unwrap();
    }
    c.open_case(INVOICE, 77, CLAIMANT, RESPONDENT, 5_000, T0).unwrap();
    let pool = c.active_pool();
    assert_eq!(c.select_jurors(0, evidence_closed(), pool), Err(ArbitrationError::NotEnoughActiveJurors));
}

/// Runs a case to the end of its reveal window: jurors 11, 12 and 13 vote
/// for the debtor, 14 for the SME, 15 never commits.
fn voted_case(env: &Env) -> (ArbitrationContract, u64) {
    let mut c = setup();
    let t_select = evidence_closed();
    draw(&mut c, t_select);
    let choices = [(11u64, true), (12, true), (13, true), (14, false)];
    for (j, v) in choices {
        let h = commit_hash_of(env, v, &salt(j as u8));
        c.commit_vote(0, j, h, t_select + 1).unwrap();
    }
    let t_reveal = t_select + DEFAULT_COMMIT_WINDOW_SECS + 1;
    for (j, v) in choices {
        c.reveal_vote(env, 0, j, v, salt(j as u8), t_reveal).unwrap();
    }
    (c, t_select + DEFAULT_COMMIT_WINDOW_SECS + DEFAULT_REVEAL_WINDOW_SECS + 1)
}

#[test]
fn test_commit_and_reveal_rules() {
    let env = Env::default();
    let mut c = setup();
    let t = evidence_closed();
    draw(&mut c, t);
    let h = commit_hash_of(&env, true, &salt(1));
    assert_eq!(c.commit_vote(0, 99, h, t), Err(ArbitrationError::NotSelectedJuror));
    c.commit_vote(0, 11, h, t).unwrap();
    assert_eq!(c.commit_vote(0, 11, h, t), Err(ArbitrationError::AlreadyCommitted));
    assert_eq!(c.get_vote(0, 11).unwrap().commit_hash, Some(h));

    assert_eq!(c.reveal_vote(&env, 0, 11, true, salt(1), t), Err(ArbitrationError::WindowNotClosed));
    let t_reveal = t + DEFAULT_COMMIT_WINDOW_SECS + 1;
    assert_eq!(
        c.commit_vote(0, 12, h, t_reveal),
        Err(ArbitrationError::WindowClosed)
    );
    assert_eq!(c.reveal_vote(&env, 0, 12, true, salt(1), t_reveal), Err(ArbitrationError::NotCommitted));
    assert_eq!(c.reveal_vote(&env, 0, 11, false, salt(1), t_reveal), Err(ArbitrationError::RevealMismatch));
    assert_eq!(c.reveal_vote(&env, 0, 11, true, salt(2), t_reveal), Err(ArbitrationError::RevealMismatch));
    c.reveal_vote(&env, 0, 11, true, salt(1), t_reveal).unwrap();
    assert_eq!(c.get_vote(0, 11).unwrap().revealed_vote, Some(true));
    assert_eq!(c.reveal_vote(&env, 0, 11, true, salt(1), t_reveal), Err(ArbitrationError::AlreadyRevealed));
}

#[test]
fn test_finalize_lopsided_vote_slashes_and_rewards() {
    let env = Env::default();
    let (mut c, t_final) = voted_case(&env);
    assert_eq!(c.finalize_case(0, t_final - 1), Err(ArbitrationError::WindowNotClosed));
    assert_eq!(c.finalize_case(0, t_final), Ok(Some((77, DisputeResolution::InFavorOfDebtor))));

    // Non-revealer 15 loses 3% (30); minority 14 loses 10% (100); the 130
    // slashed are shared pro rata among the majority's 3_000 staked.
    let j15 = c.get_juror(15).unwrap();
    assert_eq!((j15.stake_amount, j15.times_slashed, j15.non_reveal_strikes), (970, 1, 1));
    let j14 = c.get_juror(14).unwrap();
    assert_eq!((j14.stake_amount, j14.times_slashed, j14.cases_served), (900, 1, 0));
    for j in [11, 12, 13] {
        let info = c.get_juror(j).unwrap();
        assert_eq!((info.stake_amount, info.cases_served, info.times_slashed), (1_043, 1, 0));
    }
    let case = c.get_case(0).unwrap();
    assert_eq!(case.status, CaseStatus::Resolved);
    assert_eq!(case.resolution, DisputeResolution::InFavorOfDebtor);

    let agg = c.get_aggregate_juror_stats();
    assert_eq!(agg.total_jurors, 5);
    assert_eq!(agg.total_stake, 970 + 900 + 3 * 1_043);
    assert_eq!(agg.total_slashes, 2);
    assert_eq!(agg.total_non_reveal_strikes, 1);
    assert_eq!(agg.total_cases_served, 3);
    // Settlement moves stake between jurors and never creates any.
    assert!(agg.total_stake <= 5 * 1_000);
    assert_eq!(c.get_all_juror_stats().len(), 5);
    assert_eq!(c.finalize_case(0, t_final), Err(ArbitrationError::InvalidCaseStatus));
}

#[test]
fn test_finalize_without_quorum_escalates_then_admin_decides() {
    let env = Env::default();
    let mut c = setup();
    let t_select = evidence_closed();
    draw(&mut c, t_select);
    let h = commit_hash_of(&env, false, &salt(3));
    c.commit_vote(0, 11, h, t_select).unwrap();
    let t_end = t_select + DEFAULT_COMMIT_WINDOW_SECS + DEFAULT_REVEAL_WINDOW_SECS + 1;
    c.reveal_vote(&env, 0, 11, false, salt(3), t_end - 1).unwrap();
    assert_eq!(c.finalize_case(0, t_end), Ok(None));
    assert_eq!(c.get_case(0).unwrap().status, CaseStatus::NoQuorumEscalated);
    // Every non-revealer is slashed 3% even without quorum.
    assert_eq!(c.get_juror(12).unwrap().stake_amount, 970);
    assert_eq!(c.get_juror(11).unwrap().stake_amount, 1_000);

    // One re-draw remains, so the admin must wait.
    assert_eq!(
        c.admin_resolve_no_quorum(ADMIN, 0, DisputeResolution::InFavorOfSME),
        Err(ArbitrationError::RetriesNotExhausted)
    );
    draw(&mut c, t_end);
    assert_eq!(c.get_case(0).unwrap().retry_count, 2);
    let t_end2 = t_end + DEFAULT_COMMIT_WINDOW_SECS + DEFAULT_REVEAL_WINDOW_SECS + 1;
    assert_eq!(c.finalize_case(0, t_end2), Ok(None));
    let pool = c.active_pool();
    assert_eq!(c.select_jurors(0, t_end2, pool), Err(ArbitrationError::RetriesExhausted));
    assert_eq!(
        c.admin_resolve_no_quorum(9, 0, DisputeResolution::InFavorOfSME),
        Err(ArbitrationError::Unauthorized)
    );
    assert_eq!(
        c.admin_resolve_no_quorum(ADMIN, 0, DisputeResolution::Pending),
        Err(ArbitrationError::InvalidConfig)
    );
    assert_eq!(
        c.admin_resolve_no_quorum(ADMIN, 0, DisputeResolution::InFavorOfSME),
        Ok((77, DisputeResolution::InFavorOfSME))
    );
    assert_eq!(c.get_case(0).unwrap().status, CaseStatus::Resolved);
}

#[test]
fn test_tie_favours_the_sme_and_is_not_lopsided() {
    let env = Env::default();
    let mut c = setup();
    let t_select = evidence_closed();
    draw(&mut c, t_select);
    let choices = [(11u64, true), (12, true), (13, false), (14, false)];
    for (j, v) in choices {
        c.commit_vote(0, j, commit_hash_of(&env, v, &salt(j as u8)), t_select).unwrap();
    }
    let t_reveal = t_select + DEFAULT_COMMIT_WINDOW_SECS + 1;
    for (j, v) in choices {
        c.reveal_vote(&env, 0, j, v, salt(j as u8), t_reveal).unwrap();
    }
    let t_end = t_select + DEFAULT_COMMIT_WINDOW_SECS + DEFAULT_REVEAL_WINDOW_SECS + 1;
    assert_eq!(c.finalize_case(0, t_end), Ok(Some((77, DisputeResolution::InFavorOfSME))));
    // 2 of 4 is not lopsided: the losing side keeps its stake; the SME side
    // shares the non-revealer's 30.
    assert_eq!(c.get_juror(11).unwrap().stake_amount, 1_000);
    assert_eq!(c.get_juror(13).unwrap().stake_amount, 1_015);
    assert_eq!(c.get_juror(15).unwrap().stake_amount, 970);
}

#[test]
fn test_deregistration_is_two_phase_and_waits_for_open_cases() {
    let mut c = setup();
    draw(&mut c, evidence_closed());
    assert_eq!(c.deregister_juror(11, 0), Err(ArbitrationError::DeregisterHasPendingCases));
    assert_eq!(c.deregister_juror(99, 0), Err(ArbitrationError::NotRegistered));

    c.register_juror(30, 500, 0).unwrap();
    assert_eq!(c.deregister_juror(30, 10), Ok(None));
    let j = c.get_juror(30).unwrap();
    assert!(!j.is_active);
    assert_eq!(j.deregister_requested_at, Some(10));
    assert!(!c.active_pool().contains(&30));
    assert_eq!(
        c.deregister_juror(30, 10 + DEFAULT_DEREGISTER_COOLDOWN_SECS - 1),
        Err(ArbitrationError::DeregisterCooldownActive)
    );
    assert_eq!(c.deregister_juror(30, 10 + DEFAULT_DEREGISTER_COOLDOWN_SECS), Ok(Some(500)));
    assert!(c.get_juror(30).is_none());
    assert_eq!(ArbitrationError::EvidenceLimitReached.code(), 29);
}
