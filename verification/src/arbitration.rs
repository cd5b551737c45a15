//! Juror arbitration of high-value invoice disputes: staked jurors register,
//! a committee is drawn for each case once its evidence window closes, the
//! committee commits and then reveals its votes, and finalization settles
//! the case by majority, slashing non-revealers and (on a lopsided vote) the
//! minority in favour of the majority. A case without reveal quorum gets a
//! re-draw, then falls back to the admin.
use vstd::prelude::*;
use vstd::utf8::encode_utf8;
use crate::arith::{saturating_add_u64, saturating_add_u64_spec};
use crate::assoc::{
    assoc_find, assoc_get, assoc_insert, assoc_remove, assoc_view, key_index, keys_distinct, lemma_assoc_empty,
    lemma_assoc_entry, AccountId,
};

verus! {

pub const MAX_BPS: u32 = 10_000;
pub const DEFAULT_COMMITTEE_SIZE: u32 = 5;
pub const DEFAULT_QUORUM_FLOOR: u32 = 3;
/// Three days.
pub const DEFAULT_EVIDENCE_WINDOW_SECS: u64 = 259_200;
/// Two days.
pub const DEFAULT_COMMIT_WINDOW_SECS: u64 = 172_800;
/// Two days.
pub const DEFAULT_REVEAL_WINDOW_SECS: u64 = 172_800;
/// Seven days.
pub const DEFAULT_DEREGISTER_COOLDOWN_SECS: u64 = 604_800;
/// Slash of a minority juror on a lopsided vote (10% of stake).
pub const DEFAULT_SLASH_BPS: u32 = 1_000;
/// Slash of a juror who committed but did not reveal (3% of stake).
pub const DEFAULT_NON_REVEAL_SLASH_BPS: u32 = 300;
/// Share of revealed votes the winning side needs for the minority to be
/// slashed (two thirds).
pub const DEFAULT_LOPSIDED_CONFIDENCE_BPS: u32 = 6_600;
/// Committee re-draws allowed after the first draw.
pub const DEFAULT_MAX_RETRIES: u32 = 1;
pub const MAX_EVIDENCE_ENTRIES: usize = 20;
/// Longest evidence reference, in bytes.
pub const MAX_EVIDENCE_HASH_LEN: usize = 256;
/// Largest stake total a committee may carry: the integer square root of
/// `i128::MAX`, so that any slashed pool times any member's stake (both at
/// most the committee's stake) stays within `i128` when the settlement is
/// shared out.
pub const MAX_COMMITTEE_STAKE: i128 = 13_043_817_825_332_782_212;

#[derive(Clone, Copy, Debug, PartialEq, Eq, Structural)]
pub enum ArbitrationError {
    AlreadyInitialized,
    NotInitialized,
    Unauthorized,
    ContractPaused,
    InvalidAmount,
    InsufficientStake,
    AlreadyRegistered,
    NotRegistered,
    DeregisterHasPendingCases,
    DeregisterCooldownActive,
    InvalidConfig,
    InvoiceContractNotSet,
    InvoiceCallFailed,
    CaseNotFound,
    /// The case is not in the phase the action needs.
    InvalidCaseStatus,
    /// The deadline the action waits for has not passed yet.
    WindowNotClosed,
    /// The window of the action has closed.
    WindowClosed,
    /// Evidence came from neither the claimant nor the respondent.
    InvalidParty,
    NotEnoughActiveJurors,
    NotSelectedJuror,
    AlreadyCommitted,
    NotCommitted,
    AlreadyRevealed,
    /// The revealed vote and salt do not hash to the commitment.
    RevealMismatch,
    /// The admin fallback was called while a re-draw is still available.
    RetriesNotExhausted,
    CaseNotEscalated,
    /// A re-draw was asked for after the re-draws ran out.
    RetriesExhausted,
    ClaimantCannotBeRespondent,
    /// The evidence reference is longer than `MAX_EVIDENCE_HASH_LEN` bytes.
    EvidenceHashTooLong,
    /// The case already holds `MAX_EVIDENCE_ENTRIES` evidence entries.
    EvidenceLimitReached,
}

/// The numbering of arbitration errors, in declaration order from 0.
pub open spec fn arbitration_error_code(e: ArbitrationError) -> u32 {
    match e {
        ArbitrationError::AlreadyInitialized => 0,
        ArbitrationError::NotInitialized => 1,
        ArbitrationError::Unauthorized => 2,
        ArbitrationError::ContractPaused => 3,
        ArbitrationError::InvalidAmount => 4,
        ArbitrationError::InsufficientStake => 5,
        ArbitrationError::AlreadyRegistered => 6,
        ArbitrationError::NotRegistered => 7,
        ArbitrationError::DeregisterHasPendingCases => 8,
        ArbitrationError::DeregisterCooldownActive => 9,
        ArbitrationError::InvalidConfig => 10,
        ArbitrationError::InvoiceContractNotSet => 11,
        ArbitrationError::InvoiceCallFailed => 12,
        ArbitrationError::CaseNotFound => 13,
        ArbitrationError::InvalidCaseStatus => 14,
        ArbitrationError::WindowNotClosed => 15,
        ArbitrationError::WindowClosed => 16,
        ArbitrationError::InvalidParty => 17,
        ArbitrationError::NotEnoughActiveJurors => 18,
        ArbitrationError::NotSelectedJuror => 19,
        ArbitrationError::AlreadyCommitted => 20,
        ArbitrationError::NotCommitted => 21,
        ArbitrationError::AlreadyRevealed => 22,
        ArbitrationError::RevealMismatch => 23,
        ArbitrationError::RetriesNotExhausted => 24,
        ArbitrationError::CaseNotEscalated => 25,
        ArbitrationError::RetriesExhausted => 26,
        ArbitrationError::ClaimantCannotBeRespondent => 27,
        ArbitrationError::EvidenceHashTooLong => 28,
        ArbitrationError::EvidenceLimitReached => 29,
    }
}

impl ArbitrationError {
    /// The contract error code of this error.
    pub fn code(&self) -> (r: u32)
        ensures
            r == arbitration_error_code(*self),
    {
        match self {
            ArbitrationError::AlreadyInitialized => 0,
            ArbitrationError::NotInitialized => 1,
            ArbitrationError::Unauthorized => 2,
            ArbitrationError::ContractPaused => 3,
            ArbitrationError::InvalidAmount => 4,
            ArbitrationError::InsufficientStake => 5,
            ArbitrationError::AlreadyRegistered => 6,
            ArbitrationError::NotRegistered => 7,
            ArbitrationError::DeregisterHasPendingCases => 8,
            ArbitrationError::DeregisterCooldownActive => 9,
            ArbitrationError::InvalidConfig => 10,
            ArbitrationError::InvoiceContractNotSet => 11,
            ArbitrationError::InvoiceCallFailed => 12,
            ArbitrationError::CaseNotFound => 13,
            ArbitrationError::InvalidCaseStatus => 14,
            ArbitrationError::WindowNotClosed => 15,
            ArbitrationError::WindowClosed => 16,
            ArbitrationError::InvalidParty => 17,
            ArbitrationError::NotEnoughActiveJurors => 18,
            ArbitrationError::NotSelectedJuror => 19,
            ArbitrationError::AlreadyCommitted => 20,
            ArbitrationError::NotCommitted => 21,
            ArbitrationError::AlreadyRevealed => 22,
            ArbitrationError::RevealMismatch => 23,
            ArbitrationError::RetriesNotExhausted => 24,
            ArbitrationError::CaseNotEscalated => 25,
            ArbitrationError::RetriesExhausted => 26,
            ArbitrationError::ClaimantCannotBeRespondent => 27,
            ArbitrationError::EvidenceHashTooLong => 28,
            ArbitrationError::EvidenceLimitReached => 29,
        }
    }
}

#[derive(Clone, Copy, Debug, PartialEq, Eq, Structural)]
pub struct JurorInfo {
    pub address: AccountId,
    pub stake_amount: i128,
    pub stake_token: AccountId,
    pub is_active: bool,
    pub cases_served: u32,
    pub times_slashed: u32,
    pub non_reveal_strikes: u32,
    pub registered_at: u64,
    /// When deregistration was requested; the stake is returned by a second
    /// call once the cooldown has passed.
    pub deregister_requested_at: Option<u64>,
}

#[derive(Clone, Copy, Debug, PartialEq, Eq, Structural)]
pub struct JurorStats {
    pub address: AccountId,
    pub stake_amount: i128,
    pub is_active: bool,
    pub cases_served: u32,
    pub times_slashed: u32,
    pub non_reveal_strikes: u32,
    pub registered_at: u64,
}

#[derive(Clone, Copy, Debug, PartialEq, Eq, Structural)]
pub struct AggregateJurorStats {
    pub total_jurors: u32,
    pub active_jurors: u32,
    pub total_stake: i128,
    pub total_cases_served: u32,
    pub total_slashes: u32,
    pub total_non_reveal_strikes: u32,
}

#[derive(Clone, Copy, Debug, PartialEq, Eq, Structural)]
pub enum PartyRole {
    Claimant,
    Respondent,
}

#[derive(Debug)]
pub struct EvidenceEntry {
    pub submitter: AccountId,
    pub party: PartyRole,
    pub evidence_hash: String,
    pub submitted_at: u64,
}

#[derive(Clone, Copy, Debug, PartialEq, Eq, Structural)]
pub enum CaseStatus {
    EvidenceWindow,
    /// The commit and the reveal phases, told apart by the deadlines.
    CommitReveal,
    Resolved,
    /// The reveal quorum was missed: a re-draw is due, or the admin decides
    /// once the re-draws are exhausted.
    NoQuorumEscalated,
}

/// How a dispute ends, in the terms of the invoice contract.
#[derive(Clone, Copy, Debug, PartialEq, Eq, Structural)]
pub enum DisputeResolution {
    Pending,
    InFavorOfSME,
    InFavorOfDebtor,
}

#[derive(Debug)]
pub struct DisputeCase {
    pub id: u64,
    pub invoice_id: u64,
    pub claimant: AccountId,
    /// The address standing for the debtor's side.
    pub respondent: AccountId,
    pub amount: i128,
    pub opened_at: u64,
    pub evidence_deadline: u64,
    pub commit_deadline: u64,
    pub reveal_deadline: u64,
    pub jurors: Vec<AccountId>,
    pub status: CaseStatus,
    pub resolution: DisputeResolution,
    /// Committees drawn so far for this case.
    pub retry_count: u32,
}

/// A committee member's vote: the commitment `sha256(vote byte || salt)`,
/// then the revealed vote (`true` favours the debtor).
#[derive(Clone, Copy, Debug)]
pub struct JurorVote {
    pub commit_hash: Option<[u8; 32]>,
    pub revealed_vote: Option<bool>,
}

#[derive(Clone, Copy, Debug, PartialEq, Eq, Structural)]
pub struct ArbitrationConfig {
    pub min_stake: i128,
    pub stake_token: AccountId,
    pub committee_size: u32,
    pub quorum_floor: u32,
    pub evidence_window_secs: u64,
    pub commit_window_secs: u64,
    pub reveal_window_secs: u64,
    pub deregister_cooldown_secs: u64,
    pub slash_bps: u32,
    pub non_reveal_slash_bps: u32,
    pub lopsided_confidence_bps: u32,
    pub max_retries: u32,
}

/// The parameters `set_config` accepts.
pub open spec fn config_valid(c: ArbitrationConfig) -> bool {
    &&& c.min_stake > 0
    &&& c.committee_size > 0
    &&& 0 < c.quorum_floor <= c.committee_size
    &&& c.evidence_window_secs > 0
    &&& c.commit_window_secs > 0
    &&& c.reveal_window_secs > 0
    &&& c.slash_bps <= MAX_BPS
    &&& c.non_reveal_slash_bps <= MAX_BPS
    &&& 0 < c.lopsided_confidence_bps <= MAX_BPS
}

/// The configuration `initialize` starts from.
pub open spec fn default_config(stake_token: AccountId, min_stake: i128) -> ArbitrationConfig {
    ArbitrationConfig {
        min_stake,
        stake_token,
        committee_size: DEFAULT_COMMITTEE_SIZE,
        quorum_floor: DEFAULT_QUORUM_FLOOR,
        evidence_window_secs: DEFAULT_EVIDENCE_WINDOW_SECS,
        commit_window_secs: DEFAULT_COMMIT_WINDOW_SECS,
        reveal_window_secs: DEFAULT_REVEAL_WINDOW_SECS,
        deregister_cooldown_secs: DEFAULT_DEREGISTER_COOLDOWN_SECS,
        slash_bps: DEFAULT_SLASH_BPS,
        non_reveal_slash_bps: DEFAULT_NON_REVEAL_SLASH_BPS,
        lopsided_confidence_bps: DEFAULT_LOPSIDED_CONFIDENCE_BPS,
        max_retries: DEFAULT_MAX_RETRIES,
    }
}

/// Committees a case may have drawn before only the admin can decide it.
pub open spec fn max_draws(c: ArbitrationConfig) -> u32 {
    if c.max_retries == u32::MAX {
        u32::MAX
    } else {
        (c.max_retries + 1) as u32
    }
}

/// Whether `a` is in the list.
fn contains_account(v: &Vec<AccountId>, a: AccountId) -> (r: bool)
    ensures
        r == v@.contains(a),
{
    let mut i: usize = 0;
    while i < v.len()
        invariant
            i <= v@.len(),
            forall|j: int| 0 <= j < i ==> v@[j] != a,
        decreases v@.len() - i,
    {
        if v[i] == a {
            assert(v@[i as int] == a);
            return true;
        }
        i = i + 1;
    }
    false
}

/// Whether `x` is in the list.
fn contains_id(v: &Vec<u64>, x: u64) -> (r: bool)
    ensures
        r == v@.contains(x),
{
    let mut i: usize = 0;
    while i < v.len()
        invariant
            i <= v@.len(),
            forall|j: int| 0 <= j < i ==> v@[j] != x,
        decreases v@.len() - i,
    {
        if v[i] == x {
            assert(v@[i as int] == x);
            return true;
        }
        i = i + 1;
    }
    false
}

/// A copy of a list of case ids.
fn copy_ids(v: &Vec<u64>) -> (r: Vec<u64>)
    ensures
        r@ == v@,
{
    let mut r: Vec<u64> = Vec::new();
    let mut i: usize = 0;
    while i < v.len()
        invariant
            i <= v@.len(),
            r@ == v@.subrange(0, i as int),
        decreases v@.len() - i,
    {
        r.push(v[i]);
        i = i + 1;
        assert(r@ =~= v@.subrange(0, i as int));
    }
    assert(r@ =~= v@);
    r
}

/// A copy of a list of accounts.
fn copy_accounts(v: &Vec<AccountId>) -> (r: Vec<AccountId>)
    ensures
        r@ == v@,
{
    let mut r: Vec<AccountId> = Vec::new();
    let mut i: usize = 0;
    while i < v.len()
        invariant
            i <= v@.len(),
            r@ == v@.subrange(0, i as int),
        decreases v@.len() - i,
    {
        r.push(v[i]);
        i = i + 1;
        assert(r@ =~= v@.subrange(0, i as int));
    }
    assert(r@ =~= v@);
    r
}

/// Whether two digests are equal.
fn same_digest(a: &[u8; 32], b: &[u8; 32]) -> (r: bool)
    ensures
        r == (a@ == b@),
{
    let mut i: usize = 0;
    while i < 32
        invariant
            i <= 32,
            a@.len() == 32,
            b@.len() == 32,
            forall|j: int| 0 <= j < i ==> a@[j] == b@[j],
        decreases 32 - i,
    {
        if a[i] != b[i] {
            return false;
        }
        i = i + 1;
    }
    assert(a@ =~= b@);
    true
}

#[verifier::external_type_specification]
#[verifier::external_body]
pub struct ExEnv(soroban_sdk::Env);

/// The SHA-256 digest of a byte string, as the Soroban host computes it.
pub uninterp spec fn sha256_digest(data: Seq<u8>) -> Seq<u8>;

/// `Crypto::sha256` of soroban-sdk on `data`, as a 32-byte array. The
/// contract claims only that the digest is the host's SHA-256 of exactly
/// these bytes (a function of the bytes alone).
#[verifier::external_body]
fn sha256(env: &soroban_sdk::Env, data: &[u8]) -> (r: [u8; 32])
    ensures
        r@ == sha256_digest(data@),
{
    env.crypto().sha256(&soroban_sdk::Bytes::from_slice(env, data)).to_array()
}

/// The bytes a juror commits to: the vote byte (1 in favour of the debtor,
/// 0 in favour of the SME) followed by the salt.
pub open spec fn commit_preimage(vote_choice: bool, salt: Seq<u8>) -> Seq<u8> {
    seq![if vote_choice { 1u8 } else { 0u8 }] + salt
}

/// Builds the committed bytes of a vote and salt.
pub fn vote_preimage(vote_choice: bool, salt: &[u8; 32]) -> (r: Vec<u8>)
    ensures
        r@ == commit_preimage(vote_choice, salt@),
{
    let mut r: Vec<u8> = Vec::new();
    r.push(if vote_choice { 1u8 } else { 0u8 });
    let mut i: usize = 0;
    while i < 32
        invariant
            i <= 32,
            salt@.len() == 32,
            r@ == seq![if vote_choice { 1u8 } else { 0u8 }] + salt@.subrange(0, i as int),
        decreases 32 - i,
    {
        r.push(salt[i]);
        i = i + 1;
        assert(r@ =~= seq![if vote_choice { 1u8 } else { 0u8 }] + salt@.subrange(0, i as int));
    }
    assert(salt@.subrange(0, 32) =~= salt@);
    r
}

/// The commitment of a vote: `sha256(vote byte || salt)`.
pub fn commit_hash_of(env: &soroban_sdk::Env, vote_choice: bool, salt: &[u8; 32]) -> (r: [u8; 32])
    ensures
        r@ == sha256_digest(commit_preimage(vote_choice, salt@)),
{
    let preimage = vote_preimage(vote_choice, salt);
    sha256(env, preimage.as_slice())
}

/// The jurors eligible for a committee, in registration order: active,
/// with no deregistration requested, and staking at least `min_stake`.
pub open spec fn eligible_jurors(s: Seq<(AccountId, JurorInfo)>, min_stake: i128) -> Seq<AccountId>
    decreases s.len(),
{
    if s.len() == 0 {
        Seq::empty()
    } else {
        let rest = eligible_jurors(s.drop_last(), min_stake);
        let e = s.last();
        if e.1.is_active && e.1.deregister_requested_at is None && e.1.stake_amount >= min_stake {
            rest.push(e.0)
        } else {
            rest
        }
    }
}

/// Eligible jurors are registered jurors, each listed once.
pub proof fn lemma_eligible_jurors(s: Seq<(AccountId, JurorInfo)>, min_stake: i128)
    requires
        keys_distinct(s),
    ensures
        eligible_jurors(s, min_stake).no_duplicates(),
        forall|a: AccountId|
            #[trigger] eligible_jurors(s, min_stake).contains(a) ==> crate::assoc::has_key(s, a),
        eligible_jurors(s, min_stake).len() <= s.len(),
    decreases s.len(),
{
    if s.len() > 0 {
        let t = s.drop_last();
        assert(keys_distinct(t)) by {
            assert forall|i: int, j: int| 0 <= i < j < t.len() implies t[i].0 != t[j].0 by {
                assert(t[i] == s[i] && t[j] == s[j]);
            }
        }
        lemma_eligible_jurors(t, min_stake);
        let rest = eligible_jurors(t, min_stake);
        let e = s.last();
        assert forall|a: AccountId| #[trigger] rest.contains(a) implies crate::assoc::has_key(s, a) by {
            assert(crate::assoc::has_key(t, a));
            let i = choose|i: int| 0 <= i < t.len() && t[i].0 == a;
            assert(s[i] == t[i]);
        }
        if e.1.is_active && e.1.deregister_requested_at is None && e.1.stake_amount >= min_stake {
            assert(!rest.contains(e.0)) by {
                if rest.contains(e.0) {
                    assert(crate::assoc::has_key(t, e.0));
                    let i = choose|i: int| 0 <= i < t.len() && t[i].0 == e.0;
                    assert(s[i].0 == s[s.len() - 1].0);
                }
            }
            assert forall|a: AccountId| #[trigger] rest.push(e.0).contains(a) implies crate::assoc::has_key(
                s,
                a,
            ) by {
                if a != e.0 {
                    let i = choose|i: int| 0 <= i < rest.push(e.0).len() && rest.push(e.0)[i] == a;
                    assert(i < rest.len());
                    assert(rest[i] == a);
                    assert(rest.contains(a));
                } else {
                    assert(s[s.len() - 1].0 == a);
                }
            }
        }
    }
}

/// A juror is in the eligible list exactly when its record is active, has
/// no deregistration requested and stakes at least `min_stake`.
proof fn lemma_eligible_membership(s: Seq<(AccountId, JurorInfo)>, min_stake: i128, k: AccountId)
    requires
        keys_distinct(s),
    ensures
        eligible_jurors(s, min_stake).contains(k) <==> {
            let m = assoc_view(s);
            &&& m.contains_key(k)
            &&& m[k].is_active
            &&& m[k].deregister_requested_at is None
            &&& m[k].stake_amount >= min_stake
        },
    decreases s.len(),
{
    if s.len() > 0 {
        let t = s.drop_last();
        let n = s.len() - 1;
        let e = s.last();
        assert(keys_distinct(t)) by {
            assert forall|i: int, j: int| 0 <= i < j < t.len() implies t[i].0 != t[j].0 by {
                assert(t[i] == s[i] && t[j] == s[j]);
            }
        }
        lemma_eligible_membership(t, min_stake, k);
        let rest = eligible_jurors(t, min_stake);
        let ok = e.1.is_active && e.1.deregister_requested_at is None && e.1.stake_amount >= min_stake;
        lemma_assoc_entry(s, n);
        if k == e.0 {
            if rest.contains(k) {
                let i = key_index(t, k);
                assert(crate::assoc::has_key(t, k));
                assert(0 <= i < t.len() && t[i].0 == k);
                assert(s[i].0 == s[n].0);
                assert(false);
            }
            if ok {
                assert(rest.push(e.0)[rest.len() as int] == k);
            }
        } else {
            if ok {
                assert(rest.push(e.0).contains(k) <==> rest.contains(k)) by {
                    if rest.push(e.0).contains(k) {
                        let i = choose|i: int| 0 <= i < rest.push(e.0).len() && rest.push(e.0)[i] == k;
                        assert(i < rest.len());
                        assert(rest[i] == k);
                    }
                    if rest.contains(k) {
                        let i = choose|i: int| 0 <= i < rest.len() && rest[i] == k;
                        assert(rest.push(e.0)[i] == k);
                    }
                }
            }
            if assoc_view(s).contains_key(k) {
                let i = key_index(s, k);
                assert(crate::assoc::has_key(s, k));
                assert(0 <= i < s.len() && s[i].0 == k);
                assert(i < n);
                assert(t[i] == s[i]);
                lemma_assoc_entry(s, i);
                lemma_assoc_entry(t, i);
            }
            if assoc_view(t).contains_key(k) {
                let i = key_index(t, k);
                assert(crate::assoc::has_key(t, k));
                assert(0 <= i < t.len() && t[i].0 == k);
                assert(s[i] == t[i]);
                lemma_assoc_entry(s, i);
                lemma_assoc_entry(t, i);
            }
        }
    }
}

/// `order` lists exactly the accounts of `pool`, each once (a shuffle).
pub open spec fn is_shuffle_of(order: Seq<AccountId>, pool: Seq<AccountId>) -> bool {
    &&& order.len() == pool.len()
    &&& order.no_duplicates()
    &&& forall|a: AccountId| #[trigger] order.contains(a) <==> pool.contains(a)
}

/// `f(0) + f(1) + ... + f(n - 1)`.
pub open spec fn sum_upto(f: spec_fn(int) -> int, n: int) -> int
    decreases n,
{
    if n <= 0 {
        0
    } else {
        sum_upto(f, n - 1) + f(n - 1)
    }
}

/// Sums of terms bounded termwise are bounded likewise.
pub proof fn lemma_sum_le(f: spec_fn(int) -> int, g: spec_fn(int) -> int, n: int)
    requires
        forall|i: int| 0 <= i < n ==> #[trigger] f(i) <= g(i),
    ensures
        sum_upto(f, n) <= sum_upto(g, n),
    decreases n,
{
    if n > 0 {
        lemma_sum_le(f, g, n - 1);
    }
}

/// A sum of non-negative terms grows with the number of terms and bounds
/// each of them.
pub proof fn lemma_sum_nonneg(f: spec_fn(int) -> int, m: int, n: int)
    requires
        forall|i: int| 0 <= i < n ==> #[trigger] f(i) >= 0,
        0 <= m <= n,
    ensures
        0 <= sum_upto(f, m) <= sum_upto(f, n),
        forall|i: int| 0 <= i < n ==> #[trigger] f(i) <= sum_upto(f, n),
    decreases n,
{
    if n > 0 {
        if m < n {
            lemma_sum_nonneg(f, m, n - 1);
        } else {
            lemma_sum_nonneg(f, m - 1, n - 1);
        }
        assert forall|i: int| 0 <= i < n implies #[trigger] f(i) <= sum_upto(f, n) by {
            lemma_sum_nonneg(f, 0, n - 1);
            if i < n - 1 {
                assert(f(i) <= sum_upto(f, n - 1));
            }
        }
    }
}

/// The sum of two sums is the sum of the termwise sums.
pub proof fn lemma_sum_add(f: spec_fn(int) -> int, g: spec_fn(int) -> int, h: spec_fn(int) -> int, n: int)
    requires
        forall|i: int| 0 <= i < n ==> #[trigger] h(i) == f(i) + g(i),
    ensures
        sum_upto(f, n) + sum_upto(g, n) == sum_upto(h, n),
    decreases n,
{
    if n > 0 {
        lemma_sum_add(f, g, h, n - 1);
    }
}

/// Prefixes of a list without repetitions: the element at `i` is not in
/// the first `i`, and the first `i + 1` are the first `i` and it.
pub proof fn lemma_take_step(s: Seq<AccountId>, i: int)
    requires
        0 <= i < s.len(),
    ensures
        forall|a: AccountId| #[trigger] s.take(i + 1).contains(a) <==> s.take(i).contains(a) || a == s[i],
        s.no_duplicates() ==> !s.take(i).contains(s[i]),
{
    let t = s.take(i + 1);
    let t0 = s.take(i);
    assert forall|a: AccountId| #[trigger] t.contains(a) <==> t0.contains(a) || a == s[i] by {
        if t.contains(a) {
            let x = choose|x: int| 0 <= x < t.len() && t[x] == a;
            if x < i {
                assert(t0[x] == a);
            }
        }
        if t0.contains(a) {
            let x = choose|x: int| 0 <= x < t0.len() && t0[x] == a;
            assert(t[x] == a);
        }
        if a == s[i] {
            assert(t[i] == a);
        }
    }
    if s.no_duplicates() && t0.contains(s[i]) {
        let x = choose|x: int| 0 <= x < t0.len() && t0[x] == s[i];
        assert(s[x] == s[i]);
    }
}

/// A juror's revealed vote on a case, if any.
pub open spec fn revealed_of(votes: Map<AccountId, JurorVote>, juror: AccountId) -> Option<bool> {
    if votes.contains_key(juror) {
        votes[juror].revealed_vote
    } else {
        None
    }
}

/// One for a juror among `js` at position `i` who revealed `choice`.
pub open spec fn revealed_term(js: Seq<AccountId>, votes: Map<AccountId, JurorVote>, choice: bool) -> spec_fn(
    int,
) -> int {
    |i: int|
        if revealed_of(votes, js[i]) == Some(choice) {
            1int
        } else {
            0int
        }
}

/// How many of the first `n` of `js` revealed `choice`.
pub open spec fn count_revealed_upto(
    js: Seq<AccountId>,
    votes: Map<AccountId, JurorVote>,
    choice: bool,
    n: int,
) -> int {
    sum_upto(revealed_term(js, votes, choice), n)
}

/// How many of `js` revealed `choice`.
pub open spec fn count_revealed(js: Seq<AccountId>, votes: Map<AccountId, JurorVote>, choice: bool) -> int {
    count_revealed_upto(js, votes, choice, js.len() as int)
}

/// `bps` of a (non-negative) stake, rounded down.
pub open spec fn slash_amount(stake: i128, bps: u32) -> int {
    (stake * bps) / (MAX_BPS as int)
}

/// A juror that committed but did not reveal: slashed by `bps` and given a
/// non-reveal strike.
pub open spec fn non_reveal_penalty(info: JurorInfo, bps: u32) -> JurorInfo {
    JurorInfo {
        stake_amount: (info.stake_amount - slash_amount(info.stake_amount, bps)) as i128,
        times_slashed: (info.times_slashed + 1) as u32,
        non_reveal_strikes: (info.non_reveal_strikes + 1) as u32,
        ..info
    }
}

/// A minority juror on a lopsided vote: slashed by `bps`.
pub open spec fn minority_slash(info: JurorInfo, bps: u32) -> JurorInfo {
    JurorInfo {
        stake_amount: (info.stake_amount - slash_amount(info.stake_amount, bps)) as i128,
        times_slashed: (info.times_slashed + 1) as u32,
        ..info
    }
}

/// A majority juror: one more case served.
pub open spec fn majority_credit(info: JurorInfo) -> JurorInfo {
    JurorInfo { cases_served: (info.cases_served + 1) as u32, ..info }
}

/// A majority juror's share of the slashed pool, pro rata to its stake among
/// the majority's stake (rounded down).
pub open spec fn reward_credit(info: JurorInfo, pool: int, total: int) -> JurorInfo {
    JurorInfo { stake_amount: (info.stake_amount + (pool * info.stake_amount) / total) as i128, ..info }
}

/// The juror records with `update` applied to those of the jurors in
/// `done`.
pub open spec fn apply_to(
    m: Map<AccountId, JurorInfo>,
    done: Seq<AccountId>,
    update: spec_fn(AccountId, JurorInfo) -> JurorInfo,
) -> Map<AccountId, JurorInfo> {
    Map::new(
        |k: AccountId| m.contains_key(k),
        |k: AccountId|
            if done.contains(k) {
                update(k, m[k])
            } else {
                m[k]
            },
    )
}

/// First settlement step: every committee member who did not reveal pays
/// the non-reveal penalty, whether or not the vote reaches quorum.
pub open spec fn non_reveal_step(votes: Map<AccountId, JurorVote>, bps: u32) -> spec_fn(
    AccountId,
    JurorInfo,
) -> JurorInfo {
    |k: AccountId, info: JurorInfo|
        if revealed_of(votes, k) is None {
            non_reveal_penalty(info, bps)
        } else {
            info
        }
}

/// Second step, on a vote with quorum: the majority is credited a case;
/// on a lopsided vote the minority is slashed.
pub open spec fn verdict_step(
    votes: Map<AccountId, JurorVote>,
    outcome: bool,
    lopsided: bool,
    bps: u32,
) -> spec_fn(AccountId, JurorInfo) -> JurorInfo {
    |k: AccountId, info: JurorInfo|
        match revealed_of(votes, k) {
            Some(b) => if b == outcome {
                majority_credit(info)
            } else if lopsided {
                minority_slash(info, bps)
            } else {
                info
            },
            None => info,
        }
}

/// Last step: the majority shares the slashed pool.
pub open spec fn reward_step(
    votes: Map<AccountId, JurorVote>,
    outcome: bool,
    pool: int,
    total: int,
) -> spec_fn(AccountId, JurorInfo) -> JurorInfo {
    |k: AccountId, info: JurorInfo|
        if revealed_of(votes, k) == Some(outcome) {
            reward_credit(info, pool, total)
        } else {
            info
        }
}

/// The slash of the non-revealer at position `i`, if it has a record.
pub open spec fn non_reveal_term(
    js: Seq<AccountId>,
    m: Map<AccountId, JurorInfo>,
    votes: Map<AccountId, JurorVote>,
    bps: u32,
) -> spec_fn(int) -> int {
    |i: int|
        if revealed_of(votes, js[i]) is None && m.contains_key(js[i]) {
            slash_amount(m[js[i]].stake_amount, bps)
        } else {
            0int
        }
}

/// Slashed non-revealer stake among the first `n` of `js`, from the records
/// before settlement.
pub open spec fn non_reveal_pool(
    js: Seq<AccountId>,
    m: Map<AccountId, JurorInfo>,
    votes: Map<AccountId, JurorVote>,
    bps: u32,
    n: int,
) -> int {
    sum_upto(non_reveal_term(js, m, votes, bps), n)
}

/// The slash of the juror at position `i` if it revealed `side`.
pub open spec fn side_slash_term(
    js: Seq<AccountId>,
    m: Map<AccountId, JurorInfo>,
    votes: Map<AccountId, JurorVote>,
    side: bool,
    bps: u32,
) -> spec_fn(int) -> int {
    |i: int|
        if revealed_of(votes, js[i]) == Some(side) && m.contains_key(js[i]) {
            slash_amount(m[js[i]].stake_amount, bps)
        } else {
            0int
        }
}

/// Slashed stake of the jurors among the first `n` of `js` who revealed
/// `side` (the minority), from the records before settlement.
pub open spec fn minority_pool(
    js: Seq<AccountId>,
    m: Map<AccountId, JurorInfo>,
    votes: Map<AccountId, JurorVote>,
    side: bool,
    bps: u32,
    n: int,
) -> int {
    sum_upto(side_slash_term(js, m, votes, side, bps), n)
}

/// The stake of the juror at position `i` if it revealed `side`.
pub open spec fn side_stake_term(
    js: Seq<AccountId>,
    m: Map<AccountId, JurorInfo>,
    votes: Map<AccountId, JurorVote>,
    side: bool,
) -> spec_fn(int) -> int {
    |i: int|
        if revealed_of(votes, js[i]) == Some(side) && m.contains_key(js[i]) {
            m[js[i]].stake_amount as int
        } else {
            0int
        }
}

/// The stake of the jurors among the first `n` of `js` who revealed `side`
/// (the majority), from the records before settlement.
pub open spec fn majority_stake(
    js: Seq<AccountId>,
    m: Map<AccountId, JurorInfo>,
    votes: Map<AccountId, JurorVote>,
    side: bool,
    n: int,
) -> int {
    sum_upto(side_stake_term(js, m, votes, side), n)
}

/// The stake of the juror at position `i`, if it has a record.
pub open spec fn stake_term(js: Seq<AccountId>, m: Map<AccountId, JurorInfo>) -> spec_fn(int) -> int {
    |i: int|
        if m.contains_key(js[i]) {
            m[js[i]].stake_amount as int
        } else {
            0int
        }
}

/// The stake of the whole committee.
pub open spec fn committee_stake(js: Seq<AccountId>, m: Map<AccountId, JurorInfo>) -> int {
    sum_upto(stake_term(js, m), js.len() as int)
}

/// A slash of `bps` at most `MAX_BPS` takes a non-negative amount of at
/// most the stake.
pub proof fn lemma_slash_bounds(stake: int, bps: int)
    requires
        0 <= stake,
        0 <= bps <= 10_000,
    ensures
        0 <= (stake * bps) / 10_000 <= stake,
        stake * bps <= stake * 10_000,
{
    assert(0 <= stake * bps <= stake * 10_000) by (nonlinear_arith)
        requires
            0 <= stake,
            0 <= bps <= 10_000,
    ;
    assert(0 <= (stake * bps) / 10_000 <= stake) by (nonlinear_arith)
        requires
            0 <= stake * bps <= stake * 10_000,
            0 <= stake,
    ;
}

/// Bounds of the pools a settlement moves: each pool and the majority's
/// stake are sums of non-negative terms, the slashed pools and the majority
/// stake together stay within the committee's stake, and each majority
/// juror's stake is within the majority's stake.
pub proof fn lemma_settlement_bounds(
    js: Seq<AccountId>,
    m: Map<AccountId, JurorInfo>,
    votes: Map<AccountId, JurorVote>,
    outcome: bool,
    minority: bool,
    nr_bps: u32,
    s_bps: u32,
)
    requires
        minority == !outcome,
        forall|k: AccountId| #[trigger] m.contains_key(k) ==> m[k].stake_amount >= 0,
        nr_bps <= MAX_BPS,
        s_bps <= MAX_BPS,
    ensures
        forall|i: int|
            0 <= i <= js.len() ==> 0 <= #[trigger] non_reveal_pool(js, m, votes, nr_bps, i)
                <= non_reveal_pool(js, m, votes, nr_bps, js.len() as int),
        forall|i: int|
            0 <= i <= js.len() ==> 0 <= #[trigger] minority_pool(js, m, votes, minority, s_bps, i)
                <= minority_pool(js, m, votes, minority, s_bps, js.len() as int),
        forall|i: int|
            0 <= i <= js.len() ==> 0 <= #[trigger] majority_stake(js, m, votes, outcome, i)
                <= majority_stake(js, m, votes, outcome, js.len() as int),
        forall|i: int|
            0 <= i < js.len() ==> (#[trigger] side_stake_term(js, m, votes, outcome)(i))
                <= majority_stake(js, m, votes, outcome, js.len() as int),
        forall|i: int|
            0 <= i < js.len() ==> (#[trigger] stake_term(js, m)(i)) <= committee_stake(js, m),
        non_reveal_pool(js, m, votes, nr_bps, js.len() as int) + minority_pool(
            js,
            m,
            votes,
            minority,
            s_bps,
            js.len() as int,
        ) <= committee_stake(js, m),
        majority_stake(js, m, votes, outcome, js.len() as int) <= committee_stake(js, m),
{
    let n = js.len() as int;
    let nr = non_reveal_term(js, m, votes, nr_bps);
    let mi = side_slash_term(js, m, votes, minority, s_bps);
    let ma = side_stake_term(js, m, votes, outcome);
    let st = stake_term(js, m);
    assert forall|i: int| 0 <= i < n implies #[trigger] nr(i) >= 0 && mi(i) >= 0 && ma(i) >= 0 && st(i)
        >= 0 && nr(i) + mi(i) <= st(i) && ma(i) <= st(i) by {
        let j = js[i];
        if m.contains_key(j) {
            lemma_slash_bounds(m[j].stake_amount as int, nr_bps as int);
            lemma_slash_bounds(m[j].stake_amount as int, s_bps as int);
        }
    }
    assert forall|i: int| 0 <= i <= n implies 0 <= #[trigger] non_reveal_pool(js, m, votes, nr_bps, i)
        <= non_reveal_pool(js, m, votes, nr_bps, n) by {
        lemma_sum_nonneg(nr, i, n);
    }
    assert forall|i: int| 0 <= i <= n implies 0 <= #[trigger] minority_pool(js, m, votes, minority, s_bps, i)
        <= minority_pool(js, m, votes, minority, s_bps, n) by {
        lemma_sum_nonneg(mi, i, n);
    }
    assert forall|i: int| 0 <= i <= n implies 0 <= #[trigger] majority_stake(js, m, votes, outcome, i)
        <= majority_stake(js, m, votes, outcome, n) by {
        lemma_sum_nonneg(ma, i, n);
    }
    lemma_sum_nonneg(ma, 0, n);
    lemma_sum_nonneg(st, 0, n);
    let both = |i: int| nr(i) + mi(i);
    lemma_sum_add(nr, mi, both, n);
    lemma_sum_le(both, st, n);
    lemma_sum_le(ma, st, n);
}

/// Applying an update to one more juror of a list without repetitions
/// changes that juror's record only.
pub proof fn lemma_apply_step(
    m: Map<AccountId, JurorInfo>,
    js: Seq<AccountId>,
    i: int,
    update: spec_fn(AccountId, JurorInfo) -> JurorInfo,
)
    requires
        0 <= i < js.len(),
        js.no_duplicates(),
    ensures
        m.contains_key(js[i]) ==> apply_to(m, js.take(i + 1), update) == apply_to(
            m,
            js.take(i),
            update,
        ).insert(js[i], update(js[i], m[js[i]])),
        !m.contains_key(js[i]) ==> apply_to(m, js.take(i + 1), update) == apply_to(m, js.take(i), update),
        m.contains_key(js[i]) ==> apply_to(m, js.take(i), update)[js[i]] == m[js[i]],
        js.take(js.len() as int) == js,
{
    lemma_take_step(js, i);
    let j = js[i];
    if m.contains_key(j) {
        assert(apply_to(m, js.take(i + 1), update) =~= apply_to(m, js.take(i), update).insert(
            j,
            update(j, m[j]),
        ));
    } else {
        assert(apply_to(m, js.take(i + 1), update) =~= apply_to(m, js.take(i), update));
    }
    assert(js.take(js.len() as int) =~= js);
}

/// After the non-reveal penalties, the minority's slashes and the
/// committee's stake are as they were before: penalties only reduce the
/// stake of non-revealers.
pub proof fn lemma_settlement_frame(
    js: Seq<AccountId>,
    m0: Map<AccountId, JurorInfo>,
    m1: Map<AccountId, JurorInfo>,
    votes: Map<AccountId, JurorVote>,
    outcome: bool,
    minority: bool,
    nr_bps: u32,
    bps: u32,
)
    requires
        m1 == apply_to(m0, js, non_reveal_step(votes, nr_bps)),
        forall|k: AccountId| #[trigger] m0.contains_key(k) ==> m0[k].stake_amount >= 0,
        nr_bps <= MAX_BPS,
    ensures
        forall|k: AccountId| #[trigger] m1.contains_key(k) == m0.contains_key(k),
        forall|k: AccountId|
            #[trigger] m1.contains_key(k) && revealed_of(votes, k) is Some ==> m1[k] == m0[k],
        minority_pool(js, m1, votes, minority, bps, js.len() as int) == minority_pool(
            js,
            m0,
            votes,
            minority,
            bps,
            js.len() as int,
        ),
        committee_stake(js, m1) <= committee_stake(js, m0),
{
    let n = js.len() as int;
    let a = side_slash_term(js, m1, votes, minority, bps);
    let b = side_slash_term(js, m0, votes, minority, bps);
    assert forall|i: int| 0 <= i < n implies #[trigger] a(i) <= b(i) && b(i) <= a(i) by {}
    lemma_sum_le(a, b, n);
    lemma_sum_le(b, a, n);
    let c = stake_term(js, m1);
    let d = stake_term(js, m0);
    assert forall|i: int| 0 <= i < n implies #[trigger] c(i) <= d(i) by {
        let j = js[i];
        if m0.contains_key(j) && js.contains(j) && revealed_of(votes, j) is None {
            lemma_slash_bounds(m0[j].stake_amount as int, nr_bps as int);
        }
    }
    lemma_sum_le(c, d, n);
}

/// After the verdict, the majority's stake and the committee's stake are
/// bounded as before the settlement: crediting a case changes no stake and
/// slashing only reduces it.
pub proof fn lemma_verdict_frame(
    js: Seq<AccountId>,
    m0: Map<AccountId, JurorInfo>,
    m1: Map<AccountId, JurorInfo>,
    m2: Map<AccountId, JurorInfo>,
    votes: Map<AccountId, JurorVote>,
    outcome: bool,
    lopsided: bool,
    bps: u32,
)
    requires
        forall|k: AccountId| #[trigger] m1.contains_key(k) == m0.contains_key(k),
        forall|k: AccountId|
            #[trigger] m1.contains_key(k) && revealed_of(votes, k) is Some ==> m1[k] == m0[k],
        forall|k: AccountId| #[trigger] m0.contains_key(k) ==> m0[k].stake_amount >= 0,
        committee_stake(js, m1) <= committee_stake(js, m0),
        m2 == apply_to(m1, js, verdict_step(votes, outcome, lopsided, bps)),
        bps <= MAX_BPS,
    ensures
        majority_stake(js, m2, votes, outcome, js.len() as int) == majority_stake(
            js,
            m0,
            votes,
            outcome,
            js.len() as int,
        ),
        committee_stake(js, m2) <= committee_stake(js, m0),
{
    let n = js.len() as int;
    let a = side_stake_term(js, m2, votes, outcome);
    let b = side_stake_term(js, m0, votes, outcome);
    assert forall|i: int| 0 <= i < n implies #[trigger] a(i) <= b(i) && b(i) <= a(i) by {}
    lemma_sum_le(a, b, n);
    lemma_sum_le(b, a, n);
    let c = stake_term(js, m2);
    let d = stake_term(js, m1);
    assert forall|i: int| 0 <= i < n implies #[trigger] c(i) <= d(i) by {
        let j = js[i];
        if m1.contains_key(j) && js.contains(j) && revealed_of(votes, j) is Some {
            lemma_slash_bounds(m1[j].stake_amount as int, bps as int);
        }
    }
    lemma_sum_le(c, d, n);
}

/// The active jurors of a juror list, in its order.
pub open spec fn active_jurors(s: Seq<(AccountId, JurorInfo)>) -> Seq<AccountId>
    decreases s.len(),
{
    if s.len() == 0 {
        Seq::empty()
    } else if s.last().1.is_active {
        active_jurors(s.drop_last()).push(s.last().0)
    } else {
        active_jurors(s.drop_last())
    }
}

/// The ids of the cases with `status`, in id order.
pub open spec fn cases_with_status(cases: Seq<DisputeCase>, status: CaseStatus) -> Seq<u64>
    decreases cases.len(),
{
    if cases.len() == 0 {
        Seq::empty()
    } else if cases.last().status == status {
        cases_with_status(cases.drop_last(), status).push(cases.last().id)
    } else {
        cases_with_status(cases.drop_last(), status)
    }
}

/// A juror's record as statistics.
pub open spec fn stats_of(info: JurorInfo) -> JurorStats {
    JurorStats {
        address: info.address,
        stake_amount: info.stake_amount,
        is_active: info.is_active,
        cases_served: info.cases_served,
        times_slashed: info.times_slashed,
        non_reveal_strikes: info.non_reveal_strikes,
        registered_at: info.registered_at,
    }
}

/// The totals over a juror list, as integers.
pub open spec fn aggregate_totals(s: Seq<(AccountId, JurorInfo)>) -> (int, int, int, int, int, int)
    decreases s.len(),
{
    if s.len() == 0 {
        (0, 0, 0, 0, 0, 0)
    } else {
        let t = aggregate_totals(s.drop_last());
        let e = s.last().1;
        (
            t.0 + 1,
            t.1 + if e.is_active {
                1int
            } else {
                0int
            },
            t.2 + e.stake_amount,
            t.3 + e.cases_served,
            t.4 + e.times_slashed,
            t.5 + e.non_reveal_strikes,
        )
    }
}

/// The totals fit the integer types of `AggregateJurorStats`.
pub open spec fn aggregate_in_range(s: Seq<(AccountId, JurorInfo)>) -> bool {
    let t = aggregate_totals(s);
    &&& t.0 <= u32::MAX
    &&& 0 <= t.2 <= i128::MAX
    &&& t.3 <= u32::MAX
    &&& t.4 <= u32::MAX
    &&& t.5 <= u32::MAX
    &&& forall|k: int| 0 <= k < s.len() ==> (#[trigger] s[k]).1.stake_amount >= 0
}

/// The totals over a juror list.
pub open spec fn aggregate_of(s: Seq<(AccountId, JurorInfo)>) -> AggregateJurorStats {
    let t = aggregate_totals(s);
    AggregateJurorStats {
        total_jurors: t.0 as u32,
        active_jurors: t.1 as u32,
        total_stake: t.2 as i128,
        total_cases_served: t.3 as u32,
        total_slashes: t.4 as u32,
        total_non_reveal_strikes: t.5 as u32,
    }
}

/// Totals over a prefix are within the totals over the whole list (all
/// terms are non-negative), and fit where the whole does.
pub proof fn lemma_aggregate_prefix(s: Seq<(AccountId, JurorInfo)>, n: int)
    requires
        0 <= n <= s.len(),
        aggregate_in_range(s),
    ensures
        aggregate_in_range(s.take(n)),
        ({
            let t = aggregate_totals(s.take(n));
            let u = aggregate_totals(s);
            &&& 0 <= t.1 <= t.0 <= u.0
            &&& 0 <= t.2 <= u.2
            &&& 0 <= t.3 <= u.3
            &&& 0 <= t.4 <= u.4
            &&& 0 <= t.5 <= u.5
        }),
    decreases s.len() - n,
{
    let p = s.take(n);
    assert forall|k: int| 0 <= k < p.len() implies (#[trigger] p[k]).1.stake_amount >= 0 by {
        assert(p[k] == s[k]);
    }
    lemma_aggregate_nonneg(p);
    if n < s.len() {
        lemma_aggregate_prefix(s, n + 1);
        let q = s.take(n + 1);
        assert(q.drop_last() =~= p);
        assert(q.last() == s[n]);
        assert(s[n].1.stake_amount >= 0);
    } else {
        assert(p =~= s);
    }
}

/// The totals of a list of records with non-negative stakes are
/// non-negative, and no more jurors are active than there are.
pub proof fn lemma_aggregate_nonneg(s: Seq<(AccountId, JurorInfo)>)
    requires
        forall|k: int| 0 <= k < s.len() ==> (#[trigger] s[k]).1.stake_amount >= 0,
    ensures
        ({
            let t = aggregate_totals(s);
            0 <= t.1 <= t.0 && 0 <= t.2 && 0 <= t.3 && 0 <= t.4 && 0 <= t.5
        }),
    decreases s.len(),
{
    if s.len() > 0 {
        let d = s.drop_last();
        assert forall|k: int| 0 <= k < d.len() implies (#[trigger] d[k]).1.stake_amount >= 0 by {
            assert(d[k] == s[k]);
        }
        lemma_aggregate_nonneg(d);
        assert(s.last() == s[s.len() - 1]);
    }
}

/// The outcome of a committee vote: in favour of the debtor when more
/// revealed votes favour the debtor than the SME.
pub open spec fn outcome_favors_debtor(js: Seq<AccountId>, votes: Map<AccountId, JurorVote>) -> bool {
    count_revealed(js, votes, true) > count_revealed(js, votes, false)
}

/// Revealed votes on the winning side.
pub open spec fn winning_count(js: Seq<AccountId>, votes: Map<AccountId, JurorVote>) -> int {
    if outcome_favors_debtor(js, votes) {
        count_revealed(js, votes, true)
    } else {
        count_revealed(js, votes, false)
    }
}

pub open spec fn reveal_count(js: Seq<AccountId>, votes: Map<AccountId, JurorVote>) -> int {
    count_revealed(js, votes, true) + count_revealed(js, votes, false)
}

/// The vote reached its reveal quorum.
pub open spec fn quorum_reached(
    js: Seq<AccountId>,
    votes: Map<AccountId, JurorVote>,
    cfg: ArbitrationConfig,
) -> bool {
    reveal_count(js, votes) >= cfg.quorum_floor
}

/// The winning side holds at least the lopsided-confidence share of the
/// revealed votes (in bps, rounded down).
pub open spec fn is_lopsided(
    js: Seq<AccountId>,
    votes: Map<AccountId, JurorVote>,
    cfg: ArbitrationConfig,
) -> bool {
    (winning_count(js, votes) * MAX_BPS) / reveal_count(js, votes) >= cfg.lopsided_confidence_bps
}

/// The slashed stake the majority shares.
pub open spec fn settlement_pool(
    js: Seq<AccountId>,
    m: Map<AccountId, JurorInfo>,
    votes: Map<AccountId, JurorVote>,
    cfg: ArbitrationConfig,
) -> int {
    non_reveal_pool(js, m, votes, cfg.non_reveal_slash_bps, js.len() as int) + if is_lopsided(
        js,
        votes,
        cfg,
    ) {
        minority_pool(
            js,
            m,
            votes,
            !outcome_favors_debtor(js, votes),
            cfg.slash_bps,
            js.len() as int,
        )
    } else {
        0
    }
}

/// The juror records after a case with committee `js` is settled.
pub open spec fn settled_jurors(
    m: Map<AccountId, JurorInfo>,
    js: Seq<AccountId>,
    votes: Map<AccountId, JurorVote>,
    cfg: ArbitrationConfig,
) -> Map<AccountId, JurorInfo> {
    let m1 = apply_to(m, js, non_reveal_step(votes, cfg.non_reveal_slash_bps));
    if !quorum_reached(js, votes, cfg) {
        m1
    } else {
        let outcome = outcome_favors_debtor(js, votes);
        let m2 = apply_to(m1, js, verdict_step(votes, outcome, is_lopsided(js, votes, cfg), cfg.slash_bps));
        let pool = settlement_pool(js, m, votes, cfg);
        let total = majority_stake(js, m, votes, outcome, js.len() as int);
        if pool > 0 && winning_count(js, votes) > 0 && total > 0 {
            apply_to(m2, js, reward_step(votes, outcome, pool, total))
        } else {
            m2
        }
    }
}

/// The length in bytes of the UTF-8 encoding of a text, as `str::len`
/// reports it.
pub open spec fn utf8_len(text: Seq<char>) -> usize {
    encode_utf8(text).len() as usize
}

/// The cases listed for a juror in the juror-to-cases index.
pub open spec fn cases_in(index: Seq<(AccountId, Vec<u64>)>, juror: AccountId) -> Seq<u64> {
    if assoc_view(index).contains_key(juror) {
        assoc_view(index)[juror]@
    } else {
        Seq::empty()
    }
}

/// A vote slot with neither a commitment nor a reveal.
pub open spec fn empty_vote() -> JurorVote {
    JurorVote { commit_hash: None, revealed_vote: None }
}

/// The votes of a case once each committee member's slot is reset.
pub open spec fn reset_votes(votes: Map<AccountId, JurorVote>, committee: Seq<AccountId>) -> Map<
    AccountId,
    JurorVote,
> {
    Map::new(
        |k: AccountId| votes.contains_key(k) || committee.contains(k),
        |k: AccountId|
            if committee.contains(k) {
                empty_vote()
            } else {
                votes[k]
            },
    )
}

/// A juror's case list once the case is recorded for each committee member
/// (a case is listed once).
pub open spec fn with_case_recorded(
    index: Seq<(AccountId, Vec<u64>)>,
    committee: Seq<AccountId>,
    case_id: u64,
    juror: AccountId,
) -> Seq<u64> {
    if committee.contains(juror) && !cases_in(index, juror).contains(case_id) {
        cases_in(index, juror).push(case_id)
    } else {
        cases_in(index, juror)
    }
}

/// Case `i` has its id, a committee of distinct jurors, votes keyed by
/// juror, at most `MAX_EVIDENCE_ENTRIES` pieces of evidence, and no
/// committee drawn while its evidence window is open.
pub open spec fn case_wf(
    cases: Seq<DisputeCase>,
    votes: Seq<Vec<(AccountId, JurorVote)>>,
    evidence: Seq<Vec<EvidenceEntry>>,
    i: int,
) -> bool {
    let c = cases[i];
    &&& c.id == i
    &&& c.jurors@.no_duplicates()
    &&& keys_distinct(votes[i]@)
    &&& evidence[i]@.len() <= MAX_EVIDENCE_ENTRIES
    &&& c.status == CaseStatus::EvidenceWindow ==> c.retry_count == 0
}

/// What the contract keeps in storage. Jurors are listed in registration
/// order; case `k` is stored at position `k` of `cases`, and its evidence
/// and committee votes at position `k` of `evidence` and `votes`.
pub struct ArbitrationContract {
    pub admin: Option<AccountId>,
    pub paused: bool,
    pub config: Option<ArbitrationConfig>,
    pub invoice_contract: Option<AccountId>,
    pub jurors: Vec<(AccountId, JurorInfo)>,
    /// For each juror, the cases it was drawn for.
    pub juror_cases: Vec<(AccountId, Vec<u64>)>,
    pub cases: Vec<DisputeCase>,
    /// For each invoice, its most recently opened case.
    pub invoice_cases: Vec<(u64, u64)>,
    pub evidence: Vec<Vec<EvidenceEntry>>,
    pub votes: Vec<Vec<(AccountId, JurorVote)>>,
}

impl ArbitrationContract {
    pub open spec fn juror_map(&self) -> Map<AccountId, JurorInfo> {
        assoc_view(self.jurors@)
    }

    /// The registered jurors in registration order.
    pub open spec fn juror_ids(&self) -> Seq<AccountId> {
        self.jurors@.map_values(|e: (AccountId, JurorInfo)| e.0)
    }

    pub open spec fn case_exists(&self, case_id: u64) -> bool {
        case_id < self.cases@.len()
    }

    pub open spec fn case(&self, case_id: u64) -> DisputeCase {
        self.cases@[case_id as int]
    }

    /// The committee votes recorded for a case.
    pub open spec fn case_votes(&self, case_id: u64) -> Map<AccountId, JurorVote> {
        assoc_view(self.votes@[case_id as int]@)
    }

    /// The cases a juror was drawn for.
    pub open spec fn cases_of(&self, juror: AccountId) -> Seq<u64> {
        cases_in(self.juror_cases@, juror)
    }

    /// Juror entries are keyed by their own address and hold a
    /// non-negative stake.
    pub open spec fn jurors_wf(&self) -> bool {
        &&& keys_distinct(self.jurors@)
        &&& forall|i: int|
            0 <= i < self.jurors@.len() ==> #[trigger] self.jurors@[i].1.address == self.jurors@[i].0
                && self.jurors@[i].1.stake_amount >= 0
    }

    pub open spec fn wf(&self) -> bool {
        &&& self.admin is Some <==> self.config is Some
        &&& self.config matches Some(c) ==> config_valid(c)
        &&& self.jurors_wf()
        &&& keys_distinct(self.juror_cases@)
        &&& keys_distinct(self.invoice_cases@)
        &&& self.evidence@.len() == self.cases@.len()
        &&& self.votes@.len() == self.cases@.len()
        &&& forall|i: int|
            0 <= i < self.cases@.len() ==> #[trigger] case_wf(
                self.cases@,
                self.votes@,
                self.evidence@,
                i,
            )
    }

    /// A contract that has not been initialized.
    pub fn new() -> (r: Self)
        ensures
            r.wf(),
            r.admin is None,
            !r.paused,
            r.invoice_contract is None,
            r.jurors@.len() == 0,
            r.juror_cases@.len() == 0,
            r.cases@.len() == 0,
            r.invoice_cases@.len() == 0,
    {
        let r = ArbitrationContract {
            admin: None,
            paused: false,
            config: None,
            invoice_contract: None,
            jurors: Vec::new(),
            juror_cases: Vec::new(),
            cases: Vec::new(),
            invoice_cases: Vec::new(),
            evidence: Vec::new(),
            votes: Vec::new(),
        };
        proof {
            lemma_assoc_empty(r.jurors@);
            lemma_assoc_empty(r.juror_cases@);
            lemma_assoc_empty(r.invoice_cases@);
        }
        r
    }

    /// Sets the admin, the trusted invoice contract and the default
    /// configuration with the given stake token and minimum stake (the
    /// contract aborts on an error).
    pub fn initialize(
        &mut self,
        admin: AccountId,
        invoice_contract: AccountId,
        stake_token: AccountId,
        min_stake: i128,
    ) -> (r: Result<(), ArbitrationError>)
        requires
            old(self).wf(),
        ensures
            final(self).wf(),
            r == if old(self).admin is Some {
                Err(ArbitrationError::AlreadyInitialized)
            } else if min_stake <= 0 {
                Err(ArbitrationError::InvalidAmount)
            } else {
                Ok(())
            },
            r is Err ==> *final(self) == *old(self),
            r is Ok ==> *final(self) == (ArbitrationContract {
                admin: Some(admin),
                paused: false,
                invoice_contract: Some(invoice_contract),
                config: Some(default_config(stake_token, min_stake)),
                ..*old(self)
            }),
    {
        if self.admin.is_some() {
            return Err(ArbitrationError::AlreadyInitialized);
        }
        if min_stake <= 0 {
            return Err(ArbitrationError::InvalidAmount);
        }
        self.admin = Some(admin);
        self.paused = false;
        self.invoice_contract = Some(invoice_contract);
        self.config = Some(
            ArbitrationConfig {
                min_stake,
                stake_token,
                committee_size: DEFAULT_COMMITTEE_SIZE,
                quorum_floor: DEFAULT_QUORUM_FLOOR,
                evidence_window_secs: DEFAULT_EVIDENCE_WINDOW_SECS,
                commit_window_secs: DEFAULT_COMMIT_WINDOW_SECS,
                reveal_window_secs: DEFAULT_REVEAL_WINDOW_SECS,
                deregister_cooldown_secs: DEFAULT_DEREGISTER_COOLDOWN_SECS,
                slash_bps: DEFAULT_SLASH_BPS,
                non_reveal_slash_bps: DEFAULT_NON_REVEAL_SLASH_BPS,
                lopsided_confidence_bps: DEFAULT_LOPSIDED_CONFIDENCE_BPS,
                max_retries: DEFAULT_MAX_RETRIES,
            },
        );
        Ok(())
    }

    /// The admin check of the admin entry points.
    pub open spec fn admin_check(&self, admin: AccountId) -> Result<(), ArbitrationError> {
        match self.admin {
            None => Err(ArbitrationError::NotInitialized),
            Some(a) => if a != admin {
                Err(ArbitrationError::Unauthorized)
            } else {
                Ok(())
            },
        }
    }

    fn require_admin(&self, admin: AccountId) -> (r: Result<(), ArbitrationError>)
        ensures
            r == self.admin_check(admin),
    {
        match self.admin {
            None => Err(ArbitrationError::NotInitialized),
            Some(a) => if a != admin {
                Err(ArbitrationError::Unauthorized)
            } else {
                Ok(())
            },
        }
    }

    fn load_config(&self) -> (r: Result<ArbitrationConfig, ArbitrationError>)
        ensures
            r == match self.config {
                Some(c) => Ok(c),
                None => Err::<ArbitrationConfig, ArbitrationError>(ArbitrationError::NotInitialized),
            },
    {
        match self.config {
            Some(c) => Ok(c),
            None => Err(ArbitrationError::NotInitialized),
        }
    }

    fn require_not_paused(&self) -> (r: Result<(), ArbitrationError>)
        ensures
            r == if self.paused {
                Err(ArbitrationError::ContractPaused)
            } else {
                Ok(())
            },
    {
        if self.paused {
            Err(ArbitrationError::ContractPaused)
        } else {
            Ok(())
        }
    }

    pub fn set_invoice_contract(&mut self, admin: AccountId, invoice_contract: AccountId) -> (r:
        Result<(), ArbitrationError>)
        requires
            old(self).wf(),
        ensures
            final(self).wf(),
            r == old(self).admin_check(admin),
            r is Err ==> *final(self) == *old(self),
            r is Ok ==> *final(self) == (ArbitrationContract {
                invoice_contract: Some(invoice_contract),
                ..*old(self)
            }),
    {
        self.require_admin(admin)?;
        self.invoice_contract = Some(invoice_contract);
        Ok(())
    }

    pub fn get_invoice_contract(&self) -> (r: Option<AccountId>)
        ensures
            r == self.invoice_contract,
    {
        self.invoice_contract
    }

    /// Replaces the parameters wholesale, keeping the stake token (so the
    /// currency of stakes already locked never changes).
    pub fn set_config(&mut self, admin: AccountId, new_config: ArbitrationConfig) -> (r: Result<
        (),
        ArbitrationError,
    >)
        requires
            old(self).wf(),
        ensures
            final(self).wf(),
            r == match old(self).admin_check(admin) {
                Err(e) => Err(e),
                Ok(_) => if config_valid(new_config) {
                    Ok(())
                } else {
                    Err(ArbitrationError::InvalidConfig)
                },
            },
            r is Err ==> *final(self) == *old(self),
            r is Ok ==> *final(self) == (ArbitrationContract {
                config: Some(
                    ArbitrationConfig {
                        stake_token: old(self).config->Some_0.stake_token,
                        ..new_config
                    },
                ),
                ..*old(self)
            }),
    {
        self.require_admin(admin)?;
        if new_config.min_stake <= 0 || new_config.committee_size == 0 || new_config.quorum_floor
            == 0 || new_config.quorum_floor > new_config.committee_size
            || new_config.evidence_window_secs == 0 || new_config.commit_window_secs == 0
            || new_config.reveal_window_secs == 0 || new_config.slash_bps > 10_000
            || new_config.non_reveal_slash_bps > 10_000 || new_config.lopsided_confidence_bps == 0
            || new_config.lopsided_confidence_bps > 10_000 {
            return Err(ArbitrationError::InvalidConfig);
        }
        let old_config = self.load_config()?;
        let mut config = new_config;
        config.stake_token = old_config.stake_token;
        self.config = Some(config);
        Ok(())
    }

    pub fn get_config(&self) -> (r: Result<ArbitrationConfig, ArbitrationError>)
        ensures
            r == match self.config {
                Some(c) => Ok(c),
                None => Err::<ArbitrationConfig, ArbitrationError>(ArbitrationError::NotInitialized),
            },
    {
        self.load_config()
    }

    pub fn pause(&mut self, admin: AccountId) -> (r: Result<(), ArbitrationError>)
        requires
            old(self).wf(),
        ensures
            final(self).wf(),
            r == old(self).admin_check(admin),
            r is Err ==> *final(self) == *old(self),
            r is Ok ==> *final(self) == (ArbitrationContract { paused: true, ..*old(self) }),
    {
        self.require_admin(admin)?;
        self.paused = true;
        Ok(())
    }

    pub fn unpause(&mut self, admin: AccountId) -> (r: Result<(), ArbitrationError>)
        requires
            old(self).wf(),
        ensures
            final(self).wf(),
            r == old(self).admin_check(admin),
            r is Err ==> *final(self) == *old(self),
            r is Ok ==> *final(self) == (ArbitrationContract { paused: false, ..*old(self) }),
    {
        self.require_admin(admin)?;
        self.paused = false;
        Ok(())
    }

    pub fn is_paused(&self) -> (r: bool)
        ensures
            r == self.paused,
    {
        self.paused
    }

    pub open spec fn register_check(&self, operator: AccountId, stake_amount: i128) -> Result<
        (),
        ArbitrationError,
    > {
        if self.paused {
            Err(ArbitrationError::ContractPaused)
        } else if self.config is None {
            Err(ArbitrationError::NotInitialized)
        } else if stake_amount < self.config->Some_0.min_stake {
            Err(ArbitrationError::InsufficientStake)
        } else if self.juror_map().contains_key(operator) {
            Err(ArbitrationError::AlreadyRegistered)
        } else {
            Ok(())
        }
    }

    /// Registers `operator` as an active juror staking `stake_amount` of the
    /// configured stake token (the host moves the stake into the contract).
    pub fn register_juror(&mut self, operator: AccountId, stake_amount: i128, now: u64) -> (r: Result<
        (),
        ArbitrationError,
    >)
        requires
            old(self).wf(),
        ensures
            final(self).wf(),
            r == old(self).register_check(operator, stake_amount),
            r is Err ==> *final(self) == *old(self),
            r is Ok ==> *final(self) == (ArbitrationContract { jurors: final(self).jurors, ..*old(self) })
                && final(self).jurors@ == old(self).jurors@.push(
                (
                    operator,
                    JurorInfo {
                        address: operator,
                        stake_amount,
                        stake_token: old(self).config->Some_0.stake_token,
                        is_active: true,
                        cases_served: 0,
                        times_slashed: 0,
                        non_reveal_strikes: 0,
                        registered_at: now,
                        deregister_requested_at: None,
                    },
                ),
            ),
    {
        self.require_not_paused()?;
        let config = self.load_config()?;
        if stake_amount < config.min_stake {
            return Err(ArbitrationError::InsufficientStake);
        }
        if assoc_find(&self.jurors, operator).is_some() {
            return Err(ArbitrationError::AlreadyRegistered);
        }
        let info = JurorInfo {
            address: operator,
            stake_amount,
            stake_token: config.stake_token,
            is_active: true,
            cases_served: 0,
            times_slashed: 0,
            non_reveal_strikes: 0,
            registered_at: now,
            deregister_requested_at: None,
        };
        assoc_insert(&mut self.jurors, operator, info);
        Ok(())
    }

    /// A juror sits on a committee whose vote is still open, among the
    /// cases it was drawn for.
    pub open spec fn has_pending_case(&self, juror: AccountId) -> bool {
        exists|k: int|
            0 <= k < self.cases_of(juror).len() && {
                let id = #[trigger] self.cases_of(juror)[k];
                &&& self.case_exists(id)
                &&& self.case(id).status == CaseStatus::CommitReveal
                &&& self.case(id).jurors@.contains(juror)
            }
    }

    fn pending_case(&self, juror: AccountId) -> (r: bool)
        requires
            self.wf(),
        ensures
            r == self.has_pending_case(juror),
    {
        let ids = match assoc_get(&self.juror_cases, juror) {
            Some(v) => v,
            None => {
                return false;
            },
        };
        let mut i: usize = 0;
        while i < ids.len()
            invariant
                i <= ids@.len(),
                ids@ == self.cases_of(juror),
                self.wf(),
                forall|k: int|
                    0 <= k < i ==> !{
                        let id = #[trigger] self.cases_of(juror)[k];
                        &&& self.case_exists(id)
                        &&& self.case(id).status == CaseStatus::CommitReveal
                        &&& self.case(id).jurors@.contains(juror)
                    },
            decreases ids@.len() - i,
        {
            let id = ids[i];
            if id < self.cases.len() as u64 {
                let case = &self.cases[id as usize];
                if case.status == CaseStatus::CommitReveal && contains_account(&case.jurors, juror) {
                    return true;
                }
            }
            i = i + 1;
        }
        false
    }

    pub open spec fn deregister_outcome(&self, operator: AccountId, now: u64) -> Result<
        Option<i128>,
        ArbitrationError,
    > {
        if self.paused {
            Err(ArbitrationError::ContractPaused)
        } else if !self.juror_map().contains_key(operator) {
            Err(ArbitrationError::NotRegistered)
        } else if self.config is None {
            Err(ArbitrationError::NotInitialized)
        } else {
            let info = self.juror_map()[operator];
            match info.deregister_requested_at {
                None => if !info.is_active {
                    Err(ArbitrationError::NotRegistered)
                } else if self.has_pending_case(operator) {
                    Err(ArbitrationError::DeregisterHasPendingCases)
                } else {
                    Ok(None)
                },
                Some(t) => if now < saturating_add_u64_spec(
                    t,
                    self.config->Some_0.deregister_cooldown_secs,
                ) {
                    Err(ArbitrationError::DeregisterCooldownActive)
                } else {
                    Ok(Some(info.stake_amount))
                },
            }
        }
    }

    /// Two-phase deregistration. The first call (refused while the juror
    /// sits on a committee whose vote is open) deactivates the juror; the
    /// second, once the cooldown has passed, removes the record and returns
    /// the stake to be refunded (the host makes the transfer).
    pub fn deregister_juror(&mut self, operator: AccountId, now: u64) -> (r: Result<
        Option<i128>,
        ArbitrationError,
    >)
        requires
            old(self).wf(),
        ensures
            final(self).wf(),
            r == old(self).deregister_outcome(operator, now),
            r is Err ==> *final(self) == *old(self),
            r is Ok ==> *final(self) == (ArbitrationContract { jurors: final(self).jurors, ..*old(self) }),
            r == Ok::<Option<i128>, ArbitrationError>(None) ==> final(self).jurors@ == old(
                self,
            ).jurors@.update(
                key_index(old(self).jurors@, operator),
                (
                    operator,
                    JurorInfo {
                        is_active: false,
                        deregister_requested_at: Some(now),
                        ..old(self).juror_map()[operator]
                    },
                ),
            ),
            r == Ok::<Option<i128>, ArbitrationError>(None) ==> final(self).juror_map()
                == old(self).juror_map().insert(
                operator,
                JurorInfo {
                    is_active: false,
                    deregister_requested_at: Some(now),
                    ..old(self).juror_map()[operator]
                },
            ),
            r matches Ok(Some(_)) ==> final(self).jurors@ == old(self).jurors@.remove(
                key_index(old(self).jurors@, operator),
            ),
            r matches Ok(Some(_)) ==> final(self).juror_map() == old(self).juror_map().remove(
                operator,
            ),
    {
        self.require_not_paused()?;
        let info = match assoc_get(&self.jurors, operator) {
            Some(i) => *i,
            None => {
                return Err(ArbitrationError::NotRegistered);
            },
        };
        let config = self.load_config()?;
        match info.deregister_requested_at {
            None => {
                if !info.is_active {
                    return Err(ArbitrationError::NotRegistered);
                }
                if self.pending_case(operator) {
                    return Err(ArbitrationError::DeregisterHasPendingCases);
                }
                let mut updated = info;
                updated.is_active = false;
                updated.deregister_requested_at = Some(now);
                let ghost old_jurors = self.jurors@;
                assoc_insert(&mut self.jurors, operator, updated);
                proof {
                    self.lemma_jurors_update(old_jurors, operator);
                }
                Ok(None)
            },
            Some(requested_at) => {
                if now < saturating_add_u64(requested_at, config.deregister_cooldown_secs) {
                    return Err(ArbitrationError::DeregisterCooldownActive);
                }
                let stake_amount = info.stake_amount;
                let ghost old_jurors = self.jurors@;
                proof {
                    assert(crate::assoc::has_key(old_jurors, operator));
                }
                assoc_remove(&mut self.jurors, operator);
                proof {
                    assert forall|i: int| 0 <= i < self.jurors@.len() implies #[trigger] self.jurors@[i].1.address
                        == self.jurors@[i].0 && self.jurors@[i].1.stake_amount >= 0 by {
                        let k = crate::assoc::key_index(old_jurors, operator);
                        assert(0 <= k < old_jurors.len());
                        assert(self.jurors@ == old_jurors.remove(k));
                        let j = if i < k { i } else { i + 1 };
                        assert(self.jurors@[i] == old_jurors[j]);
                        assert(old_jurors[j].1.address == old_jurors[j].0);
                    }
                }
                Ok(Some(stake_amount))
            },
        }
    }

    /// The juror entries keep their addresses and non-negative stakes after
    /// one entry was replaced by an entry of the same juror.
    proof fn lemma_jurors_update(&self, old_jurors: Seq<(AccountId, JurorInfo)>, juror: AccountId)
        requires
            keys_distinct(old_jurors),
            forall|i: int|
                0 <= i < old_jurors.len() ==> #[trigger] old_jurors[i].1.address == old_jurors[i].0
                    && old_jurors[i].1.stake_amount >= 0,
            crate::assoc::has_key(old_jurors, juror),
            self.jurors@ == old_jurors.update(
                crate::assoc::key_index(old_jurors, juror),
                (juror, self.jurors@[crate::assoc::key_index(old_jurors, juror)].1),
            ),
            self.jurors@[crate::assoc::key_index(old_jurors, juror)].1.address == juror,
            self.jurors@[crate::assoc::key_index(old_jurors, juror)].1.stake_amount >= 0,
        ensures
            forall|i: int|
                0 <= i < self.jurors@.len() ==> #[trigger] self.jurors@[i].1.address == self.jurors@[i].0
                    && self.jurors@[i].1.stake_amount >= 0,
    {
        let k = crate::assoc::key_index(old_jurors, juror);
        assert(0 <= k < old_jurors.len() && old_jurors[k].0 == juror);
        assert forall|i: int| 0 <= i < self.jurors@.len() implies #[trigger] self.jurors@[i].1.address
            == self.jurors@[i].0 && self.jurors@[i].1.stake_amount >= 0 by {
            if i != k {
                assert(self.jurors@[i] == old_jurors[i]);
                assert(old_jurors[i].1.address == old_jurors[i].0);
            } else {
                assert(self.jurors@[i].0 == juror);
            }
        }
    }

    pub open spec fn open_check(
        &self,
        invoice: AccountId,
        claimant: AccountId,
        respondent: AccountId,
        amount: i128,
    ) -> Result<(), ArbitrationError> {
        if self.paused {
            Err(ArbitrationError::ContractPaused)
        } else if self.invoice_contract is None {
            Err(ArbitrationError::InvoiceContractNotSet)
        } else if self.invoice_contract != Some(invoice) {
            Err(ArbitrationError::Unauthorized)
        } else if amount <= 0 {
            Err(ArbitrationError::InvalidAmount)
        } else if claimant == respondent {
            Err(ArbitrationError::ClaimantCannotBeRespondent)
        } else if self.config is None {
            Err(ArbitrationError::NotInitialized)
        } else {
            Ok(())
        }
    }

    /// Opens a case for a disputed invoice; only the trusted invoice
    /// contract may. The evidence window opens now.
    pub fn open_case(
        &mut self,
        invoice: AccountId,
        invoice_id: u64,
        claimant: AccountId,
        respondent: AccountId,
        amount: i128,
        now: u64,
    ) -> (r: Result<u64, ArbitrationError>)
        requires
            old(self).wf(),
            old(self).cases@.len() < u64::MAX,
        ensures
            final(self).wf(),
            r is Ok <==> old(self).open_check(invoice, claimant, respondent, amount) is Ok,
            r is Err ==> r == Err::<u64, ArbitrationError>(
                old(self).open_check(invoice, claimant, respondent, amount)->Err_0,
            ),
            r is Err ==> *final(self) == *old(self),
            r is Ok ==> {
                let id = old(self).cases@.len();
                let c = final(self).case(id as u64);
                &&& r == Ok::<u64, ArbitrationError>(id as u64)
                &&& *final(self) == (ArbitrationContract {
                    cases: final(self).cases,
                    evidence: final(self).evidence,
                    votes: final(self).votes,
                    invoice_cases: final(self).invoice_cases,
                    ..*old(self)
                })
                &&& final(self).cases@.len() == id + 1
                &&& forall|j: int| 0 <= j < id ==> #[trigger] final(self).cases@[j] == old(self).cases@[j]
                &&& final(self).evidence@ == old(self).evidence@.push(final(self).evidence@[id as int])
                &&& final(self).evidence@[id as int]@.len() == 0
                &&& final(self).votes@ == old(self).votes@.push(final(self).votes@[id as int])
                &&& final(self).votes@[id as int]@.len() == 0
                &&& assoc_view(final(self).invoice_cases@) == assoc_view(old(self).invoice_cases@).insert(
                    invoice_id,
                    id as u64,
                )
                &&& c.id == id
                &&& c.invoice_id == invoice_id
                &&& c.claimant == claimant
                &&& c.respondent == respondent
                &&& c.amount == amount
                &&& c.opened_at == now
                &&& c.evidence_deadline == saturating_add_u64_spec(
                    now,
                    old(self).config->Some_0.evidence_window_secs,
                )
                &&& c.commit_deadline == 0
                &&& c.reveal_deadline == 0
                &&& c.jurors@.len() == 0
                &&& c.status == CaseStatus::EvidenceWindow
                &&& c.resolution == DisputeResolution::Pending
                &&& c.retry_count == 0
            },
    {
        self.require_not_paused()?;
        let stored = match self.invoice_contract {
            Some(a) => a,
            None => {
                return Err(ArbitrationError::InvoiceContractNotSet);
            },
        };
        if invoice != stored {
            return Err(ArbitrationError::Unauthorized);
        }
        if amount <= 0 {
            return Err(ArbitrationError::InvalidAmount);
        }
        if claimant == respondent {
            return Err(ArbitrationError::ClaimantCannotBeRespondent);
        }
        let config = self.load_config()?;
        let id = self.cases.len() as u64;
        let case = DisputeCase {
            id,
            invoice_id,
            claimant,
            respondent,
            amount,
            opened_at: now,
            evidence_deadline: saturating_add_u64(now, config.evidence_window_secs),
            commit_deadline: 0,
            reveal_deadline: 0,
            jurors: Vec::new(),
            status: CaseStatus::EvidenceWindow,
            resolution: DisputeResolution::Pending,
            retry_count: 0,
        };
        self.cases.push(case);
        self.evidence.push(Vec::new());
        self.votes.push(Vec::new());
        assoc_insert(&mut self.invoice_cases, invoice_id, id);
        proof {
            lemma_assoc_empty(self.votes@[id as int]@);
            assert forall|i: int| 0 <= i < self.cases@.len() implies #[trigger] case_wf(
                self.cases@,
                self.votes@,
                self.evidence@,
                i,
            ) by {
                if i < id {
                    assert(case_wf(old(self).cases@, old(self).votes@, old(self).evidence@, i));
                    assert(self.cases@[i] == old(self).cases@[i]);
                    assert(self.votes@[i] == old(self).votes@[i]);
                    assert(self.evidence@[i] == old(self).evidence@[i]);
                }
            }
        }
        Ok(id)
    }

    pub open spec fn evidence_check(
        &self,
        case_id: u64,
        submitter: AccountId,
        evidence_hash: Seq<char>,
        now: u64,
    ) -> Result<PartyRole, ArbitrationError> {
        if self.paused {
            Err(ArbitrationError::ContractPaused)
        } else if !self.case_exists(case_id) {
            Err(ArbitrationError::CaseNotFound)
        } else {
            let c = self.case(case_id);
            if c.status != CaseStatus::EvidenceWindow {
                Err(ArbitrationError::InvalidCaseStatus)
            } else if now > c.evidence_deadline {
                Err(ArbitrationError::WindowClosed)
            } else if submitter != c.claimant && submitter != c.respondent {
                Err(ArbitrationError::InvalidParty)
            } else if utf8_len(evidence_hash) > MAX_EVIDENCE_HASH_LEN {
                Err(ArbitrationError::EvidenceHashTooLong)
            } else if self.evidence@[case_id as int]@.len() >= MAX_EVIDENCE_ENTRIES {
                Err(ArbitrationError::EvidenceLimitReached)
            } else if submitter == c.claimant {
                Ok(PartyRole::Claimant)
            } else {
                Ok(PartyRole::Respondent)
            }
        }
    }

    /// Records a piece of evidence from one of the parties during the
    /// evidence window; each party may submit several, up to
    /// `MAX_EVIDENCE_ENTRIES` per case.
    pub fn submit_evidence(
        &mut self,
        case_id: u64,
        submitter: AccountId,
        evidence_hash: String,
        now: u64,
    ) -> (r: Result<(), ArbitrationError>)
        requires
            old(self).wf(),
        ensures
            final(self).wf(),
            r is Ok <==> old(self).evidence_check(case_id, submitter, evidence_hash@, now) is Ok,
            r is Err ==> r == Err::<(), ArbitrationError>(
                old(self).evidence_check(case_id, submitter, evidence_hash@, now)->Err_0,
            ),
            r is Err ==> *final(self) == *old(self),
            r is Ok ==> {
                let e = final(self).evidence@[case_id as int]@.last();
                &&& *final(self) == (ArbitrationContract {
                    evidence: final(self).evidence,
                    ..*old(self)
                })
                &&& final(self).evidence@ == old(self).evidence@.update(
                    case_id as int,
                    final(self).evidence@[case_id as int],
                )
                &&& final(self).evidence@[case_id as int]@.drop_last()
                    == old(self).evidence@[case_id as int]@
                &&& final(self).evidence@[case_id as int]@.len() == old(
                    self,
                ).evidence@[case_id as int]@.len() + 1
                &&& e.submitter == submitter
                &&& e.party == old(self).evidence_check(
                    case_id,
                    submitter,
                    evidence_hash@,
                    now,
                )->Ok_0
                &&& e.evidence_hash == evidence_hash
                &&& e.submitted_at == now
            },
    {
        self.require_not_paused()?;
        if case_id >= self.cases.len() as u64 {
            return Err(ArbitrationError::CaseNotFound);
        }
        let idx = case_id as usize;
        if self.cases[idx].status != CaseStatus::EvidenceWindow {
            return Err(ArbitrationError::InvalidCaseStatus);
        }
        if now > self.cases[idx].evidence_deadline {
            return Err(ArbitrationError::WindowClosed);
        }
        let party = if submitter == self.cases[idx].claimant {
            PartyRole::Claimant
        } else if submitter == self.cases[idx].respondent {
            PartyRole::Respondent
        } else {
            return Err(ArbitrationError::InvalidParty);
        };
        let hash_str = evidence_hash.as_str();
        let hash_len = hash_str.len();
        proof {
            assert(hash_str@ == evidence_hash@);
            assert(hash_len == utf8_len(evidence_hash@));
        }
        if hash_len > MAX_EVIDENCE_HASH_LEN {
            return Err(ArbitrationError::EvidenceHashTooLong);
        }
        if self.evidence[idx].len() >= MAX_EVIDENCE_ENTRIES {
            return Err(ArbitrationError::EvidenceLimitReached);
        }
        let ghost old_ev = self.evidence@;
        let mut entries = self.evidence.remove(idx);
        entries.push(EvidenceEntry { submitter, party, evidence_hash, submitted_at: now });
        self.evidence.insert(idx, entries);
        proof {
            assert(self.evidence@ =~= old_ev.update(idx as int, self.evidence@[idx as int]));
            assert(self.evidence@[idx as int]@.drop_last() =~= old_ev[idx as int]@);
            assert forall|i: int| 0 <= i < self.cases@.len() implies #[trigger] case_wf(
                self.cases@,
                self.votes@,
                self.evidence@,
                i,
            ) by {
                assert(case_wf(old(self).cases@, old(self).votes@, old(self).evidence@, i));
                if i != idx {
                    assert(self.evidence@[i] == old_ev[i]);
                }
            }
        }
        Ok(())
    }

    /// The minimum stake, or zero before initialization.
    pub open spec fn min_stake_or_zero(&self) -> i128 {
        match self.config {
            Some(c) => c.min_stake,
            None => 0,
        }
    }

    /// The jurors a committee can be drawn from.
    pub open spec fn eligible_pool(&self) -> Seq<AccountId> {
        eligible_jurors(self.jurors@, self.min_stake_or_zero())
    }

    /// The jurors a committee can be drawn from, in registration order.
    pub fn active_pool(&self) -> (r: Vec<AccountId>)
        ensures
            r@ == self.eligible_pool(),
    {
        let min_stake = match self.config {
            Some(c) => c.min_stake,
            None => 0,
        };
        let mut r: Vec<AccountId> = Vec::new();
        let mut i: usize = 0;
        while i < self.jurors.len()
            invariant
                i <= self.jurors@.len(),
                min_stake == self.min_stake_or_zero(),
                r@ == eligible_jurors(self.jurors@.take(i as int), min_stake),
            decreases self.jurors@.len() - i,
        {
            let ghost before = self.jurors@.take(i as int);
            let info = self.jurors[i].1;
            if info.is_active && info.deregister_requested_at.is_none() && info.stake_amount
                >= min_stake {
                r.push(self.jurors[i].0);
            }
            i = i + 1;
            assert(self.jurors@.take(i as int).drop_last() =~= before);
        }
        assert(self.jurors@.take(self.jurors@.len() as int) =~= self.jurors@);
        r
    }

    pub open spec fn select_check(&self, case_id: u64, now: u64) -> Result<(), ArbitrationError> {
        if self.paused {
            Err(ArbitrationError::ContractPaused)
        } else if !self.case_exists(case_id) {
            Err(ArbitrationError::CaseNotFound)
        } else if self.config is None {
            Err(ArbitrationError::NotInitialized)
        } else {
            let c = self.case(case_id);
            let cfg = self.config->Some_0;
            if c.status == CaseStatus::EvidenceWindow && now <= c.evidence_deadline {
                Err(ArbitrationError::WindowNotClosed)
            } else if c.status == CaseStatus::NoQuorumEscalated && c.retry_count >= max_draws(cfg) {
                Err(ArbitrationError::RetriesExhausted)
            } else if c.status != CaseStatus::EvidenceWindow && c.status
                != CaseStatus::NoQuorumEscalated {
                Err(ArbitrationError::InvalidCaseStatus)
            } else if self.eligible_pool().len() < cfg.committee_size {
                Err(ArbitrationError::NotEnoughActiveJurors)
            } else {
                Ok(())
            }
        }
    }

    /// Records `case_id` in the case list of `juror`, once.
    fn append_juror_case(&mut self, juror: AccountId, case_id: u64)
        requires
            keys_distinct(old(self).juror_cases@),
        ensures
            keys_distinct(final(self).juror_cases@),
            forall|k: AccountId| #[trigger] cases_in(final(self).juror_cases@, k)
                == with_case_recorded(old(self).juror_cases@, seq![juror], case_id, k),
            *final(self) == (ArbitrationContract { juror_cases: final(self).juror_cases, ..*old(self) }),
    {
        let mut ids: Vec<u64> = match assoc_get(&self.juror_cases, juror) {
            Some(v) => copy_ids(v),
            None => Vec::new(),
        };
        if !contains_id(&ids, case_id) {
            ids.push(case_id);
            assoc_insert(&mut self.juror_cases, juror, ids);
        }
        proof {
            assert forall|k: AccountId| #[trigger] cases_in(self.juror_cases@, k) == with_case_recorded(
                old(self).juror_cases@,
                seq![juror],
                case_id,
                k,
            ) by {
                assert(seq![juror].contains(k) <==> k == juror) by {
                    if k == juror {
                        assert(seq![juror][0] == k);
                    }
                }
            }
        }
    }

    /// The state after the committee of `case_id` was drawn at `now` as the
    /// first `committee_size` jurors of `order`: the commit and reveal
    /// windows open, the members' vote slots are cleared and the case is
    /// listed for each member; nothing else changes.
    pub open spec fn committee_drawn(
        old: ArbitrationContract,
        new: ArbitrationContract,
        case_id: u64,
        now: u64,
        order: Seq<AccountId>,
    ) -> bool {
        let cfg = old.config->Some_0;
        let c = old.case(case_id);
        let d = new.case(case_id);
        let committee = order.take(cfg.committee_size as int);
        &&& new == (ArbitrationContract {
            cases: new.cases,
            votes: new.votes,
            juror_cases: new.juror_cases,
            ..old
        })
        &&& new.cases@.len() == old.cases@.len()
        &&& forall|j: int|
            0 <= j < old.cases@.len() && j != case_id ==> #[trigger] new.cases@[j]
                == old.cases@[j]
        &&& d.id == c.id && d.invoice_id == c.invoice_id && d.claimant == c.claimant
        &&& d.respondent == c.respondent && d.amount == c.amount && d.opened_at == c.opened_at
        &&& d.evidence_deadline == c.evidence_deadline && d.resolution == c.resolution
        &&& d.jurors@ == committee
        &&& d.status == CaseStatus::CommitReveal
        &&& d.commit_deadline == saturating_add_u64_spec(now, cfg.commit_window_secs)
        &&& d.reveal_deadline == saturating_add_u64_spec(
            d.commit_deadline,
            cfg.reveal_window_secs,
        )
        &&& d.retry_count == c.retry_count + 1
        &&& new.votes@ == old.votes@.update(
            case_id as int,
            new.votes@[case_id as int],
        )
        &&& new.case_votes(case_id) == reset_votes(
            old.case_votes(case_id),
            committee,
        )
        &&& forall|k: AccountId| #[trigger] new.cases_of(k) == with_case_recorded(
            old.juror_cases@,
            committee,
            case_id,
            k,
        )
    }

    /// Draws the committee of a case whose evidence window has closed (or
    /// whose previous committee missed quorum, while a re-draw remains):
    /// the first `committee_size` jurors of `shuffled`, the host's random
    /// shuffle of the eligible pool (`active_pool`), so every eligible juror
    /// has the same odds whatever its stake. Opens the commit and reveal
    /// windows and clears the members' vote slots.
    #[verifier::spinoff_prover]
    pub fn select_jurors(&mut self, case_id: u64, now: u64, shuffled: Vec<AccountId>) -> (r: Result<
        (),
        ArbitrationError,
    >)
        requires
            old(self).wf(),
            old(self).select_check(case_id, now) is Ok ==> is_shuffle_of(
                shuffled@,
                old(self).eligible_pool(),
            ),
        ensures
            final(self).wf(),
            r == old(self).select_check(case_id, now),
            r is Err ==> *final(self) == *old(self),
            r is Ok ==> Self::committee_drawn(*old(self), *final(self), case_id, now, shuffled@),
    {
        self.require_not_paused()?;
        if case_id >= self.cases.len() as u64 {
            return Err(ArbitrationError::CaseNotFound);
        }
        let idx = case_id as usize;
        let config = self.load_config()?;
        proof {
            assert(case_wf(old(self).cases@, old(self).votes@, old(self).evidence@, idx as int));
        }
        let max_draws = if config.max_retries == u32::MAX {
            u32::MAX
        } else {
            config.max_retries + 1
        };
        match self.cases[idx].status {
            CaseStatus::EvidenceWindow => {
                if now <= self.cases[idx].evidence_deadline {
                    return Err(ArbitrationError::WindowNotClosed);
                }
            },
            CaseStatus::NoQuorumEscalated => {
                if self.cases[idx].retry_count >= max_draws {
                    return Err(ArbitrationError::RetriesExhausted);
                }
            },
            _ => {
                return Err(ArbitrationError::InvalidCaseStatus);
            },
        }
        let pool = self.active_pool();
        if pool.len() < config.committee_size as usize {
            return Err(ArbitrationError::NotEnoughActiveJurors);
        }
        let size = config.committee_size as usize;
        let mut committee: Vec<AccountId> = Vec::new();
        let mut i: usize = 0;
        while i < size
            invariant
                size <= shuffled@.len(),
                i <= size,
                committee@ == shuffled@.take(i as int),
            decreases size - i,
        {
            committee.push(shuffled[i]);
            i = i + 1;
            assert(committee@ =~= shuffled@.take(i as int));
        }
        proof {
            assert(committee@.no_duplicates()) by {
                assert forall|x: int, y: int| 0 <= x < y < committee@.len() implies committee@[x]
                    != committee@[y] by {
                    assert(committee@[x] == shuffled@[x] && committee@[y] == shuffled@[y]);
                }
            }
        }
        let ghost old_cases = self.cases@;
        let mut case = self.cases.remove(idx);
        case.jurors = copy_accounts(&committee);
        case.status = CaseStatus::CommitReveal;
        case.commit_deadline = saturating_add_u64(now, config.commit_window_secs);
        case.reveal_deadline = saturating_add_u64(case.commit_deadline, config.reveal_window_secs);
        case.retry_count = case.retry_count + 1;
        self.cases.insert(idx, case);
        proof {
            assert(self.cases@ =~= old_cases.update(idx as int, self.cases@[idx as int]));
        }
        let ghost old_votes = self.votes@;
        let mut slots = self.votes.remove(idx);
        proof {
            assert(slots == old_votes[idx as int]);
            assert(case_wf(old(self).cases@, old(self).votes@, old(self).evidence@, idx as int));
        }
        let mut j: usize = 0;
        while j < committee.len()
            invariant
                j <= committee@.len(),
                keys_distinct(slots@),
                assoc_view(slots@) == reset_votes(
                    assoc_view(old_votes[idx as int]@),
                    committee@.take(j as int),
                ),
            decreases committee@.len() - j,
        {
            let ghost before = assoc_view(slots@);
            assoc_insert(&mut slots, committee[j], JurorVote { commit_hash: None, revealed_vote: None });
            j = j + 1;
            proof {
                let m = assoc_view(old_votes[idx as int]@);
                let t = committee@.take(j as int);
                let t0 = committee@.take(j - 1);
                assert(t =~= t0.push(committee@[j - 1]));
                assert(reset_votes(m, t) =~= before.insert(committee@[j - 1], empty_vote())) by {
                    assert forall|k: AccountId| #[trigger] t.contains(k) <==> t0.contains(k) || k
                        == committee@[j - 1] by {
                        if t.contains(k) {
                            let x = choose|x: int| 0 <= x < t.len() && t[x] == k;
                            if x < j - 1 {
                                assert(t0[x] == k);
                            }
                        }
                        if t0.contains(k) {
                            let x = choose|x: int| 0 <= x < t0.len() && t0[x] == k;
                            assert(t[x] == k);
                        }
                        if k == committee@[j - 1] {
                            assert(t[j - 1] == k);
                        }
                    }
                }
            }
        }
        self.votes.insert(idx, slots);
        proof {
            assert(committee@.take(committee@.len() as int) =~= committee@);
            assert(self.votes@ =~= old_votes.update(idx as int, self.votes@[idx as int]));
        }
        let ghost old_index = self.juror_cases@;
        let ghost mid = *self;
        let mut k: usize = 0;
        while k < committee.len()
            invariant
                k <= committee@.len(),
                *self == (ArbitrationContract { juror_cases: self.juror_cases, ..mid }),
                keys_distinct(self.juror_cases@),
                forall|a: AccountId| #[trigger] cases_in(self.juror_cases@, a) == with_case_recorded(
                    old_index,
                    committee@.take(k as int),
                    case_id,
                    a,
                ),
                committee@.no_duplicates(),
            decreases committee@.len() - k,
        {
            let ghost before = self.juror_cases@;
            let jk = committee[k];
            self.append_juror_case(jk, case_id);
            k = k + 1;
            proof {
                let t = committee@.take(k as int);
                let t0 = committee@.take(k - 1);
                assert(t =~= t0.push(jk));
                assert(!t0.contains(jk)) by {
                    if t0.contains(jk) {
                        let x = choose|x: int| 0 <= x < t0.len() && t0[x] == jk;
                        assert(committee@[x] == committee@[k - 1]);
                    }
                }
                assert forall|a: AccountId| #[trigger] cases_in(self.juror_cases@, a)
                    == with_case_recorded(old_index, t, case_id, a) by {
                    assert(cases_in(before, a) == with_case_recorded(old_index, t0, case_id, a));
                    assert(seq![jk].contains(a) <==> a == jk) by {
                        if a == jk {
                            assert(seq![jk][0] == a);
                        }
                    }
                    assert(t.contains(a) <==> t0.contains(a) || a == jk) by {
                        if t.contains(a) {
                            let x = choose|x: int| 0 <= x < t.len() && t[x] == a;
                            if x < k - 1 {
                                assert(t0[x] == a);
                            }
                        }
                        if t0.contains(a) {
                            let x = choose|x: int| 0 <= x < t0.len() && t0[x] == a;
                            assert(t[x] == a);
                        }
                        if a == jk {
                            assert(t[k - 1] == a);
                        }
                    }
                }
            }
        }
        proof {
            assert(committee@.take(committee@.len() as int) =~= committee@);
            assert forall|i: int| 0 <= i < self.cases@.len() implies #[trigger] case_wf(
                self.cases@,
                self.votes@,
                self.evidence@,
                i,
            ) by {
                assert(case_wf(old(self).cases@, old(self).votes@, old(self).evidence@, i));
                if i != idx {
                    assert(self.cases@[i] == old(self).cases@[i]);
                    assert(self.votes@[i] == old(self).votes@[i]);
                }
            }
            assert(self.jurors == old(self).jurors);
            assert(self.jurors_wf());
            assert(keys_distinct(self.juror_cases@));
            assert(self.evidence@.len() == self.cases@.len());
            assert(self.votes@.len() == self.cases@.len());
        }
        Ok(())
    }

    /// Replaces the vote slot of `juror` on case `idx`.
    fn set_vote(&mut self, idx: usize, juror: AccountId, vote: JurorVote)
        requires
            old(self).wf(),
            idx < old(self).cases@.len(),
        ensures
            final(self).wf(),
            *final(self) == (ArbitrationContract { votes: final(self).votes, ..*old(self) }),
            final(self).votes@ == old(self).votes@.update(idx as int, final(self).votes@[idx as int]),
            final(self).case_votes(idx as u64) == old(self).case_votes(idx as u64).insert(juror, vote),
    {
        let ghost old_votes = self.votes@;
        proof {
            assert(case_wf(old(self).cases@, old(self).votes@, old(self).evidence@, idx as int));
        }
        let mut slots = self.votes.remove(idx);
        assert(slots == old_votes[idx as int]);
        assoc_insert(&mut slots, juror, vote);
        self.votes.insert(idx, slots);
        proof {
            assert(self.votes@ =~= old_votes.update(idx as int, self.votes@[idx as int]));
            assert forall|i: int| 0 <= i < self.cases@.len() implies #[trigger] case_wf(
                self.cases@,
                self.votes@,
                self.evidence@,
                i,
            ) by {
                assert(case_wf(old(self).cases@, old(self).votes@, old(self).evidence@, i));
                if i != idx {
                    assert(self.votes@[i] == old_votes[i]);
                }
            }
        }
    }

    pub open spec fn commit_check(&self, case_id: u64, juror: AccountId, now: u64) -> Result<
        (),
        ArbitrationError,
    > {
        if self.paused {
            Err(ArbitrationError::ContractPaused)
        } else if !self.case_exists(case_id) {
            Err(ArbitrationError::CaseNotFound)
        } else {
            let c = self.case(case_id);
            if c.status != CaseStatus::CommitReveal {
                Err(ArbitrationError::InvalidCaseStatus)
            } else if now > c.commit_deadline {
                Err(ArbitrationError::WindowClosed)
            } else if !c.jurors@.contains(juror) || !self.case_votes(case_id).contains_key(juror) {
                Err(ArbitrationError::NotSelectedJuror)
            } else if self.case_votes(case_id)[juror].commit_hash is Some {
                Err(ArbitrationError::AlreadyCommitted)
            } else {
                Ok(())
            }
        }
    }

    /// Records a committee member's commitment `sha256(vote byte || salt)`
    /// before the commit deadline; a juror commits once.
    pub fn commit_vote(&mut self, case_id: u64, juror: AccountId, commit_hash: [u8; 32], now: u64) -> (r:
        Result<(), ArbitrationError>)
        requires
            old(self).wf(),
        ensures
            final(self).wf(),
            r == old(self).commit_check(case_id, juror, now),
            r is Err ==> *final(self) == *old(self),
            r is Ok ==> {
                &&& *final(self) == (ArbitrationContract { votes: final(self).votes, ..*old(self) })
                &&& final(self).votes@ == old(self).votes@.update(
                    case_id as int,
                    final(self).votes@[case_id as int],
                )
                &&& final(self).case_votes(case_id) == old(self).case_votes(case_id).insert(
                    juror,
                    JurorVote {
                        commit_hash: Some(commit_hash),
                        ..old(self).case_votes(case_id)[juror]
                    },
                )
            },
    {
        self.require_not_paused()?;
        if case_id >= self.cases.len() as u64 {
            return Err(ArbitrationError::CaseNotFound);
        }
        let idx = case_id as usize;
        if self.cases[idx].status != CaseStatus::CommitReveal {
            return Err(ArbitrationError::InvalidCaseStatus);
        }
        if now > self.cases[idx].commit_deadline {
            return Err(ArbitrationError::WindowClosed);
        }
        if !contains_account(&self.cases[idx].jurors, juror) {
            return Err(ArbitrationError::NotSelectedJuror);
        }
        proof {
            assert(case_wf(old(self).cases@, old(self).votes@, old(self).evidence@, idx as int));
        }
        let vote = match assoc_get(&self.votes[idx], juror) {
            Some(v) => *v,
            None => {
                return Err(ArbitrationError::NotSelectedJuror);
            },
        };
        if vote.commit_hash.is_some() {
            return Err(ArbitrationError::AlreadyCommitted);
        }
        let updated = JurorVote { commit_hash: Some(commit_hash), revealed_vote: vote.revealed_vote };
        self.set_vote(idx, juror, updated);
        Ok(())
    }

    pub open spec fn reveal_check(
        &self,
        case_id: u64,
        juror: AccountId,
        vote_choice: bool,
        salt: Seq<u8>,
        now: u64,
    ) -> Result<(), ArbitrationError> {
        if self.paused {
            Err(ArbitrationError::ContractPaused)
        } else if !self.case_exists(case_id) {
            Err(ArbitrationError::CaseNotFound)
        } else {
            let c = self.case(case_id);
            let v = self.case_votes(case_id)[juror];
            if c.status != CaseStatus::CommitReveal {
                Err(ArbitrationError::InvalidCaseStatus)
            } else if now <= c.commit_deadline {
                Err(ArbitrationError::WindowNotClosed)
            } else if now > c.reveal_deadline {
                Err(ArbitrationError::WindowClosed)
            } else if !c.jurors@.contains(juror) || !self.case_votes(case_id).contains_key(juror) {
                Err(ArbitrationError::NotSelectedJuror)
            } else if v.commit_hash is None {
                Err(ArbitrationError::NotCommitted)
            } else if v.revealed_vote is Some {
                Err(ArbitrationError::AlreadyRevealed)
            } else if sha256_digest(commit_preimage(vote_choice, salt)) != v.commit_hash->Some_0@ {
                Err(ArbitrationError::RevealMismatch)
            } else {
                Ok(())
            }
        }
    }

    /// Reveals a committed vote after the commit deadline and by the reveal
    /// deadline; the vote and salt must hash to the commitment.
    pub fn reveal_vote(
        &mut self,
        env: &soroban_sdk::Env,
        case_id: u64,
        juror: AccountId,
        vote_choice: bool,
        salt: [u8; 32],
        now: u64,
    ) -> (r: Result<(), ArbitrationError>)
        requires
            old(self).wf(),
        ensures
            final(self).wf(),
            r == old(self).reveal_check(case_id, juror, vote_choice, salt@, now),
            r is Err ==> *final(self) == *old(self),
            r is Ok ==> {
                &&& *final(self) == (ArbitrationContract { votes: final(self).votes, ..*old(self) })
                &&& final(self).votes@ == old(self).votes@.update(
                    case_id as int,
                    final(self).votes@[case_id as int],
                )
                &&& final(self).case_votes(case_id) == old(self).case_votes(case_id).insert(
                    juror,
                    JurorVote {
                        revealed_vote: Some(vote_choice),
                        ..old(self).case_votes(case_id)[juror]
                    },
                )
            },
    {
        self.require_not_paused()?;
        if case_id >= self.cases.len() as u64 {
            return Err(ArbitrationError::CaseNotFound);
        }
        let idx = case_id as usize;
        if self.cases[idx].status != CaseStatus::CommitReveal {
            return Err(ArbitrationError::InvalidCaseStatus);
        }
        if now <= self.cases[idx].commit_deadline {
            return Err(ArbitrationError::WindowNotClosed);
        }
        if now > self.cases[idx].reveal_deadline {
            return Err(ArbitrationError::WindowClosed);
        }
        if !contains_account(&self.cases[idx].jurors, juror) {
            return Err(ArbitrationError::NotSelectedJuror);
        }
        proof {
            assert(case_wf(old(self).cases@, old(self).votes@, old(self).evidence@, idx as int));
        }
        let vote = match assoc_get(&self.votes[idx], juror) {
            Some(v) => *v,
            None => {
                return Err(ArbitrationError::NotSelectedJuror);
            },
        };
        let committed = match vote.commit_hash {
            Some(h) => h,
            None => {
                return Err(ArbitrationError::NotCommitted);
            },
        };
        if vote.revealed_vote.is_some() {
            return Err(ArbitrationError::AlreadyRevealed);
        }
        let computed = commit_hash_of(env, vote_choice, &salt);
        if !same_digest(&computed, &committed) {
            return Err(ArbitrationError::RevealMismatch);
        }
        let updated = JurorVote { commit_hash: vote.commit_hash, revealed_vote: Some(vote_choice) };
        self.set_vote(idx, juror, updated);
        Ok(())
    }

    /// The revealed vote of `juror` on case `idx`, if any.
    fn revealed_vote_of(&self, idx: usize, juror: AccountId) -> (r: Option<bool>)
        requires
            idx < self.cases@.len(),
            idx < self.votes@.len(),
            keys_distinct(self.votes@[idx as int]@),
        ensures
            r == revealed_of(self.case_votes(idx as u64), juror),
    {
        match assoc_get(&self.votes[idx], juror) {
            Some(v) => v.revealed_vote,
            None => None,
        }
    }

    /// Replaces the record of a registered juror.
    fn put_juror(&mut self, juror: AccountId, info: JurorInfo)
        requires
            old(self).jurors_wf(),
            old(self).juror_map().contains_key(juror),
            info.address == juror,
            info.stake_amount >= 0,
        ensures
            final(self).jurors_wf(),
            final(self).juror_map() == old(self).juror_map().insert(juror, info),
            *final(self) == (ArbitrationContract { jurors: final(self).jurors, ..*old(self) }),
            final(self).juror_ids() == old(self).juror_ids(),
    {
        let ghost old_jurors = self.jurors@;
        proof {
            assert(crate::assoc::has_key(old_jurors, juror));
        }
        assoc_insert(&mut self.jurors, juror, info);
        proof {
            self.lemma_jurors_update(old_jurors, juror);
            assert(self.juror_ids() =~= old(self).juror_ids());
        }
    }

    /// The record of a registered juror, with its address.
    fn juror_record(&self, juror: AccountId) -> (r: Option<JurorInfo>)
        requires
            self.jurors_wf(),
        ensures
            r is Some <==> self.juror_map().contains_key(juror),
            r is Some ==> r->Some_0 == self.juror_map()[juror] && r->Some_0.address == juror
                && r->Some_0.stake_amount >= 0,
    {
        match assoc_find(&self.jurors, juror) {
            Some(pos) => {
                proof {
                    lemma_assoc_entry(self.jurors@, pos as int);
                    assert(self.jurors@[pos as int].1.address == self.jurors@[pos as int].0);
                }
                Some(self.jurors[pos].1)
            },
            None => None,
        }
    }

    /// The records of the juror map carry their own address and a
    /// non-negative stake.
    proof fn lemma_juror_map_wf(&self)
        requires
            self.jurors_wf(),
        ensures
            forall|k: AccountId| #[trigger] self.juror_map().contains_key(k) ==> self.juror_map()[k].address
                == k && self.juror_map()[k].stake_amount >= 0,
    {
        assert forall|k: AccountId| #[trigger] self.juror_map().contains_key(k) implies self.juror_map()[k].address
            == k && self.juror_map()[k].stake_amount >= 0 by {
            let i = crate::assoc::key_index(self.jurors@, k);
            assert(crate::assoc::has_key(self.jurors@, k));
            lemma_assoc_entry(self.jurors@, i);
            assert(self.jurors@[i].1.address == self.jurors@[i].0);
        }
    }

    /// Counts the revealed votes of a committee in favour of the debtor and
    /// of the SME.
    fn tally(&self, idx: usize, committee: &Vec<AccountId>) -> (r: (u32, u32))
        requires
            idx < self.cases@.len(),
            idx < self.votes@.len(),
            keys_distinct(self.votes@[idx as int]@),
            committee@.len() * 10_000 <= u32::MAX,
        ensures
            r.0 == count_revealed(committee@, self.case_votes(idx as u64), true),
            r.1 == count_revealed(committee@, self.case_votes(idx as u64), false),
            r.0 + r.1 <= committee@.len(),
    {
        let ghost votes = self.case_votes(idx as u64);
        let mut favor_debtor: u32 = 0;
        let mut favor_sme: u32 = 0;
        let mut i: usize = 0;
        while i < committee.len()
            invariant
                i <= committee@.len(),
                idx < self.cases@.len(),
                idx < self.votes@.len(),
                keys_distinct(self.votes@[idx as int]@),
                votes == self.case_votes(idx as u64),
                committee@.len() * 10_000 <= u32::MAX,
                favor_debtor == count_revealed_upto(committee@, votes, true, i as int),
                favor_sme == count_revealed_upto(committee@, votes, false, i as int),
                favor_debtor + favor_sme <= i,
            decreases committee@.len() - i,
        {
            match self.revealed_vote_of(idx, committee[i]) {
                Some(true) => {
                    favor_debtor = favor_debtor + 1;
                },
                Some(false) => {
                    favor_sme = favor_sme + 1;
                },
                None => {},
            }
            i = i + 1;
        }
        (favor_debtor, favor_sme)
    }

    /// Credits a registered juror with one more case served.
    fn bump_cases_served(&mut self, juror: AccountId)
        requires
            old(self).jurors_wf(),
            old(self).juror_map().contains_key(juror) ==> old(self).juror_map()[juror].cases_served
                < u32::MAX,
        ensures
            final(self).jurors_wf(),
            *final(self) == (ArbitrationContract { jurors: final(self).jurors, ..*old(self) }),
            final(self).juror_ids() == old(self).juror_ids(),
            final(self).juror_map() == if old(self).juror_map().contains_key(juror) {
                old(self).juror_map().insert(juror, majority_credit(old(self).juror_map()[juror]))
            } else {
                old(self).juror_map()
            },
    {
        match self.juror_record(juror) {
            Some(info) => {
                let updated = JurorInfo { cases_served: info.cases_served + 1, ..info };
                self.put_juror(juror, updated);
            },
            None => {},
        }
    }

    /// Slashes `bps` of a registered juror's stake and counts the slash;
    /// returns the amount taken (nothing for an unknown juror).
    fn slash_juror(&mut self, juror: AccountId, bps: u32) -> (amount: i128)
        requires
            old(self).jurors_wf(),
            bps <= MAX_BPS,
            old(self).juror_map().contains_key(juror) ==> old(self).juror_map()[juror].stake_amount
                <= MAX_COMMITTEE_STAKE && old(self).juror_map()[juror].times_slashed < u32::MAX,
        ensures
            final(self).jurors_wf(),
            *final(self) == (ArbitrationContract { jurors: final(self).jurors, ..*old(self) }),
            final(self).juror_ids() == old(self).juror_ids(),
            final(self).juror_map() == if old(self).juror_map().contains_key(juror) {
                old(self).juror_map().insert(juror, minority_slash(old(self).juror_map()[juror], bps))
            } else {
                old(self).juror_map()
            },
            amount == if old(self).juror_map().contains_key(juror) {
                slash_amount(old(self).juror_map()[juror].stake_amount, bps)
            } else {
                0
            },
            amount >= 0,
    {
        match self.juror_record(juror) {
            Some(info) => {
                proof {
                    lemma_slash_bounds(info.stake_amount as int, bps as int);
                }
                let amount = (info.stake_amount * bps as i128) / 10_000;
                let updated = JurorInfo {
                    stake_amount: info.stake_amount - amount,
                    times_slashed: info.times_slashed + 1,
                    ..info
                };
                self.put_juror(juror, updated);
                amount
            },
            None => 0,
        }
    }

    /// Slashes every committee member who did not reveal by `bps` and gives
    /// it a non-reveal strike; returns the slashed total.
    fn apply_non_reveal_penalties(&mut self, idx: usize, committee: &Vec<AccountId>, bps: u32) -> (pool:
        i128)
        requires
            old(self).jurors_wf(),
            idx < old(self).cases@.len(),
            idx < old(self).votes@.len(),
            keys_distinct(old(self).votes@[idx as int]@),
            committee@.no_duplicates(),
            bps <= MAX_BPS,
            committee_stake(committee@, old(self).juror_map()) <= MAX_COMMITTEE_STAKE,
            forall|k: AccountId|
                committee@.contains(k) && #[trigger] old(self).juror_map().contains_key(k) ==> old(
                    self,
                ).juror_map()[k].times_slashed < u32::MAX && old(self).juror_map()[k].non_reveal_strikes
                    < u32::MAX,
        ensures
            final(self).jurors_wf(),
            *final(self) == (ArbitrationContract { jurors: final(self).jurors, ..*old(self) }),
            final(self).juror_ids() == old(self).juror_ids(),
            final(self).juror_map() == apply_to(
                old(self).juror_map(),
                committee@,
                non_reveal_step(old(self).case_votes(idx as u64), bps),
            ),
            pool == non_reveal_pool(
                committee@,
                old(self).juror_map(),
                old(self).case_votes(idx as u64),
                bps,
                committee@.len() as int,
            ),
    {
        let ghost m0 = self.juror_map();
        let ghost votes = self.case_votes(idx as u64);
        let ghost js = committee@;
        let ghost start = *self;
        proof {
            self.lemma_juror_map_wf();
            lemma_settlement_bounds(js, m0, votes, true, false, bps, 0);
        }
        let mut pool: i128 = 0;
        let mut i: usize = 0;
        while i < committee.len()
            invariant
                i <= js.len(),
                js == committee@,
                js.no_duplicates(),
                bps <= MAX_BPS,
                idx < start.cases@.len(),
                idx < start.votes@.len(),
                keys_distinct(start.votes@[idx as int]@),
                votes == start.case_votes(idx as u64),
                m0 == start.juror_map(),
                forall|k: AccountId| #[trigger] m0.contains_key(k) ==> m0[k].address == k && m0[k].stake_amount >= 0,
                committee_stake(js, m0) <= MAX_COMMITTEE_STAKE,
                forall|k: AccountId|
                    js.contains(k) && #[trigger] m0.contains_key(k) ==> m0[k].times_slashed < u32::MAX
                        && m0[k].non_reveal_strikes < u32::MAX,
                forall|x: int|
                    0 <= x <= js.len() ==> 0 <= #[trigger] non_reveal_pool(js, m0, votes, bps, x)
                        <= non_reveal_pool(js, m0, votes, bps, js.len() as int),
                forall|x: int| 0 <= x < js.len() ==> (#[trigger] stake_term(js, m0)(x)) <= committee_stake(js, m0),
                non_reveal_pool(js, m0, votes, bps, js.len() as int) <= committee_stake(js, m0),
                self.jurors_wf(),
                *self == (ArbitrationContract { jurors: self.jurors, ..start }),
                self.juror_ids() == start.juror_ids(),
                self.juror_map() == apply_to(m0, js.take(i as int), non_reveal_step(votes, bps)),
                pool == non_reveal_pool(js, m0, votes, bps, i as int),
            decreases js.len() - i,
        {
            let j = committee[i];
            proof {
                lemma_apply_step(m0, js, i as int, non_reveal_step(votes, bps));
            }
            if self.revealed_vote_of(idx, j).is_none() {
                match self.juror_record(j) {
                    Some(info) => {
                        let ghost before = self.juror_map();
                        proof {
                            assert(info == m0[j]);
                            assert(stake_term(js, m0)(i as int) == info.stake_amount);
                            lemma_slash_bounds(info.stake_amount as int, bps as int);
                            assert(js.contains(j)) by {
                                assert(js[i as int] == j);
                            }
                        }
                        let struck = JurorInfo { non_reveal_strikes: info.non_reveal_strikes + 1, ..info };
                        self.put_juror(j, struck);
                        let amount = self.slash_juror(j, bps);
                        proof {
                            assert(minority_slash(struck, bps) == non_reveal_penalty(info, bps));
                            assert(self.juror_map() =~= before.insert(j, non_reveal_penalty(info, bps)));
                        }
                        pool = pool + amount;
                    },
                    None => {},
                }
            }
            i = i + 1;
        }
        assert(js.take(js.len() as int) =~= js);
        pool
    }

    /// Credits the majority of a committee with a case served and, on a
    /// lopsided vote, slashes the minority by `bps`; returns the slashed
    /// total.
    fn apply_verdict(
        &mut self,
        idx: usize,
        committee: &Vec<AccountId>,
        outcome: bool,
        lopsided: bool,
        bps: u32,
    ) -> (pool: i128)
        requires
            old(self).jurors_wf(),
            idx < old(self).cases@.len(),
            idx < old(self).votes@.len(),
            keys_distinct(old(self).votes@[idx as int]@),
            committee@.no_duplicates(),
            bps <= MAX_BPS,
            committee_stake(committee@, old(self).juror_map()) <= MAX_COMMITTEE_STAKE,
            forall|k: AccountId|
                committee@.contains(k) && #[trigger] old(self).juror_map().contains_key(k) && revealed_of(
                    old(self).case_votes(idx as u64),
                    k,
                ) is Some ==> old(self).juror_map()[k].times_slashed < u32::MAX && old(
                    self,
                ).juror_map()[k].cases_served < u32::MAX,
        ensures
            final(self).jurors_wf(),
            *final(self) == (ArbitrationContract { jurors: final(self).jurors, ..*old(self) }),
            final(self).juror_ids() == old(self).juror_ids(),
            final(self).juror_map() == apply_to(
                old(self).juror_map(),
                committee@,
                verdict_step(old(self).case_votes(idx as u64), outcome, lopsided, bps),
            ),
            pool == if lopsided {
                minority_pool(
                    committee@,
                    old(self).juror_map(),
                    old(self).case_votes(idx as u64),
                    !outcome,
                    bps,
                    committee@.len() as int,
                )
            } else {
                0
            },
    {
        let ghost m0 = self.juror_map();
        let ghost votes = self.case_votes(idx as u64);
        let ghost js = committee@;
        let ghost start = *self;
        let ghost minority = !outcome;
        proof {
            self.lemma_juror_map_wf();
            lemma_settlement_bounds(js, m0, votes, outcome, minority, 0, bps);
        }
        let mut pool: i128 = 0;
        let mut i: usize = 0;
        while i < committee.len()
            invariant
                i <= js.len(),
                js == committee@,
                js.no_duplicates(),
                bps <= MAX_BPS,
                minority == !outcome,
                idx < start.cases@.len(),
                idx < start.votes@.len(),
                keys_distinct(start.votes@[idx as int]@),
                votes == start.case_votes(idx as u64),
                m0 == start.juror_map(),
                forall|k: AccountId| #[trigger] m0.contains_key(k) ==> m0[k].address == k && m0[k].stake_amount >= 0,
                committee_stake(js, m0) <= MAX_COMMITTEE_STAKE,
                forall|k: AccountId|
                    js.contains(k) && #[trigger] m0.contains_key(k) && revealed_of(votes, k) is Some
                        ==> m0[k].times_slashed < u32::MAX && m0[k].cases_served < u32::MAX,
                forall|x: int|
                    0 <= x <= js.len() ==> 0 <= #[trigger] minority_pool(js, m0, votes, minority, bps, x)
                        <= minority_pool(js, m0, votes, minority, bps, js.len() as int),
                forall|x: int| 0 <= x < js.len() ==> (#[trigger] stake_term(js, m0)(x)) <= committee_stake(js, m0),
                minority_pool(js, m0, votes, minority, bps, js.len() as int) <= committee_stake(js, m0),
                self.jurors_wf(),
                *self == (ArbitrationContract { jurors: self.jurors, ..start }),
                self.juror_ids() == start.juror_ids(),
                self.juror_map() == apply_to(
                    m0,
                    js.take(i as int),
                    verdict_step(votes, outcome, lopsided, bps),
                ),
                pool == if lopsided {
                    minority_pool(js, m0, votes, minority, bps, i as int)
                } else {
                    0
                },
            decreases js.len() - i,
        {
            let j = committee[i];
            proof {
                lemma_apply_step(m0, js, i as int, verdict_step(votes, outcome, lopsided, bps));
                assert(js.contains(j)) by {
                    assert(js[i as int] == j);
                }
            }
            match self.revealed_vote_of(idx, j) {
                Some(choice) => {
                    if choice == outcome {
                        self.bump_cases_served(j);
                    } else if lopsided {
                        proof {
                            if m0.contains_key(j) {
                                assert(stake_term(js, m0)(i as int) == m0[j].stake_amount);
                                lemma_slash_bounds(m0[j].stake_amount as int, bps as int);
                            }
                        }
                        let amount = self.slash_juror(j, bps);
                        pool = pool + amount;
                    }
                },
                None => {},
            }
            i = i + 1;
        }
        assert(js.take(js.len() as int) =~= js);
        pool
    }

    /// Shares `pool` among the majority pro rata to their stake (rounded
    /// down), when there is a pool, a majority and majority stake.
    fn reward_majority(
        &mut self,
        idx: usize,
        committee: &Vec<AccountId>,
        outcome: bool,
        winning: u32,
        pool: i128,
    )
        requires
            old(self).jurors_wf(),
            idx < old(self).cases@.len(),
            idx < old(self).votes@.len(),
            keys_distinct(old(self).votes@[idx as int]@),
            committee@.no_duplicates(),
            winning == count_revealed(committee@, old(self).case_votes(idx as u64), outcome),
            0 <= pool <= MAX_COMMITTEE_STAKE,
            committee_stake(committee@, old(self).juror_map()) <= MAX_COMMITTEE_STAKE,
        ensures
            final(self).jurors_wf(),
            *final(self) == (ArbitrationContract { jurors: final(self).jurors, ..*old(self) }),
            final(self).juror_ids() == old(self).juror_ids(),
            ({
                let m = old(self).juror_map();
                let votes = old(self).case_votes(idx as u64);
                let total = majority_stake(committee@, m, votes, outcome, committee@.len() as int);
                final(self).juror_map() == if pool > 0 && winning > 0 && total > 0 {
                    apply_to(m, committee@, reward_step(votes, outcome, pool as int, total))
                } else {
                    m
                }
            }),
    {
        let ghost m0 = self.juror_map();
        let ghost votes = self.case_votes(idx as u64);
        let ghost js = committee@;
        let ghost start = *self;
        proof {
            self.lemma_juror_map_wf();
            lemma_settlement_bounds(js, m0, votes, outcome, !outcome, 0, 0);
        }
        if pool <= 0 || winning == 0 {
            return;
        }
        let mut total: i128 = 0;
        let mut i: usize = 0;
        while i < committee.len()
            invariant
                i <= js.len(),
                js == committee@,
                idx < start.cases@.len(),
                idx < start.votes@.len(),
                keys_distinct(start.votes@[idx as int]@),
                votes == start.case_votes(idx as u64),
                m0 == start.juror_map(),
                *self == start,
                self.jurors_wf(),
                committee_stake(js, m0) <= MAX_COMMITTEE_STAKE,
                forall|x: int|
                    0 <= x <= js.len() ==> 0 <= #[trigger] majority_stake(js, m0, votes, outcome, x)
                        <= majority_stake(js, m0, votes, outcome, js.len() as int),
                majority_stake(js, m0, votes, outcome, js.len() as int) <= committee_stake(js, m0),
                total == majority_stake(js, m0, votes, outcome, i as int),
            decreases js.len() - i,
        {
            let j = committee[i];
            if self.revealed_vote_of(idx, j) == Some(outcome) {
                match self.juror_record(j) {
                    Some(info) => {
                        proof {
                            assert(info == m0[j]);
                            assert(side_stake_term(js, m0, votes, outcome)(i as int) == info.stake_amount);
                            assert(majority_stake(js, m0, votes, outcome, i as int + 1) == total
                                + info.stake_amount);
                        }
                        total = total + info.stake_amount;
                    },
                    None => {},
                }
            }
            i = i + 1;
        }
        if total <= 0 {
            return;
        }
        let mut i: usize = 0;
        while i < committee.len()
            invariant
                i <= js.len(),
                js == committee@,
                js.no_duplicates(),
                idx < start.cases@.len(),
                idx < start.votes@.len(),
                keys_distinct(start.votes@[idx as int]@),
                votes == start.case_votes(idx as u64),
                m0 == start.juror_map(),
                forall|k: AccountId| #[trigger] m0.contains_key(k) ==> m0[k].address == k && m0[k].stake_amount >= 0,
                0 < pool <= MAX_COMMITTEE_STAKE,
                0 < total <= MAX_COMMITTEE_STAKE,
                total == majority_stake(js, m0, votes, outcome, js.len() as int),
                forall|x: int|
                    0 <= x < js.len() ==> (#[trigger] side_stake_term(js, m0, votes, outcome)(x)) <= total,
                self.jurors_wf(),
                *self == (ArbitrationContract { jurors: self.jurors, ..start }),
                self.juror_ids() == start.juror_ids(),
                self.juror_map() == apply_to(
                    m0,
                    js.take(i as int),
                    reward_step(votes, outcome, pool as int, total as int),
                ),
            decreases js.len() - i,
        {
            let j = committee[i];
            proof {
                lemma_apply_step(m0, js, i as int, reward_step(votes, outcome, pool as int, total as int));
            }
            if self.revealed_vote_of(idx, j) == Some(outcome) {
                match self.juror_record(j) {
                    Some(info) => {
                        proof {
                            assert(info == m0[j]);
                            assert(side_stake_term(js, m0, votes, outcome)(i as int) == info.stake_amount);
                            let p = pool as int;
                            let st = info.stake_amount as int;
                            let t = total as int;
                            assert(0 <= p * st <= p * t) by (nonlinear_arith)
                                requires
                                    0 < p,
                                    0 <= st <= t,
                            ;
                            assert(p * t <= MAX_COMMITTEE_STAKE * MAX_COMMITTEE_STAKE) by (nonlinear_arith)
                                requires
                                    0 < p <= MAX_COMMITTEE_STAKE,
                                    0 < t <= MAX_COMMITTEE_STAKE,
                            ;
                            assert(0 <= (p * st) / t <= p) by (nonlinear_arith)
                                requires
                                    0 <= p * st <= p * t,
                                    0 < t,
                                    0 < p,
                            ;
                        }
                        let share = (pool * info.stake_amount) / total;
                        let updated = JurorInfo { stake_amount: info.stake_amount + share, ..info };
                        self.put_juror(j, updated);
                    },
                    None => {},
                }
            }
            i = i + 1;
        }
        assert(js.take(js.len() as int) =~= js);
    }

    pub open spec fn finalize_check(&self, case_id: u64, now: u64) -> Result<(), ArbitrationError> {
        if self.paused {
            Err(ArbitrationError::ContractPaused)
        } else if !self.case_exists(case_id) {
            Err(ArbitrationError::CaseNotFound)
        } else if self.case(case_id).status != CaseStatus::CommitReveal {
            Err(ArbitrationError::InvalidCaseStatus)
        } else if now <= self.case(case_id).reveal_deadline {
            Err(ArbitrationError::WindowNotClosed)
        } else if self.config is None {
            Err(ArbitrationError::NotInitialized)
        } else {
            Ok(())
        }
    }

    /// The settlement arithmetic of a case stays within machine integers:
    /// the committee is small enough for vote shares in bps to fit a `u32`,
    /// its stake small enough for pro-rata shares to fit an `i128`, and its
    /// members' counters can still be incremented.
    pub open spec fn finalize_in_range(&self, case_id: u64) -> bool {
        let js = self.case(case_id).jurors@;
        let m = self.juror_map();
        &&& js.len() * 10_000 <= u32::MAX
        &&& committee_stake(js, m) <= MAX_COMMITTEE_STAKE
        &&& forall|k: AccountId|
            js.contains(k) && #[trigger] m.contains_key(k) ==> m[k].cases_served < u32::MAX
                && m[k].times_slashed < u32::MAX && m[k].non_reveal_strikes < u32::MAX
    }

    /// Settles a case once its reveal deadline has passed (anyone may call
    /// it). Non-revealers are slashed in every case. Without reveal quorum
    /// the case is escalated for a re-draw or the admin; otherwise the
    /// majority wins (a tie favours the SME), the minority is slashed on a
    /// lopsided vote, the slashed stake is shared among the majority, and
    /// the result names the invoice and resolution the host reports to the
    /// invoice contract (a refused report does not undo the settlement).
    #[verifier::spinoff_prover]
    pub fn finalize_case(&mut self, case_id: u64, now: u64) -> (r: Result<
        Option<(u64, DisputeResolution)>,
        ArbitrationError,
    >)
        requires
            old(self).wf(),
            old(self).finalize_check(case_id, now) is Ok ==> old(self).finalize_in_range(case_id),
        ensures
            final(self).wf(),
            r is Ok <==> old(self).finalize_check(case_id, now) is Ok,
            r is Err ==> r == Err::<Option<(u64, DisputeResolution)>, ArbitrationError>(
                old(self).finalize_check(case_id, now)->Err_0,
            ),
            r is Err ==> *final(self) == *old(self),
            r is Ok ==> {
                let c = old(self).case(case_id);
                let d = final(self).case(case_id);
                let js = c.jurors@;
                let votes = old(self).case_votes(case_id);
                let cfg = old(self).config->Some_0;
                let quorum = quorum_reached(js, votes, cfg);
                let resolution = if outcome_favors_debtor(js, votes) {
                    DisputeResolution::InFavorOfDebtor
                } else {
                    DisputeResolution::InFavorOfSME
                };
                &&& *final(self) == (ArbitrationContract {
                    jurors: final(self).jurors,
                    cases: final(self).cases,
                    ..*old(self)
                })
                &&& final(self).juror_map() == settled_jurors(old(self).juror_map(), js, votes, cfg)
                &&& final(self).juror_ids() == old(self).juror_ids()
                &&& final(self).cases@.len() == old(self).cases@.len()
                &&& forall|j: int|
                    0 <= j < old(self).cases@.len() && j != case_id ==> #[trigger] final(self).cases@[j]
                        == old(self).cases@[j]
                &&& d == (DisputeCase {
                    status: if quorum {
                        CaseStatus::Resolved
                    } else {
                        CaseStatus::NoQuorumEscalated
                    },
                    resolution: if quorum {
                        resolution
                    } else {
                        c.resolution
                    },
                    ..c
                })
                &&& r == Ok::<Option<(u64, DisputeResolution)>, ArbitrationError>(
                    if quorum {
                        Some((c.invoice_id, resolution))
                    } else {
                        None
                    },
                )
            },
    {
        self.require_not_paused()?;
        if case_id >= self.cases.len() as u64 {
            return Err(ArbitrationError::CaseNotFound);
        }
        let idx = case_id as usize;
        if self.cases[idx].status != CaseStatus::CommitReveal {
            return Err(ArbitrationError::InvalidCaseStatus);
        }
        if now <= self.cases[idx].reveal_deadline {
            return Err(ArbitrationError::WindowNotClosed);
        }
        let config = self.load_config()?;
        let committee = copy_accounts(&self.cases[idx].jurors);
        let ghost js = committee@;
        let ghost votes = self.case_votes(case_id);
        let ghost m0 = self.juror_map();
        let ghost start = *self;
        proof {
            assert(case_wf(self.cases@, self.votes@, self.evidence@, idx as int));
            self.lemma_juror_map_wf();
        }
        let (favor_debtor, favor_sme) = self.tally(idx, &committee);
        let nr_pool = self.apply_non_reveal_penalties(idx, &committee, config.non_reveal_slash_bps);
        let ghost m1 = self.juror_map();
        let reveal_count = favor_debtor + favor_sme;
        if reveal_count < config.quorum_floor {
            let ghost before_cases = self.cases@;
            let mut case = self.cases.remove(idx);
            case.status = CaseStatus::NoQuorumEscalated;
            self.cases.insert(idx, case);
            proof {
                assert(self.cases@ =~= before_cases.update(idx as int, self.cases@[idx as int]));
                self.lemma_cases_after_status(start, idx as int);
            }
            return Ok(None);
        }
        let outcome = favor_debtor > favor_sme;
        let winning = if outcome {
            favor_debtor
        } else {
            favor_sme
        };
        let winning_bps = (winning * 10_000) / reveal_count;
        let lopsided = winning_bps >= config.lopsided_confidence_bps;
        let ghost minority = !outcome;
        proof {
            lemma_settlement_bounds(
                js,
                m0,
                votes,
                outcome,
                minority,
                config.non_reveal_slash_bps,
                config.slash_bps,
            );
            lemma_settlement_frame(
                js,
                m0,
                m1,
                votes,
                outcome,
                minority,
                config.non_reveal_slash_bps,
                config.slash_bps,
            );
        }
        let minority_total = self.apply_verdict(idx, &committee, outcome, lopsided, config.slash_bps);
        let ghost m2 = self.juror_map();
        let pool = nr_pool + minority_total;
        proof {
            lemma_verdict_frame(js, m0, m1, m2, votes, outcome, lopsided, config.slash_bps);
        }
        self.reward_majority(idx, &committee, outcome, winning, pool);
        let ghost settled = *self;
        let resolution = if outcome {
            DisputeResolution::InFavorOfDebtor
        } else {
            DisputeResolution::InFavorOfSME
        };
        let ghost before_cases = self.cases@;
        let mut case = self.cases.remove(idx);
        case.status = CaseStatus::Resolved;
        case.resolution = resolution;
        let invoice_id = case.invoice_id;
        self.cases.insert(idx, case);
        proof {
            assert(self.cases@ =~= before_cases.update(idx as int, self.cases@[idx as int]));
            assert(self.jurors == settled.jurors);
            assert(settled.jurors_wf());
            self.lemma_cases_after_status(start, idx as int);
        }
        Ok(Some((invoice_id, resolution)))
    }

    /// After the status or resolution of one case changed (to a status
    /// other than the evidence window), the state is still well formed.
    proof fn lemma_cases_after_status(&self, start: Self, idx: int)
        requires
            start.wf(),
            self.jurors_wf(),
            0 <= idx < start.cases@.len(),
            self.cases@ == start.cases@.update(idx, self.cases@[idx]),
            self.cases@[idx].id == start.cases@[idx].id,
            self.cases@[idx].jurors == start.cases@[idx].jurors,
            self.cases@[idx].status != CaseStatus::EvidenceWindow,
            self.admin == start.admin,
            self.config == start.config,
            self.juror_cases == start.juror_cases,
            self.invoice_cases == start.invoice_cases,
            self.evidence == start.evidence,
            self.votes == start.votes,
        ensures
            self.wf(),
    {
        assert forall|i: int| 0 <= i < self.cases@.len() implies #[trigger] case_wf(
            self.cases@,
            self.votes@,
            self.evidence@,
            i,
        ) by {
            assert(case_wf(start.cases@, start.votes@, start.evidence@, i));
        }
    }

    pub open spec fn admin_resolve_check(
        &self,
        admin: AccountId,
        case_id: u64,
        resolution: DisputeResolution,
    ) -> Result<(), ArbitrationError> {
        if self.admin_check(admin) is Err {
            self.admin_check(admin)
        } else if resolution == DisputeResolution::Pending {
            Err(ArbitrationError::InvalidConfig)
        } else if !self.case_exists(case_id) {
            Err(ArbitrationError::CaseNotFound)
        } else if self.case(case_id).status != CaseStatus::NoQuorumEscalated {
            Err(ArbitrationError::CaseNotEscalated)
        } else if self.config is None {
            Err(ArbitrationError::NotInitialized)
        } else if self.case(case_id).retry_count < max_draws(self.config->Some_0) {
            Err(ArbitrationError::RetriesNotExhausted)
        } else {
            Ok(())
        }
    }

    /// The admin decides an escalated case once its committee re-draws are
    /// exhausted; the result names the invoice and resolution the host
    /// reports to the invoice contract.
    #[verifier::spinoff_prover]
    pub fn admin_resolve_no_quorum(
        &mut self,
        admin: AccountId,
        case_id: u64,
        resolution: DisputeResolution,
    ) -> (r: Result<(u64, DisputeResolution), ArbitrationError>)
        requires
            old(self).wf(),
        ensures
            final(self).wf(),
            r is Ok <==> old(self).admin_resolve_check(admin, case_id, resolution) is Ok,
            r is Err ==> r == Err::<(u64, DisputeResolution), ArbitrationError>(
                old(self).admin_resolve_check(admin, case_id, resolution)->Err_0,
            ),
            r is Err ==> *final(self) == *old(self),
            r is Ok ==> {
                let c = old(self).case(case_id);
                &&& r == Ok::<(u64, DisputeResolution), ArbitrationError>((c.invoice_id, resolution))
                &&& *final(self) == (ArbitrationContract { cases: final(self).cases, ..*old(self) })
                &&& final(self).cases@ == old(self).cases@.update(
                    case_id as int,
                    DisputeCase { status: CaseStatus::Resolved, resolution, ..c },
                )
            },
    {
        self.require_admin(admin)?;
        if resolution == DisputeResolution::Pending {
            return Err(ArbitrationError::InvalidConfig);
        }
        if case_id >= self.cases.len() as u64 {
            return Err(ArbitrationError::CaseNotFound);
        }
        let idx = case_id as usize;
        if self.cases[idx].status != CaseStatus::NoQuorumEscalated {
            return Err(ArbitrationError::CaseNotEscalated);
        }
        let config = self.load_config()?;
        let max_draws = if config.max_retries == u32::MAX {
            u32::MAX
        } else {
            config.max_retries + 1
        };
        if self.cases[idx].retry_count < max_draws {
            return Err(ArbitrationError::RetriesNotExhausted);
        }
        let ghost start = *self;
        let ghost before_cases = self.cases@;
        let mut case = self.cases.remove(idx);
        case.status = CaseStatus::Resolved;
        case.resolution = resolution;
        let invoice_id = case.invoice_id;
        self.cases.insert(idx, case);
        proof {
            assert(self.cases@ =~= before_cases.update(idx as int, self.cases@[idx as int]));
            assert(self.jurors@ == start.jurors@);
            assert(self.jurors_wf()) by {
                assert(start.jurors_wf());
            }
            self.lemma_cases_after_status(start, idx as int);
        }
        Ok((invoice_id, resolution))
    }

    pub fn get_case(&self, case_id: u64) -> (r: Option<&DisputeCase>)
        ensures
            r is Some <==> self.case_exists(case_id),
            r is Some ==> *r->Some_0 == self.case(case_id),
    {
        if case_id < self.cases.len() as u64 {
            Some(&self.cases[case_id as usize])
        } else {
            None
        }
    }

    /// The case most recently opened for an invoice.
    pub fn get_case_by_invoice(&self, invoice_id: u64) -> (r: Option<&DisputeCase>)
        requires
            self.wf(),
        ensures
            ({
                let index = assoc_view(self.invoice_cases@);
                r is Some <==> index.contains_key(invoice_id) && self.case_exists(index[invoice_id])
            }),
            r is Some ==> *r->Some_0 == self.case(assoc_view(self.invoice_cases@)[invoice_id]),
    {
        match assoc_get(&self.invoice_cases, invoice_id) {
            Some(id) => self.get_case(*id),
            None => None,
        }
    }

    /// The evidence submitted on a case, if the case exists.
    pub fn get_evidence(&self, case_id: u64) -> (r: Option<&Vec<EvidenceEntry>>)
        requires
            self.wf(),
        ensures
            r is Some <==> self.case_exists(case_id),
            r is Some ==> *r->Some_0 == self.evidence@[case_id as int],
    {
        if case_id < self.cases.len() as u64 {
            Some(&self.evidence[case_id as usize])
        } else {
            None
        }
    }

    /// A committee member's vote slot on a case.
    pub fn get_vote(&self, case_id: u64, juror: AccountId) -> (r: Option<JurorVote>)
        requires
            self.wf(),
        ensures
            r is Some <==> self.case_exists(case_id) && self.case_votes(case_id).contains_key(juror),
            r is Some ==> r->Some_0 == self.case_votes(case_id)[juror],
    {
        if case_id >= self.cases.len() as u64 {
            return None;
        }
        proof {
            assert(case_wf(self.cases@, self.votes@, self.evidence@, case_id as int));
        }
        match assoc_get(&self.votes[case_id as usize], juror) {
            Some(v) => Some(*v),
            None => None,
        }
    }

    pub fn get_juror(&self, operator: AccountId) -> (r: Option<JurorInfo>)
        requires
            self.wf(),
        ensures
            r is Some <==> self.juror_map().contains_key(operator),
            r is Some ==> r->Some_0 == self.juror_map()[operator],
    {
        self.juror_record(operator)
    }

    /// The cases a juror was drawn for.
    pub fn get_juror_cases(&self, operator: AccountId) -> (r: Vec<u64>)
        requires
            self.wf(),
        ensures
            r@ == self.cases_of(operator),
    {
        match assoc_get(&self.juror_cases, operator) {
            Some(v) => copy_ids(v),
            None => Vec::new(),
        }
    }

    /// The active jurors, in registration order.
    pub fn list_active_jurors(&self) -> (r: Vec<AccountId>)
        ensures
            r@ == active_jurors(self.jurors@),
    {
        let mut r: Vec<AccountId> = Vec::new();
        let mut i: usize = 0;
        while i < self.jurors.len()
            invariant
                i <= self.jurors@.len(),
                r@ == active_jurors(self.jurors@.take(i as int)),
            decreases self.jurors@.len() - i,
        {
            let ghost before = self.jurors@.take(i as int);
            if self.jurors[i].1.is_active {
                r.push(self.jurors[i].0);
            }
            i = i + 1;
            assert(self.jurors@.take(i as int).drop_last() =~= before);
        }
        assert(self.jurors@.take(self.jurors@.len() as int) =~= self.jurors@);
        r
    }

    /// The ids of the cases with a given status, in id order.
    pub fn list_cases_by_status(&self, status: CaseStatus) -> (r: Vec<u64>)
        requires
            self.wf(),
        ensures
            r@ == cases_with_status(self.cases@, status),
    {
        let mut r: Vec<u64> = Vec::new();
        let mut i: usize = 0;
        while i < self.cases.len()
            invariant
                self.wf(),
                i <= self.cases@.len(),
                r@ == cases_with_status(self.cases@.take(i as int), status),
            decreases self.cases@.len() - i,
        {
            let ghost before = self.cases@.take(i as int);
            proof {
                assert(case_wf(self.cases@, self.votes@, self.evidence@, i as int));
            }
            if self.cases[i].status == status {
                r.push(i as u64);
            }
            i = i + 1;
            assert(self.cases@.take(i as int).drop_last() =~= before);
        }
        assert(self.cases@.take(self.cases@.len() as int) =~= self.cases@);
        r
    }

    /// Totals over all registered jurors.
    pub fn get_aggregate_juror_stats(&self) -> (r: AggregateJurorStats)
        requires
            self.wf(),
            aggregate_in_range(self.jurors@),
        ensures
            r == aggregate_of(self.jurors@),
    {
        let mut total_jurors: u32 = 0;
        let mut active: u32 = 0;
        let mut total_stake: i128 = 0;
        let mut cases_served: u32 = 0;
        let mut slashes: u32 = 0;
        let mut strikes: u32 = 0;
        let mut i: usize = 0;
        while i < self.jurors.len()
            invariant
                self.wf(),
                aggregate_in_range(self.jurors@),
                i <= self.jurors@.len(),
                (AggregateJurorStats {
                    total_jurors,
                    active_jurors: active,
                    total_stake,
                    total_cases_served: cases_served,
                    total_slashes: slashes,
                    total_non_reveal_strikes: strikes,
                }) == aggregate_of(self.jurors@.take(i as int)),
                aggregate_in_range(self.jurors@.take(i as int)),
            decreases self.jurors@.len() - i,
        {
            let ghost before = self.jurors@.take(i as int);
            let info = self.jurors[i].1;
            proof {
                let q = self.jurors@.take(i as int + 1);
                assert(q.drop_last() =~= before);
                assert(q.last() == self.jurors@[i as int]);
                lemma_aggregate_prefix(self.jurors@, i as int + 1);
                lemma_aggregate_prefix(self.jurors@, i as int);
                let t = aggregate_totals(before);
                let t1 = aggregate_totals(q);
                assert(t1.0 == t.0 + 1);
                assert(t1.3 == t.3 + info.cases_served);
                assert(t1.4 == t.4 + info.times_slashed);
                assert(t1.5 == t.5 + info.non_reveal_strikes);
                assert(t1.2 == t.2 + info.stake_amount);
                assert(total_jurors == t.0);
                assert(active == t.1);
                assert(total_stake == t.2);
                assert(cases_served == t.3);
                assert(slashes == t.4);
                assert(strikes == t.5);
            }
            total_jurors = total_jurors + 1;
            if info.is_active {
                active = active + 1;
            }
            total_stake = total_stake + info.stake_amount;
            cases_served = cases_served + info.cases_served;
            slashes = slashes + info.times_slashed;
            strikes = strikes + info.non_reveal_strikes;
            i = i + 1;
        }
        assert(self.jurors@.take(self.jurors@.len() as int) =~= self.jurors@);
        AggregateJurorStats {
            total_jurors,
            active_jurors: active,
            total_stake,
            total_cases_served: cases_served,
            total_slashes: slashes,
            total_non_reveal_strikes: strikes,
        }
    }

    /// Each registered juror's statistics, in registration order.
    pub fn get_all_juror_stats(&self) -> (r: Vec<JurorStats>)
        ensures
            r@.len() == self.jurors@.len(),
            forall|i: int| 0 <= i < self.jurors@.len() ==> #[trigger] r@[i] == stats_of(self.jurors@[i].1),
    {
        let mut r: Vec<JurorStats> = Vec::new();
        let mut i: usize = 0;
        while i < self.jurors.len()
            invariant
                i <= self.jurors@.len(),
                r@.len() == i,
                forall|k: int| 0 <= k < i ==> #[trigger] r@[k] == stats_of(self.jurors@[k].1),
            decreases self.jurors@.len() - i,
        {
            let info = self.jurors[i].1;
            r.push(
                JurorStats {
                    address: info.address,
                    stake_amount: info.stake_amount,
                    is_active: info.is_active,
                    cases_served: info.cases_served,
                    times_slashed: info.times_slashed,
                    non_reveal_strikes: info.non_reveal_strikes,
                    registered_at: info.registered_at,
                },
            );
            i = i + 1;
        }
        r
    }
}

/// A sum scaled by a constant is the sum of the scaled terms.
pub proof fn lemma_sum_scale(f: spec_fn(int) -> int, c: int, h: spec_fn(int) -> int, n: int)
    requires
        forall|i: int| 0 <= i < n ==> #[trigger] h(i) == c * f(i),
    ensures
        c * sum_upto(f, n) == sum_upto(h, n),
    decreases n,
{
    if n > 0 {
        lemma_sum_scale(f, c, h, n - 1);
        let a = sum_upto(f, n - 1);
        let b = f(n - 1);
        assert(c * (a + b) == c * a + c * b) by (nonlinear_arith);
    }
}

/// The sum of the differences is the difference of the sums.
pub proof fn lemma_sum_sub(f: spec_fn(int) -> int, g: spec_fn(int) -> int, h: spec_fn(int) -> int, n: int)
    requires
        forall|i: int| 0 <= i < n ==> #[trigger] h(i) == f(i) - g(i),
    ensures
        sum_upto(f, n) - sum_upto(g, n) == sum_upto(h, n),
    decreases n,
{
    if n > 0 {
        lemma_sum_sub(f, g, h, n - 1);
    }
}

/// Sums of termwise equal terms are equal.
pub proof fn lemma_sum_eq(f: spec_fn(int) -> int, g: spec_fn(int) -> int, n: int)
    requires
        forall|i: int| 0 <= i < n ==> #[trigger] f(i) == g(i),
    ensures
        sum_upto(f, n) == sum_upto(g, n),
    decreases n,
{
    if n > 0 {
        lemma_sum_eq(f, g, n - 1);
    }
}

/// The share of the pool of the juror at position `i` if it is in the
/// majority.
pub open spec fn share_term(
    js: Seq<AccountId>,
    m: Map<AccountId, JurorInfo>,
    votes: Map<AccountId, JurorVote>,
    outcome: bool,
    pool: int,
    total: int,
) -> spec_fn(int) -> int {
    |i: int|
        if revealed_of(votes, js[i]) == Some(outcome) && m.contains_key(js[i]) {
            (pool * m[js[i]].stake_amount) / total
        } else {
            0int
        }
}

/// Pro-rata shares rounded down never add up to more than the pool.
pub proof fn lemma_shares_within_pool(
    js: Seq<AccountId>,
    m: Map<AccountId, JurorInfo>,
    votes: Map<AccountId, JurorVote>,
    outcome: bool,
    pool: int,
)
    requires
        pool >= 0,
        majority_stake(js, m, votes, outcome, js.len() as int) > 0,
        forall|k: AccountId| #[trigger] m.contains_key(k) ==> m[k].stake_amount >= 0,
    ensures
        sum_upto(
            share_term(
                js,
                m,
                votes,
                outcome,
                pool,
                majority_stake(js, m, votes, outcome, js.len() as int),
            ),
            js.len() as int,
        ) <= pool,
{
    let n = js.len() as int;
    let t = majority_stake(js, m, votes, outcome, n);
    let sh = share_term(js, m, votes, outcome, pool, t);
    let st = side_stake_term(js, m, votes, outcome);
    let lhs = |x: int| t * sh(x);
    let rhs = |x: int| pool * st(x);
    assert forall|i: int| 0 <= i < n implies #[trigger] lhs(i) <= rhs(i) by {
        let a = pool * st(i);
        if revealed_of(votes, js[i]) == Some(outcome) && m.contains_key(js[i]) {
            let si = st(i);
            assert(si >= 0);
            assert(a >= 0) by (nonlinear_arith)
                requires
                    a == pool * si,
                    pool >= 0,
                    si >= 0,
            ;
            assert(t * (a / t) <= a) by (nonlinear_arith)
                requires
                    t > 0,
                    a >= 0,
            ;
            assert(sh(i) == a / t);
        }
    }
    lemma_sum_le(lhs, rhs, n);
    lemma_sum_scale(sh, t, lhs, n);
    lemma_sum_scale(st, pool, rhs, n);
    let z = sum_upto(sh, n);
    assert(t * z <= pool * t);
    assert(z <= pool) by (nonlinear_arith)
        requires
            t * z <= pool * t,
            t > 0,
    ;
}

/// Settling a case never creates stake: the committee's stake afterwards is
/// at most what it was (the slashed stake is shared among the majority,
/// rounded down), and the records of jurors outside the committee are
/// unchanged.
pub proof fn law_settlement_conserves_stake(
    m: Map<AccountId, JurorInfo>,
    js: Seq<AccountId>,
    votes: Map<AccountId, JurorVote>,
    cfg: ArbitrationConfig,
)
    requires
        forall|k: AccountId| #[trigger] m.contains_key(k) ==> m[k].stake_amount >= 0,
        js.no_duplicates(),
        config_valid(cfg),
        committee_stake(js, m) <= MAX_COMMITTEE_STAKE,
    ensures
        committee_stake(js, settled_jurors(m, js, votes, cfg)) <= committee_stake(js, m),
        settled_jurors(m, js, votes, cfg).dom() == m.dom(),
        forall|k: AccountId|
            #[trigger] m.contains_key(k) && !js.contains(k) ==> settled_jurors(m, js, votes, cfg)[k]
                == m[k],
{
    let n = js.len() as int;
    let outcome = outcome_favors_debtor(js, votes);
    let lop = is_lopsided(js, votes, cfg);
    let q = quorum_reached(js, votes, cfg);
    let pool = settlement_pool(js, m, votes, cfg);
    let total = majority_stake(js, m, votes, outcome, n);
    let rew = q && pool > 0 && winning_count(js, votes) > 0 && total > 0;
    let after = settled_jurors(m, js, votes, cfg);
    lemma_settlement_bounds(js, m, votes, outcome, !outcome, cfg.non_reveal_slash_bps, cfg.slash_bps);
    let st = stake_term(js, m);
    let nr = non_reveal_term(js, m, votes, cfg.non_reveal_slash_bps);
    let mi = side_slash_term(js, m, votes, !outcome, cfg.slash_bps);
    let sh = share_term(js, m, votes, outcome, pool, total);
    let lost = |i: int| nr(i) + (if q && lop { mi(i) } else { 0int });
    let gained = |i: int| if rew { sh(i) } else { 0int };
    let after_t = stake_term(js, after);
    assert(after.dom() =~= m.dom());
    assert forall|i: int| 0 <= i < n implies #[trigger] after_t(i) == st(i) - lost(i) + gained(i) by {
        let k = js[i];
        assert(js.contains(k)) by {
            assert(js[i] == k);
        }
        if m.contains_key(k) {
            let s0 = m[k].stake_amount as int;
            lemma_slash_bounds(s0, cfg.non_reveal_slash_bps as int);
            lemma_slash_bounds(s0, cfg.slash_bps as int);
            let m1 = apply_to(m, js, non_reveal_step(votes, cfg.non_reveal_slash_bps));
            assert(m1[k] == (non_reveal_step(votes, cfg.non_reveal_slash_bps))(k, m[k]));
            if q {
                let m2 = apply_to(m1, js, verdict_step(votes, outcome, lop, cfg.slash_bps));
                assert(m2[k] == (verdict_step(votes, outcome, lop, cfg.slash_bps))(k, m1[k]));
                if rew {
                    let m3 = apply_to(m2, js, reward_step(votes, outcome, pool, total));
                    assert(m3[k] == (reward_step(votes, outcome, pool, total))(k, m2[k]));
                    assert(after == m3);
                    if revealed_of(votes, k) == Some(outcome) {
                        assert(side_stake_term(js, m, votes, outcome)(i) == s0);
                        assert(s0 <= total);
                        let a = pool * s0;
                        assert(0 <= a <= pool * total) by (nonlinear_arith)
                            requires
                                a == pool * s0,
                                0 <= s0 <= total,
                                pool >= 0,
                        ;
                        assert(0 <= a / total <= pool) by (nonlinear_arith)
                            requires
                                0 <= a <= pool * total,
                                total > 0,
                                pool >= 0,
                        ;
                        assert(m2[k].stake_amount == s0);
                    }
                } else {
                    assert(after == m2);
                }
            } else {
                assert(after == m1);
            }
        } else {
            assert(!after.contains_key(k));
        }
    }
    assert(forall|i: int| 0 <= i < n ==> #[trigger] gained(i) >= 0) by {
        assert forall|i: int| 0 <= i < n implies #[trigger] gained(i) >= 0 by {
            if rew && revealed_of(votes, js[i]) == Some(outcome) && m.contains_key(js[i]) {
                let s0 = m[js[i]].stake_amount as int;
                let a = pool * s0;
                assert(a >= 0) by (nonlinear_arith)
                    requires
                        a == pool * s0,
                        pool >= 0,
                        s0 >= 0,
                ;
                assert(a / total >= 0) by (nonlinear_arith)
                    requires
                        a >= 0,
                        total > 0,
                ;
            }
        }
    }
    let kept = |i: int| st(i) - lost(i);
    let now_t = |i: int| kept(i) + gained(i);
    let extra = |i: int| if q && lop { mi(i) } else { 0int };
    let zero = |i: int| 0int;
    lemma_sum_eq(after_t, now_t, n);
    lemma_sum_add(kept, gained, now_t, n);
    lemma_sum_sub(st, lost, kept, n);
    lemma_sum_add(nr, extra, lost, n);
    lemma_zero_sum(zero, n);
    if q && lop {
        lemma_sum_eq(extra, mi, n);
    } else {
        lemma_sum_eq(extra, zero, n);
    }
    if rew {
        lemma_sum_eq(gained, sh, n);
        lemma_shares_within_pool(js, m, votes, outcome, pool);
    } else {
        lemma_sum_eq(gained, zero, n);
    }
    assert(sum_upto(zero, n) == 0);
}

/// A sum of zeros is zero.
pub proof fn lemma_zero_sum(z: spec_fn(int) -> int, n: int)
    requires
        forall|i: int| 0 <= i < n ==> #[trigger] z(i) == 0,
    ensures
        sum_upto(z, n) == 0,
    decreases n,
{
    if n > 0 {
        lemma_zero_sum(z, n - 1);
    }
}

/// A juror is eligible for a committee exactly when it is registered,
/// active, has asked for no deregistration, and stakes at least the
/// configured minimum stake: a juror slashed below the minimum leaves the
/// pool, and so can be drawn for no committee.
pub proof fn law_eligible_pool_meets_min_stake(c: ArbitrationContract, k: AccountId)
    requires
        c.wf(),
    ensures
        c.config matches Some(cfg) ==> (c.eligible_pool().contains(k) <==> {
            &&& c.juror_map().contains_key(k)
            &&& c.juror_map()[k].is_active
            &&& c.juror_map()[k].deregister_requested_at is None
            &&& c.juror_map()[k].stake_amount >= cfg.min_stake
        }),
        c.eligible_pool().no_duplicates(),
{
    lemma_eligible_membership(c.jurors@, c.min_stake_or_zero(), k);
    lemma_eligible_jurors(c.jurors@, c.min_stake_or_zero());
}

/// A committee is drawn from the eligible pool: its members are eligible,
/// distinct, and as many as the committee size.
pub proof fn law_committee_from_pool(order: Seq<AccountId>, pool: Seq<AccountId>, size: int)
    requires
        is_shuffle_of(order, pool),
        0 <= size <= pool.len(),
    ensures
        order.take(size).len() == size,
        order.take(size).no_duplicates(),
        forall|k: AccountId| #[trigger] order.take(size).contains(k) ==> pool.contains(k),
{
    let c = order.take(size);
    assert forall|x: int, y: int| 0 <= x < c.len() && 0 <= y < c.len() && x != y implies c[x] != c[y] by {
        assert(c[x] == order[x] && c[y] == order[y]);
    }
    assert forall|k: AccountId| #[trigger] c.contains(k) implies pool.contains(k) by {
        let x = choose|x: int| 0 <= x < c.len() && c[x] == k;
        assert(order[x] == k);
        assert(order.contains(k));
    }
}

/// A case out of quorum is either re-drawn or decided by the admin, never
/// both: the re-draw needs a draw left, the admin fallback none.
pub proof fn law_redraw_or_admin(
    c: ArbitrationContract,
    case_id: u64,
    now: u64,
    admin: AccountId,
    resolution: DisputeResolution,
)
    requires
        c.wf(),
    ensures
        !(c.select_check(case_id, now) is Ok && c.admin_resolve_check(admin, case_id, resolution) is Ok),
{
}

/// A reveal is accepted only when the revealed vote and salt hash to the
/// juror's commitment, within the reveal window, once.
pub proof fn law_reveal_matches_commitment(
    c: ArbitrationContract,
    case_id: u64,
    juror: AccountId,
    vote_choice: bool,
    salt: Seq<u8>,
    now: u64,
)
    requires
        c.wf(),
        c.reveal_check(case_id, juror, vote_choice, salt, now) is Ok,
    ensures
        c.case_votes(case_id)[juror].commit_hash matches Some(h) && h@ == sha256_digest(
            commit_preimage(vote_choice, salt),
        ),
        c.case_votes(case_id)[juror].revealed_vote is None,
        c.case(case_id).commit_deadline < now <= c.case(case_id).reveal_deadline,
        c.case(case_id).jurors@.contains(juror),
{
}

} // verus!
