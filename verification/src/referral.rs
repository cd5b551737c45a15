//! Referral rewards: referees name a referrer once; the pool reports each
//! qualifying fee, which activates the referral and credits the referrer a
//! share of it (within a per-token lifetime cap); referrers claim what is
//! credited; a bounded leaderboard tracks the top referrers.
use vstd::prelude::*;
use crate::arith::{div_trunc_i128, saturating_mul_i128, saturating_mul_i128_spec};
use crate::assoc::{
    assoc_find, assoc_find_spec, assoc_get, assoc_insert, assoc_take, assoc_view, keys_distinct,
    lemma_assoc_entry, AccountId,
};
use crate::ranking::{is_ranking, rank_order, ranking, ranks_before};

verus! {

pub const MAX_BPS: u32 = 10_000;
/// Referee borrows: 5% of the factoring fee goes to the referrer.
pub const DEFAULT_BORROW_REWARD_BPS: u32 = 500;
/// Referee deposits: 10% of the yield fee goes to the referrer.
pub const DEFAULT_DEPOSIT_REWARD_BPS: u32 = 1_000;
/// Number of referrers the leaderboard tracks.
pub const MAX_LEADERBOARD_SIZE: u32 = 25;

#[derive(Clone, Copy, Debug, PartialEq, Eq, PartialOrd, Ord, Structural)]
pub enum ReferralError {
    AlreadyInitialized,
    Unauthorized,
    AlreadyRegistered,
    SelfReferral,
    InvalidBps,
    ContractPaused,
    AccessControlNotConfigured,
    ReferralCycle,
    InvalidActivityKind,
    NotInitialized,
}

impl ReferralError {
    /// The contract error code of this error.
    pub fn code(&self) -> (r: u32)
        ensures
            r == referral_error_code(*self),
    {
        match self {
            ReferralError::AlreadyInitialized => 0,
            ReferralError::Unauthorized => 1,
            ReferralError::AlreadyRegistered => 2,
            ReferralError::SelfReferral => 3,
            ReferralError::InvalidBps => 4,
            ReferralError::ContractPaused => 5,
            ReferralError::AccessControlNotConfigured => 6,
            ReferralError::ReferralCycle => 7,
            ReferralError::InvalidActivityKind => 8,
            ReferralError::NotInitialized => 9,
        }
    }
}

/// The numbering of referral errors, in declaration order from 0.
pub open spec fn referral_error_code(e: ReferralError) -> u32 {
    match e {
        ReferralError::AlreadyInitialized => 0,
        ReferralError::Unauthorized => 1,
        ReferralError::AlreadyRegistered => 2,
        ReferralError::SelfReferral => 3,
        ReferralError::InvalidBps => 4,
        ReferralError::ContractPaused => 5,
        ReferralError::AccessControlNotConfigured => 6,
        ReferralError::ReferralCycle => 7,
        ReferralError::InvalidActivityKind => 8,
        ReferralError::NotInitialized => 9,
    }
}

#[derive(Clone, Copy, Debug, PartialEq, Eq)]
pub struct ReferralStats {
    pub referrer: AccountId,
    pub referral_count: u32,
}

/// One row of the leaderboard.
#[derive(Clone, Copy, Debug, PartialEq, Eq)]
pub struct LeaderboardEntry {
    pub referrer: AccountId,
    pub referral_count: u32,
}

/// The kind of a qualifying activity the pool reports.
#[derive(Clone, Copy, Debug, PartialEq, Eq, Structural)]
pub enum ActivityKind {
    Borrow,
    Deposit,
    Unknown,
}

/// The bytes of the activity symbol "borrow".
pub open spec fn borrow_symbol() -> Seq<u8> {
    seq![98u8, 111u8, 114u8, 114u8, 111u8, 119u8]
}

/// The bytes of the activity symbol "deposit".
pub open spec fn deposit_symbol() -> Seq<u8> {
    seq![100u8, 101u8, 112u8, 111u8, 115u8, 105u8, 116u8]
}

pub open spec fn activity_kind_spec(symbol: Seq<u8>) -> ActivityKind {
    if symbol == borrow_symbol() {
        ActivityKind::Borrow
    } else if symbol == deposit_symbol() {
        ActivityKind::Deposit
    } else {
        ActivityKind::Unknown
    }
}

fn bytes_equal(a: &[u8], b: &[u8]) -> (r: bool)
    ensures
        r == (a@ == b@),
{
    if a.len() != b.len() {
        return false;
    }
    let mut i: usize = 0;
    while i < a.len()
        invariant
            a@.len() == b@.len(),
            i <= a@.len(),
            forall|j: int| 0 <= j < i ==> a@[j] == b@[j],
        decreases a@.len() - i,
    {
        if a[i] != b[i] {
            return false;
        }
        i = i + 1;
    }
    assert(a@ =~= b@);
    true
}

/// Reads an activity symbol: "borrow", "deposit", or anything else.
pub fn activity_kind(symbol: &[u8]) -> (r: ActivityKind)
    ensures
        r == activity_kind_spec(symbol@),
{
    let borrow: [u8; 6] = [98, 111, 114, 114, 111, 119];
    let deposit: [u8; 7] = [100, 101, 112, 111, 115, 105, 116];
    assert(borrow@ =~= borrow_symbol());
    assert(deposit@ =~= deposit_symbol());
    if bytes_equal(symbol, borrow.as_slice()) {
        ActivityKind::Borrow
    } else if bytes_equal(symbol, deposit.as_slice()) {
        ActivityKind::Deposit
    } else {
        ActivityKind::Unknown
    }
}

// ── Leaderboard ──────────────────────────────────────────────────────────────

/// The first position of `referrer` on the board.
pub open spec fn board_position(b: Seq<LeaderboardEntry>, referrer: AccountId) -> Option<int>
    decreases b.len(),
{
    if b.len() == 0 {
        None
    } else {
        match board_position(b.drop_last(), referrer) {
            Some(i) => Some(i),
            None => if b.last().referrer == referrer {
                Some(b.len() - 1)
            } else {
                None
            },
        }
    }
}

proof fn lemma_board_position(b: Seq<LeaderboardEntry>, referrer: AccountId)
    ensures
        board_position(b, referrer) matches Some(p) ==> 0 <= p < b.len() && b[p].referrer == referrer,
        board_position(b, referrer) is None ==> forall|i: int| 0 <= i < b.len() ==> (#[trigger] b[i]).referrer
            != referrer,
    decreases b.len(),
{
    if b.len() > 0 {
        lemma_board_position(b.drop_last(), referrer);
        assert forall|i: int| 0 <= i < b.len() - 1 implies b.drop_last()[i] == b[i] by {}
    }
}

proof fn lemma_lowest_position(b: Seq<LeaderboardEntry>)
    requires
        b.len() >= 1,
    ensures
        0 <= lowest_position(b) < b.len(),
    decreases b.len(),
{
    if b.len() > 1 {
        lemma_lowest_position(b.drop_last());
    }
}

/// The first position holding the lowest count (for a non-empty board).
pub open spec fn lowest_position(b: Seq<LeaderboardEntry>) -> int
    decreases b.len(),
{
    if b.len() <= 1 {
        0
    } else {
        let m = lowest_position(b.drop_last());
        if b.last().referral_count < b[m].referral_count {
            b.len() - 1
        } else {
            m
        }
    }
}

/// The board before re-sorting, or `None` where the new count does not
/// make the tracked set: an existing row is updated in place; otherwise a
/// row is added while there is room, or replaces the lowest row when the
/// new count beats it.
pub open spec fn board_candidate(b: Seq<LeaderboardEntry>, referrer: AccountId, new_count: u32) -> Option<
    Seq<LeaderboardEntry>,
> {
    let entry = LeaderboardEntry { referrer, referral_count: new_count };
    match board_position(b, referrer) {
        Some(i) => Some(b.update(i, entry)),
        None => if b.len() < MAX_LEADERBOARD_SIZE {
            Some(b.push(entry))
        } else if new_count <= b[lowest_position(b)].referral_count {
            None
        } else {
            Some(b.update(lowest_position(b), entry))
        },
    }
}

/// The ranking keys of a board: count first, no secondary key.
pub open spec fn count_keys(b: Seq<LeaderboardEntry>) -> Seq<(u128, u64)> {
    Seq::new(b.len(), |i: int| (b[i].referral_count as u128, 0u64))
}

/// The board sorted by descending count, keeping the order of ties.
pub open spec fn sorted_board(b: Seq<LeaderboardEntry>) -> Seq<LeaderboardEntry> {
    ranking(count_keys(b)).map_values(|i: usize| b[i as int])
}

/// The leaderboard after `referrer`'s count becomes `new_count`.
pub open spec fn leaderboard_after(b: Seq<LeaderboardEntry>, referrer: AccountId, new_count: u32) -> Seq<
    LeaderboardEntry,
> {
    match board_candidate(b, referrer, new_count) {
        None => b,
        Some(c) => sorted_board(c),
    }
}

/// Keeps the leaderboard current when `referrer`'s referral count changes
/// to `new_count` (see `leaderboard_after`).
pub fn update_leaderboard(board: &mut Vec<LeaderboardEntry>, referrer: AccountId, new_count: u32)
    ensures
        final(board)@ == leaderboard_after(old(board)@, referrer, new_count),
{
    let ghost b0 = board@;
    let mut existing_idx: Option<usize> = None;
    let mut i: usize = 0;
    while i < board.len()
        invariant
            board@ == b0,
            i <= b0.len(),
            board_position(b0.take(i as int), referrer) is None <==> existing_idx is None,
            existing_idx matches Some(p) ==> p < i && board_position(b0.take(i as int), referrer) == Some(
                p as int,
            ),
        decreases b0.len() - i,
    {
        proof {
            assert(b0.take(i + 1).drop_last() =~= b0.take(i as int));
        }
        if existing_idx.is_none() && board[i].referrer == referrer {
            existing_idx = Some(i);
        }
        i = i + 1;
    }
    proof {
        assert(b0.take(b0.len() as int) =~= b0);
        lemma_board_position(b0, referrer);
    }
    let entry = LeaderboardEntry { referrer, referral_count: new_count };
    match existing_idx {
        Some(idx) => {
            board.set(idx, entry);
        },
        None => {
            if board.len() < MAX_LEADERBOARD_SIZE as usize {
                board.push(entry);
            } else {
                let mut min_idx: usize = 0;
                let mut min_count = board[0].referral_count;
                let mut k: usize = 1;
                proof {
                    assert(b0.take(1).len() == 1);
                }
                while k < board.len()
                    invariant
                        board@ == b0,
                        1 <= k <= b0.len(),
                        min_idx == lowest_position(b0.take(k as int)),
                        min_idx < k,
                        min_count == b0[min_idx as int].referral_count,
                    decreases b0.len() - k,
                {
                    proof {
                        assert(b0.take(k + 1).drop_last() =~= b0.take(k as int));
                        assert(b0.take(k + 1)[min_idx as int] == b0[min_idx as int]);
                        assert(b0.take(k + 1).last() == b0[k as int]);
                    }
                    let count = board[k].referral_count;
                    if count < min_count {
                        min_count = count;
                        min_idx = k;
                    }
                    k = k + 1;
                }
                proof {
                    assert(b0.take(b0.len() as int) =~= b0);
                    lemma_lowest_position(b0);
                }
                if new_count <= min_count {
                    return;
                }
                board.set(min_idx, entry);
            }
        },
    }
    let ghost c = board@;
    assert(board_candidate(b0, referrer, new_count) == Some(c));
    let mut keys: Vec<(u128, u64)> = Vec::new();
    let mut j: usize = 0;
    while j < board.len()
        invariant
            board@ == c,
            j <= c.len(),
            keys@ == count_keys(c.take(j as int)),
        decreases c.len() - j,
    {
        keys.push((board[j].referral_count as u128, 0u64));
        proof {
            assert(keys@ =~= count_keys(c.take(j + 1)));
        }
        j = j + 1;
    }
    proof {
        assert(c.take(c.len() as int) =~= c);
    }
    let order = rank_order(&keys);
    let mut sorted: Vec<LeaderboardEntry> = Vec::new();
    let mut m: usize = 0;
    while m < order.len()
        invariant
            board@ == c,
            keys@ == count_keys(c),
            order@ == ranking(keys@),
            is_ranking(keys@, order@),
            m <= order@.len(),
            sorted@ == order@.take(m as int).map_values(|x: usize| c[x as int]),
        decreases order@.len() - m,
    {
        let pos = order[m];
        sorted.push(board[pos]);
        proof {
            assert(sorted@ =~= order@.take(m + 1).map_values(|x: usize| c[x as int]));
        }
        m = m + 1;
    }
    proof {
        assert(order@.take(order@.len() as int) =~= order@);
    }
    *board = sorted;
}

/// The leaderboard is always sorted by descending referral count.
pub proof fn lemma_sorted_board_descending(c: Seq<LeaderboardEntry>)
    requires
        c.len() <= usize::MAX,
    ensures
        sorted_board(c).len() == c.len(),
        forall|i: int, j: int|
            0 <= i < j < c.len() ==> (#[trigger] sorted_board(c)[i]).referral_count >= (#[trigger] sorted_board(
                c,
            )[j]).referral_count,
{
    let keys = count_keys(c);
    crate::ranking::lemma_ranking_exists(keys);
    let order = ranking(keys);
    assert forall|i: int, j: int| 0 <= i < j < c.len() implies (#[trigger] sorted_board(c)[i]).referral_count
        >= (#[trigger] sorted_board(c)[j]).referral_count by {
        assert(ranks_before(keys, order[i] as int, order[j] as int));
    }
}


/// A referrer's count under a count map (0 where absent).
pub open spec fn count_in(m: Map<AccountId, u32>, r: AccountId) -> u32 {
    if m.contains_key(r) {
        m[r]
    } else {
        0
    }
}

/// The leaderboard's invariant: at most `MAX_LEADERBOARD_SIZE` rows,
/// descending counts, one row per referrer, each row's count the referrer's
/// current count.
pub open spec fn board_wf(b: Seq<LeaderboardEntry>, counts: Map<AccountId, u32>) -> bool {
    &&& b.len() <= MAX_LEADERBOARD_SIZE
    &&& forall|i: int, j: int|
        0 <= i < j < b.len() ==> (#[trigger] b[i]).referral_count >= (#[trigger] b[j]).referral_count
    &&& forall|i: int, j: int| 0 <= i < j < b.len() ==> (#[trigger] b[i]).referrer != (#[trigger] b[j]).referrer
    &&& forall|i: int| 0 <= i < b.len() ==> count_in(counts, (#[trigger] b[i]).referrer) == b[i].referral_count
}

/// Updating a referrer's count and the leaderboard together keeps the
/// leaderboard sorted, bounded, duplicate-free and in step with the counts.
pub proof fn lemma_leaderboard_after_wf(
    b: Seq<LeaderboardEntry>,
    counts: Map<AccountId, u32>,
    referrer: AccountId,
    new_count: u32,
)
    requires
        board_wf(b, counts),
    ensures
        board_wf(leaderboard_after(b, referrer, new_count), counts.insert(referrer, new_count)),
{
    let counts2 = counts.insert(referrer, new_count);
    let entry = LeaderboardEntry { referrer, referral_count: new_count };
    lemma_board_position(b, referrer);
    match board_candidate(b, referrer, new_count) {
        None => {
            assert forall|i: int| 0 <= i < b.len() implies count_in(counts2, (#[trigger] b[i]).referrer)
                == b[i].referral_count by {
                assert(b[i].referrer != referrer);
            }
        },
        Some(c) => {
            // The candidate changes one row, or adds one, for `referrer`.
            let ghost pos: int = match board_position(b, referrer) {
                Some(p) => p,
                None => if b.len() < MAX_LEADERBOARD_SIZE {
                    b.len() as int
                } else {
                    lowest_position(b)
                },
            };
            match board_position(b, referrer) {
                Some(p) => {
                    assert(c =~= b.update(p, entry));
                },
                None => if b.len() < MAX_LEADERBOARD_SIZE {
                    assert(c =~= b.push(entry));
                } else {
                    lemma_lowest_position(b);
                    assert(c =~= b.update(lowest_position(b), entry));
                },
            }
            assert(c.len() <= MAX_LEADERBOARD_SIZE);
            assert(0 <= pos < c.len() && c[pos] == entry);
            assert forall|i: int| 0 <= i < c.len() && i != pos implies (#[trigger] c[i]) == b[i] && b[i].referrer
                != referrer by {
                match board_position(b, referrer) {
                    Some(p) => {
                        if b[i].referrer == referrer {
                            if i < p {
                                assert(b[i].referrer != b[p].referrer);
                            } else {
                                assert(b[p].referrer != b[i].referrer);
                            }
                        }
                    },
                    None => {},
                }
            }
            assert forall|i: int, j: int| 0 <= i < j < c.len() implies (#[trigger] c[i]).referrer != (#[trigger] c[j]).referrer by {
                if i != pos && j != pos {
                    assert(c[i] == b[i] && c[j] == b[j]);
                }
            }
            assert forall|i: int| 0 <= i < c.len() implies count_in(counts2, (#[trigger] c[i]).referrer)
                == c[i].referral_count by {
                if i != pos {
                    assert(c[i] == b[i] && b[i].referrer != referrer);
                }
            }
            let keys = count_keys(c);
            crate::ranking::lemma_ranking_exists(keys);
            let order = ranking(keys);
            lemma_sorted_board_descending(c);
            let sb = sorted_board(c);
            assert forall|i: int, j: int| 0 <= i < j < sb.len() implies (#[trigger] sb[i]).referrer != (#[trigger] sb[j]).referrer by {
                assert(ranks_before(keys, order[i] as int, order[j] as int));
                let oi = order[i] as int;
                let oj = order[j] as int;
                assert(oi != oj);
                if oi < oj {
                    assert(c[oi].referrer != c[oj].referrer);
                } else {
                    assert(c[oj].referrer != c[oi].referrer);
                }
            }
            assert forall|i: int| 0 <= i < sb.len() implies count_in(counts2, (#[trigger] sb[i]).referrer)
                == sb[i].referral_count by {
                assert(sb[i] == c[order[i] as int]);
            }
        },
    }
}

// ── Contract ─────────────────────────────────────────────────────────────────

/// The referral contract's storage.
pub struct ReferralContract {
    pub initialized: bool,
    pub admin: Option<AccountId>,
    /// The pool contract, the only caller allowed to report activity.
    pub pool: Option<AccountId>,
    pub paused: bool,
    /// Stored reward rates; the defaults apply while unset.
    pub borrow_reward_bps: Option<u32>,
    pub deposit_reward_bps: Option<u32>,
    /// Referee -> referrer.
    pub referrers: Vec<(AccountId, AccountId)>,
    /// Referees whose referral has been activated.
    pub activated: Vec<(AccountId, bool)>,
    /// Referrer -> (token -> unclaimed reward).
    pub pending_rewards: Vec<(AccountId, Vec<(AccountId, i128)>)>,
    /// Referrer -> number of activated referees.
    pub referral_counts: Vec<(AccountId, u32)>,
    /// The top referrers by referral count, descending.
    pub top_referrers: Vec<LeaderboardEntry>,
    /// The multisig access-control contract trusted by the `*_via_ac` entry points.
    pub access_control: Option<AccountId>,
    /// Token -> the most reward that may ever be credited in that token.
    pub reward_caps: Vec<(AccountId, i128)>,
    /// Token -> the reward credited in that token so far.
    pub rewards_credited: Vec<(AccountId, i128)>,
}

/// The reward owed on `fee_amount` at `bps`: the product (saturating) over
/// 10_000, rounded down.
pub open spec fn reward_for(fee_amount: i128, bps: u32) -> int {
    saturating_mul_i128_spec(fee_amount, bps as i128) / 10_000
}

/// What a recorded activity of `referee` does to its referral: nothing for
/// a referee without a referrer; otherwise the referee stays with its
/// referrer and is activated, and the referrer's count rises by one exactly
/// when the referee was not activated before.
pub open spec fn activity_recorded(old: ReferralContract, new: ReferralContract, referee: AccountId) -> bool {
    old.referrer_of(referee) matches Some(rf) ==> {
        &&& new.referrer_of(referee) == old.referrer_of(referee)
        &&& new.is_activated_spec(referee)
        &&& new.referral_count_of(rf) == old.referral_count_of(rf) + if old.is_activated_spec(referee) {
            0int
        } else {
            1int
        }
    }
}

impl ReferralContract {
    pub open spec fn wf(&self) -> bool {
        &&& keys_distinct(self.referrers@)
        &&& keys_distinct(self.activated@)
        &&& keys_distinct(self.pending_rewards@)
        &&& forall|i: int|
            0 <= i < self.pending_rewards@.len() ==> keys_distinct((#[trigger] self.pending_rewards@[i]).1@)
        &&& keys_distinct(self.referral_counts@)
        &&& keys_distinct(self.reward_caps@)
        &&& keys_distinct(self.rewards_credited@)
        &&& self.top_referrers@.len() <= MAX_LEADERBOARD_SIZE
        &&& forall|i: int, j: int|
            0 <= i < j < self.top_referrers@.len() ==> (#[trigger] self.top_referrers@[i]).referral_count
                >= (#[trigger] self.top_referrers@[j]).referral_count
        &&& forall|i: int, j: int|
            0 <= i < j < self.top_referrers@.len() ==> (#[trigger] self.top_referrers@[i]).referrer
                != (#[trigger] self.top_referrers@[j]).referrer
        &&& forall|i: int|
            0 <= i < self.top_referrers@.len() ==> self.referral_count_of((#[trigger] self.top_referrers@[i]).referrer)
                == self.top_referrers@[i].referral_count
        &&& forall|x: AccountId| #[trigger] self.referrer_of(x) != Some(x)
        &&& forall|x: AccountId, y: AccountId|
            #[trigger] self.referrer_of(x) == Some(y) ==> #[trigger] self.referrer_of(y) != Some(x)
        &&& forall|t: AccountId| #[trigger] self.credited_of(t) >= 0
        &&& forall|r: AccountId, t: AccountId|
            0 <= #[trigger] self.pending_of(r, t) <= self.credited_of(t)
        &&& forall|x: AccountId| #[trigger] self.is_activated_spec(x) ==> self.referrer_of(x) is Some
    }

    /// The referrer `referee` registered, if any.
    pub open spec fn referrer_of(&self, referee: AccountId) -> Option<AccountId> {
        if assoc_view(self.referrers@).contains_key(referee) {
            Some(assoc_view(self.referrers@)[referee])
        } else {
            None
        }
    }

    pub open spec fn is_activated_spec(&self, referee: AccountId) -> bool {
        assoc_view(self.activated@).contains_key(referee) && assoc_view(self.activated@)[referee]
    }

    pub open spec fn referral_count_of(&self, referrer: AccountId) -> u32 {
        if assoc_view(self.referral_counts@).contains_key(referrer) {
            assoc_view(self.referral_counts@)[referrer]
        } else {
            0
        }
    }

    /// The unclaimed reward of `referrer` in `token`.
    pub open spec fn pending_of(&self, referrer: AccountId, token: AccountId) -> i128 {
        let outer = assoc_view(self.pending_rewards@);
        if outer.contains_key(referrer) && assoc_view(outer[referrer]@).contains_key(token) {
            assoc_view(outer[referrer]@)[token]
        } else {
            0
        }
    }

    pub open spec fn borrow_bps(&self) -> u32 {
        match self.borrow_reward_bps {
            Some(b) => b,
            None => DEFAULT_BORROW_REWARD_BPS,
        }
    }

    pub open spec fn deposit_bps(&self) -> u32 {
        match self.deposit_reward_bps {
            Some(b) => b,
            None => DEFAULT_DEPOSIT_REWARD_BPS,
        }
    }

    pub open spec fn credited_of(&self, token: AccountId) -> i128 {
        if assoc_view(self.rewards_credited@).contains_key(token) {
            assoc_view(self.rewards_credited@)[token]
        } else {
            0
        }
    }

    /// The reward still creditable in `token`: none without a cap, else
    /// what the cap leaves above the reward credited so far.
    pub open spec fn cap_headroom(&self, token: AccountId) -> int {
        if assoc_view(self.reward_caps@).contains_key(token) {
            let left = assoc_view(self.reward_caps@)[token] - self.credited_of(token);
            if left > 0 {
                left
            } else {
                0
            }
        } else {
            0
        }
    }

    /// The invariant depends only on the referral records, the pending
    /// rewards, the counts, the caps and the leaderboard.
    pub proof fn lemma_wf_frame(a: Self, b: Self)
        requires
            a.wf(),
            a.referrers == b.referrers,
            a.activated == b.activated,
            a.pending_rewards == b.pending_rewards,
            a.referral_counts == b.referral_counts,
            a.top_referrers == b.top_referrers,
            a.reward_caps == b.reward_caps,
            a.rewards_credited == b.rewards_credited,
        ensures
            b.wf(),
    {
        assert forall|x: AccountId| #[trigger] b.referrer_of(x) != Some(x) by {
            assert(a.referrer_of(x) == b.referrer_of(x));
        }
        assert forall|x: AccountId, y: AccountId| #[trigger] b.referrer_of(x) == Some(y) implies #[trigger] b.referrer_of(
            y,
        ) != Some(x) by {
            assert(a.referrer_of(x) == b.referrer_of(x));
            assert(a.referrer_of(y) == b.referrer_of(y));
        }
        assert forall|i: int| 0 <= i < b.top_referrers@.len() implies b.referral_count_of(
            (#[trigger] b.top_referrers@[i]).referrer,
        ) == b.top_referrers@[i].referral_count by {
            assert(a.top_referrers@[i] == b.top_referrers@[i]);
        }
        assert forall|t: AccountId| #[trigger] b.credited_of(t) >= 0 by {
            assert(a.credited_of(t) == b.credited_of(t));
        }
        assert forall|r: AccountId, t: AccountId| 0 <= #[trigger] b.pending_of(r, t) <= b.credited_of(t) by {
            assert(a.pending_of(r, t) == b.pending_of(r, t));
            assert(a.credited_of(t) == b.credited_of(t));
        }
        assert forall|x: AccountId| #[trigger] b.is_activated_spec(x) implies b.referrer_of(x) is Some by {
            assert(a.is_activated_spec(x) == b.is_activated_spec(x));
            assert(a.referrer_of(x) == b.referrer_of(x));
        }
    }

    /// The storage of a freshly deployed, uninitialized contract.
    pub fn new() -> (r: Self)
        ensures
            r.wf(),
            !r.initialized,
            r.admin is None,
            r.pool is None,
            !r.paused,
            r.borrow_reward_bps is None,
            r.deposit_reward_bps is None,
            r.referrers@.len() == 0,
            r.activated@.len() == 0,
            r.pending_rewards@.len() == 0,
            r.referral_counts@.len() == 0,
            r.top_referrers@.len() == 0,
            r.access_control is None,
            r.reward_caps@.len() == 0,
            r.rewards_credited@.len() == 0,
    {
        let r = ReferralContract {
            initialized: false,
            admin: None,
            pool: None,
            paused: false,
            borrow_reward_bps: None,
            deposit_reward_bps: None,
            referrers: Vec::new(),
            activated: Vec::new(),
            pending_rewards: Vec::new(),
            referral_counts: Vec::new(),
            top_referrers: Vec::new(),
            access_control: None,
            reward_caps: Vec::new(),
            rewards_credited: Vec::new(),
        };
        proof {
            assert(assoc_view(r.referrers@) =~= Map::empty());
            assert(assoc_view(r.referral_counts@) =~= Map::empty());
            assert(assoc_view(r.rewards_credited@) =~= Map::empty());
            assert(assoc_view(r.pending_rewards@) =~= Map::empty());
        }
        r
    }

    /// One-time setup of the admin and pool, with the default reward rates.
    pub fn initialize(&mut self, admin: AccountId, pool: AccountId) -> (r: Result<(), ReferralError>)
        requires
            old(self).wf(),
        ensures
            final(self).wf(),
            r is Err <==> old(self).initialized,
            r is Err ==> r == Err::<(), ReferralError>(ReferralError::AlreadyInitialized) && *final(self)
                == *old(self),
            r is Ok ==> *final(self) == (ReferralContract {
                initialized: true,
                admin: Some(admin),
                pool: Some(pool),
                paused: false,
                borrow_reward_bps: Some(DEFAULT_BORROW_REWARD_BPS),
                deposit_reward_bps: Some(DEFAULT_DEPOSIT_REWARD_BPS),
                ..*old(self)
            }),
    {
        if self.initialized {
            return Err(ReferralError::AlreadyInitialized);
        }
        self.admin = Some(admin);
        self.pool = Some(pool);
        self.initialized = true;
        self.paused = false;
        self.borrow_reward_bps = Some(DEFAULT_BORROW_REWARD_BPS);
        self.deposit_reward_bps = Some(DEFAULT_DEPOSIT_REWARD_BPS);
        proof {
            Self::lemma_wf_frame(*old(self), *self);
        }
        Ok(())
    }

    /// The admin check of the legacy admin entry points.
    pub open spec fn admin_check(&self, admin: AccountId) -> Result<(), ReferralError> {
        match self.admin {
            None => Err(ReferralError::NotInitialized),
            Some(a) => if a != admin {
                Err(ReferralError::Unauthorized)
            } else {
                Ok(())
            },
        }
    }

    fn require_admin(&self, admin: AccountId) -> (r: Result<(), ReferralError>)
        ensures
            r == self.admin_check(admin),
    {
        match self.admin {
            None => Err(ReferralError::NotInitialized),
            Some(a) => if a != admin {
                Err(ReferralError::Unauthorized)
            } else {
                Ok(())
            },
        }
    }

    /// The check of the `*_via_ac` entry points: the caller must be the
    /// configured access-control contract.
    pub open spec fn access_control_check(&self, caller: AccountId) -> Result<(), ReferralError> {
        match self.access_control {
            None => Err(ReferralError::AccessControlNotConfigured),
            Some(a) => if a != caller {
                Err(ReferralError::Unauthorized)
            } else {
                Ok(())
            },
        }
    }

    fn require_access_control(&self, caller: AccountId) -> (r: Result<(), ReferralError>)
        ensures
            r == self.access_control_check(caller),
    {
        match self.access_control {
            None => Err(ReferralError::AccessControlNotConfigured),
            Some(a) => if a != caller {
                Err(ReferralError::Unauthorized)
            } else {
                Ok(())
            },
        }
    }

    pub fn pause(&mut self, admin: AccountId) -> (r: Result<(), ReferralError>)
        requires
            old(self).wf(),
        ensures
            final(self).wf(),
            r == old(self).admin_check(admin),
            r is Err ==> *final(self) == *old(self),
            r is Ok ==> *final(self) == (ReferralContract { paused: true, ..*old(self) }),
    {
        self.require_admin(admin)?;
        self.paused = true;
        proof {
            Self::lemma_wf_frame(*old(self), *self);
        }
        Ok(())
    }

    pub fn unpause(&mut self, admin: AccountId) -> (r: Result<(), ReferralError>)
        requires
            old(self).wf(),
        ensures
            final(self).wf(),
            r == old(self).admin_check(admin),
            r is Err ==> *final(self) == *old(self),
            r is Ok ==> *final(self) == (ReferralContract { paused: false, ..*old(self) }),
    {
        self.require_admin(admin)?;
        self.paused = false;
        proof {
            Self::lemma_wf_frame(*old(self), *self);
        }
        Ok(())
    }

    pub fn is_paused(&self) -> (r: bool)
        ensures
            r == self.paused,
    {
        self.paused
    }

    /// Sets the pool contract allowed to report activity.
    pub fn set_pool(&mut self, admin: AccountId, pool: AccountId) -> (r: Result<(), ReferralError>)
        requires
            old(self).wf(),
        ensures
            final(self).wf(),
            r == old(self).admin_check(admin),
            r is Err ==> *final(self) == *old(self),
            r is Ok ==> *final(self) == (ReferralContract { pool: Some(pool), ..*old(self) }),
    {
        self.require_admin(admin)?;
        self.pool = Some(pool);
        proof {
            Self::lemma_wf_frame(*old(self), *self);
        }
        Ok(())
    }

    pub fn get_pool(&self) -> (r: Result<AccountId, ReferralError>)
        ensures
            r == match self.pool {
                Some(p) => Ok(p),
                None => Err(ReferralError::NotInitialized),
            },
    {
        match self.pool {
            Some(p) => Ok(p),
            None => Err(ReferralError::NotInitialized),
        }
    }

    /// Sets the share (in bps, at most 10_000) of a borrow fee paid out.
    pub fn set_borrow_reward_bps(&mut self, admin: AccountId, bps: u32) -> (r: Result<(), ReferralError>)
        requires
            old(self).wf(),
        ensures
            final(self).wf(),
            r == match old(self).admin_check(admin) {
                Err(e) => Err(e),
                Ok(_) => if bps > MAX_BPS {
                    Err(ReferralError::InvalidBps)
                } else {
                    Ok(())
                },
            },
            r is Err ==> *final(self) == *old(self),
            r is Ok ==> *final(self) == (ReferralContract { borrow_reward_bps: Some(bps), ..*old(self) }),
    {
        self.require_admin(admin)?;
        if bps > MAX_BPS {
            return Err(ReferralError::InvalidBps);
        }
        self.borrow_reward_bps = Some(bps);
        proof {
            Self::lemma_wf_frame(*old(self), *self);
        }
        Ok(())
    }

    /// Sets the share (in bps, at most 10_000) of a deposit fee paid out.
    pub fn set_deposit_reward_bps(&mut self, admin: AccountId, bps: u32) -> (r: Result<(), ReferralError>)
        requires
            old(self).wf(),
        ensures
            final(self).wf(),
            r == match old(self).admin_check(admin) {
                Err(e) => Err(e),
                Ok(_) => if bps > MAX_BPS {
                    Err(ReferralError::InvalidBps)
                } else {
                    Ok(())
                },
            },
            r is Err ==> *final(self) == *old(self),
            r is Ok ==> *final(self) == (ReferralContract { deposit_reward_bps: Some(bps), ..*old(self) }),
    {
        self.require_admin(admin)?;
        if bps > MAX_BPS {
            return Err(ReferralError::InvalidBps);
        }
        self.deposit_reward_bps = Some(bps);
        proof {
            Self::lemma_wf_frame(*old(self), *self);
        }
        Ok(())
    }

    /// The admin sets the lifetime reward cap of `token`.
    pub fn set_lifetime_reward_cap(&mut self, admin: AccountId, token: AccountId, cap: i128) -> (r: Result<
        (),
        ReferralError,
    >)
        requires
            old(self).wf(),
        ensures
            final(self).wf(),
            r == old(self).admin_check(admin),
            r is Err ==> *final(self) == *old(self),
            r is Ok ==> *final(self) == (ReferralContract { reward_caps: final(self).reward_caps, ..*old(self) })
                && assoc_view(final(self).reward_caps@) == assoc_view(old(self).reward_caps@).insert(token, cap),
    {
        self.require_admin(admin)?;
        assoc_insert(&mut self.reward_caps, token, cap);
        proof {
            let a = *old(self);
            let b = *self;
            assert forall|x: AccountId| #[trigger] b.referrer_of(x) != Some(x) by {
                assert(a.referrer_of(x) == b.referrer_of(x));
            }
            assert forall|x: AccountId, y: AccountId| #[trigger] b.referrer_of(x) == Some(y) implies #[trigger] b.referrer_of(
                y,
            ) != Some(x) by {
                assert(a.referrer_of(x) == b.referrer_of(x));
                assert(a.referrer_of(y) == b.referrer_of(y));
            }
            assert forall|i: int| 0 <= i < b.top_referrers@.len() implies b.referral_count_of(
                (#[trigger] b.top_referrers@[i]).referrer,
            ) == b.top_referrers@[i].referral_count by {
                assert(a.top_referrers@[i] == b.top_referrers@[i]);
            }
            assert forall|t: AccountId| #[trigger] b.credited_of(t) >= 0 by {
                assert(a.credited_of(t) == b.credited_of(t));
            }
            assert forall|r: AccountId, t: AccountId| 0 <= #[trigger] b.pending_of(r, t) <= b.credited_of(t) by {
                assert(a.pending_of(r, t) == b.pending_of(r, t));
                assert(a.credited_of(t) == b.credited_of(t));
            }
            assert forall|x: AccountId| #[trigger] b.is_activated_spec(x) implies b.referrer_of(x) is Some by {
                assert(a.is_activated_spec(x) == b.is_activated_spec(x));
                assert(a.referrer_of(x) == b.referrer_of(x));
            }
        }
        Ok(())
    }

    /// Bootstraps the multisig trust anchor (legacy admin only).
    pub fn set_access_control(&mut self, admin: AccountId, access_control: AccountId) -> (r: Result<
        (),
        ReferralError,
    >)
        requires
            old(self).wf(),
        ensures
            final(self).wf(),
            r == old(self).admin_check(admin),
            r is Err ==> *final(self) == *old(self),
            r is Ok ==> *final(self) == (ReferralContract { access_control: Some(access_control), ..*old(self) }),
    {
        self.require_admin(admin)?;
        self.access_control = Some(access_control);
        proof {
            Self::lemma_wf_frame(*old(self), *self);
        }
        Ok(())
    }

    pub fn get_access_control(&self) -> (r: Option<AccountId>)
        ensures
            r == self.access_control,
    {
        self.access_control
    }

    /// Rotates the trust anchor through the current access-control contract.
    pub fn set_access_control_via_ac(&mut self, access_control: AccountId, new_access_control: AccountId) -> (r:
        Result<(), ReferralError>)
        requires
            old(self).wf(),
        ensures
            final(self).wf(),
            r == old(self).access_control_check(access_control),
            r is Err ==> *final(self) == *old(self),
            r is Ok ==> *final(self) == (ReferralContract {
                access_control: Some(new_access_control),
                ..*old(self)
            }),
    {
        self.require_access_control(access_control)?;
        self.access_control = Some(new_access_control);
        proof {
            Self::lemma_wf_frame(*old(self), *self);
        }
        Ok(())
    }

    pub fn set_paused_via_ac(&mut self, access_control: AccountId, paused: bool) -> (r: Result<(), ReferralError>)
        requires
            old(self).wf(),
        ensures
            final(self).wf(),
            r == old(self).access_control_check(access_control),
            r is Err ==> *final(self) == *old(self),
            r is Ok ==> *final(self) == (ReferralContract { paused, ..*old(self) }),
    {
        self.require_access_control(access_control)?;
        self.paused = paused;
        proof {
            Self::lemma_wf_frame(*old(self), *self);
        }
        Ok(())
    }

    pub fn set_pool_via_ac(&mut self, access_control: AccountId, pool: AccountId) -> (r: Result<(), ReferralError>)
        requires
            old(self).wf(),
        ensures
            final(self).wf(),
            r == old(self).access_control_check(access_control),
            r is Err ==> *final(self) == *old(self),
            r is Ok ==> *final(self) == (ReferralContract { pool: Some(pool), ..*old(self) }),
    {
        self.require_access_control(access_control)?;
        self.pool = Some(pool);
        proof {
            Self::lemma_wf_frame(*old(self), *self);
        }
        Ok(())
    }

    pub fn set_borrow_reward_bps_via_ac(&mut self, access_control: AccountId, bps: u32) -> (r: Result<
        (),
        ReferralError,
    >)
        requires
            old(self).wf(),
        ensures
            final(self).wf(),
            r == match old(self).access_control_check(access_control) {
                Err(e) => Err(e),
                Ok(_) => if bps > MAX_BPS {
                    Err(ReferralError::InvalidBps)
                } else {
                    Ok(())
                },
            },
            r is Err ==> *final(self) == *old(self),
            r is Ok ==> *final(self) == (ReferralContract { borrow_reward_bps: Some(bps), ..*old(self) }),
    {
        self.require_access_control(access_control)?;
        if bps > MAX_BPS {
            return Err(ReferralError::InvalidBps);
        }
        self.borrow_reward_bps = Some(bps);
        proof {
            Self::lemma_wf_frame(*old(self), *self);
        }
        Ok(())
    }

    pub fn set_deposit_reward_bps_via_ac(&mut self, access_control: AccountId, bps: u32) -> (r: Result<
        (),
        ReferralError,
    >)
        requires
            old(self).wf(),
        ensures
            final(self).wf(),
            r == match old(self).access_control_check(access_control) {
                Err(e) => Err(e),
                Ok(_) => if bps > MAX_BPS {
                    Err(ReferralError::InvalidBps)
                } else {
                    Ok(())
                },
            },
            r is Err ==> *final(self) == *old(self),
            r is Ok ==> *final(self) == (ReferralContract { deposit_reward_bps: Some(bps), ..*old(self) }),
    {
        self.require_access_control(access_control)?;
        if bps > MAX_BPS {
            return Err(ReferralError::InvalidBps);
        }
        self.deposit_reward_bps = Some(bps);
        proof {
            Self::lemma_wf_frame(*old(self), *self);
        }
        Ok(())
    }

    pub fn get_borrow_reward_bps(&self) -> (r: u32)
        ensures
            r == self.borrow_bps(),
    {
        match self.borrow_reward_bps {
            Some(b) => b,
            None => DEFAULT_BORROW_REWARD_BPS,
        }
    }

    pub fn get_deposit_reward_bps(&self) -> (r: u32)
        ensures
            r == self.deposit_bps(),
    {
        match self.deposit_reward_bps {
            Some(b) => b,
            None => DEFAULT_DEPOSIT_REWARD_BPS,
        }
    }

    pub fn get_referrer(&self, referee: AccountId) -> (r: Option<AccountId>)
        requires
            self.wf(),
        ensures
            r == self.referrer_of(referee),
    {
        match assoc_get(&self.referrers, referee) {
            Some(x) => Some(*x),
            None => None,
        }
    }

    pub fn is_activated(&self, referee: AccountId) -> (r: bool)
        requires
            self.wf(),
        ensures
            r == self.is_activated_spec(referee),
    {
        match assoc_get(&self.activated, referee) {
            Some(x) => *x,
            None => false,
        }
    }

    pub fn get_pending_reward(&self, referrer: AccountId, token: AccountId) -> (r: i128)
        requires
            self.wf(),
        ensures
            r == self.pending_of(referrer, token),
    {
        match assoc_find(&self.pending_rewards, referrer) {
            Some(i) => {
                proof {
                    lemma_assoc_entry(self.pending_rewards@, i as int);
                }
                match assoc_get(&self.pending_rewards[i].1, token) {
                    Some(a) => *a,
                    None => 0,
                }
            },
            None => 0,
        }
    }

    pub fn get_stats(&self, referrer: AccountId) -> (r: ReferralStats)
        requires
            self.wf(),
        ensures
            r == (ReferralStats { referrer, referral_count: self.referral_count_of(referrer) }),
    {
        let referral_count = match assoc_get(&self.referral_counts, referrer) {
            Some(c) => *c,
            None => 0,
        };
        ReferralStats { referrer, referral_count }
    }

    /// The first `limit` rows of the leaderboard (all of them for 0 or a
    /// limit past its length).
    pub fn get_top_referrers(&self, limit: u32) -> (r: Vec<LeaderboardEntry>)
        ensures
            r@ == self.top_referrers@.take(
                if limit == 0 || limit > self.top_referrers@.len() {
                    self.top_referrers@.len() as int
                } else {
                    limit as int
                },
            ),
    {
        let n = self.top_referrers.len();
        let take: usize = if limit == 0 || limit as usize > n {
            n
        } else {
            limit as usize
        };
        let mut result: Vec<LeaderboardEntry> = Vec::new();
        let mut i: usize = 0;
        while i < take
            invariant
                take <= n,
                n == self.top_referrers@.len(),
                i <= take,
                result@ == self.top_referrers@.take(i as int),
            decreases take - i,
        {
            result.push(self.top_referrers[i]);
            proof {
                assert(result@ =~= self.top_referrers@.take(i + 1));
            }
            i = i + 1;
        }
        result
    }

    /// `referee` names `referrer`, once; a referrer cannot name their own
    /// referee back.
    pub fn register(&mut self, referee: AccountId, referrer: AccountId) -> (r: Result<(), ReferralError>)
        requires
            old(self).wf(),
        ensures
            final(self).wf(),
            r == (if old(self).paused {
                Err(ReferralError::ContractPaused)
            } else if referee == referrer {
                Err(ReferralError::SelfReferral)
            } else if old(self).referrer_of(referrer) == Some(referee) {
                Err(ReferralError::ReferralCycle)
            } else if old(self).referrer_of(referee) is Some {
                Err(ReferralError::AlreadyRegistered)
            } else {
                Ok::<(), ReferralError>(())
            }),
            r is Err ==> *final(self) == *old(self),
            r is Ok ==> *final(self) == (ReferralContract { referrers: final(self).referrers, ..*old(self) })
                && assoc_view(final(self).referrers@) == assoc_view(old(self).referrers@).insert(referee, referrer),
    {
        if self.paused {
            return Err(ReferralError::ContractPaused);
        }
        if referee == referrer {
            return Err(ReferralError::SelfReferral);
        }
        if let Some(existing) = assoc_get(&self.referrers, referrer) {
            if *existing == referee {
                return Err(ReferralError::ReferralCycle);
            }
        }
        if assoc_get(&self.referrers, referee).is_some() {
            return Err(ReferralError::AlreadyRegistered);
        }
        assoc_insert(&mut self.referrers, referee, referrer);
        proof {
            let a = *old(self);
            let b = *self;
            assert forall|x: AccountId| #[trigger] b.referrer_of(x) != Some(x) by {
                if x != referee {
                    assert(a.referrer_of(x) == b.referrer_of(x));
                }
            }
            assert forall|x: AccountId, y: AccountId| #[trigger] b.referrer_of(x) == Some(y) implies #[trigger] b.referrer_of(
                y,
            ) != Some(x) by {
                if x != referee {
                    assert(a.referrer_of(x) == b.referrer_of(x));
                }
                if y != referee {
                    assert(a.referrer_of(y) == b.referrer_of(y));
                }
            }
            assert forall|i: int| 0 <= i < b.top_referrers@.len() implies b.referral_count_of(
                (#[trigger] b.top_referrers@[i]).referrer,
            ) == b.top_referrers@[i].referral_count by {
                assert(a.top_referrers@[i] == b.top_referrers@[i]);
            }
            assert forall|t: AccountId| #[trigger] b.credited_of(t) >= 0 by {
                assert(a.credited_of(t) == b.credited_of(t));
            }
            assert forall|rr: AccountId, t: AccountId| 0 <= #[trigger] b.pending_of(rr, t) <= b.credited_of(t) by {
                assert(a.pending_of(rr, t) == b.pending_of(rr, t));
                assert(a.credited_of(t) == b.credited_of(t));
            }
            assert forall|x: AccountId| #[trigger] b.is_activated_spec(x) implies b.referrer_of(x) is Some by {
                assert(a.is_activated_spec(x) == b.is_activated_spec(x));
                if x != referee {
                    assert(a.referrer_of(x) == b.referrer_of(x));
                }
            }
        }
        Ok(())
    }

    /// Sets the unclaimed reward of `referrer` in `token`.
    fn set_pending(&mut self, referrer: AccountId, token: AccountId, amount: i128)
        requires
            keys_distinct(old(self).pending_rewards@),
            forall|i: int|
                0 <= i < old(self).pending_rewards@.len() ==> keys_distinct(
                    (#[trigger] old(self).pending_rewards@[i]).1@,
                ),
        ensures
            keys_distinct(final(self).pending_rewards@),
            forall|i: int|
                0 <= i < final(self).pending_rewards@.len() ==> keys_distinct(
                    (#[trigger] final(self).pending_rewards@[i]).1@,
                ),
            *final(self) == (ReferralContract { pending_rewards: final(self).pending_rewards, ..*old(self) }),
            forall|r2: AccountId, t2: AccountId|
                #[trigger] final(self).pending_of(r2, t2) == if r2 == referrer && t2 == token {
                    amount
                } else {
                    old(self).pending_of(r2, t2)
                },
    {
        let ghost p0 = self.pending_rewards@;
        let mut inner: Vec<(AccountId, i128)> = match assoc_take(&mut self.pending_rewards, referrer) {
            Some(v) => v,
            None => Vec::new(),
        };
        let ghost p1 = self.pending_rewards@;
        let ghost inner0 = inner@;
        proof {
            match assoc_find_spec(p0, referrer) {
                Some(i) => {
                    assert(keys_distinct(p0[i].1@));
                    assert forall|k: int| 0 <= k < p1.len() implies keys_distinct((#[trigger] p1[k]).1@) by {
                        if k < i {
                            assert(p1[k] == p0[k]);
                        } else {
                            assert(p1[k] == p0[k + 1]);
                        }
                    }
                },
                None => {
                    assert(keys_distinct(inner0));
                },
            }
        }
        assoc_insert(&mut inner, token, amount);
        let ghost inner1 = inner@;
        assoc_insert(&mut self.pending_rewards, referrer, inner);
        proof {
            let p2 = self.pending_rewards@;
            assert forall|k: int| 0 <= k < p2.len() implies keys_distinct((#[trigger] p2[k]).1@) by {
                match assoc_find_spec(p1, referrer) {
                    Some(i) => {
                        if k != i {
                            assert(p2[k] == p1[k]);
                        }
                    },
                    None => {
                        if k < p1.len() {
                            assert(p2[k] == p1[k]);
                        }
                    },
                }
            }
            assert(assoc_view(p1).contains_key(referrer) == false);
            assert forall|r2: AccountId, t2: AccountId|
                #[trigger] self.pending_of(r2, t2) == if r2 == referrer && t2 == token {
                    amount
                } else {
                    old(self).pending_of(r2, t2)
                } by {
                if r2 == referrer {
                    assert(assoc_view(p2)[referrer] == inner);
                    if assoc_view(p0).contains_key(referrer) {
                        assert(assoc_view(inner0) == assoc_view(assoc_view(p0)[referrer]@));
                    } else {
                        crate::assoc::lemma_assoc_empty(inner0);
                    }
                } else {
                    assert(assoc_view(p2).contains_key(r2) == assoc_view(p0).contains_key(r2));
                    if assoc_view(p0).contains_key(r2) {
                        assert(assoc_view(p2)[r2] == assoc_view(p0)[r2]);
                    }
                }
            }
        }
    }

    /// The reward rate for a reported activity kind.
    pub open spec fn kind_bps(&self, kind: ActivityKind) -> u32 {
        match kind {
            ActivityKind::Borrow => self.borrow_bps(),
            _ => self.deposit_bps(),
        }
    }

    /// The reward credited for a fee: the rate's share of it, within the
    /// token's remaining lifetime cap.
    pub open spec fn credited_reward(&self, kind: ActivityKind, fee_amount: i128, token: AccountId) -> int {
        let raw = reward_for(fee_amount, self.kind_bps(kind));
        if raw <= self.cap_headroom(token) {
            raw
        } else {
            self.cap_headroom(token)
        }
    }

    /// The result `record_activity` returns.
    pub open spec fn record_activity_result(
        &self,
        caller: AccountId,
        referee: AccountId,
        kind: ActivityKind,
        fee_amount: i128,
        token: AccountId,
    ) -> Result<i128, ReferralError> {
        if self.paused {
            Err(ReferralError::ContractPaused)
        } else if self.pool is None {
            Err(ReferralError::NotInitialized)
        } else if self.pool != Some(caller) {
            Err(ReferralError::Unauthorized)
        } else if self.referrer_of(referee) is None {
            Ok(0)
        } else if fee_amount <= 0 {
            Ok(0)
        } else if kind == ActivityKind::Unknown {
            Err(ReferralError::InvalidActivityKind)
        } else {
            Ok(self.credited_reward(kind, fee_amount, token) as i128)
        }
    }

    /// The pool reports a qualifying activity (`kind` is the symbol
    /// "borrow" or "deposit") with the fee it realized. The first one for a
    /// referee activates the referral: the referrer's count goes up by one,
    /// once, and the leaderboard follows. A positive fee credits the
    /// referrer the returned reward in `token`, which the pool then pays to
    /// this contract.
    pub fn record_activity(
        &mut self,
        caller: AccountId,
        referee: AccountId,
        kind: &[u8],
        fee_amount: i128,
        token: AccountId,
    ) -> (r: Result<i128, ReferralError>)
        requires
            old(self).wf(),
            old(self).referrer_of(referee) matches Some(rf) ==> old(self).referral_count_of(rf) < u32::MAX,
        ensures
            final(self).wf(),
            r == old(self).record_activity_result(caller, referee, activity_kind_spec(kind@), fee_amount, token),
            r is Err ==> *final(self) == *old(self),
            r is Ok && old(self).referrer_of(referee) is None ==> *final(self) == *old(self),
            r is Ok ==> activity_recorded(*old(self), *final(self), referee),
            r is Ok && old(self).referrer_of(referee) is Some ==> {
                let rf = old(self).referrer_of(referee)->Some_0;
                let newly = !old(self).is_activated_spec(referee);
                let reward = r->Ok_0;
                &&& final(self).referrers == old(self).referrers
                &&& final(self).initialized == old(self).initialized
                &&& final(self).admin == old(self).admin
                &&& final(self).pool == old(self).pool
                &&& final(self).paused == old(self).paused
                &&& final(self).borrow_reward_bps == old(self).borrow_reward_bps
                &&& final(self).deposit_reward_bps == old(self).deposit_reward_bps
                &&& final(self).access_control == old(self).access_control
                &&& final(self).reward_caps == old(self).reward_caps
                &&& final(self).is_activated_spec(referee)
                &&& forall|x: AccountId| x != referee ==> #[trigger] final(self).is_activated_spec(x)
                    == old(self).is_activated_spec(x)
                &&& final(self).referral_count_of(rf) == old(self).referral_count_of(rf) + if newly {
                    1int
                } else {
                    0int
                }
                &&& forall|x: AccountId| x != rf ==> #[trigger] final(self).referral_count_of(x)
                    == old(self).referral_count_of(x)
                &&& final(self).top_referrers@ == if newly {
                    leaderboard_after(old(self).top_referrers@, rf, (old(self).referral_count_of(rf) + 1) as u32)
                } else {
                    old(self).top_referrers@
                }
                &&& reward >= 0
                &&& final(self).pending_of(rf, token) == old(self).pending_of(rf, token) + reward
                &&& forall|r2: AccountId, t2: AccountId|
                    !(r2 == rf && t2 == token) ==> #[trigger] final(self).pending_of(r2, t2) == old(
                        self,
                    ).pending_of(r2, t2)
                &&& final(self).credited_of(token) == old(self).credited_of(token) + reward
                &&& forall|t2: AccountId| t2 != token ==> #[trigger] final(self).credited_of(t2) == old(
                    self,
                ).credited_of(t2)
            },
    {
        if self.paused {
            return Err(ReferralError::ContractPaused);
        }
        let pool = match self.pool {
            Some(p) => p,
            None => return Err(ReferralError::NotInitialized),
        };
        if caller != pool {
            return Err(ReferralError::Unauthorized);
        }
        let referrer = match assoc_get(&self.referrers, referee) {
            Some(x) => *x,
            None => return Ok(0),
        };
        let activity = activity_kind(kind);
        if fee_amount > 0 && activity == ActivityKind::Unknown {
            return Err(ReferralError::InvalidActivityKind);
        }
        let ghost s0 = *self;
        // Activation: the first qualifying activity counts the referral once.
        let already = match assoc_get(&self.activated, referee) {
            Some(x) => *x,
            None => false,
        };
        if !already {
            assoc_insert(&mut self.activated, referee, true);
            let count = match assoc_get(&self.referral_counts, referrer) {
                Some(c) => *c,
                None => 0,
            };
            let new_count = count + 1;
            assoc_insert(&mut self.referral_counts, referrer, new_count);
            proof {
                lemma_leaderboard_after_wf(
                    s0.top_referrers@,
                    assoc_view(s0.referral_counts@),
                    referrer,
                    new_count,
                );
                assert forall|i: int| 0 <= i < s0.top_referrers@.len() implies count_in(
                    assoc_view(s0.referral_counts@),
                    (#[trigger] s0.top_referrers@[i]).referrer,
                ) == s0.top_referrers@[i].referral_count by {
                    assert(s0.referral_count_of(s0.top_referrers@[i].referrer) == s0.top_referrers@[i].referral_count);
                }
            }
            update_leaderboard(&mut self.top_referrers, referrer, new_count);
        }
        let ghost s1 = *self;
        proof {
            let b = s1;
            let a = s0;
            assert(board_wf(b.top_referrers@, assoc_view(b.referral_counts@)));
            assert forall|i: int| 0 <= i < b.top_referrers@.len() implies b.referral_count_of(
                (#[trigger] b.top_referrers@[i]).referrer,
            ) == b.top_referrers@[i].referral_count by {
                assert(count_in(assoc_view(b.referral_counts@), b.top_referrers@[i].referrer) == b.top_referrers@[i].referral_count);
            }
            assert forall|x: AccountId| #[trigger] b.referrer_of(x) != Some(x) by {
                assert(a.referrer_of(x) == b.referrer_of(x));
            }
            assert forall|x: AccountId, y: AccountId| #[trigger] b.referrer_of(x) == Some(y) implies #[trigger] b.referrer_of(
                y,
            ) != Some(x) by {
                assert(a.referrer_of(x) == b.referrer_of(x));
                assert(a.referrer_of(y) == b.referrer_of(y));
            }
            assert forall|t: AccountId| #[trigger] b.credited_of(t) >= 0 by {
                assert(a.credited_of(t) == b.credited_of(t));
            }
            assert forall|rr: AccountId, t: AccountId| 0 <= #[trigger] b.pending_of(rr, t) <= b.credited_of(t) by {
                assert(a.pending_of(rr, t) == b.pending_of(rr, t));
                assert(a.credited_of(t) == b.credited_of(t));
            }
            assert forall|x: AccountId| #[trigger] b.is_activated_spec(x) implies b.referrer_of(x) is Some by {
                assert(a.referrer_of(x) == b.referrer_of(x));
                if x != referee {
                    assert(a.is_activated_spec(x) == b.is_activated_spec(x));
                }
            }
            assert(b.wf());
        }
        if fee_amount <= 0 {
            return Ok(0);
        }
        let bps: u32 = match activity {
            ActivityKind::Borrow => self.get_borrow_reward_bps(),
            _ => self.get_deposit_reward_bps(),
        };
        let raw = div_trunc_i128(saturating_mul_i128(fee_amount, bps as i128), 10_000);
        proof {
            assert(saturating_mul_i128_spec(fee_amount, bps as i128) >= 0) by (nonlinear_arith)
                requires
                    fee_amount > 0,
                    bps >= 0,
                    saturating_mul_i128_spec(fee_amount, bps as i128) == (if fee_amount * bps > i128::MAX {
                        i128::MAX as int
                    } else {
                        fee_amount * bps
                    }),
            ;
        }
        let credited: i128 = match assoc_get(&self.rewards_credited, token) {
            Some(c) => *c,
            None => 0,
        };
        let headroom: i128 = match assoc_get(&self.reward_caps, token) {
            Some(cap) => {
                if *cap > credited {
                    *cap - credited
                } else {
                    0
                }
            },
            None => 0,
        };
        let reward = if raw <= headroom {
            raw
        } else {
            headroom
        };
        if reward > 0 {
            let pending = self.get_pending_reward(referrer, token);
            self.set_pending(referrer, token, pending + reward);
            let ghost s_mid = *self;
            assoc_insert(&mut self.rewards_credited, token, credited + reward);
            proof {
                let b = *self;
                let a = s1;
                assert forall|x: AccountId| #[trigger] b.referrer_of(x) != Some(x) by {
                    assert(a.referrer_of(x) == b.referrer_of(x));
                }
                assert forall|x: AccountId, y: AccountId| #[trigger] b.referrer_of(x) == Some(y) implies #[trigger] b.referrer_of(
                    y,
                ) != Some(x) by {
                    assert(a.referrer_of(x) == b.referrer_of(x));
                    assert(a.referrer_of(y) == b.referrer_of(y));
                }
                assert forall|i: int| 0 <= i < b.top_referrers@.len() implies b.referral_count_of(
                    (#[trigger] b.top_referrers@[i]).referrer,
                ) == b.top_referrers@[i].referral_count by {
                    assert(a.top_referrers@[i] == b.top_referrers@[i]);
                    assert(a.referral_count_of(a.top_referrers@[i].referrer) == a.top_referrers@[i].referral_count);
                }
                assert forall|t: AccountId| #[trigger] b.credited_of(t) >= 0 by {
                    assert(a.credited_of(t) >= 0);
                }
                assert(credited == a.credited_of(token));
                assert(pending == a.pending_of(referrer, token));
                assert(b.credited_of(token) == credited + reward);
                assert forall|t: AccountId| t != token implies #[trigger] b.credited_of(t) == a.credited_of(t) by {}
                assert forall|rr: AccountId, t: AccountId| #[trigger] b.pending_of(rr, t) == s_mid.pending_of(rr, t) by {}
                assert forall|rr: AccountId, t: AccountId| 0 <= #[trigger] b.pending_of(rr, t) <= b.credited_of(t) by {
                    assert(0 <= a.pending_of(rr, t) <= a.credited_of(t));
                    assert(b.pending_of(rr, t) == s_mid.pending_of(rr, t));
                    if t != token {
                        assert(b.credited_of(t) == a.credited_of(t));
                    }
                }
                assert forall|x: AccountId| #[trigger] b.is_activated_spec(x) implies b.referrer_of(x) is Some by {
                    assert(a.is_activated_spec(x) == b.is_activated_spec(x));
                    assert(a.referrer_of(x) == b.referrer_of(x));
                }
            }
        }
        Ok(reward)
    }

    /// Pays out what is claimable of `referrer`'s unclaimed reward in
    /// `token`: all of it, or as much as this contract holds
    /// (`contract_balance`). The host then transfers the returned amount.
    pub fn claim_rewards(&mut self, referrer: AccountId, token: AccountId, contract_balance: i128) -> (r: Result<
        i128,
        ReferralError,
    >)
        requires
            old(self).wf(),
        ensures
            final(self).wf(),
            r == (if old(self).paused {
                Err(ReferralError::ContractPaused)
            } else {
                let pending = old(self).pending_of(referrer, token);
                if pending <= 0 {
                    Ok(0i128)
                } else if pending > contract_balance {
                    Ok(if contract_balance > 0 { contract_balance } else { 0i128 })
                } else {
                    Ok(pending)
                }
            }),
            r is Err ==> *final(self) == *old(self),
            r matches Ok(paid) ==> {
                &&& 0 <= paid <= old(self).pending_of(referrer, token)
                &&& *final(self) == (ReferralContract { pending_rewards: final(self).pending_rewards, ..*old(self) })
                &&& final(self).pending_of(referrer, token) == old(self).pending_of(referrer, token) - paid
                &&& forall|r2: AccountId, t2: AccountId|
                    !(r2 == referrer && t2 == token) ==> #[trigger] final(self).pending_of(r2, t2) == old(
                        self,
                    ).pending_of(r2, t2)
            },
    {
        if self.paused {
            return Err(ReferralError::ContractPaused);
        }
        let amount = self.get_pending_reward(referrer, token);
        if amount <= 0 {
            return Ok(0);
        }
        let actual = if amount > contract_balance {
            contract_balance
        } else {
            amount
        };
        if actual <= 0 {
            return Ok(0);
        }
        self.set_pending(referrer, token, amount - actual);
        proof {
            let b = *self;
            let a = *old(self);
            assert forall|x: AccountId| #[trigger] b.referrer_of(x) != Some(x) by {
                assert(a.referrer_of(x) == b.referrer_of(x));
            }
            assert forall|x: AccountId, y: AccountId| #[trigger] b.referrer_of(x) == Some(y) implies #[trigger] b.referrer_of(
                y,
            ) != Some(x) by {
                assert(a.referrer_of(x) == b.referrer_of(x));
                assert(a.referrer_of(y) == b.referrer_of(y));
            }
            assert forall|i: int| 0 <= i < b.top_referrers@.len() implies b.referral_count_of(
                (#[trigger] b.top_referrers@[i]).referrer,
            ) == b.top_referrers@[i].referral_count by {
                assert(a.top_referrers@[i] == b.top_referrers@[i]);
            }
            assert forall|t: AccountId| #[trigger] b.credited_of(t) >= 0 by {
                assert(a.credited_of(t) == b.credited_of(t));
            }
            assert forall|rr: AccountId, t: AccountId| 0 <= #[trigger] b.pending_of(rr, t) <= b.credited_of(t) by {
                assert(0 <= a.pending_of(rr, t) <= a.credited_of(t));
                assert(a.credited_of(t) == b.credited_of(t));
            }
            assert forall|x: AccountId| #[trigger] b.is_activated_spec(x) implies b.referrer_of(x) is Some by {
                assert(a.is_activated_spec(x) == b.is_activated_spec(x));
                assert(a.referrer_of(x) == b.referrer_of(x));
            }
        }
        Ok(actual)
    }
}

/// Nobody is their own referrer, and no two accounts refer each other: the
/// registrations of every reachable state form no cycle of length one or
/// two.
pub proof fn law_no_self_or_mutual_referral(c: ReferralContract, x: AccountId, y: AccountId)
    requires
        c.wf(),
    ensures
        c.referrer_of(x) != Some(x),
        c.referrer_of(x) == Some(y) ==> c.referrer_of(y) != Some(x),
{
}

/// A referrer's unclaimed reward in a token is never negative and never
/// more than the reward credited in that token, so claims pay out only what
/// was credited.
pub proof fn law_unclaimed_within_credited(c: ReferralContract, referrer: AccountId, token: AccountId)
    requires
        c.wf(),
    ensures
        0 <= c.pending_of(referrer, token) <= c.credited_of(token),
{
}

/// The reward credited for a positive fee is non-negative, never more than
/// the token's remaining lifetime cap, and nothing for a token without a cap.
pub proof fn law_reward_within_cap(c: ReferralContract, kind: ActivityKind, fee_amount: i128, token: AccountId)
    requires
        fee_amount > 0,
    ensures
        0 <= c.credited_reward(kind, fee_amount, token) <= c.cap_headroom(token),
        !assoc_view(c.reward_caps@).contains_key(token) ==> c.credited_reward(kind, fee_amount, token) == 0,
{
    let bps = c.kind_bps(kind);
    assert(fee_amount * bps >= 0) by (nonlinear_arith)
        requires
            fee_amount > 0,
            bps >= 0,
    ;
}

/// An activated referee always has a referrer: activation needs a
/// registered referral.
pub proof fn law_activation_needs_referrer(c: ReferralContract, referee: AccountId)
    requires
        c.wf(),
    ensures
        c.is_activated_spec(referee) ==> c.referrer_of(referee) is Some,
{
}

/// A referral counts once: over any run of recorded activities of one
/// referee (fee or no fee), its referrer's count rises by one in total if
/// the referee was not yet activated, and not at all otherwise, and the
/// referee ends activated.
pub proof fn law_activation_counted_once(states: Seq<ReferralContract>, referee: AccountId)
    requires
        states.len() >= 2,
        states[0].referrer_of(referee) is Some,
        forall|i: int| 0 <= i < states.len() - 1 ==> activity_recorded(#[trigger] states[i], states[i + 1], referee),
    ensures
        ({
            let rf = states[0].referrer_of(referee)->Some_0;
            &&& states.last().referrer_of(referee) == Some(rf)
            &&& states.last().is_activated_spec(referee)
            &&& states.last().referral_count_of(rf) == states[0].referral_count_of(rf) + if states[0].is_activated_spec(
                referee,
            ) {
                0int
            } else {
                1int
            }
        }),
    decreases states.len(),
{
    let n = states.len() as int;
    assert(activity_recorded(states[0], states[1], referee));
    if n > 2 {
        let prefix = states.drop_last();
        assert forall|i: int| 0 <= i < prefix.len() - 1 implies activity_recorded(
            #[trigger] prefix[i],
            prefix[i + 1],
            referee,
        ) by {
            assert(prefix[i] == states[i] && prefix[i + 1] == states[i + 1]);
            assert(activity_recorded(states[i], states[i + 1], referee));
        }
        law_activation_counted_once(prefix, referee);
        assert(prefix.last() == states[n - 2]);
        assert(activity_recorded(states[n - 2], states[n - 1], referee));
    }
}

} // verus!
