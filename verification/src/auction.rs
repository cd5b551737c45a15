//! Invoice-funding auction clearing and the collateral-liquidation Dutch
//! auction, with its collateral-risk monitoring.
use vstd::prelude::*;
use crate::arith::{
    div_trunc_i128, saturating_add_u64, saturating_add_u64_spec, saturating_sub_i128,
    saturating_sub_i128_spec, saturating_sub_u64_spec, trunc_div,
};
use crate::assoc::{assoc_get, assoc_insert, assoc_remove, assoc_view, keys_distinct, lemma_assoc_empty, AccountId};
use crate::ranking::{lemma_ranking_exists, rank_order, ranking, ranks_before};

verus! {

/// Weight of one credit-score point in a bid's composite score.
pub const CREDIT_SCORE_MULTIPLIER: u32 = 10;
/// Basis-point denominator: 10_000 is 100%.
pub const BPS_DENOM: i128 = 10_000;
pub const DEFAULT_DANGER_BPS: u32 = 12_000;
pub const MAX_DANGER_BPS: u32 = 30_000;
pub const DEFAULT_GRACE_PERIOD_SECS: u64 = 259_200;
pub const MAX_GRACE_PERIOD_SECS: u64 = 2_592_000;

#[derive(Clone, Copy, Debug, PartialEq, Eq, Structural)]
pub enum AuctionStatus {
    Open,
    Clearing,
    Settled,
    Cancelled,
}

/// A funding round for invoice bids.
#[derive(Clone, Copy, Debug, PartialEq, Eq)]
pub struct FundingAuction {
    pub round_id: u64,
    pub token: AccountId,
    pub available_liquidity_snapshot: i128,
    pub opened_at: u64,
    pub bid_window_secs: u64,
    pub status: AuctionStatus,
    pub clearing_discount_bps: u32,
}

/// An SME's bid to have an invoice funded at up to `max_discount_bps`.
#[derive(Clone, Copy, Debug, PartialEq, Eq)]
pub struct InvoiceBid {
    pub invoice_id: u64,
    pub sme: AccountId,
    pub principal: i128,
    pub max_discount_bps: u32,
    pub min_priority_score: u32,
}

/// Liquidity granted to one invoice at the uniform clearing discount.
#[derive(Clone, Copy, Debug, PartialEq, Eq)]
pub struct Allocation {
    pub invoice_id: u64,
    pub allocated_amount: i128,
    pub clearing_discount_bps: u32,
}

#[derive(Clone, Copy, Debug, PartialEq, Eq, Structural)]
pub enum SaleStatus {
    Open,
    Settled,
    Expired,
    Cancelled,
}

/// A consigned asset whose price decays linearly from `start_price` to
/// `floor_price` over `duration_secs`.
#[derive(Clone, Copy, Debug, PartialEq, Eq)]
pub struct CollateralSale {
    pub sale_id: u64,
    pub seller: AccountId,
    pub token: AccountId,
    pub amount: i128,
    pub proceeds_token: AccountId,
    pub proceeds_recipient: AccountId,
    pub start_price: i128,
    pub floor_price: i128,
    pub opened_at: u64,
    pub duration_secs: u64,
    pub status: SaleStatus,
    pub taker: Option<AccountId>,
    pub settled_price: Option<i128>,
}

#[derive(Clone, Copy, Debug, PartialEq, Eq)]
pub struct CollateralSaleParams {
    pub seller: AccountId,
    pub token: AccountId,
    pub amount: i128,
    pub proceeds_token: AccountId,
    pub proceeds_recipient: AccountId,
    pub start_price: i128,
    pub floor_price: i128,
    pub duration_secs: u64,
}

/// A position is flagged at risk below `danger_bps` of coverage, and may be
/// liquidated once flagged for `grace_period_secs`.
#[derive(Clone, Copy, Debug, PartialEq, Eq)]
pub struct CollateralRiskConfig {
    pub danger_bps: u32,
    pub grace_period_secs: u64,
}

/// What the pool reports of a collateral deposit.
#[derive(Clone, Copy, Debug, PartialEq, Eq)]
pub struct CollateralDepositView {
    pub invoice_id: u64,
    pub depositor: AccountId,
    pub token: AccountId,
    pub amount: i128,
    pub settled: bool,
    pub posted_at: u64,
    pub released_at: u64,
    pub seized_at: u64,
    pub collateral_bps_at_deposit: u32,
    pub threshold_at_deposit: i128,
}

/// What the pool reports of a funded invoice.
#[derive(Clone, Copy, Debug, PartialEq, Eq)]
pub struct FundedInvoiceView {
    pub invoice_id: u64,
    pub sme: AccountId,
    pub token: AccountId,
    pub principal: i128,
    pub funded_at: u64,
    pub factoring_fee: i128,
    pub due_date: u64,
    pub repaid_amount: i128,
    pub co_funding_round_id: Option<u64>,
    pub locked_yield_bps: u32,
}

/// The pool's answers about one collateralised invoice: its deposit and
/// funded invoice (`None` where the pool has none), and the oracle prices of
/// the collateral and funding tokens (`None` where the price query failed).
#[derive(Clone, Copy, Debug, PartialEq, Eq)]
pub struct PoolQuotes {
    pub deposit: Option<CollateralDepositView>,
    pub funded: Option<FundedInvoiceView>,
    pub collateral_price: Option<i128>,
    pub funding_price: Option<i128>,
}

#[derive(Clone, Copy, Debug, PartialEq, Eq, PartialOrd, Ord, Structural)]
pub enum AuctionError {
    AlreadyInitialized,
    NotInitialized,
    Unauthorized,
    RoundNotFound,
    RoundNotOpen,
    RoundAlreadySettled,
    BidWindowExpired,
    InvoiceNotVerified,
    InvoiceAlreadyBid,
    DiscountTooHigh,
    NoBids,
    InsufficientLiquidity,
    AllocationOverflow,
    RoundNotClearing,
    PoolCallFailed,
    InvalidSaleParams,
    SaleNotFound,
    SaleNotOpen,
    SaleExpired,
    SaleNotExpired,
    DepositNotFound,
    InvoiceNotFound,
    CollateralAlreadySettled,
    OraclePriceUnavailable,
    NotAtRisk,
    GracePeriodNotElapsed,
    InvalidRiskConfig,
    AmountOverflow,
}

impl AuctionError {
    /// The contract error code of this error.
    pub fn code(&self) -> (r: u32)
        ensures
            r == auction_error_code(*self),
    {
        match self {
            AuctionError::AlreadyInitialized => 0,
            AuctionError::NotInitialized => 1,
            AuctionError::Unauthorized => 2,
            AuctionError::RoundNotFound => 3,
            AuctionError::RoundNotOpen => 4,
            AuctionError::RoundAlreadySettled => 5,
            AuctionError::BidWindowExpired => 6,
            AuctionError::InvoiceNotVerified => 7,
            AuctionError::InvoiceAlreadyBid => 8,
            AuctionError::DiscountTooHigh => 9,
            AuctionError::NoBids => 10,
            AuctionError::InsufficientLiquidity => 11,
            AuctionError::AllocationOverflow => 12,
            AuctionError::RoundNotClearing => 13,
            AuctionError::PoolCallFailed => 14,
            AuctionError::InvalidSaleParams => 15,
            AuctionError::SaleNotFound => 16,
            AuctionError::SaleNotOpen => 17,
            AuctionError::SaleExpired => 18,
            AuctionError::SaleNotExpired => 19,
            AuctionError::DepositNotFound => 20,
            AuctionError::InvoiceNotFound => 21,
            AuctionError::CollateralAlreadySettled => 22,
            AuctionError::OraclePriceUnavailable => 23,
            AuctionError::NotAtRisk => 24,
            AuctionError::GracePeriodNotElapsed => 25,
            AuctionError::InvalidRiskConfig => 26,
            AuctionError::AmountOverflow => 27,
        }
    }
}

/// The numbering of auction errors, in declaration order from 0.
pub open spec fn auction_error_code(e: AuctionError) -> u32 {
    match e {
        AuctionError::AlreadyInitialized => 0,
        AuctionError::NotInitialized => 1,
        AuctionError::Unauthorized => 2,
        AuctionError::RoundNotFound => 3,
        AuctionError::RoundNotOpen => 4,
        AuctionError::RoundAlreadySettled => 5,
        AuctionError::BidWindowExpired => 6,
        AuctionError::InvoiceNotVerified => 7,
        AuctionError::InvoiceAlreadyBid => 8,
        AuctionError::DiscountTooHigh => 9,
        AuctionError::NoBids => 10,
        AuctionError::InsufficientLiquidity => 11,
        AuctionError::AllocationOverflow => 12,
        AuctionError::RoundNotClearing => 13,
        AuctionError::PoolCallFailed => 14,
        AuctionError::InvalidSaleParams => 15,
        AuctionError::SaleNotFound => 16,
        AuctionError::SaleNotOpen => 17,
        AuctionError::SaleExpired => 18,
        AuctionError::SaleNotExpired => 19,
        AuctionError::DepositNotFound => 20,
        AuctionError::InvoiceNotFound => 21,
        AuctionError::CollateralAlreadySettled => 22,
        AuctionError::OraclePriceUnavailable => 23,
        AuctionError::NotAtRisk => 24,
        AuctionError::GracePeriodNotElapsed => 25,
        AuctionError::InvalidRiskConfig => 26,
        AuctionError::AmountOverflow => 27,
    }
}

// ── Clearing ─────────────────────────────────────────────────────────────────

/// A bid's priority: its discount, scaled up by the SME's credit score:
/// `max_discount_bps * (1 + credit_score * CREDIT_SCORE_MULTIPLIER / 10_000)`,
/// with the score term rounded down.
pub open spec fn composite_score_spec(max_discount_bps: u32, credit_score: u32) -> int {
    max_discount_bps + (credit_score * 10 * max_discount_bps) / 10_000
}

pub fn composite_score(max_discount_bps: u32, credit_score: u32) -> (r: u128)
    ensures
        r == composite_score_spec(max_discount_bps, credit_score),
{
    let discount_weight = max_discount_bps as u128;
    let multiplier = CREDIT_SCORE_MULTIPLIER as u128;
    assert(multiplier == 10);
    let scaled = (credit_score as u128) * multiplier;
    assert(scaled == credit_score * 10);
    assert(scaled * discount_weight <= 0x1_0000_0000u128 * 10 * 0x1_0000_0000u128) by (nonlinear_arith)
        requires
            scaled <= 0x1_0000_0000u128 * 10,
            discount_weight <= 0x1_0000_0000u128,
    ;
    let score_weight = scaled * discount_weight / 10_000;
    assert(score_weight <= 0x1_0000_0000u128 * 10 * 0x1_0000_0000u128);
    discount_weight + score_weight
}

/// A higher credit score never lowers a bid's composite score.
pub proof fn lemma_composite_score_monotone(d: u32, cs1: u32, cs2: u32)
    requires
        cs1 <= cs2,
    ensures
        composite_score_spec(d, cs1) <= composite_score_spec(d, cs2),
{
    assert(cs1 * 10 * d <= cs2 * 10 * d) by (nonlinear_arith)
        requires
            cs1 <= cs2,
    ;
    vstd::arithmetic::div_mod::lemma_div_is_ordered(cs1 * 10 * d, cs2 * 10 * d, 10_000);
}

/// The credit score of `sme`: its entry in `scores`, or 0.
pub open spec fn credit_score_of(scores: Seq<(AccountId, u32)>, sme: AccountId) -> u32 {
    if assoc_view(scores).contains_key(sme) {
        assoc_view(scores)[sme]
    } else {
        0
    }
}

/// The bids whose SME's credit score reaches the bid's own minimum
/// priority score, in the order given.
pub open spec fn eligible_bids(bids: Seq<InvoiceBid>, scores: Seq<(AccountId, u32)>) -> Seq<InvoiceBid>
    decreases bids.len(),
{
    if bids.len() == 0 {
        Seq::empty()
    } else {
        let rest = eligible_bids(bids.drop_last(), scores);
        let b = bids.last();
        if credit_score_of(scores, b.sme) >= b.min_priority_score {
            rest.push(b)
        } else {
            rest
        }
    }
}

/// The ranking key of each bid: composite score, then invoice id.
pub open spec fn bid_keys(e: Seq<InvoiceBid>, scores: Seq<(AccountId, u32)>) -> Seq<(u128, u64)> {
    Seq::new(
        e.len(),
        |i: int|
            (
                composite_score_spec(e[i].max_discount_bps, credit_score_of(scores, e[i].sme)) as u128,
                e[i].invoice_id,
            ),
    )
}

/// Eligible bids ranked by descending composite score, lower invoice id
/// first among equal scores, and input order among full ties.
pub open spec fn ranked_bids(bids: Seq<InvoiceBid>, scores: Seq<(AccountId, u32)>) -> Seq<InvoiceBid> {
    let e = eligible_bids(bids, scores);
    ranking(bid_keys(e, scores)).map_values(|i: usize| e[i as int])
}

/// Greedy allocation down the ranked list: each bid receives its principal,
/// or what liquidity is left, until no liquidity remains.
pub open spec fn allocate(ranked: Seq<InvoiceBid>, remaining: i128) -> Seq<(u64, i128)>
    decreases ranked.len(),
{
    if ranked.len() == 0 || remaining <= 0 {
        Seq::empty()
    } else {
        let b = ranked[0];
        let amount = if b.principal <= remaining {
            b.principal
        } else {
            remaining
        };
        seq![(b.invoice_id, amount)] + allocate(ranked.drop_first(), saturating_sub_i128_spec(remaining, amount))
    }
}

/// Allocations follow the ranked bids, one per funded bid, in order.
pub proof fn lemma_allocate_follows_ranking(ranked: Seq<InvoiceBid>, remaining: i128)
    ensures
        allocate(ranked, remaining).len() <= ranked.len(),
        forall|i: int|
            0 <= i < allocate(ranked, remaining).len() ==> (#[trigger] allocate(ranked, remaining)[i]).0
                == ranked[i].invoice_id,
    decreases ranked.len(),
{
    if ranked.len() > 0 && remaining > 0 {
        let b = ranked[0];
        let amount = if b.principal <= remaining {
            b.principal
        } else {
            remaining
        };
        lemma_allocate_follows_ranking(ranked.drop_first(), saturating_sub_i128_spec(remaining, amount));
    }
}

/// The sum of the allocated amounts.
pub open spec fn allocated_total(a: Seq<(u64, i128)>) -> int
    decreases a.len(),
{
    if a.len() == 0 {
        0
    } else {
        a[0].1 + allocated_total(a.drop_first())
    }
}

/// When no bid asks for a negative principal, the allocations never exceed
/// the available liquidity, and no bid gets more than its principal.
pub proof fn lemma_allocation_within_liquidity(ranked: Seq<InvoiceBid>, remaining: i128)
    requires
        forall|i: int| 0 <= i < ranked.len() ==> (#[trigger] ranked[i]).principal >= 0,
    ensures
        remaining > 0 ==> allocated_total(allocate(ranked, remaining)) <= remaining,
        remaining <= 0 ==> allocate(ranked, remaining).len() == 0,
        forall|i: int|
            0 <= i < allocate(ranked, remaining).len() ==> 0 <= (#[trigger] allocate(ranked, remaining)[i]).1
                <= ranked[i].principal,
    decreases ranked.len(),
{
    if ranked.len() > 0 && remaining > 0 {
        let b = ranked[0];
        let amount = if b.principal <= remaining {
            b.principal
        } else {
            remaining
        };
        let rest = ranked.drop_first();
        assert forall|i: int| 0 <= i < rest.len() implies (#[trigger] rest[i]).principal >= 0 by {
            assert(rest[i] == ranked[i + 1]);
        }
        let after = saturating_sub_i128_spec(remaining, amount);
        assert(after == remaining - amount);
        lemma_allocation_within_liquidity(rest, after);
        lemma_allocate_follows_ranking(rest, after);
        let a = allocate(ranked, remaining);
        let tail = allocate(rest, after);
        assert(a.drop_first() =~= tail);
        assert(allocated_total(a) == amount + allocated_total(tail));
        if after <= 0 {
            assert(tail.len() == 0);
        }
        assert forall|i: int| 0 <= i < a.len() implies 0 <= (#[trigger] a[i]).1 <= ranked[i].principal by {
            if i > 0 {
                assert(a[i] == tail[i - 1]);
                assert(rest[i - 1] == ranked[i]);
            }
        }
    }
}

/// The clearing outcome: the allocations of the ranked eligible bids, all
/// at the discount of the lowest-ranked funded bid.
pub open spec fn clearing_spec(
    bids: Seq<InvoiceBid>,
    available_liquidity: i128,
    scores: Seq<(AccountId, u32)>,
) -> Seq<Allocation> {
    let ranked = ranked_bids(bids, scores);
    let a = allocate(ranked, available_liquidity);
    Seq::new(
        a.len(),
        |i: int|
            Allocation {
                invoice_id: a[i].0,
                allocated_amount: a[i].1,
                clearing_discount_bps: ranked[a.len() - 1].max_discount_bps,
            },
    )
}

/// Filtering keeps at most the bids it is given.
proof fn lemma_eligible_bids_len(bids: Seq<InvoiceBid>, scores: Seq<(AccountId, u32)>)
    ensures
        eligible_bids(bids, scores).len() <= bids.len(),
    decreases bids.len(),
{
    if bids.len() > 0 {
        lemma_eligible_bids_len(bids.drop_last(), scores);
    }
}

/// A composite score is a non-negative `u128`.
proof fn lemma_composite_fits(d: u32, cs: u32)
    ensures
        0 <= composite_score_spec(d, cs) <= u128::MAX,
{
    assert(0 <= cs * 10 * d <= 0xFFFF_FFFFu64 * 10 * 0xFFFF_FFFFu64) by (nonlinear_arith)
        requires
            cs <= 0xFFFF_FFFFu32,
            d <= 0xFFFF_FFFFu32,
    ;
}

/// Without a credit score a composite score is the discount itself.
proof fn lemma_composite_no_score(d: u32)
    ensures
        composite_score_spec(d, 0) == d,
{
    let z: u32 = 0;
    assert(z * 10 * d == 0) by (nonlinear_arith)
        requires
            z == 0,
    ;
}

/// The clearing follows the ranking: allocations go to the ranked eligible
/// bids in order, all at the one clearing discount of the lowest-ranked
/// funded bid, and every funded bid ranks at least as high as that marginal
/// bid. Without credit scores the ranking is by discount alone, so no
/// funded bid pays more than the discount it offered.
pub proof fn law_clearing_follows_ranking(
    bids: Seq<InvoiceBid>,
    available_liquidity: i128,
    scores: Seq<(AccountId, u32)>,
)
    requires
        bids.len() <= usize::MAX,
    ensures
        ({
            let r = clearing_spec(bids, available_liquidity, scores);
            let ranked = ranked_bids(bids, scores);
            let last = r.len() - 1;
            &&& r.len() <= ranked.len()
            &&& forall|i: int|
                0 <= i < r.len() ==> (#[trigger] r[i]).invoice_id == ranked[i].invoice_id
                    && r[i].clearing_discount_bps == ranked[last].max_discount_bps
            &&& forall|i: int|
                0 <= i < r.len() ==> composite_score_spec(
                    (#[trigger] ranked[i]).max_discount_bps,
                    credit_score_of(scores, ranked[i].sme),
                ) >= composite_score_spec(
                    ranked[last].max_discount_bps,
                    credit_score_of(scores, ranked[last].sme),
                )
            &&& scores.len() == 0 ==> forall|i: int|
                0 <= i < r.len() ==> (#[trigger] r[i]).clearing_discount_bps <= ranked[i].max_discount_bps
        }),
{
    let e = eligible_bids(bids, scores);
    lemma_eligible_bids_len(bids, scores);
    let keys = bid_keys(e, scores);
    lemma_ranking_exists(keys);
    let order = ranking(keys);
    let ranked = ranked_bids(bids, scores);
    assert(ranked == order.map_values(|k: usize| e[k as int]));
    let a = allocate(ranked, available_liquidity);
    lemma_allocate_follows_ranking(ranked, available_liquidity);
    let r = clearing_spec(bids, available_liquidity, scores);
    assert(r.len() == a.len());
    let last = r.len() - 1;
    assert forall|i: int| 0 <= i < r.len() implies composite_score_spec(
        (#[trigger] ranked[i]).max_discount_bps,
        credit_score_of(scores, ranked[i].sme),
    ) >= composite_score_spec(
        ranked[last].max_discount_bps,
        credit_score_of(scores, ranked[last].sme),
    ) by {
        let oi = order[i];
        let ol = order[last];
        assert(ranked[i] == e[oi as int]);
        assert(ranked[last] == e[ol as int]);
        lemma_composite_fits(e[oi as int].max_discount_bps, credit_score_of(scores, e[oi as int].sme));
        lemma_composite_fits(e[ol as int].max_discount_bps, credit_score_of(scores, e[ol as int].sme));
        if i < last {
            assert(ranks_before(keys, order[i] as int, order[last] as int));
        }
    }
    if scores.len() == 0 {
        lemma_assoc_empty(scores);
        assert forall|i: int| 0 <= i < r.len() implies (#[trigger] r[i]).clearing_discount_bps
            <= ranked[i].max_discount_bps by {
            assert(credit_score_of(scores, ranked[i].sme) == 0);
            assert(credit_score_of(scores, ranked[last].sme) == 0);
            assert(composite_score_spec(ranked[i].max_discount_bps, credit_score_of(scores, ranked[i].sme))
                >= composite_score_spec(ranked[last].max_discount_bps, credit_score_of(scores, ranked[last].sme)));
            lemma_composite_no_score(ranked[i].max_discount_bps);
            lemma_composite_no_score(ranked[last].max_discount_bps);
            assert(r[i].clearing_discount_bps == ranked[last].max_discount_bps);
        }
    }
}

fn credit_score_lookup(scores: &Vec<(AccountId, u32)>, sme: AccountId) -> (r: u32)
    requires
        keys_distinct(scores@),
    ensures
        r == credit_score_of(scores@, sme),
{
    match assoc_get(scores, sme) {
        Some(s) => *s,
        None => 0,
    }
}

/// Clears `bids` against `available_liquidity` (see `clearing_spec`): bids
/// whose SME's credit score is under their minimum priority score are
/// dropped, the rest ranked by composite score and funded greedily, each at
/// the uniform discount of the lowest-ranked funded bid.
pub fn clear_auction(
    bids: Vec<InvoiceBid>,
    available_liquidity: i128,
    credit_scores: &Vec<(AccountId, u32)>,
) -> (r: Vec<Allocation>)
    requires
        keys_distinct(credit_scores@),
    ensures
        r@ == clearing_spec(bids@, available_liquidity, credit_scores@),
        available_liquidity <= 0 || bids@.len() == 0 ==> r@.len() == 0,
{
    let ghost scores = credit_scores@;
    let mut eligible: Vec<InvoiceBid> = Vec::new();
    let mut keys: Vec<(u128, u64)> = Vec::new();
    let mut i: usize = 0;
    while i < bids.len()
        invariant
            i <= bids.len(),
            scores == credit_scores@,
            keys_distinct(scores),
            eligible@ == eligible_bids(bids@.take(i as int), scores),
            keys@ == bid_keys(eligible@, scores),
        decreases bids.len() - i,
    {
        let bid = bids[i];
        let cs = credit_score_lookup(credit_scores, bid.sme);
        proof {
            assert(bids@.take(i + 1).drop_last() =~= bids@.take(i as int));
            assert(bids@.take(i + 1).last() == bid);
        }
        if cs >= bid.min_priority_score {
            let score = composite_score(bid.max_discount_bps, cs);
            eligible.push(bid);
            keys.push((score, bid.invoice_id));
            proof {
                assert(keys@ =~= bid_keys(eligible@, scores));
            }
        }
        i = i + 1;
    }
    proof {
        assert(bids@.take(bids@.len() as int) =~= bids@);
    }
    let order = rank_order(&keys);
    let ghost ranked = ranked_bids(bids@, scores);
    proof {
        assert(ranked =~= order@.map_values(|k: usize| eligible@[k as int]));
    }
    let mut result: Vec<Allocation> = Vec::new();
    let mut remaining = available_liquidity;
    let mut lowest_funded_discount: u32 = 0;
    let mut j: usize = 0;
    proof {
        assert(ranked.skip(0) =~= ranked);
        assert(result@.map_values(|x: Allocation| (x.invoice_id, x.allocated_amount)) =~= Seq::<(u64, i128)>::empty());
    }
    while j < order.len() && remaining > 0
        invariant
            j <= order.len(),
            order@.len() == eligible@.len(),
            ranked.len() == order@.len(),
            forall|k: int| 0 <= k < order@.len() ==> (#[trigger] order@[k]) < eligible@.len(),
            forall|k: int| 0 <= k < ranked.len() ==> #[trigger] ranked[k] == eligible@[order@[k] as int],
            result@.len() == j,
            j > 0 ==> lowest_funded_discount == ranked[j - 1].max_discount_bps,
            forall|k: int|
                0 <= k < j ==> (#[trigger] result@[k]).invoice_id == allocate(ranked, available_liquidity)[k].0
                    && result@[k].allocated_amount == allocate(ranked, available_liquidity)[k].1,
            allocate(ranked, available_liquidity) == result@.map_values(
                |x: Allocation| (x.invoice_id, x.allocated_amount),
            ) + allocate(ranked.skip(j as int), remaining),
        decreases order.len() - j,
    {
        let bid = eligible[order[j]];
        let allocated = if bid.principal <= remaining {
            bid.principal
        } else {
            remaining
        };
        let ghost old_result = result@;
        let ghost old_remaining = remaining;
        result.push(
            Allocation { invoice_id: bid.invoice_id, allocated_amount: allocated, clearing_discount_bps: 0 },
        );
        remaining = saturating_sub_i128(remaining, allocated);
        lowest_funded_discount = bid.max_discount_bps;
        proof {
            let s = ranked.skip(j as int);
            assert(s[0] == bid);
            assert(s.drop_first() =~= ranked.skip(j + 1));
            assert(allocate(s, old_remaining) == seq![(bid.invoice_id, allocated)] + allocate(
                ranked.skip(j + 1),
                remaining,
            ));
            assert(result@.map_values(|x: Allocation| (x.invoice_id, x.allocated_amount)) =~= old_result.map_values(
                |x: Allocation| (x.invoice_id, x.allocated_amount),
            ).push((bid.invoice_id, allocated)));
            assert(allocate(ranked, available_liquidity) =~= result@.map_values(
                |x: Allocation| (x.invoice_id, x.allocated_amount),
            ) + allocate(ranked.skip(j + 1), remaining));
            let a = allocate(ranked, available_liquidity);
            assert(a[j as int] == (bid.invoice_id, allocated));
        }
        j = j + 1;
    }
    let ghost a = allocate(ranked, available_liquidity);
    proof {
        if j < order.len() {
            assert(remaining <= 0);
            assert(allocate(ranked.skip(j as int), remaining) =~= Seq::<(u64, i128)>::empty());
        } else {
            assert(ranked.skip(j as int) =~= Seq::<InvoiceBid>::empty());
            assert(allocate(ranked.skip(j as int), remaining) =~= Seq::<(u64, i128)>::empty());
        }
        assert(a =~= result@.map_values(|x: Allocation| (x.invoice_id, x.allocated_amount)));
        assert(a.len() == j);
    }
    let mut final_result: Vec<Allocation> = Vec::new();
    let mut k: usize = 0;
    while k < result.len()
        invariant
            k <= result@.len(),
            result@.len() == j,
            a.len() == j,
            j > 0 ==> lowest_funded_discount == ranked[j - 1].max_discount_bps,
            final_result@.len() == k,
            forall|m: int|
                0 <= m < j ==> (#[trigger] result@[m]).invoice_id == a[m].0 && result@[m].allocated_amount
                    == a[m].1,
            forall|m: int|
                0 <= m < k ==> #[trigger] final_result@[m] == (Allocation {
                    invoice_id: a[m].0,
                    allocated_amount: a[m].1,
                    clearing_discount_bps: ranked[a.len() - 1].max_discount_bps,
                }),
        decreases result@.len() - k,
    {
        let alloc = result[k];
        final_result.push(
            Allocation {
                invoice_id: alloc.invoice_id,
                allocated_amount: alloc.allocated_amount,
                clearing_discount_bps: lowest_funded_discount,
            },
        );
        k = k + 1;
    }
    proof {
        assert(final_result@ =~= clearing_spec(bids@, available_liquidity, scores));
        if bids@.len() == 0 {
            assert(eligible_bids(bids@, scores).len() == 0);
        }
    }
    final_result
}


// ── Collateral sales ────────────────────────────────────────────────────────

/// The parameters describe a sellable consignment: a positive amount, a
/// positive start price, a floor in `[0, start_price]`, a positive duration.
pub open spec fn sale_params_valid(p: CollateralSaleParams) -> bool {
    &&& p.amount > 0
    &&& p.start_price > 0
    &&& p.floor_price >= 0
    &&& p.floor_price <= p.start_price
    &&& p.duration_secs > 0
}

/// What every stored sale satisfies: it was opened with valid parameters.
pub open spec fn sale_wf(s: CollateralSale) -> bool {
    &&& s.amount > 0
    &&& s.start_price > 0
    &&& s.floor_price >= 0
    &&& s.floor_price <= s.start_price
    &&& s.duration_secs > 0
}

/// Seconds of the sale's window that have passed at `now`, at most its
/// duration.
pub open spec fn elapsed_secs(sale: CollateralSale, now: u64) -> int {
    let e: int = if now >= sale.opened_at {
        now - sale.opened_at
    } else {
        0
    };
    if e < sale.duration_secs {
        e
    } else {
        sale.duration_secs as int
    }
}

/// The sale's price at `now`: `start_price` less the elapsed share of
/// `start_price - floor_price`, rounded down; `InvalidSaleParams` where the
/// product overflows `i128`.
pub open spec fn sale_price(sale: CollateralSale, now: u64) -> Result<i128, AuctionError> {
    let product = (sale.start_price - sale.floor_price) * elapsed_secs(sale, now);
    if product > i128::MAX {
        Err(AuctionError::InvalidSaleParams)
    } else {
        Ok((sale.start_price - product / (sale.duration_secs as int)) as i128)
    }
}

/// The last second at which the sale can still be taken.
pub open spec fn sale_deadline(sale: CollateralSale) -> u64 {
    saturating_add_u64_spec(sale.opened_at, sale.duration_secs)
}

/// A sale's price stays within `[floor_price, start_price]`.
pub proof fn lemma_sale_price_bounds(sale: CollateralSale, now: u64)
    requires
        sale_wf(sale),
    ensures
        sale_price(sale, now) matches Ok(p) ==> sale.floor_price <= p <= sale.start_price,
        now <= sale.opened_at ==> sale_price(sale, now) == Ok::<i128, AuctionError>(sale.start_price),
        now >= sale.opened_at + sale.duration_secs ==> sale_price(sale, now) is Ok ==> sale_price(sale, now)
            == Ok::<i128, AuctionError>(sale.floor_price),
{
    let spread = sale.start_price - sale.floor_price;
    let e = elapsed_secs(sale, now);
    let d = sale.duration_secs as int;
    assert(0 <= e <= d);
    assert(0 <= spread * e <= spread * d) by (nonlinear_arith)
        requires
            0 <= e <= d,
            spread >= 0,
    ;
    vstd::arithmetic::div_mod::lemma_div_is_ordered(spread * e, spread * d, d);
    vstd::arithmetic::div_mod::lemma_div_multiples_vanish(spread, d);
    assert((spread * d) / d == spread) by (nonlinear_arith)
        requires
            d > 0,
    ;
    assert((spread * e) / d >= 0) by (nonlinear_arith)
        requires
            spread * e >= 0,
            d > 0,
    ;
    if e == 0 {
        assert(spread * e == 0) by (nonlinear_arith)
            requires
                e == 0,
        ;
    }
}

/// The price never rises as time passes.
pub proof fn lemma_sale_price_non_increasing(sale: CollateralSale, t1: u64, t2: u64)
    requires
        sale_wf(sale),
        t1 <= t2,
        sale_price(sale, t2) is Ok,
    ensures
        sale_price(sale, t1) is Ok,
        sale_price(sale, t1)->Ok_0 >= sale_price(sale, t2)->Ok_0,
{
    let spread = sale.start_price - sale.floor_price;
    let e1 = elapsed_secs(sale, t1);
    let e2 = elapsed_secs(sale, t2);
    let d = sale.duration_secs as int;
    assert(0 <= e1 <= e2);
    assert(0 <= spread * e1 <= spread * e2) by (nonlinear_arith)
        requires
            0 <= e1 <= e2,
            spread >= 0,
    ;
    vstd::arithmetic::div_mod::lemma_div_is_ordered(spread * e1, spread * e2, d);
    lemma_sale_price_bounds(sale, t2);
    lemma_sale_price_bounds(sale, t1);
}

/// The price is the start price when the sale opens and reaches the floor
/// once the window has elapsed.
pub proof fn lemma_sale_price_endpoints(sale: CollateralSale)
    requires
        sale_wf(sale),
        sale.opened_at + sale.duration_secs <= u64::MAX,
        (sale.start_price - sale.floor_price) * sale.duration_secs <= i128::MAX,
    ensures
        sale_price(sale, sale.opened_at) == Ok::<i128, AuctionError>(sale.start_price),
        sale_price(sale, (sale.opened_at + sale.duration_secs) as u64) == Ok::<i128, AuctionError>(
            sale.floor_price,
        ),
{
    lemma_sale_price_bounds(sale, sale.opened_at);
    lemma_sale_price_bounds(sale, (sale.opened_at + sale.duration_secs) as u64);
}

fn price_at(sale: &CollateralSale, now: u64) -> (r: Result<i128, AuctionError>)
    requires
        sale_wf(*sale),
    ensures
        r == sale_price(*sale, now),
{
    let since = if now >= sale.opened_at {
        now - sale.opened_at
    } else {
        0
    };
    let elapsed = if since < sale.duration_secs {
        since
    } else {
        sale.duration_secs
    };
    let spread = sale.start_price - sale.floor_price;
    match spread.checked_mul(elapsed as i128) {
        Some(product) => {
            proof {
                assert(product >= 0) by (nonlinear_arith)
                    requires
                        product == spread * elapsed,
                        spread >= 0,
                        elapsed >= 0,
                ;
            }
            let decay = div_trunc_i128(product, sale.duration_secs as i128);
            proof {
                assert(decay <= product) by (nonlinear_arith)
                    requires
                        decay == (product as int) / (sale.duration_secs as int),
                        product >= 0,
                        sale.duration_secs > 0,
                ;
                lemma_sale_price_bounds(*sale, now);
            }
            Ok(sale.start_price - decay)
        },
        None => Err(AuctionError::InvalidSaleParams),
    }
}

/// The sales still open, in sale-id order.
pub open spec fn open_sales(s: Seq<CollateralSale>) -> Seq<CollateralSale>
    decreases s.len(),
{
    if s.len() == 0 {
        Seq::empty()
    } else {
        let rest = open_sales(s.drop_last());
        if s.last().status == SaleStatus::Open {
            rest.push(s.last())
        } else {
            rest
        }
    }
}

/// The contract's judgement of a collateral position once its grace period
/// has run: either it recovered (the flag is cleared and nothing is seized)
/// or the pool must seize the collateral before it is put up for sale.
#[derive(Clone, Copy, Debug, PartialEq, Eq, Structural)]
pub enum LiquidationStep {
    Recovered,
    Seize,
}

/// `Some(p)` is a usable oracle price when positive.
pub open spec fn quoted_price(q: Option<i128>) -> Result<i128, AuctionError> {
    match q {
        Some(p) => if p > 0 {
            Ok(p)
        } else {
            Err(AuctionError::OraclePriceUnavailable)
        },
        None => Err(AuctionError::OraclePriceUnavailable),
    }
}

/// A positive quoted price, or `OraclePriceUnavailable`.
pub fn fetch_price(q: Option<i128>) -> (r: Result<i128, AuctionError>)
    ensures
        r == quoted_price(q),
{
    match q {
        Some(p) => if p > 0 {
            Ok(p)
        } else {
            Err(AuctionError::OraclePriceUnavailable)
        },
        None => Err(AuctionError::OraclePriceUnavailable),
    }
}

/// The collateral a funded invoice requires, in funding-token units: none
/// below the deposit's threshold, else `collateral_bps_at_deposit` of the
/// principal, computed in unsigned 128-bit arithmetic.
pub open spec fn required_collateral(deposit: CollateralDepositView, funded: FundedInvoiceView) -> i128 {
    if funded.principal < deposit.threshold_at_deposit {
        0
    } else {
        (((funded.principal as u128) * (deposit.collateral_bps_at_deposit as u128)) / 10_000) as i128
    }
}

/// The live collateral ratio computations do not overflow.
pub open spec fn live_ratio_defined(q: PoolQuotes) -> bool {
    match (q.deposit, q.funded) {
        (Some(deposit), Some(funded)) => {
            &&& funded.principal >= deposit.threshold_at_deposit ==> (funded.principal as u128) * (
            deposit.collateral_bps_at_deposit as u128) <= u128::MAX
            &&& match (quoted_price(q.collateral_price), quoted_price(q.funding_price)) {
                (Ok(cp), Ok(fp)) => {
                    let cv = deposit.amount * cp;
                    let rv = required_collateral(deposit, funded) * fp;
                    i128::MIN <= cv <= i128::MAX && i128::MIN <= rv <= i128::MAX && rv > 0 ==> i128::MIN
                        <= cv * 10_000 <= i128::MAX
                },
                _ => true,
            }
        },
        _ => true,
    }
}

/// The oracle-priced ratio of collateral value to required value, in bps
/// (10_000 = fully covered).
pub open spec fn live_ratio(q: PoolQuotes) -> Result<u32, AuctionError> {
    match q.deposit {
        None => Err(AuctionError::DepositNotFound),
        Some(deposit) => if deposit.settled {
            Err(AuctionError::CollateralAlreadySettled)
        } else {
            match q.funded {
                None => Err(AuctionError::InvoiceNotFound),
                Some(funded) => {
                    let required = required_collateral(deposit, funded);
                    if required <= 0 {
                        Ok(10_000u32)
                    } else {
                        match quoted_price(q.collateral_price) {
                            Err(e) => Err(e),
                            Ok(cp) => match quoted_price(q.funding_price) {
                                Err(e) => Err(e),
                                Ok(fp) => {
                                    let cv = deposit.amount * cp;
                                    let rv = required * fp;
                                    if cv < i128::MIN || cv > i128::MAX {
                                        Err(AuctionError::AmountOverflow)
                                    } else if rv < i128::MIN || rv > i128::MAX {
                                        Err(AuctionError::AmountOverflow)
                                    } else if rv <= 0 {
                                        Ok(10_000u32)
                                    } else {
                                        Ok((trunc_div(cv * 10_000, rv) as i128) as u32)
                                    }
                                },
                            },
                        }
                    }
                },
            }
        },
    }
}

/// The live ratio sets the collateral's value at the collateral token's
/// price against the required collateral's value at the funding token's
/// price: `amount * collateral_price * 10_000 / (required * funding_price)`,
/// rounded toward zero, where the required collateral is
/// `collateral_bps_at_deposit` of the principal. So, all else equal and in
/// range, a doubled funding price halves the ratio (up to rounding).
pub proof fn law_live_ratio_prices_both_tokens(
    q: PoolQuotes,
    deposit: CollateralDepositView,
    funded: FundedInvoiceView,
    collateral_price: i128,
    funding_price: i128,
)
    requires
        q.deposit == Some(deposit),
        !deposit.settled,
        q.funded == Some(funded),
        q.collateral_price == Some(collateral_price),
        q.funding_price == Some(funding_price),
        collateral_price > 0,
        funding_price > 0,
        0 <= deposit.threshold_at_deposit <= funded.principal,
        funded.principal * deposit.collateral_bps_at_deposit <= u128::MAX,
        (funded.principal * deposit.collateral_bps_at_deposit) / 10_000 > 0,
        (funded.principal * deposit.collateral_bps_at_deposit) / 10_000 * funding_price <= i128::MAX,
        i128::MIN <= deposit.amount * collateral_price * 10_000 <= i128::MAX,
    ensures
        live_ratio(q) == Ok::<u32, AuctionError>(
            (trunc_div(
                deposit.amount * collateral_price * 10_000,
                (funded.principal * deposit.collateral_bps_at_deposit) / 10_000 * funding_price,
            ) as i128) as u32,
        ),
{
    let p = funded.principal as int;
    let b = deposit.collateral_bps_at_deposit as int;
    let required = required_collateral(deposit, funded);
    assert((funded.principal as u128) * (deposit.collateral_bps_at_deposit as u128) == p * b);
    assert(required == (p * b) / 10_000);
    let cv = deposit.amount * collateral_price;
    assert(cv * 10_000 == deposit.amount * collateral_price * 10_000);
    assert(i128::MIN <= cv <= i128::MAX) by (nonlinear_arith)
        requires
            i128::MIN <= cv * 10_000 <= i128::MAX,
    ;
    assert(required * funding_price > 0) by (nonlinear_arith)
        requires
            required > 0,
            funding_price > 0,
    ;
}

/// Computes the live collateral ratio from the pool's answers (see
/// `live_ratio`).
pub fn compute_live_ratio(q: &PoolQuotes) -> (r: Result<u32, AuctionError>)
    requires
        live_ratio_defined(*q),
    ensures
        r == live_ratio(*q),
{
    let deposit = match q.deposit {
        Some(d) => d,
        None => return Err(AuctionError::DepositNotFound),
    };
    if deposit.settled {
        return Err(AuctionError::CollateralAlreadySettled);
    }
    let funded = match q.funded {
        Some(f) => f,
        None => return Err(AuctionError::InvoiceNotFound),
    };
    let required: i128 = if funded.principal < deposit.threshold_at_deposit {
        0
    } else {
        let product = (funded.principal as u128) * (deposit.collateral_bps_at_deposit as u128);
        (product / 10_000) as i128
    };
    if required <= 0 {
        return Ok(10_000);
    }
    let collateral_price = fetch_price(q.collateral_price)?;
    let funding_price = fetch_price(q.funding_price)?;
    let collateral_value = match deposit.amount.checked_mul(collateral_price) {
        Some(v) => v,
        None => return Err(AuctionError::AmountOverflow),
    };
    let required_value = match required.checked_mul(funding_price) {
        Some(v) => v,
        None => return Err(AuctionError::AmountOverflow),
    };
    if required_value <= 0 {
        return Ok(10_000);
    }
    let ratio = div_trunc_i128(collateral_value * 10_000, required_value);
    Ok(ratio as u32)
}

/// The auction contract's storage.
pub struct AuctionContract {
    /// This contract's own address.
    pub address: AccountId,
    pub initialized: bool,
    pub admin: Option<AccountId>,
    pub pool: Option<AccountId>,
    /// Collateral sales; the sale with id `k` is at position `k - 1`.
    pub sales: Vec<CollateralSale>,
    pub risk_config: Option<CollateralRiskConfig>,
    /// Invoice id -> ledger time the position was first flagged at risk.
    pub at_risk_since: Vec<(u64, u64)>,
}

impl AuctionContract {
    /// Every stored sale is well formed and numbered by its position.
    pub open spec fn wf(&self) -> bool {
        &&& forall|i: int|
            0 <= i < self.sales@.len() ==> sale_wf(#[trigger] self.sales@[i]) && self.sales@[i].sale_id == i
                + 1
        &&& keys_distinct(self.at_risk_since@)
        &&& self.sales@.len() < u64::MAX
    }

    /// The sale with id `sale_id`, if one was opened.
    pub open spec fn sale(&self, sale_id: u64) -> Option<CollateralSale> {
        if 1 <= sale_id <= self.sales@.len() {
            Some(self.sales@[sale_id - 1])
        } else {
            None
        }
    }

    /// The risk configuration in force: the stored one, or the defaults.
    pub open spec fn risk_config_spec(&self) -> CollateralRiskConfig {
        match self.risk_config {
            Some(c) => c,
            None => CollateralRiskConfig {
                danger_bps: DEFAULT_DANGER_BPS,
                grace_period_secs: DEFAULT_GRACE_PERIOD_SECS,
            },
        }
    }

    /// An auction contract deployed at `address`, with empty storage.
    pub fn new(address: AccountId) -> (r: Self)
        ensures
            r.wf(),
            r.address == address,
            !r.initialized,
            r.admin is None,
            r.pool is None,
            r.sales@.len() == 0,
            r.risk_config is None,
            r.at_risk_since@.len() == 0,
    {
        AuctionContract {
            address,
            initialized: false,
            admin: None,
            pool: None,
            sales: Vec::new(),
            risk_config: None,
            at_risk_since: Vec::new(),
        }
    }

    pub fn version(&self) -> (r: u32)
        ensures
            r == 1,
    {
        1
    }

    /// The clearing algorithm, for off-chain simulation.
    pub fn simulate_clearing(
        &self,
        bids: Vec<InvoiceBid>,
        available_liquidity: i128,
        credit_scores: &Vec<(AccountId, u32)>,
    ) -> (r: Vec<Allocation>)
        requires
            keys_distinct(credit_scores@),
        ensures
            r@ == clearing_spec(bids@, available_liquidity, credit_scores@),
    {
        clear_auction(bids, available_liquidity, credit_scores)
    }

    /// Consigns `params.amount` of `params.token` for sale at `now`. On
    /// success the host moves that amount from the seller to this contract.
    pub fn open_collateral_sale(&mut self, params: CollateralSaleParams, now: u64) -> (r: Result<
        u64,
        AuctionError,
    >)
        requires
            old(self).wf(),
            old(self).sales@.len() + 2 <= u64::MAX,
        ensures
            final(self).wf(),
            r is Ok <==> sale_params_valid(params),
            r is Err ==> r == Err::<u64, AuctionError>(AuctionError::InvalidSaleParams) && *final(self)
                == *old(self),
            r matches Ok(id) ==> {
                &&& id == old(self).sales@.len() + 1
                &&& final(self).sales@ == old(self).sales@.push(
                    CollateralSale {
                        sale_id: id,
                        seller: params.seller,
                        token: params.token,
                        amount: params.amount,
                        proceeds_token: params.proceeds_token,
                        proceeds_recipient: params.proceeds_recipient,
                        start_price: params.start_price,
                        floor_price: params.floor_price,
                        opened_at: now,
                        duration_secs: params.duration_secs,
                        status: SaleStatus::Open,
                        taker: None,
                        settled_price: None,
                    },
                )
                &&& final(self).address == old(self).address
                &&& final(self).initialized == old(self).initialized
                &&& final(self).admin == old(self).admin
                &&& final(self).pool == old(self).pool
                &&& final(self).risk_config == old(self).risk_config
                &&& final(self).at_risk_since == old(self).at_risk_since
            },
    {
        if params.amount <= 0 || params.start_price <= 0 || params.floor_price < 0 || params.floor_price
            > params.start_price || params.duration_secs == 0 {
            return Err(AuctionError::InvalidSaleParams);
        }
        let sale_id = (self.sales.len() as u64) + 1;
        let sale = CollateralSale {
            sale_id,
            seller: params.seller,
            token: params.token,
            amount: params.amount,
            proceeds_token: params.proceeds_token,
            proceeds_recipient: params.proceeds_recipient,
            start_price: params.start_price,
            floor_price: params.floor_price,
            opened_at: now,
            duration_secs: params.duration_secs,
            status: SaleStatus::Open,
            taker: None,
            settled_price: None,
        };
        self.sales.push(sale);
        Ok(sale_id)
    }

    pub fn get_sale(&self, sale_id: u64) -> (r: Option<CollateralSale>)
        requires
            self.wf(),
        ensures
            r == self.sale(sale_id),
    {
        if sale_id >= 1 && sale_id <= self.sales.len() as u64 {
            Some(self.sales[(sale_id - 1) as usize])
        } else {
            None
        }
    }

    /// Every sale still open, in id order.
    pub fn list_open_sales(&self) -> (r: Vec<CollateralSale>)
        ensures
            r@ == open_sales(self.sales@),
    {
        let mut result: Vec<CollateralSale> = Vec::new();
        let mut i: usize = 0;
        while i < self.sales.len()
            invariant
                i <= self.sales@.len(),
                result@ == open_sales(self.sales@.take(i as int)),
            decreases self.sales@.len() - i,
        {
            let sale = self.sales[i];
            proof {
                assert(self.sales@.take(i + 1).drop_last() =~= self.sales@.take(i as int));
            }
            if sale.status == SaleStatus::Open {
                result.push(sale);
            }
            i = i + 1;
        }
        proof {
            assert(self.sales@.take(self.sales@.len() as int) =~= self.sales@);
        }
        result
    }

    /// The sale's price at `now` (see `sale_price`).
    pub fn current_sale_price(&self, sale_id: u64, now: u64) -> (r: Result<i128, AuctionError>)
        requires
            self.wf(),
        ensures
            r == match self.sale(sale_id) {
                None => Err(AuctionError::SaleNotFound),
                Some(sale) => sale_price(sale, now),
            },
    {
        match self.get_sale(sale_id) {
            None => Err(AuctionError::SaleNotFound),
            Some(sale) => price_at(&sale, now),
        }
    }

    /// `taker` buys an open, unexpired sale at its price at `now`, which is
    /// returned. The host then moves that price in the proceeds token from
    /// the taker to the proceeds recipient, and the consigned amount from
    /// this contract to the taker.
    pub fn take_collateral_sale(&mut self, taker: AccountId, sale_id: u64, now: u64) -> (r: Result<
        i128,
        AuctionError,
    >)
        requires
            old(self).wf(),
        ensures
            final(self).wf(),
            r == match old(self).sale(sale_id) {
                None => Err(AuctionError::SaleNotFound),
                Some(sale) => if sale.status != SaleStatus::Open {
                    Err(AuctionError::SaleNotOpen)
                } else if now > sale_deadline(sale) {
                    Err(AuctionError::SaleExpired)
                } else {
                    sale_price(sale, now)
                },
            },
            r is Err ==> *final(self) == *old(self),
            r matches Ok(price) ==> {
                let sale = old(self).sale(sale_id)->Some_0;
                &&& final(self).sales@ == old(self).sales@.update(
                    sale_id - 1,
                    CollateralSale {
                        status: SaleStatus::Settled,
                        taker: Some(taker),
                        settled_price: Some(price),
                        ..sale
                    },
                )
                &&& final(self).address == old(self).address
                &&& final(self).initialized == old(self).initialized
                &&& final(self).admin == old(self).admin
                &&& final(self).pool == old(self).pool
                &&& final(self).risk_config == old(self).risk_config
                &&& final(self).at_risk_since == old(self).at_risk_since
            },
    {
        let found = self.get_sale(sale_id);
        let mut sale = match found {
            Some(s) => s,
            None => return Err(AuctionError::SaleNotFound),
        };
        let count = self.sales.len();
        assert(1 <= sale_id <= count);
        if sale.status != SaleStatus::Open {
            return Err(AuctionError::SaleNotOpen);
        }
        if now > saturating_add_u64(sale.opened_at, sale.duration_secs) {
            return Err(AuctionError::SaleExpired);
        }
        let price = price_at(&sale, now)?;
        sale.status = SaleStatus::Settled;
        sale.taker = Some(taker);
        sale.settled_price = Some(price);
        let idx = (sale_id - 1) as usize;
        assert(idx as int == sale_id - 1 && idx < self.sales@.len());
        self.sales.set(idx, sale);
        proof {
            assert forall|i: int| 0 <= i < self.sales@.len() implies sale_wf(#[trigger] self.sales@[i])
                && self.sales@[i].sale_id == i + 1 by {
                if i != sale_id - 1 {
                    assert(self.sales@[i] == old(self).sales@[i]);
                }
            }
        }
        Ok(price)
    }

    /// Once a sale's window has passed untaken, marks it expired; the host
    /// then returns the consigned amount to the seller.
    pub fn reclaim_expired_sale(&mut self, caller: AccountId, sale_id: u64, now: u64) -> (r: Result<
        (),
        AuctionError,
    >)
        requires
            old(self).wf(),
        ensures
            final(self).wf(),
            r == match old(self).sale(sale_id) {
                None => Err(AuctionError::SaleNotFound),
                Some(sale) => if sale.status != SaleStatus::Open {
                    Err(AuctionError::SaleNotOpen)
                } else if now <= sale_deadline(sale) {
                    Err(AuctionError::SaleNotExpired)
                } else {
                    Ok(())
                },
            },
            r is Err ==> *final(self) == *old(self),
            r is Ok ==> {
                let sale = old(self).sale(sale_id)->Some_0;
                &&& final(self).sales@ == old(self).sales@.update(
                    sale_id - 1,
                    CollateralSale { status: SaleStatus::Expired, ..sale },
                )
                &&& final(self).address == old(self).address
                &&& final(self).initialized == old(self).initialized
                &&& final(self).admin == old(self).admin
                &&& final(self).pool == old(self).pool
                &&& final(self).risk_config == old(self).risk_config
                &&& final(self).at_risk_since == old(self).at_risk_since
            },
    {
        let found = self.get_sale(sale_id);
        let mut sale = match found {
            Some(s) => s,
            None => return Err(AuctionError::SaleNotFound),
        };
        let count = self.sales.len();
        assert(1 <= sale_id <= count);
        if sale.status != SaleStatus::Open {
            return Err(AuctionError::SaleNotOpen);
        }
        if now <= saturating_add_u64(sale.opened_at, sale.duration_secs) {
            return Err(AuctionError::SaleNotExpired);
        }
        sale.status = SaleStatus::Expired;
        let idx = (sale_id - 1) as usize;
        assert(idx as int == sale_id - 1 && idx < self.sales@.len());
        self.sales.set(idx, sale);
        proof {
            assert forall|i: int| 0 <= i < self.sales@.len() implies sale_wf(#[trigger] self.sales@[i])
                && self.sales@[i].sale_id == i + 1 by {
                if i != sale_id - 1 {
                    assert(self.sales@[i] == old(self).sales@[i]);
                }
            }
        }
        Ok(())
    }

    /// The seller withdraws an open sale early; the host then returns the
    /// consigned amount to the seller.
    pub fn cancel_collateral_sale(&mut self, seller: AccountId, sale_id: u64) -> (r: Result<
        (),
        AuctionError,
    >)
        requires
            old(self).wf(),
        ensures
            final(self).wf(),
            r == match old(self).sale(sale_id) {
                None => Err(AuctionError::SaleNotFound),
                Some(sale) => if sale.status != SaleStatus::Open {
                    Err(AuctionError::SaleNotOpen)
                } else if sale.seller != seller {
                    Err(AuctionError::Unauthorized)
                } else {
                    Ok(())
                },
            },
            r is Err ==> *final(self) == *old(self),
            r is Ok ==> {
                let sale = old(self).sale(sale_id)->Some_0;
                &&& final(self).sales@ == old(self).sales@.update(
                    sale_id - 1,
                    CollateralSale { status: SaleStatus::Cancelled, ..sale },
                )
                &&& final(self).address == old(self).address
                &&& final(self).initialized == old(self).initialized
                &&& final(self).admin == old(self).admin
                &&& final(self).pool == old(self).pool
                &&& final(self).risk_config == old(self).risk_config
                &&& final(self).at_risk_since == old(self).at_risk_since
            },
    {
        let found = self.get_sale(sale_id);
        let mut sale = match found {
            Some(s) => s,
            None => return Err(AuctionError::SaleNotFound),
        };
        let count = self.sales.len();
        assert(1 <= sale_id <= count);
        if sale.status != SaleStatus::Open {
            return Err(AuctionError::SaleNotOpen);
        }
        if sale.seller != seller {
            return Err(AuctionError::Unauthorized);
        }
        sale.status = SaleStatus::Cancelled;
        let idx = (sale_id - 1) as usize;
        assert(idx as int == sale_id - 1 && idx < self.sales@.len());
        self.sales.set(idx, sale);
        proof {
            assert forall|i: int| 0 <= i < self.sales@.len() implies sale_wf(#[trigger] self.sales@[i])
                && self.sales@[i].sale_id == i + 1 by {
                if i != sale_id - 1 {
                    assert(self.sales@[i] == old(self).sales@[i]);
                }
            }
        }
        Ok(())
    }

    /// One-time setup of the admin and the pool this contract monitors.
    pub fn initialize(&mut self, admin: AccountId, pool: AccountId) -> (r: Result<(), AuctionError>)
        requires
            old(self).wf(),
        ensures
            final(self).wf(),
            r is Err <==> old(self).initialized,
            r is Err ==> r == Err::<(), AuctionError>(AuctionError::AlreadyInitialized) && *final(self)
                == *old(self),
            r is Ok ==> *final(self) == (AuctionContract {
                initialized: true,
                admin: Some(admin),
                pool: Some(pool),
                ..*old(self)
            }),
    {
        if self.initialized {
            return Err(AuctionError::AlreadyInitialized);
        }
        self.admin = Some(admin);
        self.pool = Some(pool);
        self.initialized = true;
        Ok(())
    }

    /// The pool this contract monitors, or `NotInitialized`.
    fn require_pool(&self) -> (r: Result<AccountId, AuctionError>)
        ensures
            r == match self.pool {
                Some(p) => Ok::<AccountId, AuctionError>(p),
                None => Err(AuctionError::NotInitialized),
            },
    {
        match self.pool {
            Some(p) => Ok(p),
            None => Err(AuctionError::NotInitialized),
        }
    }

    pub fn get_pool_contract(&self) -> (r: Option<AccountId>)
        ensures
            r == self.pool,
    {
        self.pool
    }

    /// The admin sets the danger ratio (above 100%, at most 300%) and the
    /// grace period (positive, at most 30 days).
    pub fn set_collateral_risk_config(&mut self, admin: AccountId, danger_bps: u32, grace_period_secs: u64) -> (r:
        Result<(), AuctionError>)
        requires
            old(self).wf(),
        ensures
            final(self).wf(),
            r == match old(self).admin {
                None => Err(AuctionError::NotInitialized),
                Some(a) => if a != admin {
                    Err(AuctionError::Unauthorized)
                } else if danger_bps <= 10_000 || danger_bps > MAX_DANGER_BPS || grace_period_secs == 0
                    || grace_period_secs > MAX_GRACE_PERIOD_SECS {
                    Err(AuctionError::InvalidRiskConfig)
                } else {
                    Ok(())
                },
            },
            r is Err ==> *final(self) == *old(self),
            r is Ok ==> *final(self) == (AuctionContract {
                risk_config: Some(CollateralRiskConfig { danger_bps, grace_period_secs }),
                ..*old(self)
            }),
    {
        let stored_admin = match self.admin {
            Some(a) => a,
            None => return Err(AuctionError::NotInitialized),
        };
        if admin != stored_admin {
            return Err(AuctionError::Unauthorized);
        }
        if danger_bps <= 10_000 || danger_bps > MAX_DANGER_BPS || grace_period_secs == 0
            || grace_period_secs > MAX_GRACE_PERIOD_SECS {
            return Err(AuctionError::InvalidRiskConfig);
        }
        self.risk_config = Some(CollateralRiskConfig { danger_bps, grace_period_secs });
        Ok(())
    }

    pub fn get_collateral_risk_config(&self) -> (r: CollateralRiskConfig)
        ensures
            r == self.risk_config_spec(),
    {
        match self.risk_config {
            Some(c) => c,
            None => CollateralRiskConfig {
                danger_bps: DEFAULT_DANGER_BPS,
                grace_period_secs: DEFAULT_GRACE_PERIOD_SECS,
            },
        }
    }

    /// The live collateral ratio of a position, from the pool's answers.
    pub fn get_live_collateral_ratio(&self, quotes: &PoolQuotes) -> (r: Result<u32, AuctionError>)
        requires
            live_ratio_defined(*quotes),
        ensures
            r == match self.pool {
                None => Err(AuctionError::NotInitialized),
                Some(_) => live_ratio(*quotes),
            },
    {
        self.require_pool()?;
        compute_live_ratio(quotes)
    }

    /// When the position was first flagged at risk, if it still is.
    pub fn get_at_risk_since(&self, invoice_id: u64) -> (r: Option<u64>)
        requires
            self.wf(),
        ensures
            r == (if assoc_view(self.at_risk_since@).contains_key(invoice_id) {
                Some(assoc_view(self.at_risk_since@)[invoice_id])
            } else {
                None::<u64>
            }),
    {
        match assoc_get(&self.at_risk_since, invoice_id) {
            Some(t) => Some(*t),
            None => None,
        }
    }

    /// Recomputes a position's ratio and flags it at risk (from `now`, if
    /// not already flagged) when under the danger ratio, or clears the flag
    /// when not. Returns whether it is at risk.
    pub fn check_collateral_risk(&mut self, caller: AccountId, invoice_id: u64, now: u64, quotes: &PoolQuotes) -> (r:
        Result<bool, AuctionError>)
        requires
            old(self).wf(),
            live_ratio_defined(*quotes),
        ensures
            final(self).wf(),
            r == match old(self).pool {
                None => Err(AuctionError::NotInitialized),
                Some(_) => match live_ratio(*quotes) {
                    Err(e) => Err(e),
                    Ok(ratio) => Ok(ratio < old(self).risk_config_spec().danger_bps),
                },
            },
            r is Err ==> *final(self) == *old(self),
            r matches Ok(at_risk) ==> {
                &&& at_risk && assoc_view(old(self).at_risk_since@).contains_key(invoice_id) ==> *final(self)
                    == *old(self)
                &&& at_risk && !assoc_view(old(self).at_risk_since@).contains_key(invoice_id) ==> assoc_view(
                    final(self).at_risk_since@,
                ) == assoc_view(old(self).at_risk_since@).insert(invoice_id, now)
                &&& !at_risk ==> assoc_view(final(self).at_risk_since@) == assoc_view(
                    old(self).at_risk_since@,
                ).remove(invoice_id)
                &&& final(self).sales == old(self).sales
                &&& final(self).address == old(self).address
                &&& final(self).initialized == old(self).initialized
                &&& final(self).admin == old(self).admin
                &&& final(self).pool == old(self).pool
                &&& final(self).risk_config == old(self).risk_config
            },
    {
        self.require_pool()?;
        let ratio_bps = compute_live_ratio(quotes)?;
        let cfg = self.get_collateral_risk_config();
        let at_risk = ratio_bps < cfg.danger_bps;
        if at_risk {
            if assoc_get(&self.at_risk_since, invoice_id).is_none() {
                assoc_insert(&mut self.at_risk_since, invoice_id, now);
            }
        } else {
            assoc_remove(&mut self.at_risk_since, invoice_id);
        }
        Ok(at_risk)
    }

    /// Permissionless liquidation check for a position flagged at risk for
    /// at least the grace period: if it has recovered the flag is cleared
    /// (`Recovered`); otherwise (`Seize`) the host has the pool seize the
    /// collateral and then calls `complete_liquidation`.
    pub fn liquidate_collateral(&mut self, caller: AccountId, invoice_id: u64, now: u64, quotes: &PoolQuotes) -> (r:
        Result<LiquidationStep, AuctionError>)
        requires
            old(self).wf(),
            live_ratio_defined(*quotes),
        ensures
            final(self).wf(),
            r == match old(self).pool {
                None => Err(AuctionError::NotInitialized),
                Some(_) => match live_ratio(*quotes) {
                    Err(e) => Err(e),
                    Ok(ratio) => if !assoc_view(old(self).at_risk_since@).contains_key(invoice_id) {
                        Err(AuctionError::NotAtRisk)
                    } else if saturating_sub_u64_spec(now, assoc_view(old(self).at_risk_since@)[invoice_id])
                        < old(self).risk_config_spec().grace_period_secs {
                        Err(AuctionError::GracePeriodNotElapsed)
                    } else if ratio >= old(self).risk_config_spec().danger_bps {
                        Ok(LiquidationStep::Recovered)
                    } else {
                        Ok(LiquidationStep::Seize)
                    },
                },
            },
            r matches Ok(LiquidationStep::Recovered) ==> *final(self) == (AuctionContract {
                at_risk_since: final(self).at_risk_since,
                ..*old(self)
            }) && assoc_view(final(self).at_risk_since@) == assoc_view(old(self).at_risk_since@).remove(
                invoice_id,
            ),
            !(r matches Ok(LiquidationStep::Recovered)) ==> *final(self) == *old(self),
    {
        self.require_pool()?;
        let ratio_bps = compute_live_ratio(quotes)?;
        let at_risk_since = match assoc_get(&self.at_risk_since, invoice_id) {
            Some(t) => *t,
            None => return Err(AuctionError::NotAtRisk),
        };
        let cfg = self.get_collateral_risk_config();
        let waited = if now >= at_risk_since {
            now - at_risk_since
        } else {
            0
        };
        if waited < cfg.grace_period_secs {
            return Err(AuctionError::GracePeriodNotElapsed);
        }
        if ratio_bps >= cfg.danger_bps {
            assoc_remove(&mut self.at_risk_since, invoice_id);
            return Ok(LiquidationStep::Recovered);
        }
        Ok(LiquidationStep::Seize)
    }

    /// After the pool's seizure call (`seized` is whether it succeeded),
    /// routes the seized collateral into a Dutch sale with this contract as
    /// seller and the pool as proceeds recipient: start price the collateral
    /// valued in the funding token, floor half of it, duration the grace
    /// period. Clears the flag and returns the sale id.
    pub fn complete_liquidation(
        &mut self,
        invoice_id: u64,
        now: u64,
        seized: bool,
        deposit: &CollateralDepositView,
        funded: &FundedInvoiceView,
        collateral_price: Option<i128>,
        funding_price: Option<i128>,
    ) -> (r: Result<u64, AuctionError>)
        requires
            old(self).wf(),
            old(self).pool is Some,
            old(self).sales@.len() + 2 <= u64::MAX,
        ensures
            final(self).wf(),
            r is Err ==> *final(self) == *old(self),
            r == liquidation_sale_outcome(*old(self), seized, *deposit, *funded, collateral_price, funding_price),
            r is Ok ==> ({
                let sale = final(self).sales@.last();
                let cp = collateral_price->Some_0;
                let fp = funding_price->Some_0;
                &&& collateral_price is Some && funding_price is Some
                &&& sale.start_price == trunc_div(deposit.amount * cp, fp as int)
                &&& sale.floor_price == trunc_div(sale.start_price as int, 2)
                &&& sale.amount == deposit.amount
                &&& sale.token == deposit.token
                &&& sale.proceeds_token == funded.token
            }),
            r matches Ok(id) ==> {
                let params = liquidation_sale_params(*old(self), *deposit, *funded, collateral_price, funding_price);
                &&& id == old(self).sales@.len() + 1
                &&& final(self).sales@ == old(self).sales@.push(
                    CollateralSale {
                        sale_id: id,
                        seller: params.seller,
                        token: params.token,
                        amount: params.amount,
                        proceeds_token: params.proceeds_token,
                        proceeds_recipient: params.proceeds_recipient,
                        start_price: params.start_price,
                        floor_price: params.floor_price,
                        opened_at: now,
                        duration_secs: params.duration_secs,
                        status: SaleStatus::Open,
                        taker: None,
                        settled_price: None,
                    },
                )
                &&& assoc_view(final(self).at_risk_since@) == assoc_view(old(self).at_risk_since@).remove(
                    invoice_id,
                )
                &&& final(self).address == old(self).address
                &&& final(self).initialized == old(self).initialized
                &&& final(self).admin == old(self).admin
                &&& final(self).pool == old(self).pool
                &&& final(self).risk_config == old(self).risk_config
            },
    {
        if !seized {
            return Err(AuctionError::PoolCallFailed);
        }
        let cp = fetch_price(collateral_price)?;
        let fp = fetch_price(funding_price)?;
        let start_price = match deposit.amount.checked_mul(cp) {
            Some(v) => div_trunc_i128(v, fp),
            None => return Err(AuctionError::AmountOverflow),
        };
        let floor_price = div_trunc_i128(start_price, 2);
        let pool = self.require_pool()?;
        let cfg = self.get_collateral_risk_config();
        let params = CollateralSaleParams {
            seller: self.address,
            token: deposit.token,
            amount: deposit.amount,
            proceeds_token: funded.token,
            proceeds_recipient: pool,
            start_price,
            floor_price,
            duration_secs: cfg.grace_period_secs,
        };
        let sale_id = self.open_collateral_sale(params, now)?;
        assoc_remove(&mut self.at_risk_since, invoice_id);
        Ok(sale_id)
    }
}

/// The sale a liquidation opens prices the seized collateral in the
/// funding token: its start price is `amount * collateral_price /
/// funding_price` (rounded toward zero) and its floor half of that, so the
/// collateral is offered at its oracle value and no lower than half of it.
pub proof fn law_liquidation_sale_prices_collateral_in_funding_token(
    c: AuctionContract,
    deposit: CollateralDepositView,
    funded: FundedInvoiceView,
    collateral_price: i128,
    funding_price: i128,
)
    requires
        collateral_price > 0,
        funding_price > 0,
        i128::MIN <= deposit.amount * collateral_price <= i128::MAX,
    ensures
        ({
            let params = liquidation_sale_params(
                c,
                deposit,
                funded,
                Some(collateral_price),
                Some(funding_price),
            );
            &&& params.start_price == trunc_div(deposit.amount * collateral_price, funding_price as int)
            &&& params.floor_price == trunc_div(params.start_price as int, 2)
            &&& params.amount == deposit.amount
            &&& params.token == deposit.token
            &&& params.proceeds_token == funded.token
        }),
{
    let v = deposit.amount * collateral_price;
    let f = funding_price as int;
    if v >= 0 {
        assert(0 <= v / f <= v) by (nonlinear_arith)
            requires
                v >= 0,
                f > 0,
        ;
    } else {
        assert(0 <= (-v) / f <= -v) by (nonlinear_arith)
            requires
                -v > 0,
                f > 0,
        ;
    }
}

/// The sale parameters a liquidation opens: this contract sells the
/// deposit's collateral for the funding token, proceeds to the pool.
pub open spec fn liquidation_sale_params(
    c: AuctionContract,
    deposit: CollateralDepositView,
    funded: FundedInvoiceView,
    collateral_price: Option<i128>,
    funding_price: Option<i128>,
) -> CollateralSaleParams {
    let start = trunc_div(
        deposit.amount * quoted_price(collateral_price)->Ok_0,
        quoted_price(funding_price)->Ok_0 as int,
    ) as i128;
    CollateralSaleParams {
        seller: c.address,
        token: deposit.token,
        amount: deposit.amount,
        proceeds_token: funded.token,
        proceeds_recipient: c.pool->Some_0,
        start_price: start,
        floor_price: trunc_div(start as int, 2) as i128,
        duration_secs: c.risk_config_spec().grace_period_secs,
    }
}

/// The outcome of completing a liquidation: the seizure must have
/// succeeded, both prices be usable, the collateral value fit `i128`, and
/// the resulting sale parameters be valid.
pub open spec fn liquidation_sale_outcome(
    c: AuctionContract,
    seized: bool,
    deposit: CollateralDepositView,
    funded: FundedInvoiceView,
    collateral_price: Option<i128>,
    funding_price: Option<i128>,
) -> Result<u64, AuctionError> {
    if !seized {
        Err(AuctionError::PoolCallFailed)
    } else if quoted_price(collateral_price) is Err {
        Err(AuctionError::OraclePriceUnavailable)
    } else if quoted_price(funding_price) is Err {
        Err(AuctionError::OraclePriceUnavailable)
    } else if deposit.amount * quoted_price(collateral_price)->Ok_0 > i128::MAX || deposit.amount
        * quoted_price(collateral_price)->Ok_0 < i128::MIN {
        Err(AuctionError::AmountOverflow)
    } else if !sale_params_valid(
        liquidation_sale_params(c, deposit, funded, collateral_price, funding_price),
    ) {
        Err(AuctionError::InvalidSaleParams)
    } else {
        Ok((c.sales@.len() + 1) as u64)
    }
}

} // verus!
