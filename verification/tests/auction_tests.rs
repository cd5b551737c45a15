use astera_contracts::auction::{
    clear_auction, composite_score, compute_live_ratio, AuctionContract, AuctionError,
    CollateralDepositView, CollateralSaleParams, FundedInvoiceView, InvoiceBid, LiquidationStep,
    PoolQuotes, SaleStatus, DEFAULT_GRACE_PERIOD_SECS,
};
use std::collections::HashMap;

fn make_bid(invoice_id: u64, sme: u64, principal: i128, max_discount_bps: u32, min_priority_score: u32) -> InvoiceBid {
    InvoiceBid { invoice_id, sme, principal, max_discount_bps, min_priority_score }
}

#[test]
fn test_exact_fit_liquidity() {
    let bids = vec![make_bid(1, 11, 1000, 500, 0), make_bid(2, 12, 2000, 300, 0)];
    let result = clear_auction(bids, 3000, &vec![]);
    assert_eq!(result.len(), 2);
    assert_eq!(result[0].invoice_id, 1);
    assert_eq!(result[0].allocated_amount, 1000);
    assert_eq!(result[1].invoice_id, 2);
    assert_eq!(result[1].allocated_amount, 2000);
}

#[test]
fn test_insufficient_liquidity() {
    let bids = vec![
        make_bid(1, 11, 5000, 400, 0),
        make_bid(2, 12, 3000, 600, 0),
        make_bid(3, 13, 2000, 200, 0),
    ];
    let result = clear_auction(bids, 4000, &vec![]);
    assert_eq!(result.len(), 2);
    assert_eq!(result[0].invoice_id, 2);
    assert_eq!(result[0].allocated_amount, 3000);
    assert_eq!(result[1].allocated_amount, 1000);
}

#[test]
fn test_credit_score_weighting() {
    let (high_score_sme, low_score_sme) = (21, 22);
    let bids = vec![make_bid(1, low_score_sme, 1000, 500, 0), make_bid(2, high_score_sme, 1000, 400, 0)];
    let scores = vec![(high_score_sme, 800), (low_score_sme, 100)];
    // 400 + 400*800*10/10000 = 720 against 500 + 500*100*10/10000 = 550.
    let result = clear_auction(bids, 2000, &scores);
    assert_eq!(result.len(), 2);
    assert_eq!(result[0].invoice_id, 2, "High-score SME should be ranked first");
}

#[test]
fn test_deterministic_tie_breaking() {
    let bids = vec![make_bid(10, 11, 1000, 500, 0), make_bid(5, 12, 1000, 500, 0)];
    let result = clear_auction(bids, 2000, &vec![]);
    assert_eq!(result.len(), 2);
    assert_eq!(result[0].invoice_id, 5, "Lower invoice_id should win tie-break");
}

#[test]
fn test_uniform_clearing_discount() {
    let bids = vec![
        make_bid(1, 11, 1000, 700, 0),
        make_bid(2, 12, 1000, 500, 0),
        make_bid(3, 13, 1000, 300, 0),
    ];
    let result = clear_auction(bids, 2000, &vec![]);
    assert_eq!(result.len(), 2);
    assert_eq!(result[0].clearing_discount_bps, 500);
    assert_eq!(result[1].clearing_discount_bps, 500);
}

#[test]
fn test_no_bids() {
    let result = clear_auction(vec![], 10000, &vec![]);
    assert_eq!(result.len(), 0);
}

#[test]
fn test_zero_liquidity() {
    let result = clear_auction(vec![make_bid(1, 11, 1000, 500, 0)], 0, &vec![]);
    assert_eq!(result.len(), 0);
}

#[test]
fn test_winning_bid_not_exceeding_own_discount() {
    let bids = vec![make_bid(1, 11, 1000, 600, 0), make_bid(2, 12, 1000, 200, 0)];
    let result = clear_auction(bids, 1500, &vec![]);
    assert_eq!(result.len(), 2);
    assert_eq!(result[0].clearing_discount_bps, 200);
    assert!(result[0].clearing_discount_bps <= 600);
}

#[test]
fn test_simulate_clearing_contract_fn() {
    let client = AuctionContract::new(1);
    let bids = vec![make_bid(1, 11, 1000, 500, 0), make_bid(2, 12, 2000, 300, 0)];
    let result = client.simulate_clearing(bids, 3000, &vec![]);
    assert_eq!(result.len(), 2);
}

// ── collateral-liquidation Dutch auction ─────────────────────────────────

/// Token balances per (token, holder), as the host keeps them.
#[derive(Default)]
struct Ledger {
    balances: HashMap<(u64, u64), i128>,
}

impl Ledger {
    fn mint(&mut self, token: u64, to: u64, amount: i128) {
        *self.balances.entry((token, to)).or_insert(0) += amount;
    }

    fn transfer(&mut self, token: u64, from: u64, to: u64, amount: i128) {
        let b = self.balances.entry((token, from)).or_insert(0);
        assert!(*b >= amount, "insufficient balance");
        *b -= amount;
        self.mint(token, to, amount);
    }

    fn balance(&self, token: u64, who: u64) -> i128 {
        *self.balances.get(&(token, who)).unwrap_or(&0)
    }
}

struct Sale {
    client: AuctionContract,
    address: u64,
    ledger: Ledger,
    now: u64,
    seized_token: u64,
    proceeds_token: u64,
    seller: u64,
    recipient: u64,
}

impl Sale {
    /// Opens a sale and takes the consigned asset into custody, failing as
    /// the contract does when the parameters are refused.
    fn open(&mut self, params: CollateralSaleParams) -> u64 {
        match self.client.open_collateral_sale(params, self.now) {
            Ok(id) => {
                let address = self.address;
                self.ledger.transfer(params.token, params.seller, address, params.amount);
                id
            }
            Err(e) => panic!("HostError: Error(Contract, #{})", e.code()),
        }
    }

    fn take(&mut self, taker: u64, sale_id: u64) -> Result<i128, AuctionError> {
        let price = self.client.take_collateral_sale(taker, sale_id, self.now)?;
        let sale = self.client.get_sale(sale_id).unwrap();
        let address = self.address;
        self.ledger.transfer(sale.proceeds_token, taker, sale.proceeds_recipient, price);
        self.ledger.transfer(sale.token, address, taker, sale.amount);
        Ok(price)
    }

    fn reclaim(&mut self, caller: u64, sale_id: u64) -> Result<(), AuctionError> {
        self.client.reclaim_expired_sale(caller, sale_id, self.now)?;
        let sale = self.client.get_sale(sale_id).unwrap();
        let address = self.address;
        self.ledger.transfer(sale.token, address, sale.seller, sale.amount);
        Ok(())
    }

    fn price(&self, sale_id: u64) -> i128 {
        self.client.current_sale_price(sale_id, self.now).unwrap()
    }

    fn params(&self, start_price: i128, floor_price: i128, duration_secs: u64) -> CollateralSaleParams {
        CollateralSaleParams {
            seller: self.seller,
            token: self.seized_token,
            amount: 1_000,
            proceeds_token: self.proceeds_token,
            proceeds_recipient: self.recipient,
            start_price,
            floor_price,
            duration_secs,
        }
    }
}

fn setup_sale() -> Sale {
    Sale {
        client: AuctionContract::new(1),
        address: 1,
        ledger: Ledger::default(),
        now: 100_000,
        seized_token: 2,
        proceeds_token: 3,
        seller: 4,
        recipient: 5,
    }
}

#[test]
fn test_take_collateral_sale_at_open_pays_start_price() {
    let mut s = setup_sale();
    let taker = 6;
    let (seized, proceeds, seller, recipient, address) =
        (s.seized_token, s.proceeds_token, s.seller, s.recipient, s.address);
    s.ledger.mint(seized, seller, 1_000);
    s.ledger.mint(proceeds, taker, 10_000);

    let params = s.params(900, 500, 3_600);
    let sale_id = s.open(params);
    assert_eq!(s.ledger.balance(seized, address), 1_000);
    assert_eq!(s.ledger.balance(seized, seller), 0);

    assert_eq!(s.price(sale_id), 900);
    s.take(taker, sale_id).unwrap();

    assert_eq!(s.ledger.balance(proceeds, recipient), 900);
    assert_eq!(s.ledger.balance(proceeds, taker), 10_000 - 900);
    assert_eq!(s.ledger.balance(seized, taker), 1_000);
    assert_eq!(s.ledger.balance(seized, address), 0);

    let sale = s.client.get_sale(sale_id).unwrap();
    assert_eq!(sale.status, SaleStatus::Settled);
    assert_eq!(sale.taker, Some(taker));
    assert_eq!(sale.settled_price, Some(900));
}

#[test]
fn test_sale_price_decays_linearly_toward_floor() {
    let mut s = setup_sale();
    let (seized, seller) = (s.seized_token, s.seller);
    s.ledger.mint(seized, seller, 1_000);
    let params = s.params(1_000, 0, 1_000);
    let sale_id = s.open(params);
    assert_eq!(s.price(sale_id), 1_000);
    s.now += 500;
    assert_eq!(s.price(sale_id), 500);
    s.now += 500;
    assert_eq!(s.price(sale_id), 0);
    s.now += 1_000;
    assert_eq!(s.price(sale_id), 0);
}

#[test]
fn test_take_collateral_sale_after_expiry_rejected() {
    let mut s = setup_sale();
    let taker = 6;
    let (seized, proceeds, seller) = (s.seized_token, s.proceeds_token, s.seller);
    s.ledger.mint(seized, seller, 1_000);
    s.ledger.mint(proceeds, taker, 10_000);
    let params = s.params(900, 500, 3_600);
    let sale_id = s.open(params);
    s.now += 3_601;
    assert_eq!(s.take(taker, sale_id), Err(AuctionError::SaleExpired));
}

#[test]
fn test_reclaim_expired_sale_returns_asset_to_seller() {
    let mut s = setup_sale();
    let keeper = 7;
    let (seized, seller, address) = (s.seized_token, s.seller, s.address);
    s.ledger.mint(seized, seller, 1_000);
    let params = s.params(900, 500, 3_600);
    let sale_id = s.open(params);
    s.now += 3_601;
    s.reclaim(keeper, sale_id).unwrap();
    assert_eq!(s.ledger.balance(seized, seller), 1_000);
    assert_eq!(s.ledger.balance(seized, address), 0);
    assert_eq!(s.client.get_sale(sale_id).unwrap().status, SaleStatus::Expired);
}

#[test]
fn test_reclaim_before_expiry_rejected() {
    let mut s = setup_sale();
    let keeper = 7;
    let (seized, seller) = (s.seized_token, s.seller);
    s.ledger.mint(seized, seller, 1_000);
    let params = s.params(900, 500, 3_600);
    let sale_id = s.open(params);
    assert_eq!(s.reclaim(keeper, sale_id), Err(AuctionError::SaleNotExpired));
}

#[test]
#[should_panic(expected = "Error(Contract, #15)")]
fn test_open_collateral_sale_invalid_params_panics() {
    let mut s = setup_sale();
    let (seized, seller) = (s.seized_token, s.seller);
    s.ledger.mint(seized, seller, 1_000);
    let params = s.params(500, 900, 3_600);
    s.open(params);
}

#[test]
fn test_current_sale_price_at_open_and_expiry_boundaries() {
    let mut s = setup_sale();
    let (seized, seller) = (s.seized_token, s.seller);
    s.ledger.mint(seized, seller, 1_000);
    let params = s.params(900, 500, 3_600);
    let sale_id = s.open(params);
    assert_eq!(s.price(sale_id), 900);
    s.now += 3_600;
    assert_eq!(s.price(sale_id), 500);
}

#[test]
fn test_take_collateral_sale_one_second_past_expiry_is_rejected() {
    let mut s = setup_sale();
    let taker = 6;
    let (seized, proceeds, seller) = (s.seized_token, s.proceeds_token, s.seller);
    s.ledger.mint(seized, seller, 1_000);
    s.ledger.mint(proceeds, taker, 1_000);
    let params = s.params(900, 500, 3_600);
    let sale_id = s.open(params);
    s.now += 3_601;
    assert_eq!(s.take(taker, sale_id), Err(AuctionError::SaleExpired));
}

// ── further cases ─────────────────────────────────────────────────────────

#[test]
fn test_composite_score_formula() {
    assert_eq!(composite_score(400, 800), 720);
    assert_eq!(composite_score(500, 100), 550);
    assert_eq!(composite_score(500, 0), 500);
}

#[test]
fn test_bids_under_their_minimum_priority_score_are_dropped() {
    let bids = vec![make_bid(1, 11, 1000, 500, 700), make_bid(2, 12, 1000, 300, 0)];
    let scores = vec![(11, 600)];
    let result = clear_auction(bids, 5000, &scores);
    assert_eq!(result.len(), 1);
    assert_eq!(result[0].invoice_id, 2);
    assert_eq!(result[0].clearing_discount_bps, 300);
}

#[test]
fn test_take_at_half_window_and_double_take() {
    let mut s = setup_sale();
    let taker = 6;
    let (seized, proceeds, seller, recipient) = (s.seized_token, s.proceeds_token, s.seller, s.recipient);
    s.ledger.mint(seized, seller, 1_000);
    s.ledger.mint(proceeds, taker, 10_000);
    let params = s.params(900, 500, 3_600);
    let sale_id = s.open(params);
    s.now += 1_800;
    assert_eq!(s.take(taker, sale_id), Ok(700));
    assert_eq!(s.ledger.balance(proceeds, recipient), 700);
    assert_eq!(s.take(taker, sale_id), Err(AuctionError::SaleNotOpen));
    assert_eq!(s.take(taker, 99), Err(AuctionError::SaleNotFound));
}

#[test]
fn test_cancel_sale_only_by_seller_while_open() {
    let mut s = setup_sale();
    let (seized, seller) = (s.seized_token, s.seller);
    s.ledger.mint(seized, seller, 1_000);
    let params = s.params(900, 500, 3_600);
    let sale_id = s.open(params);
    assert_eq!(s.client.list_open_sales().len(), 1);
    assert_eq!(s.client.cancel_collateral_sale(99, sale_id), Err(AuctionError::Unauthorized));
    s.client.cancel_collateral_sale(seller, sale_id).unwrap();
    assert_eq!(s.client.get_sale(sale_id).unwrap().status, SaleStatus::Cancelled);
    assert_eq!(s.client.list_open_sales().len(), 0);
    assert_eq!(s.client.cancel_collateral_sale(seller, sale_id), Err(AuctionError::SaleNotOpen));
}

#[test]
fn test_collateral_risk_config_admin_and_bounds() {
    let mut client = AuctionContract::new(1);
    assert_eq!(client.set_collateral_risk_config(2, 12_000, 10), Err(AuctionError::NotInitialized));
    client.initialize(2, 3).unwrap();
    assert_eq!(client.initialize(2, 3), Err(AuctionError::AlreadyInitialized));
    assert_eq!(client.get_pool_contract(), Some(3));
    assert_eq!(client.set_collateral_risk_config(9, 12_000, 10), Err(AuctionError::Unauthorized));
    assert_eq!(client.set_collateral_risk_config(2, 9_999, 10), Err(AuctionError::InvalidRiskConfig));
    client.set_collateral_risk_config(2, 15_000, 60).unwrap();
    let cfg = client.get_collateral_risk_config();
    assert_eq!((cfg.danger_bps, cfg.grace_period_secs), (15_000, 60));
    assert_eq!(AuctionError::InvalidSaleParams.code(), 15);
}

fn quotes(collateral_price: i128) -> PoolQuotes {
    PoolQuotes {
        deposit: Some(CollateralDepositView {
            invoice_id: 8,
            depositor: 40,
            token: 41,
            amount: 1_000,
            settled: false,
            posted_at: 0,
            released_at: 0,
            seized_at: 0,
            collateral_bps_at_deposit: 10_000,
            threshold_at_deposit: 0,
        }),
        funded: Some(FundedInvoiceView {
            invoice_id: 8,
            sme: 40,
            token: 42,
            principal: 1_000,
            funded_at: 0,
            factoring_fee: 0,
            due_date: 0,
            repaid_amount: 0,
            co_funding_round_id: None,
            locked_yield_bps: 0,
        }),
        collateral_price: Some(collateral_price),
        funding_price: Some(1),
    }
}

#[test]
fn test_liquidation_flags_waits_out_grace_then_opens_a_sale() {
    let mut client = AuctionContract::new(1);
    let q = quotes(1);
    assert_eq!(client.check_collateral_risk(9, 8, 0, &q), Err(AuctionError::NotInitialized));
    client.initialize(2, 3).unwrap();
    assert_eq!(compute_live_ratio(&q), Ok(10_000));
    assert_eq!(client.liquidate_collateral(9, 8, 10, &q), Err(AuctionError::NotAtRisk));

    assert_eq!(client.check_collateral_risk(9, 8, 100, &q), Ok(true));
    assert_eq!(client.get_at_risk_since(8), Some(100));
    assert_eq!(client.check_collateral_risk(9, 8, 200, &q), Ok(true));
    assert_eq!(client.get_at_risk_since(8), Some(100));
    assert_eq!(
        client.liquidate_collateral(9, 8, 100 + DEFAULT_GRACE_PERIOD_SECS - 1, &q),
        Err(AuctionError::GracePeriodNotElapsed)
    );
    let now = 100 + DEFAULT_GRACE_PERIOD_SECS;
    assert_eq!(client.liquidate_collateral(9, 8, now, &q), Ok(LiquidationStep::Seize));

    let deposit = q.deposit.unwrap();
    let funded = q.funded.unwrap();
    assert_eq!(
        client.complete_liquidation(8, now, false, &deposit, &funded, Some(1), Some(1)),
        Err(AuctionError::PoolCallFailed)
    );
    let sale_id = client.complete_liquidation(8, now, true, &deposit, &funded, Some(1), Some(1)).unwrap();
    let sale = client.get_sale(sale_id).unwrap();
    assert_eq!((sale.seller, sale.proceeds_recipient, sale.token, sale.proceeds_token), (1, 3, 41, 42));
    assert_eq!((sale.start_price, sale.floor_price, sale.amount), (1_000, 500, 1_000));
    assert_eq!(sale.duration_secs, DEFAULT_GRACE_PERIOD_SECS);
    assert_eq!(client.get_at_risk_since(8), None);
}

#[test]
fn test_liquidation_of_a_recovered_position_clears_the_flag() {
    let mut client = AuctionContract::new(1);
    client.initialize(2, 3).unwrap();
    client.set_collateral_risk_config(2, 12_000, 60).unwrap();
    assert_eq!(client.check_collateral_risk(9, 8, 0, &quotes(1)), Ok(true));
    assert_eq!(client.liquidate_collateral(9, 8, 60, &quotes(2)), Ok(LiquidationStep::Recovered));
    assert_eq!(client.get_at_risk_since(8), None);
    assert_eq!(client.get_live_collateral_ratio(&quotes(2)), Ok(20_000));
    assert_eq!(client.check_collateral_risk(9, 8, 70, &quotes(2)), Ok(false));
    assert_eq!(client.get_live_collateral_ratio(&quotes(0)), Err(AuctionError::OraclePriceUnavailable));
}
