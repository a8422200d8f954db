use openbook_quote::addr::{clock_address_value, Address};
use openbook_quote::amm::{KeyedAccount, OpenBookMarket};
use openbook_quote::book::{BOOK_ACCOUNT_TAG, Side};
use openbook_quote::errors::MarketError;
use openbook_quote::heap::HEAP_ACCOUNT_TAG;
use openbook_quote::market::MARKET_ACCOUNT_TAG;
use openbook_quote::oracle::{FIXED_POINT_ONE, ORACLE_ACCOUNT_TAG};

fn addr(n: u64) -> Address {
    Address { w0: n, w1: 0, w2: 0, w3: 0 }
}

fn zero_addr() -> Address {
    Address { w0: 0, w1: 0, w2: 0, w3: 0 }
}

fn put_u64(buf: &mut Vec<u8>, v: u64) {
    buf.extend_from_slice(&v.to_le_bytes());
}

fn put_i64(buf: &mut Vec<u8>, v: i64) {
    buf.extend_from_slice(&v.to_le_bytes());
}

fn put_i128(buf: &mut Vec<u8>, v: i128) {
    buf.extend_from_slice(&v.to_le_bytes());
}

fn put_addr(buf: &mut Vec<u8>, a: &Address) {
    put_u64(buf, a.w0);
    put_u64(buf, a.w1);
    put_u64(buf, a.w2);
    put_u64(buf, a.w3);
}

const BASE_MINT: u64 = 1;
const QUOTE_MINT: u64 = 2;
const AUTHORITY: u64 = 3;
const BIDS: u64 = 4;
const ASKS: u64 = 5;
const HEAP: u64 = 6;
const BASE_VAULT: u64 = 7;
const QUOTE_VAULT: u64 = 8;
const ORACLE_A: u64 = 9;
const ORACLE_B: u64 = 10;

fn market_bytes(
    oracle_a: Option<Address>,
    oracle_b: Option<Address>,
    base_lot_size: i64,
    quote_lot_size: i64,
    taker_fee: i64,
    band: i64,
) -> Vec<u8> {
    let mut b = Vec::new();
    put_u64(&mut b, MARKET_ACCOUNT_TAG);
    put_addr(&mut b, &addr(BASE_MINT));
    put_addr(&mut b, &addr(QUOTE_MINT));
    put_addr(&mut b, &addr(AUTHORITY));
    put_addr(&mut b, &addr(BIDS));
    put_addr(&mut b, &addr(ASKS));
    put_addr(&mut b, &addr(HEAP));
    put_addr(&mut b, &addr(BASE_VAULT));
    put_addr(&mut b, &addr(QUOTE_VAULT));
    put_addr(&mut b, &oracle_a.unwrap_or(zero_addr()));
    put_addr(&mut b, &oracle_b.unwrap_or(zero_addr()));
    put_i64(&mut b, base_lot_size);
    put_i64(&mut b, quote_lot_size);
    put_i64(&mut b, taker_fee);
    put_i64(&mut b, band);
    b
}

fn book_bytes(orders: &[(u64, i64, i64, u64)]) -> Vec<u8> {
    let mut b = Vec::new();
    put_u64(&mut b, BOOK_ACCOUNT_TAG);
    put_u64(&mut b, orders.len() as u64);
    for &(owner, price, qty, expiry) in orders {
        put_addr(&mut b, &addr(owner));
        put_i64(&mut b, price);
        put_i64(&mut b, qty);
        put_u64(&mut b, expiry);
    }
    b
}

fn heap_bytes(events: &[(u64, u64)]) -> Vec<u8> {
    let mut b = Vec::new();
    put_u64(&mut b, HEAP_ACCOUNT_TAG);
    put_u64(&mut b, events.len() as u64);
    for &(maker, account) in events {
        put_addr(&mut b, &addr(maker));
        put_addr(&mut b, &addr(account));
    }
    b
}

fn clock_bytes(slot: u64, timestamp: u64) -> Vec<u8> {
    let mut b = Vec::new();
    put_u64(&mut b, slot);
    put_u64(&mut b, timestamp);
    b
}

fn oracle_bytes(price_raw: i128, conf_raw: i128, last_update_slot: u64) -> Vec<u8> {
    let mut b = Vec::new();
    put_u64(&mut b, ORACLE_ACCOUNT_TAG);
    put_i128(&mut b, price_raw);
    put_i128(&mut b, conf_raw);
    put_u64(&mut b, last_update_slot);
    b
}

fn mk_view(data: Vec<u8>) -> OpenBookMarket {
    let acc = KeyedAccount { key: addr(100), owner: addr(101), data };
    OpenBookMarket::from_keyed_account(&acc).unwrap()
}

fn base_map(
    bids: &[(u64, i64, i64, u64)],
    asks: &[(u64, i64, i64, u64)],
    events: &[(u64, u64)],
    slot: u64,
    timestamp: u64,
) -> Vec<(Address, Vec<u8>)> {
    vec![
        (addr(BIDS), book_bytes(bids)),
        (addr(ASKS), book_bytes(asks)),
        (addr(HEAP), heap_bytes(events)),
        (addr(BASE_VAULT), Vec::new()),
        (addr(QUOTE_VAULT), Vec::new()),
        (clock_address_value(), clock_bytes(slot, timestamp)),
    ]
}

#[test]
fn quote_one_ask_exact_fill() {
    let mut view = mk_view(market_bytes(None, None, 1, 1, 0, 0));
    let map = base_map(&[], &[(20, 10, 5, 0)], &[], 1, 1);
    view.update(&map).unwrap();
    let q = view.quote(addr(QUOTE_MINT), 50).unwrap();
    assert_eq!(q.out_amount, 5);
    assert_eq!(q.fee_amount, 0);
    assert_eq!(q.in_amount, 50);
    assert!(!q.not_enough_liquidity);
    assert_eq!(q.fee_mint, addr(QUOTE_MINT));
}

#[test]
fn quote_empty_book_not_enough_liquidity() {
    let mut view = mk_view(market_bytes(None, None, 1, 1, 0, 0));
    let map = base_map(&[], &[], &[], 1, 1);
    view.update(&map).unwrap();
    let q = view.quote(addr(QUOTE_MINT), 50).unwrap();
    assert_eq!(q.out_amount, 0);
    assert!(q.not_enough_liquidity);
}

#[test]
fn refresh_missing_account_keeps_state() {
    let mut view = mk_view(market_bytes(None, None, 1, 1, 0, 0));
    let map = base_map(&[], &[(20, 10, 5, 0)], &[], 1, 1);
    view.update(&map).unwrap();
    let before = view.clone();
    // a map without the clock account
    let partial = vec![
        (addr(BIDS), book_bytes(&[])),
        (addr(ASKS), book_bytes(&[(21, 12, 7, 0)])),
        (addr(HEAP), heap_bytes(&[])),
    ];
    let r = view.update(&partial);
    assert_eq!(r, Err(MarketError::MissingAccount));
    assert_eq!(view, before);
    assert_eq!(
        view.quote(addr(QUOTE_MINT), 50).unwrap(),
        before.quote(addr(QUOTE_MINT), 50).unwrap()
    );
}

#[test]
fn refresh_missing_vault_keeps_state() {
    let mut view = mk_view(market_bytes(None, None, 1, 1, 0, 0));
    let map = base_map(&[], &[(20, 10, 5, 0)], &[], 1, 1);
    view.update(&map).unwrap();
    let before = view.clone();
    // a map with every tracked address except the quote vault
    let partial: Vec<(Address, Vec<u8>)> = map
        .iter()
        .filter(|(k, _)| *k != addr(QUOTE_VAULT))
        .map(|(k, v)| (*k, v.clone()))
        .collect();
    assert_eq!(view.update(&partial), Err(MarketError::MissingAccount));
    assert_eq!(view, before);
}

#[test]
fn refresh_bad_oracle_fails_with_decode() {
    let mut view = mk_view(market_bytes(Some(addr(ORACLE_A)), Some(addr(ORACLE_B)), 1, 1, 0, 2));
    let before = view.clone();
    let mut map = base_map(&[], &[], &[], 1, 1);
    map.push((addr(ORACLE_A), oracle_bytes(10 * FIXED_POINT_ONE, 0, 1)));
    // the second feed's bytes carry the wrong tag
    let mut bad = oracle_bytes(10 * FIXED_POINT_ONE, 0, 1);
    bad[0] = bad[0].wrapping_add(1);
    map.push((addr(ORACLE_B), bad));
    let r = view.update(&map);
    assert_eq!(r, Err(MarketError::Decode));
    assert_eq!(view, before);
}

#[test]
fn quote_is_idempotent() {
    let mut view = mk_view(market_bytes(None, None, 2, 3, 1000, 0));
    let map = base_map(&[], &[(20, 10, 5, 0), (21, 12, 9, 0)], &[], 1, 1);
    view.update(&map).unwrap();
    let q1 = view.quote(addr(QUOTE_MINT), 173).unwrap();
    let q2 = view.quote(addr(QUOTE_MINT), 173).unwrap();
    assert_eq!(q1, q2);
}

#[test]
fn peg_band_excludes_priced_out_orders() {
    let mut view = mk_view(market_bytes(Some(addr(ORACLE_A)), None, 1, 1, 0, 2));
    let mut map = base_map(&[], &[(21, 11, 1, 0), (22, 50, 1, 0)], &[], 5, 1);
    map.push((addr(ORACLE_A), oracle_bytes(10 * FIXED_POINT_ONE, 0, 5)));
    view.update(&map).unwrap();
    // band [8, 12] around the oracle price of 10: the ask at 50 is excluded
    let q = view.quote(addr(QUOTE_MINT), 1000).unwrap();
    assert_eq!(q.out_amount, 1);
    assert!(q.not_enough_liquidity);
    let s = view
        .get_swap_and_account_metas(addr(QUOTE_MINT), 1000, addr(40), addr(41), addr(42))
        .unwrap();
    let touched: Vec<Address> = s.account_metas.iter().map(|m| m.address).collect();
    assert!(touched.contains(&addr(21)));
    assert!(!touched.contains(&addr(22)));
}

#[test]
fn two_feed_oracle_price_is_quotient() {
    let mut view = mk_view(market_bytes(Some(addr(ORACLE_A)), Some(addr(ORACLE_B)), 1, 1, 0, 2));
    let mut map = base_map(&[], &[(21, 11, 1, 0), (22, 50, 1, 0)], &[], 5, 1);
    map.push((addr(ORACLE_A), oracle_bytes(20 * FIXED_POINT_ONE, 0, 5)));
    map.push((addr(ORACLE_B), oracle_bytes(2 * FIXED_POINT_ONE, 0, 5)));
    view.update(&map).unwrap();
    // combined price 20 / 2 = 10: same band [8, 12] as the single-feed case
    let q = view.quote(addr(QUOTE_MINT), 1000).unwrap();
    assert_eq!(q.out_amount, 1);
}

#[test]
fn absent_oracle_price_closes_the_book() {
    // oracle configured but never refreshed: no order is admissible
    let view = mk_view(market_bytes(Some(addr(ORACLE_A)), None, 1, 1, 0, 2));
    let q = view.quote(addr(QUOTE_MINT), 50).unwrap();
    assert_eq!(q.out_amount, 0);
    assert!(q.not_enough_liquidity);
}

#[test]
fn stale_oracle_fails_refresh() {
    let mut view = mk_view(market_bytes(Some(addr(ORACLE_A)), None, 1, 1, 0, 2));
    let mut map = base_map(&[], &[], &[], 1000, 1);
    map.push((addr(ORACLE_A), oracle_bytes(10 * FIXED_POINT_ONE, 0, 1)));
    assert_eq!(view.update(&map), Err(MarketError::StaleOracle));
}

#[test]
fn wide_confidence_fails_refresh() {
    let mut view = mk_view(market_bytes(Some(addr(ORACLE_A)), None, 1, 1, 0, 2));
    let mut map = base_map(&[], &[], &[], 5, 1);
    map.push((addr(ORACLE_A), oracle_bytes(10 * FIXED_POINT_ONE, FIXED_POINT_ONE, 5)));
    assert_eq!(view.update(&map), Err(MarketError::OracleConfidence));
}

#[test]
fn fee_rounds_up() {
    // taker fee of 2500 parts per million on 100 quote native: ceil(0.25) = 1
    let mut view = mk_view(market_bytes(None, None, 1, 1, 2500, 0));
    let map = base_map(&[], &[(20, 10, 10, 0)], &[], 1, 1);
    view.update(&map).unwrap();
    let q = view.quote(addr(QUOTE_MINT), 100).unwrap();
    assert_eq!(q.out_amount, 10);
    assert_eq!(q.fee_amount, 1);
    assert_eq!(q.in_amount, 99);
}

#[test]
fn expired_orders_are_skipped() {
    let mut view = mk_view(market_bytes(None, None, 1, 1, 0, 0));
    let map = base_map(&[], &[(20, 10, 5, 5), (21, 11, 5, 0)], &[], 1, 10);
    view.update(&map).unwrap();
    // the order at price 10 expired at timestamp 5 < 10, so only price 11 fills
    let q = view.quote(addr(QUOTE_MINT), 55).unwrap();
    assert_eq!(q.out_amount, 5);
    assert!(!q.not_enough_liquidity);
}

#[test]
fn ask_side_quote_maps_amounts() {
    let mut view = mk_view(market_bytes(None, None, 1, 1, 0, 0));
    let map = base_map(&[(20, 10, 5, 0)], &[], &[], 1, 1);
    view.update(&map).unwrap();
    // selling 30 base against a bid of quantity 5 at price 10
    let q = view.quote(addr(BASE_MINT), 30).unwrap();
    assert_eq!(q.in_amount, 5);
    assert_eq!(q.out_amount, 50);
    assert!(q.not_enough_liquidity);
}

#[test]
fn crank_accounts_follow_touched_makers() {
    let mut view = mk_view(market_bytes(None, None, 1, 1, 0, 0));
    let events = [(20, 30), (20, 30), (99, 31)];
    let map = base_map(&[], &[(20, 10, 5, 0)], &events, 1, 1);
    view.update(&map).unwrap();
    let s = view
        .get_swap_and_account_metas(addr(QUOTE_MINT), 50, addr(40), addr(41), addr(42))
        .unwrap();
    assert_eq!(s.side, Side::Bid);
    // fixed set: 2 signer entries, 9 market accounts, token and system programs
    let fixed = 13;
    assert_eq!(s.account_metas.len(), fixed + 2);
    assert_eq!(s.account_metas[fixed].address, addr(20));
    assert!(s.account_metas[fixed].is_writable);
    assert!(!s.account_metas[fixed].is_signer);
    // the event for maker 20 adds account 30 once; maker 99 was not touched
    assert_eq!(s.account_metas[fixed + 1].address, addr(30));
}

#[test]
fn decode_error_on_wrong_tag() {
    let mut data = market_bytes(None, None, 1, 1, 0, 0);
    data[0] = data[0].wrapping_add(1);
    let acc = KeyedAccount { key: addr(100), owner: addr(101), data };
    assert_eq!(
        OpenBookMarket::from_keyed_account(&acc).unwrap_err(),
        MarketError::Decode
    );
}

#[test]
fn overflow_error_on_unrepresentable_input() {
    let mut view = mk_view(market_bytes(None, None, 1, 1, 0, 0));
    let map = base_map(&[], &[(20, 10, 5, 0)], &[], 1, 1);
    view.update(&map).unwrap();
    assert_eq!(
        view.quote(addr(QUOTE_MINT), u64::MAX).unwrap_err(),
        MarketError::Overflow
    );
}

#[test]
fn tracked_addresses_dedup_oracles() {
    let view = mk_view(market_bytes(Some(addr(ORACLE_A)), Some(addr(ORACLE_A)), 1, 1, 0, 0));
    let watched = view.get_accounts_to_update();
    assert_eq!(watched.len(), 7);
    assert_eq!(watched[0], addr(BIDS));
    assert_eq!(watched[1], addr(ASKS));
    assert_eq!(watched[2], addr(HEAP));
    assert_eq!(watched[3], addr(BASE_VAULT));
    assert_eq!(watched[4], addr(QUOTE_VAULT));
    assert_eq!(watched[5], clock_address_value());
    assert_eq!(watched[6], addr(ORACLE_A));
    let mints = view.get_reserve_mints();
    assert_eq!(mints, vec![addr(BASE_MINT), addr(QUOTE_MINT)]);
    assert_eq!(view.key(), addr(100));
    assert_eq!(view.program_id(), addr(101));
}

#[test]
fn lot_sizes_scale_native_amounts() {
    // base lot 2, quote lot 3: 5 base lots and 50 quote lots filled means
    // 10 base native out and 150 quote native in
    let mut view = mk_view(market_bytes(None, None, 2, 3, 0, 0));
    let map = base_map(&[], &[(20, 10, 5, 0)], &[], 1, 1);
    view.update(&map).unwrap();
    // 150 quote native input: 150 / 3 + 150 % 3 = 50 quote lots
    let q = view.quote(addr(QUOTE_MINT), 150).unwrap();
    assert_eq!(q.out_amount, 10);
    assert_eq!(q.in_amount, 150);
    assert!(!q.not_enough_liquidity);
}
