use vstd::prelude::*;
use crate::addr::{
    clock_address, clock_address_value, system_program_address, system_program_address_value,
    token_program_address, token_program_address_value, AccountMeta, Address,
};
use crate::oracle::{peg_window, peg_window_spec};
use crate::sim::{fee_of, simulate_spec, simulate_take, sum_quote, walk_fills, Fill, PegRule};
use crate::book::{book_bytes_wf, book_orders_wf, decode_book_side, orders_of, BookSide, Order, Side};
use crate::errors::MarketError;
use crate::heap::{decode_event_heap, events_of, heap_bytes_wf, EventHeap, PendingEvent};
use crate::market::{decode_market, market_bytes_wf, market_of, Market};
use crate::oracle::{
    clock_bytes_wf, clock_slot_of, clock_timestamp_of, decode_clock, decode_oracle_feed, feed_of,
    oracle_bytes_wf, oracle_price_spec, derive_oracle_price, OracleFeed, ORACLE_PRICE_LIMIT,
};

verus! {

/// One account as supplied by the ledger collaborator: its address, the
/// program that owns it, and its raw data.
pub struct KeyedAccount {
    pub key: Address,
    pub owner: Address,
    pub data: Vec<u8>,
}

/// An in-memory mirror of one on-chain market: its configuration, the
/// latest decoded book sides, event heap, clock, and oracle price, and the
/// cached list of addresses a refresh needs.
#[derive(Clone, Debug, PartialEq, Eq)]
pub struct OpenBookMarket {
    pub market: Market,
    pub key: Address,
    pub program: Address,
    pub bids: BookSide,
    pub asks: BookSide,
    pub event_heap: EventHeap,
    pub slot: u64,
    pub timestamp: u64,
    pub oracle_price: Option<i128>,
    pub related_accounts: Vec<Address>,
}

/// The watch-list derived from a configuration: book sides, event heap,
/// vaults, the clock, and whichever oracle addresses are configured —
/// each at most once, and only when set.
pub open spec fn tracked_addresses_spec(m: Market) -> Seq<Address> {
    let base = seq![
        m.bids,
        m.asks,
        m.event_heap,
        m.market_base_vault,
        m.market_quote_vault,
        clock_address(),
    ];
    let with_a = match m.oracle_a {
        Some(a) => base.push(a),
        None => base,
    };
    match m.oracle_b {
        Some(b) => if m.oracle_a matches Some(a) && a == b {
            with_a
        } else {
            with_a.push(b)
        },
        None => with_a,
    }
}

impl OpenBookMarket {
    /// Internal consistency: a valid configuration, each book side labelled
    /// and ordered for its side, the cached watch-list in step with the
    /// configuration, and an oracle price inside its representable range.
    pub open spec fn wf(self) -> bool {
        &&& self.market.wf()
        &&& self.bids.side == Side::Bid
        &&& self.asks.side == Side::Ask
        &&& book_orders_wf(self.bids.orders@, Side::Bid)
        &&& book_orders_wf(self.asks.orders@, Side::Ask)
        &&& self.related_accounts@ == tracked_addresses_spec(self.market)
        &&& (self.oracle_price matches Some(p) ==> 0 < p < ORACLE_PRICE_LIMIT)
    }

    /// Builds the mirror from the market account alone: configuration
    /// decoded, watch-list derived and cached, and the live state left
    /// empty until the first refresh.
    pub fn from_keyed_account(acc: &KeyedAccount) -> (r: Result<OpenBookMarket, MarketError>)
        ensures
            r is Ok <==> market_bytes_wf(acc.data@),
            r matches Ok(v) ==> {
                &&& v.wf()
                &&& v.market == market_of(acc.data@)
                &&& v.key == acc.key
                &&& v.program == acc.owner
                &&& v.bids.orders@ == Seq::<Order>::empty()
                &&& v.asks.orders@ == Seq::<Order>::empty()
                &&& v.event_heap.events@ == Seq::<PendingEvent>::empty()
                &&& v.slot == 0
                &&& v.timestamp == 0
                &&& v.oracle_price is None
                &&& v.related_accounts@ == tracked_addresses_spec(v.market)
            },
            r matches Err(e) ==> e == MarketError::Decode,
    {
        let market = match decode_market(&acc.data) {
            Ok(m) => m,
            Err(e) => { return Err(e) },
        };
        let mut related: Vec<Address> = Vec::new();
        related.push(market.bids);
        related.push(market.asks);
        related.push(market.event_heap);
        related.push(market.market_base_vault);
        related.push(market.market_quote_vault);
        related.push(clock_address_value());
        if let Some(a) = market.oracle_a {
            related.push(a);
        }
        if let Some(b) = market.oracle_b {
            let dup = match market.oracle_a {
                Some(a) => a == b,
                None => false,
            };
            if !dup {
                related.push(b);
            }
        }
        assert(related@ =~= tracked_addresses_spec(market));
        Ok(
            OpenBookMarket {
                market,
                key: acc.key,
                program: acc.owner,
                bids: BookSide::new_empty(Side::Bid),
                asks: BookSide::new_empty(Side::Ask),
                event_heap: EventHeap::new_empty(),
                slot: 0,
                timestamp: 0,
                oracle_price: None,
                related_accounts: related,
            },
        )
    }

    pub fn key(&self) -> (r: Address)
        ensures
            r == self.key,
    {
        self.key
    }

    /// The program that owns the market account.
    pub fn program_id(&self) -> (r: Address)
        ensures
            r == self.program,
    {
        self.program
    }

    /// The base and quote mints, in that order.
    pub fn get_reserve_mints(&self) -> (r: Vec<Address>)
        ensures
            r@ == seq![self.market.base_mint, self.market.quote_mint],
    {
        let mut v: Vec<Address> = Vec::new();
        v.push(self.market.base_mint);
        v.push(self.market.quote_mint);
        assert(v@ =~= seq![self.market.base_mint, self.market.quote_mint]);
        v
    }

    /// The cached watch-list: every address a refresh must be given.
    pub fn get_accounts_to_update(&self) -> (r: Vec<Address>)
        ensures
            r@ == self.related_accounts@,
    {
        let mut v: Vec<Address> = Vec::new();
        let n: usize = self.related_accounts.len();
        let mut i: usize = 0;
        while i < n
            invariant
                0 <= i <= n,
                n == self.related_accounts@.len(),
                v@.len() == i,
                forall|j: int| 0 <= j < i ==> v@[j] == self.related_accounts@[j],
            decreases n - i,
        {
            v.push(self.related_accounts[i]);
            i = i + 1;
        }
        assert(v@ =~= self.related_accounts@);
        v
    }
}

/// First-match lookup in an address-to-bytes association list.
pub open spec fn lookup_spec(map: Seq<(Address, Vec<u8>)>, a: Address) -> Option<Vec<u8>>
    decreases map.len(),
{
    if map.len() == 0 {
        None
    } else if map[0].0 == a {
        Some(map[0].1)
    } else {
        lookup_spec(map.drop_first(), a)
    }
}

fn find_bytes<'a>(accounts: &'a Vec<(Address, Vec<u8>)>, a: Address) -> (r: Option<&'a Vec<u8>>)
    ensures
        r matches Some(b) ==> lookup_spec(accounts@, a) == Some(*b),
        r is None <==> lookup_spec(accounts@, a) is None,
{
    let n: usize = accounts.len();
    let mut i: usize = 0;
    proof {
        assert(accounts@.skip(0) =~= accounts@);
    }
    while i < n
        invariant
            0 <= i <= n,
            n == accounts@.len(),
            lookup_spec(accounts@, a) == lookup_spec(accounts@.skip(i as int), a),
        decreases n - i,
    {
        proof {
            assert(accounts@.skip(i as int)[0] == accounts@[i as int]);
            assert(accounts@.skip(i as int).drop_first() =~= accounts@.skip(i as int + 1));
        }
        if accounts[i].0 == a {
            return Some(&accounts[i].1);
        }
        i = i + 1;
    }
    proof {
        assert(accounts@.skip(n as int) =~= Seq::<(Address, Vec<u8>)>::empty());
    }
    None
}

/// The feed to use for one configured oracle slot: nothing when no oracle
/// is configured, otherwise that oracle's decoded account, which must be
/// present and well formed.
pub open spec fn oracle_feed_lookup_spec(
    map: Seq<(Address, Vec<u8>)>,
    cfg: Option<Address>,
) -> Result<Option<OracleFeed>, MarketError> {
    match cfg {
        None => Ok(None),
        Some(addr) => match lookup_spec(map, addr) {
            None => Err(MarketError::MissingAccount),
            Some(b) => if oracle_bytes_wf(b@) {
                Ok(Some(feed_of(b@)))
            } else {
                Err(MarketError::Decode)
            },
        },
    }
}

fn oracle_feed_lookup(accounts: &Vec<(Address, Vec<u8>)>, cfg: Option<Address>) -> (r: Result<
    Option<OracleFeed>,
    MarketError,
>)
    ensures
        r == oracle_feed_lookup_spec(accounts@, cfg),
        r matches Ok(f) ==> (f matches Some(ff) ==> ff.wf()),
{
    match cfg {
        None => Ok(None),
        Some(addr) => match find_bytes(accounts, addr) {
            None => Err(MarketError::MissingAccount),
            Some(b) => match decode_oracle_feed(b) {
                Ok(f) => Ok(Some(f)),
                Err(e) => Err(e),
            },
        },
    }
}

/// What one refresh computes, before it is committed.
pub struct RefreshOut {
    pub bids_orders: Seq<Order>,
    pub asks_orders: Seq<Order>,
    pub events: Seq<PendingEvent>,
    pub slot: u64,
    pub timestamp: u64,
    pub oracle_price: Option<i128>,
}

/// The outcome of a refresh against an account map: either every tracked
/// account is present and decodes — giving the new book sides, event
/// heap, clock values, and derived oracle price — or the error the first
/// failing step reports.
pub open spec fn refresh_spec(v: OpenBookMarket, map: Seq<(Address, Vec<u8>)>) -> Result<
    RefreshOut,
    MarketError,
> {
    let m = v.market;
    match lookup_spec(map, m.bids) {
        None => Err(MarketError::MissingAccount),
        Some(bids_b) => if !book_bytes_wf(bids_b@, Side::Bid) {
            Err(MarketError::Decode)
        } else {
            match lookup_spec(map, m.asks) {
                None => Err(MarketError::MissingAccount),
                Some(asks_b) => if !book_bytes_wf(asks_b@, Side::Ask) {
                    Err(MarketError::Decode)
                } else {
                    match lookup_spec(map, m.event_heap) {
                        None => Err(MarketError::MissingAccount),
                        Some(heap_b) => if !heap_bytes_wf(heap_b@) {
                            Err(MarketError::Decode)
                        } else if lookup_spec(map, m.market_base_vault) is None || lookup_spec(
                            map,
                            m.market_quote_vault,
                        ) is None {
                            Err(MarketError::MissingAccount)
                        } else {
                            match lookup_spec(map, clock_address()) {
                                None => Err(MarketError::MissingAccount),
                                Some(clock_b) => if !clock_bytes_wf(clock_b@) {
                                    Err(MarketError::Decode)
                                } else {
                                    match oracle_feed_lookup_spec(map, m.oracle_a) {
                                        Err(e) => Err(e),
                                        Ok(fa) => match oracle_feed_lookup_spec(map, m.oracle_b) {
                                            Err(e) => Err(e),
                                            Ok(fb) => match oracle_price_spec(
                                                fa,
                                                fb,
                                                clock_slot_of(clock_b@),
                                            ) {
                                                Err(e) => Err(e),
                                                Ok(op) => Ok(
                                                    RefreshOut {
                                                        bids_orders: orders_of(bids_b@),
                                                        asks_orders: orders_of(asks_b@),
                                                        events: events_of(heap_b@),
                                                        slot: clock_slot_of(clock_b@),
                                                        timestamp: clock_timestamp_of(clock_b@),
                                                        oracle_price: op,
                                                    },
                                                ),
                                            },
                                        },
                                    }
                                },
                            }
                        },
                    }
                },
            }
        },
    }
}

impl OpenBookMarket {
    /// Refreshes the live state from a full account map.  The refresh is
    /// all-or-nothing: on any missing address, decode failure, or oracle
    /// derivation failure, every field keeps its pre-call value.
    pub fn update(&mut self, accounts: &Vec<(Address, Vec<u8>)>) -> (r: Result<(), MarketError>)
        requires
            old(self).wf(),
        ensures
            final(self).wf(),
            final(self).market == old(self).market,
            final(self).key == old(self).key,
            final(self).program == old(self).program,
            final(self).related_accounts == old(self).related_accounts,
            r is Ok <==> refresh_spec(*old(self), accounts@) is Ok,
            r matches Err(e) ==> *final(self) == *old(self) && (refresh_spec(
                *old(self),
                accounts@,
            ) matches Err(e2) && e == e2),
            r is Ok ==> (refresh_spec(*old(self), accounts@) matches Ok(o) && {
                &&& final(self).bids.orders@ == o.bids_orders
                &&& final(self).asks.orders@ == o.asks_orders
                &&& final(self).event_heap.events@ == o.events
                &&& final(self).slot == o.slot
                &&& final(self).timestamp == o.timestamp
                &&& final(self).oracle_price == o.oracle_price
            }),
    {
        let bids_bytes = match find_bytes(accounts, self.market.bids) {
            Some(b) => b,
            None => { return Err(MarketError::MissingAccount) },
        };
        let new_bids = match decode_book_side(bids_bytes, Side::Bid) {
            Ok(x) => x,
            Err(e) => { return Err(e) },
        };
        let asks_bytes = match find_bytes(accounts, self.market.asks) {
            Some(b) => b,
            None => { return Err(MarketError::MissingAccount) },
        };
        let new_asks = match decode_book_side(asks_bytes, Side::Ask) {
            Ok(x) => x,
            Err(e) => { return Err(e) },
        };
        let heap_bytes = match find_bytes(accounts, self.market.event_heap) {
            Some(b) => b,
            None => { return Err(MarketError::MissingAccount) },
        };
        let new_heap = match decode_event_heap(heap_bytes) {
            Ok(x) => x,
            Err(e) => { return Err(e) },
        };
        // the vaults are tracked and must be present, though nothing of
        // their contents is read here
        if find_bytes(accounts, self.market.market_base_vault).is_none() || find_bytes(
            accounts,
            self.market.market_quote_vault,
        ).is_none() {
            return Err(MarketError::MissingAccount);
        }
        let clock_bytes = match find_bytes(accounts, clock_address_value()) {
            Some(b) => b,
            None => { return Err(MarketError::MissingAccount) },
        };
        let (new_slot, new_timestamp) = match decode_clock(clock_bytes) {
            Ok(c) => c,
            Err(e) => { return Err(e) },
        };
        let feed_a = match oracle_feed_lookup(accounts, self.market.oracle_a) {
            Ok(f) => f,
            Err(e) => { return Err(e) },
        };
        let feed_b = match oracle_feed_lookup(accounts, self.market.oracle_b) {
            Ok(f) => f,
            Err(e) => { return Err(e) },
        };
        let new_oracle_price = match derive_oracle_price(feed_a, feed_b, new_slot) {
            Ok(p) => p,
            Err(e) => { return Err(e) },
        };
        self.bids = new_bids;
        self.asks = new_asks;
        self.event_heap = new_heap;
        self.slot = new_slot;
        self.timestamp = new_timestamp;
        self.oracle_price = new_oracle_price;
        Ok(())
    }
}

/// The external-facing quote: the amounts actually moved, the fee (always
/// quote-denominated), and the liquidity-sufficiency flag.
#[derive(Clone, Copy, Debug, PartialEq, Eq, Structural)]
pub struct Quote {
    pub in_amount: u64,
    pub out_amount: u64,
    pub fee_mint: Address,
    pub fee_amount: u64,
    pub not_enough_liquidity: bool,
}

/// The account list and direction of one settlement instruction.
#[derive(Clone, Debug, PartialEq, Eq)]
pub struct SwapAndAccountMetas {
    pub side: Side,
    pub account_metas: Vec<AccountMeta>,
}

/// The peg-limit rule for one simulation: open when no oracle is
/// configured, closed when one is configured but its price is absent, and
/// the oracle-derived window otherwise.
pub open spec fn peg_rule_spec(m: Market, oracle_price: Option<i128>) -> Result<
    PegRule,
    MarketError,
> {
    if m.oracle_a is None && m.oracle_b is None {
        Ok(PegRule::Open)
    } else {
        match oracle_price {
            None => Ok(PegRule::Closed),
            Some(p) => match peg_window_spec(p, m) {
                Ok(w) => Ok(PegRule::Window { lo: w.0, hi: w.1 }),
                Err(e) => Err(e),
            },
        }
    }
}

fn peg_rule(m: &Market, oracle_price: Option<i128>) -> (r: Result<PegRule, MarketError>)
    requires
        m.wf(),
        oracle_price matches Some(p) ==> 0 < p < ORACLE_PRICE_LIMIT,
    ensures
        r == peg_rule_spec(*m, oracle_price),
{
    let no_oracle = m.oracle_a.is_none() && m.oracle_b.is_none();
    if no_oracle {
        Ok(PegRule::Open)
    } else {
        match oracle_price {
            None => Ok(PegRule::Closed),
            Some(p) => match peg_window(p, m) {
                Ok(w) => Ok(PegRule::Window { lo: w.0, hi: w.1 }),
                Err(e) => Err(e),
            },
        }
    }
}

/// The base-lot ceiling handed to the simulator for a given side: maximal
/// when bidding, the input floored into base lots when asking.
pub open spec fn base_ceiling_spec(m: Market, side: Side, input: int) -> int {
    match side {
        Side::Bid => m.max_base_lots_spec(),
        Side::Ask => input / (m.base_lot_size as int),
    }
}

/// The quote-lot ceiling handed to the simulator: the input divided into
/// quote lots with the remainder rounded up into extra lots when bidding,
/// maximal when asking.
pub open spec fn quote_ceiling_spec(m: Market, side: Side, input: int) -> int {
    match side {
        Side::Bid => input / (m.quote_lot_size as int) + input % (m.quote_lot_size as int),
        Side::Ask => m.max_quote_lots_spec(),
    }
}

/// The quote for an exact-input swap against the current snapshot: side
/// from the input mint, ceilings per side, one simulation, and the
/// side-dependent remapping of the simulated amounts.  Buying base costs
/// the matched quote notional less the fee; selling base yields the
/// matched quote notional plus the fee.
pub open spec fn quote_spec(v: OpenBookMarket, input_mint: Address, in_amount: u64) -> Result<
    Quote,
    MarketError,
> {
    if in_amount > 0x7fffffffffffffff {
        Err(MarketError::Overflow)
    } else {
        let input = in_amount as int;
        let side = if input_mint == v.market.quote_mint {
            Side::Bid
        } else {
            Side::Ask
        };
        match peg_rule_spec(v.market, v.oracle_price) {
            Err(e) => Err(e),
            Ok(rule) => {
                let orders = if side is Bid {
                    v.asks.orders@
                } else {
                    v.bids.orders@
                };
                match simulate_spec(
                    orders,
                    v.event_heap.events@,
                    side,
                    base_ceiling_spec(v.market, side, input),
                    quote_ceiling_spec(v.market, side, input),
                    v.market,
                    rule,
                    v.timestamp,
                ) {
                    Err(e) => Err(e),
                    Ok(o) => Ok(
                        Quote {
                            in_amount: (if side is Bid {
                                o.quote_native - o.fee
                            } else {
                                o.base_native
                            }) as u64,
                            out_amount: (if side is Bid {
                                o.base_native
                            } else {
                                o.quote_native + o.fee
                            }) as u64,
                            fee_mint: v.market.quote_mint,
                            fee_amount: o.fee as u64,
                            not_enough_liquidity: o.not_enough_liquidity,
                        },
                    ),
                }
            },
        }
    }
}

impl OpenBookMarket {
    fn ceilings(&self, side: Side, input: i64) -> (r: (i64, i64))
        requires
            self.wf(),
            0 <= input,
        ensures
            r.0 as int == base_ceiling_spec(self.market, side, input as int),
            r.1 as int == quote_ceiling_spec(self.market, side, input as int),
            0 <= r.0,
            0 <= r.1,
    {
        match side {
            Side::Bid => {
                let qls = self.market.quote_lot_size;
                let qd: u64 = (input as u64) / (qls as u64);
                let rm: u64 = (input as u64) % (qls as u64);
                proof {
                    vstd::arithmetic::div_mod::lemma_fundamental_div_mod(
                        input as int,
                        qls as int,
                    );
                    vstd::arithmetic::div_mod::lemma_mod_bound(input as int, qls as int);
                    crate::sim::lemma_div_bounds(input as int, qls as int);
                    vstd::arithmetic::mul::lemma_mul_inequality(
                        1,
                        qls as int,
                        (input as int) / (qls as int),
                    );
                    assert((input as int) / (qls as int) + (input as int) % (qls as int)
                        <= input as int);
                }
                (self.market.max_base_lots(), (qd + rm) as i64)
            },
            Side::Ask => {
                let bls = self.market.base_lot_size;
                proof {
                    crate::sim::lemma_div_bounds(input as int, bls as int);
                }
                (((input as u64) / (bls as u64)) as i64, self.market.max_quote_lots())
            },
        }
    }

    /// Quotes an exact-input swap of `in_amount` of `input_mint` against
    /// the current snapshot, without mutating it.
    pub fn quote(&self, input_mint: Address, in_amount: u64) -> (r: Result<Quote, MarketError>)
        requires
            self.wf(),
        ensures
            r == quote_spec(*self, input_mint, in_amount),
    {
        if in_amount > 0x7fffffffffffffffu64 {
            return Err(MarketError::Overflow);
        }
        let input: i64 = in_amount as i64;
        let is_bid = input_mint == self.market.quote_mint;
        let side = if is_bid {
            Side::Bid
        } else {
            Side::Ask
        };
        let rule = match peg_rule(&self.market, self.oracle_price) {
            Ok(x) => x,
            Err(e) => { return Err(e) },
        };
        let (max_base, max_quote) = self.ceilings(side, input);
        let book = if is_bid {
            &self.asks
        } else {
            &self.bids
        };
        let amounts = match simulate_take(
            book,
            &self.event_heap,
            side,
            max_base,
            max_quote,
            &self.market,
            rule,
            self.timestamp,
        ) {
            Ok(a) => a,
            Err(e) => { return Err(e) },
        };
        let (in_native, out_native) = if is_bid {
            (
                (amounts.total_quote_taken_native - amounts.fee) as u64,
                amounts.total_base_taken_native as u64,
            )
        } else {
            (
                amounts.total_base_taken_native as u64,
                (amounts.total_quote_taken_native as u64) + (amounts.fee as u64),
            )
        };
        Ok(
            Quote {
                in_amount: in_native,
                out_amount: out_native,
                fee_mint: self.market.quote_mint,
                fee_amount: amounts.fee as u64,
                not_enough_liquidity: amounts.not_enough_liquidity,
            },
        )
    }
}

/// Identical snapshot, identical parameters: the quote is bit-identical —
/// quoting is a pure function of the snapshot and its arguments.
pub proof fn lemma_quote_idempotent(
    v1: OpenBookMarket,
    v2: OpenBookMarket,
    input_mint: Address,
    in_amount: u64,
)
    requires
        v1 == v2,
    ensures
        quote_spec(v1, input_mint, in_amount) == quote_spec(v2, input_mint, in_amount),
{
}

/// With no resting asks at all, quoting any positive representable quote
/// input for base yields zero out and the insufficiency flag.  (Inputs
/// above the signed 64-bit domain are rejected with the overflow error
/// before any walk.)
pub proof fn lemma_empty_asks_insufficient(v: OpenBookMarket, in_amount: u64)
    requires
        v.wf(),
        v.asks.orders@.len() == 0,
        0 < in_amount <= 0x7fffffffffffffff,
    ensures
        quote_spec(v, v.market.quote_mint, in_amount) matches Ok(q) ==> q.out_amount == 0
            && q.not_enough_liquidity,
{
    let input = in_amount as int;
    let qls = v.market.quote_lot_size as int;
    crate::sim::lemma_div_bounds(input, qls);
    vstd::arithmetic::div_mod::lemma_fundamental_div_mod(input, qls);
    vstd::arithmetic::div_mod::lemma_mod_bound(input, qls);
    if input / qls == 0 {
        assert(input % qls == input);
    }
    let mq = quote_ceiling_spec(v.market, Side::Bid, input);
    assert(mq >= 1);
    match peg_rule_spec(v.market, v.oracle_price) {
        Ok(rule) => {
            let mb = base_ceiling_spec(v.market, Side::Bid, input);
            let fills = walk_fills(v.asks.orders@, mb, mq, rule, v.timestamp);
            assert(fills == Seq::<Fill>::empty());
            assert(sum_quote(fills) == 0);
            assert(fee_of(0, v.market.taker_fee as int) == 0);
        },
        Err(e) => {},
    }
}

/// An account reference the settlement instruction only writes.
pub open spec fn writable_meta(a: Address) -> AccountMeta {
    AccountMeta { address: a, is_signer: false, is_writable: true }
}

/// An account reference the settlement instruction only reads.
pub open spec fn readonly_meta(a: Address) -> AccountMeta {
    AccountMeta { address: a, is_signer: false, is_writable: false }
}

/// The configured oracle accounts, read-only, in configuration order.
pub open spec fn oracle_metas(m: Market) -> Seq<AccountMeta> {
    let a_part = match m.oracle_a {
        Some(a) => seq![readonly_meta(a)],
        None => Seq::<AccountMeta>::empty(),
    };
    let b_part = match m.oracle_b {
        Some(b) => seq![readonly_meta(b)],
        None => Seq::<AccountMeta>::empty(),
    };
    a_part + b_part
}

/// The fixed account set of the settlement instruction, before the
/// dynamically discovered crank accounts.
pub open spec fn fixed_swap_metas(
    v: OpenBookMarket,
    user_base: Address,
    user_quote: Address,
    authority: Address,
) -> Seq<AccountMeta> {
    seq![
        (AccountMeta { address: authority, is_signer: true, is_writable: true }),
        (AccountMeta { address: authority, is_signer: true, is_writable: true }),
        writable_meta(v.key),
        readonly_meta(v.market.market_authority),
        writable_meta(v.market.bids),
        writable_meta(v.market.asks),
        writable_meta(user_base),
        writable_meta(user_quote),
        writable_meta(v.market.market_base_vault),
        writable_meta(v.market.market_quote_vault),
        writable_meta(v.market.event_heap),
    ] + oracle_metas(v.market) + seq![
        readonly_meta(token_program_address()),
        readonly_meta(system_program_address()),
    ]
}

/// Each discovered crank account as a writable, non-signing reference.
pub open spec fn remaining_metas(accounts: Seq<Address>) -> Seq<AccountMeta> {
    accounts.map_values(|ad: Address| writable_meta(ad))
}

/// The settlement account list for an exact-input swap: the side, and the
/// fixed set followed by the walk's crank accounts in discovery order.
pub open spec fn swap_spec(
    v: OpenBookMarket,
    source_mint: Address,
    in_amount: u64,
    user_source: Address,
    user_destination: Address,
    authority: Address,
) -> Result<(Side, Seq<AccountMeta>), MarketError> {
    if in_amount > 0x7fffffffffffffff {
        Err(MarketError::Overflow)
    } else {
        let input = in_amount as int;
        let is_bid = source_mint == v.market.quote_mint;
        let side = if is_bid {
            Side::Bid
        } else {
            Side::Ask
        };
        let user_quote = if is_bid {
            user_source
        } else {
            user_destination
        };
        let user_base = if is_bid {
            user_destination
        } else {
            user_source
        };
        match peg_rule_spec(v.market, v.oracle_price) {
            Err(e) => Err(e),
            Ok(rule) => {
                let orders = if side is Bid {
                    v.asks.orders@
                } else {
                    v.bids.orders@
                };
                match simulate_spec(
                    orders,
                    v.event_heap.events@,
                    side,
                    base_ceiling_spec(v.market, side, input),
                    quote_ceiling_spec(v.market, side, input),
                    v.market,
                    rule,
                    v.timestamp,
                ) {
                    Err(e) => Err(e),
                    Ok(o) => Ok(
                        (
                            side,
                            fixed_swap_metas(v, user_base, user_quote, authority)
                                + remaining_metas(o.accounts),
                        ),
                    ),
                }
            },
        }
    }
}

impl OpenBookMarket {
    /// Assembles the account list of the settlement instruction for an
    /// exact-input swap: the fixed set, then every crank account the
    /// simulated walk discovered, in discovery order.
    #[verifier::loop_isolation(false)]
    pub fn get_swap_and_account_metas(
        &self,
        source_mint: Address,
        in_amount: u64,
        user_source: Address,
        user_destination: Address,
        authority: Address,
    ) -> (r: Result<SwapAndAccountMetas, MarketError>)
        requires
            self.wf(),
        ensures
            ({
                let s = swap_spec(
                    *self,
                    source_mint,
                    in_amount,
                    user_source,
                    user_destination,
                    authority,
                );
                &&& (r is Ok <==> s is Ok)
                &&& (r matches Ok(sa) ==> (s matches Ok(o) && sa.side == o.0 && sa.account_metas@
                    == o.1))
                &&& (r matches Err(e) ==> (s matches Err(e2) && e == e2))
            }),
    {
        if in_amount > 0x7fffffffffffffffu64 {
            return Err(MarketError::Overflow);
        }
        let input: i64 = in_amount as i64;
        let is_bid = source_mint == self.market.quote_mint;
        let side = if is_bid {
            Side::Bid
        } else {
            Side::Ask
        };
        let user_quote = if is_bid {
            user_source
        } else {
            user_destination
        };
        let user_base = if is_bid {
            user_destination
        } else {
            user_source
        };
        let rule = match peg_rule(&self.market, self.oracle_price) {
            Ok(x) => x,
            Err(e) => { return Err(e) },
        };
        let (max_base, max_quote) = self.ceilings(side, input);
        let book = if is_bid {
            &self.asks
        } else {
            &self.bids
        };
        let amounts = match simulate_take(
            book,
            &self.event_heap,
            side,
            max_base,
            max_quote,
            &self.market,
            rule,
            self.timestamp,
        ) {
            Ok(a) => a,
            Err(e) => { return Err(e) },
        };
        let mut metas: Vec<AccountMeta> = Vec::new();
        metas.push(AccountMeta { address: authority, is_signer: true, is_writable: true });
        metas.push(AccountMeta { address: authority, is_signer: true, is_writable: true });
        metas.push(AccountMeta { address: self.key, is_signer: false, is_writable: true });
        metas.push(
            AccountMeta { address: self.market.market_authority, is_signer: false, is_writable: false },
        );
        metas.push(AccountMeta { address: self.market.bids, is_signer: false, is_writable: true });
        metas.push(AccountMeta { address: self.market.asks, is_signer: false, is_writable: true });
        metas.push(AccountMeta { address: user_base, is_signer: false, is_writable: true });
        metas.push(AccountMeta { address: user_quote, is_signer: false, is_writable: true });
        metas.push(
            AccountMeta { address: self.market.market_base_vault, is_signer: false, is_writable: true },
        );
        metas.push(
            AccountMeta { address: self.market.market_quote_vault, is_signer: false, is_writable: true },
        );
        metas.push(
            AccountMeta { address: self.market.event_heap, is_signer: false, is_writable: true },
        );
        if let Some(a) = self.market.oracle_a {
            metas.push(AccountMeta { address: a, is_signer: false, is_writable: false });
        }
        if let Some(b) = self.market.oracle_b {
            metas.push(AccountMeta { address: b, is_signer: false, is_writable: false });
        }
        metas.push(
            AccountMeta { address: token_program_address_value(), is_signer: false, is_writable: false },
        );
        metas.push(
            AccountMeta { address: system_program_address_value(), is_signer: false, is_writable: false },
        );
        let ghost fixed = fixed_swap_metas(*self, user_base, user_quote, authority);
        assert(metas@ =~= fixed);
        let n: usize = amounts.crank_accounts.len();
        let mut i: usize = 0;
        while i < n
            invariant
                0 <= i <= n,
                metas@.len() == fixed.len() + i,
                metas@ =~= fixed + remaining_metas(amounts.crank_accounts@.take(i as int)),
            decreases n - i,
        {
            let a = amounts.crank_accounts[i];
            metas.push(AccountMeta { address: a, is_signer: false, is_writable: true });
            proof {
                assert(amounts.crank_accounts@.take(i as int + 1) =~= amounts.crank_accounts@.take(
                    i as int,
                ).push(a));
                assert(metas@ =~= fixed + remaining_metas(
                    amounts.crank_accounts@.take(i as int + 1),
                ));
            }
            i = i + 1;
        }
        proof {
            assert(amounts.crank_accounts@.take(n as int) =~= amounts.crank_accounts@);
        }
        Ok(SwapAndAccountMetas { side, account_metas: metas })
    }
}

} // verus!
