use vstd::prelude::*;
use crate::addr::{contains_address, Address};
use crate::book::{order_valid, orders_valid, BookSide, Order, Side};
use crate::errors::MarketError;
use crate::heap::{EventHeap, PendingEvent};
use crate::market::Market;
use crate::oracle::FIXED_POINT_ONE;

verus! {

/// The peg-limit rule in force for one simulation: no oracle configured
/// (every price admissible), an oracle configured but its price absent
/// (no price admissible), or a window of admissible prices derived from
/// the oracle price, as fixed-point price-lot bounds.
#[derive(Clone, Copy, Debug, PartialEq, Eq, Structural)]
pub enum PegRule {
    Open,
    Closed,
    Window { lo: i128, hi: i128 },
}

/// One matched resting order of a simulated walk: who made it, how many
/// base lots were taken from it, and at what price.
pub struct Fill {
    pub owner: Address,
    pub base_lots: int,
    pub price_lots: int,
}

pub open spec fn min_int(a: int, b: int) -> int {
    if a <= b {
        a
    } else {
        b
    }
}

/// Whether a resting order is still live at `now`.
pub open spec fn order_live(o: Order, now: u64) -> bool {
    o.expiry == 0 || now < o.expiry
}

/// Whether an order price (in lots) lies inside the peg-limit window.
pub open spec fn in_window(price_lots: int, rule: PegRule) -> bool {
    match rule {
        PegRule::Open => true,
        PegRule::Closed => false,
        PegRule::Window { lo, hi } => lo <= price_lots * FIXED_POINT_ONE <= hi,
    }
}

/// The quantity matched from one resting order: the least of the order's
/// remaining quantity, the remaining base-lot ceiling, and the remaining
/// quote-lot ceiling converted at the order's price.
pub open spec fn fill_amount(o: Order, rem_base: int, rem_quote: int) -> int {
    min_int(min_int(o.quantity_lots as int, rem_base), rem_quote / (o.price_lots as int))
}

/// Whether the walk takes anything from this order.
pub open spec fn order_takes(
    o: Order,
    rem_base: int,
    rem_quote: int,
    rule: PegRule,
    now: u64,
) -> bool {
    order_live(o, now) && in_window(o.price_lots as int, rule) && fill_amount(
        o,
        rem_base,
        rem_quote,
    ) > 0
}

/// The price-time-priority walk: orders are visited in stored
/// (best-to-worst) order; an expired, peg-excluded, or unfillable order is
/// skipped whole, any other order is filled by `fill_amount` and both
/// ceilings shrink accordingly.
pub open spec fn walk_fills(
    orders: Seq<Order>,
    rem_base: int,
    rem_quote: int,
    rule: PegRule,
    now: u64,
) -> Seq<Fill>
    decreases orders.len(),
{
    if orders.len() == 0 {
        Seq::empty()
    } else {
        let o = orders[0];
        if order_takes(o, rem_base, rem_quote, rule, now) {
            let f = fill_amount(o, rem_base, rem_quote);
            seq![Fill { owner: o.owner, base_lots: f, price_lots: o.price_lots as int }]
                + walk_fills(
                orders.drop_first(),
                rem_base - f,
                rem_quote - f * (o.price_lots as int),
                rule,
                now,
            )
        } else {
            walk_fills(orders.drop_first(), rem_base, rem_quote, rule, now)
        }
    }
}

/// Total base lots taken over a set of fills.
pub open spec fn sum_base(fills: Seq<Fill>) -> int
    decreases fills.len(),
{
    if fills.len() == 0 {
        0
    } else {
        fills[0].base_lots + sum_base(fills.drop_first())
    }
}

/// Total quote lots taken over a set of fills: the exact integer sum of
/// base lots times price for each matched order.
pub open spec fn sum_quote(fills: Seq<Fill>) -> int
    decreases fills.len(),
{
    if fills.len() == 0 {
        0
    } else {
        fills[0].base_lots * fills[0].price_lots + sum_quote(fills.drop_first())
    }
}

/// The maker of each fill, in walk order.
pub open spec fn fill_owners(fills: Seq<Fill>) -> Seq<Address> {
    fills.map_values(|f: Fill| f.owner)
}

/// Appends each address of `xs` that is not yet present, in order.
pub open spec fn dedup_append(acc: Seq<Address>, xs: Seq<Address>) -> Seq<Address>
    decreases xs.len(),
{
    if xs.len() == 0 {
        acc
    } else {
        dedup_append(
            if acc.contains(xs[0]) {
                acc
            } else {
                acc.push(xs[0])
            },
            xs.drop_first(),
        )
    }
}

/// Appends the crank account of each pending event whose maker was touched
/// by the walk, skipping accounts already present.
pub open spec fn append_event_accounts(
    acc: Seq<Address>,
    touched: Seq<Address>,
    events: Seq<PendingEvent>,
) -> Seq<Address>
    decreases events.len(),
{
    if events.len() == 0 {
        acc
    } else {
        append_event_accounts(
            if touched.contains(events[0].maker) && !acc.contains(events[0].account) {
                acc.push(events[0].account)
            } else {
                acc
            },
            touched,
            events.drop_first(),
        )
    }
}

/// The ordered, duplicate-free list of accounts a settlement instruction
/// must reference: the makers touched by the walk, then the crank account
/// of every queued event belonging to a touched maker.
pub open spec fn crank_accounts(fills: Seq<Fill>, events: Seq<PendingEvent>) -> Seq<Address> {
    let makers = dedup_append(Seq::empty(), fill_owners(fills));
    append_event_accounts(makers, makers, events)
}

/// The taker fee on a quote-native amount, rounded up.
pub open spec fn fee_of(quote_native: int, taker_fee: int) -> int {
    (quote_native * taker_fee + 999999) / 1000000
}

/// The liquidity-sufficiency flag: the constraining ceiling for the side
/// was not consumed in full.
pub open spec fn liquidity_exhausted(
    side: Side,
    max_base: int,
    max_quote: int,
    fills: Seq<Fill>,
) -> bool {
    match side {
        Side::Bid => sum_quote(fills) < max_quote,
        Side::Ask => sum_base(fills) < max_base,
    }
}

/// The full outcome of one simulation, in unbounded arithmetic.
pub struct SimOutcome {
    pub base_lots: int,
    pub quote_lots: int,
    pub base_native: int,
    pub quote_native: int,
    pub fee: int,
    pub not_enough_liquidity: bool,
    pub accounts: Seq<Address>,
}

/// What a simulation returns: the walk's lot totals, their native-unit
/// conversions (an overflow fault if either cannot be represented), the
/// taker fee on the matched quote notional, the sufficiency flag, and the
/// crank account list.
pub open spec fn simulate_spec(
    orders: Seq<Order>,
    events: Seq<PendingEvent>,
    side: Side,
    max_base: int,
    max_quote: int,
    m: Market,
    rule: PegRule,
    now: u64,
) -> Result<SimOutcome, MarketError> {
    let fills = walk_fills(orders, max_base, max_quote, rule, now);
    let bl = sum_base(fills);
    let ql = sum_quote(fills);
    let bn = bl * (m.base_lot_size as int);
    let qn = ql * (m.quote_lot_size as int);
    if bn > 0x7fffffffffffffff || qn > 0x7fffffffffffffff {
        Err(MarketError::Overflow)
    } else {
        Ok(
            SimOutcome {
                base_lots: bl,
                quote_lots: ql,
                base_native: bn,
                quote_native: qn,
                fee: fee_of(qn, m.taker_fee as int),
                not_enough_liquidity: liquidity_exhausted(side, max_base, max_quote, fills),
                accounts: crank_accounts(fills, events),
            },
        )
    }
}

/// The economic result of one simulation, in native 64-bit arithmetic.
#[derive(Clone, Debug, PartialEq, Eq)]
pub struct Amounts {
    pub total_base_lots_taken: i64,
    pub total_quote_lots_taken: i64,
    pub total_base_taken_native: i64,
    pub total_quote_taken_native: i64,
    pub fee: i64,
    pub not_enough_liquidity: bool,
    pub crank_accounts: Vec<Address>,
}

/// Whether an executable result reports exactly a simulation outcome.
pub open spec fn amounts_match(a: Amounts, o: SimOutcome) -> bool {
    &&& a.total_base_lots_taken == o.base_lots
    &&& a.total_quote_lots_taken == o.quote_lots
    &&& a.total_base_taken_native == o.base_native
    &&& a.total_quote_taken_native == o.quote_native
    &&& a.fee == o.fee
    &&& a.not_enough_liquidity == o.not_enough_liquidity
    &&& a.crank_accounts@ == o.accounts
}

pub(crate) proof fn lemma_div_bounds(rq: int, p: int)
    requires
        0 <= rq,
        1 <= p,
    ensures
        0 <= rq / p,
        (rq / p) * p <= rq,
        rq / p <= rq,
{
    vstd::arithmetic::div_mod::lemma_fundamental_div_mod(rq, p);
    vstd::arithmetic::div_mod::lemma_mod_bound(rq, p);
    assert(p * (rq / p) == rq - rq % p);
    if rq / p < 0 {
        vstd::arithmetic::mul::lemma_mul_inequality(rq / p, -1, p);
        assert(false);
    }
    vstd::arithmetic::mul::lemma_mul_inequality(1, p, rq / p);
}

/// Bounds on the quantity matched from one valid order.
proof fn lemma_fill_bounds(o: Order, rem_base: int, rem_quote: int)
    requires
        order_valid(o),
        0 <= rem_base,
        0 <= rem_quote,
    ensures
        0 <= fill_amount(o, rem_base, rem_quote) <= rem_base,
        fill_amount(o, rem_base, rem_quote) * (o.price_lots as int) <= rem_quote,
{
    let p = o.price_lots as int;
    let f = fill_amount(o, rem_base, rem_quote);
    lemma_div_bounds(rem_quote, p);
    vstd::arithmetic::mul::lemma_mul_inequality(f, rem_quote / p, p);
}

proof fn lemma_sum_base_push(fills: Seq<Fill>, f: Fill)
    ensures
        sum_base(fills.push(f)) == sum_base(fills) + f.base_lots,
    decreases fills.len(),
{
    if fills.len() == 0 {
        assert(fills.push(f).drop_first() =~= Seq::<Fill>::empty());
        assert(fills.push(f)[0] == f);
        assert(sum_base(fills.push(f)) == f.base_lots + sum_base(Seq::<Fill>::empty()));
    } else {
        assert(fills.push(f).drop_first() =~= fills.drop_first().push(f));
        lemma_sum_base_push(fills.drop_first(), f);
        assert(fills.push(f)[0] == fills[0]);
        assert(sum_base(fills.push(f)) == fills[0].base_lots + sum_base(
            fills.drop_first().push(f),
        ));
    }
}

proof fn lemma_sum_quote_push(fills: Seq<Fill>, f: Fill)
    ensures
        sum_quote(fills.push(f)) == sum_quote(fills) + f.base_lots * f.price_lots,
    decreases fills.len(),
{
    if fills.len() == 0 {
        assert(fills.push(f).drop_first() =~= Seq::<Fill>::empty());
        assert(fills.push(f)[0] == f);
        assert(sum_quote(fills.push(f)) == f.base_lots * f.price_lots + sum_quote(
            Seq::<Fill>::empty(),
        ));
    } else {
        assert(fills.push(f).drop_first() =~= fills.drop_first().push(f));
        lemma_sum_quote_push(fills.drop_first(), f);
        assert(fills.push(f)[0] == fills[0]);
        assert(sum_quote(fills.push(f)) == fills[0].base_lots * fills[0].price_lots + sum_quote(
            fills.drop_first().push(f),
        ));
    }
}

proof fn lemma_orders_valid_drop(orders: Seq<Order>)
    requires
        orders_valid(orders),
        orders.len() > 0,
    ensures
        orders_valid(orders.drop_first()),
{
    assert forall|i: int| 0 <= i < orders.drop_first().len() implies order_valid(
        #[trigger] orders.drop_first()[i],
    ) by {
        assert(orders.drop_first()[i] == orders[i + 1]);
    }
}

/// For every valid book and non-negative pair of ceilings, the walk never
/// takes more base lots than the base ceiling nor more quote lots than the
/// quote ceiling.
pub proof fn lemma_walk_within_ceilings(
    orders: Seq<Order>,
    rem_base: int,
    rem_quote: int,
    rule: PegRule,
    now: u64,
)
    requires
        orders_valid(orders),
        0 <= rem_base,
        0 <= rem_quote,
    ensures
        0 <= sum_base(walk_fills(orders, rem_base, rem_quote, rule, now)) <= rem_base,
        0 <= sum_quote(walk_fills(orders, rem_base, rem_quote, rule, now)) <= rem_quote,
    decreases orders.len(),
{
    if orders.len() == 0 {
    } else {
        let o = orders[0];
        assert(order_valid(o));
        lemma_orders_valid_drop(orders);
        if order_takes(o, rem_base, rem_quote, rule, now) {
            let f = fill_amount(o, rem_base, rem_quote);
            let p = o.price_lots as int;
            lemma_fill_bounds(o, rem_base, rem_quote);
            lemma_walk_within_ceilings(
                orders.drop_first(),
                rem_base - f,
                rem_quote - f * p,
                rule,
                now,
            );
            let head = Fill { owner: o.owner, base_lots: f, price_lots: p };
            let rest = walk_fills(orders.drop_first(), rem_base - f, rem_quote - f * p, rule, now);
            assert((seq![head] + rest).drop_first() =~= rest);
            assert((seq![head] + rest)[0] == head);
        } else {
            lemma_walk_within_ceilings(orders.drop_first(), rem_base, rem_quote, rule, now);
        }
    }
}

/// Peg-band exclusion over the filled set: every fill of a walk comes from
/// an order whose price lies inside the window (and takes at least one
/// lot), so an order priced outside the band is never filled, even
/// partially.
pub proof fn lemma_walk_respects_window(
    orders: Seq<Order>,
    rem_base: int,
    rem_quote: int,
    rule: PegRule,
    now: u64,
)
    ensures
        forall|i: int|
            0 <= i < walk_fills(orders, rem_base, rem_quote, rule, now).len() ==> in_window(
                (#[trigger] walk_fills(orders, rem_base, rem_quote, rule, now)[i]).price_lots,
                rule,
            ) && walk_fills(orders, rem_base, rem_quote, rule, now)[i].base_lots >= 1,
    decreases orders.len(),
{
    if orders.len() == 0 {
    } else {
        let o = orders[0];
        let w = walk_fills(orders, rem_base, rem_quote, rule, now);
        if order_takes(o, rem_base, rem_quote, rule, now) {
            let f = fill_amount(o, rem_base, rem_quote);
            let p = o.price_lots as int;
            lemma_walk_respects_window(
                orders.drop_first(),
                rem_base - f,
                rem_quote - f * p,
                rule,
                now,
            );
            let head = Fill { owner: o.owner, base_lots: f, price_lots: p };
            let rest = walk_fills(orders.drop_first(), rem_base - f, rem_quote - f * p, rule, now);
            assert((seq![head] + rest).drop_first() =~= rest);
            assert forall|i: int| 0 <= i < w.len() implies in_window(
                (#[trigger] w[i]).price_lots,
                rule,
            ) && w[i].base_lots >= 1 by {
                if i > 0 {
                    assert(w[i] == rest[i - 1]);
                    assert(in_window(rest[i - 1].price_lots, rule) && rest[i - 1].base_lots >= 1);
                } else {
                    assert(w[0] == head);
                }
            }
        } else {
            lemma_walk_respects_window(orders.drop_first(), rem_base, rem_quote, rule, now);
            let rest = walk_fills(orders.drop_first(), rem_base, rem_quote, rule, now);
            assert(w == rest);
            assert forall|i: int| 0 <= i < w.len() implies in_window(
                (#[trigger] w[i]).price_lots,
                rule,
            ) && w[i].base_lots >= 1 by {
                assert(w[i] == rest[i]);
                assert(in_window(rest[i].price_lots, rule) && rest[i].base_lots >= 1);
            }
        }
    }
}

/// The simulator never reports more base lots than the base ceiling nor
/// more quote lots than the quote ceiling it was given.
pub proof fn lemma_simulation_within_ceilings(
    orders: Seq<Order>,
    events: Seq<PendingEvent>,
    side: Side,
    max_base: int,
    max_quote: int,
    m: Market,
    rule: PegRule,
    now: u64,
)
    requires
        orders_valid(orders),
        0 <= max_base,
        0 <= max_quote,
    ensures
        simulate_spec(orders, events, side, max_base, max_quote, m, rule, now) matches Ok(o) ==> 0
            <= o.base_lots <= max_base && 0 <= o.quote_lots <= max_quote,
{
    lemma_walk_within_ceilings(orders, max_base, max_quote, rule, now);
}

/// The reported quote-lots-taken is exactly the integer sum, over the
/// matched orders, of filled base lots times the order's price: no
/// rounding loss anywhere in the accumulation.
pub proof fn lemma_quote_lots_exact(
    orders: Seq<Order>,
    events: Seq<PendingEvent>,
    side: Side,
    max_base: int,
    max_quote: int,
    m: Market,
    rule: PegRule,
    now: u64,
)
    ensures
        simulate_spec(orders, events, side, max_base, max_quote, m, rule, now) matches Ok(o)
            ==> o.quote_lots == sum_quote(walk_fills(orders, max_base, max_quote, rule, now)),
{
}

proof fn lemma_contains_push(s: Seq<Address>, x: Address, a: Address)
    ensures
        s.push(x).contains(a) <==> (s.contains(a) || a == x),
{
    if s.contains(a) {
        let i = choose|i: int| 0 <= i < s.len() && s[i] == a;
        assert(s.push(x)[i] == a);
    }
    if a == x {
        assert(s.push(x)[s.len() as int] == a);
    }
    if s.push(x).contains(a) && a != x {
        let i = choose|i: int| 0 <= i < s.push(x).len() && s.push(x)[i] == a;
        assert(0 <= i < s.len());
        assert(s[i] == a);
    }
}

proof fn lemma_contains_drop_first(s: Seq<Address>, a: Address)
    requires
        s.len() > 0,
    ensures
        s.contains(a) <==> (s[0] == a || s.drop_first().contains(a)),
{
    if s.contains(a) {
        let i = choose|i: int| 0 <= i < s.len() && s[i] == a;
        if i > 0 {
            assert(s.drop_first()[i - 1] == a);
        }
    }
    if s.drop_first().contains(a) {
        let i = choose|i: int| 0 <= i < s.drop_first().len() && s.drop_first()[i] == a;
        assert(s[i + 1] == a);
    }
}

/// Membership in a deduplicated list is membership in either source.
pub proof fn lemma_dedup_append_elements(acc: Seq<Address>, xs: Seq<Address>)
    ensures
        forall|a: Address|
            #[trigger] dedup_append(acc, xs).contains(a) <==> (acc.contains(a) || xs.contains(a)),
    decreases xs.len(),
{
    if xs.len() == 0 {
    } else {
        let acc2 = if acc.contains(xs[0]) {
            acc
        } else {
            acc.push(xs[0])
        };
        lemma_dedup_append_elements(acc2, xs.drop_first());
        assert forall|a: Address|
            #[trigger] dedup_append(acc, xs).contains(a) <==> (acc.contains(a) || xs.contains(
                a,
            )) by {
            assert(dedup_append(acc, xs) == dedup_append(acc2, xs.drop_first()));
            assert(dedup_append(acc2, xs.drop_first()).contains(a) <==> (acc2.contains(a)
                || xs.drop_first().contains(a)));
            lemma_contains_push(acc, xs[0], a);
            lemma_contains_drop_first(xs, a);
        }
    }
}

/// Every address the event scan adds is the crank account of a queued
/// event whose maker was touched by the walk.
pub proof fn lemma_append_events_sources(
    acc: Seq<Address>,
    touched: Seq<Address>,
    events: Seq<PendingEvent>,
)
    ensures
        forall|a: Address|
            #[trigger] append_event_accounts(acc, touched, events).contains(a) ==> (acc.contains(a)
                || exists|k: int|
                0 <= k < events.len() && (#[trigger] events[k]).account == a && touched.contains(
                    events[k].maker,
                )),
    decreases events.len(),
{
    if events.len() == 0 {
    } else {
        let e0 = events[0];
        let acc2 = if touched.contains(e0.maker) && !acc.contains(e0.account) {
            acc.push(e0.account)
        } else {
            acc
        };
        lemma_append_events_sources(acc2, touched, events.drop_first());
        assert forall|a: Address|
            #[trigger] append_event_accounts(acc, touched, events).contains(a) implies (
        acc.contains(a) || exists|k: int|
            0 <= k < events.len() && (#[trigger] events[k]).account == a && touched.contains(
                events[k].maker,
            )) by {
            assert(append_event_accounts(acc, touched, events) == append_event_accounts(
                acc2,
                touched,
                events.drop_first(),
            ));
            assert(append_event_accounts(acc2, touched, events.drop_first()).contains(a));
            lemma_contains_push(acc, e0.account, a);
            if !acc.contains(a) {
                if acc2.contains(a) {
                    assert(events[0].account == a && touched.contains(events[0].maker));
                } else {
                    let k = choose|k: int|
                        0 <= k < events.drop_first().len() && (#[trigger] events.drop_first()[
                            k
                        ]).account == a && touched.contains(events.drop_first()[k].maker);
                    assert(events[k + 1].account == a && touched.contains(events[k + 1].maker));
                }
            }
        }
    }
}

/// Simulates matching a taker order against the resting orders of `book`
/// under both lot ceilings, the peg-limit rule, and the current timestamp,
/// and scans `heap` for crank accounts of touched makers — without
/// mutating either snapshot.
#[verifier::loop_isolation(false)]
#[verifier::rlimit(100)]
pub fn simulate_take(
    book: &BookSide,
    heap: &EventHeap,
    side: Side,
    max_base_lots: i64,
    max_quote_lots: i64,
    market: &Market,
    rule: PegRule,
    now: u64,
) -> (r: Result<Amounts, MarketError>)
    requires
        market.wf(),
        orders_valid(book.orders@),
        0 <= max_base_lots,
        0 <= max_quote_lots,
    ensures
        ({
            let s = simulate_spec(
                book.orders@,
                heap.events@,
                side,
                max_base_lots as int,
                max_quote_lots as int,
                *market,
                rule,
                now,
            );
            &&& (r is Ok <==> s is Ok)
            &&& (r matches Ok(a) ==> s matches Ok(o) && amounts_match(a, o))
            &&& (r matches Err(e) ==> s matches Err(e2) && e == e2)
        }),
        r matches Ok(a) ==> 0 <= a.fee <= a.total_quote_taken_native && 0
            <= a.total_base_taken_native && 0 <= a.total_base_lots_taken && 0
            <= a.total_quote_lots_taken,
{
    let ghost full = walk_fills(
        book.orders@,
        max_base_lots as int,
        max_quote_lots as int,
        rule,
        now,
    );
    let n: usize = book.orders.len();
    let mut i: usize = 0;
    let mut rb: i64 = max_base_lots;
    let mut rq: i64 = max_quote_lots;
    let mut makers: Vec<Address> = Vec::new();
    let ghost mut acc: Seq<Fill> = Seq::empty();
    proof {
        assert(book.orders@.skip(0) =~= book.orders@);
        assert(Seq::<Fill>::empty() + full =~= full);
    }
    while i < n
        invariant
            0 <= i <= n,
            0 <= rb <= max_base_lots,
            0 <= rq <= max_quote_lots,
            rb as int == max_base_lots - sum_base(acc),
            rq as int == max_quote_lots - sum_quote(acc),
            makers@ == fill_owners(acc),
            full == acc + walk_fills(
                book.orders@.skip(i as int),
                rb as int,
                rq as int,
                rule,
                now,
            ),
        decreases n - i,
    {
        let o = book.orders[i];
        proof {
            assert(book.orders@.skip(i as int)[0] == o);
            assert(book.orders@.skip(i as int).drop_first() =~= book.orders@.skip(i as int + 1));
            assert(order_valid(o));
        }
        let live = o.expiry == 0 || now < o.expiry;
        let in_w = match rule {
            PegRule::Open => true,
            PegRule::Closed => false,
            PegRule::Window { lo, hi } => {
                let scaled: i128 = (o.price_lots as i128) * FIXED_POINT_ONE;
                lo <= scaled && scaled <= hi
            },
        };
        assert(live == order_live(o, now));
        assert(in_w == in_window(o.price_lots as int, rule));
        if live && in_w {
            proof {
                lemma_div_bounds(rq as int, o.price_lots as int);
            }
            let fq_u: u64 = (rq as u64) / (o.price_lots as u64);
            let fq: i64 = fq_u as i64;
            assert(fq as int == (rq as int) / (o.price_lots as int));
            let mut fill: i64 = o.quantity_lots;
            if rb < fill {
                fill = rb;
            }
            if fq < fill {
                fill = fq;
            }
            assert(fill as int == fill_amount(o, rb as int, rq as int));
            if fill > 0 {
                proof {
                    lemma_fill_bounds(o, rb as int, rq as int);
                    vstd::arithmetic::mul::lemma_mul_nonnegative(
                        fill as int,
                        o.price_lots as int,
                    );
                }
                let q_add: i64 = fill * o.price_lots;
                let ghost rb0 = rb as int;
                let ghost rq0 = rq as int;
                rb = rb - fill;
                rq = rq - q_add;
                makers.push(o.owner);
                proof {
                    let f = Fill {
                        owner: o.owner,
                        base_lots: fill as int,
                        price_lots: o.price_lots as int,
                    };
                    assert(order_takes(o, rb0, rq0, rule, now));
                    assert(walk_fills(book.orders@.skip(i as int), rb0, rq0, rule, now) == seq![f]
                        + walk_fills(
                        book.orders@.skip(i as int + 1),
                        rb0 - f.base_lots,
                        rq0 - f.base_lots * f.price_lots,
                        rule,
                        now,
                    ));
                    lemma_sum_base_push(acc, f);
                    lemma_sum_quote_push(acc, f);
                    assert(fill_owners(acc.push(f)) =~= fill_owners(acc).push(f.owner));
                    assert(acc + (seq![f] + walk_fills(
                        book.orders@.skip(i as int + 1),
                        rb as int,
                        rq as int,
                        rule,
                        now,
                    )) =~= acc.push(f) + walk_fills(
                        book.orders@.skip(i as int + 1),
                        rb as int,
                        rq as int,
                        rule,
                        now,
                    ));
                    acc = acc.push(f);
                }
            } else {
                proof {
                    assert(!order_takes(o, rb as int, rq as int, rule, now));
                }
            }
        } else {
            proof {
                assert(!order_takes(o, rb as int, rq as int, rule, now));
            }
        }
        i = i + 1;
    }
    proof {
        assert(book.orders@.skip(n as int) =~= Seq::<Order>::empty());
        assert(acc + Seq::<Fill>::empty() =~= acc);
        assert(full == acc);
    }
    let total_base_lots: i64 = max_base_lots - rb;
    let total_quote_lots: i64 = max_quote_lots - rq;
    proof {
        vstd::arithmetic::mul::lemma_mul_upper_bound(
            total_base_lots as int,
            0x7fffffffffffffff,
            market.base_lot_size as int,
            0x7fffffffffffffff,
        );
        vstd::arithmetic::mul::lemma_mul_upper_bound(
            total_quote_lots as int,
            0x7fffffffffffffff,
            market.quote_lot_size as int,
            0x7fffffffffffffff,
        );
        vstd::arithmetic::mul::lemma_mul_nonnegative(
            total_base_lots as int,
            market.base_lot_size as int,
        );
        vstd::arithmetic::mul::lemma_mul_nonnegative(
            total_quote_lots as int,
            market.quote_lot_size as int,
        );
    }
    let bn128: i128 = (total_base_lots as i128) * (market.base_lot_size as i128);
    let qn128: i128 = (total_quote_lots as i128) * (market.quote_lot_size as i128);
    if bn128 > 0x7fffffffffffffffi128 || qn128 > 0x7fffffffffffffffi128 {
        return Err(MarketError::Overflow);
    }
    let bn: i64 = bn128 as i64;
    let qn: i64 = qn128 as i64;
    proof {
        vstd::arithmetic::mul::lemma_mul_upper_bound(
            qn as int,
            0x7fffffffffffffff,
            market.taker_fee as int,
            1000000,
        );
        vstd::arithmetic::mul::lemma_mul_nonnegative(qn as int, market.taker_fee as int);
    }
    let fee_num: u128 = (qn as u128) * (market.taker_fee as u128) + 999999;
    let fee_u: u128 = fee_num / 1000000;
    proof {
        assert(fee_u as int == fee_of(qn as int, market.taker_fee as int));
        vstd::arithmetic::mul::lemma_mul_inequality(market.taker_fee as int, 1000000, qn as int);
        vstd::arithmetic::div_mod::lemma_div_is_ordered(
            (qn as int) * (market.taker_fee as int) + 999999,
            (qn as int) * 1000000 + 999999,
            1000000,
        );
        vstd::arithmetic::div_mod::lemma_fundamental_div_mod_converse(
            (qn as int) * 1000000 + 999999,
            1000000,
            qn as int,
            999999,
        );
        assert(fee_u as int <= qn as int);
    }
    let fee: i64 = fee_u as i64;
    let not_enough = match side {
        Side::Bid => rq > 0,
        Side::Ask => rb > 0,
    };
    let ghost dd = dedup_append(Seq::<Address>::empty(), makers@);
    let mut accs: Vec<Address> = Vec::new();
    let m_len: usize = makers.len();
    let mut j: usize = 0;
    proof {
        assert(makers@.skip(0) =~= makers@);
    }
    while j < m_len
        invariant
            0 <= j <= m_len,
            dd == dedup_append(accs@, makers@.skip(j as int)),
        decreases m_len - j,
    {
        proof {
            assert(makers@.skip(j as int)[0] == makers@[j as int]);
            assert(makers@.skip(j as int).drop_first() =~= makers@.skip(j as int + 1));
        }
        let mk = makers[j];
        if contains_address(&accs, mk) {
        } else {
            accs.push(mk);
        }
        j = j + 1;
    }
    proof {
        assert(makers@.skip(m_len as int) =~= Seq::<Address>::empty());
        assert(dd == accs@);
        lemma_dedup_append_elements(Seq::<Address>::empty(), makers@);
    }
    let ghost target = append_event_accounts(dd, dd, heap.events@);
    let e_len: usize = heap.events.len();
    let mut k: usize = 0;
    proof {
        assert(heap.events@.skip(0) =~= heap.events@);
    }
    while k < e_len
        invariant
            0 <= k <= e_len,
            target == append_event_accounts(accs@, dd, heap.events@.skip(k as int)),
        decreases e_len - k,
    {
        proof {
            assert(heap.events@.skip(k as int)[0] == heap.events@[k as int]);
            assert(heap.events@.skip(k as int).drop_first() =~= heap.events@.skip(k as int + 1));
        }
        let e = heap.events[k];
        let touched = contains_address(&makers, e.maker);
        proof {
            assert(touched == dd.contains(e.maker));
        }
        if touched && !contains_address(&accs, e.account) {
            accs.push(e.account);
        }
        k = k + 1;
    }
    proof {
        assert(heap.events@.skip(e_len as int) =~= Seq::<PendingEvent>::empty());
        assert(accs@ == target);
        assert(accs@ == crank_accounts(full, heap.events@));
    }
    Ok(
        Amounts {
            total_base_lots_taken: total_base_lots,
            total_quote_lots_taken: total_quote_lots,
            total_base_taken_native: bn,
            total_quote_taken_native: qn,
            fee,
            not_enough_liquidity: not_enough,
            crank_accounts: accs,
        },
    )
}

/// Peg-band exclusion over the account list: every address a simulation
/// returns is either the maker of an in-window fill or the crank account
/// of a queued event whose maker made such a fill.  The maker of an order
/// priced outside the band therefore never enters the list on that
/// order's account.
pub proof fn lemma_crank_accounts_sources(fills: Seq<Fill>, events: Seq<PendingEvent>)
    ensures
        forall|a: Address|
            #[trigger] crank_accounts(fills, events).contains(a) ==> (fill_owners(fills).contains(
                a,
            ) || exists|k: int|
                0 <= k < events.len() && (#[trigger] events[k]).account == a && fill_owners(
                    fills,
                ).contains(events[k].maker)),
{
    let makers = dedup_append(Seq::empty(), fill_owners(fills));
    lemma_dedup_append_elements(Seq::empty(), fill_owners(fills));
    lemma_append_events_sources(makers, makers, events);
}

} // verus!
