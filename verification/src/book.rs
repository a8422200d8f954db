use vstd::prelude::*;
use crate::addr::Address;
use crate::bytes::{address_at, le64_at, le64_signed_at, read_address, read_i64_le, read_u64_le};
use crate::errors::MarketError;

verus! {

/// Tag stored in the first eight bytes of a book-side account.
pub const BOOK_ACCOUNT_TAG: u64 = 0x4b4f4f42;

/// Byte length of the book-side account header: tag plus order count.
pub const BOOK_HEADER_BYTES: usize = 16;

/// Byte length of one resting-order record.
pub const ORDER_RECORD_BYTES: usize = 56;

/// Which half of the trade a taker order is on: a bid pays quote and
/// receives base, an ask pays base and receives quote.
#[derive(Clone, Copy, Debug, PartialEq, Eq, Structural)]
pub enum Side {
    Bid,
    Ask,
}

/// One resting order of a book side.
///
/// `expiry` is a unix timestamp after which the order no longer matches;
/// zero means the order never expires.  `owner` locates the maker's
/// open-orders account for crank inclusion.
#[derive(Clone, Copy, Debug, PartialEq, Eq, Structural)]
pub struct Order {
    pub owner: Address,
    pub price_lots: i64,
    pub quantity_lots: i64,
    pub expiry: u64,
}

/// An order is valid when its price and remaining quantity are positive.
pub open spec fn order_valid(o: Order) -> bool {
    1 <= o.price_lots && 1 <= o.quantity_lots
}

pub open spec fn orders_valid(orders: Seq<Order>) -> bool {
    forall|i: int| 0 <= i < orders.len() ==> order_valid(#[trigger] orders[i])
}

/// Price-priority order of two neighbouring resting orders: asks run from
/// lowest price to highest, bids from highest to lowest.
pub open spec fn side_ordered(side: Side, earlier: Order, later: Order) -> bool {
    match side {
        Side::Ask => earlier.price_lots <= later.price_lots,
        Side::Bid => earlier.price_lots >= later.price_lots,
    }
}

/// A book side is well formed when every order is valid and the orders
/// stand in best-to-worst price order for the side.
pub open spec fn book_orders_wf(orders: Seq<Order>, side: Side) -> bool {
    &&& orders_valid(orders)
    &&& forall|i: int|
        0 <= i && i + 1 < orders.len() ==> side_ordered(side, #[trigger] orders[i], orders[i + 1])
}

/// One side of the resting book, in best-to-worst price order.
#[derive(Clone, Debug, PartialEq, Eq)]
pub struct BookSide {
    pub side: Side,
    pub orders: Vec<Order>,
}

impl BookSide {
    pub open spec fn wf(self) -> bool {
        book_orders_wf(self.orders@, self.side)
    }

    /// An empty side, the state before the first refresh.
    pub fn new_empty(side: Side) -> (r: BookSide)
        ensures
            r.side == side,
            r.orders@ == Seq::<Order>::empty(),
            r.wf(),
    {
        BookSide { side, orders: Vec::new() }
    }
}

/// The number of order records a book-side account claims to hold.
pub open spec fn order_count(s: Seq<u8>) -> int {
    le64_at(s, 8) as int
}

/// The order record at index `i` of a book-side account: a 32-byte owner
/// address, then price, quantity, and expiry as 64-bit little-endian words.
pub open spec fn order_at(s: Seq<u8>, i: int) -> Order {
    Order {
        owner: address_at(s, 16 + 56 * i),
        price_lots: le64_signed_at(s, 16 + 56 * i + 32),
        quantity_lots: le64_signed_at(s, 16 + 56 * i + 40),
        expiry: le64_at(s, 16 + 56 * i + 48),
    }
}

/// All order records of a book-side account, in stored order.
pub open spec fn orders_of(s: Seq<u8>) -> Seq<Order> {
    Seq::new(order_count(s) as nat, |i: int| order_at(s, i))
}

/// Whether `s` is a well-formed book-side account for `side`: correct tag,
/// a length exactly covering the claimed records, valid orders, and
/// best-to-worst price order.
pub open spec fn book_bytes_wf(s: Seq<u8>, side: Side) -> bool {
    &&& s.len() >= BOOK_HEADER_BYTES
    &&& le64_at(s, 0) == BOOK_ACCOUNT_TAG
    &&& s.len() == BOOK_HEADER_BYTES + ORDER_RECORD_BYTES * order_count(s)
    &&& book_orders_wf(orders_of(s), side)
}

/// Reads the order record at index `i` of a book-side account.
fn read_order(b: &Vec<u8>, i: usize) -> (r: Order)
    requires
        BOOK_HEADER_BYTES + ORDER_RECORD_BYTES * i + ORDER_RECORD_BYTES <= b@.len(),
    ensures
        r == order_at(b@, i as int),
{
    let n: usize = b.len();
    assert(BOOK_HEADER_BYTES + ORDER_RECORD_BYTES * i + ORDER_RECORD_BYTES <= n);
    let off: usize = BOOK_HEADER_BYTES + ORDER_RECORD_BYTES * i;
    Order {
        owner: read_address(b, off),
        price_lots: read_i64_le(b, off + 32),
        quantity_lots: read_i64_le(b, off + 40),
        expiry: read_u64_le(b, off + 48),
    }
}

/// Decodes one book-side account, accepting exactly the byte strings that
/// are well formed for `side`.
#[verifier::rlimit(50)]
pub fn decode_book_side(b: &Vec<u8>, side: Side) -> (r: Result<BookSide, MarketError>)
    ensures
        r is Ok <==> book_bytes_wf(b@, side),
        r matches Ok(bs) ==> bs.side == side && bs.orders@ == orders_of(b@) && bs.wf(),
        r matches Err(e) ==> e == MarketError::Decode,
{
    let n: usize = b.len();
    if n < BOOK_HEADER_BYTES {
        return Err(MarketError::Decode);
    }
    if read_u64_le(b, 0) != BOOK_ACCOUNT_TAG {
        return Err(MarketError::Decode);
    }
    let count64 = read_u64_le(b, 8);
    if (BOOK_HEADER_BYTES as u128) + (ORDER_RECORD_BYTES as u128) * (count64 as u128) != (
    n as u128) {
        return Err(MarketError::Decode);
    }
    let count = count64 as usize;
    let ghost total = count as int;
    let mut orders: Vec<Order> = Vec::new();
    let mut i: usize = 0;
    while i < count
        invariant
            0 <= i <= count,
            count as int == total,
            total == order_count(b@),
            b@.len() == BOOK_HEADER_BYTES + ORDER_RECORD_BYTES * total,
            orders@.len() == i,
            forall|j: int| 0 <= j < i ==> orders@[j] == order_at(b@, j),
            forall|j: int| 0 <= j < i ==> order_valid(#[trigger] orders@[j]),
            forall|j: int|
                0 <= j && j + 1 < i ==> side_ordered(side, #[trigger] orders@[j], orders@[j + 1]),
        decreases count - i,
    {
        let o = read_order(b, i);
        if o.price_lots < 1 || o.quantity_lots < 1 {
            assert(!order_valid(orders_of(b@)[i as int]));
            return Err(MarketError::Decode);
        }
        if i > 0 {
            let prev = orders[i - 1];
            let ordered = match side {
                Side::Ask => prev.price_lots <= o.price_lots,
                Side::Bid => prev.price_lots >= o.price_lots,
            };
            if !ordered {
                assert(!side_ordered(side, orders_of(b@)[i as int - 1], orders_of(b@)[i as int]));
                return Err(MarketError::Decode);
            }
        }
        orders.push(o);
        i = i + 1;
    }
    assert(orders@ =~= orders_of(b@));
    Ok(BookSide { side, orders })
}

} // verus!
