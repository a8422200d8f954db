use vstd::prelude::*;
use crate::addr::Address;
use crate::bytes::{address_at, le64_at, le64_signed_at, read_address, read_i64_le, read_u64_le};
use crate::errors::MarketError;

verus! {

/// Tag stored in the first eight bytes of a market configuration account.
pub const MARKET_ACCOUNT_TAG: u64 = 0x314b414d;

/// Byte length of a market configuration account.
pub const MARKET_ACCOUNT_BYTES: usize = 360;

/// Denominator of the taker-fee rate: the fee rate is in parts per million.
pub const FEE_DENOMINATOR: i64 = 1000000;

/// One market's configuration, decoded from its on-ledger account bytes and
/// immutable afterwards.
///
/// `taker_fee` is a proportional rate in parts per million of the matched
/// quote notional.  `oracle_band_lots` is the half-width, in price lots, of
/// the peg-limit band around the oracle price; resting orders priced outside
/// the band are excluded from matching whenever an oracle is configured.
#[derive(Clone, Copy, Debug, PartialEq, Eq)]
pub struct Market {
    pub base_mint: Address,
    pub quote_mint: Address,
    pub market_authority: Address,
    pub bids: Address,
    pub asks: Address,
    pub event_heap: Address,
    pub market_base_vault: Address,
    pub market_quote_vault: Address,
    pub oracle_a: Option<Address>,
    pub oracle_b: Option<Address>,
    pub base_lot_size: i64,
    pub quote_lot_size: i64,
    pub taker_fee: i64,
    pub oracle_band_lots: i64,
}

impl Market {
    /// Validity of a decoded configuration: positive lot sizes, a fee rate
    /// of at most one, and a non-negative band width.
    pub open spec fn wf(self) -> bool {
        &&& 1 <= self.base_lot_size
        &&& 1 <= self.quote_lot_size
        &&& 0 <= self.taker_fee <= FEE_DENOMINATOR
        &&& 0 <= self.oracle_band_lots
    }

    /// The largest base-lot ceiling representable for this market.
    pub open spec fn max_base_lots_spec(self) -> int {
        0x7fffffffffffffff as int / self.base_lot_size as int
    }

    /// The largest quote-lot ceiling representable for this market.
    pub open spec fn max_quote_lots_spec(self) -> int {
        0x7fffffffffffffff as int / self.quote_lot_size as int
    }

    pub fn max_base_lots(&self) -> (r: i64)
        requires
            self.wf(),
        ensures
            r == self.max_base_lots_spec(),
            r >= 0,
    {
        ((0x7fffffffffffffffu64) / (self.base_lot_size as u64)) as i64
    }

    pub fn max_quote_lots(&self) -> (r: i64)
        requires
            self.wf(),
        ensures
            r == self.max_quote_lots_spec(),
            r >= 0,
    {
        ((0x7fffffffffffffffu64) / (self.quote_lot_size as u64)) as i64
    }
}

/// The configuration encoded by a market account's bytes.
///
/// Layout: an eight-byte tag, ten 32-byte addresses (mints, authority, book
/// sides, event heap, vaults, two optional oracles where all-zero means
/// unset), then four signed 64-bit little-endian scalars: base lot size,
/// quote lot size, taker-fee rate, oracle band half-width.
pub open spec fn market_of(s: Seq<u8>) -> Market {
    Market {
        base_mint: address_at(s, 8),
        quote_mint: address_at(s, 40),
        market_authority: address_at(s, 72),
        bids: address_at(s, 104),
        asks: address_at(s, 136),
        event_heap: address_at(s, 168),
        market_base_vault: address_at(s, 200),
        market_quote_vault: address_at(s, 232),
        oracle_a: if address_at(s, 264).is_zero_spec() {
            None
        } else {
            Some(address_at(s, 264))
        },
        oracle_b: if address_at(s, 296).is_zero_spec() {
            None
        } else {
            Some(address_at(s, 296))
        },
        base_lot_size: le64_signed_at(s, 328),
        quote_lot_size: le64_signed_at(s, 336),
        taker_fee: le64_signed_at(s, 344),
        oracle_band_lots: le64_signed_at(s, 352),
    }
}

/// Whether `s` is a well-formed market configuration account.
pub open spec fn market_bytes_wf(s: Seq<u8>) -> bool {
    &&& s.len() == MARKET_ACCOUNT_BYTES
    &&& le64_at(s, 0) == MARKET_ACCOUNT_TAG
    &&& market_of(s).wf()
}

/// Decodes a market configuration account, accepting exactly the
/// well-formed byte strings.
pub fn decode_market(b: &Vec<u8>) -> (r: Result<Market, MarketError>)
    ensures
        r is Ok <==> market_bytes_wf(b@),
        r matches Ok(m) ==> m == market_of(b@) && m.wf(),
        r matches Err(e) ==> e == MarketError::Decode,
{
    if b.len() != MARKET_ACCOUNT_BYTES {
        return Err(MarketError::Decode);
    }
    if read_u64_le(b, 0) != MARKET_ACCOUNT_TAG {
        return Err(MarketError::Decode);
    }
    let base_lot_size = read_i64_le(b, 328);
    let quote_lot_size = read_i64_le(b, 336);
    let taker_fee = read_i64_le(b, 344);
    let oracle_band_lots = read_i64_le(b, 352);
    if base_lot_size < 1 || quote_lot_size < 1 || taker_fee < 0 || taker_fee > FEE_DENOMINATOR
        || oracle_band_lots < 0 {
        return Err(MarketError::Decode);
    }
    let oracle_a_raw = read_address(b, 264);
    let oracle_b_raw = read_address(b, 296);
    Ok(
        Market {
            base_mint: read_address(b, 8),
            quote_mint: read_address(b, 40),
            market_authority: read_address(b, 72),
            bids: read_address(b, 104),
            asks: read_address(b, 136),
            event_heap: read_address(b, 168),
            market_base_vault: read_address(b, 200),
            market_quote_vault: read_address(b, 232),
            oracle_a: if oracle_a_raw.is_zero() {
                None
            } else {
                Some(oracle_a_raw)
            },
            oracle_b: if oracle_b_raw.is_zero() {
                None
            } else {
                Some(oracle_b_raw)
            },
            base_lot_size,
            quote_lot_size,
            taker_fee,
            oracle_band_lots,
        },
    )
}

} // verus!
