use vstd::prelude::*;
use crate::bytes::{le128_signed_at, le64_at, read_i128_le, read_u64_le};
use crate::errors::MarketError;
use crate::market::Market;

verus! {

/// Tag stored in the first eight bytes of an oracle feed account.
pub const ORACLE_ACCOUNT_TAG: u64 = 0x4c43524f;

/// Byte length of an oracle feed account.
pub const ORACLE_ACCOUNT_BYTES: usize = 48;

/// Byte length of a clock account: slot then unix timestamp.
pub const CLOCK_ACCOUNT_BYTES: usize = 16;

/// How many slots an oracle feed may lag the current slot before it is
/// considered stale.
pub const ORACLE_MAX_STALENESS_SLOTS: u64 = 250;

/// A feed is rejected when its confidence interval times this multiplier
/// exceeds its price.
pub const ORACLE_CONFIDENCE_MULTIPLIER: i128 = 20;

/// The fixed-point scale of oracle prices: 48 fractional bits.
pub const FIXED_POINT_ONE: i128 = 0x1000000000000;

/// Exclusive upper bound on a feed's raw fixed-point price.
pub const ORACLE_PRICE_LIMIT: i128 = 0x10000000000000000;

/// One decoded oracle price feed: a fixed-point price with 48 fractional
/// bits, its confidence interval on the same scale, and the slot of its
/// last update.
#[derive(Clone, Copy, Debug, PartialEq, Eq)]
pub struct OracleFeed {
    pub price_raw: i128,
    pub conf_raw: i128,
    pub last_update_slot: u64,
}

impl OracleFeed {
    pub open spec fn wf(self) -> bool {
        &&& 0 < self.price_raw < ORACLE_PRICE_LIMIT
        &&& 0 <= self.conf_raw < ORACLE_PRICE_LIMIT
    }
}

/// The feed encoded by an oracle account's bytes: an eight-byte tag, then
/// price and confidence as signed 128-bit little-endian words, then the
/// last-update slot.
pub open spec fn feed_of(s: Seq<u8>) -> OracleFeed {
    OracleFeed {
        price_raw: le128_signed_at(s, 8),
        conf_raw: le128_signed_at(s, 24),
        last_update_slot: le64_at(s, 40),
    }
}

/// Whether `s` is a well-formed oracle feed account.
pub open spec fn oracle_bytes_wf(s: Seq<u8>) -> bool {
    &&& s.len() == ORACLE_ACCOUNT_BYTES
    &&& le64_at(s, 0) == ORACLE_ACCOUNT_TAG
    &&& feed_of(s).wf()
}

/// Decodes an oracle feed account, accepting exactly the well-formed byte
/// strings.
pub fn decode_oracle_feed(b: &Vec<u8>) -> (r: Result<OracleFeed, MarketError>)
    ensures
        r is Ok <==> oracle_bytes_wf(b@),
        r matches Ok(f) ==> f == feed_of(b@) && f.wf(),
        r matches Err(e) ==> e == MarketError::Decode,
{
    if b.len() != ORACLE_ACCOUNT_BYTES {
        return Err(MarketError::Decode);
    }
    if read_u64_le(b, 0) != ORACLE_ACCOUNT_TAG {
        return Err(MarketError::Decode);
    }
    let price_raw = read_i128_le(b, 8);
    let conf_raw = read_i128_le(b, 24);
    let last_update_slot = read_u64_le(b, 40);
    if price_raw <= 0 || price_raw >= ORACLE_PRICE_LIMIT || conf_raw < 0 || conf_raw
        >= ORACLE_PRICE_LIMIT {
        return Err(MarketError::Decode);
    }
    Ok(OracleFeed { price_raw, conf_raw, last_update_slot })
}

/// Whether `s` is a well-formed clock account: a slot and a unix timestamp
/// as 64-bit little-endian words.
pub open spec fn clock_bytes_wf(s: Seq<u8>) -> bool {
    s.len() == CLOCK_ACCOUNT_BYTES
}

pub open spec fn clock_slot_of(s: Seq<u8>) -> u64 {
    le64_at(s, 0)
}

pub open spec fn clock_timestamp_of(s: Seq<u8>) -> u64 {
    le64_at(s, 8)
}

/// Decodes a clock account into its slot and unix timestamp.
pub fn decode_clock(b: &Vec<u8>) -> (r: Result<(u64, u64), MarketError>)
    ensures
        r is Ok <==> clock_bytes_wf(b@),
        r matches Ok(c) ==> c.0 == clock_slot_of(b@) && c.1 == clock_timestamp_of(b@),
        r matches Err(e) ==> e == MarketError::Decode,
{
    if b.len() != CLOCK_ACCOUNT_BYTES {
        return Err(MarketError::Decode);
    }
    Ok((read_u64_le(b, 0), read_u64_le(b, 8)))
}

/// The acceptance check for one feed at the current slot: the feed must be
/// fresh and its confidence interval narrow relative to its price.
pub open spec fn feed_check_spec(f: OracleFeed, slot: u64) -> Result<(), MarketError> {
    if slot > f.last_update_slot + ORACLE_MAX_STALENESS_SLOTS {
        Err(MarketError::StaleOracle)
    } else if f.conf_raw * ORACLE_CONFIDENCE_MULTIPLIER > f.price_raw {
        Err(MarketError::OracleConfidence)
    } else {
        Ok(())
    }
}

fn feed_check(f: &OracleFeed, slot: u64) -> (r: Result<(), MarketError>)
    requires
        f.wf(),
    ensures
        r == feed_check_spec(*f, slot),
{
    if f.last_update_slot <= u64::MAX - ORACLE_MAX_STALENESS_SLOTS && slot > f.last_update_slot
        + ORACLE_MAX_STALENESS_SLOTS {
        return Err(MarketError::StaleOracle);
    }
    if f.conf_raw * ORACLE_CONFIDENCE_MULTIPLIER > f.price_raw {
        return Err(MarketError::OracleConfidence);
    }
    Ok(())
}

/// The oracle price derived from whichever feeds are configured: absent
/// without feeds, a single feed's own price, and the quotient of the two
/// prices when both are present.  Every feed used must pass the staleness
/// and confidence checks.
pub open spec fn oracle_price_spec(
    a: Option<OracleFeed>,
    b: Option<OracleFeed>,
    slot: u64,
) -> Result<Option<i128>, MarketError> {
    match (a, b) {
        (None, None) => Ok(None),
        (Some(f), None) => match feed_check_spec(f, slot) {
            Ok(u) => Ok(Some(f.price_raw)),
            Err(e) => Err(e),
        },
        (None, Some(f)) => match feed_check_spec(f, slot) {
            Ok(u) => Ok(Some(f.price_raw)),
            Err(e) => Err(e),
        },
        (Some(fa), Some(fb)) => match feed_check_spec(fa, slot) {
            Ok(u) => match feed_check_spec(fb, slot) {
                Ok(v) => {
                    let combined = fa.price_raw * FIXED_POINT_ONE / fb.price_raw as int;
                    if combined <= 0 || combined >= ORACLE_PRICE_LIMIT {
                        Err(MarketError::Overflow)
                    } else {
                        Ok(Some(combined as i128))
                    }
                },
                Err(e) => Err(e),
            },
            Err(e) => Err(e),
        },
    }
}

/// Derives the oracle price from the configured feeds and the current
/// slot.
pub fn derive_oracle_price(a: Option<OracleFeed>, b: Option<OracleFeed>, slot: u64) -> (r: Result<
    Option<i128>,
    MarketError,
>)
    requires
        a matches Some(f) ==> f.wf(),
        b matches Some(f) ==> f.wf(),
    ensures
        r == oracle_price_spec(a, b, slot),
        r matches Ok(p) ==> (p matches Some(v) ==> 0 < v < ORACLE_PRICE_LIMIT),
{
    match (a, b) {
        (None, None) => Ok(None),
        (Some(f), None) => match feed_check(&f, slot) {
            Ok(u) => Ok(Some(f.price_raw)),
            Err(e) => Err(e),
        },
        (None, Some(f)) => match feed_check(&f, slot) {
            Ok(u) => Ok(Some(f.price_raw)),
            Err(e) => Err(e),
        },
        (Some(fa), Some(fb)) => match feed_check(&fa, slot) {
            Ok(u) => match feed_check(&fb, slot) {
                Ok(v) => {
                    let num: u128 = (fa.price_raw as u128) * (FIXED_POINT_ONE as u128);
                    let combined: u128 = num / (fb.price_raw as u128);
                    if combined == 0 || combined >= (ORACLE_PRICE_LIMIT as u128) {
                        Err(MarketError::Overflow)
                    } else {
                        Ok(Some(combined as i128))
                    }
                },
                Err(e) => Err(e),
            },
            Err(e) => Err(e),
        },
    }
}

/// The peg-limit window for order prices, as fixed-point price-lot bounds:
/// the oracle's native price converted to quote lots per base lot, widened
/// by the configured band on each side.  A converted price too large for
/// the window arithmetic is reported as an overflow fault.
pub open spec fn peg_window_spec(oracle_raw: i128, m: Market) -> Result<
    (i128, i128),
    MarketError,
> {
    let lots_fixed = oracle_raw * m.base_lot_size / m.quote_lot_size as int;
    if lots_fixed > 0x10000000000000000000000000000 {
        Err(MarketError::Overflow)
    } else {
        Ok(
            (
                (lots_fixed - m.oracle_band_lots * FIXED_POINT_ONE) as i128,
                (lots_fixed + m.oracle_band_lots * FIXED_POINT_ONE) as i128,
            ),
        )
    }
}

/// Converts an oracle price to the peg-limit window of admissible order
/// prices for this market.
pub fn peg_window(oracle_raw: i128, m: &Market) -> (r: Result<(i128, i128), MarketError>)
    requires
        m.wf(),
        0 < oracle_raw < ORACLE_PRICE_LIMIT,
    ensures
        r == peg_window_spec(oracle_raw, *m),
{
    let xo: u128 = oracle_raw as u128;
    let yb: u128 = m.base_lot_size as u128;
    proof {
        vstd::arithmetic::mul::lemma_mul_upper_bound(
            xo as int,
            ORACLE_PRICE_LIMIT as int,
            yb as int,
            0x7fffffffffffffff,
        );
    }
    let num: u128 = xo * yb;
    let lots_fixed: u128 = num / (m.quote_lot_size as u128);
    if lots_fixed > 0x10000000000000000000000000000u128 {
        return Err(MarketError::Overflow);
    }
    let spread: i128 = (m.oracle_band_lots as i128) * FIXED_POINT_ONE;
    Ok(((lots_fixed as i128) - spread, (lots_fixed as i128) + spread))
}

} // verus!
