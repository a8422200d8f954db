//! A quoting bridge for one on-chain central-limit-order-book market.
//!
//! The library mirrors a market's configuration and live book state from raw
//! account bytes, simulates matching a hypothetical taker order against the
//! resting book (lot quantization, taker fee, oracle peg-limit band), and
//! assembles the account list a settlement instruction must reference.

pub mod addr;
pub mod bytes;
pub mod errors;
pub mod market;
pub mod book;
pub mod heap;
pub mod oracle;
pub mod sim;
pub mod amm;
