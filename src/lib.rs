//! Accounting core of a two-token constant-product pool: reserve state, derived-address
//! authority checks, proportional liquidity math, swap pricing, fixed-layout record codecs, and
//! the per-instruction decisions that a ledger program carries out.

pub mod errors;
pub mod maths;
pub mod pda;
pub mod states;
pub mod amm;
pub mod instructions;
pub mod laws;
