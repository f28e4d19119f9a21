//! Building blocks for ledger contract components, centred on a verified
//! constant-product swap pool.
//!
//! The heart of the crate is [`pool::Pool`], an automated market maker over
//! two token reservoirs. Trades are priced by the constant-product rule with
//! a per-mil fee, and liquidity providers are paid in proportional LP shares.
//! All balance bookkeeping uses the overflow-checked fixed-precision
//! [`amount::Amount`] type.

pub mod amount;
pub mod exchange;
pub mod laws;
pub mod pool;
pub mod users;
