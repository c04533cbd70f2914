//! Pricing and liquidity engine of a two-asset stable pool.
//!
//! The crate holds the fixed-point utilities (`math`), the invariant solver
//! (`solver`), the amplification ramp (`amp`) and the pool ledger with its
//! price accumulator (`pool`), the laws that hold of them (`laws`), and the
//! rules of the components around the pool: assets (`asset`), the registry
//! of pairs (`factory`), the liquidity token (`token`), the fee sweep
//! (`maker`) and the change of owner (`common`). The calls into
//! `cosmwasm_std` stand in `wide`, those into the text functions of std in
//! `text`.

pub mod amp;
pub mod asset;
pub mod common;
pub mod error;
pub mod factory;
pub mod laws;
pub mod maker;
pub mod math;
pub mod pool;
pub mod solver;
pub mod text;
pub mod token;
pub mod wide;
