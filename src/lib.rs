//! An in-memory accounting core: a balance ledger with checked transfers,
//! and a chain state holding a block counter and per-account nonces.

pub mod accounts;
pub mod balances;
pub mod system;
pub mod runtime;
