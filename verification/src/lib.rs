//! Verified core of a carbon-credit ledger: a project registry, a credit
//! ledger with serial-numbered batches and permanent retirement, and a
//! monitoring/price oracle, each with a time-locked governance queue; plus
//! the deterministic generator that drives randomized call sequences.
//!
//! Each contract is a state machine over plain values. Its abstract state
//! (`CreditState`, `RegistryState`, `OracleState`) gives every operation a
//! spec function returning the next state or the error; the executable
//! methods are proved to follow them exactly, and the `lemma_*` proof
//! functions state the laws that hold across calls.
pub mod credit;
pub mod timelock;
pub mod registry;
pub mod keyed;
pub mod oracle;
pub mod rng;
