//! Per-transaction tracking of EVM storage and code accesses, the raw
//! material of a block access list, and the decisions of the unwind command.
//!
//! The [`inspector`] module holds the storage tracker: it records which slots
//! a transaction loads and stores, recovers the value each stored slot held
//! before the transaction, and sorts the slots into the read and the write
//! section of the list. [`code_change`] collects the bytecode a transaction
//! deploys. [`primitives`] defines the plain values all of them work on.
//! [`unwind`] picks the block an unwind goes back to and the route it takes.

pub mod code_change;
pub mod inspector;
pub mod primitives;
pub mod unwind;
