//! The bytecode that one transaction deploys.

use crate::primitives::TxIndex;
use alloy_primitives::Bytes;
use vstd::prelude::*;

verus! {

/// `alloy_primitives::Bytes`, a shared buffer of bytes.
///
/// The tracker stores and hands back such buffers and never looks inside
/// one, so nothing is claimed of the type: to the verifier a value of it is
/// opaque.
#[verifier::external_type_specification]
#[verifier::external_body]
pub struct ExBytes(alloy_primitives::Bytes);

/// The largest size that the code of a contract may have, in bytes.
pub const MAX_CODE_SIZE: usize = 24_576;

/// The contracts that one transaction deployed, in the order of their
/// creation.
///
/// A transaction may create several contracts through nested calls. The
/// list is a plain record: nothing is checked, compared or dropped.
#[derive(Debug, Clone, PartialEq, Eq)]
pub struct CodeChange {
    /// The position of the transaction that deployed the code.
    pub tx_index: TxIndex,
    /// The deployed bytecode, oldest first.
    pub new_code: Vec<Bytes>,
}

impl CodeChange {
    /// An empty record for the transaction at `tx_index`.
    ///
    /// Room is reserved up front, as a hint; the list may grow beyond it.
    pub fn new(tx_index: TxIndex) -> (change: Self)
        ensures
            change.tx_index == tx_index,
            change.new_code@ == Seq::<Bytes>::empty(),
    {
        Self { tx_index, new_code: Vec::with_capacity(MAX_CODE_SIZE) }
    }

    /// The position of the transaction.
    pub fn tx_index(&self) -> (index: TxIndex)
        ensures
            index == self.tx_index,
    {
        self.tx_index
    }

    /// The deployed bytecode, oldest first.
    pub fn new_code(&self) -> (code: &[Bytes])
        ensures
            code@ == self.new_code@,
    {
        self.new_code.as_slice()
    }

    /// Records the bytecode of one more created contract, after all those
    /// recorded before.
    pub fn push_code(&mut self, code: Bytes)
        ensures
            final(self).tx_index == old(self).tx_index,
            final(self).new_code@ == old(self).new_code@.push(code),
    {
        self.new_code.push(code);
    }
}

} // verus!
