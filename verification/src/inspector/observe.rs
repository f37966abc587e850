//! The step hook: what the tracker does at each instruction.
//!
//! The engine calls the hook before it executes an instruction. The hook
//! looks at two opcodes only, the storage load and the storage store, peeks
//! at their operands and records the access. It never fails and never
//! touches the engine: where an operand is missing it records nothing.
//!
//! Two values may be out of the hook's reach when it runs: the present value
//! of a slot, which the engine's state holds, and the database's value of a
//! slot. The hook asks for them only when it needs them. [`step`] returns
//! what is pending, the caller fetches it, and [`resolve`] finishes the
//! record.
//!
//! [`step`]: StorageChangeInspector::step
//! [`resolve`]: StorageChangeInspector::resolve

use crate::inspector::journal::{find_journaled_pre_value, journaled_pre_value, JournalEntry};
use crate::inspector::model::{
    declared_of, declares, entry, pre_value, with_read, with_seed, with_write, written,
    AccessState,
};
use crate::inspector::storage::StorageChangeInspector;
use crate::primitives::{Address, StorageKey, StorageValue, Word};
use vstd::prelude::*;

verus! {

/// The opcode of the storage load.
pub const SLOAD: u8 = 0x54;

/// The opcode of the storage store.
pub const SSTORE: u8 = 0x55;

/// What the tracker still needs to learn from the engine to finish the
/// record of an instruction.
#[derive(Clone, Copy, Debug, PartialEq, Eq)]
pub enum Pending {
    /// Nothing: the record is complete.
    Nothing,
    /// A load met a journaled change of its slot that the write-set does not
    /// hold yet. Needed: the present value of the slot in the engine's state.
    PresentValue {
        /// The account of the slot.
        address: Address,
        /// The slot.
        key: StorageKey,
        /// What the journal says the slot held before the change.
        had_value: StorageValue,
    },
    /// A store went to a slot whose pre-value neither the write-set nor the
    /// snapshot knows. Needed: the database's value of the slot.
    DatabaseValue {
        /// The account of the slot.
        address: Address,
        /// The slot.
        key: StorageKey,
        /// The value about to be stored.
        post: StorageValue,
    },
}

/// The pre-value of a slot as far as the tracker knows it without asking the
/// database: that of the slot's write entry if it has one, else the
/// snapshot's value if the snapshot declares the slot.
pub open spec fn known_pre_value(state: AccessState, address: Address, key: StorageKey) -> Option<
    StorageValue,
> {
    if written(state.writes, address, key) {
        Some(entry(state.writes, address, key).0)
    } else if declares(state.pre_state, address, key) {
        Some(declared_of(state.pre_state, address)[key])
    } else {
        None
    }
}

/// What a tracker in `state` holds after the hook has seen an instruction.
///
/// `top` and `below` are the two topmost stack operands, `None` where the
/// stack is too shallow.
pub open spec fn after_step(
    state: AccessState,
    opcode: u8,
    target: Address,
    top: Option<Word>,
    below: Option<Word>,
) -> AccessState {
    if opcode == SLOAD && top is Some {
        AccessState { reads: with_read(state.reads, target, top->0), ..state }
    } else if opcode == SSTORE && top is Some && below is Some {
        match known_pre_value(state, target, top->0) {
            Some(pre) => AccessState {
                writes: with_write(state.writes, target, top->0, pre, below->0),
                ..state
            },
            None => state,
        }
    } else {
        state
    }
}

/// What is pending after the hook has seen an instruction.
pub open spec fn pending_after_step(
    state: AccessState,
    opcode: u8,
    target: Address,
    top: Option<Word>,
    below: Option<Word>,
    journal: Seq<JournalEntry>,
) -> Pending {
    if opcode == SLOAD && top is Some {
        let key = top->0;
        if written(state.writes, target, key) {
            Pending::Nothing
        } else {
            match journaled_pre_value(journal, target, key) {
                Some(had_value) => Pending::PresentValue { address: target, key, had_value },
                None => Pending::Nothing,
            }
        }
    } else if opcode == SSTORE && top is Some && below is Some {
        match known_pre_value(state, target, top->0) {
            Some(_) => Pending::Nothing,
            None => Pending::DatabaseValue { address: target, key: top->0, post: below->0 },
        }
    } else {
        Pending::Nothing
    }
}

/// What a tracker in `state` holds once `pending` has been answered.
///
/// `answer` is the value asked for, `None` if the engine has none. A missing
/// present value leaves the write-set as it is. A database value goes
/// through the pre-state oracle: the snapshot's value comes first, and a
/// missing database value is zero.
pub open spec fn after_resolve(
    state: AccessState,
    pending: Pending,
    answer: Option<StorageValue>,
) -> AccessState {
    match pending {
        Pending::Nothing => state,
        Pending::PresentValue { address, key, had_value } => match answer {
            Some(present) => AccessState {
                writes: with_seed(state.writes, address, key, had_value, present),
                ..state
            },
            None => state,
        },
        Pending::DatabaseValue { address, key, post } => AccessState {
            writes: with_write(
                state.writes,
                address,
                key,
                pre_value(state.pre_state, address, key, answer),
                post,
            ),
            ..state
        },
    }
}

impl StorageChangeInspector {
    /// Looks at the instruction the engine is about to execute.
    ///
    /// `opcode` is the instruction, `target` the account whose storage the
    /// running call works on, `top` and `below` the two topmost stack
    /// operands (`None` where the stack is too shallow), and `journal` the
    /// engine's journal, oldest record first.
    ///
    /// - A storage load with an operand records a read of the slot the
    ///   operand names. If the write-set has no entry for the slot and the
    ///   journal records a change of it, the slot's present value is
    ///   pending: with it, the most recent such record seeds a write entry.
    /// - A storage store with both operands records a write of the second
    ///   operand to the slot the first names. The pre-value is that of the
    ///   slot's write entry if there is one, else the snapshot's if it
    ///   declares the slot; else the database's value is pending.
    /// - Any other instruction, and a load or store that lacks an operand,
    ///   changes nothing.
    pub fn step(
        &mut self,
        opcode: u8,
        target: Address,
        top: Option<Word>,
        below: Option<Word>,
        journal: &[JournalEntry],
    ) -> (pending: Pending)
        ensures
            final(self)@ == after_step(old(self)@, opcode, target, top, below),
            pending == pending_after_step(old(self)@, opcode, target, top, below, journal@),
    {
        if opcode == SLOAD {
            match top {
                Some(key) => {
                    self.record_read(target, key);
                    if self.write_entry(target, key).is_some() {
                        Pending::Nothing
                    } else {
                        match find_journaled_pre_value(journal, target, key) {
                            Some(had_value) => Pending::PresentValue {
                                address: target,
                                key,
                                had_value,
                            },
                            None => Pending::Nothing,
                        }
                    }
                },
                None => Pending::Nothing,
            }
        } else if opcode == SSTORE {
            match (top, below) {
                (Some(key), Some(post)) => {
                    let known = match self.write_entry(target, key) {
                        Some(found) => Some(found.0),
                        None => self.declared_value(target, key),
                    };
                    match known {
                        Some(pre) => {
                            self.record_write(target, key, pre, post);
                            Pending::Nothing
                        },
                        None => Pending::DatabaseValue { address: target, key, post },
                    }
                },
                _ => Pending::Nothing,
            }
        } else {
            Pending::Nothing
        }
    }

    /// Whether [`step`](Self::step) will read the journal for this
    /// instruction: it does for a storage load of a slot that has no write
    /// entry yet, and for nothing else.
    ///
    /// Where the answer is no, the caller may hand `step` an empty journal
    /// and spare itself the work of preparing one: what `step` records does
    /// not depend on the journal at all, and what it leaves pending does not
    /// for such an instruction.
    pub fn reads_journal(&self, opcode: u8, target: Address, top: Option<Word>) -> (reads: bool)
        ensures
            reads == (opcode == SLOAD && top is Some && !written(self@.writes, target, top->0)),
            !reads ==> forall|below: Option<Word>, journal: Seq<JournalEntry>|
                #[trigger] pending_after_step(self@, opcode, target, top, below, journal)
                    == pending_after_step(self@, opcode, target, top, below, Seq::empty()),
    {
        if opcode == SLOAD {
            match top {
                Some(key) => self.write_entry(target, key).is_none(),
                None => false,
            }
        } else {
            false
        }
    }

    /// Finishes the record of an instruction with the value that
    /// [`step`](Self::step) asked for.
    ///
    /// `answer` is the present value or the database's value of the slot
    /// named in `pending`, `None` if the engine has none.
    pub fn resolve(&mut self, pending: Pending, answer: Option<StorageValue>)
        ensures
            final(self)@ == after_resolve(old(self)@, pending, answer),
    {
        match pending {
            Pending::Nothing => {},
            Pending::PresentValue { address, key, had_value } => {
                match answer {
                    Some(present) => {
                        self.seed_write(address, key, had_value, present);
                    },
                    None => {},
                }
            },
            Pending::DatabaseValue { address, key, post } => {
                let pre = self.value_of(address, key, answer);
                self.record_write(address, key, pre, post);
            },
        }
    }
}

} // verus!
