//! Unwinding the chain: which block to go back to, and by which route.
//!
//! The functions here decide. Reading the database and running the unwind
//! are the caller's part: it looks up what a decision needs, hands it in as
//! plain values and carries out what comes back.

use crate::primitives::Word;
use vstd::prelude::*;

verus! {

/// The hash of a block: 32 bytes, read as a big-endian word.
pub type BlockHash = Word;

/// A block, named by its hash or by its number.
#[derive(Clone, Copy, Debug, PartialEq, Eq)]
pub enum BlockHashOrNumber {
    /// The block with this hash.
    Hash(BlockHash),
    /// The block with this number.
    Number(u64),
}

/// How far to unwind.
#[derive(Clone, Copy, Debug, PartialEq, Eq)]
pub enum Subcommands {
    /// Unwind until the given block is the latest: it stays, every later
    /// block goes.
    ToBlock {
        /// The block to unwind to.
        target: BlockHashOrNumber,
    },
    /// Unwind the given number of blocks, counted from the latest.
    NumBlocks {
        /// How many blocks to remove.
        amount: u64,
    },
}

/// Why no block to unwind to could be named.
#[derive(Clone, Copy, Debug, PartialEq, Eq, Structural)]
pub enum UnwindError {
    /// The database knows no block with the hash given.
    HashNotFound,
    /// The block asked for lies after the latest block.
    TargetAboveLatest {
        /// The number of the block asked for.
        target: u64,
        /// The number of the latest block.
        last: u64,
    },
}

/// By which route the unwind goes.
#[derive(Clone, Copy, Debug, PartialEq, Eq, Structural)]
pub enum UnwindRoute {
    /// Through the stage pipeline, after all data that belongs in static
    /// files has been moved there.
    Pipeline,
    /// Straight on the database.
    Database,
}

/// The block that `command` unwinds to when the latest block is `last`.
///
/// `resolved` is the number of the block that the command names by hash, if
/// the database knows that hash.
pub open spec fn target_block(command: Subcommands, last: u64, resolved: Option<u64>) -> Result<
    u64,
    UnwindError,
> {
    match command {
        Subcommands::ToBlock { target: BlockHashOrNumber::Hash(_) } => match resolved {
            Some(number) => checked_target(number, last),
            None => Err(UnwindError::HashNotFound),
        },
        Subcommands::ToBlock { target: BlockHashOrNumber::Number(number) } => checked_target(
            number,
            last,
        ),
        Subcommands::NumBlocks { amount } => Ok(
            if amount >= last {
                0
            } else {
                (last - amount) as u64
            },
        ),
    }
}

/// A target is accepted if it does not lie after the latest block.
pub open spec fn checked_target(target: u64, last: u64) -> Result<u64, UnwindError> {
    if target > last {
        Err(UnwindError::TargetAboveLatest { target, last })
    } else {
        Ok(target)
    }
}

impl Subcommands {
    /// The hash that the database must resolve to a block number before
    /// [`unwind_target`](Self::unwind_target) can decide, if there is one.
    pub fn hash_to_resolve(&self) -> (hash: Option<BlockHash>)
        ensures
            hash == match *self {
                Subcommands::ToBlock { target: BlockHashOrNumber::Hash(hash) } => Some(hash),
                _ => None,
            },
    {
        match self {
            Subcommands::ToBlock { target: BlockHashOrNumber::Hash(hash) } => Some(*hash),
            _ => None,
        }
    }

    /// The block to unwind to, which stays in the database.
    ///
    /// `last` is the number of the latest block. `resolved` is the number
    /// of the block with the hash that
    /// [`hash_to_resolve`](Self::hash_to_resolve) gave, `None` if the
    /// database knows no such block or no hash was given.
    ///
    /// Counting blocks back from the latest stops at block 0. A target after
    /// the latest block is an error, and so is a hash that the database
    /// does not know.
    pub fn unwind_target(&self, last: u64, resolved: Option<u64>) -> (target: Result<
        u64,
        UnwindError,
    >)
        ensures
            target == target_block(*self, last, resolved),
            target matches Ok(block) ==> block <= last,
    {
        let target = match self {
            Subcommands::ToBlock { target: BlockHashOrNumber::Hash(_) } => match resolved {
                Some(number) => number,
                None => {
                    return Err(UnwindError::HashNotFound);
                },
            },
            Subcommands::ToBlock { target: BlockHashOrNumber::Number(number) } => *number,
            Subcommands::NumBlocks { amount } => last.saturating_sub(*amount),
        };
        if target > last {
            return Err(UnwindError::TargetAboveLatest { target, last });
        }
        Ok(target)
    }
}

/// The highest block held in static files, if it lies after the block to
/// unwind to: such a block makes the unwind go through the pipeline.
pub fn static_file_block_above(highest_static_file_block: Option<u64>, target: u64) -> (above:
    Option<u64>)
    ensures
        above == match highest_static_file_block {
            Some(block) if block > target => Some(block),
            _ => None,
        },
{
    match highest_static_file_block {
        Some(block) => if block > target {
            Some(block)
        } else {
            None
        },
        None => None,
    }
}

/// The route of an unwind to `target`.
///
/// It goes through the pipeline if static files hold a block after the
/// target, or if only the offline stages are to be unwound. Else it goes
/// straight on the database.
pub fn unwind_route(highest_static_file_block: Option<u64>, target: u64, offline: bool) -> (route:
    UnwindRoute)
    ensures
        route == if offline || (highest_static_file_block matches Some(block) && block > target) {
            UnwindRoute::Pipeline
        } else {
            UnwindRoute::Database
        },
{
    if static_file_block_above(highest_static_file_block, target).is_some() || offline {
        UnwindRoute::Pipeline
    } else {
        UnwindRoute::Database
    }
}

/// Whether an unwind to `target` must move the recorded finalized block to
/// the target: it must if none is recorded or the recorded one lies after
/// the target.
pub fn finalized_block_must_move(last_finalized: Option<u64>, target: u64) -> (moves: bool)
    ensures
        moves == match last_finalized {
            Some(block) => block > target,
            None => true,
        },
{
    match last_finalized {
        Some(block) => block > target,
        None => true,
    }
}

} // verus!
