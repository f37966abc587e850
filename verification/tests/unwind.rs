//! The decisions of the unwind command.

use block_access_list::primitives::word_from_be_bytes;
use block_access_list::unwind::{
    finalized_block_must_move, static_file_block_above, unwind_route, BlockHashOrNumber,
    Subcommands, UnwindError, UnwindRoute,
};
use clap::{Arg, ArgAction, Command};
use std::str::FromStr;

/// The command line of the unwind command.
fn command_line() -> Command {
    Command::new("reth")
        .arg(Arg::new("datadir").long("datadir").global(true))
        .arg(Arg::new("offline").long("offline").action(ArgAction::SetTrue))
        .subcommand_required(true)
        .subcommand(Command::new("to-block").arg(Arg::new("target").required(true)))
        .subcommand(Command::new("num-blocks").arg(Arg::new("amount").required(true)))
}

/// Reads the subcommand and the offline flag off a command line.
fn parse_from(args: &[&str]) -> (Subcommands, bool) {
    let matches = command_line().get_matches_from(args);
    let offline = matches.get_flag("offline");
    let command = match matches.subcommand() {
        Some(("to-block", given)) => {
            let target = given.get_one::<String>("target").unwrap();
            let target = match alloy_eips::BlockHashOrNumber::from_str(target).unwrap() {
                alloy_eips::BlockHashOrNumber::Hash(hash) => {
                    BlockHashOrNumber::Hash(word_from_be_bytes(&hash.0))
                }
                alloy_eips::BlockHashOrNumber::Number(number) => BlockHashOrNumber::Number(number),
            };
            Subcommands::ToBlock { target }
        }
        Some(("num-blocks", given)) => {
            let amount = given.get_one::<String>("amount").unwrap();
            Subcommands::NumBlocks { amount: amount.parse().unwrap() }
        }
        _ => unreachable!(),
    };
    (command, offline)
}

#[test]
fn parse_unwind() {
    let cmd = parse_from(&["reth", "--datadir", "dir", "to-block", "100"]);
    assert_eq!(cmd.0, Subcommands::ToBlock { target: BlockHashOrNumber::Number(100) });

    let cmd = parse_from(&["reth", "--datadir", "dir", "num-blocks", "100"]);
    assert_eq!(cmd.0, Subcommands::NumBlocks { amount: 100 });
}

#[test]
fn parse_unwind_by_hash_and_offline() {
    let hash = "0x00000000000000000000000000000abc00000000000000000000000000000def";
    let cmd = parse_from(&["reth", "--offline", "to-block", hash]);
    assert_eq!(cmd.0, Subcommands::ToBlock { target: BlockHashOrNumber::Hash((0xabc, 0xdef)) });
    assert!(cmd.1);
    assert_eq!(cmd.0.hash_to_resolve(), Some((0xabc, 0xdef)));
    assert_eq!(cmd.0.unwind_target(500, Some(7)), Ok(7));
}

#[test]
fn to_block_by_number() {
    let command = Subcommands::ToBlock { target: BlockHashOrNumber::Number(100) };
    assert_eq!(command.hash_to_resolve(), None);
    assert_eq!(command.unwind_target(150, None), Ok(100));
    assert_eq!(command.unwind_target(100, None), Ok(100));
    assert_eq!(command.unwind_target(100, Some(5)), Ok(100));
    assert_eq!(
        command.unwind_target(99, None),
        Err(UnwindError::TargetAboveLatest { target: 100, last: 99 })
    );
}

#[test]
fn to_block_by_hash() {
    let hash = (0xabc, 0xdef);
    let command = Subcommands::ToBlock { target: BlockHashOrNumber::Hash(hash) };
    assert_eq!(command.hash_to_resolve(), Some(hash));
    assert_eq!(command.unwind_target(150, Some(100)), Ok(100));
    assert_eq!(command.unwind_target(150, None), Err(UnwindError::HashNotFound));
    assert_eq!(
        command.unwind_target(150, Some(151)),
        Err(UnwindError::TargetAboveLatest { target: 151, last: 150 })
    );
}

#[test]
fn num_blocks_counts_back_from_the_latest() {
    let command = Subcommands::NumBlocks { amount: 100 };
    assert_eq!(command.hash_to_resolve(), None);
    assert_eq!(command.unwind_target(150, None), Ok(50));
    assert_eq!(command.unwind_target(100, None), Ok(0));
    assert_eq!(command.unwind_target(7, None), Ok(0));
    assert_eq!(Subcommands::NumBlocks { amount: 0 }.unwind_target(7, None), Ok(7));
    assert_eq!(Subcommands::NumBlocks { amount: u64::MAX }.unwind_target(u64::MAX, None), Ok(0));
}

#[test]
fn static_files_above_the_target_force_the_pipeline() {
    assert_eq!(static_file_block_above(Some(10), 5), Some(10));
    assert_eq!(static_file_block_above(Some(5), 5), None);
    assert_eq!(static_file_block_above(Some(4), 5), None);
    assert_eq!(static_file_block_above(None, 5), None);

    assert_eq!(unwind_route(Some(10), 5, false), UnwindRoute::Pipeline);
    assert_eq!(unwind_route(Some(5), 5, false), UnwindRoute::Database);
    assert_eq!(unwind_route(None, 5, false), UnwindRoute::Database);
    assert_eq!(unwind_route(None, 5, true), UnwindRoute::Pipeline);
    assert_eq!(unwind_route(Some(4), 5, true), UnwindRoute::Pipeline);
    assert_eq!(unwind_route(Some(10), 5, true), UnwindRoute::Pipeline);
}

#[test]
fn finalized_block_moves_down_only() {
    assert!(finalized_block_must_move(None, 5));
    assert!(finalized_block_must_move(Some(6), 5));
    assert!(!finalized_block_must_move(Some(5), 5));
    assert!(!finalized_block_must_move(Some(0), 5));
}
