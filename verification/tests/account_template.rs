use strapped_core::indexer::append_bet_to_account;
use strapped_core::query::normalize_account_snapshot;
use strapped_core::snapshot::{AccountBetKind, AccountBetPlacement, AccountRollBets, AccountSnapshot};
use strapped_core::types::Roll;

fn chip(amount: u64) -> AccountBetPlacement {
    AccountBetPlacement { bet_roll_index: 0, amount, kind: AccountBetKind::Chip }
}

fn account(per_roll_bets: Vec<AccountRollBets>) -> AccountSnapshot {
    AccountSnapshot {
        total_chip_bet: 9,
        strap_bets: Vec::new(),
        total_chip_won: 4,
        claimed_rewards: None,
        per_roll_bets,
    }
}

const BOARD: [Roll; 11] = [
    Roll::Two,
    Roll::Three,
    Roll::Four,
    Roll::Five,
    Roll::Six,
    Roll::Seven,
    Roll::Eight,
    Roll::Nine,
    Roll::Ten,
    Roll::Eleven,
    Roll::Twelve,
];

#[test]
fn normalizing_an_empty_table_gives_one_empty_entry_per_roll() {
    let mut snap = account(Vec::new());
    normalize_account_snapshot(&mut snap);
    assert_eq!(snap.per_roll_bets.len(), 11);
    for (entry, roll) in snap.per_roll_bets.iter().zip(BOARD.iter()) {
        assert_eq!(entry.roll, *roll);
        assert!(entry.bets.is_empty());
    }
    assert_eq!(snap.total_chip_bet, 9);
    assert_eq!(snap.total_chip_won, 4);
}

#[test]
fn normalizing_keeps_the_first_entry_of_a_roll_and_board_order() {
    let mut snap = account(vec![
        AccountRollBets { roll: Roll::Seven, bets: vec![chip(1)] },
        AccountRollBets { roll: Roll::Two, bets: vec![chip(2)] },
        AccountRollBets { roll: Roll::Seven, bets: vec![chip(3)] },
    ]);
    normalize_account_snapshot(&mut snap);
    assert_eq!(snap.per_roll_bets.len(), 11);
    assert_eq!(snap.per_roll_bets[0].roll, Roll::Two);
    assert_eq!(snap.per_roll_bets[0].bets, vec![chip(2)]);
    assert_eq!(snap.per_roll_bets[5].roll, Roll::Seven);
    assert_eq!(snap.per_roll_bets[5].bets, vec![chip(1)]);
    assert!(snap.per_roll_bets[1].bets.is_empty());
}

#[test]
fn normalizing_after_a_swap_takes_the_moved_entry_next() {
    // Taking Two's entry moves the last entry (the second Two) into its place, so the
    // second Two is gone by the time Three is looked up; Three's entry is kept.
    let mut snap = account(vec![
        AccountRollBets { roll: Roll::Two, bets: vec![chip(1)] },
        AccountRollBets { roll: Roll::Three, bets: vec![chip(2)] },
        AccountRollBets { roll: Roll::Two, bets: vec![chip(3)] },
    ]);
    normalize_account_snapshot(&mut snap);
    assert_eq!(snap.per_roll_bets[0].bets, vec![chip(1)]);
    assert_eq!(snap.per_roll_bets[1].roll, Roll::Three);
    assert_eq!(snap.per_roll_bets[1].bets, vec![chip(2)]);
    for entry in &snap.per_roll_bets[2..] {
        assert!(entry.bets.is_empty());
    }
}

#[test]
fn normalizing_leaves_a_full_table_alone() {
    let table: Vec<AccountRollBets> = BOARD
        .iter()
        .rev()
        .map(|r| AccountRollBets { roll: *r, bets: Vec::new() })
        .collect();
    let mut snap = account(table);
    normalize_account_snapshot(&mut snap);
    assert_eq!(snap.per_roll_bets[0].roll, Roll::Twelve);
    assert_eq!(snap.per_roll_bets[10].roll, Roll::Two);
}

#[test]
fn appending_a_bet_joins_the_entry_of_its_roll() {
    let mut snap = account(Vec::new());
    append_bet_to_account(&mut snap, Roll::Eight, chip(5));
    append_bet_to_account(&mut snap, Roll::Eight, chip(6));
    assert_eq!(snap.per_roll_bets.len(), 11);
    assert_eq!(snap.per_roll_bets[6].roll, Roll::Eight);
    assert_eq!(snap.per_roll_bets[6].bets, vec![chip(5), chip(6)]);
    assert_eq!(snap.total_chip_bet, 9);
}
