use strapped_core::client_history::{board_cells, GameHistory, HistoryRecord};
use strapped_core::client_state::{AccountData, Bet, HistoricalData};
use strapped_core::types::{Modifier, Roll, Strap, StrapKind};

fn strap(level: u8) -> Strap {
    Strap { level, kind: StrapKind::Hat, modifier: Modifier::Nothing }
}

fn record(game_id: u32, claimed: bool) -> HistoryRecord {
    HistoryRecord {
        game_id,
        rolls: vec![Roll::Four, Roll::Seven],
        modifiers: vec![(Roll::Four, Modifier::Lucky, 1)],
        strap_rewards: vec![(Roll::Four, strap(1), 5)],
        per_roll_bets: vec![(Roll::Four, vec![(Bet::Chip, 3, 0)])],
        claimed,
    }
}

#[test]
fn a_later_board_closes_the_previous_game() {
    let mut h = GameHistory::new();
    let bets = vec![(Roll::Six, vec![(Bet::Chip, 10, 0)])];
    h.observe_board(1, vec![Roll::Six, Roll::Eight], bets.clone(), vec![(Roll::Six, Modifier::Holy, 1)], vec![(Roll::Six, strap(1), 7)]);
    assert!(h.games.is_empty());
    assert_eq!(h.last_seen_game_id, Some(1));

    h.observe_board(2, Vec::new(), Vec::new(), Vec::new(), Vec::new());
    assert_eq!(h.games.len(), 1);
    assert_eq!(h.games[0].game_id, 1);
    assert_eq!(h.games[0].rolls, vec![Roll::Six, Roll::Eight, Roll::Seven]);
    assert_eq!(h.games[0].modifiers, vec![(Roll::Six, Modifier::Holy, 1)]);
    assert_eq!(h.bets_by_game.get(&1), Some(&bets));
    assert!(!h.claimed.contains(&1));
    assert_eq!(h.last_seen_game_id, Some(2));
    assert_eq!(h.rewards_by_game.get(&1), Some(&vec![(Roll::Six, strap(1), 7)]));
}

#[test]
fn a_game_without_bets_counts_as_claimed() {
    let mut h = GameHistory::new();
    h.observe_board(4, vec![Roll::Seven], vec![(Roll::Two, Vec::new())], Vec::new(), Vec::new());
    h.observe_board(5, Vec::new(), Vec::new(), Vec::new(), Vec::new());
    assert_eq!(h.games[0].rolls, vec![Roll::Seven]);
    assert!(h.claimed.contains(&4));
}

#[test]
fn the_same_game_closes_nothing_and_keeps_first_rewards() {
    let mut h = GameHistory::new();
    h.observe_board(3, vec![Roll::Two], Vec::new(), Vec::new(), vec![(Roll::Two, strap(1), 1)]);
    h.observe_board(3, vec![Roll::Two, Roll::Three], Vec::new(), Vec::new(), vec![(Roll::Two, strap(2), 2)]);
    assert!(h.games.is_empty());
    assert_eq!(h.rewards_by_game.get(&3), Some(&vec![(Roll::Two, strap(1), 1)]));
    assert_eq!(h.last_rolls, vec![Roll::Two, Roll::Three]);
}

#[test]
fn records_are_listed_newest_first_and_trimmed() {
    let mut h = GameHistory::new();
    let records: Vec<HistoryRecord> = (0..12).map(|g| record(g, g % 2 == 0)).collect();
    h.ingest_history_records(records);
    assert_eq!(h.games.len(), 10);
    let ids: Vec<u32> = h.games.iter().map(|g| g.game_id).collect();
    assert_eq!(ids, vec![11, 10, 9, 8, 7, 6, 5, 4, 3, 2]);
    assert!(h.claimed.contains(&0));
    assert!(!h.claimed.contains(&1));
    assert_eq!(h.bets_by_game.get(&0), Some(&vec![(Roll::Four, vec![(Bet::Chip, 3, 0)])]));
    assert_eq!(h.modifiers_by_game.get(&11), Some(&vec![(Roll::Four, Modifier::Lucky, 1)]));
}

#[test]
fn no_records_change_nothing() {
    let mut h = GameHistory::new();
    h.ingest_history_records(Vec::new());
    assert!(h.games.is_empty());
}

#[test]
fn a_claim_adds_upgraded_straps_and_marks_the_game() {
    let mut h = GameHistory::new();
    h.ingest_history_records(vec![record(2, false)]);
    h.record_claim(2, &vec![(Roll::Four, strap(1)), (Roll::Five, strap(2))]);
    let rewards = h.rewards_by_game.get(&2).unwrap();
    assert_eq!(rewards.len(), 2);
    assert_eq!(rewards[0], (Roll::Four, strap(1), 5));
    assert_eq!(rewards[1].0, Roll::Five);
    assert_eq!(rewards[1].1, strap(2));
    assert!(h.claimed.contains(&2));
    h.record_claim(2, &Vec::new());
    assert_eq!(h.claimed.iter().filter(|g| **g == 2).count(), 1);
}

#[test]
fn missing_history_is_asked_for() {
    let mut h = GameHistory::new();
    h.ingest_history_records(vec![record(1, false)]);
    assert_eq!(h.pending_history_game_ids(3), vec![0, 2]);
    assert_eq!(h.pending_history_game_ids(0), Vec::<u32>::new());
}

#[test]
fn records_come_from_the_snapshots() {
    let hist = HistoricalData {
        game_id: 7,
        rolls: vec![Roll::Two],
        modifiers: vec![(Roll::Two, Modifier::Burnt, 0)],
        strap_rewards: vec![(Roll::Two, strap(1), 3)],
    };
    let rec = HistoryRecord::from_snapshots(7, hist, None);
    assert_eq!(rec.game_id, 7);
    assert_eq!(rec.rolls, vec![Roll::Two]);
    assert_eq!(rec.per_roll_bets.len(), 11);
    assert!(rec.per_roll_bets.iter().all(|(_, bets)| bets.is_empty()));
    assert!(!rec.claimed);

    let hist = HistoricalData { game_id: 8, rolls: Vec::new(), modifiers: Vec::new(), strap_rewards: Vec::new() };
    let account = AccountData {
        per_roll_bets: vec![(Roll::Six, vec![(Bet::Chip, 2, 1)])],
        strap_totals: Vec::new(),
        total_chip_bet: 2,
        total_chip_won: 0,
        claimed_rewards: Some((0, Vec::new())),
        block_height: 4,
    };
    let rec = HistoryRecord::from_snapshots(8, hist, Some(account));
    assert_eq!(rec.per_roll_bets, vec![(Roll::Six, vec![(Bet::Chip, 2, 1)])]);
    assert!(rec.claimed);
}

#[test]
fn summaries_list_the_games_with_their_cells() {
    let mut h = GameHistory::new();
    h.ingest_history_records(vec![record(2, true), record(1, false)]);
    let summaries = h.previous_game_summaries();
    assert_eq!(summaries.len(), 2);
    assert_eq!(summaries[0].game_id, 2);
    assert!(summaries[0].claimed);
    assert_eq!(summaries[1].game_id, 1);
    assert!(!summaries[1].claimed);
    assert_eq!(summaries[1].cells.len(), 11);
    assert_eq!(summaries[1].cells[2].roll, Roll::Four);
    assert_eq!(summaries[1].cells[2].chip_total, 3);
    assert_eq!(summaries[1].cells[0].chip_total, 0);
    assert_eq!(summaries[1].rolls, vec![Roll::Four, Roll::Seven]);
    assert_eq!(summaries[1].bets_by_roll, vec![(Roll::Four, vec![(Bet::Chip, 3, 0)])]);
}

#[test]
fn board_cells_follow_the_rows() {
    let rows = vec![
        (Roll::Six, vec![(Bet::Chip, 2, 0), (Bet::Strap(strap(1)), 1, 0), (Bet::Chip, 5, 1)]),
        (Roll::Two, Vec::new()),
    ];
    let rewards = vec![(Roll::Six, strap(2), 9), (Roll::Six, strap(2), 9), (Roll::Two, strap(1), 4)];
    let cells = board_cells(&rows, &rewards);
    assert_eq!(cells.len(), 2);
    assert_eq!(cells[0].roll, Roll::Six);
    assert_eq!(cells[0].chip_total, 7);
    assert_eq!(cells[0].strap_total, 1);
    assert_eq!(cells[0].straps, vec![(strap(1), 1)]);
    assert_eq!(cells[0].rewards.len(), 1);
    assert_eq!(cells[0].rewards[0].count, 2);
    assert_eq!(cells[1].chip_total, 0);
    assert_eq!(cells[1].rewards.len(), 1);
}
