#![allow(non_snake_case)]
use strapped_core::client_state::{
    all_bets_empty, available_bet_capacity, bet_entry_eq, build_owned_straps, choose_roll_history, claim_candidates,
    claimed_chips, completed_rolls, expected_upgraded_straps, has_claimable_bets, modifier_floor_price,
    modifier_order_value, modifier_override_for_roll, net_chips, next_roll, overlay_pending_bets,
    pending_history_game_ids, prev_roll, push_errors, reconcile_pending_bets, record_new_pending_bets,
    record_upgrades, remove_known_bets, roll_article, roll_cell, roll_outcome, strap_kind_order_value,
    summary_cell, total_chip_bet, trim_history, upsert_shared_game, AccountData, Bet, HistoricalData, PendingBet,
    PendingRoll, PreviousGameSummary, RewardInfo, RollCell, RollOutcome, RollTracking, SharedGame,
};
use strapped_core::snapshot::{
    AccountBetKind, AccountBetPlacement, AccountRollBets, AccountSnapshot, ActiveModifier, HistoricalSnapshot,
};
use strapped_core::table::Table;
use strapped_core::types::{Modifier, Roll, Strap, StrapKind};

#[test]
fn build_owned_straps__returns_owned_assets_with_positive_balances() {
    // given
    let strap = Strap { level: 1, kind: StrapKind::Hat, modifier: Modifier::Lucky };
    let asset_id = [1u8; 32];
    let mut strap_info = Table::new();
    strap_info.insert(asset_id, strap);
    let mut balances = Table::new();
    balances.insert(asset_id, 3u128);
    let ordered_ids = vec![asset_id];

    // when
    let owned = build_owned_straps(&ordered_ids, &strap_info, &balances);

    // then
    assert_eq!(owned, vec![(strap, 3)]);
}

#[test]
fn build_owned_straps__skips_unknown_or_zero_balance_assets() {
    // given
    let known_strap = Strap { level: 2, kind: StrapKind::Scarf, modifier: Modifier::Holy };
    let known_asset = [2u8; 32];
    let unknown_asset = [3u8; 32];
    let mut strap_info = Table::new();
    strap_info.insert(known_asset, known_strap);
    let mut balances = Table::new();
    balances.insert(known_asset, 5u128);
    balances.insert(unknown_asset, 7u128);
    balances.insert([4u8; 32], 0u128);
    let ordered_ids = vec![known_asset, unknown_asset, [4u8; 32]];

    // when
    let owned = build_owned_straps(&ordered_ids, &strap_info, &balances);

    // then
    assert_eq!(owned, vec![(known_strap, 5)]);
}

#[test]
fn build_owned_straps__skips_balances_beyond_u64() {
    let strap = Strap::new(1, StrapKind::Ring, Modifier::Nothing);
    let mut strap_info = Table::new();
    strap_info.insert([5u8; 32], strap);
    let mut balances = Table::new();
    balances.insert([5u8; 32], u64::MAX as u128 + 1);
    assert!(build_owned_straps(&vec![[5u8; 32]], &strap_info, &balances).is_empty());
}

#[test]
fn next_and_prev_roll__wrap_around_the_board() {
    assert_eq!(next_roll(Roll::Two), Roll::Three);
    assert_eq!(next_roll(Roll::Twelve), Roll::Two);
    assert_eq!(prev_roll(Roll::Two), Roll::Twelve);
    assert_eq!(prev_roll(Roll::Eight), Roll::Seven);
}

#[test]
fn prices_and_orders() {
    assert_eq!(modifier_floor_price(&Modifier::Nothing), 0);
    assert_eq!(modifier_floor_price(&Modifier::Delicate), 110);
    assert_eq!(strap_kind_order_value(&StrapKind::Belt), 18);
    assert_eq!(modifier_order_value(&Modifier::Evil), 9);
    assert_eq!(roll_article(Roll::Eight), "an");
    assert_eq!(roll_article(Roll::Eleven), "an");
    assert_eq!(roll_article(Roll::Six), "a");
}

#[test]
fn available_bet_capacity__five_percent_of_unowed_pot_less_bets() {
    assert_eq!(available_bet_capacity(10_000, 2_000, 100), 300);
    assert_eq!(available_bet_capacity(10_000, 2_000, 1_000), 0);
    assert_eq!(available_bet_capacity(100, 500, 0), 0);
    assert_eq!(available_bet_capacity(u64::MAX, 0, 0), u64::MAX / 100);
}

#[test]
fn roll_cell__totals_straps_and_rewards() {
    let hat = Strap::new(1, StrapKind::Hat, Modifier::Nothing);
    let ring = Strap::new(2, StrapKind::Ring, Modifier::Lucky);
    let bets = vec![(Bet::Chip, 10, 0), (Bet::Strap(hat), 2, 0), (Bet::Chip, 5, 1), (Bet::Strap(ring), 1, 1), (Bet::Strap(hat), 3, 2)];
    let rewards = vec![(Roll::Six, hat, 20), (Roll::Eight, ring, 50), (Roll::Six, hat, 20), (Roll::Six, hat, 30)];
    let cell = roll_cell(Roll::Six, &bets, &rewards);
    assert_eq!(
        cell,
        RollCell {
            roll: Roll::Six,
            chip_total: 15,
            strap_total: 6,
            straps: vec![(hat, 5), (ring, 1)],
            rewards: vec![RewardInfo { strap: hat, cost: 20, count: 2 }, RewardInfo { strap: hat, cost: 30, count: 1 }],
        }
    );
}

#[test]
fn summary_cell__and_game_chip_total() {
    let hat = Strap::new(1, StrapKind::Hat, Modifier::Nothing);
    let rows = vec![
        (Roll::Six, vec![(Bet::Chip, 10, 0), (Bet::Strap(hat), 2, 0)]),
        (Roll::Eight, vec![(Bet::Chip, 4, 1)]),
        (Roll::Six, vec![(Bet::Chip, 100, 0)]),
    ];
    let cell = summary_cell(Roll::Six, &rows);
    assert_eq!((cell.chip_total, cell.strap_total), (10, 2));
    assert!(cell.straps.is_empty() && cell.rewards.is_empty());
    assert_eq!(summary_cell(Roll::Two, &rows).chip_total, 0);
    assert_eq!(total_chip_bet(&rows), 114);
    assert!(!all_bets_empty(&rows));
    assert!(all_bets_empty(&vec![(Roll::Two, vec![]), (Roll::Three, vec![])]));
}

#[test]
fn expected_upgraded_straps__levels_up_hit_strap_bets() {
    let hat = Strap::new(1, StrapKind::Hat, Modifier::Nothing);
    let ring = Strap::new(255, StrapKind::Ring, Modifier::Nothing);
    let rows = vec![
        (Roll::Six, vec![(Bet::Strap(hat), 1, 0), (Bet::Chip, 5, 0)]),
        (Roll::Eight, vec![(Bet::Strap(ring), 1, 2)]),
    ];
    let rolls = vec![Roll::Six, Roll::Eight, Roll::Eight];
    let active = vec![(Roll::Six, Modifier::Lucky, 0)];
    let enabled = vec![(Roll::Six, Modifier::Lucky)];
    let upgrades = expected_upgraded_straps(Some(&rows), &rolls, &active, &enabled);
    assert_eq!(
        upgrades,
        vec![
            (Roll::Six, Strap::new(2, StrapKind::Hat, Modifier::Lucky)),
            (Roll::Eight, Strap::new(255, StrapKind::Ring, Modifier::Nothing)),
        ]
    );
    // without the modifier enabled, the strap keeps its modifier
    let upgrades = expected_upgraded_straps(Some(&rows), &rolls, &active, &vec![]);
    assert_eq!(upgrades[0], (Roll::Six, Strap::new(2, StrapKind::Hat, Modifier::Nothing)));
    assert!(expected_upgraded_straps(None, &rolls, &active, &enabled).is_empty());
    assert!(expected_upgraded_straps(Some(&rows), &vec![], &active, &enabled).is_empty());
}

#[test]
fn modifier_override_for_roll__first_active_modifier_decides() {
    let active = vec![(Roll::Six, Modifier::Lucky, 3), (Roll::Six, Modifier::Holy, 0)];
    let enabled = vec![(Roll::Six, Modifier::Holy)];
    // the Lucky entry was not active yet for a bet at index 1, the Holy one was
    assert_eq!(modifier_override_for_roll(&active, &Roll::Six, 1, &enabled), Some(Modifier::Holy));
    // at index 3 the Lucky entry comes first and is not enabled
    assert_eq!(modifier_override_for_roll(&active, &Roll::Six, 3, &enabled), None);
    assert_eq!(modifier_override_for_roll(&active, &Roll::Two, 9, &enabled), None);
}

#[test]
fn record_roll__tracks_rolls_and_pending() {
    let mut st = RollTracking {
        overview: Some((4, vec![Roll::Two])),
        shared_last_roll_history: vec![],
        last_seen_game_id: None,
        pending_rolls: vec![PendingRoll { game_id: 3, index: 0, roll: Roll::Six }],
    };
    assert!(!st.record_roll(4, Roll::Nine));
    assert_eq!(st.overview, Some((4, vec![Roll::Two, Roll::Nine])));
    assert_eq!(st.shared_last_roll_history, vec![Roll::Two, Roll::Nine]);
    assert_eq!(st.last_seen_game_id, Some(4));
    assert_eq!(st.pending_rolls.last(), Some(&PendingRoll { game_id: 4, index: 1, roll: Roll::Nine }));
    assert!(st.record_roll(4, Roll::Seven));
    assert_eq!(st.overview, Some((4, vec![])));
    assert!(st.shared_last_roll_history.is_empty());
    assert!(st.pending_rolls.is_empty());

    let mut st = RollTracking { overview: None, shared_last_roll_history: vec![Roll::Ten], last_seen_game_id: Some(2), pending_rolls: vec![] };
    st.record_roll(2, Roll::Five);
    assert_eq!(st.shared_last_roll_history, vec![Roll::Ten, Roll::Five]);
    assert_eq!(st.pending_rolls, vec![PendingRoll { game_id: 2, index: 1, roll: Roll::Five }]);
    st.record_roll(3, Roll::Four);
    assert_eq!(st.shared_last_roll_history, vec![Roll::Four]);
}

#[test]
fn apply_pending_rolls__patches_stale_overview_once() {
    let mut st = RollTracking {
        overview: None,
        shared_last_roll_history: vec![],
        last_seen_game_id: None,
        pending_rolls: vec![
            PendingRoll { game_id: 5, index: 2, roll: Roll::Nine },
            PendingRoll { game_id: 4, index: 0, roll: Roll::Two },
            PendingRoll { game_id: 5, index: 1, roll: Roll::Eight },
            PendingRoll { game_id: 6, index: 0, roll: Roll::Three },
            PendingRoll { game_id: 5, index: 0, roll: Roll::Ten },
        ],
    };
    let mut rolls = vec![Roll::Four];
    st.apply_pending_rolls(5, &mut rolls);
    assert_eq!(rolls, vec![Roll::Four, Roll::Eight, Roll::Nine]);
    assert_eq!(
        st.pending_rolls,
        vec![
            PendingRoll { game_id: 5, index: 1, roll: Roll::Eight },
            PendingRoll { game_id: 5, index: 2, roll: Roll::Nine },
            PendingRoll { game_id: 6, index: 0, roll: Roll::Three },
        ]
    );
    // applying again to the patched rolls adds nothing
    st.apply_pending_rolls(5, &mut rolls);
    assert_eq!(rolls, vec![Roll::Four, Roll::Eight, Roll::Nine]);
}

#[test]
fn bet_bookkeeping__remove_overlay_reconcile_record() {
    let chip = (Bet::Chip, 5, 0);
    let other = (Bet::Chip, 6, 0);
    assert!(bet_entry_eq(&chip, &(Bet::Chip, 5, 0)));
    assert!(!bet_entry_eq(&chip, &other));
    let mut pool = vec![chip, other, chip];
    remove_known_bets(&mut pool, &vec![chip, (Bet::Chip, 9, 9)]);
    assert_eq!(pool, vec![other, chip]);

    let pending = vec![
        PendingBet { game_id: 1, roll: Roll::Six, bet: Bet::Chip, amount: 5, roll_index: None },
        PendingBet { game_id: 1, roll: Roll::Nine, bet: Bet::Chip, amount: 7, roll_index: Some(2) },
        PendingBet { game_id: 2, roll: Roll::Six, bet: Bet::Chip, amount: 1, roll_index: Some(0) },
    ];
    let mut rows = vec![(Roll::Six, vec![other])];
    overlay_pending_bets(&pending, 1, &mut rows);
    assert_eq!(rows, vec![(Roll::Six, vec![other, chip]), (Roll::Nine, vec![(Bet::Chip, 7, 2)])]);

    let account_rows = vec![(Roll::Six, vec![chip]), (Roll::Nine, vec![])];
    let kept = reconcile_pending_bets(&pending, Some(1), Some(&account_rows));
    assert_eq!(kept, vec![pending[1], pending[2]]);
    assert_eq!(reconcile_pending_bets(&pending, None, Some(&account_rows)), vec![]);
    assert_eq!(reconcile_pending_bets(&pending, Some(1), None), pending);

    let mut pending2 = vec![PendingBet { game_id: 1, roll: Roll::Six, bet: Bet::Chip, amount: 7, roll_index: Some(1) }];
    record_new_pending_bets(&mut pending2, Some(1), Some(&account_rows), Roll::Six, vec![chip, (Bet::Chip, 7, 1), (Bet::Chip, 8, 1)]);
    assert_eq!(
        pending2,
        vec![
            PendingBet { game_id: 1, roll: Roll::Six, bet: Bet::Chip, amount: 7, roll_index: Some(1) },
            PendingBet { game_id: 1, roll: Roll::Six, bet: Bet::Chip, amount: 8, roll_index: Some(1) },
        ]
    );
}

#[test]
fn push_errors__keeps_the_newest_fifty() {
    let mut errors: Vec<String> = (0..45).map(|i| format!("e{i}")).collect();
    push_errors(&mut errors, vec![]);
    assert_eq!(errors.len(), 45);
    push_errors(&mut errors, (45..60).map(|i| format!("e{i}")).collect());
    assert_eq!(errors.len(), 50);
    assert_eq!(errors[0], "e10");
    assert_eq!(errors[49], "e59");
}

#[test]
fn shared_games__upsert_and_trim_newest_first() {
    let mut games: Vec<SharedGame> = Vec::new();
    for id in [3u32, 1, 12, 7, 5, 9, 2, 11, 4, 8, 6, 10] {
        upsert_shared_game(&mut games, id, vec![Roll::Seven], vec![]);
    }
    upsert_shared_game(&mut games, 7, vec![Roll::Two, Roll::Seven], vec![(Roll::Two, Modifier::Burnt, 0)]);
    assert_eq!(games.len(), 12);
    trim_history(&mut games);
    let ids: Vec<u32> = games.iter().map(|g| g.game_id).collect();
    assert_eq!(ids, vec![12, 11, 10, 9, 8, 7, 6, 5, 4, 3]);
    assert_eq!(games[5].rolls, vec![Roll::Two, Roll::Seven]);
}

#[test]
fn claim_helpers__candidates_net_and_claimed() {
    let hat = Strap::new(1, StrapKind::Hat, Modifier::Nothing);
    let hat2 = Strap::new(2, StrapKind::Hat, Modifier::Nothing);
    let list = vec![(Roll::Two, hat, 20), (Roll::Three, hat, 20)];
    let upgraded = vec![(Roll::Two, hat2), (Roll::Four, hat)];
    assert_eq!(claim_candidates(&list, &upgraded), vec![hat, hat2]);
    assert_eq!(net_chips(150, 100), (true, 50));
    assert_eq!(net_chips(40, 100), (false, 60));
    assert_eq!(claimed_chips(Some(9), 0, 100), 9);
    assert_eq!(claimed_chips(None, 100, 130), 30);
    assert_eq!(claimed_chips(None, 100, 90), 0);
    assert_eq!(claimed_chips(None, 0, u128::MAX), u64::MAX);
    let mut rewards = list.clone();
    record_upgrades(&mut rewards, &upgraded);
    assert_eq!(rewards, vec![(Roll::Two, hat, 20), (Roll::Three, hat, 20), (Roll::Two, hat2, 20)]);
}

#[test]
fn roll_history_and_outcome() {
    assert_eq!(completed_rolls(&vec![Roll::Two]), vec![Roll::Two, Roll::Seven]);
    assert_eq!(completed_rolls(&vec![Roll::Seven]), vec![Roll::Seven]);
    assert_eq!(completed_rolls(&vec![]), vec![Roll::Seven]);
    let prev = vec![Roll::Four];
    let shared = vec![Roll::Five];
    assert_eq!(choose_roll_history(&vec![Roll::Six], 3, Some((3, &prev)), Some(3), &shared), vec![Roll::Six]);
    assert_eq!(choose_roll_history(&vec![], 3, Some((3, &prev)), Some(3), &shared), vec![Roll::Four]);
    assert_eq!(choose_roll_history(&vec![], 3, Some((2, &prev)), Some(3), &shared), vec![Roll::Five]);
    assert_eq!(choose_roll_history(&vec![], 3, None, Some(2), &shared), vec![]);
    assert_eq!(roll_outcome(2, Some(Roll::Six), 4, 0, None, 5), RollOutcome::NewGame);
    assert_eq!(roll_outcome(2, Some(Roll::Six), 4, 3, Some(Roll::Nine), 4), RollOutcome::Rolled(Roll::Nine));
    assert_eq!(roll_outcome(2, Some(Roll::Six), 4, 2, Some(Roll::Nine), 4), RollOutcome::Rolled(Roll::Nine));
    assert_eq!(roll_outcome(2, Some(Roll::Six), 4, 2, Some(Roll::Six), 4), RollOutcome::Waiting);
}

#[test]
fn pending_history_game_ids__lists_incomplete_games() {
    let ids = pending_history_game_ids(4, &vec![0, 1, 2], &vec![0, 1, 2, 3], &vec![0, 1, 2, 3], &vec![1, 2, 3]);
    assert_eq!(ids, vec![0, 3]);
    assert!(pending_history_game_ids(0, &vec![], &vec![], &vec![], &vec![]).is_empty());
}

#[test]
fn has_claimable_bets__needs_a_hit_after_the_bet() {
    let mut g = PreviousGameSummary {
        game_id: 1,
        cells: vec![],
        modifiers: vec![],
        rolls: vec![Roll::Six, Roll::Eight],
        bets_by_roll: vec![(Roll::Six, vec![(Bet::Chip, 5, 1)]), (Roll::Eight, vec![(Bet::Chip, 5, 1)])],
        claimed: false,
    };
    assert!(has_claimable_bets(&g));
    g.bets_by_roll = vec![(Roll::Six, vec![(Bet::Chip, 5, 1)])];
    assert!(!has_claimable_bets(&g));
    g.bets_by_roll = vec![(Roll::Eight, vec![(Bet::Chip, 5, 1)])];
    g.claimed = true;
    assert!(!has_claimable_bets(&g));
}

#[test]
fn account_and_historical_data_from_indexer_snapshots() {
    let hat = Strap::new(1, StrapKind::Hat, Modifier::Nothing);
    let mut snapshot = AccountSnapshot::default();
    snapshot.total_chip_bet = 5;
    snapshot.claimed_rewards = Some((3, vec![(hat, 1)]));
    snapshot.per_roll_bets = vec![AccountRollBets {
        roll: Roll::Six,
        bets: vec![
            AccountBetPlacement { bet_roll_index: 2, amount: 5, kind: AccountBetKind::Chip },
            AccountBetPlacement { bet_roll_index: 3, amount: 1, kind: AccountBetKind::Strap(hat) },
        ],
    }];
    let data = AccountData::from_snapshot(&snapshot, 77);
    assert_eq!(data.per_roll_bets, vec![(Roll::Six, vec![(Bet::Chip, 5, 2), (Bet::Strap(hat), 1, 3)])]);
    assert_eq!(data.claimed_rewards, Some((3, vec![(hat, 1)])));
    assert_eq!(data.block_height, 77);
    let empty = AccountData::empty();
    assert_eq!(empty.per_roll_bets.len(), 11);
    assert_eq!(empty.per_roll_bets[5], (Roll::Seven, vec![]));

    let mut hist = HistoricalSnapshot::new(9, vec![Roll::Two, Roll::Seven], vec![ActiveModifier::new(1, Modifier::Holy, Roll::Four)]);
    hist.strap_rewards = vec![(Roll::Two, hat, 20)];
    let data = HistoricalData::from_snapshot(&hist);
    assert_eq!(
        data,
        HistoricalData {
            game_id: 9,
            rolls: vec![Roll::Two, Roll::Seven],
            modifiers: vec![(Roll::Four, Modifier::Holy, 1)],
            strap_rewards: vec![(Roll::Two, hat, 20)],
        }
    );
}
