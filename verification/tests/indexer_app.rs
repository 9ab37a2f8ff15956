#![allow(non_snake_case)]
use strapped_core::events::{
    ClaimRewardsEvent, ContractEvent, Event, FundPotEvent, ModifierTriggeredEvent, NewGameEvent,
    PlaceChipBetEvent, PlaceStrapBetEvent, PurchaseModifierEvent,
};
use strapped_core::game_indexer::App;
use strapped_core::query::{Query, QueryResponse};
use strapped_core::snapshot::{AccountBetKind, AccountSnapshot, ActiveModifier, HistoricalSnapshot, OverviewSnapshot};
use strapped_core::storage::{InMemoryMetadataStorage, InMemorySnapshotStorage};
use strapped_core::types::{Identity, Modifier, Roll, Strap, StrapKind};

fn zero_contract_id() -> [u8; 32] {
    [0u8; 32]
}

fn arb_init_event() -> Event {
    let vrf_contract_id = [0u8; 32];
    let chip_asset_id = [1u8; 32];
    let roll_frequency = 10;
    let first_height = 100;
    Event::init_event(vrf_contract_id, chip_asset_id, roll_frequency, first_height)
}

fn app_with(snapshot_storage: InMemorySnapshotStorage) -> App {
    App::new(snapshot_storage, InMemoryMetadataStorage::default(), zero_contract_id())
}

fn latest(app: &App) -> OverviewSnapshot {
    app.snapshots.snapshot().unwrap().0
}

fn account(app: &App, player: &Identity, game_id: u32) -> AccountSnapshot {
    app.snapshots.account_snapshot_at(player, game_id).unwrap().unwrap().0
}

#[test]
fn run__initialize_event__creates_first_snapshot() {
    // given
    let mut app = app_with(InMemorySnapshotStorage::new());
    let init_height = 100;

    // when
    app.handle_event_batch(vec![arb_init_event()], init_height).unwrap();

    // then
    let mut expected = OverviewSnapshot::new();
    expected.current_block_height = init_height;
    let arb_roll_frequency = 10;
    expected.next_roll_height = Some(init_height + arb_roll_frequency);
    expected.roll_frequency = Some(arb_roll_frequency);
    expected.first_roll_height = Some(init_height);
    assert_eq!(expected, latest(&app));
}

#[test]
fn run__roll_event__updates_snapshot() {
    let game_id = 1u32;
    let existing_snapshot = OverviewSnapshot { game_id, ..OverviewSnapshot::default() };
    let mut app = app_with(InMemorySnapshotStorage::new_with_snapshot(existing_snapshot.clone(), 105));
    app.roll_frequency = Some(10);

    let roll_event = Event::roll_event(game_id, 0, Roll::Five);
    app.handle_event_batch(vec![roll_event], 110).unwrap();

    let mut expected = existing_snapshot;
    expected.rolls.push(Roll::Five);
    expected.current_block_height = 110;
    assert_eq!(expected, latest(&app));
}

#[test]
fn run__new_game_event__resets_overview_snapshot() {
    let existing_snapshot = OverviewSnapshot {
        game_id: 1,
        rolls: vec![Roll::Five],
        pot_size: 500,
        rewards: vec![(Roll::Three, Strap::new(1, StrapKind::Hat, Modifier::Lucky), 100)],
        modifier_shop: vec![(Roll::Two, Roll::Three, Modifier::Burnt, false)],
        ..OverviewSnapshot::default()
    };
    let mut app = app_with(InMemorySnapshotStorage::new_with_snapshot(existing_snapshot.clone(), 200));

    let shop_modifier = (Roll::Seven, Roll::Four, Modifier::Groovy);
    let strap_reward = (Roll::Nine, Strap::new(2, StrapKind::Coat, Modifier::Nothing), 150);
    let new_game_event = ContractEvent::NewGame(NewGameEvent {
        game_id: 2,
        new_straps: vec![strap_reward],
        new_modifiers: vec![shop_modifier],
    });
    app.handle_event_batch(vec![Event::ContractEvent(new_game_event)], 210).unwrap();

    let mut expected = OverviewSnapshot::default();
    expected.game_id = 2;
    expected.rewards = vec![strap_reward];
    expected.modifier_shop = vec![(shop_modifier.0, shop_modifier.1, shop_modifier.2, false)];
    expected.pot_size = existing_snapshot.pot_size;
    expected.current_block_height = 210;
    assert_eq!(expected, latest(&app));

    let stored = app.snapshots.historical_snapshots(existing_snapshot.game_id).expect("expected historical snapshot");
    assert_eq!(stored.game_id, existing_snapshot.game_id);
    assert_eq!(stored.rolls, existing_snapshot.rolls);
    assert!(stored.modifiers.is_empty());
    assert_eq!(stored.strap_rewards, existing_snapshot.rewards);
}

#[test]
fn run__multiple_new_game_events__persists_historical_snapshots() {
    let first_snapshot = OverviewSnapshot {
        game_id: 1,
        rolls: vec![Roll::Two, Roll::Three],
        pot_size: 250,
        ..OverviewSnapshot::default()
    };
    let mut app = app_with(InMemorySnapshotStorage::new_with_snapshot(first_snapshot.clone(), 150));

    let first_new_game = ContractEvent::NewGame(NewGameEvent { game_id: 2, new_straps: vec![], new_modifiers: vec![] });
    let second_new_game = ContractEvent::NewGame(NewGameEvent { game_id: 3, new_straps: vec![], new_modifiers: vec![] });
    app.handle_event_batch(vec![Event::ContractEvent(first_new_game)], 210).unwrap();

    let mut mid_snapshot = OverviewSnapshot::default();
    mid_snapshot.game_id = 2;
    mid_snapshot.pot_size = 500;
    app.snapshots.update_snapshot(&mid_snapshot, 220).expect("update snapshot");

    app.handle_event_batch(vec![Event::ContractEvent(second_new_game)], 230).unwrap();

    let stored_first = app.snapshots.historical_snapshots(first_snapshot.game_id).expect("missing first historical snapshot");
    assert_eq!(stored_first.rolls, first_snapshot.rolls);
    assert!(stored_first.modifiers.is_empty());
    assert_eq!(stored_first.strap_rewards, first_snapshot.rewards);

    let stored_second = app.snapshots.historical_snapshots(2).expect("missing second historical snapshot");
    assert_eq!(stored_second.rolls, mid_snapshot.rolls);
    assert!(stored_second.modifiers.is_empty());
    assert_eq!(stored_second.strap_rewards, mid_snapshot.rewards);
}

#[test]
fn run__new_game_event__captures_triggered_modifiers_in_history() {
    let existing_snapshot = OverviewSnapshot {
        game_id: 5,
        modifier_shop: vec![(Roll::Three, Roll::Four, Modifier::Holy, false)],
        rolls: vec![Roll::Two],
        ..OverviewSnapshot::default()
    };
    let mut app = app_with(InMemorySnapshotStorage::new_with_snapshot(existing_snapshot.clone(), 300));
    app.roll_frequency = Some(10);

    let expected_index = 321;
    let modifier_event = ContractEvent::ModifierTriggered(ModifierTriggeredEvent {
        game_id: existing_snapshot.game_id,
        roll_index: expected_index,
        trigger_roll: Roll::Two,
        modifier_roll: Roll::Four,
        modifier: Modifier::Holy,
    });
    app.handle_event_batch(vec![Event::ContractEvent(modifier_event)], 305).unwrap();

    let new_game_event = ContractEvent::NewGame(NewGameEvent { game_id: 6, new_straps: vec![], new_modifiers: vec![] });
    app.handle_event_batch(vec![Event::ContractEvent(new_game_event)], 310).unwrap();

    let stored = app.snapshots.historical_snapshots(existing_snapshot.game_id).expect("expected historical snapshot");
    assert_eq!(stored.rolls, existing_snapshot.rolls);
    assert_eq!(stored.strap_rewards, existing_snapshot.rewards);
    let active_modifier = ActiveModifier::new(expected_index, Modifier::Holy, Roll::Four);
    assert_eq!(stored.modifiers, vec![active_modifier]);

    assert!(app.snapshots.historical_snapshots(6).is_err());
}

#[test]
fn run__modifier_triggered_event__activates_modifier() {
    let existing_snapshot = OverviewSnapshot {
        game_id: 5,
        modifier_shop: vec![(Roll::Three, Roll::Four, Modifier::Holy, false)],
        ..OverviewSnapshot::default()
    };
    let mut app = app_with(InMemorySnapshotStorage::new_with_snapshot(existing_snapshot.clone(), 220));
    app.roll_frequency = Some(10);

    let modifier_event = ContractEvent::ModifierTriggered(ModifierTriggeredEvent {
        game_id: existing_snapshot.game_id,
        roll_index: 1,
        trigger_roll: Roll::Three,
        modifier_roll: Roll::Four,
        modifier: Modifier::Holy,
    });
    app.handle_event_batch(vec![Event::ContractEvent(modifier_event)], 225).unwrap();

    let mut expected = existing_snapshot;
    expected.modifiers_active[2] = Some(Modifier::Holy);
    expected.modifier_shop[0].3 = true;
    expected.current_block_height = 225;
    assert_eq!(expected, latest(&app));
}

#[test]
fn run__place_chip_bet_event__updates_pot_and_totals() {
    let mut existing_snapshot = OverviewSnapshot::default();
    existing_snapshot.pot_size = 200;
    existing_snapshot.total_bets[4].0 = 50;
    let mut app = app_with(InMemorySnapshotStorage::new_with_snapshot(existing_snapshot.clone(), 300));

    let chip_event = ContractEvent::PlaceChipBet(PlaceChipBetEvent {
        game_id: existing_snapshot.game_id,
        bet_roll_index: 0,
        player: Identity::Address([0u8; 32]),
        roll: Roll::Six,
        amount: 150,
    });
    app.handle_event_batch(vec![Event::ContractEvent(chip_event)], 305).unwrap();

    let mut expected = existing_snapshot;
    expected.pot_size = 350;
    expected.total_bets[4].0 = 200;
    expected.current_block_height = 305;
    assert_eq!(expected, latest(&app));
}

#[test]
fn run__place_chip_bet_event__updates_account_snapshot() {
    let mut app = app_with(InMemorySnapshotStorage::new_with_snapshot(OverviewSnapshot::default(), 300));
    let player = Identity::Address([0u8; 32]);
    let chip_event = ContractEvent::PlaceChipBet(PlaceChipBetEvent {
        game_id: 0,
        bet_roll_index: 0,
        player,
        roll: Roll::Six,
        amount: 150,
    });
    app.handle_event_batch(vec![Event::ContractEvent(chip_event)], 305).unwrap();

    let account_snapshot = account(&app, &player, 0);
    assert_eq!(account_snapshot.total_chip_bet, 150);
    assert!(account_snapshot.strap_bets.is_empty());
    assert_eq!(account_snapshot.total_chip_won, 0);
    assert_eq!(account_snapshot.claimed_rewards, None);
    let roll_entry = account_snapshot
        .per_roll_bets
        .iter()
        .find(|entry| entry.roll == Roll::Six)
        .expect("missing roll entry for Six");
    assert_eq!(roll_entry.bets.len(), 1);
    let bet = &roll_entry.bets[0];
    assert_eq!(bet.amount, 150);
    assert_eq!(bet.bet_roll_index, 0);
    assert!(matches!(bet.kind, AccountBetKind::Chip));
}

#[test]
fn run__place_strap_bet_event__records_strap_bet() {
    let mut existing_snapshot = OverviewSnapshot::default();
    existing_snapshot.total_bets[3].1 = vec![(Strap::new(1, StrapKind::Gloves, Modifier::Lucky), 1)];
    let mut app = app_with(InMemorySnapshotStorage::new_with_snapshot(existing_snapshot.clone(), 410));

    let strap = Strap::new(2, StrapKind::Gloves, Modifier::Lucky);
    let strap_event = ContractEvent::PlaceStrapBet(PlaceStrapBetEvent {
        game_id: existing_snapshot.game_id,
        bet_roll_index: 3,
        player: Identity::Address([1u8; 32]),
        roll: Roll::Five,
        strap,
        amount: 2,
    });
    app.handle_event_batch(vec![Event::ContractEvent(strap_event)], 415).unwrap();

    let mut expected = existing_snapshot;
    expected.total_bets[3].1.push((strap, 2));
    expected.current_block_height = 415;
    assert_eq!(expected, latest(&app));
}

#[test]
fn run__place_strap_bet_event__updates_account_snapshot() {
    let mut app = app_with(InMemorySnapshotStorage::new_with_snapshot(OverviewSnapshot::default(), 0));
    let strap = Strap::new(2, StrapKind::Gloves, Modifier::Lucky);
    let player = Identity::Address([1u8; 32]);
    let strap_event = ContractEvent::PlaceStrapBet(PlaceStrapBetEvent {
        game_id: 0,
        bet_roll_index: 3,
        player,
        roll: Roll::Five,
        strap,
        amount: 2,
    });
    app.handle_event_batch(vec![Event::ContractEvent(strap_event)], 415).unwrap();

    let account_snapshot = account(&app, &player, 0);
    assert_eq!(account_snapshot.total_chip_bet, 0);
    assert_eq!(account_snapshot.total_chip_won, 0);
    assert_eq!(account_snapshot.claimed_rewards, None);
    assert_eq!(account_snapshot.strap_bets, vec![(strap, 2)]);
    let strap_entry = account_snapshot
        .per_roll_bets
        .iter()
        .find(|entry| entry.roll == Roll::Five)
        .expect("missing roll entry for strap bet");
    assert_eq!(strap_entry.bets.len(), 1);
    let bet = &strap_entry.bets[0];
    assert_eq!(bet.amount, 2);
    assert_eq!(bet.bet_roll_index, 3);
    match &bet.kind {
        AccountBetKind::Strap(s) => assert_eq!(s, &strap),
        other => panic!("unexpected bet kind: {:?}", other),
    }
}

#[test]
fn run__claim_rewards_event__reduces_pot() {
    let mut existing_snapshot = OverviewSnapshot::default();
    existing_snapshot.pot_size = 500;
    let mut app = app_with(InMemorySnapshotStorage::new_with_snapshot(existing_snapshot.clone(), 510));

    let claim_event = ContractEvent::ClaimRewards(ClaimRewardsEvent {
        game_id: existing_snapshot.game_id,
        player: Identity::Address([2u8; 32]),
        enabled_modifiers: vec![],
        total_chips_winnings: 120,
        total_strap_winnings: vec![],
    });
    app.handle_event_batch(vec![Event::ContractEvent(claim_event)], 515).unwrap();

    let mut expected = existing_snapshot;
    expected.pot_size = 380;
    expected.current_block_height = 515;
    assert_eq!(expected, latest(&app));
}

#[test]
fn run__claim_rewards_event__updates_account_snapshot() {
    let mut app = app_with(InMemorySnapshotStorage::new_with_snapshot(OverviewSnapshot::default(), 0));
    let player = Identity::Address([2u8; 32]);
    let claim_event = ContractEvent::ClaimRewards(ClaimRewardsEvent {
        game_id: 0,
        player,
        enabled_modifiers: vec![],
        total_chips_winnings: 120,
        total_strap_winnings: vec![],
    });
    app.handle_event_batch(vec![Event::ContractEvent(claim_event)], 515).unwrap();

    let account_snapshot = account(&app, &player, 0);
    assert_eq!(account_snapshot.total_chip_bet, 0);
    assert!(account_snapshot.strap_bets.is_empty());
    assert_eq!(account_snapshot.total_chip_won, 120);
    assert_eq!(account_snapshot.claimed_rewards, Some((120, Vec::new())));
}

#[test]
fn run__claim_rewards_event__records_strap_winnings_in_account_snapshot() {
    let mut app = app_with(InMemorySnapshotStorage::new_with_snapshot(OverviewSnapshot::default(), 0));
    let strap_a = Strap::new(1, StrapKind::Hat, Modifier::Lucky);
    let strap_b = Strap::new(2, StrapKind::Ring, Modifier::Delicate);
    let new_game = ContractEvent::NewGame(NewGameEvent {
        game_id: 1,
        new_straps: vec![(Roll::Two, strap_a, 0), (Roll::Three, strap_b, 0)],
        new_modifiers: vec![],
    });
    app.handle_event_batch(vec![Event::ContractEvent(new_game)], 100).unwrap();

    let player = Identity::Address([9u8; 32]);
    let claim_event = ContractEvent::ClaimRewards(ClaimRewardsEvent {
        game_id: 0,
        player,
        enabled_modifiers: vec![(Roll::Two, Modifier::Lucky)],
        total_chips_winnings: 75,
        total_strap_winnings: vec![(strap_a, 1), (strap_b, 2)],
    });
    app.handle_event_batch(vec![Event::ContractEvent(claim_event)], 520).unwrap();

    let account_snapshot = account(&app, &player, 0);
    assert_eq!(account_snapshot.total_chip_bet, 0);
    assert!(account_snapshot.strap_bets.is_empty());
    assert_eq!(account_snapshot.total_chip_won, 75);
    assert_eq!(account_snapshot.claimed_rewards, Some((75, vec![(strap_a, 1), (strap_b, 2)])));
}

#[test]
fn run__fund_pot_event__increases_pot() {
    let mut existing_snapshot = OverviewSnapshot::default();
    existing_snapshot.pot_size = 75;
    let mut app = app_with(InMemorySnapshotStorage::new_with_snapshot(existing_snapshot.clone(), 610));

    let fund_event = ContractEvent::FundPot(FundPotEvent { chips_amount: 325, funder: Identity::Address([3u8; 32]) });
    app.handle_event_batch(vec![Event::ContractEvent(fund_event)], 615).unwrap();

    let mut expected = existing_snapshot;
    expected.pot_size = 400;
    expected.current_block_height = 615;
    assert_eq!(expected, latest(&app));
}

#[test]
fn run__purchase_modifier_event__marks_shop_entry() {
    let mut existing_snapshot = OverviewSnapshot::default();
    existing_snapshot.modifier_shop = vec![(Roll::Two, Roll::Four, Modifier::Holy, false)];
    let mut app = app_with(InMemorySnapshotStorage::new_with_snapshot(existing_snapshot.clone(), 710));

    let purchase_event = ContractEvent::PurchaseModifier(PurchaseModifierEvent {
        expected_roll: Roll::Four,
        expected_modifier: Modifier::Holy,
        purchaser: Identity::Address([4u8; 32]),
    });
    app.handle_event_batch(vec![Event::ContractEvent(purchase_event)], 715).unwrap();

    let mut expected = existing_snapshot;
    expected.modifiers_active[2] = Some(Modifier::Holy);
    expected.modifier_shop[0].3 = true;
    expected.current_block_height = 715;
    assert_eq!(expected, latest(&app));
}

fn arb_snapshot() -> OverviewSnapshot {
    OverviewSnapshot {
        game_id: 1234,
        rolls: vec![Roll::Two, Roll::Three, Roll::Four, Roll::Five, Roll::Six],
        pot_size: 999999999,
        current_block_height: 123,
        next_roll_height: Some(333),
        roll_frequency: Some(10),
        first_roll_height: Some(123),
        rewards: vec![(Roll::Ten, Strap { level: 88, kind: StrapKind::Shirt, modifier: Modifier::Nothing }, 4444)],
        total_bets: [
            (100, vec![]),
            (200, vec![]),
            (300, vec![]),
            (400, vec![]),
            (500, vec![]),
            (600, vec![]),
            (700, vec![]),
            (800, vec![]),
            (900, vec![]),
            (1000, vec![]),
            (1100, vec![]),
        ],
        modifiers_active: [None; 11],
        modifier_shop: vec![],
    }
}

#[test]
fn run__latest_snapshot_query__returns_latest_snapshot() {
    let snapshot = arb_snapshot();
    let height = 1000;
    let app = app_with(InMemorySnapshotStorage::new_with_snapshot(snapshot.clone(), height));

    let response = app.handle_query(Query::LatestSnapshot).unwrap();

    assert_eq!(response, QueryResponse::LatestSnapshot(snapshot, height));
}

#[test]
fn run__latest_account_snapshot_query__returns_latest_account_snapshot() {
    let overview_snapshot = OverviewSnapshot { game_id: 42, ..OverviewSnapshot::default() };
    let identity = Identity::Address([9u8; 32]);
    let expected_snapshot = AccountSnapshot::default();
    let expected_height = 777;

    let mut snapshot_storage = InMemorySnapshotStorage::new();
    snapshot_storage.update_snapshot(&overview_snapshot, 500).unwrap();
    snapshot_storage
        .update_account_snapshot(&identity, overview_snapshot.game_id, &expected_snapshot, expected_height)
        .unwrap();
    let app = app_with(snapshot_storage);

    let response = app.handle_query(Query::latest_account_summary(identity)).unwrap();

    assert_eq!(response, QueryResponse::LatestAccountSnapshot(Some((expected_snapshot, expected_height))));
}

#[test]
fn run__historical_snapshot_query__returns_historical_snapshot() {
    let game_id = 1337u32;
    let expected_snapshot = HistoricalSnapshot::new(
        game_id,
        vec![Roll::Six, Roll::Seven],
        vec![ActiveModifier::new(3, Modifier::Lucky, Roll::Six)],
    );
    let mut snapshot_storage = InMemorySnapshotStorage::new();
    snapshot_storage.write_historical_snapshot(game_id, &expected_snapshot).unwrap();
    let app = app_with(snapshot_storage);

    let response = app.handle_query(Query::historical_snapshot(game_id)).unwrap();

    assert_eq!(response, QueryResponse::HistoricalSnapshot(Some(expected_snapshot)));
}

#[test]
fn run__historical_account_snapshot_query__returns_historical_account_snapshot() {
    let identity = Identity::Address([5u8; 32]);
    let game_id = 21u32;
    let mut expected_snapshot = AccountSnapshot::default();
    expected_snapshot.total_chip_bet = 99;
    expected_snapshot.strap_bets.push((Strap::new(1, StrapKind::Hat, Modifier::Lucky), 88));
    expected_snapshot.total_chip_won = 77;
    expected_snapshot.claimed_rewards = Some((55, vec![]));
    let expected_height = 4242;

    let mut snapshot_storage = InMemorySnapshotStorage::new();
    snapshot_storage.update_account_snapshot(&identity, game_id, &expected_snapshot, expected_height).unwrap();
    let app = app_with(snapshot_storage);

    let response = app.handle_query(Query::historical_account_summary(identity, game_id)).unwrap();

    assert_eq!(response, QueryResponse::HistoricalAccountSnapshot(Some((expected_snapshot, expected_height))));
}
