use strapped_core::events::{ClaimRewardsEvent, ContractEvent, Event, NewGameEvent, PlaceChipBetEvent, PlaceStrapBetEvent};
use strapped_core::game_indexer::App;
use strapped_core::query::{Query, QueryResponse};
use strapped_core::snapshot::{all_rolls, OverviewSnapshot};
use strapped_core::storage::{InMemoryMetadataStorage, InMemorySnapshotStorage, StorageError};
use strapped_core::table::{GameTable, SortOrder};
use strapped_core::types::{Identity, Modifier, Roll, Strap, StrapKind};

fn table(ids: &[u32]) -> GameTable {
    let mut t = GameTable::new();
    for id in ids {
        t.insert(*id, *id * 10);
    }
    t
}

#[test]
fn game_table_pages__continue_from_the_cursor() {
    let t = table(&[5, 1, 7, 3, 2, 6, 4]);
    let p = t.page(SortOrder::Asc, 3, None);
    assert_eq!((p.game_ids.clone(), p.next_cursor), (vec![1, 2, 3], Some(3)));
    let p = t.page(SortOrder::Asc, 3, p.next_cursor);
    assert_eq!((p.game_ids.clone(), p.next_cursor), (vec![4, 5, 6], Some(6)));
    let p = t.page(SortOrder::Asc, 3, p.next_cursor);
    assert_eq!((p.game_ids.clone(), p.next_cursor), (vec![7], None));

    let p = t.page(SortOrder::Desc, 3, None);
    assert_eq!((p.game_ids.clone(), p.next_cursor), (vec![7, 6, 5], Some(5)));
    let p = t.page(SortOrder::Desc, 3, p.next_cursor);
    assert_eq!((p.game_ids.clone(), p.next_cursor), (vec![4, 3, 2], Some(2)));
    let p = t.page(SortOrder::Desc, 3, p.next_cursor);
    assert_eq!((p.game_ids.clone(), p.next_cursor), (vec![1], None));

    let p = t.page(SortOrder::Asc, 0, None);
    assert_eq!((p.game_ids.clone(), p.next_cursor), (vec![], None));
}

#[test]
fn game_table__insert_replaces_and_remove_drops() {
    let mut t = table(&[2, 4]);
    t.insert(2, 99);
    t.remove(4);
    t.remove(8);
    let p = t.page(SortOrder::Asc, 10, None);
    assert_eq!(p.game_ids, vec![2]);
}

fn unclaimed(app: &App, who: Identity) -> Vec<u32> {
    match app.handle_query(Query::unclaimed_games(who, SortOrder::Asc, 10, None)).unwrap() {
        QueryResponse::UnclaimedGames(Ok(page)) => page.games.iter().map(|g| g.game_id).collect(),
        other => panic!("unexpected response {:?}", other),
    }
}

#[test]
fn claimed_game__leaves_the_unclaimed_list() {
    let alice = Identity::Address([7u8; 32]);
    let bob = Identity::Address([8u8; 32]);
    let storage = InMemorySnapshotStorage::new_with_snapshot(OverviewSnapshot::default(), 0);
    let mut app = App::new(storage, InMemoryMetadataStorage::default(), [0u8; 32]);

    let bet = |player| {
        Event::ContractEvent(ContractEvent::PlaceChipBet(PlaceChipBetEvent {
            game_id: 0,
            bet_roll_index: 0,
            player,
            roll: Roll::Six,
            amount: 10,
        }))
    };
    let miss = Event::ContractEvent(ContractEvent::PlaceChipBet(PlaceChipBetEvent {
        game_id: 0,
        bet_roll_index: 0,
        player: bob,
        roll: Roll::Nine,
        amount: 10,
    }));
    app.handle_event_batch(vec![bet(alice), miss], 10).unwrap();
    app.handle_event_batch(vec![Event::roll_event(0, 0, Roll::Six)], 11).unwrap();
    let new_game = NewGameEvent { game_id: 1, new_straps: vec![], new_modifiers: vec![] };
    app.handle_event_batch(vec![Event::ContractEvent(ContractEvent::NewGame(new_game))], 12).unwrap();

    assert_eq!(unclaimed(&app, alice), vec![0]);
    assert!(unclaimed(&app, bob).is_empty());

    let claim = ClaimRewardsEvent {
        game_id: 0,
        player: alice,
        enabled_modifiers: vec![],
        total_chips_winnings: 20,
        total_strap_winnings: vec![],
    };
    app.handle_event_batch(vec![Event::ContractEvent(ContractEvent::ClaimRewards(claim))], 13).unwrap();
    assert!(unclaimed(&app, alice).is_empty());
}

#[test]
fn event_batch__stops_at_the_first_error() {
    let mut app = App::new(InMemorySnapshotStorage::new(), InMemoryMetadataStorage::default(), [0u8; 32]);
    let result = app.handle_event_batch(vec![Event::roll_event(0, 0, Roll::Two)], 5);
    assert_eq!(result, Err(StorageError::NoSnapshot));
    assert!(app.snapshots.snapshot().is_none());
    assert_eq!(app.handle_query(Query::LatestSnapshot), Err(StorageError::NoSnapshot));
    assert_eq!(app.handle_query(Query::historical_snapshot(3)), Err(StorageError::NoHistoricalSnapshot));
}

#[test]
fn event_batch__raises_block_height_when_newer() {
    let storage = InMemorySnapshotStorage::new_with_snapshot(OverviewSnapshot::default(), 50);
    let mut app = App::new(storage, InMemoryMetadataStorage::default(), [0u8; 32]);
    app.handle_event_batch(vec![], 60).unwrap();
    assert_eq!(app.snapshots.snapshot().unwrap(), (OverviewSnapshot { current_block_height: 60, ..OverviewSnapshot::default() }, 60));
    app.handle_event_batch(vec![], 55).unwrap();
    assert_eq!(app.snapshots.snapshot().unwrap().1, 60);
}

#[test]
fn strap_bet__records_the_strap_under_its_asset_id() {
    let contract_id = [9u8; 32];
    let storage = InMemorySnapshotStorage::new_with_snapshot(OverviewSnapshot::default(), 0);
    let mut app = App::new(storage, InMemoryMetadataStorage::default(), contract_id);
    let strap = Strap::new(3, StrapKind::Coat, Modifier::Evil);
    let event = PlaceStrapBetEvent {
        game_id: 0,
        bet_roll_index: 0,
        player: Identity::Address([1u8; 32]),
        roll: Roll::Four,
        strap,
        amount: 1,
    };
    app.handle_event_batch(vec![Event::ContractEvent(ContractEvent::PlaceStrapBet(event))], 3).unwrap();

    let known = app.metadata.all_known_straps().unwrap();
    assert_eq!(known.len(), 1);
    let (asset_id, stored) = known[0];
    assert_eq!(stored, strap);
    // the asset id is the contract's hash of (contract id, sub id), neither of the two
    assert_ne!(asset_id, strap.sub_id());
    assert_ne!(asset_id, contract_id);
    let expected = fuel_tx::ContractIdExt::asset_id(
        &fuel_tx::ContractId::new(contract_id),
        &fuel_tx::SubAssetId::new(strap.sub_id()),
    );
    assert_eq!(asset_id, <[u8; 32]>::from(expected));
    match app.handle_query(Query::all_known_straps()).unwrap() {
        QueryResponse::AllKnownStraps(entries) => assert_eq!(entries, vec![(asset_id, strap)]),
        other => panic!("unexpected response {:?}", other),
    }
}

#[test]
fn bet_history_pages_per_account() {
    let mut s = InMemorySnapshotStorage::new();
    let alice = Identity::Address([1u8; 32]);
    let bob = Identity::Address([2u8; 32]);
    for g in [3u32, 1, 2] {
        s.record_bet_history(&alice, g, 10 + g).unwrap();
    }
    s.record_bet_history(&bob, 9, 1).unwrap();
    let p = s.bet_history_game_ids(&alice, SortOrder::Asc, 2, None).unwrap();
    assert_eq!((p.game_ids.clone(), p.next_cursor), (vec![1, 2], Some(2)));
    let p = s.bet_history_game_ids(&alice, SortOrder::Asc, 2, p.next_cursor).unwrap();
    assert_eq!((p.game_ids.clone(), p.next_cursor), (vec![3], None));
    let p = s.bet_history_game_ids(&bob, SortOrder::Desc, 5, None).unwrap();
    assert_eq!(p.game_ids, vec![9]);
    let carol = Identity::Address([3u8; 32]);
    assert!(s.bet_history_game_ids(&carol, SortOrder::Asc, 5, None).unwrap().game_ids.is_empty());
}

#[test]
fn all_rolls_in_board_order() {
    assert_eq!(
        all_rolls(),
        vec![
            Roll::Two,
            Roll::Three,
            Roll::Four,
            Roll::Five,
            Roll::Six,
            Roll::Seven,
            Roll::Eight,
            Roll::Nine,
            Roll::Ten,
            Roll::Eleven,
            Roll::Twelve
        ]
    );
}
