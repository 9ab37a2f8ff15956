use strapped_core::abi_events::{
    event_from_abi, AbiClaimRewardsEvent, AbiEvent, AbiInitializedEvent, AbiNewGameEvent, AbiPlaceChipBetEvent,
    AbiRollEvent,
};
use strapped_core::events::{ClaimRewardsEvent, ContractEvent, Event, NewGameEvent, PlaceChipBetEvent};
use strapped_core::types::{Identity, Modifier, Roll, Strap, StrapKind};

#[test]
fn event_from_abi__converts_counters_that_fit() {
    let init = AbiEvent::Initialized(AbiInitializedEvent {
        vrf_contract_id: [3u8; 32],
        chip_asset_id: [4u8; 32],
        roll_frequency: 10,
        first_height: 100,
    });
    assert_eq!(event_from_abi(init), Some(Event::init_event([3u8; 32], [4u8; 32], 10, 100)));

    let roll = AbiEvent::Roll(AbiRollEvent { game_id: 7, roll_index: 2, rolled_value: Roll::Nine });
    assert_eq!(event_from_abi(roll), Some(Event::roll_event(7, 2, Roll::Nine)));

    let strap = Strap::new(1, StrapKind::Hat, Modifier::Nothing);
    let new_game = AbiEvent::NewGame(AbiNewGameEvent {
        game_id: 8,
        new_straps: vec![(Roll::Two, strap, 20)],
        new_modifiers: vec![(Roll::Three, Roll::Four, Modifier::Holy)],
    });
    assert_eq!(
        event_from_abi(new_game),
        Some(Event::ContractEvent(ContractEvent::NewGame(NewGameEvent {
            game_id: 8,
            new_straps: vec![(Roll::Two, strap, 20)],
            new_modifiers: vec![(Roll::Three, Roll::Four, Modifier::Holy)],
        })))
    );

    let bet = AbiEvent::PlaceChipBet(AbiPlaceChipBetEvent {
        game_id: u32::MAX as u64,
        bet_roll_index: 1,
        player: Identity::Address([1u8; 32]),
        roll: Roll::Six,
        amount: 5,
    });
    assert_eq!(
        event_from_abi(bet),
        Some(Event::ContractEvent(ContractEvent::PlaceChipBet(PlaceChipBetEvent {
            game_id: u32::MAX,
            bet_roll_index: 1,
            player: Identity::Address([1u8; 32]),
            roll: Roll::Six,
            amount: 5,
        })))
    );
}

#[test]
fn event_from_abi__drops_counters_beyond_u32() {
    let roll = AbiEvent::Roll(AbiRollEvent { game_id: 1 << 32, roll_index: 0, rolled_value: Roll::Two });
    assert_eq!(event_from_abi(roll), None);
    let roll = AbiEvent::Roll(AbiRollEvent { game_id: 1, roll_index: u64::MAX, rolled_value: Roll::Two });
    assert_eq!(event_from_abi(roll), None);
    let claim = AbiEvent::ClaimRewards(AbiClaimRewardsEvent {
        game_id: u64::MAX,
        player: Identity::ContractId([2u8; 32]),
        enabled_modifiers: vec![],
        total_chips_winnings: 1,
        total_strap_winnings: vec![],
    });
    assert_eq!(event_from_abi(claim), None);
    let claim = AbiEvent::ClaimRewards(AbiClaimRewardsEvent {
        game_id: 3,
        player: Identity::ContractId([2u8; 32]),
        enabled_modifiers: vec![(Roll::Two, Modifier::Burnt)],
        total_chips_winnings: 1,
        total_strap_winnings: vec![],
    });
    assert_eq!(
        event_from_abi(claim),
        Some(Event::ContractEvent(ContractEvent::ClaimRewards(ClaimRewardsEvent {
            game_id: 3,
            player: Identity::ContractId([2u8; 32]),
            enabled_modifiers: vec![(Roll::Two, Modifier::Burnt)],
            total_chips_winnings: 1,
            total_strap_winnings: vec![],
        })))
    );
}
