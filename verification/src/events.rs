//! Events emitted by the game contract, as the indexer consumes them.
use vstd::prelude::*;
use crate::types::{Identity, Modifier, Roll, Strap};

verus! {

/// One event observed on chain.
#[derive(Clone, Debug, PartialEq, Eq)]
pub enum Event {
    BlockchainEvent,
    ContractEvent(ContractEvent),
}

/// The events of the game contract.
#[derive(Clone, Debug, PartialEq, Eq)]
pub enum ContractEvent {
    Initialized(InitializedEvent),
    Roll(RollEvent),
    NewGame(NewGameEvent),
    ModifierTriggered(ModifierTriggeredEvent),
    PlaceChipBet(PlaceChipBetEvent),
    PlaceStrapBet(PlaceStrapBetEvent),
    ClaimRewards(ClaimRewardsEvent),
    FundPot(FundPotEvent),
    PurchaseModifier(PurchaseModifierEvent),
}

#[derive(Clone, Debug, PartialEq, Eq)]
pub struct InitializedEvent {
    pub vrf_contract_id: [u8; 32],
    pub chip_asset_id: [u8; 32],
    pub roll_frequency: u32,
    pub first_height: u32,
}

#[derive(Clone, Debug, PartialEq, Eq)]
pub struct RollEvent {
    pub game_id: u32,
    pub roll_index: u32,
    pub rolled_value: Roll,
}

#[derive(Clone, Debug, PartialEq, Eq)]
pub struct NewGameEvent {
    pub game_id: u32,
    pub new_straps: Vec<(Roll, Strap, u64)>,
    pub new_modifiers: Vec<(Roll, Roll, Modifier)>,
}

#[derive(Clone, Debug, PartialEq, Eq)]
pub struct ModifierTriggeredEvent {
    pub game_id: u32,
    pub roll_index: u32,
    pub trigger_roll: Roll,
    pub modifier_roll: Roll,
    pub modifier: Modifier,
}

#[derive(Clone, Debug, PartialEq, Eq)]
pub struct PlaceChipBetEvent {
    pub game_id: u32,
    /// latest roll index when the bet was placed
    pub bet_roll_index: u32,
    pub player: Identity,
    pub roll: Roll,
    pub amount: u64,
}

#[derive(Clone, Debug, PartialEq, Eq)]
pub struct PlaceStrapBetEvent {
    pub game_id: u32,
    /// latest roll index when the bet was placed
    pub bet_roll_index: u32,
    pub player: Identity,
    pub roll: Roll,
    pub strap: Strap,
    pub amount: u64,
}

#[derive(Clone, Debug, PartialEq, Eq)]
pub struct ClaimRewardsEvent {
    pub game_id: u32,
    pub player: Identity,
    pub enabled_modifiers: Vec<(Roll, Modifier)>,
    pub total_chips_winnings: u64,
    pub total_strap_winnings: Vec<(Strap, u64)>,
}

#[derive(Clone, Debug, PartialEq, Eq)]
pub struct FundPotEvent {
    pub chips_amount: u64,
    pub funder: Identity,
}

#[derive(Clone, Debug, PartialEq, Eq)]
pub struct PurchaseModifierEvent {
    pub expected_roll: Roll,
    pub expected_modifier: Modifier,
    pub purchaser: Identity,
}

impl Event {
    pub fn init_event(
        vrf_contract_id: [u8; 32],
        chip_asset_id: [u8; 32],
        roll_frequency: u32,
        first_height: u32,
    ) -> (e: Self)
        ensures
            e == Event::ContractEvent(
                ContractEvent::Initialized(
                    InitializedEvent { vrf_contract_id, chip_asset_id, roll_frequency, first_height },
                ),
            ),
    {
        let inner = InitializedEvent { vrf_contract_id, chip_asset_id, roll_frequency, first_height };
        Event::ContractEvent(ContractEvent::Initialized(inner))
    }

    pub fn roll_event(game_id: u32, roll_index: u32, rolled_value: Roll) -> (e: Self)
        ensures
            e == Event::ContractEvent(
                ContractEvent::Roll(RollEvent { game_id, roll_index, rolled_value }),
            ),
    {
        let inner = RollEvent { game_id, roll_index, rolled_value };
        Event::ContractEvent(ContractEvent::Roll(inner))
    }
}

} // verus!
