//! The contract's events as its ABI decodes them, and their conversion to the indexer's
//! events: the ABI counts games and rolls in `u64`, the indexer in `u32`.
use vstd::prelude::*;
use crate::events::{
    ClaimRewardsEvent, ContractEvent, Event, FundPotEvent, ModifierTriggeredEvent, NewGameEvent,
    PlaceChipBetEvent, PlaceStrapBetEvent, PurchaseModifierEvent,
};
use crate::types::{Identity, Modifier, Roll, Strap};

verus! {

#[derive(Clone, Debug, PartialEq, Eq)]
pub struct AbiInitializedEvent {
    pub vrf_contract_id: [u8; 32],
    pub chip_asset_id: [u8; 32],
    pub roll_frequency: u32,
    pub first_height: u32,
}

#[derive(Clone, Debug, PartialEq, Eq)]
pub struct AbiRollEvent {
    pub game_id: u64,
    pub roll_index: u64,
    pub rolled_value: Roll,
}

#[derive(Clone, Debug, PartialEq, Eq)]
pub struct AbiNewGameEvent {
    pub game_id: u64,
    pub new_straps: Vec<(Roll, Strap, u64)>,
    pub new_modifiers: Vec<(Roll, Roll, Modifier)>,
}

#[derive(Clone, Debug, PartialEq, Eq)]
pub struct AbiModifierTriggeredEvent {
    pub game_id: u64,
    pub roll_index: u64,
    pub trigger_roll: Roll,
    pub modifier_roll: Roll,
    pub modifier: Modifier,
}

#[derive(Clone, Debug, PartialEq, Eq)]
pub struct AbiPlaceChipBetEvent {
    pub game_id: u64,
    pub bet_roll_index: u64,
    pub player: Identity,
    pub roll: Roll,
    pub amount: u64,
}

#[derive(Clone, Debug, PartialEq, Eq)]
pub struct AbiPlaceStrapBetEvent {
    pub game_id: u64,
    pub bet_roll_index: u64,
    pub player: Identity,
    pub roll: Roll,
    pub strap: Strap,
    pub amount: u64,
}

#[derive(Clone, Debug, PartialEq, Eq)]
pub struct AbiClaimRewardsEvent {
    pub game_id: u64,
    pub player: Identity,
    pub enabled_modifiers: Vec<(Roll, Modifier)>,
    pub total_chips_winnings: u64,
    pub total_strap_winnings: Vec<(Strap, u64)>,
}

#[derive(Clone, Debug, PartialEq, Eq)]
pub struct AbiFundPotEvent {
    pub chips_amount: u64,
    pub funder: Identity,
}

#[derive(Clone, Debug, PartialEq, Eq)]
pub struct AbiPurchaseModifierEvent {
    pub expected_roll: Roll,
    pub expected_modifier: Modifier,
    pub purchaser: Identity,
}

/// One decoded log of the contract.
#[derive(Clone, Debug, PartialEq, Eq)]
pub enum AbiEvent {
    Initialized(AbiInitializedEvent),
    Roll(AbiRollEvent),
    NewGame(AbiNewGameEvent),
    ModifierTriggered(AbiModifierTriggeredEvent),
    PlaceChipBet(AbiPlaceChipBetEvent),
    PlaceStrapBet(AbiPlaceStrapBetEvent),
    ClaimRewards(AbiClaimRewardsEvent),
    FundPot(AbiFundPotEvent),
    PurchaseModifier(AbiPurchaseModifierEvent),
}

/// The counters of a decoded log fit in a `u32`.
pub open spec fn counters_fit(e: AbiEvent) -> bool {
    match e {
        AbiEvent::Initialized(_) => true,
        AbiEvent::Roll(x) => x.game_id <= u32::MAX && x.roll_index <= u32::MAX,
        AbiEvent::NewGame(x) => x.game_id <= u32::MAX,
        AbiEvent::ModifierTriggered(x) => x.game_id <= u32::MAX && x.roll_index <= u32::MAX,
        AbiEvent::PlaceChipBet(x) => x.game_id <= u32::MAX && x.bet_roll_index <= u32::MAX,
        AbiEvent::PlaceStrapBet(x) => x.game_id <= u32::MAX && x.bet_roll_index <= u32::MAX,
        AbiEvent::ClaimRewards(x) => x.game_id <= u32::MAX,
        AbiEvent::FundPot(_) => true,
        AbiEvent::PurchaseModifier(_) => true,
    }
}

/// The indexer's event for a decoded log whose counters fit.
pub open spec fn converted(e: AbiEvent) -> ContractEvent {
    match e {
        AbiEvent::Initialized(x) => ContractEvent::Initialized(
            crate::events::InitializedEvent {
                vrf_contract_id: x.vrf_contract_id,
                chip_asset_id: x.chip_asset_id,
                roll_frequency: x.roll_frequency,
                first_height: x.first_height,
            },
        ),
        AbiEvent::Roll(x) => ContractEvent::Roll(
            crate::events::RollEvent {
                game_id: x.game_id as u32,
                roll_index: x.roll_index as u32,
                rolled_value: x.rolled_value,
            },
        ),
        AbiEvent::NewGame(x) => ContractEvent::NewGame(
            NewGameEvent { game_id: x.game_id as u32, new_straps: x.new_straps, new_modifiers: x.new_modifiers },
        ),
        AbiEvent::ModifierTriggered(x) => ContractEvent::ModifierTriggered(
            ModifierTriggeredEvent {
                game_id: x.game_id as u32,
                roll_index: x.roll_index as u32,
                trigger_roll: x.trigger_roll,
                modifier_roll: x.modifier_roll,
                modifier: x.modifier,
            },
        ),
        AbiEvent::PlaceChipBet(x) => ContractEvent::PlaceChipBet(
            PlaceChipBetEvent {
                game_id: x.game_id as u32,
                bet_roll_index: x.bet_roll_index as u32,
                player: x.player,
                roll: x.roll,
                amount: x.amount,
            },
        ),
        AbiEvent::PlaceStrapBet(x) => ContractEvent::PlaceStrapBet(
            PlaceStrapBetEvent {
                game_id: x.game_id as u32,
                bet_roll_index: x.bet_roll_index as u32,
                player: x.player,
                roll: x.roll,
                strap: x.strap,
                amount: x.amount,
            },
        ),
        AbiEvent::ClaimRewards(x) => ContractEvent::ClaimRewards(
            ClaimRewardsEvent {
                game_id: x.game_id as u32,
                player: x.player,
                enabled_modifiers: x.enabled_modifiers,
                total_chips_winnings: x.total_chips_winnings,
                total_strap_winnings: x.total_strap_winnings,
            },
        ),
        AbiEvent::FundPot(x) => ContractEvent::FundPot(
            FundPotEvent { chips_amount: x.chips_amount, funder: x.funder },
        ),
        AbiEvent::PurchaseModifier(x) => ContractEvent::PurchaseModifier(
            PurchaseModifierEvent {
                expected_roll: x.expected_roll,
                expected_modifier: x.expected_modifier,
                purchaser: x.purchaser,
            },
        ),
    }
}

/// A `u64` counter as a `u32`, when it fits.
fn narrow(v: u64) -> (r: Option<u32>)
    ensures
        match r {
            Some(n) => v <= u32::MAX && n == v,
            None => v > u32::MAX,
        },
{
    if v <= u32::MAX as u64 {
        Some(v as u32)
    } else {
        None
    }
}

/// The indexer's event for a decoded log of the contract; `None` when a game id or a
/// roll index does not fit in a `u32`.
pub fn event_from_abi(event: AbiEvent) -> (r: Option<Event>)
    ensures
        counters_fit(event) ==> r == Some(Event::ContractEvent(converted(event))),
        !counters_fit(event) ==> r is None,
{
    match event {
        AbiEvent::Initialized(x) => Some(
            Event::init_event(x.vrf_contract_id, x.chip_asset_id, x.roll_frequency, x.first_height),
        ),
        AbiEvent::Roll(x) => {
            let game_id = narrow(x.game_id)?;
            let roll_index = narrow(x.roll_index)?;
            Some(Event::roll_event(game_id, roll_index, x.rolled_value))
        },
        AbiEvent::NewGame(x) => {
            let game_id = narrow(x.game_id)?;
            let inner = NewGameEvent { game_id, new_straps: x.new_straps, new_modifiers: x.new_modifiers };
            Some(Event::ContractEvent(ContractEvent::NewGame(inner)))
        },
        AbiEvent::ModifierTriggered(x) => {
            let inner = ModifierTriggeredEvent {
                game_id: narrow(x.game_id)?,
                roll_index: narrow(x.roll_index)?,
                trigger_roll: x.trigger_roll,
                modifier_roll: x.modifier_roll,
                modifier: x.modifier,
            };
            Some(Event::ContractEvent(ContractEvent::ModifierTriggered(inner)))
        },
        AbiEvent::PlaceChipBet(x) => {
            let inner = PlaceChipBetEvent {
                game_id: narrow(x.game_id)?,
                bet_roll_index: narrow(x.bet_roll_index)?,
                player: x.player,
                roll: x.roll,
                amount: x.amount,
            };
            Some(Event::ContractEvent(ContractEvent::PlaceChipBet(inner)))
        },
        AbiEvent::PlaceStrapBet(x) => {
            let inner = PlaceStrapBetEvent {
                game_id: narrow(x.game_id)?,
                bet_roll_index: narrow(x.bet_roll_index)?,
                player: x.player,
                roll: x.roll,
                strap: x.strap,
                amount: x.amount,
            };
            Some(Event::ContractEvent(ContractEvent::PlaceStrapBet(inner)))
        },
        AbiEvent::ClaimRewards(x) => {
            let inner = ClaimRewardsEvent {
                game_id: narrow(x.game_id)?,
                player: x.player,
                enabled_modifiers: x.enabled_modifiers,
                total_chips_winnings: x.total_chips_winnings,
                total_strap_winnings: x.total_strap_winnings,
            };
            Some(Event::ContractEvent(ContractEvent::ClaimRewards(inner)))
        },
        AbiEvent::FundPot(x) => {
            let inner = FundPotEvent { chips_amount: x.chips_amount, funder: x.funder };
            Some(Event::ContractEvent(ContractEvent::FundPot(inner)))
        },
        AbiEvent::PurchaseModifier(x) => {
            let inner = PurchaseModifierEvent {
                expected_roll: x.expected_roll,
                expected_modifier: x.expected_modifier,
                purchaser: x.purchaser,
            };
            Some(Event::ContractEvent(ContractEvent::PurchaseModifier(inner)))
        },
    }
}

} // verus!
