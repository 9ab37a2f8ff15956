//! The decisions of the game client's main loop: what a request of the player asks of the
//! network, and what is refreshed once that went through. The calls themselves, drawing
//! and waiting for events stay with the caller, which hands each request in and performs
//! the action that comes back.
use vstd::prelude::*;
use crate::client_state::{
    RollOutcome, floor_price, last_errors, modifier_floor_price, net_chips, net_outcome, next_roll, next_roll_spec,
    prev_roll, prev_roll_spec, push_errors, roll_article, roll_outcome, roll_outcome_spec,
};
use crate::labels::{
    compact, decimal, joined, lemma_joined_push, modifier_name, modifier_text, push_decimal, roll_name, roll_text,
    super_compact_strap,
};
use crate::client_state::{available_bet_capacity, bet_capacity};
use crate::types::{Modifier, Roll, Strap};
use crate::ui_state::UserEvent;

verus! {

/// A modifier of the current game as the shop lists it: the roll that triggers it, the roll
/// it applies to, the modifier, whether it was triggered, whether it was bought, its price.
pub type ModifierTrigger = (Roll, Roll, Modifier, bool, bool, u64);

/// What the client keeps between requests: the roll under the cursor, the VRF number it
/// asks for, the status line and the error messages.
#[derive(Debug, PartialEq, Eq)]
pub struct AppController {
    pub selected_roll: Roll,
    pub vrf_number: u64,
    pub status: String,
    pub errors: Vec<String>,
}

/// `v + 1`, from `u64::MAX` round to 0.
pub open spec fn vrf_up(v: u64) -> u64 {
    if v == u64::MAX {
        0
    } else {
        (v + 1) as u64
    }
}

/// `v - 1`, from 0 round to `u64::MAX`.
pub open spec fn vrf_down(v: u64) -> u64 {
    if v == 0 {
        u64::MAX
    } else {
        (v - 1) as u64
    }
}

impl AppController {
    /// Moves the cursor to the next roll on the board.
    pub fn select_next_roll(&mut self)
        ensures
            final(self).selected_roll == next_roll_spec(old(self).selected_roll),
            final(self).vrf_number == old(self).vrf_number,
            final(self).status@ == old(self).status@,
            final(self).errors@ == old(self).errors@,
    {
        self.selected_roll = next_roll(self.selected_roll);
    }

    /// Moves the cursor to the previous roll on the board.
    pub fn select_prev_roll(&mut self)
        ensures
            final(self).selected_roll == prev_roll_spec(old(self).selected_roll),
            final(self).vrf_number == old(self).vrf_number,
            final(self).status@ == old(self).status@,
            final(self).errors@ == old(self).errors@,
    {
        self.selected_roll = prev_roll(self.selected_roll);
    }

    /// Raises the VRF number by one, wrapping.
    pub fn inc_vrf(&mut self)
        ensures
            final(self).vrf_number == vrf_up(old(self).vrf_number),
            final(self).selected_roll == old(self).selected_roll,
            final(self).status@ == old(self).status@,
            final(self).errors@ == old(self).errors@,
    {
        self.vrf_number = self.vrf_number.wrapping_add(1);
    }

    /// Lowers the VRF number by one, wrapping.
    pub fn dec_vrf(&mut self)
        ensures
            final(self).vrf_number == vrf_down(old(self).vrf_number),
            final(self).selected_roll == old(self).selected_roll,
            final(self).status@ == old(self).status@,
            final(self).errors@ == old(self).errors@,
    {
        self.vrf_number = self.vrf_number.wrapping_sub(1);
    }

    /// Shows a new status line; the error messages are cleared.
    pub fn set_status(&mut self, message: String)
        ensures
            final(self).status@ == message@,
            final(self).errors@.len() == 0,
            final(self).selected_roll == old(self).selected_roll,
            final(self).vrf_number == old(self).vrf_number,
    {
        self.status = message;
        self.errors = Vec::new();
    }

    /// Adds error messages, keeping the newest ones.
    pub fn push_errors(&mut self, items: Vec<String>)
        ensures
            final(self).errors@ == if items@.len() == 0 {
                old(self).errors@
            } else {
                last_errors(old(self).errors@ + items@)
            },
            final(self).selected_roll == old(self).selected_roll,
            final(self).vrf_number == old(self).vrf_number,
            final(self).status@ == old(self).status@,
    {
        push_errors(&mut self.errors, items);
    }

    /// Records a claim that the contract refused: the status names the game, and the error
    /// of the call is added to the messages.
    pub fn claim_failed(&mut self, game_id: u32, error: &str)
        ensures
            final(self).status@ == "Claim failed for game "@ + decimal(game_id as nat),
            final(self).errors@.len() > 0,
            final(self).errors@.last()@ == "claim(game_id="@ + decimal(game_id as nat) + ") error: "@ + error@,
            final(self).errors@ == last_errors(old(self).errors@.push(final(self).errors@.last())),
            final(self).selected_roll == old(self).selected_roll,
            final(self).vrf_number == old(self).vrf_number,
    {
        let mut message = "claim(game_id=".to_owned();
        push_decimal(&mut message, game_id as u128);
        message.append(") error: ");
        message.append(error);
        let mut status = "Claim failed for game ".to_owned();
        push_decimal(&mut status, game_id as u128);
        self.status = status;
        let ghost msg = message;
        let mut items: Vec<String> = Vec::new();
        items.push(message);
        proof {
            assert(self.errors@ + items@ =~= self.errors@.push(msg));
        }
        push_errors(&mut self.errors, items);
        proof {
            assert(self.errors@.last() == msg);
        }
    }

    /// The part of a board snapshot taken from the cached overview and from the client's own
    /// state: the game, its heights and its pot, the betting room left, the cursor, the VRF
    /// number, the status, and the five newest error messages, newest first. Without a
    /// cached overview there is no snapshot.
    pub fn snapshot_head(&self, overview: Option<&OverviewData>) -> (r: Result<SnapshotHead, SnapshotError>)
        ensures
            match overview {
                None => r == Err::<SnapshotHead, SnapshotError>(SnapshotError::NoOverview),
                Some(o) => r matches Ok(h) && {
                    &&& h.current_game_id == o.game_id
                    &&& h.current_block_height == o.current_block_height
                    &&& h.next_roll_height == o.next_roll_height
                    &&& h.pot_balance == o.pot_size
                    &&& h.chips_owed == o.chips_owed
                    &&& h.total_chip_bets == o.total_chip_bets
                    &&& h.available_bet_capacity == bet_capacity(o.pot_size, o.chips_owed, o.total_chip_bets)
                    &&& h.selected_roll == self.selected_roll
                    &&& h.vrf_number == self.vrf_number
                    &&& h.status@ == self.status@
                    &&& h.errors@.len() == newest_errors(self.errors@).len()
                    &&& forall|i: int| 0 <= i < h.errors@.len() ==> (#[trigger] h.errors@[i])@ == newest_errors(self.errors@)[i]@
                },
            },
    {
        let o = match overview {
            Some(o) => o,
            None => return Err(SnapshotError::NoOverview),
        };
        let n = self.errors.len();
        let keep: usize = if n < 5 { n } else { 5 };
        let mut errors: Vec<String> = Vec::new();
        let mut i: usize = 0;
        while i < keep
            invariant
                keep <= n,
                n == self.errors@.len(),
                keep == newest_errors(self.errors@).len(),
                i <= keep,
                errors@.len() == i,
                forall|j: int| 0 <= j < i ==> (#[trigger] errors@[j])@ == newest_errors(self.errors@)[j]@,
            decreases keep - i,
        {
            let e = self.errors[n - 1 - i].clone();
            errors.push(e);
            i = i + 1;
        }
        Ok(SnapshotHead {
            current_game_id: o.game_id,
            current_block_height: o.current_block_height,
            next_roll_height: o.next_roll_height,
            pot_balance: o.pot_size,
            chips_owed: o.chips_owed,
            total_chip_bets: o.total_chip_bets,
            available_bet_capacity: available_bet_capacity(o.pot_size, o.chips_owed, o.total_chip_bets),
            selected_roll: self.selected_roll,
            vrf_number: self.vrf_number,
            status: self.status.clone(),
            errors,
        })
    }
}

/// The five newest of the error messages, newest first.
pub open spec fn newest_errors(errors: Seq<String>) -> Seq<String> {
    let keep = if errors.len() < 5 {
        errors.len()
    } else {
        5
    };
    Seq::new(keep, |i: int| errors[errors.len() - 1 - i])
}

/// The overview of the current game as the client receives it from the indexer.
#[derive(Clone, Debug, PartialEq, Eq)]
pub struct OverviewData {
    pub game_id: u32,
    pub rolls: Vec<Roll>,
    pub pot_size: u64,
    pub chips_owed: u64,
    pub total_chip_bets: u64,
    pub current_block_height: u32,
    pub next_roll_height: Option<u32>,
    pub rewards: Vec<(Roll, Strap, u64)>,
    pub modifier_shop: Vec<(Roll, Roll, Modifier, bool)>,
}

/// The part of a board snapshot that `AppController::snapshot_head` assembles.
#[derive(Clone, Debug, PartialEq, Eq)]
pub struct SnapshotHead {
    pub current_game_id: u32,
    pub current_block_height: u32,
    pub next_roll_height: Option<u32>,
    pub pot_balance: u64,
    pub chips_owed: u64,
    pub total_chip_bets: u64,
    pub available_bet_capacity: u64,
    pub selected_roll: Roll,
    pub vrf_number: u64,
    pub status: String,
    pub errors: Vec<String>,
}

/// Why no board snapshot can be made.
#[derive(Clone, Copy, Debug, PartialEq, Eq, Structural)]
pub enum SnapshotError {
    /// No overview of the game has been received yet.
    NoOverview,
}

/// How the snapshot worker ended when the loop stopped it.
#[derive(Clone, Debug, PartialEq, Eq)]
pub enum WorkerEnd {
    /// It returned without error.
    Finished,
    /// It returned an error.
    Failed(String),
    /// It panicked.
    Panicked(String),
}

/// Why the client's loop ended in error once the snapshot worker was stopped.
#[derive(Clone, Debug, PartialEq, Eq)]
pub enum LoopError {
    /// The worker's channel closed while the loop still ran.
    WorkerExitedUnexpectedly,
    /// The worker returned this error.
    WorkerFailed(String),
    /// The worker panicked with this message.
    WorkerPanicked(String),
}

/// What the client's loop returns once it stopped the snapshot worker: an error when the
/// worker failed or panicked, or when it had already closed its channel while the loop ran.
pub fn loop_result(worker: WorkerEnd, channel_closed: bool) -> (r: Result<(), LoopError>)
    ensures
        match worker {
            WorkerEnd::Finished => if channel_closed {
                r == Err::<(), LoopError>(LoopError::WorkerExitedUnexpectedly)
            } else {
                r == Ok::<(), LoopError>(())
            },
            WorkerEnd::Failed(e) => r == Err::<(), LoopError>(LoopError::WorkerFailed(e)),
            WorkerEnd::Panicked(e) => r == Err::<(), LoopError>(LoopError::WorkerPanicked(e)),
        },
{
    match worker {
        WorkerEnd::Finished => if channel_closed {
            Err(LoopError::WorkerExitedUnexpectedly)
        } else {
            Ok(())
        },
        WorkerEnd::Failed(e) => Err(LoopError::WorkerFailed(e)),
        WorkerEnd::Panicked(e) => Err(LoopError::WorkerPanicked(e)),
    }
}

impl LoopError {
    /// The message the client ends with.
    pub fn message(&self) -> (r: String)
        ensures
            match self {
                LoopError::WorkerExitedUnexpectedly => r@
                    == "Snapshot worker exited unexpectedly; check the indexer connection"@,
                LoopError::WorkerFailed(e) => r@ == "snapshot worker failed: "@ + e@,
                LoopError::WorkerPanicked(e) => r@ == "snapshot worker panicked: "@ + e@,
            },
    {
        match self {
            LoopError::WorkerExitedUnexpectedly => "Snapshot worker exited unexpectedly; check the indexer connection".to_owned(),
            LoopError::WorkerFailed(e) => {
                let mut m = "snapshot worker failed: ".to_owned();
                m.append(e.as_str());
                m
            },
            LoopError::WorkerPanicked(e) => {
                let mut m = "snapshot worker panicked: ".to_owned();
                m.append(e.as_str());
                m
            },
        }
    }
}

/// What the loop does for a request of the player.
#[derive(Clone, Debug, PartialEq, Eq)]
pub enum LoopAction {
    /// Stop the snapshot worker and leave the loop.
    Stop,
    /// Nothing: no board has been shown yet.
    Ignore,
    /// Draw the last board again.
    Redraw,
    /// The cursor moved: show the board with the new selection.
    SelectionMoved(Roll),
    /// Bet chips on a roll.
    PlaceChipBet { roll: Roll, amount: u64 },
    /// Buy the triggered modifier for a roll at its price.
    PurchaseTriggered { target: Roll, modifier: Modifier, cost: u64 },
    /// Report that the selected roll has no modifier to buy.
    NoTriggeredModifier { roll: Roll },
    /// Bet a strap on a roll.
    PlaceStrapBet { roll: Roll, strap: Strap, amount: u64 },
    /// Roll, remembering the board as it was to tell when the roll shows.
    Roll { prev_len: usize, prev_last: Option<Roll>, prev_game_id: u32 },
    /// Ask the VRF contract for this number.
    SetVrf(u64),
    /// Claim a game's rewards with the chosen modifiers.
    Claim { game_id: u32, enabled: Vec<(Roll, Modifier)> },
    /// Reload the strap inventory and show it.
    RefreshStrapInventory,
    /// Report that this modifier was already bought for this roll.
    AlreadyPurchased { roll: Roll, modifier: Modifier },
    /// Buy a modifier for a roll from the shop at this price.
    ShopPurchase { roll: Roll, modifier: Modifier, cost: u64 },
}

/// The first modifier the shop lists for `roll` that was triggered and not yet bought.
pub open spec fn first_open_trigger(triggers: Seq<ModifierTrigger>, roll: Roll) -> Option<ModifierTrigger>
    decreases triggers.len(),
{
    if triggers.len() == 0 {
        None
    } else if triggers[0].1 == roll && triggers[0].3 && !triggers[0].4 {
        Some(triggers[0])
    } else {
        first_open_trigger(triggers.drop_first(), roll)
    }
}

/// The price of the first listing of `modifier` for `roll`.
pub open spec fn first_listed_price(triggers: Seq<ModifierTrigger>, roll: Roll, modifier: Modifier) -> Option<u64>
    decreases triggers.len(),
{
    if triggers.len() == 0 {
        None
    } else if triggers[0].1 == roll && triggers[0].2 == modifier {
        Some(triggers[0].5)
    } else {
        first_listed_price(triggers.drop_first(), roll, modifier)
    }
}

/// Whether `modifier` was already bought for `roll`.
pub open spec fn already_bought(triggers: Seq<ModifierTrigger>, roll: Roll, modifier: Modifier) -> bool {
    exists|i: int| 0 <= i < triggers.len() && #[trigger] triggers[i].1 == roll && triggers[i].2 == modifier && triggers[i].4
}

/// The shop's price for `modifier` on `roll`: the listed one, else the modifier's floor price.
pub open spec fn shop_price(triggers: Seq<ModifierTrigger>, roll: Roll, modifier: Modifier) -> u64 {
    match first_listed_price(triggers, roll, modifier) {
        Some(p) => p,
        None => floor_price(modifier),
    }
}

/// The action for a request, given the selection before it (`selected`, `vrf`) and the last
/// board shown, if any (`board`: its roll history and game id, and the shop's listings).
pub open spec fn planned(
    ev: UserEvent,
    selected: Roll,
    vrf: u64,
    board: Option<(Seq<Roll>, u32)>,
    triggers: Seq<ModifierTrigger>,
) -> LoopAction {
    if board is None {
        if ev == UserEvent::Quit {
            LoopAction::Stop
        } else {
            LoopAction::Ignore
        }
    } else {
        let (history, game_id) = board.unwrap();
        match ev {
            UserEvent::Quit => LoopAction::Stop,
            UserEvent::NextRoll => LoopAction::SelectionMoved(next_roll_spec(selected)),
            UserEvent::PrevRoll => LoopAction::SelectionMoved(prev_roll_spec(selected)),
            UserEvent::PlaceBetAmount(amount) => LoopAction::PlaceChipBet { roll: selected, amount },
            UserEvent::Purchase => match first_open_trigger(triggers, selected) {
                Some(t) => LoopAction::PurchaseTriggered { target: t.1, modifier: t.2, cost: t.5 },
                None => LoopAction::NoTriggeredModifier { roll: selected },
            },
            UserEvent::ConfirmStrapBet { strap, amount } => LoopAction::PlaceStrapBet { roll: selected, strap, amount },
            UserEvent::Roll => LoopAction::Roll {
                prev_len: history.len() as usize,
                prev_last: if history.len() == 0 {
                    None
                } else {
                    Some(history.last())
                },
                prev_game_id: game_id,
            },
            UserEvent::VRFInc => LoopAction::SetVrf(vrf_up(vrf)),
            UserEvent::VRFDec => LoopAction::SetVrf(vrf_down(vrf)),
            UserEvent::SetVrf(n) => LoopAction::SetVrf(n),
            UserEvent::ConfirmClaim { game_id, enabled } => LoopAction::Claim { game_id, enabled },
            UserEvent::OpenStrapInventory => LoopAction::RefreshStrapInventory,
            UserEvent::ConfirmShopPurchase { roll, modifier } => if already_bought(triggers, roll, modifier) {
                LoopAction::AlreadyPurchased { roll, modifier }
            } else {
                LoopAction::ShopPurchase { roll, modifier, cost: shop_price(triggers, roll, modifier) }
            },
            _ => LoopAction::Redraw,
        }
    }
}

fn find_open_trigger(triggers: &Vec<ModifierTrigger>, roll: Roll) -> (r: Option<ModifierTrigger>)
    ensures
        r == first_open_trigger(triggers@, roll),
{
    let mut i: usize = 0;
    assert(triggers@.skip(0) =~= triggers@);
    while i < triggers.len()
        invariant
            i <= triggers@.len(),
            first_open_trigger(triggers@, roll) == first_open_trigger(triggers@.skip(i as int), roll),
        decreases triggers@.len() - i,
    {
        let t = triggers[i];
        assert(triggers@.skip(i as int).drop_first() =~= triggers@.skip(i + 1));
        if t.1 == roll && t.3 && !t.4 {
            return Some(t);
        }
        i = i + 1;
    }
    None
}

fn find_listed_price(triggers: &Vec<ModifierTrigger>, roll: Roll, modifier: Modifier) -> (r: Option<u64>)
    ensures
        r == first_listed_price(triggers@, roll, modifier),
{
    let mut i: usize = 0;
    assert(triggers@.skip(0) =~= triggers@);
    while i < triggers.len()
        invariant
            i <= triggers@.len(),
            first_listed_price(triggers@, roll, modifier) == first_listed_price(
                triggers@.skip(i as int),
                roll,
                modifier,
            ),
        decreases triggers@.len() - i,
    {
        let t = triggers[i];
        assert(triggers@.skip(i as int).drop_first() =~= triggers@.skip(i + 1));
        if t.1 == roll && t.2 == modifier {
            return Some(t.5);
        }
        i = i + 1;
    }
    None
}

fn is_bought(triggers: &Vec<ModifierTrigger>, roll: Roll, modifier: Modifier) -> (r: bool)
    ensures
        r == already_bought(triggers@, roll, modifier),
{
    let mut i: usize = 0;
    while i < triggers.len()
        invariant
            i <= triggers@.len(),
            forall|j: int| 0 <= j < i ==> !(#[trigger] triggers@[j].1 == roll && triggers@[j].2 == modifier && triggers@[j].4),
        decreases triggers@.len() - i,
    {
        let t = triggers[i];
        if t.1 == roll && t.2 == modifier && t.4 {
            assert(triggers@[i as int].1 == roll && triggers@[i as int].2 == modifier && triggers@[i as int].4);
            return true;
        }
        i = i + 1;
    }
    false
}

/// Decides what a request of the player does. The cursor and the VRF number move here, as
/// the client's own state; the returned action names the network call to make, if any.
/// `board` is the last board shown: its roll history and game id; `triggers` its shop.
pub fn plan_user_event(
    controller: &mut AppController,
    ev: UserEvent,
    board: Option<(&Vec<Roll>, u32)>,
    triggers: &Vec<ModifierTrigger>,
) -> (action: LoopAction)
    ensures
        action == planned(
            ev,
            old(controller).selected_roll,
            old(controller).vrf_number,
            match board {
                Some((h, g)) => Some((h@, g)),
                None => None,
            },
            triggers@,
        ),
        final(controller).selected_roll == match action {
            LoopAction::SelectionMoved(r) => r,
            _ => old(controller).selected_roll,
        },
        final(controller).vrf_number == match ev {
            UserEvent::VRFInc => if board is Some {
                vrf_up(old(controller).vrf_number)
            } else {
                old(controller).vrf_number
            },
            UserEvent::VRFDec => if board is Some {
                vrf_down(old(controller).vrf_number)
            } else {
                old(controller).vrf_number
            },
            _ => old(controller).vrf_number,
        },
        final(controller).status@ == old(controller).status@,
        final(controller).errors@ == old(controller).errors@,
{
    let (history, game_id) = match board {
        None => {
            return if matches!(ev, UserEvent::Quit) {
                LoopAction::Stop
            } else {
                LoopAction::Ignore
            };
        },
        Some(b) => b,
    };
    match ev {
        UserEvent::Quit => LoopAction::Stop,
        UserEvent::NextRoll => {
            controller.select_next_roll();
            LoopAction::SelectionMoved(controller.selected_roll)
        },
        UserEvent::PrevRoll => {
            controller.select_prev_roll();
            LoopAction::SelectionMoved(controller.selected_roll)
        },
        UserEvent::PlaceBetAmount(amount) => LoopAction::PlaceChipBet { roll: controller.selected_roll, amount },
        UserEvent::Purchase => match find_open_trigger(triggers, controller.selected_roll) {
            Some(t) => LoopAction::PurchaseTriggered { target: t.1, modifier: t.2, cost: t.5 },
            None => LoopAction::NoTriggeredModifier { roll: controller.selected_roll },
        },
        UserEvent::ConfirmStrapBet { strap, amount } => LoopAction::PlaceStrapBet {
            roll: controller.selected_roll,
            strap,
            amount,
        },
        UserEvent::Roll => {
            let prev_last = if history.len() == 0 {
                None
            } else {
                Some(history[history.len() - 1])
            };
            LoopAction::Roll { prev_len: history.len(), prev_last, prev_game_id: game_id }
        },
        UserEvent::VRFInc => {
            controller.inc_vrf();
            LoopAction::SetVrf(controller.vrf_number)
        },
        UserEvent::VRFDec => {
            controller.dec_vrf();
            LoopAction::SetVrf(controller.vrf_number)
        },
        UserEvent::SetVrf(n) => LoopAction::SetVrf(n),
        UserEvent::ConfirmClaim { game_id, enabled } => LoopAction::Claim { game_id, enabled },
        UserEvent::OpenStrapInventory => LoopAction::RefreshStrapInventory,
        UserEvent::ConfirmShopPurchase { roll, modifier } => {
            if is_bought(triggers, roll, modifier) {
                LoopAction::AlreadyPurchased { roll, modifier }
            } else {
                let cost = match find_listed_price(triggers, roll, modifier) {
                    Some(p) => p,
                    None => modifier_floor_price(&modifier),
                };
                LoopAction::ShopPurchase { roll, modifier, cost }
            }
        },
        _ => LoopAction::Redraw,
    }
}

/// What the loop refreshes after an action's network call went through.
#[derive(Clone, Copy, Debug, PartialEq, Eq, Structural)]
pub struct Followups {
    /// Ask the snapshot worker for a fresh board.
    pub request_snapshot: bool,
    /// Reload the active modifiers first.
    pub refresh_modifiers: bool,
    /// Reload the strap inventory and rebuild the board.
    pub refresh_straps: bool,
    /// Reload the chip balance and rebuild the board (when the straps were not reloaded).
    pub refresh_chips: bool,
}

/// The refreshes that follow a successful action: a chip bet reloads the balance; a strap
/// bet and a claim reload the straps; a purchase reloads modifiers and balance; a roll
/// reloads modifiers; a VRF change only asks for a board. Every network call asks for a
/// fresh board; an action without a call refreshes nothing.
pub open spec fn followups_spec(action: LoopAction) -> Followups {
    match action {
        LoopAction::PlaceChipBet { .. } => Followups {
            request_snapshot: true,
            refresh_modifiers: false,
            refresh_straps: false,
            refresh_chips: true,
        },
        LoopAction::PurchaseTriggered { .. } | LoopAction::ShopPurchase { .. } => Followups {
            request_snapshot: true,
            refresh_modifiers: true,
            refresh_straps: false,
            refresh_chips: true,
        },
        LoopAction::PlaceStrapBet { .. } | LoopAction::Claim { .. } => Followups {
            request_snapshot: true,
            refresh_modifiers: false,
            refresh_straps: true,
            refresh_chips: false,
        },
        LoopAction::Roll { .. } => Followups {
            request_snapshot: true,
            refresh_modifiers: true,
            refresh_straps: false,
            refresh_chips: false,
        },
        LoopAction::SetVrf(_) => Followups {
            request_snapshot: true,
            refresh_modifiers: false,
            refresh_straps: false,
            refresh_chips: false,
        },
        _ => Followups { request_snapshot: false, refresh_modifiers: false, refresh_straps: false, refresh_chips: false },
    }
}

pub fn followups(action: &LoopAction) -> (f: Followups)
    ensures
        f == followups_spec(*action),
{
    match action {
        LoopAction::PlaceChipBet { .. } => Followups {
            request_snapshot: true,
            refresh_modifiers: false,
            refresh_straps: false,
            refresh_chips: true,
        },
        LoopAction::PurchaseTriggered { .. } | LoopAction::ShopPurchase { .. } => Followups {
            request_snapshot: true,
            refresh_modifiers: true,
            refresh_straps: false,
            refresh_chips: true,
        },
        LoopAction::PlaceStrapBet { .. } | LoopAction::Claim { .. } => Followups {
            request_snapshot: true,
            refresh_modifiers: false,
            refresh_straps: true,
            refresh_chips: false,
        },
        LoopAction::Roll { .. } => Followups {
            request_snapshot: true,
            refresh_modifiers: true,
            refresh_straps: false,
            refresh_chips: false,
        },
        LoopAction::SetVrf(_) => Followups {
            request_snapshot: true,
            refresh_modifiers: false,
            refresh_straps: false,
            refresh_chips: false,
        },
        _ => Followups { request_snapshot: false, refresh_modifiers: false, refresh_straps: false, refresh_chips: false },
    }
}

/// The word for `amount` chips: "chip" for one, else "chips".
pub fn chip_label(amount: u64) -> (s: &'static str)
    ensures
        amount == 1 ==> s@ == seq!['c', 'h', 'i', 'p'],
        amount != 1 ==> s@ == seq!['c', 'h', 'i', 'p', 's'],
{
    if amount == 1 {
        proof {
            reveal_strlit("chip");
        }
        "chip"
    } else {
        proof {
            reveal_strlit("chips");
        }
        "chips"
    }
}


/// The board as it was when a roll was asked for: how many rolls it showed, the last of
/// them, and its game.
#[derive(Clone, Copy, Debug, PartialEq, Eq, Structural)]
pub struct PendingRollCheck {
    pub prev_len: usize,
    pub prev_last: Option<Roll>,
    pub prev_game_id: u32,
}

/// What the client shows once a board is built while a roll is awaited.
#[derive(Clone, Debug, PartialEq, Eq)]
pub enum PostRollStep {
    /// No roll is awaited.
    Idle,
    /// The roll showed: show this status; the roll is no longer awaited.
    Shown(String),
    /// The roll has not shown yet: show this status, if any, and drop the cached board.
    Waiting(Option<String>),
}

/// The status after a roll that started a new game.
pub open spec fn new_game_text(game_id: u32, pot: u64, owed: u64, capacity: u64) -> Seq<char> {
    "Rolled a Seven! New Game "@ + decimal(game_id as nat) + " | Pot: "@ + decimal(pot as nat) + " | Owed: "@
        + decimal(owed as nat) + " | Capacity: "@ + decimal(capacity as nat)
}

/// The status after a roll that came up.
pub open spec fn rolled_text(roll: Roll) -> Seq<char> {
    "Rolled "@ + (if roll == Roll::Eight || roll == Roll::Eleven {
        seq!['a', 'n']
    } else {
        seq!['a']
    }) + " "@ + roll_text(roll)
}

/// What a new board means for an awaited roll (`pending`): a later game announces the new
/// game with the pot, the owed chips and the bet capacity; a roll that shows is announced
/// by name; otherwise the roll is still awaited, and a status of `Rolling...` turns into a
/// note that the roll was submitted.
pub fn process_post_action(
    pending: &mut Option<PendingRollCheck>,
    new_len: usize,
    new_last: Option<Roll>,
    new_game_id: u32,
    pot: u64,
    owed: u64,
    capacity: u64,
    status: &str,
) -> (step: PostRollStep)
    ensures
        match *old(pending) {
            None => step == PostRollStep::Idle && *final(pending) == *old(pending),
            Some(p) => match roll_outcome_spec(p.prev_len, p.prev_last, p.prev_game_id, new_len, new_last, new_game_id) {
                RollOutcome::NewGame => step matches PostRollStep::Shown(m) && m@ == new_game_text(
                    new_game_id,
                    pot,
                    owed,
                    capacity,
                ) && *final(pending) == None::<PendingRollCheck>,
                RollOutcome::Rolled(roll) => step matches PostRollStep::Shown(m) && m@ == rolled_text(roll)
                    && *final(pending) == None::<PendingRollCheck>,
                RollOutcome::Waiting => *final(pending) == *old(pending) && if status@ == "Rolling..."@ {
                    step matches PostRollStep::Waiting(Some(m)) && m@ == "Roll submitted; waiting for confirmation..."@
                } else {
                    step == PostRollStep::Waiting(None)
                },
            },
        },
{
    let p = match *pending {
        None => return PostRollStep::Idle,
        Some(p) => p,
    };
    match roll_outcome(p.prev_len, p.prev_last, p.prev_game_id, new_len, new_last, new_game_id) {
        RollOutcome::NewGame => {
            let mut m = "Rolled a Seven! New Game ".to_owned();
            push_decimal(&mut m, new_game_id as u128);
            m.append(" | Pot: ");
            push_decimal(&mut m, pot as u128);
            m.append(" | Owed: ");
            push_decimal(&mut m, owed as u128);
            m.append(" | Capacity: ");
            push_decimal(&mut m, capacity as u128);
            *pending = None;
            PostRollStep::Shown(m)
        },
        RollOutcome::Rolled(roll) => {
            let mut m = "Rolled ".to_owned();
            m.append(roll_article(roll));
            m.append(" ");
            m.append(roll_name(&roll));
            *pending = None;
            PostRollStep::Shown(m)
        },
        RollOutcome::Waiting => {
            let rolling = "Rolling...".to_owned();
            if status.to_owned() == rolling {
                PostRollStep::Waiting(Some("Roll submitted; waiting for confirmation...".to_owned()))
            } else {
                PostRollStep::Waiting(None)
            }
        },
    }
}

/// The straps a claim brought: for each strap held before (with its balance then) and its
/// balance after, the rise, where there was one.
pub open spec fn strap_gains(pre: Seq<(Strap, u64)>, post: Seq<u128>) -> Seq<(Strap, u128)>
    decreases pre.len(),
{
    if pre.len() == 0 {
        Seq::empty()
    } else {
        let rest = strap_gains(pre.drop_last(), post);
        let i = pre.len() - 1;
        if post[i] > pre[i].1 {
            rest.push((pre[i].0, (post[i] - pre[i].1) as u128))
        } else {
            rest
        }
    }
}

pub fn claim_strap_deltas(pre: &Vec<(Strap, u64)>, post: &Vec<u128>) -> (r: Vec<(Strap, u128)>)
    requires
        pre@.len() == post@.len(),
    ensures
        r@ == strap_gains(pre@, post@),
{
    let mut out: Vec<(Strap, u128)> = Vec::new();
    let mut i: usize = 0;
    while i < pre.len()
        invariant
            i <= pre@.len(),
            pre@.len() == post@.len(),
            out@ == strap_gains(pre@.take(i as int), post@),
        decreases pre@.len() - i,
    {
        let (strap, before) = pre[i];
        let after = post[i];
        proof {
            assert(pre@.take(i + 1).drop_last() =~= pre@.take(i as int));
        }
        let gain = after.saturating_sub(before as u128);
        if gain > 0 {
            out.push((strap, gain));
        }
        i = i + 1;
    }
    proof {
        assert(pre@.take(pre@.len() as int) =~= pre@);
    }
    out
}

/// A strap a claim brought, with how many: the strap in a few characters, ` x` and the
/// count.
pub open spec fn gain_text(g: (Strap, u128)) -> Seq<char> {
    compact(g.0) + " x"@ + decimal(g.1 as nat)
}

/// The status after a claim went through: the game and the chips claimed; with the chips
/// bet in it when there were any, and the net result; with the straps the claim brought
/// when there were any.
pub open spec fn claim_text(game_id: u32, claimed: u64, bet: u64, gains: Seq<(Strap, u128)>) -> Seq<char> {
    let (even, magnitude) = net_outcome(claimed, bet);
    "Claimed game "@ + decimal(game_id as nat) + " | Chips "@ + decimal(claimed as nat) + (if bet > 0 {
        " | Bet "@ + decimal(bet as nat) + " | Net "@ + (if even {
            "+"@
        } else {
            "-"@
        }) + decimal(magnitude as nat)
    } else {
        Seq::empty()
    }) + (if gains.len() > 0 {
        " | Straps: "@ + joined(gains.map_values(|g: (Strap, u128)| gain_text(g)), " "@)
    } else {
        Seq::empty()
    })
}

pub fn claim_status(game_id: u32, claimed_chips: u64, total_chip_bet: u64, gains: &Vec<(Strap, u128)>) -> (r: String)
    ensures
        r@ == claim_text(game_id, claimed_chips, total_chip_bet, gains@),
{
    let mut m = "Claimed game ".to_owned();
    push_decimal(&mut m, game_id as u128);
    m.append(" | Chips ");
    push_decimal(&mut m, claimed_chips as u128);
    let ghost head = m@;
    if total_chip_bet > 0 {
        let (even, magnitude) = net_chips(claimed_chips, total_chip_bet);
        m.append(" | Bet ");
        push_decimal(&mut m, total_chip_bet as u128);
        m.append(" | Net ");
        if even {
            m.append("+");
        } else {
            m.append("-");
        }
        push_decimal(&mut m, magnitude as u128);
    }
    let ghost with_net = m@;
    if gains.len() > 0 {
        m.append(" | Straps: ");
        let ghost parts = gains@.map_values(|g: (Strap, u128)| gain_text(g));
        let ghost start = m@;
        let mut i: usize = 0;
        while i < gains.len()
            invariant
                i <= gains@.len(),
                parts == gains@.map_values(|g: (Strap, u128)| gain_text(g)),
                m@ == start + joined(parts.take(i as int), " "@),
            decreases gains@.len() - i,
        {
            let (strap, count) = gains[i];
            proof {
                lemma_joined_push(parts.take(i as int), " "@, parts[i as int]);
                assert(parts.take(i + 1) =~= parts.take(i as int).push(parts[i as int]));
            }
            if i > 0 {
                m.append(" ");
            }
            let label = super_compact_strap(&strap);
            m.append(label.as_str());
            m.append(" x");
            push_decimal(&mut m, count);
            i = i + 1;
        }
        proof {
            assert(parts.take(gains@.len() as int) =~= parts);
        }
    }
    proof {
        assert(m@ =~= claim_text(game_id, claimed_chips, total_chip_bet, gains@));
    }
    m
}


/// The status shown while an action's network call is made.
pub open spec fn action_text(action: LoopAction) -> Option<Seq<char>> {
    match action {
        LoopAction::PlaceChipBet { roll, amount } => Some(
            "Placing bet of "@ + decimal(amount as nat) + " "@ + (if amount == 1 {
                seq!['c', 'h', 'i', 'p']
            } else {
                seq!['c', 'h', 'i', 'p', 's']
            }) + " on "@ + roll_text(roll) + "..."@,
        ),
        LoopAction::PurchaseTriggered { target, .. } => Some(
            "Purchasing triggered modifier for "@ + roll_text(target) + "..."@,
        ),
        LoopAction::NoTriggeredModifier { roll } => Some("Purchasing triggered modifier for "@ + roll_text(roll) + "..."@),
        LoopAction::PlaceStrapBet { roll, strap, amount } => Some(
            "Placing "@ + decimal(amount as nat) + " of "@ + compact(strap) + " on "@ + roll_text(roll) + "..."@,
        ),
        LoopAction::Roll { .. } => Some("Rolling..."@),
        LoopAction::SetVrf(n) => Some("Setting VRF to "@ + decimal(n as nat) + "..."@),
        LoopAction::Claim { game_id, enabled } => Some(
            if enabled@.len() == 0 {
                "Claiming rewards for game "@ + decimal(game_id as nat) + "..."@
            } else {
                "Claiming rewards for game "@ + decimal(game_id as nat) + " ("@ + decimal(enabled@.len()) + " modifier"@
                    + (if enabled@.len() == 1 {
                    Seq::<char>::empty()
                } else {
                    "s"@
                }) + ")..."@
            },
        ),
        LoopAction::ShopPurchase { roll, modifier, cost } => Some(
            "Purchasing "@ + modifier_text(modifier) + " for "@ + roll_text(roll) + " ("@ + decimal(cost as nat)
                + " chips)..."@,
        ),
        _ => None,
    }
}

/// The status the client shows while it makes an action's network call, if any.
pub fn action_status(action: &LoopAction) -> (r: Option<String>)
    ensures
        match action_text(*action) {
            Some(t) => r matches Some(m) && m@ == t,
            None => r is None,
        },
{
    match action {
        LoopAction::PlaceChipBet { roll, amount } => {
            let mut m = "Placing bet of ".to_owned();
            push_decimal(&mut m, *amount as u128);
            m.append(" ");
            m.append(chip_label(*amount));
            m.append(" on ");
            m.append(roll_name(roll));
            m.append("...");
            Some(m)
        },
        LoopAction::PurchaseTriggered { target, .. } => {
            let mut m = "Purchasing triggered modifier for ".to_owned();
            m.append(roll_name(target));
            m.append("...");
            Some(m)
        },
        LoopAction::NoTriggeredModifier { roll } => {
            let mut m = "Purchasing triggered modifier for ".to_owned();
            m.append(roll_name(roll));
            m.append("...");
            Some(m)
        },
        LoopAction::PlaceStrapBet { roll, strap, amount } => {
            let mut m = "Placing ".to_owned();
            push_decimal(&mut m, *amount as u128);
            m.append(" of ");
            let label = super_compact_strap(strap);
            m.append(label.as_str());
            m.append(" on ");
            m.append(roll_name(roll));
            m.append("...");
            Some(m)
        },
        LoopAction::Roll { .. } => Some("Rolling...".to_owned()),
        LoopAction::SetVrf(n) => {
            let mut m = "Setting VRF to ".to_owned();
            push_decimal(&mut m, *n as u128);
            m.append("...");
            Some(m)
        },
        LoopAction::Claim { game_id, enabled } => {
            let mut m = "Claiming rewards for game ".to_owned();
            push_decimal(&mut m, *game_id as u128);
            if enabled.len() == 0 {
                m.append("...");
            } else {
                m.append(" (");
                push_decimal(&mut m, enabled.len() as u128);
                m.append(" modifier");
                let ghost before = m@;
                if enabled.len() != 1 {
                    m.append("s");
                }
                proof {
                    if enabled@.len() == 1 {
                        assert(m@ =~= before + Seq::<char>::empty());
                    }
                }
                m.append(")...");
            }
            Some(m)
        },
        LoopAction::ShopPurchase { roll, modifier, cost } => {
            let mut m = "Purchasing ".to_owned();
            m.append(modifier_name(modifier));
            m.append(" for ");
            m.append(roll_name(roll));
            m.append(" (");
            push_decimal(&mut m, *cost as u128);
            m.append(" chips)...");
            Some(m)
        },
        _ => None,
    }
}

/// The error an action reports instead of a network call, if any.
pub open spec fn action_error_text(action: LoopAction) -> Option<Seq<char>> {
    match action {
        LoopAction::NoTriggeredModifier { .. } => Some("No triggered modifier for the selected roll"@),
        LoopAction::AlreadyPurchased { roll, modifier } => Some(
            modifier_text(modifier) + " for "@ + roll_text(roll) + " is already purchased"@,
        ),
        _ => None,
    }
}

pub fn action_error(action: &LoopAction) -> (r: Option<String>)
    ensures
        match action_error_text(*action) {
            Some(t) => r matches Some(m) && m@ == t,
            None => r is None,
        },
{
    match action {
        LoopAction::NoTriggeredModifier { .. } => Some("No triggered modifier for the selected roll".to_owned()),
        LoopAction::AlreadyPurchased { roll, modifier } => {
            let mut m = modifier_name(modifier).to_owned();
            m.append(" for ");
            m.append(roll_name(roll));
            m.append(" is already purchased");
            Some(m)
        },
        _ => None,
    }
}


/// Whether a roll may be asked for now: not before the next roll's height, when the status
/// says which block is awaited.
pub open spec fn roll_wait_text(next_roll_height: u32, current_height: u32) -> Option<Seq<char>> {
    if current_height < next_roll_height {
        Some(
            "Waiting for block "@ + decimal(next_roll_height as nat) + " (current height "@ + decimal(
                current_height as nat,
            ) + ") before rolling"@,
        )
    } else {
        None
    }
}

pub fn roll_wait_status(next_roll_height: u32, current_height: u32) -> (r: Option<String>)
    ensures
        match roll_wait_text(next_roll_height, current_height) {
            Some(t) => r matches Some(m) && m@ == t,
            None => r is None,
        },
{
    if current_height < next_roll_height {
        let mut m = "Waiting for block ".to_owned();
        push_decimal(&mut m, next_roll_height as u128);
        m.append(" (current height ");
        push_decimal(&mut m, current_height as u128);
        m.append(") before rolling");
        Some(m)
    } else {
        None
    }
}

/// The status once the contract reports the roll: a `Seven` ends the game; any other roll
/// is named.
pub open spec fn rolled_status_text(roll: Roll) -> Seq<char> {
    if roll == Roll::Seven {
        "Rolled a Seven! Waiting for the next game..."@
    } else {
        "Rolled a "@ + roll_text(roll)
    }
}

pub fn rolled_status(roll: Roll) -> (r: String)
    ensures
        r@ == rolled_status_text(roll),
{
    if roll == Roll::Seven {
        "Rolled a Seven! Waiting for the next game...".to_owned()
    } else {
        let mut m = "Rolled a ".to_owned();
        m.append(roll_name(&roll));
        m
    }
}

} // verus!
