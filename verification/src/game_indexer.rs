//! The indexer's state machine: it folds the contract's events into the stored snapshots.
use vstd::prelude::*;
use crate::crypto::{asset_id_of, contract_asset_id};
use crate::events::{
    ClaimRewardsEvent, ContractEvent, Event, FundPotEvent, InitializedEvent, ModifierTriggeredEvent,
    NewGameEvent, PlaceChipBetEvent, PlaceStrapBetEvent, PurchaseModifierEvent, RollEvent,
};
use crate::indexer::{law_accumulate_keeps_totals, strap_total};
use crate::indexer::{
    accumulate_strap, accumulated, append_bet_to_account, appended, ensure_account_roll_template,
    sat_add, sat_sub, template_of,
};
use crate::snapshot::{
    AccountBetKind, AccountBetPlacement, AccountModel, AccountSnapshot, ActiveModifier,
    OverviewModel, OverviewSnapshot, empty_account, empty_overview,
};
use crate::storage::{InMemoryMetadataStorage, InMemorySnapshotStorage, StorageError, games_of};
use crate::types::{Identity, Modifier, Roll, Strap, roll_index, roll_to_index, sub_id_of};

verus! {

/// The asset id under which the contract mints a strap.
pub open spec fn strap_asset(contract_id: [u8; 32], strap: Strap) -> [u8; 32] {
    asset_id_of(contract_id, sub_id_of(strap))
}

/// The overview after the contract was initialized at `height`.
pub open spec fn initialized_overview(e: InitializedEvent, height: u32) -> OverviewModel {
    OverviewModel {
        next_roll_height: Some((e.first_height + e.roll_frequency) as u32),
        roll_frequency: Some(e.roll_frequency),
        first_roll_height: Some(e.first_height),
        current_block_height: height,
        ..empty_overview()
    }
}

/// The overview after a roll of `v` at `height`.
pub open spec fn rolled_overview(o: OverviewModel, v: Roll, height: u32) -> OverviewModel {
    OverviewModel { rolls: o.rolls.push(v), current_block_height: height, ..o }
}

/// Shop entries for (modifier roll, modifier) become marked.
pub open spec fn marked_shop(
    shop: Seq<(Roll, Roll, Modifier, bool)>,
    modifier_roll: Roll,
    modifier: Modifier,
) -> Seq<(Roll, Roll, Modifier, bool)> {
    shop.map_values(
        |x: (Roll, Roll, Modifier, bool)|
            if x.1 == modifier_roll && x.2 == modifier {
                (x.0, x.1, x.2, true)
            } else {
                x
            },
    )
}

/// The overview after a modifier became active on `modifier_roll` at `height`.
pub open spec fn modifier_overview(o: OverviewModel, modifier_roll: Roll, modifier: Modifier, height: u32) -> OverviewModel {
    OverviewModel {
        modifiers_active: o.modifiers_active.update(roll_index(modifier_roll), Some(modifier)),
        modifier_shop: marked_shop(o.modifier_shop, modifier_roll, modifier),
        current_block_height: height,
        ..o
    }
}

/// The overview after a chip bet of `amount` on `roll` at `height`.
pub open spec fn chip_bet_overview(o: OverviewModel, roll: Roll, amount: u64, height: u32) -> OverviewModel {
    let i = roll_index(roll);
    OverviewModel {
        pot_size: sat_add(o.pot_size, amount),
        total_bets: o.total_bets.update(i, (sat_add(o.total_bets[i].0, amount), o.total_bets[i].1)),
        current_block_height: height,
        ..o
    }
}

/// The overview after a bet of `amount` of `strap` on `roll` at `height`.
pub open spec fn strap_bet_overview(o: OverviewModel, roll: Roll, strap: Strap, amount: u64, height: u32) -> OverviewModel {
    let i = roll_index(roll);
    OverviewModel {
        total_bets: o.total_bets.update(i, (o.total_bets[i].0, accumulated(o.total_bets[i].1, strap, amount))),
        current_block_height: height,
        ..o
    }
}

/// The overview after `amount` chips left (claim) or joined (fund) the pot at `height`.
pub open spec fn pot_overview(o: OverviewModel, pot_size: u64, height: u32) -> OverviewModel {
    OverviewModel { pot_size, current_block_height: height, ..o }
}

/// The overview of a new game, given the overview of the game that just ended.
pub open spec fn new_game_overview(
    prev: OverviewModel,
    e: NewGameEvent,
    roll_frequency: Option<u32>,
    first_roll_height: Option<u32>,
    height: u32,
) -> OverviewModel {
    OverviewModel {
        game_id: e.game_id,
        pot_size: prev.pot_size,
        roll_frequency,
        first_roll_height,
        next_roll_height: prev.next_roll_height,
        rewards: e.new_straps@,
        modifier_shop: e.new_modifiers@.map_values(
            |m: (Roll, Roll, Modifier)| (m.0, m.1, m.2, false),
        ),
        current_block_height: height,
        ..empty_overview()
    }
}

/// The snapshot stored under `key`, or an empty one.
pub open spec fn account_or_empty(
    accounts: Map<(Identity, u32), (AccountModel, u32)>,
    key: (Identity, u32),
) -> AccountModel {
    if accounts.dom().contains(key) {
        accounts[key].0
    } else {
        empty_account()
    }
}

/// The account's snapshot for the latest game, or an empty one.
pub open spec fn current_account(s: InMemorySnapshotStorage, player: Identity) -> AccountModel {
    if s.accounts_view().dom().contains((player, s.latest_game_view())) {
        s.accounts_view()[(player, s.latest_game_view())].0
    } else {
        empty_account()
    }
}

/// Storage `b` is `a`, except for the latest overview.
pub open spec fn same_but_overview(a: InMemorySnapshotStorage, b: InMemorySnapshotStorage) -> bool {
    &&& b.accounts_view() == a.accounts_view()
    &&& b.historical_view() == a.historical_view()
    &&& b.unclaimed_view() == a.unclaimed_view()
    &&& b.bet_history_view() == a.bet_history_view()
    &&& b.bettors_view() == a.bettors_view()
}

/// `b` records the bet of `account` in `game_id` at `height` on top of `a`: the game joins
/// the account's bet history, and a wallet address joins the game's bettors.
pub open spec fn bet_recorded(
    a: InMemorySnapshotStorage,
    b: InMemorySnapshotStorage,
    account: Identity,
    game_id: u32,
    height: u32,
) -> bool {
    &&& games_of(b.bet_history_view(), account) == games_of(a.bet_history_view(), account).insert(
        game_id,
        height,
    )
    &&& forall|x: Identity| x != account ==> #[trigger] games_of(b.bet_history_view(), x) == games_of(
        a.bet_history_view(),
        x,
    )
    &&& b.bettors_view() == match crate::storage::address_of(account) {
        Some(addr) => a.bettors_view().insert(
            game_id,
            if a.bettors_view().dom().contains(game_id) {
                a.bettors_view()[game_id].insert(addr)
            } else {
                set![addr]
            },
        ),
        None => a.bettors_view(),
    }
}

/// The strap map after the asset ids of the given straps were recorded, in order.
pub open spec fn remember_all(m: Map<[u8; 32], Strap>, contract_id: [u8; 32], straps: Seq<Strap>) -> Map<
    [u8; 32],
    Strap,
>
    decreases straps.len(),
{
    if straps.len() == 0 {
        m
    } else {
        remember_all(m, contract_id, straps.drop_last()).insert(
            strap_asset(contract_id, straps.last()),
            straps.last(),
        )
    }
}

/// The straps of a list of strap amounts.
pub open spec fn straps_of(s: Seq<(Strap, u64)>) -> Seq<Strap> {
    s.map_values(|e: (Strap, u64)| e.0)
}

/// Whether a list of modifiers holds `m`.
pub fn contains_modifier(v: &Vec<Modifier>, m: Modifier) -> (r: bool)
    ensures
        r == v@.contains(m),
{
    let mut i: usize = 0;
    while i < v.len()
        invariant
            0 <= i <= v@.len(),
            forall|j: int| 0 <= j < i ==> v@[j] != m,
        decreases v@.len() - i,
    {
        if v[i] == m {
            assert(v@[i as int] == m);
            return true;
        }
        i = i + 1;
    }
    false
}

/// Marks the shop entries for (modifier roll, modifier).
pub fn mark_shop(shop: &mut Vec<(Roll, Roll, Modifier, bool)>, modifier_roll: Roll, modifier: Modifier)
    ensures
        final(shop)@ == marked_shop(old(shop)@, modifier_roll, modifier),
{
    let ghost s = shop@;
    let mut i: usize = 0;
    while i < shop.len()
        invariant
            0 <= i <= shop@.len(),
            shop@.len() == s.len(),
            forall|j: int| 0 <= j < i ==> shop@[j] == marked_shop(s, modifier_roll, modifier)[j],
            forall|j: int| i <= j < s.len() ==> shop@[j] == s[j],
        decreases shop@.len() - i,
    {
        let entry = shop[i];
        if entry.1 == modifier_roll && entry.2 == modifier {
            shop.set(i, (entry.0, entry.1, entry.2, true));
        }
        i = i + 1;
    }
    assert(shop@ =~= marked_shop(s, modifier_roll, modifier));
}

/// Whether the game ends unclaimed for `x`: `x` is a wallet address among the game's bettors,
/// its snapshot for the game has no claim yet, and a roll hit one of its bets.
pub open spec fn owes_claim(
    accounts: Map<(Identity, u32), (AccountModel, u32)>,
    bettors: Set<[u8; 32]>,
    x: Identity,
    game_id: u32,
    rolls: Seq<Roll>,
) -> bool {
    match x {
        Identity::Address(a) => {
            &&& bettors.contains(a)
            &&& accounts.dom().contains((x, game_id))
            &&& accounts[(x, game_id)].0.claimed_rewards is None
            &&& crate::indexer::has_claimable(accounts[(x, game_id)].0, rolls)
        },
        Identity::ContractId(_) => false,
    }
}

/// The record of a finished game, as the indexer writes it when the next game starts.
pub open spec fn finished_game(prev: OverviewModel, modifiers: Seq<ActiveModifier>) -> crate::snapshot::HistoricalModel {
    crate::snapshot::HistoricalModel {
        game_id: prev.game_id,
        rolls: prev.rolls,
        modifiers,
        strap_rewards: prev.rewards,
        accounts: Seq::empty(),
    }
}

/// The straps of a list of rewards.
pub open spec fn reward_straps(s: Seq<(Roll, Strap, u64)>) -> Seq<Strap> {
    s.map_values(|e: (Roll, Strap, u64)| e.1)
}

/// Whether the indexer's loop goes on after a step.
#[derive(Clone, Copy, Debug, PartialEq, Eq, Structural)]
pub enum RunState {
    Exit,
    Continue,
}

/// The indexer's state.
pub struct App {
    pub snapshots: InMemorySnapshotStorage,
    pub metadata: InMemoryMetadataStorage,
    pub contract_id: [u8; 32],
    pub historical_modifiers: Vec<ActiveModifier>,
    pub roll_frequency: Option<u32>,
    pub first_roll_height: Option<u32>,
    pub modifier_triggered: Vec<Modifier>,
    pub modifier_purchased: Vec<Modifier>,
}

impl App {
    pub open spec fn wf(&self) -> bool {
        self.snapshots.wf() && self.metadata.wf()
    }

    /// An indexer over the given storage; the roll schedule is taken from the latest
    /// overview when there is one.
    pub fn new(
        snapshots: InMemorySnapshotStorage,
        metadata: InMemoryMetadataStorage,
        contract_id: [u8; 32],
    ) -> (app: Self)
        requires
            snapshots.wf(),
            metadata.wf(),
        ensures
            app.wf(),
            app.snapshots == snapshots,
            app.metadata == metadata,
            app.contract_id == contract_id,
            app.historical_modifiers@.len() == 0,
            app.modifier_triggered@.len() == 0,
            app.modifier_purchased@.len() == 0,
            match snapshots.latest_view() {
                Some((o, _)) => app.roll_frequency == o.roll_frequency && app.first_roll_height
                    == o.first_roll_height,
                None => app.roll_frequency is None && app.first_roll_height is None,
            },
    {
        let (roll_frequency, first_roll_height) = match snapshots.latest_snapshot() {
            Ok((snapshot, _)) => (snapshot.roll_frequency, snapshot.first_roll_height),
            Err(_) => (None, None),
        };
        App {
            snapshots,
            metadata,
            contract_id,
            historical_modifiers: Vec::new(),
            roll_frequency,
            first_roll_height,
            modifier_triggered: Vec::new(),
            modifier_purchased: Vec::new(),
        }
    }

    /// Records the asset id of a strap.
    fn remember_strap(&mut self, strap: &Strap)
        requires
            old(self).wf(),
        ensures
            final(self).wf(),
            final(self).metadata.straps_view() == old(self).metadata.straps_view().insert(
                strap_asset(old(self).contract_id, *strap),
                *strap,
            ),
            final(self).snapshots == old(self).snapshots,
            final(self).contract_id == old(self).contract_id,
            final(self).historical_modifiers == old(self).historical_modifiers,
            final(self).roll_frequency == old(self).roll_frequency,
            final(self).first_roll_height == old(self).first_roll_height,
            final(self).modifier_triggered == old(self).modifier_triggered,
            final(self).modifier_purchased == old(self).modifier_purchased,
    {
        let sub_id = strap.sub_id();
        let asset_id = contract_asset_id(&self.contract_id, &sub_id);
        let _ = self.metadata.record_new_asset_id(&asset_id, strap);
    }

    /// The contract was initialized: a fresh overview carries its roll schedule.
    pub fn handle_initialized_event(&mut self, event: InitializedEvent, height: u32) -> (r: Result<(), StorageError>)
        requires
            old(self).wf(),
            event.first_height + event.roll_frequency <= u32::MAX,
        ensures
            initialized_handled(*old(self), *final(self), event, height, r),
    {
        self.roll_frequency = Some(event.roll_frequency);
        self.first_roll_height = Some(event.first_height);
        let mut snapshot = OverviewSnapshot::new();
        let frequency = event.roll_frequency;
        snapshot.next_roll_height = Some(event.first_height + frequency);
        snapshot.roll_frequency = Some(frequency);
        snapshot.first_roll_height = Some(event.first_height);
        snapshot.current_block_height = height;
        self.snapshots.update_snapshot(&snapshot, height)?;
        assert(snapshot@ =~= initialized_overview(event, height));
        Ok(())
    }

    /// The dice were rolled: the roll joins the current game's rolls.
    pub fn handle_roll_event(&mut self, event: RollEvent, height: u32) -> (r: Result<(), StorageError>)
        requires
            old(self).wf(),
        ensures
            roll_handled(*old(self), *final(self), event, height, r),
    {
        let (mut snapshot, _) = self.snapshots.latest_snapshot()?;
        let ghost o = snapshot@;
        snapshot.rolls.push(event.rolled_value);
        snapshot.current_block_height = height;
        self.snapshots.update_snapshot(&snapshot, height)?;
        assert(snapshot@ =~= rolled_overview(o, event.rolled_value, height));
        Ok(())
    }
}

impl App {
    /// A modifier was triggered: it becomes active on its roll, its shop entries are marked,
    /// and it joins the current game's modifiers.
    pub fn handle_modifier_triggered_event(&mut self, event: ModifierTriggeredEvent, height: u32) -> (r: Result<(), StorageError>)
        requires
            old(self).wf(),
        ensures
            modifier_triggered_handled(*old(self), *final(self), event, height, r),
    {
        if !contains_modifier(&self.modifier_triggered, event.modifier) {
            self.modifier_triggered.push(event.modifier);
        }
        let (mut snapshot, _) = self.snapshots.latest_snapshot()?;
        let ghost o = snapshot@;
        let idx = roll_to_index(&event.modifier_roll);
        snapshot.modifiers_active[idx] = Some(event.modifier);
        mark_shop(&mut snapshot.modifier_shop, event.modifier_roll, event.modifier);
        let active_modifier = ActiveModifier {
            roll_index: event.roll_index,
            modifier: event.modifier,
            modifier_roll: event.modifier_roll,
        };
        self.historical_modifiers.push(active_modifier);
        snapshot.current_block_height = height;
        self.snapshots.update_snapshot(&snapshot, height)?;
        assert(snapshot@ =~= modifier_overview(o, event.modifier_roll, event.modifier, height)) by {
            broadcast use vstd::array::group_array_axioms;

            assert(snapshot@.modifiers_active =~= o.modifiers_active.update(
                roll_index(event.modifier_roll),
                Some(event.modifier),
            ));
        }
        Ok(())
    }

    /// A modifier was purchased: it becomes active on its roll and its shop entries are marked.
    pub fn handle_purchase_modifier_event(&mut self, event: PurchaseModifierEvent, height: u32) -> (r: Result<(), StorageError>)
        requires
            old(self).wf(),
        ensures
            purchase_handled(*old(self), *final(self), event, height, r),
    {
        if !contains_modifier(&self.modifier_purchased, event.expected_modifier) {
            self.modifier_purchased.push(event.expected_modifier);
        }
        let (mut snapshot, _) = self.snapshots.latest_snapshot()?;
        let ghost o = snapshot@;
        let modifier = event.expected_modifier;
        let idx = roll_to_index(&event.expected_roll);
        snapshot.modifiers_active[idx] = Some(modifier);
        mark_shop(&mut snapshot.modifier_shop, event.expected_roll, event.expected_modifier);
        snapshot.current_block_height = height;
        self.snapshots.update_snapshot(&snapshot, height)?;
        assert(snapshot@ =~= modifier_overview(o, event.expected_roll, event.expected_modifier, height)) by {
            broadcast use vstd::array::group_array_axioms;

            assert(snapshot@.modifiers_active =~= o.modifiers_active.update(
                roll_index(event.expected_roll),
                Some(event.expected_modifier),
            ));
        }
        Ok(())
    }

    /// Chips were added to the pot.
    pub fn handle_fund_pot_event(&mut self, event: FundPotEvent, height: u32) -> (r: Result<(), StorageError>)
        requires
            old(self).wf(),
        ensures
            fund_pot_handled(*old(self), *final(self), event, height, r),
    {
        let (mut snapshot, _) = self.snapshots.latest_snapshot()?;
        let ghost o = snapshot@;
        snapshot.pot_size = snapshot.pot_size.saturating_add(event.chips_amount);
        snapshot.current_block_height = height;
        self.snapshots.update_snapshot(&snapshot, height)?;
        assert(snapshot@ =~= pot_overview(o, sat_add(o.pot_size, event.chips_amount), height));
        Ok(())
    }

    /// Chips were bet on a roll: the pot and the roll's total grow, and the bet joins the
    /// player's snapshot for the event's game and the player's bet history.
    pub fn handle_place_chip_bet_event(&mut self, event: PlaceChipBetEvent, height: u32) -> (r: Result<(), StorageError>)
        requires
            old(self).wf(),
        ensures
            chip_bet_handled(*old(self), *final(self), event, height, r),
    {
        let (mut snapshot, _) = self.snapshots.latest_snapshot()?;
        let ghost o = snapshot@;
        let ghost old_store = self.snapshots;
        snapshot.pot_size = snapshot.pot_size.saturating_add(event.amount);
        let idx = roll_to_index(&event.roll);
        snapshot.current_block_height = height;
        snapshot.total_bets[idx].0 = snapshot.total_bets[idx].0.saturating_add(event.amount);
        let mut account = match self.snapshots.latest_account_snapshot(&event.player)? {
            Some((snap, _)) => snap,
            None => AccountSnapshot::default(),
        };
        let ghost base = account@;
        assert(base == current_account(old_store, event.player));
        account.total_chip_bet = account.total_chip_bet.saturating_add(event.amount);
        let ghost base2 = account@;
        assert(base2 == AccountModel { total_chip_bet: sat_add(base.total_chip_bet, event.amount), ..base });
        let placement = AccountBetPlacement {
            bet_roll_index: event.bet_roll_index,
            amount: event.amount,
            kind: AccountBetKind::Chip,
        };
        append_bet_to_account(&mut account, event.roll, placement);
        self.snapshots.update_snapshot(&snapshot, height)?;
        self.snapshots.update_account_snapshot(&event.player, event.game_id, &account, height)?;
        self.snapshots.record_bet_history(&event.player, event.game_id, height)?;
        assert(snapshot@ =~= chip_bet_overview(o, event.roll, event.amount, height)) by {
            broadcast use vstd::array::group_array_axioms;

            assert(snapshot@.total_bets =~= chip_bet_overview(o, event.roll, event.amount, height).total_bets);
        }
        Ok(())
    }
}

impl App {
    /// A strap was bet on a roll: the roll's strap totals grow, the bet joins the player's
    /// snapshot for the event's game and the player's bet history, and the strap's asset id
    /// is recorded.
    pub fn handle_place_strap_bet_event(&mut self, event: PlaceStrapBetEvent, height: u32) -> (r: Result<(), StorageError>)
        requires
            old(self).wf(),
        ensures
            strap_bet_handled(*old(self), *final(self), event, height, r),
    {
        let (mut snapshot, _) = self.snapshots.latest_snapshot()?;
        let ghost o = snapshot@;
        let ghost old_store = self.snapshots;
        let idx = roll_to_index(&event.roll);
        accumulate_strap(&mut snapshot.total_bets[idx].1, &event.strap, event.amount);
        snapshot.current_block_height = height;
        let mut account = match self.snapshots.latest_account_snapshot(&event.player)? {
            Some((snap, _)) => snap,
            None => AccountSnapshot::default(),
        };
        let ghost base = account@;
        assert(base == current_account(old_store, event.player));
        accumulate_strap(&mut account.strap_bets, &event.strap, event.amount);
        let ghost base2 = account@;
        assert(base2 == AccountModel {
            strap_bets: accumulated(base.strap_bets, event.strap, event.amount),
            ..base
        });
        let placement = AccountBetPlacement {
            bet_roll_index: event.bet_roll_index,
            amount: event.amount,
            kind: AccountBetKind::Strap(event.strap),
        };
        append_bet_to_account(&mut account, event.roll, placement);
        self.remember_strap(&event.strap);
        self.snapshots.update_snapshot(&snapshot, height)?;
        self.snapshots.update_account_snapshot(&event.player, event.game_id, &account, height)?;
        self.snapshots.record_bet_history(&event.player, event.game_id, height)?;
        assert(snapshot@ =~= strap_bet_overview(o, event.roll, event.strap, event.amount, height)) by {
            broadcast use vstd::array::group_array_axioms;

            assert(snapshot@.total_bets =~= strap_bet_overview(
                o,
                event.roll,
                event.strap,
                event.amount,
                height,
            ).total_bets);
        }
        Ok(())
    }

    /// Records the asset ids of the straps of a list of strap amounts, in order.
    fn remember_straps(&mut self, straps: &Vec<(Strap, u64)>)
        requires
            old(self).wf(),
        ensures
            final(self).wf(),
            final(self).metadata.straps_view() == remember_all(
                old(self).metadata.straps_view(),
                old(self).contract_id,
                straps_of(straps@),
            ),
            final(self).snapshots == old(self).snapshots,
            final(self).contract_id == old(self).contract_id,
            final(self).historical_modifiers == old(self).historical_modifiers,
            final(self).roll_frequency == old(self).roll_frequency,
            final(self).first_roll_height == old(self).first_roll_height,
            final(self).modifier_triggered == old(self).modifier_triggered,
            final(self).modifier_purchased == old(self).modifier_purchased,
    {
        let mut i: usize = 0;
        while i < straps.len()
            invariant
                0 <= i <= straps@.len(),
                self.wf(),
                self.metadata.straps_view() == remember_all(
                    old(self).metadata.straps_view(),
                    old(self).contract_id,
                    straps_of(straps@.take(i as int)),
                ),
                self.snapshots == old(self).snapshots,
                self.contract_id == old(self).contract_id,
                self.historical_modifiers == old(self).historical_modifiers,
                self.roll_frequency == old(self).roll_frequency,
                self.first_roll_height == old(self).first_roll_height,
                self.modifier_triggered == old(self).modifier_triggered,
                self.modifier_purchased == old(self).modifier_purchased,
            decreases straps@.len() - i,
        {
            let strap = straps[i].0;
            self.remember_strap(&strap);
            assert(straps_of(straps@.take(i + 1)).drop_last() =~= straps_of(straps@.take(i as int)));
            assert(straps_of(straps@.take(i + 1)).last() == strap);
            i = i + 1;
        }
        assert(straps@.take(straps@.len() as int) =~= straps@);
    }

    /// Rewards were claimed: the pot shrinks, the claim is recorded in the player's snapshot
    /// for the event's game, the game is no longer unclaimed, and the won straps' asset ids are
    /// recorded.
    pub fn handle_claim_rewards_event(&mut self, event: ClaimRewardsEvent, height: u32) -> (r: Result<(), StorageError>)
        requires
            old(self).wf(),
        ensures
            claim_handled(*old(self), *final(self), event, height, r),
    {
        let (mut snapshot, _) = self.snapshots.latest_snapshot()?;
        let ghost o = snapshot@;
        snapshot.pot_size = snapshot.pot_size.saturating_sub(event.total_chips_winnings);
        snapshot.current_block_height = height;
        self.snapshots.update_snapshot(&snapshot, height)?;
        assert(snapshot@ =~= pot_overview(o, sat_sub(o.pot_size, event.total_chips_winnings), height));
        let mut account = match self.snapshots.latest_account_snapshot(&event.player)? {
            Some((snap, _)) => snap,
            None => AccountSnapshot::default(),
        };
        ensure_account_roll_template(&mut account);
        let ghost t = account@;
        account.total_chip_won = account.total_chip_won.saturating_add(event.total_chips_winnings);
        self.remember_straps(&event.total_strap_winnings);
        let winnings = crate::snapshot::clone_strap_amounts(&event.total_strap_winnings);
        account.claimed_rewards = Some((event.total_chips_winnings, winnings));
        assert(account@ == AccountModel {
            total_chip_won: sat_add(t.total_chip_won, event.total_chips_winnings),
            claimed_rewards: Some((event.total_chips_winnings, event.total_strap_winnings@)),
            ..t
        });
        self.snapshots.update_account_snapshot(&event.player, event.game_id, &account, height)?;
        self.snapshots.clear_unclaimed(&event.player, event.game_id)?;
        Ok(())
    }

    /// Raises the overview's block height to `height` when it is newer than the latest
    /// overview's height; otherwise nothing changes.
    pub fn bump_height_if_newer(&mut self, height: u32) -> (r: Result<(), StorageError>)
        requires
            old(self).wf(),
        ensures
            r is Ok,
            height_bumped(*old(self), *final(self), height),
    {
        let (mut snapshot, current_height) = match self.snapshots.latest_snapshot() {
            Ok(found) => found,
            Err(_) => return Ok(()),
        };
        if height <= current_height {
            return Ok(());
        }
        let ghost o = snapshot@;
        snapshot.current_block_height = height;
        self.snapshots.update_snapshot(&snapshot, height)?;
        assert(snapshot@ =~= OverviewModel { current_block_height: height, ..o });
        Ok(())
    }
}

impl App {
    /// Records the asset ids of the straps of a list of rewards, in order.
    fn remember_reward_straps(&mut self, rewards: &Vec<(Roll, Strap, u64)>)
        requires
            old(self).wf(),
        ensures
            final(self).wf(),
            final(self).metadata.straps_view() == remember_all(
                old(self).metadata.straps_view(),
                old(self).contract_id,
                reward_straps(rewards@),
            ),
            final(self).snapshots == old(self).snapshots,
            final(self).contract_id == old(self).contract_id,
            final(self).historical_modifiers == old(self).historical_modifiers,
            final(self).roll_frequency == old(self).roll_frequency,
            final(self).first_roll_height == old(self).first_roll_height,
            final(self).modifier_triggered == old(self).modifier_triggered,
            final(self).modifier_purchased == old(self).modifier_purchased,
    {
        let mut i: usize = 0;
        while i < rewards.len()
            invariant
                0 <= i <= rewards@.len(),
                self.wf(),
                self.metadata.straps_view() == remember_all(
                    old(self).metadata.straps_view(),
                    old(self).contract_id,
                    reward_straps(rewards@.take(i as int)),
                ),
                self.snapshots == old(self).snapshots,
                self.contract_id == old(self).contract_id,
                self.historical_modifiers == old(self).historical_modifiers,
                self.roll_frequency == old(self).roll_frequency,
                self.first_roll_height == old(self).first_roll_height,
                self.modifier_triggered == old(self).modifier_triggered,
                self.modifier_purchased == old(self).modifier_purchased,
            decreases rewards@.len() - i,
        {
            let strap = rewards[i].1;
            self.remember_strap(&strap);
            assert(reward_straps(rewards@.take(i + 1)).drop_last() =~= reward_straps(rewards@.take(i as int)));
            assert(reward_straps(rewards@.take(i + 1)).last() == strap);
            i = i + 1;
        }
        assert(rewards@.take(rewards@.len() as int) =~= rewards@);
    }

    /// Marks the finished game as unclaimed for each of its bettors that is owed a claim.
    fn mark_unclaimed_bettors(&mut self, game_id: u32, rolls: &Vec<Roll>, height: u32)
        requires
            old(self).wf(),
        ensures
            final(self).wf(),
            final(self).metadata == old(self).metadata,
            final(self).contract_id == old(self).contract_id,
            final(self).historical_modifiers == old(self).historical_modifiers,
            final(self).roll_frequency == old(self).roll_frequency,
            final(self).first_roll_height == old(self).first_roll_height,
            final(self).modifier_triggered == old(self).modifier_triggered,
            final(self).modifier_purchased == old(self).modifier_purchased,
            final(self).snapshots.latest_view() == old(self).snapshots.latest_view(),
            final(self).snapshots.latest_game_view() == old(self).snapshots.latest_game_view(),
            final(self).snapshots.accounts_view() == old(self).snapshots.accounts_view(),
            final(self).snapshots.historical_view() == old(self).snapshots.historical_view(),
            final(self).snapshots.bet_history_view() == old(self).snapshots.bet_history_view(),
            final(self).snapshots.bettors_view() == old(self).snapshots.bettors_view(),
            forall|x: Identity| #[trigger] games_of(final(self).snapshots.unclaimed_view(), x) == if owes_claim(
                old(self).snapshots.accounts_view(),
                if old(self).snapshots.bettors_view().dom().contains(game_id) {
                    old(self).snapshots.bettors_view()[game_id]
                } else {
                    Set::empty()
                },
                x,
                game_id,
                rolls@,
            ) {
                games_of(old(self).snapshots.unclaimed_view(), x).insert(game_id, height)
            } else {
                games_of(old(self).snapshots.unclaimed_view(), x)
            },
    {
        let bettors = match self.snapshots.bettors_for_game(game_id) {
            Ok(b) => b,
            Err(_) => Vec::new(),
        };
        let ghost addrs = if old(self).snapshots.bettors_view().dom().contains(game_id) {
            old(self).snapshots.bettors_view()[game_id]
        } else {
            Set::<[u8; 32]>::empty()
        };
        let ghost accounts = old(self).snapshots.accounts_view();
        let ghost old_unclaimed = old(self).snapshots.unclaimed_view();
        let mut i: usize = 0;
        while i < bettors.len()
            invariant
                0 <= i <= bettors@.len(),
                bettors@.no_duplicates(),
                bettors@.to_set() == addrs,
                self.wf(),
                self.metadata == old(self).metadata,
                self.contract_id == old(self).contract_id,
                self.historical_modifiers == old(self).historical_modifiers,
                self.roll_frequency == old(self).roll_frequency,
                self.first_roll_height == old(self).first_roll_height,
                self.modifier_triggered == old(self).modifier_triggered,
                self.modifier_purchased == old(self).modifier_purchased,
                self.snapshots.latest_view() == old(self).snapshots.latest_view(),
                self.snapshots.latest_game_view() == old(self).snapshots.latest_game_view(),
                self.snapshots.accounts_view() == accounts,
                self.snapshots.historical_view() == old(self).snapshots.historical_view(),
                self.snapshots.bet_history_view() == old(self).snapshots.bet_history_view(),
                self.snapshots.bettors_view() == old(self).snapshots.bettors_view(),
                forall|x: Identity| #[trigger] games_of(self.snapshots.unclaimed_view(), x) == if owes_claim(
                    accounts,
                    bettors@.take(i as int).to_set(),
                    x,
                    game_id,
                    rolls@,
                ) {
                    games_of(old_unclaimed, x).insert(game_id, height)
                } else {
                    games_of(old_unclaimed, x)
                },
            decreases bettors@.len() - i,
        {
            let address = bettors[i];
            let identity = Identity::Address(address);
            let ghost before = self.snapshots.unclaimed_view();
            let ghost prefix = bettors@.take(i as int).to_set();
            let ghost next = bettors@.take(i + 1).to_set();
            assert(bettors@.take(i + 1) =~= bettors@.take(i as int).push(address));
            assert(next =~= prefix.insert(address)) by {
                bettors@.take(i as int).lemma_push_to_set_commute(address);
            }
            assert(!prefix.contains(address)) by {
                if prefix.contains(address) {
                    assert(bettors@.take(i as int).contains(address));
                    let k = choose|k: int| 0 <= k < i && #[trigger] bettors@.take(i as int)[k] == address;
                    assert(bettors@[k] == bettors@[i as int]);
                }
            }
            let found = match self.snapshots.account_snapshot_at(&identity, game_id) {
                Ok(found) => found,
                Err(_) => None,
            };
            let should_mark = match found {
                None => false,
                Some((account_snapshot, _)) => {
                    if account_snapshot.claimed_rewards.is_some() {
                        false
                    } else {
                        crate::indexer::account_has_claimable_bets(&account_snapshot, rolls.as_slice())
                    }
                },
            };
            assert(should_mark == owes_claim(accounts, next, identity, game_id, rolls@));
            if should_mark {
                let _ = self.snapshots.mark_unclaimed(&identity, game_id, height);
            }
            assert forall|x: Identity| #[trigger] games_of(self.snapshots.unclaimed_view(), x) == if owes_claim(
                accounts,
                next,
                x,
                game_id,
                rolls@,
            ) {
                games_of(old_unclaimed, x).insert(game_id, height)
            } else {
                games_of(old_unclaimed, x)
            } by {
                if x != identity {
                    match x {
                        Identity::Address(a) => {
                            assert(a != address);
                            assert(next.contains(a) == prefix.contains(a));
                        },
                        Identity::ContractId(_) => {},
                    }
                    assert(owes_claim(accounts, next, x, game_id, rolls@) == owes_claim(
                        accounts,
                        prefix,
                        x,
                        game_id,
                        rolls@,
                    ));
                } else {
                    assert(!owes_claim(accounts, prefix, x, game_id, rolls@));
                }
            }
            i = i + 1;
        }
        assert(bettors@.take(bettors@.len() as int) =~= bettors@);
    }

    /// A new game started: the finished game's record is written, its bettors that are owed
    /// a claim get it marked unclaimed, and a fresh overview carries the new game's rewards
    /// and modifier shop, the pot, and the roll schedule.
    pub fn handle_new_game_event(&mut self, event: NewGameEvent, height: u32) -> (r: Result<(), StorageError>)
        requires
            old(self).wf(),
        ensures
            new_game_handled(*old(self), *final(self), event, height, r),
    {
        let (previous_snapshot, _) = self.snapshots.latest_snapshot()?;
        let ghost prev = previous_snapshot@;
        let modifiers = crate::snapshot::copy_vec(&self.historical_modifiers);
        let rolls = crate::snapshot::copy_vec(&previous_snapshot.rolls);
        let mut historical = crate::snapshot::HistoricalSnapshot::new(previous_snapshot.game_id, rolls, modifiers);
        historical.strap_rewards = crate::snapshot::copy_vec(&previous_snapshot.rewards);
        assert(historical@.accounts =~= Seq::<(Identity, AccountModel)>::empty());
        assert(historical@ =~= finished_game(prev, old(self).historical_modifiers@));
        self.historical_modifiers.clear();
        let _ = self.snapshots.write_historical_snapshot(previous_snapshot.game_id, &historical);
        self.mark_unclaimed_bettors(previous_snapshot.game_id, &historical.rolls, height);
        self.modifier_triggered.clear();
        self.modifier_purchased.clear();
        let mut modifier_shop: Vec<(Roll, Roll, Modifier, bool)> = Vec::new();
        let mut i: usize = 0;
        while i < event.new_modifiers.len()
            invariant
                0 <= i <= event.new_modifiers@.len(),
                modifier_shop@ == event.new_modifiers@.take(i as int).map_values(
                    |m: (Roll, Roll, Modifier)| (m.0, m.1, m.2, false),
                ),
            decreases event.new_modifiers@.len() - i,
        {
            let (trigger_roll, modifier_roll, modifier) = event.new_modifiers[i];
            modifier_shop.push((trigger_roll, modifier_roll, modifier, false));
            assert(event.new_modifiers@.take(i + 1).map_values(
                |m: (Roll, Roll, Modifier)| (m.0, m.1, m.2, false),
            ) =~= event.new_modifiers@.take(i as int).map_values(
                |m: (Roll, Roll, Modifier)| (m.0, m.1, m.2, false),
            ).push((trigger_roll, modifier_roll, modifier, false)));
            i = i + 1;
        }
        assert(event.new_modifiers@.take(event.new_modifiers@.len() as int) =~= event.new_modifiers@);
        let mut snapshot = OverviewSnapshot::new();
        snapshot.pot_size = previous_snapshot.pot_size;
        snapshot.game_id = event.game_id;
        snapshot.roll_frequency = self.roll_frequency;
        snapshot.first_roll_height = self.first_roll_height;
        snapshot.next_roll_height = previous_snapshot.next_roll_height;
        snapshot.rewards = crate::snapshot::copy_vec(&event.new_straps);
        snapshot.modifier_shop = modifier_shop;
        snapshot.current_block_height = height;
        self.snapshots.update_snapshot(&snapshot, height)?;
        assert(snapshot@ =~= new_game_overview(
            prev,
            event,
            old(self).roll_frequency,
            old(self).first_roll_height,
            height,
        ));
        self.remember_reward_straps(&event.new_straps);
        Ok(())
    }
}

/// What `handle_initialized_event` does to the indexer: `a` before, `b` after, `r` its result.
pub open spec fn initialized_handled(a: App, b: App, e: InitializedEvent, height: u32, r: Result<(), StorageError>) -> bool {
    &&& b.historical_modifiers == a.historical_modifiers
    &&& r is Ok
    &&& b.contract_id == a.contract_id
    &&& b.wf()
    &&& b.roll_frequency == Some(e.roll_frequency)
    &&& b.first_roll_height == Some(e.first_height)
    &&& b.snapshots.latest_view() == Some((initialized_overview(e, height), height))
    &&& b.snapshots.latest_game_view() == 0
    &&& same_but_overview(a.snapshots, b.snapshots)
    &&& b.metadata == a.metadata
}

/// What `handle_roll_event` does to the indexer: `a` before, `b` after, `r` its result.
pub open spec fn roll_handled(a: App, b: App, e: RollEvent, height: u32, r: Result<(), StorageError>) -> bool {
    &&& b.historical_modifiers == a.historical_modifiers
    &&& b.wf()
    &&& b.contract_id == a.contract_id
    &&& b.metadata == a.metadata
    &&& same_but_overview(a.snapshots, b.snapshots)
    &&& match a.snapshots.latest_view() {
            None => r == Err::<(), StorageError>(StorageError::NoSnapshot)
                && b.snapshots == a.snapshots,
            Some((o, _)) => r is Ok && b.snapshots.latest_view() == Some(
                (rolled_overview(o, e.rolled_value, height), height),
            ) && b.snapshots.latest_game_view() == o.game_id
    }
}

/// What `handle_modifier_triggered_event` does to the indexer: `a` before, `b` after, `r` its result.
pub open spec fn modifier_triggered_handled(a: App, b: App, e: ModifierTriggeredEvent, height: u32, r: Result<(), StorageError>) -> bool {
    &&& b.wf()
    &&& b.metadata == a.metadata
    &&& same_but_overview(a.snapshots, b.snapshots)
    &&& b.modifier_triggered@ == if a.modifier_triggered@.contains(e.modifier) {
            a.modifier_triggered@
        } else {
            a.modifier_triggered@.push(e.modifier)
        }
    &&& b.modifier_purchased == a.modifier_purchased
    &&& b.roll_frequency == a.roll_frequency
    &&& b.first_roll_height == a.first_roll_height
    &&& b.contract_id == a.contract_id
    &&& match a.snapshots.latest_view() {
            None => r == Err::<(), StorageError>(StorageError::NoSnapshot)
                && b.snapshots == a.snapshots
                && b.historical_modifiers == a.historical_modifiers,
            Some((o, _)) => r is Ok && b.snapshots.latest_view() == Some(
                (modifier_overview(o, e.modifier_roll, e.modifier, height), height),
            ) && b.snapshots.latest_game_view() == o.game_id
                && b.historical_modifiers@ == a.historical_modifiers@.push(
                ActiveModifier {
                    roll_index: e.roll_index,
                    modifier: e.modifier,
                    modifier_roll: e.modifier_roll,
                },
            )
    }
}

/// What `handle_purchase_modifier_event` does to the indexer: `a` before, `b` after, `r` its result.
pub open spec fn purchase_handled(a: App, b: App, e: PurchaseModifierEvent, height: u32, r: Result<(), StorageError>) -> bool {
    &&& b.wf()
    &&& b.metadata == a.metadata
    &&& same_but_overview(a.snapshots, b.snapshots)
    &&& b.modifier_purchased@ == if a.modifier_purchased@.contains(e.expected_modifier) {
            a.modifier_purchased@
        } else {
            a.modifier_purchased@.push(e.expected_modifier)
        }
    &&& b.modifier_triggered == a.modifier_triggered
    &&& b.historical_modifiers == a.historical_modifiers
    &&& b.roll_frequency == a.roll_frequency
    &&& b.first_roll_height == a.first_roll_height
    &&& b.contract_id == a.contract_id
    &&& match a.snapshots.latest_view() {
            None => r == Err::<(), StorageError>(StorageError::NoSnapshot)
                && b.snapshots == a.snapshots,
            Some((o, _)) => r is Ok && b.snapshots.latest_view() == Some(
                (modifier_overview(o, e.expected_roll, e.expected_modifier, height), height),
            ) && b.snapshots.latest_game_view() == o.game_id
    }
}

/// What `handle_fund_pot_event` does to the indexer: `a` before, `b` after, `r` its result.
pub open spec fn fund_pot_handled(a: App, b: App, e: FundPotEvent, height: u32, r: Result<(), StorageError>) -> bool {
    &&& b.historical_modifiers == a.historical_modifiers
    &&& b.wf()
    &&& b.contract_id == a.contract_id
    &&& b.metadata == a.metadata
    &&& same_but_overview(a.snapshots, b.snapshots)
    &&& match a.snapshots.latest_view() {
            None => r == Err::<(), StorageError>(StorageError::NoSnapshot)
                && b.snapshots == a.snapshots,
            Some((o, _)) => r is Ok && b.snapshots.latest_view() == Some(
                (pot_overview(o, sat_add(o.pot_size, e.chips_amount), height), height),
            ) && b.snapshots.latest_game_view() == o.game_id
    }
}

/// What `handle_place_chip_bet_event` does to the indexer: `a` before, `b` after, `r` its result.
pub open spec fn chip_bet_handled(a: App, b: App, e: PlaceChipBetEvent, height: u32, r: Result<(), StorageError>) -> bool {
    &&& b.historical_modifiers == a.historical_modifiers
    &&& b.wf()
    &&& b.contract_id == a.contract_id
    &&& b.metadata == a.metadata
    &&& match a.snapshots.latest_view() {
            None => r == Err::<(), StorageError>(StorageError::NoSnapshot)
                && b.snapshots == a.snapshots,
            Some((o, _)) => {
                let base = current_account(a.snapshots, e.player);
                let placement = AccountBetPlacement {
                    bet_roll_index: e.bet_roll_index,
                    amount: e.amount,
                    kind: AccountBetKind::Chip,
                };
                &&& r is Ok
                &&& b.snapshots.latest_view() == Some(
                    (chip_bet_overview(o, e.roll, e.amount, height), height),
                )
                &&& b.snapshots.latest_game_view() == o.game_id
                &&& exists|acct: AccountModel|
                    appended(
                        AccountModel { total_chip_bet: sat_add(base.total_chip_bet, e.amount), ..base },
                        e.roll,
                        placement,
                        acct,
                    ) && b.snapshots.accounts_view() == a.snapshots.accounts_view().insert((e.player, e.game_id), (acct, height))
                &&& bet_recorded(a.snapshots, b.snapshots, e.player, e.game_id, height)
                &&& b.snapshots.historical_view() == a.snapshots.historical_view()
                &&& b.snapshots.unclaimed_view() == a.snapshots.unclaimed_view()
            }
    }
}

/// What `handle_place_strap_bet_event` does to the indexer: `a` before, `b` after, `r` its result.
pub open spec fn strap_bet_handled(a: App, b: App, e: PlaceStrapBetEvent, height: u32, r: Result<(), StorageError>) -> bool {
    &&& b.historical_modifiers == a.historical_modifiers
    &&& b.wf()
    &&& b.contract_id == a.contract_id
    &&& match a.snapshots.latest_view() {
            None => r == Err::<(), StorageError>(StorageError::NoSnapshot)
                && b.snapshots == a.snapshots
                && b.metadata == a.metadata,
            Some((o, _)) => {
                let base = current_account(a.snapshots, e.player);
                let placement = AccountBetPlacement {
                    bet_roll_index: e.bet_roll_index,
                    amount: e.amount,
                    kind: AccountBetKind::Strap(e.strap),
                };
                &&& r is Ok
                &&& b.snapshots.latest_view() == Some(
                    (strap_bet_overview(o, e.roll, e.strap, e.amount, height), height),
                )
                &&& b.snapshots.latest_game_view() == o.game_id
                &&& exists|acct: AccountModel|
                    appended(
                        AccountModel {
                            strap_bets: accumulated(base.strap_bets, e.strap, e.amount),
                            ..base
                        },
                        e.roll,
                        placement,
                        acct,
                    ) && b.snapshots.accounts_view() == a.snapshots.accounts_view().insert((e.player, e.game_id), (acct, height))
                &&& bet_recorded(a.snapshots, b.snapshots, e.player, e.game_id, height)
                &&& b.snapshots.historical_view() == a.snapshots.historical_view()
                &&& b.snapshots.unclaimed_view() == a.snapshots.unclaimed_view()
                &&& b.metadata.straps_view() == a.metadata.straps_view().insert(
                    strap_asset(a.contract_id, e.strap),
                    e.strap,
                )
            }
    }
}

/// What `handle_claim_rewards_event` does to the indexer: `a` before, `b` after, `r` its result.
pub open spec fn claim_handled(a: App, b: App, e: ClaimRewardsEvent, height: u32, r: Result<(), StorageError>) -> bool {
    &&& b.historical_modifiers == a.historical_modifiers
    &&& b.wf()
    &&& b.contract_id == a.contract_id
    &&& match a.snapshots.latest_view() {
            None => r == Err::<(), StorageError>(StorageError::NoSnapshot)
                && b.snapshots == a.snapshots
                && b.metadata == a.metadata,
            Some((o, _)) => {
                let base = account_or_empty(a.snapshots.accounts_view(), (e.player, o.game_id));
                &&& r is Ok
                &&& b.snapshots.latest_view() == Some(
                    (pot_overview(o, sat_sub(o.pot_size, e.total_chips_winnings), height), height),
                )
                &&& b.snapshots.latest_game_view() == o.game_id
                &&& b.snapshots.accounts_view() == a.snapshots.accounts_view().insert(
                    (e.player, e.game_id),
                    (
                        AccountModel {
                            total_chip_won: sat_add(template_of(base).total_chip_won, e.total_chips_winnings),
                            claimed_rewards: Some((e.total_chips_winnings, e.total_strap_winnings@)),
                            ..template_of(base)
                        },
                        height,
                    ),
                )
                &&& games_of(b.snapshots.unclaimed_view(), e.player) == games_of(
                    a.snapshots.unclaimed_view(),
                    e.player,
                ).remove(e.game_id)
                &&& forall|x: Identity| x != e.player ==> #[trigger] games_of(b.snapshots.unclaimed_view(), x)
                    == games_of(a.snapshots.unclaimed_view(), x)
                &&& b.snapshots.historical_view() == a.snapshots.historical_view()
                &&& b.snapshots.bet_history_view() == a.snapshots.bet_history_view()
                &&& b.snapshots.bettors_view() == a.snapshots.bettors_view()
                &&& b.metadata.straps_view() == remember_all(
                    a.metadata.straps_view(),
                    a.contract_id,
                    straps_of(e.total_strap_winnings@),
                )
            }
    }
}

/// What `handle_new_game_event` does to the indexer: `a` before, `b` after, `r` its result.
pub open spec fn new_game_handled(a: App, b: App, e: NewGameEvent, height: u32, r: Result<(), StorageError>) -> bool {
    &&& b.wf()
    &&& b.contract_id == a.contract_id
    &&& match a.snapshots.latest_view() {
            None => r == Err::<(), StorageError>(StorageError::NoSnapshot)
                && b.snapshots == a.snapshots
                && b.metadata == a.metadata
                && b.historical_modifiers == a.historical_modifiers,
            Some((prev, _)) => {
                &&& r is Ok
                &&& b.snapshots.historical_view() == a.snapshots.historical_view().insert(
                    prev.game_id,
                    finished_game(prev, a.historical_modifiers@),
                )
                &&& forall|x: Identity| #[trigger] games_of(b.snapshots.unclaimed_view(), x) == if owes_claim(
                    a.snapshots.accounts_view(),
                    if a.snapshots.bettors_view().dom().contains(prev.game_id) {
                        a.snapshots.bettors_view()[prev.game_id]
                    } else {
                        Set::empty()
                    },
                    x,
                    prev.game_id,
                    prev.rolls,
                ) {
                    games_of(a.snapshots.unclaimed_view(), x).insert(prev.game_id, height)
                } else {
                    games_of(a.snapshots.unclaimed_view(), x)
                }
                &&& b.snapshots.latest_view() == Some(
                    (
                        new_game_overview(
                            prev,
                            e,
                            a.roll_frequency,
                            a.first_roll_height,
                            height,
                        ),
                        height,
                    ),
                )
                &&& b.snapshots.latest_game_view() == e.game_id
                &&& b.snapshots.accounts_view() == a.snapshots.accounts_view()
                &&& b.snapshots.bet_history_view() == a.snapshots.bet_history_view()
                &&& b.snapshots.bettors_view() == a.snapshots.bettors_view()
                &&& b.historical_modifiers@.len() == 0
                &&& b.modifier_triggered@.len() == 0
                &&& b.modifier_purchased@.len() == 0
                &&& b.metadata.straps_view() == remember_all(
                    a.metadata.straps_view(),
                    a.contract_id,
                    reward_straps(e.new_straps@),
                )
            }
    }
}

/// The events the indexer handles: contract events, where an initialization's first roll
/// height fits in a `u32`.
pub open spec fn handled_event(event: Event) -> bool {
    match event {
        Event::BlockchainEvent => false,
        Event::ContractEvent(ContractEvent::Initialized(e)) => e.first_height + e.roll_frequency <= u32::MAX,
        Event::ContractEvent(_) => true,
    }
}

/// What `handle_event` does to the indexer.
pub open spec fn event_handled(a: App, b: App, event: Event, height: u32, r: Result<(), StorageError>) -> bool {
    match event {
        Event::BlockchainEvent => false,
        Event::ContractEvent(ce) => match ce {
            ContractEvent::Initialized(e) => initialized_handled(a, b, e, height, r),
            ContractEvent::Roll(e) => roll_handled(a, b, e, height, r),
            ContractEvent::ModifierTriggered(e) => modifier_triggered_handled(a, b, e, height, r),
            ContractEvent::NewGame(e) => new_game_handled(a, b, e, height, r),
            ContractEvent::PlaceChipBet(e) => chip_bet_handled(a, b, e, height, r),
            ContractEvent::PlaceStrapBet(e) => strap_bet_handled(a, b, e, height, r),
            ContractEvent::ClaimRewards(e) => claim_handled(a, b, e, height, r),
            ContractEvent::FundPot(e) => fund_pot_handled(a, b, e, height, r),
            ContractEvent::PurchaseModifier(e) => purchase_handled(a, b, e, height, r),
        },
    }
}

/// A run of a batch of events: `states[0]` is `a`; the i-th event takes `states[i]` to
/// `states[i + 1]` with result `results[i]`; every result but the last is `Ok`.
pub open spec fn batch_trace(
    a: App,
    events: Seq<Event>,
    height: u32,
    states: Seq<App>,
    results: Seq<Result<(), StorageError>>,
) -> bool {
    &&& states.len() == results.len() + 1
    &&& results.len() <= events.len()
    &&& states[0] == a
    &&& forall|i: int|
        0 <= i < results.len() ==> event_handled(states[i], states[i + 1], events[i], height, #[trigger] results[i])
    &&& forall|i: int| 0 <= i < results.len() - 1 ==> (#[trigger] results[i]) is Ok
}

/// What `bump_height_if_newer` does to the indexer.
pub open spec fn height_bumped(a: App, b: App, height: u32) -> bool {
    &&& b.wf()
    &&& b.metadata == a.metadata
    &&& b.contract_id == a.contract_id
    &&& b.historical_modifiers == a.historical_modifiers
    &&& b.roll_frequency == a.roll_frequency
    &&& b.first_roll_height == a.first_roll_height
    &&& b.modifier_triggered == a.modifier_triggered
    &&& b.modifier_purchased == a.modifier_purchased
    &&& same_but_overview(a.snapshots, b.snapshots)
    &&& match a.snapshots.latest_view() {
        Some((o, h)) => if height > h {
            b.snapshots.latest_view() == Some((OverviewModel { current_block_height: height, ..o }, height))
                && b.snapshots.latest_game_view() == o.game_id
        } else {
            b.snapshots == a.snapshots
        },
        None => b.snapshots == a.snapshots,
    }
}

impl App {
    /// Handles one event of the contract.
    pub fn handle_event(&mut self, event: Event, height: u32) -> (r: Result<(), StorageError>)
        requires
            old(self).wf(),
            handled_event(event),
        ensures
            event_handled(*old(self), *final(self), event, height, r),
    {
        match event {
            Event::BlockchainEvent => Ok(()),
            Event::ContractEvent(contract_event) => match contract_event {
                ContractEvent::Initialized(event) => self.handle_initialized_event(event, height),
                ContractEvent::Roll(roll_event) => self.handle_roll_event(roll_event, height),
                ContractEvent::ModifierTriggered(event) => self.handle_modifier_triggered_event(event, height),
                ContractEvent::NewGame(event) => self.handle_new_game_event(event, height),
                ContractEvent::PlaceChipBet(event) => self.handle_place_chip_bet_event(event, height),
                ContractEvent::PlaceStrapBet(event) => self.handle_place_strap_bet_event(event, height),
                ContractEvent::ClaimRewards(event) => self.handle_claim_rewards_event(event, height),
                ContractEvent::FundPot(event) => self.handle_fund_pot_event(event, height),
                ContractEvent::PurchaseModifier(event) => self.handle_purchase_modifier_event(event, height),
            },
        }
    }

    /// Handles a batch of events observed at `height`, in order, then raises the overview's
    /// block height to `height` when it is newer; the first error ends the batch.
    #[verifier::loop_isolation(false)]
    pub fn handle_event_batch(&mut self, events: Vec<Event>, height: u32) -> (r: Result<(), StorageError>)
        requires
            old(self).wf(),
            forall|i: int| 0 <= i < events@.len() ==> handled_event(#[trigger] events@[i]),
        ensures
            exists|states: Seq<App>, results: Seq<Result<(), StorageError>>|
                #[trigger] batch_trace(*old(self), events@, height, states, results) && if results.len() > 0
                    && results.last() is Err {
                    *final(self) == states.last() && r == results.last()
                } else {
                    results.len() == events@.len() && r is Ok && height_bumped(states.last(), *final(self), height)
                },
    {
        let ghost all = events@;
        let n = events.len();
        let mut pending = events;
        let mut i: usize = 0;
        let ghost mut states: Seq<App> = seq![*self];
        let ghost mut results: Seq<Result<(), StorageError>> = Seq::empty();
        while pending.len() > 0
            invariant
                self.wf(),
                i + pending@.len() == all.len(),
                all.len() == n,
                pending@ == all.skip(i as int),
                forall|j: int| 0 <= j < all.len() ==> handled_event(#[trigger] all[j]),
                batch_trace(*old(self), all, height, states, results),
                results.len() == i,
                states.last() == *self,
                forall|j: int| 0 <= j < results.len() ==> (#[trigger] results[j]) is Ok,
            decreases pending@.len(),
        {
            let event = pending.remove(0);
            assert(event == all[i as int]);
            let ghost before = *self;
            let res = self.handle_event(event, height);
            proof {
                states = states.push(*self);
                results = results.push(res);
                assert(states[i as int] == before);
            }
            match res {
                Err(e) => {
                    assert(batch_trace(*old(self), all, height, states, results));
                    return Err(e);
                },
                Ok(()) => {},
            }
            assert(pending@ =~= all.skip(i + 1));
            i = i + 1;
        }
        let res = self.bump_height_if_newer(height);
        assert(batch_trace(*old(self), all, height, states, results));
        res
    }
}

/// Every known strap is listed under the asset id that the contract mints it under.
pub open spec fn straps_under_their_assets(a: App) -> bool {
    forall|k: [u8; 32]|
        #[trigger] a.metadata.straps_view().dom().contains(k) ==> k == strap_asset(
            a.contract_id,
            a.metadata.straps_view()[k],
        )
}

proof fn lemma_remember_all_keeps_assets(m: Map<[u8; 32], Strap>, contract_id: [u8; 32], straps: Seq<Strap>)
    requires
        forall|k: [u8; 32]| #[trigger] m.dom().contains(k) ==> k == strap_asset(contract_id, m[k]),
    ensures
        forall|k: [u8; 32]|
            #[trigger] remember_all(m, contract_id, straps).dom().contains(k) ==> k == strap_asset(
                contract_id,
                remember_all(m, contract_id, straps)[k],
            ),
    decreases straps.len(),
{
    if straps.len() > 0 {
        lemma_remember_all_keeps_assets(m, contract_id, straps.drop_last());
        let before = remember_all(m, contract_id, straps.drop_last());
        let after = remember_all(m, contract_id, straps);
        assert forall|k: [u8; 32]| #[trigger] after.dom().contains(k) implies k == strap_asset(
            contract_id,
            after[k],
        ) by {
            if k != strap_asset(contract_id, straps.last()) {
                assert(before.dom().contains(k));
            }
        }
    }
}

/// Handling an event keeps every known strap listed under the asset id the contract mints
/// it under, so a lookup by asset id gives the strap of that asset.
pub proof fn law_handling_keeps_strap_assets(a: App, b: App, event: Event, height: u32, r: Result<(), StorageError>)
    requires
        straps_under_their_assets(a),
        event_handled(a, b, event, height, r),
    ensures
        straps_under_their_assets(b),
{
    match event {
        Event::BlockchainEvent => {},
        Event::ContractEvent(ce) => match ce {
            ContractEvent::PlaceStrapBet(e) => {
                if a.snapshots.latest_view() is Some {
                    let m = a.metadata.straps_view();
                    let after = b.metadata.straps_view();
                    assert forall|k: [u8; 32]| #[trigger] after.dom().contains(k) implies k == strap_asset(
                        b.contract_id,
                        after[k],
                    ) by {
                        if k != strap_asset(a.contract_id, e.strap) {
                            assert(m.dom().contains(k));
                        }
                    }
                }
            },
            ContractEvent::ClaimRewards(e) => {
                if a.snapshots.latest_view() is Some {
                    lemma_remember_all_keeps_assets(
                        a.metadata.straps_view(),
                        a.contract_id,
                        straps_of(e.total_strap_winnings@),
                    );
                }
            },
            ContractEvent::NewGame(e) => {
                if a.snapshots.latest_view() is Some {
                    lemma_remember_all_keeps_assets(
                        a.metadata.straps_view(),
                        a.contract_id,
                        reward_straps(e.new_straps@),
                    );
                }
            },
            _ => {},
        },
    }
}


/// The modifiers that the trigger events among `events` activate, in order.
pub open spec fn triggered_modifiers(events: Seq<Event>) -> Seq<ActiveModifier>
    decreases events.len(),
{
    if events.len() == 0 {
        Seq::empty()
    } else {
        let rest = triggered_modifiers(events.drop_last());
        match events.last() {
            Event::ContractEvent(ContractEvent::ModifierTriggered(e)) => rest.push(
                ActiveModifier { roll_index: e.roll_index, modifier: e.modifier, modifier_roll: e.modifier_roll },
            ),
            _ => rest,
        }
    }
}

proof fn lemma_modifiers_gathered(
    a: App,
    events: Seq<Event>,
    height: u32,
    states: Seq<App>,
    results: Seq<Result<(), StorageError>>,
    i: int,
)
    requires
        batch_trace(a, events, height, states, results),
        a.historical_modifiers@.len() == 0,
        0 <= i < results.len(),
        forall|j: int| 0 <= j < i ==> !((#[trigger] events[j]) matches Event::ContractEvent(ContractEvent::NewGame(_))),
        forall|j: int| 0 <= j < i ==> (#[trigger] results[j]) is Ok,
    ensures
        states[i].historical_modifiers@ == triggered_modifiers(events.take(i)),
    decreases i,
{
    if i == 0 {
        assert(events.take(0) =~= Seq::<Event>::empty());
    } else {
        lemma_modifiers_gathered(a, events, height, states, results, i - 1);
        let e = events[i - 1];
        assert(events.take(i).drop_last() =~= events.take(i - 1));
        assert(events.take(i).last() == e);
        assert(event_handled(states[i - 1], states[i], e, height, results[i - 1]));
        assert(results[i - 1] is Ok);
    }
}

/// The history that the indexer writes for a game when the next game starts holds exactly
/// the modifiers triggered since the previous new game, in the order they were triggered,
/// and the next game starts with none gathered.
pub proof fn law_history_holds_modifiers_since_last_new_game(
    a: App,
    events: Seq<Event>,
    height: u32,
    states: Seq<App>,
    results: Seq<Result<(), StorageError>>,
)
    requires
        batch_trace(a, events, height, states, results),
        a.historical_modifiers@.len() == 0,
        results.len() == events.len(),
        events.len() > 0,
        events.last() matches Event::ContractEvent(ContractEvent::NewGame(_)),
        results.last() is Ok,
        forall|j: int|
            0 <= j < events.len() - 1 ==> !((#[trigger] events[j]) matches Event::ContractEvent(ContractEvent::NewGame(_))),
    ensures
        ({
            let n = events.len() - 1;
            let prev = states[n].snapshots.latest_view().unwrap().0;
            &&& states[n].snapshots.latest_view() is Some
            &&& states[n + 1].snapshots.historical_view().dom().contains(prev.game_id)
            &&& states[n + 1].snapshots.historical_view()[prev.game_id] == finished_game(
                prev,
                triggered_modifiers(events.drop_last()),
            )
            &&& states[n + 1].historical_modifiers@.len() == 0
        }),
{
    let n = events.len() - 1;
    assert forall|j: int| 0 <= j < n implies (#[trigger] results[j]) is Ok by {}
    lemma_modifiers_gathered(a, events, height, states, results, n);
    assert(events.take(n) =~= events.drop_last());
    assert(event_handled(states[n], states[n + 1], events[n], height, results[n]));
}


/// A chip bet raises the chips bet on its own roll and the pot by its amount (capped at
/// `u64::MAX`) and leaves the other rolls as they were; a strap bet raises the total of its
/// strap on its own roll by its amount (where that fits in a `u64`), keeps the other straps'
/// totals there, and leaves the chips, the pot and the other rolls as they were.
pub proof fn law_bets_add_up_on_their_roll(
    o: OverviewModel,
    roll: Roll,
    amount: u64,
    strap: Strap,
    other_strap: Strap,
    other: int,
    height: u32,
)
    requires
        o.total_bets.len() == 11,
        0 <= other < 11,
        other != roll_index(roll),
        other_strap != strap,
    ensures
        ({
            let i = roll_index(roll);
            let c = chip_bet_overview(o, roll, amount, height);
            &&& c.total_bets[i].0 == if o.total_bets[i].0 + amount > u64::MAX {
                u64::MAX as int
            } else {
                o.total_bets[i].0 + amount
            }
            &&& c.pot_size == if o.pot_size + amount > u64::MAX {
                u64::MAX as int
            } else {
                o.pot_size + amount
            }
            &&& c.total_bets[i].1 == o.total_bets[i].1
            &&& c.total_bets[other] == o.total_bets[other]
        }),
        ({
            let i = roll_index(roll);
            let t = strap_bet_overview(o, roll, strap, amount, height);
            &&& strap_total(o.total_bets[i].1, strap) + amount <= u64::MAX ==> strap_total(t.total_bets[i].1, strap)
                == strap_total(o.total_bets[i].1, strap) + amount
            &&& strap_total(t.total_bets[i].1, other_strap) == strap_total(o.total_bets[i].1, other_strap)
            &&& t.total_bets[i].0 == o.total_bets[i].0
            &&& t.pot_size == o.pot_size
            &&& t.total_bets[other] == o.total_bets[other]
        }),
{
    let i = roll_index(roll);
    law_accumulate_keeps_totals(o.total_bets[i].1, strap, amount, strap);
    law_accumulate_keeps_totals(o.total_bets[i].1, strap, amount, other_strap);
}

} // verus!
