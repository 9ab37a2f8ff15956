//! The views of the game that the indexer keeps: the live table, each account's bets,
//! and the record of finished games.
use vstd::prelude::*;
use crate::types::{Identity, Modifier, Roll, Strap, all_rolls_spec, index_to_roll, roll_at};

verus! {

/// The state of the current game as a whole.
#[derive(Debug, PartialEq, Eq)]
pub struct OverviewSnapshot {
    pub game_id: u32,
    pub rolls: Vec<Roll>,
    pub pot_size: u64,
    pub current_block_height: u32,
    pub next_roll_height: Option<u32>,
    pub roll_frequency: Option<u32>,
    pub first_roll_height: Option<u32>,
    pub rewards: Vec<(Roll, Strap, u64)>,
    /// Per board position: the chips bet there and the straps bet there.
    pub total_bets: [(u64, Vec<(Strap, u64)>); 11],
    pub modifiers_active: [Option<Modifier>; 11],
    /// Shop entries: trigger roll, modifier roll, modifier, and whether it was triggered.
    pub modifier_shop: Vec<(Roll, Roll, Modifier, bool)>,
}

/// An overview with nothing in it: game 0, no rolls, an empty pot, no bets, no modifiers.
pub open spec fn empty_overview() -> OverviewModel {
    OverviewModel {
        game_id: 0,
        rolls: Seq::empty(),
        pot_size: 0,
        current_block_height: 0,
        next_roll_height: None,
        roll_frequency: None,
        first_roll_height: None,
        rewards: Seq::empty(),
        total_bets: Seq::new(11, |i: int| (0u64, Seq::<(Strap, u64)>::empty())),
        modifiers_active: Seq::new(11, |i: int| None::<Modifier>),
        modifier_shop: Seq::empty(),
    }
}

impl OverviewSnapshot {
    pub fn new() -> (s: Self)
        ensures
            s@ == empty_overview(),
    {
        Self::default()
    }
}

impl Default for OverviewSnapshot {
    fn default() -> (s: Self)
        ensures
            s@ == empty_overview(),
    {
        let total_bets: [(u64, Vec<(Strap, u64)>); 11] = [
            (0, Vec::new()),
            (0, Vec::new()),
            (0, Vec::new()),
            (0, Vec::new()),
            (0, Vec::new()),
            (0, Vec::new()),
            (0, Vec::new()),
            (0, Vec::new()),
            (0, Vec::new()),
            (0, Vec::new()),
            (0, Vec::new()),
        ];
        let s = OverviewSnapshot {
            game_id: 0,
            rolls: Vec::new(),
            pot_size: 0,
            current_block_height: 0,
            next_roll_height: None,
            roll_frequency: None,
            first_roll_height: None,
            rewards: Vec::new(),
            total_bets,
            modifiers_active: [None; 11],
            modifier_shop: Vec::new(),
        };
        assert(s@ =~= empty_overview()) by {
            broadcast use vstd::array::group_array_axioms;

            assert(s@.total_bets =~= empty_overview().total_bets);
            assert(s@.modifiers_active =~= empty_overview().modifiers_active);
        }
        s
    }
}

/// What was bet: chips, or a strap.
#[derive(Clone, Copy, Debug, PartialEq, Eq)]
pub enum AccountBetKind {
    Chip,
    Strap(Strap),
}

/// One bet of an account on one roll.
#[derive(Clone, Copy, Debug, PartialEq, Eq)]
pub struct AccountBetPlacement {
    pub bet_roll_index: u32,
    pub amount: u64,
    pub kind: AccountBetKind,
}

/// The bets of an account on one roll.
#[derive(Debug, PartialEq, Eq)]
pub struct AccountRollBets {
    pub roll: Roll,
    pub bets: Vec<AccountBetPlacement>,
}

/// One account's part in one game (the current game, or a finished one).
#[derive(Debug, PartialEq, Eq)]
pub struct AccountSnapshot {
    pub total_chip_bet: u64,
    pub strap_bets: Vec<(Strap, u64)>,
    pub total_chip_won: u64,
    pub claimed_rewards: Option<(u64, Vec<(Strap, u64)>)>,
    pub per_roll_bets: Vec<AccountRollBets>,
}

/// The per-roll table holds one entry for each roll, in board order.
pub open spec fn is_roll_template(per_roll: Seq<AccountRollBets>) -> bool {
    &&& per_roll.len() == 11
    &&& forall|i: int| 0 <= i < 11 ==> (#[trigger] per_roll[i]).roll == roll_at(i)
}

/// The per-roll table of an account with no bets: each roll, in board order, with no bets.
pub open spec fn empty_roll_bets() -> Seq<(Roll, Seq<AccountBetPlacement>)> {
    Seq::new(11, |i: int| (roll_at(i), Seq::<AccountBetPlacement>::empty()))
}

/// An account snapshot with no bets, no winnings and nothing claimed.
pub open spec fn empty_account() -> AccountModel {
    AccountModel {
        total_chip_bet: 0,
        strap_bets: Seq::empty(),
        total_chip_won: 0,
        claimed_rewards: None,
        per_roll_bets: empty_roll_bets(),
    }
}

/// A per-roll table with one empty entry for each roll.
pub fn empty_roll_template() -> (v: Vec<AccountRollBets>)
    ensures
        is_roll_template(v@),
        forall|i: int| 0 <= i < 11 ==> (#[trigger] v@[i]).bets@.len() == 0,
        v@.map_values(|e: AccountRollBets| e@) == empty_roll_bets(),
{
    let mut v: Vec<AccountRollBets> = Vec::new();
    let mut i: usize = 0;
    while i < 11
        invariant
            0 <= i <= 11,
            v@.len() == i,
            forall|j: int| 0 <= j < i ==> (#[trigger] v@[j]).roll == roll_at(j),
            forall|j: int| 0 <= j < i ==> (#[trigger] v@[j]).bets@ == Seq::<AccountBetPlacement>::empty(),
        decreases 11 - i,
    {
        v.push(AccountRollBets { roll: index_to_roll(i), bets: Vec::new() });
        i = i + 1;
    }
    assert(v@.map_values(|e: AccountRollBets| e@) =~= empty_roll_bets());
    v
}

impl AccountSnapshot {
    pub fn new() -> (s: Self)
        ensures
            s@ == empty_account(),
            is_roll_template(s.per_roll_bets@),
    {
        Self::default()
    }
}

impl Default for AccountSnapshot {
    fn default() -> (s: Self)
        ensures
            s@ == empty_account(),
            is_roll_template(s.per_roll_bets@),
    {
        AccountSnapshot {
            total_chip_bet: 0,
            strap_bets: Vec::new(),
            total_chip_won: 0,
            claimed_rewards: None,
            per_roll_bets: empty_roll_template(),
        }
    }
}

/// A modifier that was active in a game, and from which roll on.
#[derive(Clone, Copy, Debug, PartialEq, Eq)]
pub struct ActiveModifier {
    pub roll_index: u32,
    pub modifier: Modifier,
    pub modifier_roll: Roll,
}

impl ActiveModifier {
    pub fn new(roll_height: u32, modifier: Modifier, modifier_roll: Roll) -> (m: Self)
        ensures
            m.roll_index == roll_height,
            m.modifier == modifier,
            m.modifier_roll == modifier_roll,
    {
        ActiveModifier { roll_index: roll_height, modifier, modifier_roll }
    }
}

/// An account's part in a finished game.
#[derive(Debug, PartialEq, Eq)]
pub struct HistoricalAccountSnapshot {
    pub identity: Identity,
    pub snapshot: AccountSnapshot,
}

/// The record of a finished game.
#[derive(Debug, PartialEq, Eq)]
pub struct HistoricalSnapshot {
    pub game_id: u32,
    pub rolls: Vec<Roll>,
    pub modifiers: Vec<ActiveModifier>,
    pub strap_rewards: Vec<(Roll, Strap, u64)>,
    pub accounts: Vec<HistoricalAccountSnapshot>,
}

impl HistoricalSnapshot {
    pub fn new(game_id: u32, rolls: Vec<Roll>, modifiers: Vec<ActiveModifier>) -> (h: Self)
        ensures
            h.game_id == game_id,
            h.rolls@ == rolls@,
            h.modifiers@ == modifiers@,
            h.strap_rewards@.len() == 0,
            h.accounts@.len() == 0,
    {
        HistoricalSnapshot { game_id, rolls, modifiers, strap_rewards: Vec::new(), accounts: Vec::new() }
    }
}

/// All rolls in board order.
pub fn all_rolls() -> (v: Vec<Roll>)
    ensures
        v@ == all_rolls_spec(),
{
    let mut v: Vec<Roll> = Vec::new();
    let mut i: usize = 0;
    while i < 11
        invariant
            0 <= i <= 11,
            v@ == all_rolls_spec().take(i as int),
        decreases 11 - i,
    {
        v.push(index_to_roll(i));
        assert(all_rolls_spec().take(i + 1) =~= all_rolls_spec().take(i as int).push(roll_at(i as int)));
        i = i + 1;
    }
    assert(all_rolls_spec().take(11) =~= all_rolls_spec());
    v
}

/// The contents of an overview snapshot, as plain values.
pub struct OverviewModel {
    pub game_id: u32,
    pub rolls: Seq<Roll>,
    pub pot_size: u64,
    pub current_block_height: u32,
    pub next_roll_height: Option<u32>,
    pub roll_frequency: Option<u32>,
    pub first_roll_height: Option<u32>,
    pub rewards: Seq<(Roll, Strap, u64)>,
    pub total_bets: Seq<(u64, Seq<(Strap, u64)>)>,
    pub modifiers_active: Seq<Option<Modifier>>,
    pub modifier_shop: Seq<(Roll, Roll, Modifier, bool)>,
}

impl View for OverviewSnapshot {
    type V = OverviewModel;

    open spec fn view(&self) -> OverviewModel {
        OverviewModel {
            game_id: self.game_id,
            rolls: self.rolls@,
            pot_size: self.pot_size,
            current_block_height: self.current_block_height,
            next_roll_height: self.next_roll_height,
            roll_frequency: self.roll_frequency,
            first_roll_height: self.first_roll_height,
            rewards: self.rewards@,
            total_bets: self.total_bets@.map_values(|e: (u64, Vec<(Strap, u64)>)| (e.0, e.1@)),
            modifiers_active: self.modifiers_active@,
            modifier_shop: self.modifier_shop@,
        }
    }
}

/// The contents of an account snapshot, as plain values.
pub struct AccountModel {
    pub total_chip_bet: u64,
    pub strap_bets: Seq<(Strap, u64)>,
    pub total_chip_won: u64,
    pub claimed_rewards: Option<(u64, Seq<(Strap, u64)>)>,
    pub per_roll_bets: Seq<(Roll, Seq<AccountBetPlacement>)>,
}

impl View for AccountRollBets {
    type V = (Roll, Seq<AccountBetPlacement>);

    open spec fn view(&self) -> (Roll, Seq<AccountBetPlacement>) {
        (self.roll, self.bets@)
    }
}

/// The claimed rewards of an account snapshot, as plain values.
pub open spec fn claimed_view(c: Option<(u64, Vec<(Strap, u64)>)>) -> Option<(u64, Seq<(Strap, u64)>)> {
    match c {
        Some((chips, straps)) => Some((chips, straps@)),
        None => None,
    }
}

impl View for AccountSnapshot {
    type V = AccountModel;

    open spec fn view(&self) -> AccountModel {
        AccountModel {
            total_chip_bet: self.total_chip_bet,
            strap_bets: self.strap_bets@,
            total_chip_won: self.total_chip_won,
            claimed_rewards: claimed_view(self.claimed_rewards),
            per_roll_bets: self.per_roll_bets@.map_values(|e: AccountRollBets| e@),
        }
    }
}

/// The contents of a finished game's record, as plain values.
pub struct HistoricalModel {
    pub game_id: u32,
    pub rolls: Seq<Roll>,
    pub modifiers: Seq<ActiveModifier>,
    pub strap_rewards: Seq<(Roll, Strap, u64)>,
    pub accounts: Seq<(Identity, AccountModel)>,
}

impl View for HistoricalSnapshot {
    type V = HistoricalModel;

    open spec fn view(&self) -> HistoricalModel {
        HistoricalModel {
            game_id: self.game_id,
            rolls: self.rolls@,
            modifiers: self.modifiers@,
            strap_rewards: self.strap_rewards@,
            accounts: self.accounts@.map_values(|e: HistoricalAccountSnapshot| (e.identity, e.snapshot@)),
        }
    }
}

impl Clone for AccountRollBets {
    fn clone(&self) -> (r: Self)
        ensures
            r@ == self@,
    {
        AccountRollBets { roll: self.roll, bets: self.bets.clone() }
    }
}

/// A copy of a list of plain values.
pub fn copy_vec<T: Copy>(v: &Vec<T>) -> (r: Vec<T>)
    ensures
        r@ == v@,
{
    let mut r: Vec<T> = Vec::new();
    let mut i: usize = 0;
    while i < v.len()
        invariant
            0 <= i <= v@.len(),
            r@ == v@.take(i as int),
        decreases v@.len() - i,
    {
        r.push(v[i]);
        assert(v@.take(i + 1) =~= v@.take(i as int).push(v@[i as int]));
        i = i + 1;
    }
    assert(v@.take(v@.len() as int) =~= v@);
    r
}

/// A copy of a list of straps and amounts.
pub fn clone_strap_amounts(v: &Vec<(Strap, u64)>) -> (r: Vec<(Strap, u64)>)
    ensures
        r@ == v@,
{
    copy_vec(v)
}

/// A copy of a per-roll table.
pub fn clone_roll_bets(v: &Vec<AccountRollBets>) -> (r: Vec<AccountRollBets>)
    ensures
        r@.map_values(|e: AccountRollBets| e@) == v@.map_values(|e: AccountRollBets| e@),
        r@.len() == v@.len(),
        forall|i: int| 0 <= i < v@.len() ==> (#[trigger] r@[i])@ == v@[i]@,
{
    let r = v.clone();
    assert(r@.map_values(|e: AccountRollBets| e@) =~= v@.map_values(|e: AccountRollBets| e@));
    r
}

impl Clone for AccountSnapshot {
    fn clone(&self) -> (r: Self)
        ensures
            r@ == self@,
    {
        let claimed_rewards = match &self.claimed_rewards {
            Some((chips, straps)) => Some((*chips, clone_strap_amounts(straps))),
            None => None,
        };
        AccountSnapshot {
            total_chip_bet: self.total_chip_bet,
            strap_bets: clone_strap_amounts(&self.strap_bets),
            total_chip_won: self.total_chip_won,
            claimed_rewards,
            per_roll_bets: clone_roll_bets(&self.per_roll_bets),
        }
    }
}

impl Clone for HistoricalAccountSnapshot {
    fn clone(&self) -> (r: Self)
        ensures
            r.identity == self.identity,
            r.snapshot@ == self.snapshot@,
    {
        HistoricalAccountSnapshot { identity: self.identity, snapshot: self.snapshot.clone() }
    }
}

impl Clone for HistoricalSnapshot {
    fn clone(&self) -> (r: Self)
        ensures
            r@ == self@,
    {
        let rolls = self.rolls.clone();
        let modifiers = self.modifiers.clone();
        let strap_rewards = copy_vec(&self.strap_rewards);
        let accounts = self.accounts.clone();
        assert(rolls@ =~= self.rolls@);
        assert(modifiers@ =~= self.modifiers@);
        assert(strap_rewards@ =~= self.strap_rewards@);
        let r = HistoricalSnapshot { game_id: self.game_id, rolls, modifiers, strap_rewards, accounts };
        assert(r@.accounts =~= self@.accounts);
        r
    }
}

impl Clone for OverviewSnapshot {
    fn clone(&self) -> (r: Self)
        ensures
            r@ == self@,
    {
        let t = &self.total_bets;
        let total_bets: [(u64, Vec<(Strap, u64)>); 11] = [
            (t[0].0, clone_strap_amounts(&t[0].1)),
            (t[1].0, clone_strap_amounts(&t[1].1)),
            (t[2].0, clone_strap_amounts(&t[2].1)),
            (t[3].0, clone_strap_amounts(&t[3].1)),
            (t[4].0, clone_strap_amounts(&t[4].1)),
            (t[5].0, clone_strap_amounts(&t[5].1)),
            (t[6].0, clone_strap_amounts(&t[6].1)),
            (t[7].0, clone_strap_amounts(&t[7].1)),
            (t[8].0, clone_strap_amounts(&t[8].1)),
            (t[9].0, clone_strap_amounts(&t[9].1)),
            (t[10].0, clone_strap_amounts(&t[10].1)),
        ];
        let rolls = self.rolls.clone();
        let rewards = copy_vec(&self.rewards);
        let modifier_shop = copy_vec(&self.modifier_shop);
        assert(rolls@ =~= self.rolls@);
        assert(rewards@ =~= self.rewards@);
        assert(modifier_shop@ =~= self.modifier_shop@);
        let r = OverviewSnapshot {
            game_id: self.game_id,
            rolls,
            pot_size: self.pot_size,
            current_block_height: self.current_block_height,
            next_roll_height: self.next_roll_height,
            roll_frequency: self.roll_frequency,
            first_roll_height: self.first_roll_height,
            rewards,
            total_bets,
            modifiers_active: self.modifiers_active,
            modifier_shop,
        };
        assert(r@.total_bets =~= self@.total_bets) by {
            broadcast use vstd::array::group_array_axioms;
        }
        r
    }
}

} // verus!
