//! The game client's own bookkeeping: the board cells it shows for each roll, how much it
//! may still bet, and the straps a claim will level up. It decides from plain values; the
//! calls to the chain and to the indexer stay with the caller.
use vstd::prelude::*;
use crate::contract_math::{strap_cost_spec, strap_to_cost};
use crate::indexer::{hit_after, roll_hit_after_bet, sat_sub};
use crate::table::Table;
use crate::types::StrapKind;
use crate::snapshot::{
    AccountBetKind, AccountBetPlacement, AccountSnapshot, HistoricalSnapshot, clone_strap_amounts, copy_vec,
};
use crate::types::{Modifier, Roll, Strap, roll_at, roll_index};

verus! {

/// What a bet stakes: chips, or a strap.
#[derive(Clone, Copy, Debug, PartialEq, Eq, Structural)]
pub enum Bet {
    Chip,
    Strap(Strap),
}

/// A strap reward on the board, with how many times it is offered.
#[derive(Clone, Copy, Debug, PartialEq, Eq, Structural)]
pub struct RewardInfo {
    pub strap: Strap,
    pub cost: u64,
    pub count: u64,
}

/// What the board shows for one roll.
#[derive(Clone, Debug, PartialEq, Eq)]
pub struct RollCell {
    pub roll: Roll,
    pub chip_total: u64,
    pub strap_total: u64,
    pub straps: Vec<(Strap, u64)>,
    pub rewards: Vec<RewardInfo>,
}

/// The share of the pot, in percent, that open chip bets may claim.
pub const MAX_OWED_PERCENTAGE: u64 = 5;

/// The roll after `r` on the board, from `Twelve` back to `Two`.
pub open spec fn next_roll_spec(r: Roll) -> Roll {
    roll_at((roll_index(r) + 1) % 11)
}

/// The roll before `r` on the board, from `Two` back to `Twelve`.
pub open spec fn prev_roll_spec(r: Roll) -> Roll {
    roll_at((roll_index(r) + 10) % 11)
}

pub fn next_roll(r: Roll) -> (n: Roll)
    ensures
        n == next_roll_spec(r),
{
    let idx = crate::types::roll_to_index(&r);
    crate::types::index_to_roll((idx + 1) % 11)
}

pub fn prev_roll(r: Roll) -> (p: Roll)
    ensures
        p == prev_roll_spec(r),
{
    let idx = crate::types::roll_to_index(&r);
    crate::types::index_to_roll((idx + 10) % 11)
}

/// The lowest price the shop asks for a modifier.
pub open spec fn floor_price(modifier: Modifier) -> u64 {
    match modifier {
        Modifier::Nothing => 0,
        Modifier::Burnt => 10,
        Modifier::Lucky => 20,
        Modifier::Holy => 30,
        Modifier::Holey => 40,
        Modifier::Scotch => 50,
        Modifier::Soaked => 60,
        Modifier::Moldy => 70,
        Modifier::Starched => 80,
        Modifier::Evil => 90,
        Modifier::Groovy => 100,
        Modifier::Delicate => 110,
    }
}

pub fn modifier_floor_price(modifier: &Modifier) -> (p: u64)
    ensures
        p == floor_price(*modifier),
{
    match modifier {
        Modifier::Nothing => 0,
        Modifier::Burnt => 10,
        Modifier::Lucky => 20,
        Modifier::Holy => 30,
        Modifier::Holey => 40,
        Modifier::Scotch => 50,
        Modifier::Soaked => 60,
        Modifier::Moldy => 70,
        Modifier::Starched => 80,
        Modifier::Evil => 90,
        Modifier::Groovy => 100,
        Modifier::Delicate => 110,
    }
}

/// `a * b`, or `u64::MAX` where that overflows.
pub open spec fn sat_mul(a: u64, b: u64) -> u64 {
    if a * b > u64::MAX {
        u64::MAX
    } else {
        (a * b) as u64
    }
}

/// How many chips may still be bet: the pot that is not owed to winners, of which a fixed
/// share may be at stake, less the chips already bet.
pub open spec fn bet_capacity(pot: u64, owed: u64, total_bets: u64) -> u64 {
    sat_sub((sat_mul(sat_sub(pot, owed), MAX_OWED_PERCENTAGE) / 100) as u64, total_bets)
}

pub fn available_bet_capacity(pot_balance: u64, chips_owed: u64, total_chip_bets: u64) -> (c: u64)
    ensures
        c == bet_capacity(pot_balance, chips_owed, total_chip_bets),
{
    let safe_pool = pot_balance.saturating_sub(chips_owed);
    let scaled = match safe_pool.checked_mul(MAX_OWED_PERCENTAGE) {
        Some(v) => v,
        None => u64::MAX,
    };
    let limit = scaled / 100;
    limit.saturating_sub(total_chip_bets)
}

/// The chips staked by a list of bets.
pub open spec fn chip_sum(bets: Seq<(Bet, u64, u32)>) -> int
    decreases bets.len(),
{
    if bets.len() == 0 {
        0
    } else {
        chip_sum(bets.drop_last()) + if bets.last().0 is Chip {
            bets.last().1 as int
        } else {
            0
        }
    }
}

/// The amount staked in straps by a list of bets.
pub open spec fn strap_sum(bets: Seq<(Bet, u64, u32)>) -> int
    decreases bets.len(),
{
    if bets.len() == 0 {
        0
    } else {
        strap_sum(bets.drop_last()) + if bets.last().0 is Strap {
            bets.last().1 as int
        } else {
            0
        }
    }
}

/// Whether `i` is the first position of `strap` in a tally.
pub open spec fn first_of(tally: Seq<(Strap, u64)>, strap: Strap, i: int) -> bool {
    &&& 0 <= i < tally.len()
    &&& tally[i].0 == strap
    &&& forall|j: int| 0 <= j < i ==> tally[j].0 != strap
}

/// A tally with `amount` more of `strap`: its entry grows, or a new entry is appended.
pub open spec fn tallied(tally: Seq<(Strap, u64)>, strap: Strap, amount: u64) -> Seq<(Strap, u64)> {
    if exists|i: int| 0 <= i < tally.len() && tally[i].0 == strap {
        let i = choose|i: int| first_of(tally, strap, i);
        tally.update(i, (strap, (tally[i].1 + amount) as u64))
    } else {
        tally.push((strap, amount))
    }
}

/// The straps staked by a list of bets, each once, in order of first appearance, with the
/// amount staked on it.
pub open spec fn strap_tally(bets: Seq<(Bet, u64, u32)>) -> Seq<(Strap, u64)>
    decreases bets.len(),
{
    if bets.len() == 0 {
        Seq::empty()
    } else {
        match bets.last().0 {
            Bet::Strap(s) => tallied(strap_tally(bets.drop_last()), s, bets.last().1),
            Bet::Chip => strap_tally(bets.drop_last()),
        }
    }
}

/// Whether `i` is the first position of (`strap`, `cost`) among reward infos.
pub open spec fn first_reward(infos: Seq<RewardInfo>, strap: Strap, cost: u64, i: int) -> bool {
    &&& 0 <= i < infos.len()
    &&& infos[i].strap == strap && infos[i].cost == cost
    &&& forall|j: int| 0 <= j < i ==> !(infos[j].strap == strap && infos[j].cost == cost)
}

/// Reward infos with one more offer of (`strap`, `cost`).
pub open spec fn counted(infos: Seq<RewardInfo>, strap: Strap, cost: u64) -> Seq<RewardInfo> {
    if exists|i: int| 0 <= i < infos.len() && infos[i].strap == strap && infos[i].cost == cost {
        let i = choose|i: int| first_reward(infos, strap, cost, i);
        infos.update(i, RewardInfo { count: (infos[i].count + 1) as u64, ..infos[i] })
    } else {
        infos.push(RewardInfo { strap, cost, count: 1 })
    }
}

/// The rewards on `roll`, each (strap, price) once, in order of first appearance, with how
/// many times it is offered.
pub open spec fn reward_tally(rewards: Seq<(Roll, Strap, u64)>, roll: Roll) -> Seq<RewardInfo>
    decreases rewards.len(),
{
    if rewards.len() == 0 {
        Seq::empty()
    } else if rewards.last().0 == roll {
        counted(reward_tally(rewards.drop_last(), roll), rewards.last().1, rewards.last().2)
    } else {
        reward_tally(rewards.drop_last(), roll)
    }
}

proof fn lemma_strap_sum_prefix(bets: Seq<(Bet, u64, u32)>, i: int)
    requires
        0 <= i <= bets.len(),
    ensures
        0 <= strap_sum(bets.take(i)) <= strap_sum(bets),
        0 <= chip_sum(bets.take(i)) <= chip_sum(bets),
    decreases bets.len() - i,
{
    if i < bets.len() {
        lemma_strap_sum_prefix(bets, i + 1);
        assert(bets.take(i + 1).drop_last() =~= bets.take(i));
    } else {
        assert(bets.take(i) =~= bets);
    }
    lemma_sums_nonneg(bets.take(i));
}

proof fn lemma_sums_nonneg(bets: Seq<(Bet, u64, u32)>)
    ensures
        strap_sum(bets) >= 0,
        chip_sum(bets) >= 0,
    decreases bets.len(),
{
    if bets.len() > 0 {
        lemma_sums_nonneg(bets.drop_last());
    }
}

proof fn lemma_first_of(tally: Seq<(Strap, u64)>, strap: Strap, i: int)
    requires
        first_of(tally, strap, i),
    ensures
        (choose|k: int| first_of(tally, strap, k)) == i,
{
    let k = choose|k: int| first_of(tally, strap, k);
    assert(first_of(tally, strap, k));
    if k < i {
        assert(tally[k].0 != strap);
    } else if k > i {
        assert(tally[i].0 != strap);
    }
}

proof fn lemma_first_reward(infos: Seq<RewardInfo>, strap: Strap, cost: u64, i: int)
    requires
        first_reward(infos, strap, cost, i),
    ensures
        (choose|k: int| first_reward(infos, strap, cost, k)) == i,
{
    let k = choose|k: int| first_reward(infos, strap, cost, k);
    assert(first_reward(infos, strap, cost, k));
    if k < i {
        assert(!(infos[k].strap == strap && infos[k].cost == cost));
    } else if k > i {
        assert(!(infos[i].strap == strap && infos[i].cost == cost));
    }
}

/// No strap of a tally exceeds the amount staked in straps.
proof fn lemma_tally_bounded(bets: Seq<(Bet, u64, u32)>)
    ensures
        forall|i: int| 0 <= i < strap_tally(bets).len() ==> (#[trigger] strap_tally(bets)[i]).1 <= strap_sum(bets),
    decreases bets.len(),
{
    if bets.len() > 0 {
        let init = bets.drop_last();
        lemma_tally_bounded(init);
        lemma_sums_nonneg(init);
        let t = strap_tally(init);
        match bets.last().0 {
            Bet::Strap(s) => {
                if exists|i: int| 0 <= i < t.len() && t[i].0 == s {
                    let k = choose|i: int| first_of(t, s, i);
                    assert(first_of(t, s, k)) by {
                        let w = choose|i: int| 0 <= i < t.len() && t[i].0 == s;
                        lemma_least_strap(t, s, w);
                    }
                    assert(t[k].1 <= strap_sum(init));
                }
            },
            Bet::Chip => {},
        }
    }
}

/// Where a strap occurs in a tally, it has a first position.
proof fn lemma_least_strap(t: Seq<(Strap, u64)>, s: Strap, w: int)
    requires
        0 <= w < t.len(),
        t[w].0 == s,
    ensures
        exists|i: int| first_of(t, s, i),
    decreases w,
{
    if exists|j: int| 0 <= j < w && t[j].0 == s {
        let j = choose|j: int| 0 <= j < w && t[j].0 == s;
        lemma_least_strap(t, s, j);
    } else {
        assert(first_of(t, s, w));
    }
}

/// The cell the board shows for `roll`: the chips and the straps staked on it, and the
/// strap rewards offered on it.
pub fn roll_cell(roll: Roll, bets: &Vec<(Bet, u64, u32)>, strap_rewards: &Vec<(Roll, Strap, u64)>) -> (c: RollCell)
    requires
        chip_sum(bets@) <= u64::MAX,
        strap_sum(bets@) <= u64::MAX,
    ensures
        c.roll == roll,
        c.chip_total == chip_sum(bets@),
        c.strap_total == strap_sum(bets@),
        c.straps@ == strap_tally(bets@),
        c.rewards@ == reward_tally(strap_rewards@, roll),
{
    let mut chip_total: u64 = 0;
    let mut strap_total: u64 = 0;
    let mut straps: Vec<(Strap, u64)> = Vec::new();
    let mut i: usize = 0;
    while i < bets.len()
        invariant
            i <= bets@.len(),
            chip_sum(bets@) <= u64::MAX,
            strap_sum(bets@) <= u64::MAX,
            chip_total == chip_sum(bets@.take(i as int)),
            strap_total == strap_sum(bets@.take(i as int)),
            straps@ == strap_tally(bets@.take(i as int)),
        decreases bets@.len() - i,
    {
        let (bet, amount, _) = bets[i];
        proof {
            assert(bets@.take(i + 1).drop_last() =~= bets@.take(i as int));
            lemma_strap_sum_prefix(bets@, i + 1);
            lemma_tally_bounded(bets@.take(i as int));
        }
        match bet {
            Bet::Chip => {
                chip_total = chip_total + amount;
            },
            Bet::Strap(s) => {
                strap_total = strap_total + amount;
                let mut j: usize = 0;
                let mut found = false;
                while j < straps.len()
                    invariant_except_break
                        j <= straps@.len(),
                        straps@ == strap_tally(bets@.take(i as int)),
                        forall|k: int| 0 <= k < j ==> straps@[k].0 != s,
                        forall|k: int| 0 <= k < straps@.len() ==> (#[trigger] straps@[k]).1 <= strap_sum(bets@.take(i as int)),
                        strap_sum(bets@.take(i as int)) + amount <= u64::MAX,
                        !found,
                    invariant
                        straps@.len() == strap_tally(bets@.take(i as int)).len(),
                    ensures
                        found ==> straps@ == tallied(strap_tally(bets@.take(i as int)), s, amount),
                        !found ==> straps@ == strap_tally(bets@.take(i as int)) && forall|k: int|
                            0 <= k < straps@.len() ==> straps@[k].0 != s,
                    decreases straps@.len() - j,
                {
                    if straps[j].0 == s {
                        proof {
                            lemma_first_of(straps@, s, j as int);
                        }
                        let total = straps[j].1 + amount;
                        straps.set(j, (s, total));
                        found = true;
                        break;
                    }
                    j = j + 1;
                }
                if !found {
                    straps.push((s, amount));
                }
            },
        }
        i = i + 1;
    }
    proof {
        assert(bets@.take(bets@.len() as int) =~= bets@);
    }
    let mut rewards: Vec<RewardInfo> = Vec::new();
    let mut r: usize = 0;
    while r < strap_rewards.len()
        invariant
            r <= strap_rewards@.len(),
            rewards@ == reward_tally(strap_rewards@.take(r as int), roll),
            forall|k: int| 0 <= k < rewards@.len() ==> (#[trigger] rewards@[k]).count <= r,
        decreases strap_rewards@.len() - r,
    {
        let (rr, s, cost) = strap_rewards[r];
        proof {
            assert(strap_rewards@.take(r + 1).drop_last() =~= strap_rewards@.take(r as int));
        }
        if rr == roll {
            let mut j: usize = 0;
            let mut found = false;
            while j < rewards.len()
                invariant_except_break
                    j <= rewards@.len(),
                    rewards@ == reward_tally(strap_rewards@.take(r as int), roll),
                    forall|k: int| 0 <= k < j ==> !(rewards@[k].strap == s && rewards@[k].cost == cost),
                    forall|k: int| 0 <= k < rewards@.len() ==> (#[trigger] rewards@[k]).count <= r,
                    !found,
                invariant
                    r < strap_rewards@.len(),
                    r < usize::MAX,
                    forall|k: int| 0 <= k < rewards@.len() ==> (#[trigger] rewards@[k]).count <= r + 1,
                ensures
                    found ==> rewards@ == counted(reward_tally(strap_rewards@.take(r as int), roll), s, cost),
                    !found ==> rewards@ == reward_tally(strap_rewards@.take(r as int), roll) && forall|k: int|
                        0 <= k < rewards@.len() ==> !(rewards@[k].strap == s && rewards@[k].cost == cost),
                decreases rewards@.len() - j,
            {
                let info = rewards[j];
                if info.strap == s && info.cost == cost {
                    proof {
                        lemma_first_reward(rewards@, s, cost, j as int);
                        assert(usize::MAX <= u64::MAX);
                    }
                    rewards.set(j, RewardInfo { count: info.count + 1, ..info });
                    found = true;
                    break;
                }
                j = j + 1;
            }
            if !found {
                rewards.push(RewardInfo { strap: s, cost, count: 1 });
            }
        }
        r = r + 1;
    }
    proof {
        assert(strap_rewards@.take(strap_rewards@.len() as int) =~= strap_rewards@);
    }
    RollCell { roll, chip_total, strap_total, straps, rewards }
}

/// Bets by roll, as sequences.
pub open spec fn rows_view(rows: Seq<(Roll, Vec<(Bet, u64, u32)>)>) -> Seq<(Roll, Seq<(Bet, u64, u32)>)> {
    rows.map_values(|row: (Roll, Vec<(Bet, u64, u32)>)| (row.0, row.1@))
}

/// The bets of the first row for `roll`, or none.
pub open spec fn bets_on(rows: Seq<(Roll, Seq<(Bet, u64, u32)>)>, roll: Roll) -> Seq<(Bet, u64, u32)>
    decreases rows.len(),
{
    if rows.len() == 0 {
        Seq::empty()
    } else if rows[0].0 == roll {
        rows[0].1
    } else {
        bets_on(rows.drop_first(), roll)
    }
}

/// The modifier that a won strap bet takes: that of the first active modifier on the roll
/// that was active when the bet was placed, if the claim enables it.
pub open spec fn override_for(
    active: Seq<(Roll, Modifier, u32)>,
    roll: Roll,
    bet_roll_index: u32,
    enabled: Seq<(Roll, Modifier)>,
) -> Option<Modifier>
    decreases active.len(),
{
    if active.len() == 0 {
        None
    } else if active[0].0 == roll && active[0].2 <= bet_roll_index {
        if enabled.contains((active[0].0, active[0].1)) {
            Some(active[0].1)
        } else {
            None
        }
    } else {
        override_for(active.drop_first(), roll, bet_roll_index, enabled)
    }
}

/// A strap one level up (the level stops at 255), with the given modifier if any.
pub open spec fn upgraded(s: Strap, modifier: Option<Modifier>) -> Strap {
    Strap {
        level: if s.level == 255 {
            255
        } else {
            (s.level + 1) as u8
        },
        modifier: match modifier {
            Some(m) => m,
            None => s.modifier,
        },
        ..s
    }
}

/// The straps that the bets on `roll` win when it is the `idx`-th roll: each strap bet
/// placed at or before that roll, levelled up.
pub open spec fn row_upgrades(
    bets: Seq<(Bet, u64, u32)>,
    roll: Roll,
    idx: int,
    active: Seq<(Roll, Modifier, u32)>,
    enabled: Seq<(Roll, Modifier)>,
) -> Seq<(Roll, Strap)>
    decreases bets.len(),
{
    if bets.len() == 0 {
        Seq::empty()
    } else {
        row_upgrades(bets.drop_last(), roll, idx, active, enabled) + match bets.last().0 {
            Bet::Strap(s) => if bets.last().2 <= (idx as u32) {
                seq![(roll, upgraded(s, override_for(active, roll, bets.last().2, enabled)))]
            } else {
                Seq::empty()
            },
            Bet::Chip => Seq::empty(),
        }
    }
}

/// The straps a claim of a game levels up: for each roll of the game in order, the strap
/// bets on it that it hit.
pub open spec fn upgrades_for(
    rows: Seq<(Roll, Seq<(Bet, u64, u32)>)>,
    rolls: Seq<Roll>,
    active: Seq<(Roll, Modifier, u32)>,
    enabled: Seq<(Roll, Modifier)>,
) -> Seq<(Roll, Strap)>
    decreases rolls.len(),
{
    if rolls.len() == 0 {
        Seq::empty()
    } else {
        upgrades_for(rows, rolls.drop_last(), active, enabled) + row_upgrades(
            bets_on(rows, rolls.last()),
            rolls.last(),
            rolls.len() - 1,
            active,
            enabled,
        )
    }
}

/// Whether the claim enables `modifier` on `roll`.
fn is_enabled(enabled: &Vec<(Roll, Modifier)>, roll: Roll, modifier: Modifier) -> (r: bool)
    ensures
        r == enabled@.contains((roll, modifier)),
{
    let mut i: usize = 0;
    while i < enabled.len()
        invariant
            i <= enabled@.len(),
            forall|k: int| 0 <= k < i ==> enabled@[k] != (roll, modifier),
        decreases enabled@.len() - i,
    {
        let (r, m) = enabled[i];
        if r == roll && m == modifier {
            assert(enabled@[i as int] == (roll, modifier));
            return true;
        }
        i = i + 1;
    }
    false
}

pub fn modifier_override_for_roll(
    active: &Vec<(Roll, Modifier, u32)>,
    roll: &Roll,
    bet_roll_index: u32,
    enabled: &Vec<(Roll, Modifier)>,
) -> (r: Option<Modifier>)
    ensures
        r == override_for(active@, *roll, bet_roll_index, enabled@),
{
    let mut i: usize = 0;
    assert(active@.skip(0) =~= active@);
    while i < active.len()
        invariant
            i <= active@.len(),
            override_for(active@, *roll, bet_roll_index, enabled@) == override_for(
                active@.skip(i as int),
                *roll,
                bet_roll_index,
                enabled@,
            ),
        decreases active@.len() - i,
    {
        let (modifier_roll, modifier, activated_index) = active[i];
        proof {
            assert(active@.skip(i as int)[0] == active@[i as int]);
            assert(active@.skip(i as int).drop_first() =~= active@.skip(i + 1));
        }
        if modifier_roll == *roll && activated_index <= bet_roll_index {
            if is_enabled(enabled, modifier_roll, modifier) {
                return Some(modifier);
            } else {
                return None;
            }
        }
        i = i + 1;
    }
    None
}

/// The bets of the first row for `roll`.
fn find_bets_on<'a>(rows: &'a Vec<(Roll, Vec<(Bet, u64, u32)>)>, roll: &Roll) -> (r: Option<&'a Vec<(Bet, u64, u32)>>)
    ensures
        match r {
            Some(bets) => bets@ == bets_on(rows_view(rows@), *roll),
            None => bets_on(rows_view(rows@), *roll) == Seq::<(Bet, u64, u32)>::empty(),
        },
{
    let ghost view = rows_view(rows@);
    let mut i: usize = 0;
    assert(view.skip(0) =~= view);
    while i < rows.len()
        invariant
            i <= rows@.len(),
            view == rows_view(rows@),
            bets_on(view, *roll) == bets_on(view.skip(i as int), *roll),
        decreases rows@.len() - i,
    {
        proof {
            assert(view.skip(i as int)[0] == view[i as int]);
            assert(view.skip(i as int).drop_first() =~= view.skip(i + 1));
        }
        if rows[i].0 == *roll {
            return Some(&rows[i].1);
        }
        i = i + 1;
    }
    proof {
        assert(view.skip(i as int).len() == 0);
    }
    None
}

/// The straps a claim of a game is expected to level up, from the bets placed in it, its
/// rolls, the modifiers that were active and those the claim enables; nothing when the bets
/// or the rolls of the game are unknown.
pub fn expected_upgraded_straps(
    bets_hist: Option<&Vec<(Roll, Vec<(Bet, u64, u32)>)>>,
    rolls: &Vec<Roll>,
    active: &Vec<(Roll, Modifier, u32)>,
    enabled: &Vec<(Roll, Modifier)>,
) -> (r: Vec<(Roll, Strap)>)
    ensures
        match bets_hist {
            None => r@ == Seq::<(Roll, Strap)>::empty(),
            Some(rows) => r@ == upgrades_for(rows_view(rows@), rolls@, active@, enabled@),
        },
{
    let rows = match bets_hist {
        Some(rows) => rows,
        None => return Vec::new(),
    };
    let mut upgrades: Vec<(Roll, Strap)> = Vec::new();
    let mut idx: usize = 0;
    while idx < rolls.len()
        invariant
            idx <= rolls@.len(),
            upgrades@ == upgrades_for(rows_view(rows@), rolls@.take(idx as int), active@, enabled@),
        decreases rolls@.len() - idx,
    {
        let roll = rolls[idx];
        proof {
            assert(rolls@.take(idx + 1).drop_last() =~= rolls@.take(idx as int));
        }
        let ghost before = upgrades@;
        match find_bets_on(rows, &roll) {
            Some(bets) => {
                let mut k: usize = 0;
                while k < bets.len()
                    invariant
                        k <= bets@.len(),
                        upgrades@ == before + row_upgrades(bets@.take(k as int), roll, idx as int, active@, enabled@),
                    decreases bets@.len() - k,
                {
                    let (bet, _amount, bet_roll_index) = bets[k];
                    proof {
                        assert(bets@.take(k + 1).drop_last() =~= bets@.take(k as int));
                    }
                    if bet_roll_index <= idx as u32 {
                        if let Bet::Strap(strap) = bet {
                            let modifier = modifier_override_for_roll(active, &roll, bet_roll_index, enabled);
                            let level = strap.level.saturating_add(1);
                            let new_modifier = match modifier {
                                Some(m) => m,
                                None => strap.modifier,
                            };
                            upgrades.push((roll, Strap { level, modifier: new_modifier, ..strap }));
                        }
                    }
                    proof {
                        assert(upgrades@ =~= before + row_upgrades(bets@.take(k + 1), roll, idx as int, active@, enabled@));
                    }
                    k = k + 1;
                }
                proof {
                    assert(bets@.take(bets@.len() as int) =~= bets@);
                }
            },
            None => {
                proof {
                    assert(upgrades@ =~= before + row_upgrades(Seq::empty(), roll, idx as int, active@, enabled@));
                }
            },
        }
        idx = idx + 1;
    }
    proof {
        assert(rolls@.take(rolls@.len() as int) =~= rolls@);
    }
    upgrades
}

/// A roll the client has seen on chain before the indexer reports it: the game, the roll's
/// position in that game, and its value.
#[derive(Clone, Copy, Debug, PartialEq, Eq, Structural)]
pub struct PendingRoll {
    pub game_id: u32,
    pub index: usize,
    pub roll: Roll,
}

/// What the client knows of the rolls of the current game.
#[derive(Debug, PartialEq, Eq)]
pub struct RollTracking {
    /// The game id and the rolls of the cached overview, if one is cached.
    pub overview: Option<(u32, Vec<Roll>)>,
    /// The rolls of the last game seen, as the client tracks them.
    pub shared_last_roll_history: Vec<Roll>,
    /// The last game in which the client saw a roll.
    pub last_seen_game_id: Option<u32>,
    /// Rolls seen on chain and not yet confirmed by the indexer.
    pub pending_rolls: Vec<PendingRoll>,
}

/// What the client knows of the rolls, as plain values.
pub struct RollTrackingModel {
    pub overview: Option<(u32, Seq<Roll>)>,
    pub shared: Seq<Roll>,
    pub last_seen: Option<u32>,
    pub pending: Seq<PendingRoll>,
}

impl View for RollTracking {
    type V = RollTrackingModel;

    open spec fn view(&self) -> RollTrackingModel {
        RollTrackingModel {
            overview: match self.overview {
                Some((g, rolls)) => Some((g, rolls@)),
                None => None,
            },
            shared: self.shared_last_roll_history@,
            last_seen: self.last_seen_game_id,
            pending: self.pending_rolls@,
        }
    }
}

/// What the client knows after it saw `value` rolled in game `game_id`: a `Seven` ends the
/// game, clearing its rolls and the pending rolls of that game and of earlier ones; any
/// other roll is appended to the rolls of its game and kept pending at its position.
pub open spec fn after_roll(st: RollTrackingModel, game_id: u32, value: Roll) -> RollTrackingModel {
    let seven = value == Roll::Seven;
    let (overview, shared, index): (Option<(u32, Seq<Roll>)>, Seq<Roll>, Option<int>) = match st.overview {
        Some((g, rolls)) => if g == game_id {
            if seven {
                (Some((g, Seq::empty())), Seq::empty(), None)
            } else {
                (Some((g, rolls.push(value))), rolls.push(value), Some(rolls.len() as int))
            }
        } else {
            (st.overview, Seq::empty(), None)
        },
        None => if !seven && st.last_seen == Some(game_id) {
            (None, st.shared.push(value), Some(st.shared.len() as int))
        } else if seven {
            (None, Seq::empty(), None)
        } else {
            (None, seq![value], Some(0))
        },
    };
    RollTrackingModel {
        overview,
        shared,
        last_seen: Some(game_id),
        pending: if seven {
            st.pending.filter(|p: PendingRoll| p.game_id > game_id)
        } else {
            match index {
                Some(k) => st.pending.push(PendingRoll { game_id, index: k as usize, roll: value }),
                None => st.pending,
            }
        },
    }
}

/// Keeps the pending rolls of games after `game_id`, in order.
fn keep_later_games(pending: &Vec<PendingRoll>, game_id: u32) -> (r: Vec<PendingRoll>)
    ensures
        r@ == pending@.filter(|p: PendingRoll| p.game_id > game_id),
{
    let ghost pred = |p: PendingRoll| p.game_id > game_id;
    let mut kept: Vec<PendingRoll> = Vec::new();
    let mut i: usize = 0;
    while i < pending.len()
        invariant
            i <= pending@.len(),
            pred == (|p: PendingRoll| p.game_id > game_id),
            kept@ == pending@.take(i as int).filter(pred),
        decreases pending@.len() - i,
    {
        let p = pending[i];
        proof {
            reveal_with_fuel(Seq::filter, 1);
            assert(pending@.take(i + 1).drop_last() =~= pending@.take(i as int));
        }
        if p.game_id > game_id {
            kept.push(p);
        }
        i = i + 1;
    }
    proof {
        assert(pending@.take(pending@.len() as int) =~= pending@);
    }
    kept
}

impl RollTracking {
    /// Records a roll the client saw on chain; returns whether it was a `Seven`.
    pub fn record_roll(&mut self, game_id: u32, value: Roll) -> (seven: bool)
        ensures
            seven == (value == Roll::Seven),
            final(self)@ == after_roll(old(self)@, game_id, value),
    {
        let seven = value == Roll::Seven;
        let mut index: Option<usize> = None;
        match self.overview.take() {
            Some((g, mut rolls)) => {
                if g == game_id {
                    if seven {
                        rolls.clear();
                        self.shared_last_roll_history = Vec::new();
                    } else {
                        index = Some(rolls.len());
                        rolls.push(value);
                        self.shared_last_roll_history = copy_vec(&rolls);
                    }
                } else {
                    self.shared_last_roll_history.clear();
                }
                self.overview = Some((g, rolls));
            },
            None => {
                if !seven && self.last_seen_game_id == Some(game_id) {
                    index = Some(self.shared_last_roll_history.len());
                    self.shared_last_roll_history.push(value);
                } else {
                    self.shared_last_roll_history.clear();
                    if !seven {
                        index = Some(0);
                        self.shared_last_roll_history.push(value);
                    }
                }
            },
        }
        self.last_seen_game_id = Some(game_id);
        if seven {
            self.pending_rolls = keep_later_games(&self.pending_rolls, game_id);
        } else if let Some(k) = index {
            self.pending_rolls.push(PendingRoll { game_id, index: k, roll: value });
        }
        proof {
            let a = after_roll(old(self)@, game_id, value);
            assert(self@.shared =~= a.shared);
            assert(self@.pending =~= a.pending);
            assert(self@.overview == a.overview);
        }
        seven
    }
}

/// `a` comes no later than `b`: by game, then by position in the game.
pub open spec fn pending_le(a: PendingRoll, b: PendingRoll) -> bool {
    a.game_id < b.game_id || (a.game_id == b.game_id && a.index <= b.index)
}

/// `x` placed into a sorted list after every element that comes no later than it.
pub open spec fn insert_stable(s: Seq<PendingRoll>, x: PendingRoll) -> Seq<PendingRoll>
    decreases s.len(),
{
    if s.len() == 0 {
        seq![x]
    } else if pending_le(s.last(), x) {
        s.push(x)
    } else {
        insert_stable(s.drop_last(), x).push(s.last())
    }
}

/// The pending rolls ordered by game and position; rolls with the same game and position
/// keep their order.
pub open spec fn stable_sorted(s: Seq<PendingRoll>) -> Seq<PendingRoll>
    decreases s.len(),
{
    if s.len() == 0 {
        Seq::empty()
    } else {
        insert_stable(stable_sorted(s.drop_last()), s.last())
    }
}

/// One pending roll laid over the overview's rolls of game `game`: a roll of an earlier
/// game is dropped; one of a later game is kept; one already reported is dropped; one that
/// comes next is appended and kept; one after a gap is kept.
pub open spec fn applied(rolls: Seq<Roll>, still: Seq<PendingRoll>, game: u32, p: PendingRoll) -> (Seq<Roll>, Seq<PendingRoll>) {
    if p.game_id < game {
        (rolls, still)
    } else if p.game_id > game {
        (rolls, still.push(p))
    } else if rolls.len() > p.index {
        (rolls, still)
    } else if rolls.len() == p.index {
        (rolls.push(p.roll), still.push(p))
    } else {
        (rolls, still.push(p))
    }
}

/// The pending rolls laid over the overview's rolls one after the other: the rolls shown
/// and the rolls still pending.
pub open spec fn apply_all(rolls: Seq<Roll>, game: u32, ps: Seq<PendingRoll>) -> (Seq<Roll>, Seq<PendingRoll>)
    decreases ps.len(),
{
    if ps.len() == 0 {
        (rolls, Seq::empty())
    } else {
        let (r, st) = apply_all(rolls, game, ps.drop_last());
        applied(r, st, game, ps.last())
    }
}

proof fn lemma_insert_stable_at(s: Seq<PendingRoll>, x: PendingRoll, pos: int)
    requires
        0 <= pos <= s.len(),
        forall|j: int| pos <= j < s.len() ==> !pending_le(#[trigger] s[j], x),
        pos == 0 || pending_le(s[pos - 1], x),
    ensures
        insert_stable(s, x) == s.take(pos).push(x) + s.skip(pos),
    decreases s.len(),
{
    if s.len() == 0 {
        assert(s.take(pos).push(x) + s.skip(pos) =~= seq![x]);
    } else if pos == s.len() {
        assert(s.take(pos).push(x) + s.skip(pos) =~= s.push(x));
    } else {
        let init = s.drop_last();
        assert(!pending_le(s[s.len() - 1], x));
        assert forall|j: int| pos <= j < init.len() implies !pending_le(#[trigger] init[j], x) by {
            assert(init[j] == s[j]);
        }
        if pos > 0 {
            assert(init[pos - 1] == s[pos - 1]);
        }
        lemma_insert_stable_at(init, x, pos);
        assert((init.take(pos).push(x) + init.skip(pos)).push(s.last()) =~= s.take(pos).push(x) + s.skip(pos));
    }
}

/// Sorts pending rolls by game and position, keeping the order of equal ones.
fn sort_pending(pending: &Vec<PendingRoll>) -> (r: Vec<PendingRoll>)
    ensures
        r@ == stable_sorted(pending@),
{
    let mut sorted: Vec<PendingRoll> = Vec::new();
    let mut i: usize = 0;
    while i < pending.len()
        invariant
            i <= pending@.len(),
            sorted@ == stable_sorted(pending@.take(i as int)),
        decreases pending@.len() - i,
    {
        let x = pending[i];
        let mut pos: usize = sorted.len();
        while pos > 0 && !(sorted[pos - 1].game_id < x.game_id || (sorted[pos - 1].game_id == x.game_id
            && sorted[pos - 1].index <= x.index))
            invariant
                pos <= sorted@.len(),
                forall|j: int| pos <= j < sorted@.len() ==> !pending_le(#[trigger] sorted@[j], x),
            decreases pos,
        {
            pos = pos - 1;
        }
        proof {
            lemma_insert_stable_at(sorted@, x, pos as int);
            assert(pending@.take(i + 1).drop_last() =~= pending@.take(i as int));
        }
        sorted.insert(pos, x);
        proof {
            assert(sorted@ =~= stable_sorted(pending@.take(i + 1)));
        }
        i = i + 1;
    }
    proof {
        assert(pending@.take(pending@.len() as int) =~= pending@);
    }
    sorted
}

/// Pending rolls in order of game and position.
pub open spec fn pending_sorted(s: Seq<PendingRoll>) -> bool {
    forall|i: int, j: int| 0 <= i < j < s.len() ==> pending_le(#[trigger] s[i], #[trigger] s[j])
}

/// Every pending roll of `t` is one of `s`.
pub open spec fn drawn_from(t: Seq<PendingRoll>, s: Seq<PendingRoll>) -> bool {
    forall|i: int| #![trigger t[i]] 0 <= i < t.len() ==> exists|j: int| 0 <= j < s.len() && t[i] == #[trigger] s[j]
}

proof fn lemma_insert_stable_sorted(s: Seq<PendingRoll>, x: PendingRoll)
    requires
        pending_sorted(s),
    ensures
        pending_sorted(insert_stable(s, x)),
        insert_stable(s, x).len() == s.len() + 1,
        forall|i: int|
            0 <= i < insert_stable(s, x).len() ==> #[trigger] insert_stable(s, x)[i] == x || exists|j: int|
                0 <= j < s.len() && s[j] == insert_stable(s, x)[i],
    decreases s.len(),
{
    if s.len() == 0 {
    } else if pending_le(s.last(), x) {
        let t = s.push(x);
        assert forall|i: int, j: int| 0 <= i < j < t.len() implies pending_le(#[trigger] t[i], #[trigger] t[j]) by {
            if j == s.len() {
                if i < s.len() - 1 {
                    assert(pending_le(s[i], s[s.len() - 1]));
                }
            }
        }
        assert forall|i: int| 0 <= i < t.len() implies #[trigger] t[i] == x || exists|j: int|
            0 <= j < s.len() && s[j] == t[i] by {
            if i < s.len() {
                assert(s[i] == t[i]);
            }
        }
    } else {
        let init = s.drop_last();
        assert(pending_sorted(init)) by {
            assert forall|i: int, j: int| 0 <= i < j < init.len() implies pending_le(#[trigger] init[i], #[trigger] init[j]) by {
                assert(init[i] == s[i] && init[j] == s[j]);
            }
        }
        lemma_insert_stable_sorted(init, x);
        let u = insert_stable(init, x);
        let t = u.push(s.last());
        assert forall|i: int, j: int| 0 <= i < j < t.len() implies pending_le(#[trigger] t[i], #[trigger] t[j]) by {
            if j == u.len() {
                if u[i] != x {
                    let k = choose|k: int| 0 <= k < init.len() && #[trigger] init[k] == u[i];
                    assert(init[k] == s[k]);
                    assert(pending_le(s[k], s[s.len() - 1]));
                }
            }
        }
        assert forall|i: int| 0 <= i < t.len() implies #[trigger] t[i] == x || exists|j: int|
            0 <= j < s.len() && s[j] == t[i] by {
            if i == u.len() {
                assert(s[s.len() - 1] == t[i]);
            } else if u[i] != x {
                let k = choose|k: int| 0 <= k < init.len() && #[trigger] init[k] == u[i];
                assert(s[k] == t[i]);
            }
        }
    }
}

proof fn lemma_stable_sorted(s: Seq<PendingRoll>)
    ensures
        pending_sorted(stable_sorted(s)),
        stable_sorted(s).len() == s.len(),
        drawn_from(stable_sorted(s), s),
    decreases s.len(),
{
    if s.len() > 0 {
        let init = s.drop_last();
        lemma_stable_sorted(init);
        let u = stable_sorted(init);
        lemma_insert_stable_sorted(u, s.last());
        let t = stable_sorted(s);
        assert forall|i: int| #![trigger t[i]] 0 <= i < t.len() implies exists|j: int| 0 <= j < s.len() && t[i] == #[trigger] s[j] by {
            if t[i] == s.last() {
                assert(s[s.len() - 1] == t[i]);
            } else {
                let k = choose|k: int| 0 <= k < u.len() && #[trigger] u[k] == t[i];
                let m = choose|m: int| 0 <= m < init.len() && u[k] == #[trigger] init[m];
                assert(s[m] == t[i]);
            }
        }
    }
}

/// No pending roll of game `game` sits right at the end of the rolls.
pub open spec fn none_at_end(rolls: Seq<Roll>, game: u32, s: Seq<PendingRoll>) -> bool {
    forall|i: int| 0 <= i < s.len() ==> (#[trigger] s[i]).game_id != game || s[i].index != rolls.len()
}

proof fn lemma_apply_prefix(rolls: Seq<Roll>, game: u32, ps: Seq<PendingRoll>, k: int)
    requires
        pending_sorted(ps),
        0 <= k <= ps.len(),
    ensures
        drawn_from(apply_all(rolls, game, ps.take(k)).1, ps.take(k)),
        none_at_end(apply_all(rolls, game, ps.take(k)).0, game, apply_all(rolls, game, ps.take(k)).1),
    decreases k,
{
    if k == 0 {
        assert(ps.take(0) =~= Seq::<PendingRoll>::empty());
    } else {
        lemma_apply_prefix(rolls, game, ps, k - 1);
        assert(ps.take(k).drop_last() =~= ps.take(k - 1));
        let (r, st) = apply_all(rolls, game, ps.take(k - 1));
        let q = ps[k - 1];
        assert(ps.take(k).last() == q);
        let (r2, st2) = apply_all(rolls, game, ps.take(k));
        assert((r2, st2) == applied(r, st, game, q));
        assert forall|i: int| #![trigger st2[i]] 0 <= i < st2.len() implies exists|j: int| 0 <= j < ps.take(k).len() && st2[i]
            == #[trigger] ps.take(k)[j] by {
            if i < st.len() && st2[i] == st[i] {
                let j = choose|j: int| 0 <= j < ps.take(k - 1).len() && st[i] == #[trigger] ps.take(k - 1)[j];
                assert(ps.take(k)[j] == ps.take(k - 1)[j]);
            } else {
                assert(ps.take(k)[k - 1] == q);
            }
        }
        assert forall|i: int| 0 <= i < st2.len() implies (#[trigger] st2[i]).game_id != game || st2[i].index != r2.len() by {
            if q.game_id == game && r.len() == q.index && i < st.len() {
                let p = st[i];
                assert(st2[i] == p);
                let j = choose|j: int| 0 <= j < ps.take(k - 1).len() && st[i] == #[trigger] ps.take(k - 1)[j];
                assert(ps[j] == p);
                assert(pending_le(ps[j], ps[k - 1]));
            }
        }
    }
}

proof fn lemma_no_append(rolls: Seq<Roll>, game: u32, s: Seq<PendingRoll>)
    requires
        none_at_end(rolls, game, s),
    ensures
        apply_all(rolls, game, s).0 == rolls,
    decreases s.len(),
{
    if s.len() > 0 {
        let init = s.drop_last();
        assert(none_at_end(rolls, game, init)) by {
            assert forall|i: int| 0 <= i < init.len() implies (#[trigger] init[i]).game_id != game || init[i].index
                != rolls.len() by {
                assert(init[i] == s[i]);
            }
        }
        lemma_no_append(rolls, game, init);
        assert(s[s.len() - 1] == s.last());
    }
}

/// Laying the still-pending rolls over the rolls they already patched adds nothing: an
/// overview patched once is not patched twice.
pub proof fn law_pending_rolls_patch_once(rolls: Seq<Roll>, game: u32, pending: Seq<PendingRoll>)
    ensures
        apply_all(
            apply_all(rolls, game, stable_sorted(pending)).0,
            game,
            stable_sorted(apply_all(rolls, game, stable_sorted(pending)).1),
        ).0 == apply_all(rolls, game, stable_sorted(pending)).0,
{
    let ps = stable_sorted(pending);
    lemma_stable_sorted(pending);
    lemma_apply_prefix(rolls, game, ps, ps.len() as int);
    assert(ps.take(ps.len() as int) =~= ps);
    let (r1, s1) = apply_all(rolls, game, ps);
    lemma_stable_sorted(s1);
    let s2 = stable_sorted(s1);
    assert(none_at_end(r1, game, s2)) by {
        assert forall|i: int| 0 <= i < s2.len() implies (#[trigger] s2[i]).game_id != game || s2[i].index != r1.len() by {
            let j = choose|j: int| 0 <= j < s1.len() && s2[i] == #[trigger] s1[j];
            assert(s1[j].game_id != game || s1[j].index != r1.len());
        }
    }
    lemma_no_append(r1, game, s2);
}

impl RollTracking {
    /// Lays the pending rolls over the rolls of the overview the indexer reported for game
    /// `game_id`, in order of game and position, and keeps those still pending.
    pub fn apply_pending_rolls(&mut self, game_id: u32, rolls: &mut Vec<Roll>)
        ensures
            (final(rolls)@, final(self).pending_rolls@) == apply_all(
                old(rolls)@,
                game_id,
                stable_sorted(old(self).pending_rolls@),
            ),
            final(self).overview@ == old(self).overview@,
            final(self).shared_last_roll_history@ == old(self).shared_last_roll_history@,
            final(self).last_seen_game_id == old(self).last_seen_game_id,
    {
        let pending = sort_pending(&self.pending_rolls);
        let mut still: Vec<PendingRoll> = Vec::new();
        let ghost start = rolls@;
        let mut i: usize = 0;
        while i < pending.len()
            invariant
                i <= pending@.len(),
                (rolls@, still@) == apply_all(start, game_id, pending@.take(i as int)),
            decreases pending@.len() - i,
        {
            let p = pending[i];
            proof {
                assert(pending@.take(i + 1).drop_last() =~= pending@.take(i as int));
            }
            if p.game_id < game_id {
            } else if p.game_id > game_id {
                still.push(p);
            } else if rolls.len() > p.index {
            } else if rolls.len() == p.index {
                rolls.push(p.roll);
                still.push(p);
            } else {
                still.push(p);
            }
            i = i + 1;
        }
        proof {
            assert(pending@.take(pending@.len() as int) =~= pending@);
        }
        self.pending_rolls = still;
    }
}

/// A bet the client placed and the indexer has not reported yet.
#[derive(Clone, Copy, Debug, PartialEq, Eq, Structural)]
pub struct PendingBet {
    pub game_id: u32,
    pub roll: Roll,
    pub bet: Bet,
    pub amount: u64,
    pub roll_index: Option<u32>,
}

/// The entry under which a pending bet shows among the bets on its roll.
pub open spec fn entry_of(p: PendingBet) -> (Bet, u64, u32) {
    (
        p.bet,
        p.amount,
        match p.roll_index {
            Some(i) => i,
            None => 0,
        },
    )
}

/// Two bet entries are the same bet.
pub fn bet_entry_eq(lhs: &(Bet, u64, u32), rhs: &(Bet, u64, u32)) -> (r: bool)
    ensures
        r == (*lhs == *rhs),
{
    lhs.1 == rhs.1 && lhs.2 == rhs.2 && lhs.0 == rhs.0
}

/// The entries without the first one equal to `x`, if any.
pub open spec fn without_first(s: Seq<(Bet, u64, u32)>, x: (Bet, u64, u32)) -> Seq<(Bet, u64, u32)>
    decreases s.len(),
{
    if s.len() == 0 {
        s
    } else if s[0] == x {
        s.drop_first()
    } else {
        seq![s[0]] + without_first(s.drop_first(), x)
    }
}

/// The entries without, for each known entry in turn, the first entry equal to it.
pub open spec fn without_known(pool: Seq<(Bet, u64, u32)>, known: Seq<(Bet, u64, u32)>) -> Seq<(Bet, u64, u32)>
    decreases known.len(),
{
    if known.len() == 0 {
        pool
    } else {
        without_first(without_known(pool, known.drop_last()), known.last())
    }
}

proof fn lemma_without_first_split(s: Seq<(Bet, u64, u32)>, x: (Bet, u64, u32), j: int)
    requires
        0 <= j <= s.len(),
        forall|k: int| 0 <= k < j ==> s[k] != x,
    ensures
        without_first(s, x) == s.take(j) + without_first(s.skip(j), x),
    decreases j,
{
    if j == 0 {
        assert(s.skip(0) =~= s);
        assert(s.take(0) + without_first(s, x) =~= without_first(s, x));
    } else {
        let t = s.drop_first();
        assert forall|k: int| 0 <= k < j - 1 implies t[k] != x by {
            assert(t[k] == s[k + 1]);
        }
        lemma_without_first_split(t, x, j - 1);
        assert(t.skip(j - 1) =~= s.skip(j));
        assert(seq![s[0]] + t.take(j - 1) =~= s.take(j));
    }
}

/// Removes from `pool` the first entry equal to `x`, if any.
fn remove_first(pool: &mut Vec<(Bet, u64, u32)>, x: &(Bet, u64, u32)) -> (found: bool)
    ensures
        final(pool)@ == without_first(old(pool)@, *x),
        found == old(pool)@.contains(*x),
{
    let mut j: usize = 0;
    while j < pool.len()
        invariant
            j <= pool@.len(),
            pool@ == old(pool)@,
            forall|k: int| 0 <= k < j ==> pool@[k] != *x,
        decreases pool@.len() - j,
    {
        if bet_entry_eq(&pool[j], x) {
            proof {
                lemma_without_first_split(pool@, *x, j as int);
                assert(pool@.skip(j as int)[0] == *x);
                assert(pool@.take(j as int) + pool@.skip(j as int).drop_first() =~= pool@.remove(j as int));
            }
            pool.remove(j);
            return true;
        }
        j = j + 1;
    }
    proof {
        lemma_without_first_split(pool@, *x, j as int);
        assert(pool@.skip(j as int) =~= Seq::<(Bet, u64, u32)>::empty());
        assert(pool@.take(j as int) =~= pool@);
    }
    false
}

/// Removes from `pool`, for each known entry in turn, the first entry equal to it.
pub fn remove_known_bets(pool: &mut Vec<(Bet, u64, u32)>, known: &Vec<(Bet, u64, u32)>)
    ensures
        final(pool)@ == without_known(old(pool)@, known@),
{
    let mut i: usize = 0;
    while i < known.len()
        invariant
            i <= known@.len(),
            pool@ == without_known(old(pool)@, known@.take(i as int)),
        decreases known@.len() - i,
    {
        proof {
            assert(known@.take(i + 1).drop_last() =~= known@.take(i as int));
        }
        let _ = remove_first(pool, &known[i]);
        i = i + 1;
    }
    proof {
        assert(known@.take(known@.len() as int) =~= known@);
    }
}

/// The position of the first row for `roll`, or -1.
pub open spec fn row_pos(rows: Seq<(Roll, Seq<(Bet, u64, u32)>)>, roll: Roll) -> int
    decreases rows.len(),
{
    if rows.len() == 0 {
        -1
    } else if rows[0].0 == roll {
        0
    } else {
        let k = row_pos(rows.drop_first(), roll);
        if k < 0 {
            -1
        } else {
            k + 1
        }
    }
}

proof fn lemma_row_pos(rows: Seq<(Roll, Seq<(Bet, u64, u32)>)>, roll: Roll, j: int)
    requires
        0 <= j <= rows.len(),
        forall|k: int| 0 <= k < j ==> rows[k].0 != roll,
    ensures
        j < rows.len() && rows[j].0 == roll ==> row_pos(rows, roll) == j,
        j == rows.len() ==> row_pos(rows, roll) == -1,
        -1 <= row_pos(rows, roll) < rows.len(),
        row_pos(rows, roll) >= 0 ==> rows[row_pos(rows, roll)].0 == roll,
    decreases j,
{
    lemma_row_pos_range(rows, roll);
    if j > 0 {
        let t = rows.drop_first();
        assert forall|k: int| 0 <= k < j - 1 implies t[k].0 != roll by {
            assert(t[k] == rows[k + 1]);
        }
        lemma_row_pos(t, roll, j - 1);
        if j < rows.len() {
            assert(t[j - 1] == rows[j]);
        }
    }
}

proof fn lemma_row_pos_range(rows: Seq<(Roll, Seq<(Bet, u64, u32)>)>, roll: Roll)
    ensures
        -1 <= row_pos(rows, roll) < rows.len(),
        row_pos(rows, roll) >= 0 ==> rows[row_pos(rows, roll)].0 == roll,
    decreases rows.len(),
{
    if rows.len() > 0 && rows[0].0 != roll {
        let t = rows.drop_first();
        lemma_row_pos_range(t, roll);
        if row_pos(t, roll) >= 0 {
            assert(t[row_pos(t, roll)] == rows[row_pos(t, roll) + 1]);
        }
    }
}

/// The first row for `roll`, found in the rows.
fn find_row(rows: &Vec<(Roll, Vec<(Bet, u64, u32)>)>, roll: Roll) -> (r: Option<usize>)
    ensures
        match r {
            Some(i) => i == row_pos(rows_view(rows@), roll) && i < rows@.len(),
            None => row_pos(rows_view(rows@), roll) == -1,
        },
{
    let ghost view = rows_view(rows@);
    let mut j: usize = 0;
    while j < rows.len()
        invariant
            j <= rows@.len(),
            view == rows_view(rows@),
            forall|k: int| 0 <= k < j ==> view[k].0 != roll,
        decreases rows@.len() - j,
    {
        if rows[j].0 == roll {
            proof {
                lemma_row_pos(view, roll, j as int);
            }
            return Some(j);
        }
        j = j + 1;
    }
    proof {
        lemma_row_pos(view, roll, j as int);
    }
    None
}

/// The rows with a pending bet's entry shown: on the first row for its roll, or on a new
/// row for that roll.
pub open spec fn overlaid(rows: Seq<(Roll, Seq<(Bet, u64, u32)>)>, p: PendingBet) -> Seq<(Roll, Seq<(Bet, u64, u32)>)> {
    let i = row_pos(rows, p.roll);
    if i >= 0 {
        rows.update(i, (rows[i].0, rows[i].1.push(entry_of(p))))
    } else {
        rows.push((p.roll, seq![entry_of(p)]))
    }
}

/// The rows with the pending bets of game `game` shown, in order.
pub open spec fn overlay_all(rows: Seq<(Roll, Seq<(Bet, u64, u32)>)>, pending: Seq<PendingBet>, game: u32) -> Seq<
    (Roll, Seq<(Bet, u64, u32)>),
>
    decreases pending.len(),
{
    if pending.len() == 0 {
        rows
    } else if pending.last().game_id == game {
        overlaid(overlay_all(rows, pending.drop_last(), game), pending.last())
    } else {
        overlay_all(rows, pending.drop_last(), game)
    }
}

/// Shows the pending bets of the current game among the bets by roll.
pub fn overlay_pending_bets(pending: &Vec<PendingBet>, current_game_id: u32, per_roll_bets: &mut Vec<(Roll, Vec<(Bet, u64, u32)>)>)
    ensures
        rows_view(final(per_roll_bets)@) == overlay_all(rows_view(old(per_roll_bets)@), pending@, current_game_id),
{
    let mut i: usize = 0;
    while i < pending.len()
        invariant
            i <= pending@.len(),
            rows_view(per_roll_bets@) == overlay_all(
                rows_view(old(per_roll_bets)@),
                pending@.take(i as int),
                current_game_id,
            ),
        decreases pending@.len() - i,
    {
        let p = pending[i];
        proof {
            assert(pending@.take(i + 1).drop_last() =~= pending@.take(i as int));
        }
        if p.game_id == current_game_id {
            let entry = (p.bet, p.amount, match p.roll_index {
                Some(x) => x,
                None => 0,
            });
            let ghost before = rows_view(per_roll_bets@);
            match find_row(per_roll_bets, p.roll) {
                Some(j) => {
                    let roll = per_roll_bets[j].0;
                    let mut bets = copy_vec(&per_roll_bets[j].1);
                    bets.push(entry);
                    per_roll_bets.set(j, (roll, bets));
                    proof {
                        assert(rows_view(per_roll_bets@) =~= overlaid(before, p));
                    }
                },
                None => {
                    let mut bets: Vec<(Bet, u64, u32)> = Vec::new();
                    bets.push(entry);
                    per_roll_bets.push((p.roll, bets));
                    proof {
                        assert(rows_view(per_roll_bets@) =~= overlaid(before, p));
                    }
                },
            }
        }
        i = i + 1;
    }
    proof {
        assert(pending@.take(pending@.len() as int) =~= pending@);
    }
}

/// One pending bet checked against the account's reported bets: one of an earlier game is
/// dropped; one of a later game is kept; one of the current game is dropped, using up the
/// reported entry, when the first row for its roll reports it, and kept otherwise.
pub open spec fn reconcile_step(
    rows: Seq<(Roll, Seq<(Bet, u64, u32)>)>,
    kept: Seq<PendingBet>,
    current: u32,
    p: PendingBet,
) -> (Seq<(Roll, Seq<(Bet, u64, u32)>)>, Seq<PendingBet>) {
    if p.game_id < current {
        (rows, kept)
    } else if p.game_id > current {
        (rows, kept.push(p))
    } else {
        let i = row_pos(rows, p.roll);
        if i >= 0 && rows[i].1.contains(entry_of(p)) {
            (rows.update(i, (rows[i].0, without_first(rows[i].1, entry_of(p)))), kept)
        } else {
            (rows, kept.push(p))
        }
    }
}

/// The pending bets checked in order against the account's reported bets.
pub open spec fn reconcile_all(
    rows: Seq<(Roll, Seq<(Bet, u64, u32)>)>,
    pending: Seq<PendingBet>,
    current: u32,
) -> (Seq<(Roll, Seq<(Bet, u64, u32)>)>, Seq<PendingBet>)
    decreases pending.len(),
{
    if pending.len() == 0 {
        (rows, Seq::empty())
    } else {
        let (r, k) = reconcile_all(rows, pending.drop_last(), current);
        reconcile_step(r, k, current, pending.last())
    }
}

/// The bets still pending once the account's snapshot is known: none without a current
/// game; all of them while the account is unknown; else those it does not report.
pub open spec fn reconciled(
    pending: Seq<PendingBet>,
    current: Option<u32>,
    rows: Option<Seq<(Roll, Seq<(Bet, u64, u32)>)>>,
) -> Seq<PendingBet> {
    match current {
        None => Seq::empty(),
        Some(c) => match rows {
            None => pending,
            Some(r) => reconcile_all(r, pending, c).1,
        },
    }
}

/// Copies bets by roll.
pub(crate) fn copy_rows(rows: &Vec<(Roll, Vec<(Bet, u64, u32)>)>) -> (r: Vec<(Roll, Vec<(Bet, u64, u32)>)>)
    ensures
        rows_view(r@) == rows_view(rows@),
{
    let mut out: Vec<(Roll, Vec<(Bet, u64, u32)>)> = Vec::new();
    let mut i: usize = 0;
    while i < rows.len()
        invariant
            i <= rows@.len(),
            out@.len() == i,
            rows_view(out@) == rows_view(rows@).take(i as int),
        decreases rows@.len() - i,
    {
        let ghost before = out@;
        let entries = copy_vec(&rows[i].1);
        out.push((rows[i].0, entries));
        proof {
            assert forall|k: int| 0 <= k <= i implies #[trigger] rows_view(out@)[k] == rows_view(rows@)[k] by {
                if k < i {
                    assert(out@[k] == before[k]);
                    assert(rows_view(before)[k] == rows_view(rows@).take(i as int)[k]);
                }
            }
            assert(rows_view(out@) =~= rows_view(rows@).take(i + 1));
        }
        i = i + 1;
    }
    proof {
        assert(rows_view(rows@).take(rows@.len() as int) =~= rows_view(rows@));
    }
    out
}

/// Drops the pending bets that the account's snapshot now reports.
pub fn reconcile_pending_bets(
    pending: &Vec<PendingBet>,
    current_game_id: Option<u32>,
    account_rows: Option<&Vec<(Roll, Vec<(Bet, u64, u32)>)>>,
) -> (r: Vec<PendingBet>)
    ensures
        r@ == reconciled(
            pending@,
            current_game_id,
            match account_rows {
                Some(rows) => Some(rows_view(rows@)),
                None => None,
            },
        ),
{
    let current = match current_game_id {
        Some(c) => c,
        None => return Vec::new(),
    };
    let rows = match account_rows {
        Some(rows) => rows,
        None => return copy_vec(pending),
    };
    let mut remaining = copy_rows(rows);
    let mut kept: Vec<PendingBet> = Vec::new();
    let mut i: usize = 0;
    while i < pending.len()
        invariant
            i <= pending@.len(),
            (rows_view(remaining@), kept@) == reconcile_all(rows_view(rows@), pending@.take(i as int), current),
        decreases pending@.len() - i,
    {
        let p = pending[i];
        proof {
            assert(pending@.take(i + 1).drop_last() =~= pending@.take(i as int));
        }
        let ghost before = rows_view(remaining@);
        if p.game_id < current {
        } else if p.game_id > current {
            kept.push(p);
        } else {
            let target = (p.bet, p.amount, match p.roll_index {
                Some(x) => x,
                None => 0,
            });
            let mut matched = false;
            match find_row(&remaining, p.roll) {
                Some(j) => {
                    let roll = remaining[j].0;
                    let mut entries = copy_vec(&remaining[j].1);
                    matched = remove_first(&mut entries, &target);
                    if matched {
                        remaining.set(j, (roll, entries));
                        proof {
                            assert(rows_view(remaining@) =~= before.update(
                                j as int,
                                (before[j as int].0, without_first(before[j as int].1, entry_of(p))),
                            ));
                        }
                    }
                },
                None => {},
            }
            if !matched {
                kept.push(p);
            }
        }
        i = i + 1;
    }
    proof {
        assert(pending@.take(pending@.len() as int) =~= pending@);
    }
    kept
}

/// The entries of the pending bets of game `game` on `roll`, in order.
pub open spec fn pending_entries(pending: Seq<PendingBet>, game: u32, roll: Roll) -> Seq<(Bet, u64, u32)>
    decreases pending.len(),
{
    if pending.len() == 0 {
        Seq::empty()
    } else if pending.last().game_id == game && pending.last().roll == roll {
        pending_entries(pending.drop_last(), game, roll).push(entry_of(pending.last()))
    } else {
        pending_entries(pending.drop_last(), game, roll)
    }
}

/// The pending bets for bets on `roll` of game `game`.
pub open spec fn as_pending(entries: Seq<(Bet, u64, u32)>, game: u32, roll: Roll) -> Seq<PendingBet> {
    entries.map_values(
        |e: (Bet, u64, u32)| PendingBet { game_id: game, roll, bet: e.0, amount: e.1, roll_index: Some(e.2) },
    )
}

/// The pending bets after the client placed bets on `roll` and read back `latest_bets`:
/// the bets that neither the account's snapshot nor the pending list already holds become
/// pending in the current game; nothing changes without a current game.
pub open spec fn with_new_pending(
    pending: Seq<PendingBet>,
    current: Option<u32>,
    rows: Option<Seq<(Roll, Seq<(Bet, u64, u32)>)>>,
    roll: Roll,
    latest: Seq<(Bet, u64, u32)>,
) -> Seq<PendingBet> {
    match current {
        None => pending,
        Some(c) => {
            let known = match rows {
                Some(r) => bets_on(r, roll),
                None => Seq::empty(),
            };
            let unmatched = without_known(without_known(latest, known), pending_entries(pending, c, roll));
            pending + as_pending(unmatched, c, roll)
        },
    }
}

/// Records as pending the bets on `roll` that are not yet known.
pub fn record_new_pending_bets(
    pending: &mut Vec<PendingBet>,
    current_game_id: Option<u32>,
    account_rows: Option<&Vec<(Roll, Vec<(Bet, u64, u32)>)>>,
    roll: Roll,
    latest_bets: Vec<(Bet, u64, u32)>,
)
    ensures
        final(pending)@ == with_new_pending(
            old(pending)@,
            current_game_id,
            match account_rows {
                Some(rows) => Some(rows_view(rows@)),
                None => None,
            },
            roll,
            latest_bets@,
        ),
{
    let current = match current_game_id {
        Some(c) => c,
        None => return,
    };
    let mut unmatched = latest_bets;
    if let Some(rows) = account_rows {
        if let Some(known) = find_bets_on(rows, &roll) {
            remove_known_bets(&mut unmatched, known);
        } else {
            proof {
                assert(without_known(unmatched@, Seq::empty()) == unmatched@);
            }
        }
    }
    let mut pending_known: Vec<(Bet, u64, u32)> = Vec::new();
    let mut i: usize = 0;
    while i < pending.len()
        invariant
            i <= pending@.len(),
            pending@ == old(pending)@,
            pending_known@ == pending_entries(pending@.take(i as int), current, roll),
        decreases pending@.len() - i,
    {
        let p = pending[i];
        proof {
            assert(pending@.take(i + 1).drop_last() =~= pending@.take(i as int));
        }
        if p.game_id == current && p.roll == roll {
            pending_known.push((p.bet, p.amount, match p.roll_index {
                Some(x) => x,
                None => 0,
            }));
        }
        i = i + 1;
    }
    proof {
        assert(pending@.take(pending@.len() as int) =~= pending@);
    }
    remove_known_bets(&mut unmatched, &pending_known);
    let ghost base = pending@;
    let mut k: usize = 0;
    while k < unmatched.len()
        invariant
            k <= unmatched@.len(),
            pending@ == base + as_pending(unmatched@.take(k as int), current, roll),
        decreases unmatched@.len() - k,
    {
        let (bet, amount, roll_index) = unmatched[k];
        pending.push(PendingBet { game_id: current, roll, bet, amount, roll_index: Some(roll_index) });
        proof {
            assert(pending@ =~= base + as_pending(unmatched@.take(k + 1), current, roll));
        }
        k = k + 1;
    }
    proof {
        assert(unmatched@.take(unmatched@.len() as int) =~= unmatched@);
    }
}

/// The straps held, in the order of the known asset ids: each asset with a positive
/// balance that fits in a `u64` and a known strap.
pub open spec fn owned_from(ids: Seq<[u8; 32]>, straps: Map<[u8; 32], Strap>, balances: Map<[u8; 32], u128>) -> Seq<
    (Strap, u64),
>
    decreases ids.len(),
{
    if ids.len() == 0 {
        Seq::empty()
    } else {
        let id = ids.last();
        let rest = owned_from(ids.drop_last(), straps, balances);
        if balances.dom().contains(id) && balances[id] != 0 && straps.dom().contains(id) && balances[id]
            <= u64::MAX {
            rest.push((straps[id], balances[id] as u64))
        } else {
            rest
        }
    }
}

/// The straps the wallet holds, from its asset balances and the straps known by asset id.
pub fn build_owned_straps(
    ordered_asset_ids: &Vec<[u8; 32]>,
    strap_info_by_asset: &Table<[u8; 32], Strap>,
    asset_balances: &Table<[u8; 32], u128>,
) -> (owned: Vec<(Strap, u64)>)
    requires
        strap_info_by_asset.wf(),
        asset_balances.wf(),
    ensures
        owned@ == owned_from(ordered_asset_ids@, strap_info_by_asset.map_view(), asset_balances.map_view()),
{
    let mut owned: Vec<(Strap, u64)> = Vec::new();
    let mut i: usize = 0;
    while i < ordered_asset_ids.len()
        invariant
            i <= ordered_asset_ids@.len(),
            strap_info_by_asset.wf(),
            asset_balances.wf(),
            owned@ == owned_from(
                ordered_asset_ids@.take(i as int),
                strap_info_by_asset.map_view(),
                asset_balances.map_view(),
            ),
        decreases ordered_asset_ids@.len() - i,
    {
        let asset_id = ordered_asset_ids[i];
        proof {
            assert(ordered_asset_ids@.take(i + 1).drop_last() =~= ordered_asset_ids@.take(i as int));
        }
        if let Some(balance) = asset_balances.get(&asset_id) {
            if *balance != 0 {
                if let Some(strap) = strap_info_by_asset.get(&asset_id) {
                    if *balance <= u64::MAX as u128 {
                        owned.push((*strap, *balance as u64));
                    }
                }
            }
        }
        i = i + 1;
    }
    proof {
        assert(ordered_asset_ids@.take(ordered_asset_ids@.len() as int) =~= ordered_asset_ids@);
    }
    owned
}

/// The most error messages the client keeps.
pub const MAX_ERRORS: usize = 50;

/// The last `MAX_ERRORS` of a list of messages.
pub open spec fn last_errors(s: Seq<String>) -> Seq<String> {
    if s.len() > MAX_ERRORS {
        s.subrange(s.len() - MAX_ERRORS, s.len() as int)
    } else {
        s
    }
}

/// Appends error messages, keeping the newest `MAX_ERRORS`.
pub fn push_errors(errors: &mut Vec<String>, items: Vec<String>)
    ensures
        final(errors)@ == if items@.len() == 0 {
            old(errors)@
        } else {
            last_errors(old(errors)@ + items@)
        },
{
    if items.len() == 0 {
        return;
    }
    let mut items = items;
    errors.append(&mut items);
    if errors.len() > MAX_ERRORS {
        let drop = errors.len() - MAX_ERRORS;
        let kept = errors.split_off(drop);
        *errors = kept;
    }
}

/// A game the client has seen end: its id, rolls and active modifiers.
#[derive(Clone, Debug, PartialEq, Eq)]
pub struct SharedGame {
    pub game_id: u32,
    pub rolls: Vec<Roll>,
    pub modifiers: Vec<(Roll, Modifier, u32)>,
}

/// A finished game as the client shows it.
#[derive(Clone, Debug, PartialEq, Eq)]
pub struct PreviousGameSummary {
    pub game_id: u32,
    pub cells: Vec<RollCell>,
    pub modifiers: Vec<(Roll, Modifier, u32)>,
    pub rolls: Vec<Roll>,
    pub bets_by_roll: Vec<(Roll, Vec<(Bet, u64, u32)>)>,
    pub claimed: bool,
}

/// A finished game still has something to claim: it is not claimed, it had rolls, and some
/// bet's roll came up at or after the roll at which it was placed.
pub open spec fn claimable(claimed: bool, rolls: Seq<Roll>, rows: Seq<(Roll, Seq<(Bet, u64, u32)>)>) -> bool {
    &&& !claimed
    &&& rolls.len() > 0
    &&& exists|i: int, j: int|
        0 <= i < rows.len() && 0 <= j < rows[i].1.len() && #[trigger] hit_after(
            rows[i].0,
            #[trigger] rows[i].1[j].2,
            rolls,
        )
}

pub fn has_claimable_bets(g: &PreviousGameSummary) -> (r: bool)
    ensures
        r == claimable(g.claimed, g.rolls@, rows_view(g.bets_by_roll@)),
{
    let ghost rows = rows_view(g.bets_by_roll@);
    if g.claimed || g.rolls.len() == 0 {
        return false;
    }
    let mut i: usize = 0;
    while i < g.bets_by_roll.len()
        invariant
            i <= g.bets_by_roll@.len(),
            rows == rows_view(g.bets_by_roll@),
            !g.claimed,
            g.rolls@.len() > 0,
            forall|a: int, b: int| 0 <= a < i && 0 <= b < rows[a].1.len() ==> !hit_after(rows[a].0, rows[a].1[b].2, g.rolls@),
        decreases g.bets_by_roll@.len() - i,
    {
        let roll = g.bets_by_roll[i].0;
        let bets = &g.bets_by_roll[i].1;
        let mut j: usize = 0;
        while j < bets.len()
            invariant
                i < g.bets_by_roll@.len(),
                j <= bets@.len(),
                rows == rows_view(g.bets_by_roll@),
                !g.claimed,
                g.rolls@.len() > 0,
                bets@ == rows[i as int].1,
                roll == rows[i as int].0,
                forall|b: int| 0 <= b < j ==> !hit_after(roll, bets@[b].2, g.rolls@),
            decreases bets@.len() - j,
        {
            if roll_hit_after_bet(&roll, bets[j].2, &g.rolls) {
                proof {
                    assert(hit_after(rows[i as int].0, rows[i as int].1[j as int].2, g.rolls@));
                }
                return true;
            }
            j = j + 1;
        }
        i = i + 1;
    }
    false
}

/// A finished game still has something to claim.
pub open spec fn is_claimable(g: PreviousGameSummary) -> bool {
    claimable(g.claimed, g.rolls@, rows_view(g.bets_by_roll@))
}

/// The position in `games` of each game that still has something to claim, in order.
pub fn claimable_games(games: &Vec<PreviousGameSummary>) -> (r: Vec<usize>)
    ensures
        r@.map_values(|k: usize| games@[k as int]) == games@.filter(|g: PreviousGameSummary| is_claimable(g)),
        forall|k: int| 0 <= k < r@.len() ==> r@[k] < games@.len(),
{
    let ghost pred = |g: PreviousGameSummary| is_claimable(g);
    let mut picked: Vec<usize> = Vec::new();
    let mut i: usize = 0;
    while i < games.len()
        invariant
            i <= games@.len(),
            pred == (|g: PreviousGameSummary| is_claimable(g)),
            picked@.map_values(|k: usize| games@[k as int]) == games@.take(i as int).filter(pred),
            forall|k: int| 0 <= k < picked@.len() ==> picked@[k] < i,
        decreases games@.len() - i,
    {
        proof {
            reveal_with_fuel(Seq::filter, 1);
            assert(games@.take(i + 1).drop_last() =~= games@.take(i as int));
            assert(games@.take(i + 1).last() == games@[i as int]);
        }
        let ghost before = picked@;
        if has_claimable_bets(&games[i]) {
            picked.push(i);
            proof {
                assert(picked@.map_values(|k: usize| games@[k as int]) =~= before.map_values(
                    |k: usize| games@[k as int],
                ).push(games@[i as int]));
            }
        } else {
            assert(picked@ == before);
        }
        i = i + 1;
    }
    proof {
        assert(games@.take(games@.len() as int) =~= games@);
    }
    picked
}

/// The rolls of a finished game as the client records it: its rolls, ending in `Seven`.
pub open spec fn completed(rolls: Seq<Roll>) -> Seq<Roll> {
    if rolls.len() > 0 && rolls.last() == Roll::Seven {
        rolls
    } else {
        rolls.push(Roll::Seven)
    }
}

pub fn completed_rolls(rolls: &Vec<Roll>) -> (r: Vec<Roll>)
    ensures
        r@ == completed(rolls@),
{
    let mut out = copy_vec(rolls);
    let n = out.len();
    if !(n > 0 && out[n - 1] == Roll::Seven) {
        out.push(Roll::Seven);
    }
    out
}

/// No bet was placed on any roll.
pub open spec fn no_bets(rows: Seq<(Roll, Seq<(Bet, u64, u32)>)>) -> bool {
    forall|i: int| 0 <= i < rows.len() ==> (#[trigger] rows[i]).1.len() == 0
}

pub fn all_bets_empty(rows: &Vec<(Roll, Vec<(Bet, u64, u32)>)>) -> (r: bool)
    ensures
        r == no_bets(rows_view(rows@)),
{
    let ghost view = rows_view(rows@);
    let mut i: usize = 0;
    while i < rows.len()
        invariant
            i <= rows@.len(),
            view == rows_view(rows@),
            forall|k: int| 0 <= k < i ==> (#[trigger] view[k]).1.len() == 0,
        decreases rows@.len() - i,
    {
        if rows[i].1.len() > 0 {
            assert(view[i as int].1.len() > 0);
            return false;
        }
        i = i + 1;
    }
    true
}

/// The summary cell of a finished game for `roll`: the chips and the straps staked on the
/// first row of bets for it.
pub fn summary_cell(roll: Roll, rows: &Vec<(Roll, Vec<(Bet, u64, u32)>)>) -> (c: RollCell)
    requires
        chip_sum(bets_on(rows_view(rows@), roll)) <= u64::MAX,
        strap_sum(bets_on(rows_view(rows@), roll)) <= u64::MAX,
    ensures
        c.roll == roll,
        c.chip_total == chip_sum(bets_on(rows_view(rows@), roll)),
        c.strap_total == strap_sum(bets_on(rows_view(rows@), roll)),
        c.straps@.len() == 0,
        c.rewards@.len() == 0,
{
    let mut chip_total: u64 = 0;
    let mut strap_total: u64 = 0;
    match find_bets_on(rows, &roll) {
        Some(bets) => {
            let mut i: usize = 0;
            while i < bets.len()
                invariant
                    i <= bets@.len(),
                    bets@ == bets_on(rows_view(rows@), roll),
                    chip_sum(bets@) <= u64::MAX,
                    strap_sum(bets@) <= u64::MAX,
                    chip_total == chip_sum(bets@.take(i as int)),
                    strap_total == strap_sum(bets@.take(i as int)),
                decreases bets@.len() - i,
            {
                proof {
                    assert(bets@.take(i + 1).drop_last() =~= bets@.take(i as int));
                    lemma_strap_sum_prefix(bets@, i + 1);
                }
                let (bet, amount, _) = bets[i];
                match bet {
                    Bet::Chip => {
                        chip_total = chip_total + amount;
                    },
                    Bet::Strap(_) => {
                        strap_total = strap_total + amount;
                    },
                }
                i = i + 1;
            }
            proof {
                assert(bets@.take(bets@.len() as int) =~= bets@);
            }
        },
        None => {},
    }
    RollCell { roll, chip_total, strap_total, straps: Vec::new(), rewards: Vec::new() }
}

/// The chips bet in a game, over all its rolls.
pub open spec fn game_chip_sum(rows: Seq<(Roll, Seq<(Bet, u64, u32)>)>) -> int
    decreases rows.len(),
{
    if rows.len() == 0 {
        0
    } else {
        game_chip_sum(rows.drop_last()) + chip_sum(rows.last().1)
    }
}

proof fn lemma_game_chip_sum_prefix(rows: Seq<(Roll, Seq<(Bet, u64, u32)>)>, i: int)
    requires
        0 <= i <= rows.len(),
    ensures
        0 <= game_chip_sum(rows.take(i)) <= game_chip_sum(rows),
    decreases rows.len() - i,
{
    if i < rows.len() {
        lemma_game_chip_sum_prefix(rows, i + 1);
        assert(rows.take(i + 1).drop_last() =~= rows.take(i as int));
        lemma_sums_nonneg(rows[i].1);
        assert(rows.take(i + 1).last() == rows[i]);
    } else {
        assert(rows.take(i) =~= rows);
    }
    lemma_game_chip_sum_nonneg(rows.take(i));
}

proof fn lemma_game_chip_sum_nonneg(rows: Seq<(Roll, Seq<(Bet, u64, u32)>)>)
    ensures
        game_chip_sum(rows) >= 0,
    decreases rows.len(),
{
    if rows.len() > 0 {
        lemma_game_chip_sum_nonneg(rows.drop_last());
        lemma_sums_nonneg(rows.last().1);
    }
}

/// The chips the client bet in a game.
pub fn total_chip_bet(rows: &Vec<(Roll, Vec<(Bet, u64, u32)>)>) -> (t: u64)
    requires
        game_chip_sum(rows_view(rows@)) <= u64::MAX,
    ensures
        t == game_chip_sum(rows_view(rows@)),
{
    let ghost view = rows_view(rows@);
    let mut total: u64 = 0;
    let mut i: usize = 0;
    while i < rows.len()
        invariant
            i <= rows@.len(),
            view == rows_view(rows@),
            game_chip_sum(view) <= u64::MAX,
            total == game_chip_sum(view.take(i as int)),
        decreases rows@.len() - i,
    {
        let bets = &rows[i].1;
        proof {
            assert(view.take(i + 1).drop_last() =~= view.take(i as int));
            assert(view.take(i + 1).last() == view[i as int]);
            lemma_game_chip_sum_prefix(view, i + 1);
            lemma_sums_nonneg(bets@);
        }
        let mut j: usize = 0;
        let mut sub: u64 = 0;
        while j < bets.len()
            invariant
                i < rows@.len(),
                bets@ == view[i as int].1,
                j <= bets@.len(),
                total + chip_sum(bets@) <= u64::MAX,
                sub == chip_sum(bets@.take(j as int)),
            decreases bets@.len() - j,
        {
            proof {
                assert(bets@.take(j + 1).drop_last() =~= bets@.take(j as int));
                lemma_strap_sum_prefix(bets@, j + 1);
            }
            if let Bet::Chip = bets[j].0 {
                sub = sub + bets[j].1;
            }
            j = j + 1;
        }
        proof {
            assert(bets@.take(bets@.len() as int) =~= bets@);
        }
        total = total + sub;
        i = i + 1;
    }
    proof {
        assert(view.take(rows@.len() as int) =~= view);
    }
    total
}

/// The chips a claim won and what they make against the chips bet: whether the claim came
/// out even or ahead, and by how much it differs from the bet.
pub open spec fn net_outcome(claimed: u64, bet: u64) -> (bool, u64) {
    if claimed >= bet {
        (true, (claimed - bet) as u64)
    } else {
        (false, (bet - claimed) as u64)
    }
}

pub fn net_chips(claimed_chips: u64, total_chip_bet: u64) -> (r: (bool, u64))
    ensures
        r == net_outcome(claimed_chips, total_chip_bet),
{
    if claimed_chips >= total_chip_bet {
        (true, claimed_chips - total_chip_bet)
    } else {
        (false, total_chip_bet - claimed_chips)
    }
}

/// The chips a claim paid: what the claim's event reports for the player, else the rise of
/// the wallet's chip balance, capped at `u64::MAX`.
pub open spec fn claimed_amount(event_winnings: Option<u64>, pre_balance: u128, post_balance: u128) -> u64 {
    match event_winnings {
        Some(w) => w,
        None => {
            let delta: int = if post_balance >= pre_balance {
                post_balance - pre_balance
            } else {
                0
            };
            if delta > u64::MAX {
                u64::MAX
            } else {
                delta as u64
            }
        },
    }
}

pub fn claimed_chips(event_winnings: Option<u64>, pre_balance: u128, post_balance: u128) -> (c: u64)
    ensures
        c == claimed_amount(event_winnings, pre_balance, post_balance),
{
    match event_winnings {
        Some(w) => w,
        None => {
            let delta = post_balance.saturating_sub(pre_balance);
            if delta > u64::MAX as u128 {
                u64::MAX
            } else {
                delta as u64
            }
        },
    }
}

/// The straps, each once in order of first appearance, whose balances a claim compares:
/// those offered as rewards in the game, then those it levels up.
pub open spec fn distinct_straps(s: Seq<Strap>) -> Seq<Strap>
    decreases s.len(),
{
    if s.len() == 0 {
        Seq::empty()
    } else {
        let rest = distinct_straps(s.drop_last());
        if rest.contains(s.last()) {
            rest
        } else {
            rest.push(s.last())
        }
    }
}

/// Adds a strap to a list unless the list holds it already.
fn push_distinct(out: &mut Vec<Strap>, strap: Strap)
    ensures
        final(out)@ == if old(out)@.contains(strap) {
            old(out)@
        } else {
            old(out)@.push(strap)
        },
{
    let mut j: usize = 0;
    while j < out.len()
        invariant
            j <= out@.len(),
            out@ == old(out)@,
            forall|k: int| 0 <= k < j ==> out@[k] != strap,
        decreases out@.len() - j,
    {
        if out[j] == strap {
            assert(out@[j as int] == strap);
            return;
        }
        j = j + 1;
    }
    out.push(strap);
}

pub fn claim_candidates(strap_list: &Vec<(Roll, Strap, u64)>, upgraded: &Vec<(Roll, Strap)>) -> (c: Vec<Strap>)
    ensures
        c@ == distinct_straps(
            strap_list@.map_values(|e: (Roll, Strap, u64)| e.1) + upgraded@.map_values(|e: (Roll, Strap)| e.1),
        ),
{
    let ghost first = strap_list@.map_values(|e: (Roll, Strap, u64)| e.1);
    let ghost second = upgraded@.map_values(|e: (Roll, Strap)| e.1);
    let mut out: Vec<Strap> = Vec::new();
    let mut i: usize = 0;
    while i < strap_list.len()
        invariant
            i <= strap_list@.len(),
            first == strap_list@.map_values(|e: (Roll, Strap, u64)| e.1),
            out@ == distinct_straps(first.take(i as int)),
        decreases strap_list@.len() - i,
    {
        proof {
            assert(first.take(i + 1).drop_last() =~= first.take(i as int));
        }
        push_distinct(&mut out, strap_list[i].1);
        i = i + 1;
    }
    let mut k: usize = 0;
    assert(first.take(strap_list@.len() as int) + second.take(0) =~= first);
    while k < upgraded.len()
        invariant
            k <= upgraded@.len(),
            first == strap_list@.map_values(|e: (Roll, Strap, u64)| e.1),
            second == upgraded@.map_values(|e: (Roll, Strap)| e.1),
            out@ == distinct_straps(first + second.take(k as int)),
        decreases upgraded@.len() - k,
    {
        proof {
            assert((first + second.take(k + 1)).drop_last() =~= first + second.take(k as int));
            assert((first + second.take(k + 1)).last() == upgraded@[k as int].1);
        }
        push_distinct(&mut out, upgraded[k].1);
        k = k + 1;
    }
    proof {
        assert(second.take(upgraded@.len() as int) =~= second);
    }
    out
}

/// The most finished games the client keeps.
pub const GAME_HISTORY_DEPTH: usize = 10;

/// The games with `game_id`'s rolls and modifiers replaced, or the game appended.
pub open spec fn upserted(games: Seq<(u32, Seq<Roll>, Seq<(Roll, Modifier, u32)>)>, game: (u32, Seq<Roll>, Seq<(Roll, Modifier, u32)>)) -> Seq<
    (u32, Seq<Roll>, Seq<(Roll, Modifier, u32)>),
> {
    if exists|i: int| 0 <= i < games.len() && games[i].0 == game.0 {
        let i = choose|i: int|
            0 <= i < games.len() && games[i].0 == game.0 && forall|j: int| 0 <= j < i ==> games[j].0 != game.0;
        games.update(i, game)
    } else {
        games.push(game)
    }
}

/// Finished games as plain values.
pub open spec fn games_view(games: Seq<SharedGame>) -> Seq<(u32, Seq<Roll>, Seq<(Roll, Modifier, u32)>)> {
    games.map_values(|g: SharedGame| (g.game_id, g.rolls@, g.modifiers@))
}

proof fn lemma_upserted_at(
    view: Seq<(u32, Seq<Roll>, Seq<(Roll, Modifier, u32)>)>,
    entry: (u32, Seq<Roll>, Seq<(Roll, Modifier, u32)>),
    i: int,
)
    requires
        0 <= i < view.len(),
        view[i].0 == entry.0,
        forall|j: int| 0 <= j < i ==> view[j].0 != entry.0,
    ensures
        upserted(view, entry) == view.update(i, entry),
{
    let k = choose|k: int|
        0 <= k < view.len() && view[k].0 == entry.0 && forall|j: int| 0 <= j < k ==> view[j].0 != entry.0;
    assert(0 <= k < view.len() && view[k].0 == entry.0 && forall|j: int| 0 <= j < k ==> view[j].0 != entry.0);
    if k < i {
        assert(view[k].0 != entry.0);
    } else if k > i {
        assert(view[i].0 != entry.0);
    }
}

/// Records the rolls and modifiers of a finished game, replacing what the client held for it.
pub fn upsert_shared_game(games: &mut Vec<SharedGame>, game_id: u32, rolls: Vec<Roll>, modifiers: Vec<(Roll, Modifier, u32)>)
    ensures
        games_view(final(games)@) == upserted(games_view(old(games)@), (game_id, rolls@, modifiers@)),
{
    let ghost view = games_view(games@);
    let ghost entry = (game_id, rolls@, modifiers@);
    let mut i: usize = 0;
    let mut found = false;
    while i < games.len()
        invariant_except_break
            !found,
        invariant
            i <= games@.len(),
            games@ == old(games)@,
            view == games_view(games@),
            forall|j: int| 0 <= j < i ==> view[j].0 != game_id,
        ensures
            found ==> i < games@.len() && view[i as int].0 == game_id,
            !found ==> i == games@.len(),
        decreases games@.len() - i,
    {
        if games[i].game_id == game_id {
            found = true;
            break;
        }
        i = i + 1;
    }
    if found {
        proof {
            lemma_upserted_at(view, entry, i as int);
        }
        games.set(i, SharedGame { game_id, rolls, modifiers });
        proof {
            assert forall|k: int| 0 <= k < view.len() implies #[trigger] games_view(games@)[k] == view.update(
                i as int,
                entry,
            )[k] by {
                if k != i {
                    assert(games@[k] == old(games)@[k]);
                }
            }
            assert(games_view(games@) =~= view.update(i as int, entry));
        }
    } else {
        games.push(SharedGame { game_id, rolls, modifiers });
        proof {
            assert(games_view(games@) =~= view.push(entry));
        }
    }
}

/// `g` placed into a list sorted newest game first, after every game at least as new.
pub open spec fn insert_newest_first(s: Seq<SharedGame>, g: SharedGame) -> Seq<SharedGame>
    decreases s.len(),
{
    if s.len() == 0 {
        seq![g]
    } else if s.last().game_id >= g.game_id {
        s.push(g)
    } else {
        insert_newest_first(s.drop_last(), g).push(s.last())
    }
}

/// The games ordered newest first; games with the same id keep their order.
pub open spec fn newest_first(s: Seq<SharedGame>) -> Seq<SharedGame>
    decreases s.len(),
{
    if s.len() == 0 {
        Seq::empty()
    } else {
        insert_newest_first(newest_first(s.drop_last()), s.last())
    }
}

/// The games the client keeps: the newest `GAME_HISTORY_DEPTH`, newest first.
pub open spec fn kept_history(s: Seq<SharedGame>) -> Seq<SharedGame> {
    let sorted = newest_first(s);
    if sorted.len() > GAME_HISTORY_DEPTH {
        sorted.take(GAME_HISTORY_DEPTH as int)
    } else {
        sorted
    }
}

proof fn lemma_insert_newest_at(s: Seq<SharedGame>, g: SharedGame, pos: int)
    requires
        0 <= pos <= s.len(),
        forall|j: int| pos <= j < s.len() ==> (#[trigger] s[j]).game_id < g.game_id,
        pos == 0 || s[pos - 1].game_id >= g.game_id,
    ensures
        insert_newest_first(s, g) == s.take(pos).push(g) + s.skip(pos),
    decreases s.len(),
{
    if s.len() == 0 {
        assert(s.take(pos).push(g) + s.skip(pos) =~= seq![g]);
    } else if pos == s.len() {
        assert(s.take(pos).push(g) + s.skip(pos) =~= s.push(g));
    } else {
        let init = s.drop_last();
        assert(s[s.len() - 1].game_id < g.game_id);
        assert forall|j: int| pos <= j < init.len() implies (#[trigger] init[j]).game_id < g.game_id by {
            assert(init[j] == s[j]);
        }
        if pos > 0 {
            assert(init[pos - 1] == s[pos - 1]);
        }
        lemma_insert_newest_at(init, g, pos);
        assert((init.take(pos).push(g) + init.skip(pos)).push(s.last()) =~= s.take(pos).push(g) + s.skip(pos));
    }
}

/// Orders the finished games newest first and keeps the newest `GAME_HISTORY_DEPTH`.
pub fn trim_history(games: &mut Vec<SharedGame>)
    ensures
        final(games)@ == kept_history(old(games)@),
{
    let mut rest: Vec<SharedGame> = Vec::new();
    core::mem::swap(&mut rest, games);
    let ghost orig = rest@;
    let n = rest.len();
    let mut sorted: Vec<SharedGame> = Vec::new();
    let mut taken: usize = 0;
    while rest.len() > 0
        invariant
            taken + rest@.len() == n,
            n == orig.len(),
            rest@ == orig.skip(taken as int),
            sorted@ == newest_first(orig.take(taken as int)),
        decreases rest@.len(),
    {
        let g = rest.remove(0);
        assert(g == orig[taken as int]);
        let mut pos: usize = sorted.len();
        while pos > 0 && sorted[pos - 1].game_id < g.game_id
            invariant
                pos <= sorted@.len(),
                forall|j: int| pos <= j < sorted@.len() ==> (#[trigger] sorted@[j]).game_id < g.game_id,
            decreases pos,
        {
            pos = pos - 1;
        }
        proof {
            lemma_insert_newest_at(sorted@, g, pos as int);
            assert(orig.take(taken + 1).drop_last() =~= orig.take(taken as int));
            assert(orig.take(taken + 1).last() == g);
        }
        sorted.insert(pos, g);
        proof {
            assert(rest@ =~= orig.skip(taken + 1));
        }
        taken = taken + 1;
    }
    proof {
        assert(orig.take(n as int) =~= orig);
    }
    sorted.truncate(GAME_HISTORY_DEPTH);
    *games = sorted;
}
/// The rewards of a game with the straps a claim levelled up added: each upgraded strap
/// the rewards do not yet list is appended, on its roll and at its price.
pub open spec fn with_upgrades(rewards: Seq<(Roll, Strap, u64)>, upgraded: Seq<(Roll, Strap)>) -> Seq<(Roll, Strap, u64)>
    decreases upgraded.len(),
{
    if upgraded.len() == 0 {
        rewards
    } else {
        let before = with_upgrades(rewards, upgraded.drop_last());
        let (roll, strap) = upgraded.last();
        if exists|k: int| 0 <= k < before.len() && before[k].1 == strap {
            before
        } else {
            before.push((roll, strap, strap_cost_spec(strap)))
        }
    }
}

/// Lists the straps a claim levelled up among the rewards of the game.
pub fn record_upgrades(rewards: &mut Vec<(Roll, Strap, u64)>, upgraded: &Vec<(Roll, Strap)>)
    ensures
        final(rewards)@ == with_upgrades(old(rewards)@, upgraded@),
{
    let mut i: usize = 0;
    while i < upgraded.len()
        invariant
            i <= upgraded@.len(),
            rewards@ == with_upgrades(old(rewards)@, upgraded@.take(i as int)),
        decreases upgraded@.len() - i,
    {
        let (roll, strap) = upgraded[i];
        proof {
            assert(upgraded@.take(i + 1).drop_last() =~= upgraded@.take(i as int));
        }
        let mut j: usize = 0;
        let mut listed = false;
        while j < rewards.len()
            invariant_except_break
                !listed,
            invariant
                j <= rewards@.len(),
                forall|k: int| 0 <= k < j ==> rewards@[k].1 != strap,
            ensures
                listed ==> j < rewards@.len() && rewards@[j as int].1 == strap,
                !listed ==> forall|k: int| 0 <= k < rewards@.len() ==> rewards@[k].1 != strap,
            decreases rewards@.len() - j,
        {
            if rewards[j].1 == strap {
                listed = true;
                break;
            }
            j = j + 1;
        }
        if !listed {
            let cost = strap_to_cost(&strap);
            rewards.push((roll, strap, cost));
        }
        i = i + 1;
    }
    proof {
        assert(upgraded@.take(upgraded@.len() as int) =~= upgraded@);
    }
}

/// The rolls the board shows for the current game: the overview's; if it has none, those
/// of the previous board of the same game; if still none, those the client tracked for the
/// game.
pub open spec fn shown_rolls(
    overview_rolls: Seq<Roll>,
    game_id: u32,
    previous: Option<(u32, Seq<Roll>)>,
    last_seen: Option<u32>,
    shared: Seq<Roll>,
) -> Seq<Roll> {
    let first = if overview_rolls.len() == 0 && previous is Some && previous.unwrap().0 == game_id
        && previous.unwrap().1.len() > 0 {
        previous.unwrap().1
    } else {
        overview_rolls
    };
    if first.len() == 0 && last_seen == Some(game_id) && shared.len() > 0 {
        shared
    } else {
        first
    }
}

pub fn choose_roll_history(
    overview_rolls: &Vec<Roll>,
    game_id: u32,
    previous: Option<(u32, &Vec<Roll>)>,
    last_seen: Option<u32>,
    shared: &Vec<Roll>,
) -> (r: Vec<Roll>)
    ensures
        r@ == shown_rolls(
            overview_rolls@,
            game_id,
            match previous {
                Some((g, rolls)) => Some((g, rolls@)),
                None => None,
            },
            last_seen,
            shared@,
        ),
{
    let mut history = copy_vec(overview_rolls);
    if history.len() == 0 {
        if let Some((g, rolls)) = previous {
            if g == game_id && rolls.len() > 0 {
                history = copy_vec(rolls);
            }
        }
    }
    if history.len() == 0 && last_seen == Some(game_id) && shared.len() > 0 {
        history = copy_vec(shared);
    }
    history
}

/// Whether a list of game ids holds `game_id`.
pub(crate) fn holds_id(ids: &Vec<u32>, game_id: u32) -> (r: bool)
    ensures
        r == ids@.contains(game_id),
{
    let mut i: usize = 0;
    while i < ids.len()
        invariant
            i <= ids@.len(),
            forall|k: int| 0 <= k < i ==> ids@[k] != game_id,
        decreases ids@.len() - i,
    {
        if ids[i] == game_id {
            assert(ids@[i as int] == game_id);
            return true;
        }
        i = i + 1;
    }
    false
}

/// The earlier games of which the client lacks the record, the modifiers, the rewards or
/// the bets, in ascending order.
pub open spec fn missing_games(
    current_game_id: u32,
    games: Seq<u32>,
    with_modifiers: Seq<u32>,
    with_rewards: Seq<u32>,
    with_bets: Seq<u32>,
) -> Seq<u32> {
    Seq::new(current_game_id as nat, |g: int| g as u32).filter(
        |g: u32|
            !games.contains(g) || !with_modifiers.contains(g) || !with_rewards.contains(g) || !with_bets.contains(
                g,
            ),
    )
}

/// The earlier games whose history the client still has to fetch, given the games it
/// holds and the games for which it holds modifiers, rewards and bets.
pub fn pending_history_game_ids(
    current_game_id: u32,
    games: &Vec<u32>,
    with_modifiers: &Vec<u32>,
    with_rewards: &Vec<u32>,
    with_bets: &Vec<u32>,
) -> (r: Vec<u32>)
    ensures
        r@ == missing_games(current_game_id, games@, with_modifiers@, with_rewards@, with_bets@),
{
    let ghost all = Seq::new(current_game_id as nat, |g: int| g as u32);
    let ghost pred = |g: u32|
        !games@.contains(g) || !with_modifiers@.contains(g) || !with_rewards@.contains(g) || !with_bets@.contains(g);
    let mut missing: Vec<u32> = Vec::new();
    let mut g: u32 = 0;
    while g < current_game_id
        invariant
            g <= current_game_id,
            all == Seq::new(current_game_id as nat, |k: int| k as u32),
            pred == (|x: u32|
                !games@.contains(x) || !with_modifiers@.contains(x) || !with_rewards@.contains(x)
                    || !with_bets@.contains(x)),
            missing@ == all.take(g as int).filter(pred),
        decreases current_game_id - g,
    {
        proof {
            reveal_with_fuel(Seq::filter, 1);
            assert(all.take(g + 1).drop_last() =~= all.take(g as int));
            assert(all.take(g + 1).last() == g);
        }
        let needs_game = !holds_id(games, g);
        let needs_modifiers = !holds_id(with_modifiers, g);
        let needs_rewards = !holds_id(with_rewards, g);
        let needs_bets = !holds_id(with_bets, g);
        if needs_game || needs_modifiers || needs_rewards || needs_bets {
            missing.push(g);
        }
        g = g + 1;
    }
    proof {
        assert(all.take(current_game_id as int) =~= all);
    }
    missing
}

/// The position of a strap kind in the catalogue.
pub open spec fn kind_rank(kind: StrapKind) -> u8 {
    match kind {
        StrapKind::Shirt => 0,
        StrapKind::Pants => 1,
        StrapKind::Shoes => 2,
        StrapKind::Dress => 3,
        StrapKind::Hat => 4,
        StrapKind::Glasses => 5,
        StrapKind::Watch => 6,
        StrapKind::Ring => 7,
        StrapKind::Necklace => 8,
        StrapKind::Earring => 9,
        StrapKind::Bracelet => 10,
        StrapKind::Tattoo => 11,
        StrapKind::Skirt => 12,
        StrapKind::Piercing => 13,
        StrapKind::Coat => 14,
        StrapKind::Scarf => 15,
        StrapKind::Gloves => 16,
        StrapKind::Gown => 17,
        StrapKind::Belt => 18,
    }
}

pub fn strap_kind_order_value(kind: &StrapKind) -> (v: u8)
    ensures
        v == kind_rank(*kind),
{
    match kind {
        StrapKind::Shirt => 0,
        StrapKind::Pants => 1,
        StrapKind::Shoes => 2,
        StrapKind::Dress => 3,
        StrapKind::Hat => 4,
        StrapKind::Glasses => 5,
        StrapKind::Watch => 6,
        StrapKind::Ring => 7,
        StrapKind::Necklace => 8,
        StrapKind::Earring => 9,
        StrapKind::Bracelet => 10,
        StrapKind::Tattoo => 11,
        StrapKind::Skirt => 12,
        StrapKind::Piercing => 13,
        StrapKind::Coat => 14,
        StrapKind::Scarf => 15,
        StrapKind::Gloves => 16,
        StrapKind::Gown => 17,
        StrapKind::Belt => 18,
    }
}

/// The position of a modifier in the catalogue.
pub open spec fn modifier_rank(modifier: Modifier) -> u8 {
    match modifier {
        Modifier::Nothing => 0,
        Modifier::Burnt => 1,
        Modifier::Lucky => 2,
        Modifier::Holy => 3,
        Modifier::Holey => 4,
        Modifier::Scotch => 5,
        Modifier::Soaked => 6,
        Modifier::Moldy => 7,
        Modifier::Starched => 8,
        Modifier::Evil => 9,
        Modifier::Groovy => 10,
        Modifier::Delicate => 11,
    }
}

pub fn modifier_order_value(modifier: &Modifier) -> (v: u8)
    ensures
        v == modifier_rank(*modifier),
{
    match modifier {
        Modifier::Nothing => 0,
        Modifier::Burnt => 1,
        Modifier::Lucky => 2,
        Modifier::Holy => 3,
        Modifier::Holey => 4,
        Modifier::Scotch => 5,
        Modifier::Soaked => 6,
        Modifier::Moldy => 7,
        Modifier::Starched => 8,
        Modifier::Evil => 9,
        Modifier::Groovy => 10,
        Modifier::Delicate => 11,
    }
}

/// What a board shows after the client asked for a roll, compared with the board before.
#[derive(Clone, Copy, Debug, PartialEq, Eq, Structural)]
pub enum RollOutcome {
    /// A new game started: the roll was a `Seven`.
    NewGame,
    /// The board shows a new last roll.
    Rolled(Roll),
    /// The board does not show the roll yet.
    Waiting,
}

/// The outcome of a roll: a later game means a new game; more rolls, or as many with a
/// different last one, mean the last roll came up; otherwise the roll is still awaited.
pub open spec fn roll_outcome_spec(
    prev_len: usize,
    prev_last: Option<Roll>,
    prev_game_id: u32,
    new_len: usize,
    new_last: Option<Roll>,
    new_game_id: u32,
) -> RollOutcome {
    if new_game_id > prev_game_id {
        RollOutcome::NewGame
    } else if (new_len > prev_len || (new_len == prev_len && new_last != prev_last)) && new_last is Some {
        RollOutcome::Rolled(new_last.unwrap())
    } else {
        RollOutcome::Waiting
    }
}

pub fn roll_outcome(
    prev_len: usize,
    prev_last: Option<Roll>,
    prev_game_id: u32,
    new_len: usize,
    new_last: Option<Roll>,
    new_game_id: u32,
) -> (o: RollOutcome)
    ensures
        o == roll_outcome_spec(prev_len, prev_last, prev_game_id, new_len, new_last, new_game_id),
{
    if new_game_id > prev_game_id {
        return RollOutcome::NewGame;
    }
    let changed = match (new_last, prev_last) {
        (Some(a), Some(b)) => a != b,
        (None, None) => false,
        _ => true,
    };
    if new_len > prev_len || (new_len == prev_len && changed) {
        if let Some(roll) = new_last {
            return RollOutcome::Rolled(roll);
        }
    }
    RollOutcome::Waiting
}

/// The article before a roll's name: "an" for `Eight` and `Eleven`, else "a".
pub fn roll_article(roll: Roll) -> (a: &'static str)
    ensures
        (roll == Roll::Eight || roll == Roll::Eleven) ==> a@ == seq!['a', 'n'],
        !(roll == Roll::Eight || roll == Roll::Eleven) ==> a@ == seq!['a'],
{
    match roll {
        Roll::Eight | Roll::Eleven => {
            proof {
                reveal_strlit("an");
            }
            "an"
        },
        _ => {
            proof {
                reveal_strlit("a");
            }
            "a"
        },
    }
}

/// An account's bets and winnings in a game, as the client keeps them.
#[derive(Debug, PartialEq, Eq)]
pub struct AccountData {
    pub per_roll_bets: Vec<(Roll, Vec<(Bet, u64, u32)>)>,
    pub strap_totals: Vec<(Strap, u64)>,
    pub total_chip_bet: u64,
    pub total_chip_won: u64,
    pub claimed_rewards: Option<(u64, Vec<(Strap, u64)>)>,
    pub block_height: u32,
}

/// A finished game, as the client keeps it.
#[derive(Debug, PartialEq, Eq)]
pub struct HistoricalData {
    pub game_id: u32,
    pub rolls: Vec<Roll>,
    pub modifiers: Vec<(Roll, Modifier, u32)>,
    pub strap_rewards: Vec<(Roll, Strap, u64)>,
}

/// A bet of the indexer's account snapshot, as a client bet entry.
pub open spec fn placement_entry(p: AccountBetPlacement) -> (Bet, u64, u32) {
    (
        match p.kind {
            AccountBetKind::Chip => Bet::Chip,
            AccountBetKind::Strap(s) => Bet::Strap(s),
        },
        p.amount,
        p.bet_roll_index,
    )
}

/// The indexer's bets by roll, as client rows.
pub open spec fn entries_of(per_roll: Seq<(Roll, Seq<AccountBetPlacement>)>) -> Seq<(Roll, Seq<(Bet, u64, u32)>)> {
    per_roll.map_values(
        |r: (Roll, Seq<AccountBetPlacement>)| (r.0, r.1.map_values(|p: AccountBetPlacement| placement_entry(p))),
    )
}

fn entries_from(placements: &Vec<AccountBetPlacement>) -> (r: Vec<(Bet, u64, u32)>)
    ensures
        r@ == placements@.map_values(|p: AccountBetPlacement| placement_entry(p)),
{
    let mut out: Vec<(Bet, u64, u32)> = Vec::new();
    let mut i: usize = 0;
    while i < placements.len()
        invariant
            i <= placements@.len(),
            out@ == placements@.take(i as int).map_values(|p: AccountBetPlacement| placement_entry(p)),
        decreases placements@.len() - i,
    {
        let p = placements[i];
        let bet = match p.kind {
            AccountBetKind::Chip => Bet::Chip,
            AccountBetKind::Strap(s) => Bet::Strap(s),
        };
        out.push((bet, p.amount, p.bet_roll_index));
        proof {
            assert(out@ =~= placements@.take(i + 1).map_values(|p: AccountBetPlacement| placement_entry(p)));
        }
        i = i + 1;
    }
    proof {
        assert(placements@.take(placements@.len() as int) =~= placements@);
    }
    out
}

impl AccountData {
    /// The client's record of an account snapshot the indexer reported at `block_height`.
    pub fn from_snapshot(snapshot: &AccountSnapshot, block_height: u32) -> (d: Self)
        ensures
            rows_view(d.per_roll_bets@) == entries_of(snapshot@.per_roll_bets),
            d.strap_totals@ == snapshot@.strap_bets,
            d.total_chip_bet == snapshot@.total_chip_bet,
            d.total_chip_won == snapshot@.total_chip_won,
            crate::snapshot::claimed_view(d.claimed_rewards) == snapshot@.claimed_rewards,
            d.block_height == block_height,
    {
        let ghost target = entries_of(snapshot@.per_roll_bets);
        let mut rows: Vec<(Roll, Vec<(Bet, u64, u32)>)> = Vec::new();
        let mut i: usize = 0;
        while i < snapshot.per_roll_bets.len()
            invariant
                i <= snapshot.per_roll_bets@.len(),
                target == entries_of(snapshot@.per_roll_bets),
                rows@.len() == i,
                rows_view(rows@) == target.take(i as int),
            decreases snapshot.per_roll_bets@.len() - i,
        {
            let ghost before = rows@;
            let entry = &snapshot.per_roll_bets[i];
            let bets = entries_from(&entry.bets);
            rows.push((entry.roll, bets));
            proof {
                assert(snapshot@.per_roll_bets[i as int] == entry@);
                assert forall|k: int| 0 <= k <= i implies #[trigger] rows_view(rows@)[k] == target[k] by {
                    if k < i {
                        assert(rows@[k] == before[k]);
                        assert(rows_view(before)[k] == target.take(i as int)[k]);
                    }
                }
                assert(rows_view(rows@) =~= target.take(i + 1));
            }
            i = i + 1;
        }
        proof {
            assert(target.take(snapshot.per_roll_bets@.len() as int) =~= target);
        }
        let claimed_rewards = match &snapshot.claimed_rewards {
            Some((chips, straps)) => Some((*chips, clone_strap_amounts(straps))),
            None => None,
        };
        AccountData {
            per_roll_bets: rows,
            strap_totals: clone_strap_amounts(&snapshot.strap_bets),
            total_chip_bet: snapshot.total_chip_bet,
            total_chip_won: snapshot.total_chip_won,
            claimed_rewards,
            block_height,
        }
    }

    /// An account that bet nothing: an empty row for each roll, in board order.
    pub fn empty() -> (d: Self)
        ensures
            rows_view(d.per_roll_bets@) == crate::types::all_rolls_spec().map_values(
                |r: Roll| (r, Seq::<(Bet, u64, u32)>::empty()),
            ),
            d.strap_totals@.len() == 0,
            d.total_chip_bet == 0,
            d.total_chip_won == 0,
            d.claimed_rewards is None,
            d.block_height == 0,
    {
        let ghost target = crate::types::all_rolls_spec().map_values(|r: Roll| (r, Seq::<(Bet, u64, u32)>::empty()));
        let mut rows: Vec<(Roll, Vec<(Bet, u64, u32)>)> = Vec::new();
        let mut i: usize = 0;
        while i < 11
            invariant
                i <= 11,
                target == crate::types::all_rolls_spec().map_values(|r: Roll| (r, Seq::<(Bet, u64, u32)>::empty())),
                target.len() == 11,
                rows@.len() == i,
                rows_view(rows@) == target.take(i as int),
            decreases 11 - i,
        {
            let ghost before = rows@;
            let roll = crate::types::index_to_roll(i);
            rows.push((roll, Vec::new()));
            proof {
                assert(crate::types::all_rolls_spec()[i as int] == roll);
                assert forall|k: int| 0 <= k <= i implies #[trigger] rows_view(rows@)[k] == target[k] by {
                    if k < i {
                        assert(rows@[k] == before[k]);
                        assert(rows_view(before)[k] == target.take(i as int)[k]);
                    }
                }
                assert(rows_view(rows@) =~= target.take(i + 1));
            }
            i = i + 1;
        }
        proof {
            assert(target.take(11) =~= target);
        }
        AccountData {
            per_roll_bets: rows,
            strap_totals: Vec::new(),
            total_chip_bet: 0,
            total_chip_won: 0,
            claimed_rewards: None,
            block_height: 0,
        }
    }
}

impl HistoricalData {
    /// The client's record of a finished game the indexer reported.
    pub fn from_snapshot(snapshot: &HistoricalSnapshot) -> (d: Self)
        ensures
            d.game_id == snapshot.game_id,
            d.rolls@ == snapshot.rolls@,
            d.modifiers@ == snapshot.modifiers@.map_values(
                |m: crate::snapshot::ActiveModifier| (m.modifier_roll, m.modifier, m.roll_index),
            ),
            d.strap_rewards@ == snapshot.strap_rewards@,
    {
        let mut modifiers: Vec<(Roll, Modifier, u32)> = Vec::new();
        let mut i: usize = 0;
        while i < snapshot.modifiers.len()
            invariant
                i <= snapshot.modifiers@.len(),
                modifiers@ == snapshot.modifiers@.take(i as int).map_values(
                    |m: crate::snapshot::ActiveModifier| (m.modifier_roll, m.modifier, m.roll_index),
                ),
            decreases snapshot.modifiers@.len() - i,
        {
            let m = snapshot.modifiers[i];
            modifiers.push((m.modifier_roll, m.modifier, m.roll_index));
            proof {
                assert(modifiers@ =~= snapshot.modifiers@.take(i + 1).map_values(
                    |m: crate::snapshot::ActiveModifier| (m.modifier_roll, m.modifier, m.roll_index),
                ));
            }
            i = i + 1;
        }
        proof {
            assert(snapshot.modifiers@.take(snapshot.modifiers@.len() as int) =~= snapshot.modifiers@);
        }
        HistoricalData {
            game_id: snapshot.game_id,
            rolls: copy_vec(&snapshot.rolls),
            modifiers,
            strap_rewards: copy_vec(&snapshot.strap_rewards),
        }
    }
}


/// The board runs Two, Three, ..., Twelve and round again: the roll after each, and the
/// roll before it.
pub proof fn law_board_order()
    ensures
        next_roll_spec(Roll::Two) == Roll::Three,
        next_roll_spec(Roll::Three) == Roll::Four,
        next_roll_spec(Roll::Four) == Roll::Five,
        next_roll_spec(Roll::Five) == Roll::Six,
        next_roll_spec(Roll::Six) == Roll::Seven,
        next_roll_spec(Roll::Seven) == Roll::Eight,
        next_roll_spec(Roll::Eight) == Roll::Nine,
        next_roll_spec(Roll::Nine) == Roll::Ten,
        next_roll_spec(Roll::Ten) == Roll::Eleven,
        next_roll_spec(Roll::Eleven) == Roll::Twelve,
        next_roll_spec(Roll::Twelve) == Roll::Two,
        forall|r: Roll| #[trigger] prev_roll_spec(next_roll_spec(r)) == r,
{
    assert forall|r: Roll| #[trigger] prev_roll_spec(next_roll_spec(r)) == r by {
        match r {
            Roll::Two => {},
            Roll::Three => {},
            Roll::Four => {},
            Roll::Five => {},
            Roll::Six => {},
            Roll::Seven => {},
            Roll::Eight => {},
            Roll::Nine => {},
            Roll::Ten => {},
            Roll::Eleven => {},
            Roll::Twelve => {},
        }
    }
}

/// The shop's lowest prices rise by ten from Burnt to Delicate; Nothing is free.
pub proof fn law_floor_prices()
    ensures
        floor_price(Modifier::Nothing) == 0,
        floor_price(Modifier::Burnt) == 10,
        floor_price(Modifier::Lucky) == 20,
        floor_price(Modifier::Holy) == 30,
        floor_price(Modifier::Holey) == 40,
        floor_price(Modifier::Scotch) == 50,
        floor_price(Modifier::Soaked) == 60,
        floor_price(Modifier::Moldy) == 70,
        floor_price(Modifier::Starched) == 80,
        floor_price(Modifier::Evil) == 90,
        floor_price(Modifier::Groovy) == 100,
        floor_price(Modifier::Delicate) == 110,
{
}

/// At most five percent of the pot not owed to winners may be at stake in open chip bets:
/// what may still be bet is that share, in whole chips (capped where five times the free
/// pot overflows), less what is bet, and never below zero; nothing when the pot is owed.
pub proof fn law_bet_capacity_is_five_percent(pot: u64, owed: u64, total_bets: u64)
    ensures
        pot <= owed ==> bet_capacity(pot, owed, total_bets) == 0,
        ({
            let share: int = if pot <= owed {
                0
            } else if (pot - owed) * 5 > u64::MAX {
                (u64::MAX / 100) as int
            } else {
                (pot - owed) * 5 / 100
            };
            bet_capacity(pot, owed, total_bets) == if share > total_bets {
                share - total_bets
            } else {
                0
            }
        }),
{
}

} // verus!
