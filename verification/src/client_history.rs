//! What the game client remembers of the games it has watched: the rolls, modifiers,
//! rewards and bets of each finished game, which ones the player has claimed, and the
//! newest finished games it lists. The client feeds it each board it builds, the history
//! the indexer sends back, and each claim.
use vstd::prelude::*;
use crate::client_state::{
    AccountData, Bet, HistoricalData, PreviousGameSummary, RollCell, SharedGame, bets_on, chip_sum, holds_id,
    reward_tally, roll_cell, strap_sum, strap_tally, summary_cell, completed, completed_rolls, copy_rows, games_view, insert_newest_first, kept_history,
    newest_first, no_bets, all_bets_empty, pending_history_game_ids, record_upgrades,
    rows_view, trim_history, upsert_shared_game, upserted, with_upgrades, GAME_HISTORY_DEPTH,
};
use crate::snapshot::copy_vec;
use crate::table::Table;
use crate::types::{Modifier, Roll, Strap, all_rolls_spec, index_to_roll, roll_at};

verus! {

/// A finished game as plain values: its id, rolls and active modifiers.
pub type GameView = (u32, Seq<Roll>, Seq<(Roll, Modifier, u32)>);

/// Bets by roll, as plain values.
pub type RowsView = Seq<(Roll, Seq<(Bet, u64, u32)>)>;

/// `g` placed into a list sorted newest game first, after every game at least as new.
pub open spec fn insert_newest_view(s: Seq<GameView>, g: GameView) -> Seq<GameView>
    decreases s.len(),
{
    if s.len() == 0 {
        seq![g]
    } else if s.last().0 >= g.0 {
        s.push(g)
    } else {
        insert_newest_view(s.drop_last(), g).push(s.last())
    }
}

/// The games ordered newest first; games with the same id keep their order.
pub open spec fn newest_view(s: Seq<GameView>) -> Seq<GameView>
    decreases s.len(),
{
    if s.len() == 0 {
        Seq::empty()
    } else {
        insert_newest_view(newest_view(s.drop_last()), s.last())
    }
}

/// The games the client lists: the newest `GAME_HISTORY_DEPTH`, newest first.
pub open spec fn kept_view(s: Seq<GameView>) -> Seq<GameView> {
    let sorted = newest_view(s);
    if sorted.len() > GAME_HISTORY_DEPTH {
        sorted.take(GAME_HISTORY_DEPTH as int)
    } else {
        sorted
    }
}

proof fn lemma_insert_newest_view(s: Seq<SharedGame>, g: SharedGame)
    ensures
        games_view(insert_newest_first(s, g)) == insert_newest_view(
            games_view(s),
            (g.game_id, g.rolls@, g.modifiers@),
        ),
    decreases s.len(),
{
    let gv = (g.game_id, g.rolls@, g.modifiers@);
    if s.len() == 0 {
        assert(games_view(seq![g]) =~= seq![gv]);
    } else if s.last().game_id >= g.game_id {
        assert(games_view(s.push(g)) =~= games_view(s).push(gv));
    } else {
        lemma_insert_newest_view(s.drop_last(), g);
        assert(games_view(s.drop_last()) =~= games_view(s).drop_last());
        let inner = insert_newest_first(s.drop_last(), g);
        assert(games_view(inner.push(s.last())) =~= games_view(inner).push(games_view(s).last()));
    }
}

proof fn lemma_newest_view(s: Seq<SharedGame>)
    ensures
        games_view(newest_first(s)) == newest_view(games_view(s)),
    decreases s.len(),
{
    if s.len() == 0 {
        assert(games_view(Seq::<SharedGame>::empty()) =~= Seq::<GameView>::empty());
    } else {
        lemma_newest_view(s.drop_last());
        assert(games_view(s.drop_last()) =~= games_view(s).drop_last());
        lemma_insert_newest_view(newest_first(s.drop_last()), s.last());
    }
}

proof fn lemma_newest_len(s: Seq<GameView>)
    ensures
        newest_view(s).len() == s.len(),
    decreases s.len(),
{
    if s.len() > 0 {
        lemma_newest_len(s.drop_last());
        lemma_insert_len(newest_view(s.drop_last()), s.last());
    }
}

proof fn lemma_insert_len(s: Seq<GameView>, g: GameView)
    ensures
        insert_newest_view(s, g).len() == s.len() + 1,
    decreases s.len(),
{
    if s.len() > 0 && s.last().0 < g.0 {
        lemma_insert_len(s.drop_last(), g);
    }
}

/// What keeping the newest games does to the games, taken as plain values.
proof fn lemma_kept_view(s: Seq<SharedGame>)
    ensures
        games_view(kept_history(s)) == kept_view(games_view(s)),
{
    lemma_newest_view(s);
    let sorted = newest_first(s);
    if sorted.len() > GAME_HISTORY_DEPTH {
        assert(games_view(sorted.take(GAME_HISTORY_DEPTH as int)) =~= games_view(sorted).take(
            GAME_HISTORY_DEPTH as int,
        ));
    }
}

/// The client's memory of finished games, as plain values.
pub struct HistoryModel {
    pub last_seen: Option<u32>,
    pub last_rolls: Seq<Roll>,
    pub prev_bets: RowsView,
    pub modifiers: Map<u32, Seq<(Roll, Modifier, u32)>>,
    pub rewards: Map<u32, Seq<(Roll, Strap, u64)>>,
    pub bets: Map<u32, RowsView>,
    pub claimed: Set<u32>,
    pub games: Seq<GameView>,
}

/// The client's memory of the games it has watched.
pub struct GameHistory {
    /// The game of the last board built.
    pub last_seen_game_id: Option<u32>,
    /// The rolls of the last board built.
    pub last_rolls: Vec<Roll>,
    /// The player's bets on the last board built.
    pub prev_bets: Vec<(Roll, Vec<(Bet, u64, u32)>)>,
    /// The active modifiers of each game.
    pub modifiers_by_game: Table<u32, Vec<(Roll, Modifier, u32)>>,
    /// The strap rewards of each game.
    pub rewards_by_game: Table<u32, Vec<(Roll, Strap, u64)>>,
    /// The player's bets in each finished game.
    pub bets_by_game: Table<u32, Vec<(Roll, Vec<(Bet, u64, u32)>)>>,
    /// The games the player has claimed, or had nothing to claim in.
    pub claimed: Vec<u32>,
    /// The newest finished games, newest first.
    pub games: Vec<SharedGame>,
}

/// What the indexer reports of a finished game: its rolls, modifiers and rewards, the
/// player's bets in it, and whether the player claimed it.
#[derive(Clone, Debug, PartialEq, Eq)]
pub struct HistoryRecord {
    pub game_id: u32,
    pub rolls: Vec<Roll>,
    pub modifiers: Vec<(Roll, Modifier, u32)>,
    pub strap_rewards: Vec<(Roll, Strap, u64)>,
    pub per_roll_bets: Vec<(Roll, Vec<(Bet, u64, u32)>)>,
    pub claimed: bool,
}

impl HistoryRecord {
    /// The record of game `game_id` from its historical snapshot and the player's account
    /// snapshot for it: the player's bets come from the account (an account that bet
    /// nothing when there is none), and the game counts as claimed when the account
    /// reports claimed rewards.
    pub fn from_snapshots(game_id: u32, hist: HistoricalData, account: Option<AccountData>) -> (r: Self)
        ensures
            r.game_id == game_id,
            r.rolls@ == hist.rolls@,
            r.modifiers@ == hist.modifiers@,
            r.strap_rewards@ == hist.strap_rewards@,
            match account {
                Some(a) => rows_view(r.per_roll_bets@) == rows_view(a.per_roll_bets@) && r.claimed == a.claimed_rewards is Some,
                None => rows_view(r.per_roll_bets@) == all_rolls_spec().map_values(
                    |roll: Roll| (roll, Seq::<(Bet, u64, u32)>::empty()),
                ) && !r.claimed,
            },
    {
        let account = match account {
            Some(a) => a,
            None => AccountData::empty(),
        };
        let claimed = account.claimed_rewards.is_some();
        HistoryRecord {
            game_id,
            rolls: hist.rolls,
            modifiers: hist.modifiers,
            strap_rewards: hist.strap_rewards,
            per_roll_bets: account.per_roll_bets,
            claimed,
        }
    }
}

/// The cells of the board: one per row of the player's bets, in order, with the chips and
/// straps staked on the row's roll and the strap rewards offered on it.
pub fn board_cells(rows: &Vec<(Roll, Vec<(Bet, u64, u32)>)>, strap_rewards: &Vec<(Roll, Strap, u64)>) -> (cells: Vec<RollCell>)
    requires
        forall|i: int|
            0 <= i < rows@.len() ==> chip_sum((#[trigger] rows@[i]).1@) <= u64::MAX && strap_sum(rows@[i].1@) <= u64::MAX,
    ensures
        cells@.len() == rows@.len(),
        forall|i: int|
            0 <= i < rows@.len() ==> {
                let c = #[trigger] cells@[i];
                &&& c.roll == rows@[i].0
                &&& c.chip_total == chip_sum(rows@[i].1@)
                &&& c.strap_total == strap_sum(rows@[i].1@)
                &&& c.straps@ == strap_tally(rows@[i].1@)
                &&& c.rewards@ == reward_tally(strap_rewards@, rows@[i].0)
            },
{
    let mut cells: Vec<RollCell> = Vec::new();
    let mut i: usize = 0;
    while i < rows.len()
        invariant
            i <= rows@.len(),
            cells@.len() == i,
            forall|i: int|
                0 <= i < rows@.len() ==> chip_sum((#[trigger] rows@[i]).1@) <= u64::MAX && strap_sum(rows@[i].1@)
                    <= u64::MAX,
            forall|j: int|
                0 <= j < i ==> {
                    let c = #[trigger] cells@[j];
                    &&& c.roll == rows@[j].0
                    &&& c.chip_total == chip_sum(rows@[j].1@)
                    &&& c.strap_total == strap_sum(rows@[j].1@)
                    &&& c.straps@ == strap_tally(rows@[j].1@)
                    &&& c.rewards@ == reward_tally(strap_rewards@, rows@[j].0)
                },
        decreases rows@.len() - i,
    {
        let row = &rows[i];
        assert(chip_sum(rows@[i as int].1@) <= u64::MAX);
        cells.push(roll_cell(row.0, &row.1, strap_rewards));
        i = i + 1;
    }
    cells
}

/// A history record as plain values.
pub struct RecordModel {
    pub game_id: u32,
    pub rolls: Seq<Roll>,
    pub modifiers: Seq<(Roll, Modifier, u32)>,
    pub strap_rewards: Seq<(Roll, Strap, u64)>,
    pub per_roll_bets: RowsView,
    pub claimed: bool,
}

pub open spec fn record_view(r: HistoryRecord) -> RecordModel {
    RecordModel {
        game_id: r.game_id,
        rolls: r.rolls@,
        modifiers: r.modifiers@,
        strap_rewards: r.strap_rewards@,
        per_roll_bets: rows_view(r.per_roll_bets@),
        claimed: r.claimed,
    }
}

pub open spec fn records_view(rs: Seq<HistoryRecord>) -> Seq<RecordModel> {
    rs.map_values(|r: HistoryRecord| record_view(r))
}

/// The memory with a game's record taken in: the game listed with its rolls and modifiers,
/// its modifiers, rewards and the player's bets stored, and its claim noted.
pub open spec fn took_record(h: HistoryModel, r: RecordModel) -> HistoryModel {
    HistoryModel {
        games: upserted(h.games, (r.game_id, r.rolls, r.modifiers)),
        modifiers: h.modifiers.insert(r.game_id, r.modifiers),
        rewards: h.rewards.insert(r.game_id, r.strap_rewards),
        bets: h.bets.insert(r.game_id, r.per_roll_bets),
        claimed: if r.claimed {
            h.claimed.insert(r.game_id)
        } else {
            h.claimed
        },
        ..h
    }
}

/// The memory with records taken in, in order.
pub open spec fn took_records(h: HistoryModel, rs: Seq<RecordModel>) -> HistoryModel
    decreases rs.len(),
{
    if rs.len() == 0 {
        h
    } else {
        took_record(took_records(h, rs.drop_last()), rs.last())
    }
}

/// The memory after records from the indexer: each taken in, then only the newest games
/// kept in the list; no records change nothing.
pub open spec fn ingested(h: HistoryModel, rs: Seq<RecordModel>) -> HistoryModel {
    if rs.len() == 0 {
        h
    } else {
        let t = took_records(h, rs);
        HistoryModel { games: kept_view(t.games), ..t }
    }
}

/// The memory after a board of game `current` was built from the `rolls`, the player's
/// `bets`, the `active` modifiers and the strap `rewards`: the game's modifiers are stored,
/// and its rewards unless some are already stored. When the game is later than the last
/// one seen, that game is finished: it is listed with its rolls (ending in `Seven`) and
/// modifiers, the player's last bets in it are stored, it counts as claimed when the player
/// had no bets in it, and only the newest games stay listed. The board becomes the last one
/// seen.
pub open spec fn observed(
    h: HistoryModel,
    current: u32,
    rolls: Seq<Roll>,
    bets: RowsView,
    active: Seq<(Roll, Modifier, u32)>,
    rewards: Seq<(Roll, Strap, u64)>,
) -> HistoryModel {
    let modifiers = h.modifiers.insert(current, active);
    let finished = h.last_seen is Some && current > h.last_seen.unwrap();
    let prev = h.last_seen.unwrap();
    let prev_modifiers = if modifiers.dom().contains(prev) {
        modifiers[prev]
    } else {
        Seq::empty()
    };
    HistoryModel {
        last_seen: Some(current),
        last_rolls: rolls,
        prev_bets: bets,
        modifiers,
        rewards: if h.rewards.dom().contains(current) {
            h.rewards
        } else {
            h.rewards.insert(current, rewards)
        },
        bets: if finished {
            h.bets.insert(prev, h.prev_bets)
        } else {
            h.bets
        },
        claimed: if finished && no_bets(h.prev_bets) {
            h.claimed.insert(prev)
        } else {
            h.claimed
        },
        games: if finished {
            kept_view(upserted(h.games, (prev, completed(h.last_rolls), prev_modifiers)))
        } else {
            h.games
        },
    }
}

/// The memory after the player claimed `game` and the straps in `upgraded` were levelled
/// up: they join the game's rewards, and the game counts as claimed.
pub open spec fn claim_recorded(h: HistoryModel, game: u32, upgraded: Seq<(Roll, Strap)>) -> HistoryModel {
    let before = if h.rewards.dom().contains(game) {
        h.rewards[game]
    } else {
        Seq::empty()
    };
    HistoryModel {
        rewards: h.rewards.insert(game, with_upgrades(before, upgraded)),
        claimed: h.claimed.insert(game),
        ..h
    }
}

impl GameHistory {
    /// The tables keep each game once.
    pub open spec fn wf(&self) -> bool {
        &&& self.modifiers_by_game.wf()
        &&& self.rewards_by_game.wf()
        &&& self.bets_by_game.wf()
    }

    pub open spec fn view(&self) -> HistoryModel {
        HistoryModel {
            last_seen: self.last_seen_game_id,
            last_rolls: self.last_rolls@,
            prev_bets: rows_view(self.prev_bets@),
            modifiers: self.modifiers_by_game.map_view().map_values(|v: Vec<(Roll, Modifier, u32)>| v@),
            rewards: self.rewards_by_game.map_view().map_values(|v: Vec<(Roll, Strap, u64)>| v@),
            bets: self.bets_by_game.map_view().map_values(|v: Vec<(Roll, Vec<(Bet, u64, u32)>)>| rows_view(v@)),
            claimed: self.claimed@.to_set(),
            games: games_view(self.games@),
        }
    }

    /// A client that has seen nothing yet.
    pub fn new() -> (h: Self)
        ensures
            h.wf(),
            h.view().last_seen is None,
            h.view().last_rolls.len() == 0,
            h.view().prev_bets.len() == 0,
            h.view().modifiers == Map::<u32, Seq<(Roll, Modifier, u32)>>::empty(),
            h.view().rewards == Map::<u32, Seq<(Roll, Strap, u64)>>::empty(),
            h.view().bets == Map::<u32, RowsView>::empty(),
            h.view().claimed == Set::<u32>::empty(),
            h.view().games.len() == 0,
    {
        let h = GameHistory {
            last_seen_game_id: None,
            last_rolls: Vec::new(),
            prev_bets: Vec::new(),
            modifiers_by_game: Table::new(),
            rewards_by_game: Table::new(),
            bets_by_game: Table::new(),
            claimed: Vec::new(),
            games: Vec::new(),
        };
        assert(h.view().modifiers =~= Map::<u32, Seq<(Roll, Modifier, u32)>>::empty());
        assert(h.view().rewards =~= Map::<u32, Seq<(Roll, Strap, u64)>>::empty());
        assert(h.view().bets =~= Map::<u32, RowsView>::empty());
        assert(h.view().claimed =~= Set::<u32>::empty());
        h
    }

    /// Notes that the player claimed `game` (or had nothing to claim in it).
    fn mark_claimed(&mut self, game: u32)
        ensures
            final(self).claimed@.to_set() == old(self).claimed@.to_set().insert(game),
            final(self).last_seen_game_id == old(self).last_seen_game_id,
            final(self).last_rolls == old(self).last_rolls,
            final(self).prev_bets == old(self).prev_bets,
            final(self).modifiers_by_game == old(self).modifiers_by_game,
            final(self).rewards_by_game == old(self).rewards_by_game,
            final(self).bets_by_game == old(self).bets_by_game,
            final(self).games == old(self).games,
    {
        let mut i: usize = 0;
        while i < self.claimed.len()
            invariant
                i <= self.claimed@.len(),
                forall|k: int| 0 <= k < i ==> self.claimed@[k] != game,
            decreases self.claimed@.len() - i,
        {
            if self.claimed[i] == game {
                assert(self.claimed@.to_set() =~= self.claimed@.to_set().insert(game)) by {
                    assert(self.claimed@.contains(self.claimed@[i as int]));
                }
                return;
            }
            i = i + 1;
        }
        let ghost before = self.claimed@;
        self.claimed.push(game);
        proof {
            assert(self.claimed@.to_set() =~= before.to_set().insert(game)) by {
                assert forall|x: u32| self.claimed@.to_set().contains(x) implies before.to_set().insert(game).contains(x) by {
                    let k = choose|k: int| 0 <= k < self.claimed@.len() && self.claimed@[k] == x;
                    if k < before.len() {
                        assert(before[k] == x);
                    }
                }
                assert forall|x: u32| before.to_set().insert(game).contains(x) implies self.claimed@.to_set().contains(x) by {
                    if x == game {
                        assert(self.claimed@[before.len() as int] == game);
                    } else {
                        let k = choose|k: int| 0 <= k < before.len() && before[k] == x;
                        assert(self.claimed@[k] == x);
                    }
                }
            }
        }
    }

    /// Lists game `game_id` with its rolls and modifiers, replacing what was listed for it.
    fn list_game(&mut self, game_id: u32, rolls: Vec<Roll>, modifiers: Vec<(Roll, Modifier, u32)>)
        ensures
            games_view(final(self).games@) == upserted(games_view(old(self).games@), (game_id, rolls@, modifiers@)),
            final(self).last_seen_game_id == old(self).last_seen_game_id,
            final(self).last_rolls == old(self).last_rolls,
            final(self).prev_bets == old(self).prev_bets,
            final(self).modifiers_by_game == old(self).modifiers_by_game,
            final(self).rewards_by_game == old(self).rewards_by_game,
            final(self).bets_by_game == old(self).bets_by_game,
            final(self).claimed == old(self).claimed,
    {
        upsert_shared_game(&mut self.games, game_id, rolls, modifiers);
    }

    /// Keeps only the newest finished games in the list, newest first.
    fn keep_newest(&mut self)
        ensures
            games_view(final(self).games@) == kept_view(games_view(old(self).games@)),
            final(self).last_seen_game_id == old(self).last_seen_game_id,
            final(self).last_rolls == old(self).last_rolls,
            final(self).prev_bets == old(self).prev_bets,
            final(self).modifiers_by_game == old(self).modifiers_by_game,
            final(self).rewards_by_game == old(self).rewards_by_game,
            final(self).bets_by_game == old(self).bets_by_game,
            final(self).claimed == old(self).claimed,
    {
        proof {
            lemma_kept_view(self.games@);
        }
        trim_history(&mut self.games);
    }

    /// Takes in what a board of game `current_game_id` shows (its rolls, the player's bets
    /// with the pending ones overlaid, the active modifiers and the strap rewards), and
    /// closes the previous game when this one is later.
    pub fn observe_board(
        &mut self,
        current_game_id: u32,
        rolls: Vec<Roll>,
        bets: Vec<(Roll, Vec<(Bet, u64, u32)>)>,
        active: Vec<(Roll, Modifier, u32)>,
        rewards: Vec<(Roll, Strap, u64)>,
    )
        requires
            old(self).wf(),
        ensures
            final(self).wf(),
            final(self).view() == observed(old(self).view(), current_game_id, rolls@, rows_view(bets@), active@, rewards@),
    {
        let ghost h = self.view();
        let ghost active_view = active@;
        self.modifiers_by_game.insert(current_game_id, active);
        proof {
            assert(self.modifiers_by_game.map_view().map_values(|v: Vec<(Roll, Modifier, u32)>| v@) =~= h.modifiers.insert(
                current_game_id,
                active_view,
            ));
        }
        if self.rewards_by_game.get(&current_game_id).is_none() {
            let ghost rv = rewards@;
            self.rewards_by_game.insert(current_game_id, rewards);
            proof {
                assert(self.rewards_by_game.map_view().map_values(|v: Vec<(Roll, Strap, u64)>| v@) =~= h.rewards.insert(
                    current_game_id,
                    rv,
                ));
            }
        }
        let ghost mid = self.view();
        if let Some(prev) = self.last_seen_game_id {
            if current_game_id > prev {
                let finished_rolls = completed_rolls(&self.last_rolls);
                let prev_modifiers = match self.modifiers_by_game.get(&prev) {
                    Some(m) => copy_vec(m),
                    None => Vec::new(),
                };
                proof {
                    if !mid.modifiers.dom().contains(prev) {
                        assert(prev_modifiers@ =~= Seq::<(Roll, Modifier, u32)>::empty());
                    }
                }
                self.list_game(prev, finished_rolls, prev_modifiers);
                let nothing_bet = all_bets_empty(&self.prev_bets);
                let mut last_bets: Vec<(Roll, Vec<(Bet, u64, u32)>)> = Vec::new();
                core::mem::swap(&mut last_bets, &mut self.prev_bets);
                let ghost lb = rows_view(last_bets@);
                self.bets_by_game.insert(prev, last_bets);
                proof {
                    assert(self.bets_by_game.map_view().map_values(
                        |v: Vec<(Roll, Vec<(Bet, u64, u32)>)>| rows_view(v@),
                    ) =~= h.bets.insert(prev, lb));
                }
                if nothing_bet {
                    self.mark_claimed(prev);
                }
                self.keep_newest();
            }
        }
        self.last_seen_game_id = Some(current_game_id);
        self.prev_bets = bets;
        self.last_rolls = rolls;
        proof {
            let o = observed(h, current_game_id, rolls@, rows_view(bets@), active@, rewards@);
            assert(self.view().modifiers == o.modifiers);
            assert(self.view().rewards == o.rewards);
            assert(self.view().bets == o.bets);
            assert(self.view().claimed == o.claimed);
            assert(self.view().games == o.games);
        }
    }

    /// Takes in the records of finished games that the indexer sent back.
    pub fn ingest_history_records(&mut self, records: Vec<HistoryRecord>)
        requires
            old(self).wf(),
        ensures
            final(self).wf(),
            final(self).view() == ingested(old(self).view(), records_view(records@)),
    {
        if records.len() == 0 {
            return;
        }
        let ghost h = self.view();
        let ghost rv = records_view(records@);
        let mut i: usize = 0;
        while i < records.len()
            invariant
                self.wf(),
                i <= records@.len(),
                rv == records_view(records@),
                self.view() == took_records(h, rv.take(i as int)),
            decreases records@.len() - i,
        {
            let ghost before = self.view();
            let rec = &records[i];
            let ghost r = record_view(*rec);
            assert(rv[i as int] == r);
            assert(rv.take(i + 1).drop_last() =~= rv.take(i as int));
            let rolls = copy_vec(&rec.rolls);
            let listed = copy_vec(&rec.modifiers);
            self.list_game(rec.game_id, rolls, listed);
            let modifiers = copy_vec(&rec.modifiers);
            self.modifiers_by_game.insert(rec.game_id, modifiers);
            let rewards = copy_vec(&rec.strap_rewards);
            self.rewards_by_game.insert(rec.game_id, rewards);
            let bets = copy_rows(&rec.per_roll_bets);
            self.bets_by_game.insert(rec.game_id, bets);
            if rec.claimed {
                self.mark_claimed(rec.game_id);
            }
            proof {
                let t = took_record(before, r);
                assert(self.view().modifiers =~= t.modifiers);
                assert(self.view().rewards =~= t.rewards);
                assert(self.view().bets =~= t.bets);
                assert(self.view().claimed == t.claimed);
                assert(self.view().games == t.games);
            }
            i = i + 1;
        }
        proof {
            assert(rv.take(records@.len() as int) =~= rv);
        }
        self.keep_newest();
    }

    /// Records a claim of `game_id` that levelled up the straps in `upgraded`.
    pub fn record_claim(&mut self, game_id: u32, upgraded: &Vec<(Roll, Strap)>)
        requires
            old(self).wf(),
        ensures
            final(self).wf(),
            final(self).view() == claim_recorded(old(self).view(), game_id, upgraded@),
    {
        let ghost h = self.view();
        let mut rewards = match self.rewards_by_game.take(&game_id) {
            Some(r) => r,
            None => Vec::new(),
        };
        proof {
            if !h.rewards.dom().contains(game_id) {
                assert(rewards@ =~= Seq::<(Roll, Strap, u64)>::empty());
            }
        }
        record_upgrades(&mut rewards, upgraded);
        let ghost rv = rewards@;
        self.rewards_by_game.insert(game_id, rewards);
        self.mark_claimed(game_id);
        proof {
            assert(self.view().rewards =~= claim_recorded(h, game_id, upgraded@).rewards);
            assert(self.view().claimed == claim_recorded(h, game_id, upgraded@).claimed);
        }
    }

    /// The player's bets in a finished game, as stored; none when nothing is stored.
    pub open spec fn bets_in(&self, game: u32) -> RowsView {
        if self.view().bets.dom().contains(game) {
            self.view().bets[game]
        } else {
            Seq::empty()
        }
    }

    /// The listed games as the claim dialog and the history panel show them: each with
    /// its rolls and modifiers, the player's bets, whether it was claimed, and a summary
    /// cell per roll in board order with the chips and straps staked on it.
    pub fn previous_game_summaries(&self) -> (r: Vec<PreviousGameSummary>)
        requires
            self.wf(),
            forall|i: int, k: int|
                #![trigger self.games@[i], roll_at(k)]
                0 <= i < self.games@.len() && 0 <= k < 11 ==> chip_sum(
                    bets_on(self.bets_in(self.games@[i].game_id), roll_at(k)),
                ) <= u64::MAX && strap_sum(bets_on(self.bets_in(self.games@[i].game_id), roll_at(k))) <= u64::MAX,
        ensures
            r@.len() == self.games@.len(),
            forall|i: int|
                0 <= i < r@.len() ==> {
                    let g = self.games@[i];
                    let rows = self.bets_in(g.game_id);
                    &&& (#[trigger] r@[i]).game_id == g.game_id
                    &&& r@[i].rolls@ == g.rolls@
                    &&& r@[i].modifiers@ == g.modifiers@
                    &&& rows_view(r@[i].bets_by_roll@) == rows
                    &&& r@[i].claimed == self.view().claimed.contains(g.game_id)
                    &&& r@[i].cells@.len() == 11
                    &&& forall|k: int|
                        0 <= k < 11 ==> {
                            let c = #[trigger] r@[i].cells@[k];
                            &&& c.roll == roll_at(k)
                            &&& c.chip_total == chip_sum(bets_on(rows, roll_at(k)))
                            &&& c.strap_total == strap_sum(bets_on(rows, roll_at(k)))
                            &&& c.straps@.len() == 0
                            &&& c.rewards@.len() == 0
                        }
                },
    {
        let mut out: Vec<PreviousGameSummary> = Vec::new();
        let mut i: usize = 0;
        while i < self.games.len()
            invariant
                self.wf(),
                i <= self.games@.len(),
                out@.len() == i,
                forall|i: int, k: int|
                    #![trigger self.games@[i], roll_at(k)]
                    0 <= i < self.games@.len() && 0 <= k < 11 ==> chip_sum(
                        bets_on(self.bets_in(self.games@[i].game_id), roll_at(k)),
                    ) <= u64::MAX && strap_sum(bets_on(self.bets_in(self.games@[i].game_id), roll_at(k))) <= u64::MAX,
                forall|j: int|
                    0 <= j < i ==> {
                        let g = self.games@[j];
                        let rows = self.bets_in(g.game_id);
                        &&& (#[trigger] out@[j]).game_id == g.game_id
                        &&& out@[j].rolls@ == g.rolls@
                        &&& out@[j].modifiers@ == g.modifiers@
                        &&& rows_view(out@[j].bets_by_roll@) == rows
                        &&& out@[j].claimed == self.view().claimed.contains(g.game_id)
                        &&& out@[j].cells@.len() == 11
                        &&& forall|k: int|
                            0 <= k < 11 ==> {
                                let c = #[trigger] out@[j].cells@[k];
                                &&& c.roll == roll_at(k)
                                &&& c.chip_total == chip_sum(bets_on(rows, roll_at(k)))
                                &&& c.strap_total == strap_sum(bets_on(rows, roll_at(k)))
                                &&& c.straps@.len() == 0
                                &&& c.rewards@.len() == 0
                            }
                    },
            decreases self.games@.len() - i,
        {
            let g = &self.games[i];
            let game_id = g.game_id;
            let rows = match self.bets_by_game.get(&game_id) {
                Some(b) => copy_rows(b),
                None => Vec::new(),
            };
            let ghost rv = self.bets_in(game_id);
            proof {
                if !self.view().bets.dom().contains(game_id) {
                    assert(rows_view(rows@) =~= Seq::<(Roll, Seq<(Bet, u64, u32)>)>::empty());
                }
                assert(rows_view(rows@) == rv);
            }
            let mut cells: Vec<RollCell> = Vec::new();
            let mut k: usize = 0;
            while k < 11
                invariant
                    k <= 11,
                    cells@.len() == k,
                    rows_view(rows@) == rv,
                    forall|k: int|
                        0 <= k < 11 ==> chip_sum(bets_on(rv, #[trigger] roll_at(k))) <= u64::MAX && strap_sum(
                            bets_on(rv, roll_at(k)),
                        ) <= u64::MAX,
                    forall|j: int|
                        0 <= j < k ==> {
                            let c = #[trigger] cells@[j];
                            &&& c.roll == roll_at(j)
                            &&& c.chip_total == chip_sum(bets_on(rv, roll_at(j)))
                            &&& c.strap_total == strap_sum(bets_on(rv, roll_at(j)))
                            &&& c.straps@.len() == 0
                            &&& c.rewards@.len() == 0
                        },
                decreases 11 - k,
            {
                let roll = index_to_roll(k);
                cells.push(summary_cell(roll, &rows));
                k = k + 1;
            }
            let claimed = holds_id(&self.claimed, game_id);
            out.push(
                PreviousGameSummary {
                    game_id,
                    cells,
                    modifiers: copy_vec(&g.modifiers),
                    rolls: copy_vec(&g.rolls),
                    bets_by_roll: rows,
                    claimed,
                },
            );
            i = i + 1;
        }
        out
    }

    /// The earlier games whose record the client still lacks, in ascending order.
    pub fn pending_history_game_ids(&self, current_game_id: u32) -> (r: Vec<u32>)
        requires
            self.wf(),
        ensures
            r@ == Seq::new(current_game_id as nat, |g: int| g as u32).filter(
                |g: u32|
                    !self.view().games.map_values(|e: GameView| e.0).contains(g) || !self.view().modifiers.dom().contains(g)
                        || !self.view().rewards.dom().contains(g) || !self.view().bets.dom().contains(g),
            ),
    {
        let mut ids: Vec<u32> = Vec::new();
        let mut i: usize = 0;
        while i < self.games.len()
            invariant
                i <= self.games@.len(),
                ids@ == games_view(self.games@).take(i as int).map_values(|e: GameView| e.0),
            decreases self.games@.len() - i,
        {
            ids.push(self.games[i].game_id);
            assert(games_view(self.games@).take(i + 1).map_values(|e: GameView| e.0) =~= games_view(self.games@).take(
                i as int,
            ).map_values(|e: GameView| e.0).push(self.games@[i as int].game_id));
            i = i + 1;
        }
        assert(games_view(self.games@).take(self.games@.len() as int) =~= games_view(self.games@));
        let with_modifiers = self.modifiers_by_game.keys();
        let with_rewards = self.rewards_by_game.keys();
        let with_bets = self.bets_by_game.keys();
        let r = pending_history_game_ids(current_game_id, &ids, &with_modifiers, &with_rewards, &with_bets);
        proof {
            let v = self.view();
            let p1 = |g: u32|
                !ids@.contains(g) || !with_modifiers@.contains(g) || !with_rewards@.contains(g) || !with_bets@.contains(g);
            let p2 = |g: u32|
                !v.games.map_values(|e: GameView| e.0).contains(g) || !v.modifiers.dom().contains(g)
                    || !v.rewards.dom().contains(g) || !v.bets.dom().contains(g);
            assert forall|g: u32| #[trigger] p1(g) == p2(g) by {
                assert(with_modifiers@.contains(g) == with_modifiers@.to_set().contains(g));
                assert(with_rewards@.contains(g) == with_rewards@.to_set().contains(g));
                assert(with_bets@.contains(g) == with_bets@.to_set().contains(g));
                assert(v.modifiers.dom() =~= self.modifiers_by_game.map_view().dom());
                assert(v.rewards.dom() =~= self.rewards_by_game.map_view().dom());
                assert(v.bets.dom() =~= self.bets_by_game.map_view().dom());
            }
            assert(p1 =~= p2);
        }
        r
    }
}


/// The games are listed newest first.
pub open spec fn newest_first_order(s: Seq<GameView>) -> bool {
    forall|i: int, j: int| 0 <= i < j < s.len() ==> s[i].0 >= s[j].0
}

/// The list of finished games is well kept: newest first, at most `GAME_HISTORY_DEPTH`.
pub open spec fn well_kept(s: Seq<GameView>) -> bool {
    &&& newest_first_order(s)
    &&& s.len() <= GAME_HISTORY_DEPTH
}

proof fn lemma_insert_newest_order(s: Seq<GameView>, g: GameView)
    requires
        newest_first_order(s),
    ensures
        newest_first_order(insert_newest_view(s, g)),
        forall|k: int| 0 <= k < insert_newest_view(s, g).len() ==> (#[trigger] insert_newest_view(s, g)[k] == g
            || s.contains(insert_newest_view(s, g)[k])),
    decreases s.len(),
{
    lemma_insert_len(s, g);
    if s.len() == 0 {
    } else if s.last().0 >= g.0 {
        let r = s.push(g);
        assert forall|k: int| 0 <= k < r.len() implies (#[trigger] r[k] == g || s.contains(r[k])) by {
            if k < s.len() {
                assert(r[k] == s[k]);
            }
        }
    } else {
        let init = s.drop_last();
        assert forall|i: int, j: int| 0 <= i < j < init.len() implies init[i].0 >= init[j].0 by {
            assert(init[i] == s[i] && init[j] == s[j]);
        }
        lemma_insert_newest_order(init, g);
        let inner = insert_newest_view(init, g);
        let r = inner.push(s.last());
        lemma_insert_len(init, g);
        assert forall|k: int| 0 <= k < inner.len() implies #[trigger] inner[k].0 >= s.last().0 by {
            if inner[k] == g {
            } else {
                let m = choose|m: int| 0 <= m < init.len() && init[m] == inner[k];
                assert(s[m] == init[m]);
                assert(s[m].0 >= s[s.len() - 1].0);
            }
        }
        assert forall|i: int, j: int| 0 <= i < j < r.len() implies r[i].0 >= r[j].0 by {
            if j < inner.len() {
                assert(r[i] == inner[i] && r[j] == inner[j]);
            } else {
                assert(r[i] == inner[i]);
                assert(inner[i].0 >= s.last().0);
            }
        }
        assert forall|k: int| 0 <= k < r.len() implies (#[trigger] r[k] == g || s.contains(r[k])) by {
            if k < inner.len() {
                assert(r[k] == inner[k]);
                if inner[k] != g {
                    let m = choose|m: int| 0 <= m < init.len() && init[m] == inner[k];
                    assert(s[m] == init[m]);
                }
            } else {
                assert(r[k] == s[s.len() - 1]);
            }
        }
    }
}

proof fn lemma_newest_order(s: Seq<GameView>)
    ensures
        newest_first_order(newest_view(s)),
    decreases s.len(),
{
    if s.len() > 0 {
        lemma_newest_order(s.drop_last());
        lemma_insert_newest_order(newest_view(s.drop_last()), s.last());
    }
}

proof fn lemma_kept_well(s: Seq<GameView>)
    ensures
        well_kept(kept_view(s)),
{
    lemma_newest_order(s);
    let sorted = newest_view(s);
    if sorted.len() > GAME_HISTORY_DEPTH {
        let t = sorted.take(GAME_HISTORY_DEPTH as int);
        assert forall|i: int, j: int| 0 <= i < j < t.len() implies t[i].0 >= t[j].0 by {
            assert(t[i] == sorted[i] && t[j] == sorted[j]);
        }
    }
}

/// Whatever boards and records the client takes in, it lists at most `GAME_HISTORY_DEPTH`
/// finished games, newest first: a list so kept stays so after a board is observed, after
/// records from the indexer are taken in, and after a claim.
pub proof fn law_history_stays_newest_first_and_bounded(
    h: HistoryModel,
    current: u32,
    rolls: Seq<Roll>,
    bets: RowsView,
    active: Seq<(Roll, Modifier, u32)>,
    rewards: Seq<(Roll, Strap, u64)>,
    records: Seq<RecordModel>,
    game: u32,
    upgraded: Seq<(Roll, Strap)>,
)
    requires
        well_kept(h.games),
    ensures
        well_kept(observed(h, current, rolls, bets, active, rewards).games),
        well_kept(ingested(h, records).games),
        well_kept(claim_recorded(h, game, upgraded).games),
{
    let prev = h.last_seen.unwrap();
    let modifiers = h.modifiers.insert(current, active);
    let prev_modifiers = if modifiers.dom().contains(prev) {
        modifiers[prev]
    } else {
        Seq::empty()
    };
    lemma_kept_well(upserted(h.games, (prev, completed(h.last_rolls), prev_modifiers)));
    if records.len() > 0 {
        lemma_kept_well(took_records(h, records).games);
    }
}

} // verus!
