//! Queries on the indexer's state and the answers it gives them.
use vstd::prelude::*;
use crate::events::ClaimRewardsEvent;
use crate::game_indexer::{App, claim_handled};
use crate::indexer::{account_has_bets, ensure_account_roll_template, has_bets, rebuild, rebuilt_from, same_totals};
use crate::snapshot::is_roll_template;
use crate::snapshot::{AccountModel, AccountSnapshot, HistoricalModel, HistoricalSnapshot, OverviewSnapshot};
use crate::storage::{StorageError, games_of, keys_of, lemma_keys_of_games};
use crate::table::{SortOrder, distinct_keys, in_order, page_candidates, page_ids, page_next, seq_to_map};
use crate::types::{Identity, Strap};

verus! {

/// Asks for an account's snapshot in the current game.
#[derive(Debug, PartialEq, Eq)]
pub struct AccountSnapshotQuery {
    pub identity: Identity,
}

/// Asks for the record of a finished game.
#[derive(Debug, PartialEq, Eq)]
pub struct HistoricalSnapshotQuery {
    pub game_id: u32,
}

/// Asks for an account's snapshot in a given game.
#[derive(Debug, PartialEq, Eq)]
pub struct HistoricalAccountSnapshotQuery {
    pub identity: Identity,
    pub game_id: u32,
}

/// Asks for a page of the games in which an account still has rewards to claim.
#[derive(Debug, PartialEq, Eq)]
pub struct UnclaimedGamesQuery {
    pub identity: Identity,
    pub order: SortOrder,
    pub limit: usize,
    pub cursor: Option<u32>,
}

/// A question to the indexer.
#[derive(Debug, PartialEq, Eq)]
pub enum Query {
    LatestSnapshot,
    LatestAccountSnapshot(AccountSnapshotQuery),
    HistoricalSnapshot(HistoricalSnapshotQuery),
    HistoricalAccountSnapshot(HistoricalAccountSnapshotQuery),
    UnclaimedGames(UnclaimedGamesQuery),
    AllKnownStraps,
}

impl Query {
    pub fn latest_account_summary(identity: Identity) -> (q: Query)
        ensures
            q == Query::LatestAccountSnapshot(AccountSnapshotQuery { identity }),
    {
        Query::LatestAccountSnapshot(AccountSnapshotQuery { identity })
    }

    pub fn historical_snapshot(game_id: u32) -> (q: Query)
        ensures
            q == Query::HistoricalSnapshot(HistoricalSnapshotQuery { game_id }),
    {
        Query::HistoricalSnapshot(HistoricalSnapshotQuery { game_id })
    }

    pub fn historical_account_summary(identity: Identity, game_id: u32) -> (q: Query)
        ensures
            q == Query::HistoricalAccountSnapshot(HistoricalAccountSnapshotQuery { identity, game_id }),
    {
        Query::HistoricalAccountSnapshot(HistoricalAccountSnapshotQuery { identity, game_id })
    }

    pub fn all_known_straps() -> (q: Query)
        ensures
            q == Query::AllKnownStraps,
    {
        Query::AllKnownStraps
    }

    pub fn unclaimed_games(identity: Identity, order: SortOrder, limit: usize, cursor: Option<u32>) -> (q: Query)
        ensures
            q == Query::UnclaimedGames(UnclaimedGamesQuery { identity, order, limit, cursor }),
    {
        Query::UnclaimedGames(UnclaimedGamesQuery { identity, order, limit, cursor })
    }
}

/// A finished game in which an account has rewards to claim.
#[derive(Debug, PartialEq, Eq)]
pub struct UnclaimedGame {
    pub game_id: u32,
    pub account_snapshot: AccountSnapshot,
    pub historical_snapshot: HistoricalSnapshot,
}

/// One page of unclaimed games, and the cursor of the next page, if there is more.
#[derive(Debug, PartialEq, Eq)]
pub struct UnclaimedGamesPage {
    pub games: Vec<UnclaimedGame>,
    pub next_cursor: Option<u32>,
}

/// The answer to a query.
#[derive(Debug, PartialEq, Eq)]
pub enum QueryResponse {
    LatestSnapshot(OverviewSnapshot, u32),
    LatestAccountSnapshot(Option<(AccountSnapshot, u32)>),
    HistoricalSnapshot(Option<HistoricalSnapshot>),
    HistoricalAccountSnapshot(Option<(AccountSnapshot, u32)>),
    UnclaimedGames(Result<UnclaimedGamesPage, StorageError>),
    AllKnownStraps(Vec<([u8; 32], Strap)>),
}

/// A found account snapshot, as plain values.
pub open spec fn found_view(found: Option<(AccountSnapshot, u32)>) -> Option<(AccountModel, u32)> {
    match found {
        Some((s, h)) => Some((s@, h)),
        None => None,
    }
}

/// What the stored accounts hold under `key`.
pub open spec fn account_lookup(
    accounts: Map<(Identity, u32), (AccountModel, u32)>,
    key: (Identity, u32),
) -> Option<(AccountModel, u32)> {
    if accounts.dom().contains(key) {
        Some(accounts[key])
    } else {
        None
    }
}

/// A game is listed as unclaimed for `who` when the account has a snapshot for it that
/// holds bets and no claim, and the game's record exists.
pub open spec fn claimable_listed(
    accounts: Map<(Identity, u32), (AccountModel, u32)>,
    history: Map<u32, HistoricalModel>,
    who: Identity,
    game_id: u32,
) -> bool {
    &&& accounts.dom().contains((who, game_id))
    &&& accounts[(who, game_id)].0.claimed_rewards is None
    &&& has_bets(accounts[(who, game_id)].0)
    &&& history.dom().contains(game_id)
}

/// The games of a page, by id.
pub open spec fn listed_ids(games: Seq<UnclaimedGame>) -> Seq<u32> {
    games.map_values(|g: UnclaimedGame| g.game_id)
}

/// Each game of a page carries the account's stored snapshot and the game's record.
pub open spec fn games_carry_records(
    games: Seq<UnclaimedGame>,
    accounts: Map<(Identity, u32), (AccountModel, u32)>,
    history: Map<u32, HistoricalModel>,
    who: Identity,
) -> bool {
    forall|i: int|
        0 <= i < games.len() ==> {
            &&& (#[trigger] games[i]).account_snapshot@ == accounts[(who, games[i].game_id)].0
            &&& games[i].historical_snapshot@ == history[games[i].game_id]
        }
}

/// The page of unclaimed games that `app` answers to `q`.
pub open spec fn unclaimed_page_answered(app: App, q: UnclaimedGamesQuery, page: UnclaimedGamesPage) -> bool {
    let ids = page_ids(keys_of(app.snapshots.unclaimed_view(), q.identity), q.order, q.limit, q.cursor);
    let accounts = app.snapshots.accounts_view();
    let history = app.snapshots.historical_view();
    &&& listed_ids(page.games@) == ids.filter(|g: u32| claimable_listed(accounts, history, q.identity, g))
    &&& games_carry_records(page.games@, accounts, history, q.identity)
    &&& page.next_cursor == page_next(
        keys_of(app.snapshots.unclaimed_view(), q.identity),
        q.order,
        q.limit,
        q.cursor,
    )
}

/// What the indexer answers to a query.
pub open spec fn query_answered(app: App, query: Query, r: Result<QueryResponse, StorageError>) -> bool {
    match query {
        Query::LatestSnapshot => match app.snapshots.latest_view() {
            Some((o, h)) => r matches Ok(QueryResponse::LatestSnapshot(s, sh)) && s@ == o && sh == h,
            None => r == Err::<QueryResponse, StorageError>(StorageError::NoSnapshot),
        },
        Query::LatestAccountSnapshot(q) => r matches Ok(QueryResponse::LatestAccountSnapshot(found))
            && found_view(found) == account_lookup(
            app.snapshots.accounts_view(),
            (q.identity, app.snapshots.latest_game_view()),
        ),
        Query::HistoricalSnapshot(q) => if app.snapshots.historical_view().dom().contains(q.game_id) {
            r matches Ok(QueryResponse::HistoricalSnapshot(Some(h))) && h@ == app.snapshots.historical_view()[q.game_id]
        } else {
            r == Err::<QueryResponse, StorageError>(StorageError::NoHistoricalSnapshot)
        },
        Query::HistoricalAccountSnapshot(q) => r matches Ok(QueryResponse::HistoricalAccountSnapshot(found))
            && found_view(found) == account_lookup(app.snapshots.accounts_view(), (q.identity, q.game_id)),
        Query::UnclaimedGames(q) => r matches Ok(QueryResponse::UnclaimedGames(Ok(page)))
            && unclaimed_page_answered(app, q, page),
        Query::AllKnownStraps => r matches Ok(QueryResponse::AllKnownStraps(entries)) && distinct_keys(entries@)
            && seq_to_map(entries@) == app.metadata.straps_view(),
    }
}

impl App {
    /// Answers a query from the stored snapshots and metadata.
    pub fn handle_query(&self, query: Query) -> (r: Result<QueryResponse, StorageError>)
        requires
            self.wf(),
        ensures
            query_answered(*self, query, r),
    {
        match query {
            Query::LatestSnapshot => {
                let (snapshot, height) = self.snapshots.latest_snapshot()?;
                Ok(QueryResponse::LatestSnapshot(snapshot, height))
            },
            Query::LatestAccountSnapshot(q) => {
                let found = self.snapshots.latest_account_snapshot(&q.identity)?;
                Ok(QueryResponse::LatestAccountSnapshot(found))
            },
            Query::HistoricalSnapshot(q) => {
                let snapshot = self.snapshots.historical_snapshots(q.game_id)?;
                Ok(QueryResponse::HistoricalSnapshot(Some(snapshot)))
            },
            Query::HistoricalAccountSnapshot(q) => {
                let found = self.snapshots.account_snapshot_at(&q.identity, q.game_id)?;
                Ok(QueryResponse::HistoricalAccountSnapshot(found))
            },
            Query::UnclaimedGames(q) => {
                let page = self.unclaimed_games_page(&q);
                Ok(QueryResponse::UnclaimedGames(page))
            },
            Query::AllKnownStraps => {
                let straps = self.metadata.all_known_straps()?;
                Ok(QueryResponse::AllKnownStraps(straps))
            },
        }
    }

    /// The page of games in which the account has bets, no claim, and a finished game's
    /// record, taken from one page of its unclaimed game ids.
    pub fn unclaimed_games_page(&self, q: &UnclaimedGamesQuery) -> (r: Result<UnclaimedGamesPage, StorageError>)
        requires
            self.wf(),
        ensures
            r matches Ok(page) && unclaimed_page_answered(*self, *q, page),
    {
        let page = self.snapshots.unclaimed_game_ids(&q.identity, q.order, q.limit, q.cursor)?;
        let ids = page.game_ids;
        let ghost accounts = self.snapshots.accounts_view();
        let ghost history = self.snapshots.historical_view();
        let ghost pred = |g: u32| claimable_listed(accounts, history, q.identity, g);
        let mut games: Vec<UnclaimedGame> = Vec::new();
        let mut i: usize = 0;
        while i < ids.len()
            invariant
                self.wf(),
                i <= ids@.len(),
                accounts == self.snapshots.accounts_view(),
                history == self.snapshots.historical_view(),
                pred == (|g: u32| claimable_listed(accounts, history, q.identity, g)),
                listed_ids(games@) == ids@.take(i as int).filter(pred),
                games_carry_records(games@, accounts, history, q.identity),
            decreases ids@.len() - i,
        {
            let game_id = ids[i];
            let ghost before = games@;
            let found = self.snapshots.account_snapshot_at(&q.identity, game_id)?;
            if let Some((account_snapshot, _)) = found {
                if account_snapshot.claimed_rewards.is_none() && account_has_bets(&account_snapshot) {
                    if let Ok(historical_snapshot) = self.snapshots.historical_snapshots(game_id) {
                        games.push(UnclaimedGame { game_id, account_snapshot, historical_snapshot });
                    }
                }
            }
            proof {
                reveal_with_fuel(Seq::filter, 1);
                assert(ids@.take(i + 1).drop_last() =~= ids@.take(i as int));
                if pred(game_id) {
                    assert(listed_ids(games@) =~= listed_ids(before).push(game_id));
                } else {
                    assert(games@ =~= before);
                }
            }
            i = i + 1;
        }
        proof {
            assert(ids@.take(ids@.len() as int) =~= ids@);
        }
        Ok(UnclaimedGamesPage { games, next_cursor: page.next_cursor })
    }
}

/// Gives an account snapshot one bets entry per roll, in board order, before it is served:
/// a snapshot that has eleven entries is served as it is.
pub fn normalize_account_snapshot(snapshot: &mut AccountSnapshot)
    ensures
        same_totals(final(snapshot)@, old(snapshot)@),
        old(snapshot).per_roll_bets@.len() == 11 ==> final(snapshot)@ == old(snapshot)@,
        old(snapshot).per_roll_bets@.len() != 11 ==> is_roll_template(final(snapshot).per_roll_bets@)
            && rebuilt_from(old(snapshot)@.per_roll_bets, final(snapshot)@.per_roll_bets)
            && final(snapshot)@.per_roll_bets == rebuild(old(snapshot)@.per_roll_bets, 0),
{
    ensure_account_roll_template(snapshot);
}

/// Once the indexer has handled a player's claim of a game, no page of that player's
/// unclaimed games lists the game, whatever its order, limit and cursor.
pub proof fn law_claimed_game_not_listed(
    a: App,
    b: App,
    e: ClaimRewardsEvent,
    height: u32,
    q: UnclaimedGamesQuery,
    page: UnclaimedGamesPage,
)
    requires
        claim_handled(a, b, e, height, Ok(())),
        q.identity == e.player,
        unclaimed_page_answered(b, q, page),
    ensures
        !listed_ids(page.games@).contains(e.game_id),
{
    let keys = keys_of(b.snapshots.unclaimed_view(), q.identity);
    let ids = page_ids(keys, q.order, q.limit, q.cursor);
    let accounts = b.snapshots.accounts_view();
    let history = b.snapshots.historical_view();
    let pred = |g: u32| claimable_listed(accounts, history, q.identity, g);
    if listed_ids(page.games@).contains(e.game_id) {
        ids.lemma_filter_contains_rev(pred, e.game_id);
        let cands = page_candidates(keys, q.order, q.cursor);
        assert(cands.contains(e.game_id)) by {
            if cands.len() > q.limit {
                let i = choose|i: int| 0 <= i < ids.len() && ids[i] == e.game_id;
                assert(cands[i] == e.game_id);
            }
        }
        let ord = in_order(keys, q.order);
        ord.lemma_filter_contains_rev(crate::table::beyond_cursor(q.order, q.cursor), e.game_id);
        assert(keys.contains(e.game_id)) by {
            let i = choose|i: int| 0 <= i < ord.len() && ord[i] == e.game_id;
            match q.order {
                SortOrder::Asc => {},
                SortOrder::Desc => {
                    assert(keys[keys.len() - 1 - i] == e.game_id);
                },
            }
        }
        lemma_keys_of_games(b.snapshots.unclaimed_view(), q.identity, e.game_id);
        assert(games_of(b.snapshots.unclaimed_view(), e.player).dom().contains(e.game_id));
    }
}

} // verus!
