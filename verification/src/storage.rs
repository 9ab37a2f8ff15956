//! In-memory storage of the indexer's snapshots: the latest overview, every account's
//! snapshot per game, the records of finished games, and per-account game histories.
use vstd::prelude::*;
use crate::snapshot::{
    AccountModel, AccountSnapshot, HistoricalModel, HistoricalSnapshot, OverviewModel,
    OverviewSnapshot,
};
use crate::table::{
    GameIdPage, GameTable, SortOrder, Table, distinct_keys, page_ids, page_next, seq_to_map,
};
use crate::types::{Identity, Strap};

verus! {

/// Why a storage lookup failed.
#[derive(Clone, Copy, Debug, PartialEq, Eq, Structural)]
pub enum StorageError {
    /// No overview snapshot has been written yet.
    NoSnapshot,
    /// No record was written for the requested game.
    NoHistoricalSnapshot,
}

/// The address of an identity that is a wallet address.
pub open spec fn address_of(account: Identity) -> Option<[u8; 32]> {
    match account {
        Identity::Address(a) => Some(a),
        Identity::ContractId(_) => None,
    }
}

/// Snapshots held in memory.
pub struct InMemorySnapshotStorage {
    latest_game_id: u32,
    snapshot: Option<(OverviewSnapshot, u32)>,
    account_snapshots: Table<(Identity, u32), (AccountSnapshot, u32)>,
    historical_snapshots: Table<u32, HistoricalSnapshot>,
    unclaimed_snapshots: Table<Identity, GameTable>,
    bet_history_snapshots: Table<Identity, GameTable>,
    game_bettors: Table<u32, Table<[u8; 32], ()>>,
}

/// The game ids of an account's table, in ascending order (none when it has no table).
pub open spec fn keys_of(t: Map<Identity, GameTable>, account: Identity) -> Seq<u32> {
    if t.dom().contains(account) {
        t[account].keys_view()
    } else {
        Seq::empty()
    }
}

/// An account's table as a map from game id to height (empty when it has no table).
pub open spec fn games_of(t: Map<Identity, GameTable>, account: Identity) -> Map<u32, u32> {
    if t.dom().contains(account) {
        t[account].map_view()
    } else {
        Map::empty()
    }
}

/// An account's listed game ids are the games of its table.
pub proof fn lemma_keys_of_games(t: Map<Identity, GameTable>, account: Identity, game_id: u32)
    ensures
        keys_of(t, account).contains(game_id) <==> games_of(t, account).dom().contains(game_id),
{
    if t.dom().contains(account) {
        let entries = t[account].entries_view();
        let keys = keys_of(t, account);
        if keys.contains(game_id) {
            let i = choose|i: int| 0 <= i < keys.len() && keys[i] == game_id;
            assert(entries[i].0 == game_id);
        }
        if games_of(t, account).dom().contains(game_id) {
            let i = choose|i: int| 0 <= i < entries.len() && entries[i].0 == game_id;
            assert(keys[i] == game_id);
        }
    }
}

impl InMemorySnapshotStorage {
    /// The tables are well formed.
    pub closed spec fn wf(&self) -> bool {
        &&& self.account_snapshots.wf()
        &&& self.historical_snapshots.wf()
        &&& self.unclaimed_snapshots.wf()
        &&& self.bet_history_snapshots.wf()
        &&& self.game_bettors.wf()
        &&& forall|a: Identity| #[trigger]
            self.unclaimed_snapshots.map_view().dom().contains(a)
                ==> self.unclaimed_snapshots.map_view()[a].wf()
        &&& forall|a: Identity| #[trigger]
            self.bet_history_snapshots.map_view().dom().contains(a)
                ==> self.bet_history_snapshots.map_view()[a].wf()
        &&& forall|g: u32| #[trigger]
            self.game_bettors.map_view().dom().contains(g) ==> self.game_bettors.map_view()[g].wf()
    }

    /// The latest overview snapshot and its height.
    pub closed spec fn latest_view(&self) -> Option<(OverviewModel, u32)> {
        match self.snapshot {
            Some((s, h)) => Some((s@, h)),
            None => None,
        }
    }

    /// The game of the latest overview snapshot written (0 before any).
    pub closed spec fn latest_game_view(&self) -> u32 {
        self.latest_game_id
    }

    /// Account snapshots by account and game, each with its height.
    pub closed spec fn accounts_view(&self) -> Map<(Identity, u32), (AccountModel, u32)> {
        self.account_snapshots.map_view().map_values(|v: (AccountSnapshot, u32)| (v.0@, v.1))
    }

    /// Records of finished games.
    pub closed spec fn historical_view(&self) -> Map<u32, HistoricalModel> {
        self.historical_snapshots.map_view().map_values(|h: HistoricalSnapshot| h@)
    }

    /// Per account, the games it has not claimed yet, with the height at which they were marked.
    pub closed spec fn unclaimed_view(&self) -> Map<Identity, GameTable> {
        self.unclaimed_snapshots.map_view()
    }

    /// Per account, the games it bet in, with the height of its latest bet.
    pub closed spec fn bet_history_view(&self) -> Map<Identity, GameTable> {
        self.bet_history_snapshots.map_view()
    }

    /// Per game, the addresses that bet in it.
    pub closed spec fn bettors_view(&self) -> Map<u32, Set<[u8; 32]>> {
        self.game_bettors.map_view().map_values(|t: Table<[u8; 32], ()>| t.map_view().dom())
    }

    /// Storage with nothing in it.
    pub fn new() -> (s: Self)
        ensures
            s.wf(),
            s.latest_view() is None,
            s.latest_game_view() == 0,
            s.accounts_view() == Map::<(Identity, u32), (AccountModel, u32)>::empty(),
            s.historical_view() == Map::<u32, HistoricalModel>::empty(),
            s.unclaimed_view() == Map::<Identity, GameTable>::empty(),
            s.bet_history_view() == Map::<Identity, GameTable>::empty(),
            s.bettors_view() == Map::<u32, Set<[u8; 32]>>::empty(),
    {
        let s = InMemorySnapshotStorage {
            latest_game_id: 0,
            snapshot: None,
            account_snapshots: Table::new(),
            historical_snapshots: Table::new(),
            unclaimed_snapshots: Table::new(),
            bet_history_snapshots: Table::new(),
            game_bettors: Table::new(),
        };
        assert(s.accounts_view() =~= Map::<(Identity, u32), (AccountModel, u32)>::empty());
        assert(s.historical_view() =~= Map::<u32, HistoricalModel>::empty());
        assert(s.bettors_view() =~= Map::<u32, Set<[u8; 32]>>::empty());
        s
    }

    /// Storage that starts from the given overview snapshot; the latest game stays 0 until
    /// an overview is written.
    pub fn new_with_snapshot(snapshot: OverviewSnapshot, height: u32) -> (s: Self)
        ensures
            s.wf(),
            s.latest_view() == Some((snapshot@, height)),
            s.latest_game_view() == 0,
            s.accounts_view() == Map::<(Identity, u32), (AccountModel, u32)>::empty(),
            s.historical_view() == Map::<u32, HistoricalModel>::empty(),
            s.unclaimed_view() == Map::<Identity, GameTable>::empty(),
            s.bet_history_view() == Map::<Identity, GameTable>::empty(),
            s.bettors_view() == Map::<u32, Set<[u8; 32]>>::empty(),
    {
        let mut s = Self::new();
        s.snapshot = Some((snapshot, height));
        s
    }

    /// A copy of the latest overview snapshot and its height, if one was written.
    pub fn snapshot(&self) -> (r: Option<(OverviewSnapshot, u32)>)
        ensures
            match r {
                Some((s, h)) => self.latest_view() == Some((s@, h)),
                None => self.latest_view() is None,
            },
    {
        match &self.snapshot {
            Some((s, h)) => Some((s.clone(), *h)),
            None => None,
        }
    }

    /// The address of an identity that is a wallet address.
    pub fn identity_address_key(account: &Identity) -> (r: Option<[u8; 32]>)
        ensures
            r == address_of(*account),
    {
        match account {
            Identity::Address(address) => Some(*address),
            _ => None,
        }
    }

    /// The latest overview snapshot and its height.
    pub fn latest_snapshot(&self) -> (r: Result<(OverviewSnapshot, u32), StorageError>)
        ensures
            match r {
                Ok((s, h)) => self.latest_view() == Some((s@, h)),
                Err(e) => self.latest_view() is None && e == StorageError::NoSnapshot,
            },
    {
        match &self.snapshot {
            Some((s, h)) => Ok((s.clone(), *h)),
            None => Err(StorageError::NoSnapshot),
        }
    }

    /// The account's snapshot for the game of the latest overview written.
    pub fn latest_account_snapshot(&self, account: &Identity) -> (r: Result<Option<(AccountSnapshot, u32)>, StorageError>)
        requires
            self.wf(),
        ensures
            r matches Ok(found) && match found {
                Some((s, h)) => self.accounts_view().dom().contains((*account, self.latest_game_view()))
                    && self.accounts_view()[(*account, self.latest_game_view())] == (s@, h),
                None => !self.accounts_view().dom().contains((*account, self.latest_game_view())),
            },
    {
        self.account_snapshot_at(account, self.latest_game_id)
    }

    /// The account's snapshot for the given game.
    pub fn account_snapshot_at(&self, account: &Identity, game_id: u32) -> (r: Result<Option<(AccountSnapshot, u32)>, StorageError>)
        requires
            self.wf(),
        ensures
            r matches Ok(found) && match found {
                Some((s, h)) => self.accounts_view().dom().contains((*account, game_id))
                    && self.accounts_view()[(*account, game_id)] == (s@, h),
                None => !self.accounts_view().dom().contains((*account, game_id)),
            },
    {
        match self.account_snapshots.get(&(*account, game_id)) {
            Some(entry) => Ok(Some((entry.0.clone(), entry.1))),
            None => Ok(None),
        }
    }

    /// A page of the games the account bet in.
    pub fn bet_history_game_ids(
        &self,
        account: &Identity,
        order: SortOrder,
        limit: usize,
        cursor: Option<u32>,
    ) -> (r: Result<GameIdPage, StorageError>)
        requires
            self.wf(),
        ensures
            r matches Ok(page) && page.game_ids@ == page_ids(
                keys_of(self.bet_history_view(), *account),
                order,
                limit,
                cursor,
            ) && page.next_cursor == page_next(
                keys_of(self.bet_history_view(), *account),
                order,
                limit,
                cursor,
            ),
    {
        match self.bet_history_snapshots.get(account) {
            Some(table) => Ok(table.page(order, limit, cursor)),
            None => {
                let empty = GameTable::new();
                let page = empty.page(order, limit, cursor);
                Ok(page)
            },
        }
    }

    /// A page of the games the account has not claimed yet.
    pub fn unclaimed_game_ids(
        &self,
        account: &Identity,
        order: SortOrder,
        limit: usize,
        cursor: Option<u32>,
    ) -> (r: Result<GameIdPage, StorageError>)
        requires
            self.wf(),
        ensures
            r matches Ok(page) && page.game_ids@ == page_ids(
                keys_of(self.unclaimed_view(), *account),
                order,
                limit,
                cursor,
            ) && page.next_cursor == page_next(
                keys_of(self.unclaimed_view(), *account),
                order,
                limit,
                cursor,
            ),
    {
        match self.unclaimed_snapshots.get(account) {
            Some(table) => Ok(table.page(order, limit, cursor)),
            None => {
                let empty = GameTable::new();
                let page = empty.page(order, limit, cursor);
                Ok(page)
            },
        }
    }

    /// Records that the account bet in the game at the given height; a wallet address also
    /// joins the game's bettors.
    pub fn record_bet_history(&mut self, account: &Identity, game_id: u32, height: u32) -> (r: Result<(), StorageError>)
        requires
            old(self).wf(),
        ensures
            r is Ok,
            final(self).wf(),
            games_of(final(self).bet_history_view(), *account) == games_of(
                old(self).bet_history_view(),
                *account,
            ).insert(game_id, height),
            forall|a: Identity| a != *account ==> #[trigger] games_of(final(self).bet_history_view(), a)
                == games_of(old(self).bet_history_view(), a),
            final(self).bettors_view() == match address_of(*account) {
                Some(addr) => old(self).bettors_view().insert(
                    game_id,
                    if old(self).bettors_view().dom().contains(game_id) {
                        old(self).bettors_view()[game_id].insert(addr)
                    } else {
                        set![addr]
                    },
                ),
                None => old(self).bettors_view(),
            },
            final(self).latest_view() == old(self).latest_view(),
            final(self).latest_game_view() == old(self).latest_game_view(),
            final(self).accounts_view() == old(self).accounts_view(),
            final(self).historical_view() == old(self).historical_view(),
            final(self).unclaimed_view() == old(self).unclaimed_view(),
    {
        Self::insert_game(&mut self.bet_history_snapshots, account, game_id, height);
        if let Some(address) = Self::identity_address_key(account) {
            let ghost old_bettors = self.game_bettors.map_view();
            let mut set = match self.game_bettors.take(&game_id) {
                Some(t) => t,
                None => Table::new(),
            };
            set.insert(address, ());
            self.game_bettors.insert(game_id, set);
            proof {
                let nb = self.game_bettors.map_view().map_values(|t: Table<[u8; 32], ()>| t.map_view().dom());
                let ob = old_bettors.map_values(|t: Table<[u8; 32], ()>| t.map_view().dom());
                let expected = ob.insert(
                    game_id,
                    if ob.dom().contains(game_id) {
                        ob[game_id].insert(address)
                    } else {
                        set![address]
                    },
                );
                if ob.dom().contains(game_id) {
                    assert(old_bettors[game_id].map_view().dom().insert(address) =~= expected[game_id]);
                } else {
                    assert(Map::<[u8; 32], ()>::empty().insert(address, ()).dom() =~= set![address]);
                }
                assert(nb =~= expected);
            }
        }
        Ok(())
    }

    /// Inserts (game, height) into the account's table, creating it when needed.
    fn insert_game(t: &mut Table<Identity, GameTable>, account: &Identity, game_id: u32, height: u32)
        requires
            old(t).wf(),
            forall|a: Identity| #[trigger] old(t).map_view().dom().contains(a) ==> old(t).map_view()[a].wf(),
        ensures
            final(t).wf(),
            forall|a: Identity| #[trigger] final(t).map_view().dom().contains(a) ==> final(t).map_view()[a].wf(),
            final(t).map_view().dom().contains(*account),
            games_of(final(t).map_view(), *account) == games_of(old(t).map_view(), *account).insert(game_id, height),
            forall|a: Identity| a != *account ==> (#[trigger] final(t).map_view().dom().contains(a)
                <==> old(t).map_view().dom().contains(a)),
            forall|a: Identity| a != *account && old(t).map_view().dom().contains(a)
                ==> #[trigger] final(t).map_view()[a] == old(t).map_view()[a],
    {
        let mut table = match t.take(account) {
            Some(table) => table,
            None => GameTable::new(),
        };
        table.insert(game_id, height);
        t.insert(*account, table);
    }

    /// The wallet addresses that bet in the game, each once.
    pub fn bettors_for_game(&self, game_id: u32) -> (r: Result<Vec<[u8; 32]>, StorageError>)
        requires
            self.wf(),
        ensures
            r matches Ok(v) && v@.no_duplicates() && v@.to_set() == (if self.bettors_view().dom().contains(game_id) {
                self.bettors_view()[game_id]
            } else {
                Set::empty()
            }),
    {
        match self.game_bettors.get(&game_id) {
            Some(set) => Ok(set.keys()),
            None => {
                let v: Vec<[u8; 32]> = Vec::new();
                assert(v@.to_set() =~= Set::<[u8; 32]>::empty());
                Ok(v)
            },
        }
    }

    /// Marks the game as unclaimed by the account, at the given height.
    pub fn mark_unclaimed(&mut self, account: &Identity, game_id: u32, height: u32) -> (r: Result<(), StorageError>)
        requires
            old(self).wf(),
        ensures
            r is Ok,
            final(self).wf(),
            games_of(final(self).unclaimed_view(), *account) == games_of(
                old(self).unclaimed_view(),
                *account,
            ).insert(game_id, height),
            forall|a: Identity| a != *account ==> #[trigger] games_of(final(self).unclaimed_view(), a)
                == games_of(old(self).unclaimed_view(), a),
            final(self).latest_view() == old(self).latest_view(),
            final(self).latest_game_view() == old(self).latest_game_view(),
            final(self).accounts_view() == old(self).accounts_view(),
            final(self).historical_view() == old(self).historical_view(),
            final(self).bet_history_view() == old(self).bet_history_view(),
            final(self).bettors_view() == old(self).bettors_view(),
    {
        Self::insert_game(&mut self.unclaimed_snapshots, account, game_id, height);
        Ok(())
    }

    /// Clears the unclaimed mark of the game for the account.
    pub fn clear_unclaimed(&mut self, account: &Identity, game_id: u32) -> (r: Result<(), StorageError>)
        requires
            old(self).wf(),
        ensures
            r is Ok,
            final(self).wf(),
            games_of(final(self).unclaimed_view(), *account) == games_of(
                old(self).unclaimed_view(),
                *account,
            ).remove(game_id),
            forall|a: Identity| a != *account ==> #[trigger] games_of(final(self).unclaimed_view(), a)
                == games_of(old(self).unclaimed_view(), a),
            final(self).latest_view() == old(self).latest_view(),
            final(self).latest_game_view() == old(self).latest_game_view(),
            final(self).accounts_view() == old(self).accounts_view(),
            final(self).historical_view() == old(self).historical_view(),
            final(self).bet_history_view() == old(self).bet_history_view(),
            final(self).bettors_view() == old(self).bettors_view(),
    {
        match self.unclaimed_snapshots.take(account) {
            Some(mut table) => {
                table.remove(game_id);
                self.unclaimed_snapshots.insert(*account, table);
            },
            None => {
                assert(games_of(old(self).unclaimed_view(), *account).remove(game_id) =~= Map::<u32, u32>::empty());
            },
        }
        Ok(())
    }

    /// Writes the overview snapshot as the latest, at the given height.
    pub fn update_snapshot(&mut self, snapshot: &OverviewSnapshot, height: u32) -> (r: Result<(), StorageError>)
        requires
            old(self).wf(),
        ensures
            r is Ok,
            final(self).wf(),
            final(self).latest_view() == Some((snapshot@, height)),
            final(self).latest_game_view() == snapshot.game_id,
            final(self).accounts_view() == old(self).accounts_view(),
            final(self).historical_view() == old(self).historical_view(),
            final(self).unclaimed_view() == old(self).unclaimed_view(),
            final(self).bet_history_view() == old(self).bet_history_view(),
            final(self).bettors_view() == old(self).bettors_view(),
    {
        self.latest_game_id = snapshot.game_id;
        self.snapshot = Some((snapshot.clone(), height));
        Ok(())
    }

    /// Writes the account's snapshot for the game, at the given height.
    pub fn update_account_snapshot(
        &mut self,
        account: &Identity,
        game_id: u32,
        account_snapshot: &AccountSnapshot,
        height: u32,
    ) -> (r: Result<(), StorageError>)
        requires
            old(self).wf(),
        ensures
            r is Ok,
            final(self).wf(),
            final(self).accounts_view() == old(self).accounts_view().insert(
                (*account, game_id),
                (account_snapshot@, height),
            ),
            final(self).latest_view() == old(self).latest_view(),
            final(self).latest_game_view() == old(self).latest_game_view(),
            final(self).historical_view() == old(self).historical_view(),
            final(self).unclaimed_view() == old(self).unclaimed_view(),
            final(self).bet_history_view() == old(self).bet_history_view(),
            final(self).bettors_view() == old(self).bettors_view(),
    {
        let ghost old_map = self.account_snapshots.map_view();
        let copy = account_snapshot.clone();
        self.account_snapshots.insert((*account, game_id), (copy, height));
        assert(self.accounts_view() =~= old(self).accounts_view().insert(
            (*account, game_id),
            (account_snapshot@, height),
        ));
        Ok(())
    }

    /// The record of the given finished game.
    pub fn historical_snapshots(&self, game_id: u32) -> (r: Result<HistoricalSnapshot, StorageError>)
        requires
            self.wf(),
        ensures
            match r {
                Ok(h) => self.historical_view().dom().contains(game_id) && h@ == self.historical_view()[game_id],
                Err(e) => !self.historical_view().dom().contains(game_id) && e == StorageError::NoHistoricalSnapshot,
            },
    {
        match self.historical_snapshots.get(&game_id) {
            Some(h) => Ok(h.clone()),
            None => Err(StorageError::NoHistoricalSnapshot),
        }
    }

    /// Writes the record of a finished game.
    pub fn write_historical_snapshot(&mut self, game_id: u32, snapshot: &HistoricalSnapshot) -> (r: Result<(), StorageError>)
        requires
            old(self).wf(),
        ensures
            r is Ok,
            final(self).wf(),
            final(self).historical_view() == old(self).historical_view().insert(game_id, snapshot@),
            final(self).latest_view() == old(self).latest_view(),
            final(self).latest_game_view() == old(self).latest_game_view(),
            final(self).accounts_view() == old(self).accounts_view(),
            final(self).unclaimed_view() == old(self).unclaimed_view(),
            final(self).bet_history_view() == old(self).bet_history_view(),
            final(self).bettors_view() == old(self).bettors_view(),
    {
        let copy = snapshot.clone();
        self.historical_snapshots.insert(game_id, copy);
        assert(self.historical_view() =~= old(self).historical_view().insert(game_id, snapshot@));
        Ok(())
    }
}

impl Default for InMemorySnapshotStorage {
    fn default() -> (s: Self)
        ensures
            s.wf(),
            s.latest_view() is None,
            s.latest_game_view() == 0,
            s.accounts_view() == Map::<(Identity, u32), (AccountModel, u32)>::empty(),
            s.historical_view() == Map::<u32, HistoricalModel>::empty(),
            s.unclaimed_view() == Map::<Identity, GameTable>::empty(),
            s.bet_history_view() == Map::<Identity, GameTable>::empty(),
            s.bettors_view() == Map::<u32, Set<[u8; 32]>>::empty(),
    {
        Self::new()
    }
}

/// What is known of each strap asset: the strap that an asset id stands for.
pub struct InMemoryMetadataStorage {
    straps: Table<[u8; 32], Strap>,
}

impl InMemoryMetadataStorage {
    pub closed spec fn wf(&self) -> bool {
        self.straps.wf()
    }

    /// The strap recorded for each known asset id.
    pub closed spec fn straps_view(&self) -> Map<[u8; 32], Strap> {
        self.straps.map_view()
    }

    pub fn new() -> (s: Self)
        ensures
            s.wf(),
            s.straps_view() == Map::<[u8; 32], Strap>::empty(),
    {
        InMemoryMetadataStorage { straps: Table::new() }
    }

    /// The known asset ids, each once, with their straps.
    pub fn straps(&self) -> (r: Vec<([u8; 32], Strap)>)
        requires
            self.wf(),
        ensures
            distinct_keys(r@),
            seq_to_map(r@) == self.straps_view(),
    {
        self.straps.to_vec()
    }

    /// The strap that an asset id stands for, if it is known.
    pub fn strap_asset_id(&self, strap_id: &[u8; 32]) -> (r: Result<Option<Strap>, StorageError>)
        requires
            self.wf(),
        ensures
            r matches Ok(found) && match found {
                Some(s) => self.straps_view().dom().contains(*strap_id) && self.straps_view()[*strap_id] == s,
                None => !self.straps_view().dom().contains(*strap_id),
            },
    {
        match self.straps.get(strap_id) {
            Some(s) => Ok(Some(*s)),
            None => Ok(None),
        }
    }

    /// Records the strap that an asset id stands for.
    pub fn record_new_asset_id(&mut self, strap_id: &[u8; 32], strap: &Strap) -> (r: Result<(), StorageError>)
        requires
            old(self).wf(),
        ensures
            r is Ok,
            final(self).wf(),
            final(self).straps_view() == old(self).straps_view().insert(*strap_id, *strap),
    {
        self.straps.insert(*strap_id, *strap);
        Ok(())
    }

    /// All known strap asset ids, each once.
    pub fn all_known_strap_asset_ids(&self) -> (r: Result<Vec<[u8; 32]>, StorageError>)
        requires
            self.wf(),
        ensures
            r matches Ok(ids) && ids@.no_duplicates() && ids@.to_set() == self.straps_view().dom(),
    {
        Ok(self.straps.keys())
    }

    /// All known strap asset ids, each once, with their straps.
    pub fn all_known_straps(&self) -> (r: Result<Vec<([u8; 32], Strap)>, StorageError>)
        requires
            self.wf(),
        ensures
            r matches Ok(entries) && distinct_keys(entries@) && seq_to_map(entries@) == self.straps_view(),
    {
        Ok(self.straps.to_vec())
    }
}

impl Default for InMemoryMetadataStorage {
    fn default() -> (s: Self)
        ensures
            s.wf(),
            s.straps_view() == Map::<[u8; 32], Strap>::empty(),
    {
        Self::new()
    }
}

/// Marking a game unclaimed for an account and then clearing it gives back the account's
/// unclaimed games as they were, when the game was not among them before.
pub proof fn law_mark_then_clear_restores(
    before: InMemorySnapshotStorage,
    marked: InMemorySnapshotStorage,
    cleared: InMemorySnapshotStorage,
    account: Identity,
    game_id: u32,
    height: u32,
)
    requires
        !games_of(before.unclaimed_view(), account).dom().contains(game_id),
        games_of(marked.unclaimed_view(), account) == games_of(before.unclaimed_view(), account).insert(game_id, height),
        games_of(cleared.unclaimed_view(), account) == games_of(marked.unclaimed_view(), account).remove(game_id),
    ensures
        games_of(cleared.unclaimed_view(), account) == games_of(before.unclaimed_view(), account),
{
    assert(games_of(cleared.unclaimed_view(), account) =~= games_of(before.unclaimed_view(), account));
}

} // verus!
