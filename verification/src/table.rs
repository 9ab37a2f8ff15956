//! Keyed tables held as lists of distinct keys, and game tables held in ascending order of
//! game id, with the paging that the query API offers over them.
use vstd::prelude::*;
use crate::types::{Identity, bytes32_eq, identity_eq};

verus! {

/// Keys that can be compared for equality.
pub trait KeyEq: Sized {
    fn key_eq(&self, other: &Self) -> (r: bool)
        ensures
            r == (*self == *other),
    ;
}

impl KeyEq for u32 {
    fn key_eq(&self, other: &Self) -> (r: bool) {
        *self == *other
    }
}

impl KeyEq for Identity {
    fn key_eq(&self, other: &Self) -> (r: bool) {
        identity_eq(self, other)
    }
}

impl KeyEq for [u8; 32] {
    fn key_eq(&self, other: &Self) -> (r: bool) {
        bytes32_eq(self, other)
    }
}

impl KeyEq for (Identity, u32) {
    fn key_eq(&self, other: &Self) -> (r: bool) {
        identity_eq(&self.0, &other.0) && self.1 == other.1
    }
}

/// A table from keys to values; no key occurs twice.
pub struct Table<K, V> {
    entries: Vec<(K, V)>,
}

impl<K: KeyEq + Copy, V> Table<K, V> {
    /// No key occurs twice.
    pub closed spec fn wf(&self) -> bool {
        forall|i: int, j: int|
            0 <= i < self.entries@.len() && 0 <= j < self.entries@.len() && i != j
                ==> self.entries@[i].0 != self.entries@[j].0
    }

    /// The entries, in the order in which the table keeps them.
    pub closed spec fn entries_view(&self) -> Seq<(K, V)> {
        self.entries@
    }

    /// The table as a map.
    pub closed spec fn map_view(&self) -> Map<K, V> {
        seq_to_map(self.entries@)
    }

    pub fn new() -> (t: Self)
        ensures
            t.wf(),
            t.map_view() == Map::<K, V>::empty(),
            t.entries_view().len() == 0,
    {
        let t = Table { entries: Vec::new() };
        assert(t.map_view() =~= Map::<K, V>::empty());
        t
    }

    fn index_of(&self, k: &K) -> (r: Option<usize>)
        ensures
            match r {
                Some(i) => i < self.entries@.len() && self.entries@[i as int].0 == *k,
                None => forall|i: int| 0 <= i < self.entries@.len() ==> self.entries@[i].0 != *k,
            },
    {
        let mut i: usize = 0;
        while i < self.entries.len()
            invariant
                0 <= i <= self.entries@.len(),
                forall|j: int| 0 <= j < i ==> self.entries@[j].0 != *k,
            decreases self.entries@.len() - i,
        {
            if self.entries[i].0.key_eq(k) {
                return Some(i);
            }
            i = i + 1;
        }
        None
    }

    /// The value stored under `k`, if any.
    pub fn get(&self, k: &K) -> (r: Option<&V>)
        requires
            self.wf(),
        ensures
            match r {
                Some(v) => self.map_view().dom().contains(*k) && *v == self.map_view()[*k],
                None => !self.map_view().dom().contains(*k),
            },
    {
        match self.index_of(k) {
            Some(i) => {
                proof {
                    lemma_seq_to_map_at(self.entries@, i as int);
                }
                Some(&self.entries[i].1)
            },
            None => None,
        }
    }

    /// Stores `v` under `k`, replacing what was there.
    pub fn insert(&mut self, k: K, v: V)
        requires
            old(self).wf(),
        ensures
            final(self).wf(),
            final(self).map_view() == old(self).map_view().insert(k, v),
    {
        let ghost old_entries = self.entries@;
        match self.index_of(&k) {
            Some(i) => {
                self.entries.set(i, (k, v));
                proof {
                    lemma_seq_to_map_update(old_entries, i as int, k, v);
                }
            },
            None => {
                self.entries.push((k, v));
                proof {
                    lemma_seq_to_map_push(old_entries, k, v);
                }
            },
        }
    }

    /// Takes the value stored under `k` out of the table.
    pub fn take(&mut self, k: &K) -> (r: Option<V>)
        requires
            old(self).wf(),
        ensures
            final(self).wf(),
            final(self).map_view() == old(self).map_view().remove(*k),
            match r {
                Some(v) => old(self).map_view().dom().contains(*k) && v == old(self).map_view()[*k],
                None => !old(self).map_view().dom().contains(*k),
            },
    {
        let ghost old_entries = self.entries@;
        match self.index_of(k) {
            Some(i) => {
                let (_, v) = self.entries.remove(i);
                proof {
                    lemma_seq_to_map_at(old_entries, i as int);
                    lemma_seq_to_map_remove(old_entries, i as int);
                }
                Some(v)
            },
            None => {
                assert(self.map_view() =~= old(self).map_view().remove(*k));
                None
            },
        }
    }

    /// The keys of the table, in the order in which it keeps them.
    pub fn keys(&self) -> (r: Vec<K>)
        requires
            self.wf(),
        ensures
            r@ == self.entries_view().map_values(|e: (K, V)| e.0),
            r@.no_duplicates(),
            r@.to_set() == self.map_view().dom(),
    {
        let mut r: Vec<K> = Vec::new();
        let mut i: usize = 0;
        while i < self.entries.len()
            invariant
                0 <= i <= self.entries@.len(),
                self.wf(),
                r@ == self.entries@.take(i as int).map_values(|e: (K, V)| e.0),
            decreases self.entries@.len() - i,
        {
            r.push(self.entries[i].0);
            assert(self.entries@.take(i + 1).map_values(|e: (K, V)| e.0) =~= self.entries@.take(
                i as int,
            ).map_values(|e: (K, V)| e.0).push(self.entries@[i as int].0));
            i = i + 1;
        }
        assert(self.entries@.take(self.entries@.len() as int) =~= self.entries@);
        assert(r@.to_set() =~= self.map_view().dom()) by {
            assert forall|k: K| r@.to_set().contains(k) implies self.map_view().dom().contains(k) by {
                let j = choose|j: int| 0 <= j < r@.len() && r@[j] == k;
                assert(self.entries@[j].0 == k);
            }
            assert forall|k: K| self.map_view().dom().contains(k) implies r@.to_set().contains(k) by {
                let j = choose|j: int| 0 <= j < self.entries@.len() && self.entries@[j].0 == k;
                assert(r@[j] == k);
            }
        }
        r
    }

    pub fn len(&self) -> (n: usize)
        requires
            self.wf(),
        ensures
            n == self.map_view().dom().len(),
            self.map_view().dom().finite(),
    {
        proof {
            lemma_seq_to_map_len(self.entries@);
        }
        self.entries.len()
    }
}

impl<K: KeyEq + Copy, V: Copy> Table<K, V> {
    /// The entries of the table: each key once, with its value.
    pub fn to_vec(&self) -> (r: Vec<(K, V)>)
        requires
            self.wf(),
        ensures
            r@ == self.entries_view(),
            distinct_keys(r@),
            seq_to_map(r@) == self.map_view(),
    {
        crate::snapshot::copy_vec(&self.entries)
    }
}

/// The map that a list of entries with distinct keys stands for.
pub open spec fn seq_to_map<K, V>(s: Seq<(K, V)>) -> Map<K, V> {
    Map::new(
        |k: K| exists|i: int| 0 <= i < s.len() && s[i].0 == k,
        |k: K| s[choose|i: int| 0 <= i < s.len() && s[i].0 == k].1,
    )
}

pub open spec fn distinct_keys<K, V>(s: Seq<(K, V)>) -> bool {
    forall|i: int, j: int| 0 <= i < s.len() && 0 <= j < s.len() && i != j ==> s[i].0 != s[j].0
}

pub proof fn lemma_seq_to_map_at<K, V>(s: Seq<(K, V)>, i: int)
    requires
        distinct_keys(s),
        0 <= i < s.len(),
    ensures
        seq_to_map(s).dom().contains(s[i].0),
        seq_to_map(s)[s[i].0] == s[i].1,
{
    let k = s[i].0;
    assert(exists|j: int| 0 <= j < s.len() && s[j].0 == k);
    let j = choose|j: int| 0 <= j < s.len() && s[j].0 == k;
    assert(j == i);
}

pub proof fn lemma_seq_to_map_update<K, V>(s: Seq<(K, V)>, i: int, k: K, v: V)
    requires
        distinct_keys(s),
        0 <= i < s.len(),
        s[i].0 == k,
    ensures
        distinct_keys(s.update(i, (k, v))),
        seq_to_map(s.update(i, (k, v))) == seq_to_map(s).insert(k, v),
{
    let t = s.update(i, (k, v));
    assert forall|k2: K| #[trigger] seq_to_map(t).dom().contains(k2) <==> seq_to_map(s).insert(k, v).dom().contains(k2) by {
        if seq_to_map(t).dom().contains(k2) {
            let j = choose|j: int| 0 <= j < t.len() && t[j].0 == k2;
            if j != i {
                assert(s[j].0 == k2);
            }
        }
        if seq_to_map(s).dom().contains(k2) {
            let j = choose|j: int| 0 <= j < s.len() && s[j].0 == k2;
            assert(t[j].0 == k2);
        }
        if k2 == k {
            assert(t[i].0 == k2);
        }
    }
    assert forall|k2: K| seq_to_map(t).dom().contains(k2) implies #[trigger] seq_to_map(t)[k2] == seq_to_map(s).insert(k, v)[k2] by {
        let j = choose|j: int| 0 <= j < t.len() && t[j].0 == k2;
        if k2 == k {
            assert(j == i);
        } else {
            assert(j != i);
            assert(s[j].0 == k2);
            let j2 = choose|j2: int| 0 <= j2 < s.len() && s[j2].0 == k2;
            assert(j2 == j);
        }
    }
    assert(seq_to_map(t) =~= seq_to_map(s).insert(k, v));
}

pub proof fn lemma_seq_to_map_push<K, V>(s: Seq<(K, V)>, k: K, v: V)
    requires
        distinct_keys(s),
        forall|i: int| 0 <= i < s.len() ==> s[i].0 != k,
    ensures
        distinct_keys(s.push((k, v))),
        seq_to_map(s.push((k, v))) == seq_to_map(s).insert(k, v),
{
    let t = s.push((k, v));
    let n = s.len() as int;
    assert forall|k2: K| #[trigger] seq_to_map(t).dom().contains(k2) <==> seq_to_map(s).insert(k, v).dom().contains(k2) by {
        if seq_to_map(t).dom().contains(k2) {
            let j = choose|j: int| 0 <= j < t.len() && t[j].0 == k2;
            if j != n {
                assert(s[j].0 == k2);
            }
        }
        if seq_to_map(s).dom().contains(k2) {
            let j = choose|j: int| 0 <= j < s.len() && s[j].0 == k2;
            assert(t[j].0 == k2);
        }
        if k2 == k {
            assert(t[n].0 == k2);
        }
    }
    assert forall|k2: K| seq_to_map(t).dom().contains(k2) implies #[trigger] seq_to_map(t)[k2] == seq_to_map(s).insert(k, v)[k2] by {
        let j = choose|j: int| 0 <= j < t.len() && t[j].0 == k2;
        if k2 == k {
            assert(j == n);
        } else {
            assert(j != n);
            assert(s[j].0 == k2);
            let j2 = choose|j2: int| 0 <= j2 < s.len() && s[j2].0 == k2;
            assert(j2 == j);
        }
    }
    assert(seq_to_map(t) =~= seq_to_map(s).insert(k, v));
}

pub proof fn lemma_seq_to_map_remove<K, V>(s: Seq<(K, V)>, i: int)
    requires
        distinct_keys(s),
        0 <= i < s.len(),
    ensures
        distinct_keys(s.remove(i)),
        seq_to_map(s.remove(i)) == seq_to_map(s).remove(s[i].0),
{
    let t = s.remove(i);
    let k = s[i].0;
    assert forall|a: int, b: int| 0 <= a < t.len() && 0 <= b < t.len() && a != b implies t[a].0 != t[b].0 by {
        let a2 = if a < i { a } else { a + 1 };
        let b2 = if b < i { b } else { b + 1 };
        assert(t[a] == s[a2]);
        assert(t[b] == s[b2]);
    }
    assert forall|k2: K| #[trigger] seq_to_map(t).dom().contains(k2) <==> seq_to_map(s).remove(k).dom().contains(k2) by {
        if seq_to_map(t).dom().contains(k2) {
            let j = choose|j: int| 0 <= j < t.len() && t[j].0 == k2;
            let j2 = if j < i { j } else { j + 1 };
            assert(s[j2].0 == k2);
            assert(j2 != i);
        }
        if seq_to_map(s).remove(k).dom().contains(k2) {
            let j = choose|j: int| 0 <= j < s.len() && s[j].0 == k2;
            assert(j != i);
            let j2 = if j < i { j } else { j - 1 };
            assert(t[j2].0 == k2);
        }
    }
    assert forall|k2: K| seq_to_map(t).dom().contains(k2) implies #[trigger] seq_to_map(t)[k2] == seq_to_map(s).remove(k)[k2] by {
        let j = choose|j: int| 0 <= j < t.len() && t[j].0 == k2;
        let j2 = if j < i { j } else { j + 1 };
        assert(s[j2].0 == k2);
        let j3 = choose|j3: int| 0 <= j3 < s.len() && s[j3].0 == k2;
        assert(j3 == j2);
    }
    assert(seq_to_map(t) =~= seq_to_map(s).remove(k));
}

pub proof fn lemma_seq_to_map_len<K, V>(s: Seq<(K, V)>)
    requires
        distinct_keys(s),
    ensures
        seq_to_map(s).dom().finite(),
        seq_to_map(s).dom().len() == s.len(),
    decreases s.len(),
{
    if s.len() == 0 {
        assert(seq_to_map(s).dom() =~= Set::<K>::empty());
    } else {
        let p = s.drop_last();
        let last = s.last();
        assert(distinct_keys(p));
        lemma_seq_to_map_len(p);
        assert(forall|i: int| 0 <= i < p.len() ==> p[i] == s[i]);
        assert(forall|i: int| 0 <= i < p.len() ==> p[i].0 != last.0);
        assert(p.push(last) =~= s);
        lemma_seq_to_map_push(p, last.0, last.1);
        assert(!seq_to_map(p).dom().contains(last.0));
        assert(seq_to_map(s).dom() =~= seq_to_map(p).dom().insert(last.0));
    }
}

pub proof fn lemma_seq_to_map_insert_at<K, V>(s: Seq<(K, V)>, p: int, k: K, v: V)
    requires
        distinct_keys(s),
        0 <= p <= s.len(),
        forall|i: int| 0 <= i < s.len() ==> s[i].0 != k,
    ensures
        distinct_keys(s.insert(p, (k, v))),
        seq_to_map(s.insert(p, (k, v))) == seq_to_map(s).insert(k, v),
{
    let t = s.insert(p, (k, v));
    assert forall|a: int, b: int| 0 <= a < t.len() && 0 <= b < t.len() && a != b implies t[a].0 != t[b].0 by {
        if a != p && b != p {
            let a2 = if a < p { a } else { a - 1 };
            let b2 = if b < p { b } else { b - 1 };
            assert(t[a] == s[a2]);
            assert(t[b] == s[b2]);
        } else if a == p {
            let b2 = if b < p { b } else { b - 1 };
            assert(t[b] == s[b2]);
        } else {
            let a2 = if a < p { a } else { a - 1 };
            assert(t[a] == s[a2]);
        }
    }
    assert forall|k2: K| #[trigger] seq_to_map(t).dom().contains(k2) <==> seq_to_map(s).insert(k, v).dom().contains(k2) by {
        if seq_to_map(t).dom().contains(k2) {
            let j = choose|j: int| 0 <= j < t.len() && t[j].0 == k2;
            if j != p {
                let j2 = if j < p { j } else { j - 1 };
                assert(s[j2].0 == k2);
            }
        }
        if seq_to_map(s).dom().contains(k2) {
            let j = choose|j: int| 0 <= j < s.len() && s[j].0 == k2;
            let j2 = if j < p { j } else { j + 1 };
            assert(t[j2].0 == k2);
        }
        if k2 == k {
            assert(t[p].0 == k2);
        }
    }
    assert forall|k2: K| seq_to_map(t).dom().contains(k2) implies #[trigger] seq_to_map(t)[k2] == seq_to_map(s).insert(k, v)[k2] by {
        let j = choose|j: int| 0 <= j < t.len() && t[j].0 == k2;
        if k2 == k {
            if j != p {
                let j2 = if j < p { j } else { j - 1 };
                assert(s[j2].0 == k2);
            }
        } else {
            assert(j != p);
            let j2 = if j < p { j } else { j - 1 };
            assert(s[j2].0 == k2);
            let j3 = choose|j3: int| 0 <= j3 < s.len() && s[j3].0 == k2;
            assert(j3 == j2);
        }
    }
    assert(seq_to_map(t) =~= seq_to_map(s).insert(k, v));
}

/// The order in which pages of game ids are listed.
#[derive(Clone, Copy, Debug, PartialEq, Eq, Structural)]
pub enum SortOrder {
    Asc,
    Desc,
}

/// One page of game ids, and the cursor from which the next page starts, if there is more.
#[derive(Debug, PartialEq, Eq)]
pub struct GameIdPage {
    pub game_ids: Vec<u32>,
    pub next_cursor: Option<u32>,
}

/// Game ids in strictly ascending order.
pub open spec fn sorted_by_game(s: Seq<(u32, u32)>) -> bool {
    forall|i: int, j: int| 0 <= i < j < s.len() ==> s[i].0 < s[j].0
}

/// The game ids of a game table.
pub open spec fn game_keys(s: Seq<(u32, u32)>) -> Seq<u32> {
    s.map_values(|e: (u32, u32)| e.0)
}

/// Whether a game id lies beyond the cursor, in the given order.
pub open spec fn beyond_cursor(order: SortOrder, cursor: Option<u32>) -> spec_fn(u32) -> bool {
    |g: u32|
        match cursor {
            None => true,
            Some(c) => match order {
                SortOrder::Asc => g > c,
                SortOrder::Desc => g < c,
            },
        }
}

/// The game ids in the given order.
pub open spec fn in_order(keys: Seq<u32>, order: SortOrder) -> Seq<u32> {
    match order {
        SortOrder::Asc => keys,
        SortOrder::Desc => keys.reverse(),
    }
}

/// The game ids that a page may list: those beyond the cursor, in the given order.
pub open spec fn page_candidates(keys: Seq<u32>, order: SortOrder, cursor: Option<u32>) -> Seq<u32> {
    in_order(keys, order).filter(beyond_cursor(order, cursor))
}

/// The ids a page lists: the first `limit` candidates.
pub open spec fn page_ids(keys: Seq<u32>, order: SortOrder, limit: usize, cursor: Option<u32>) -> Seq<u32> {
    let c = page_candidates(keys, order, cursor);
    if c.len() <= limit {
        c
    } else {
        c.take(limit as int)
    }
}

/// The cursor of the next page: the last listed id, when more candidates remain.
pub open spec fn page_next(keys: Seq<u32>, order: SortOrder, limit: usize, cursor: Option<u32>) -> Option<u32> {
    let c = page_candidates(keys, order, cursor);
    if c.len() > limit && limit > 0 {
        Some(c[limit - 1])
    } else {
        None
    }
}

/// A table from game id to block height, kept in ascending order of game id.
pub struct GameTable {
    entries: Vec<(u32, u32)>,
}

impl GameTable {
    pub closed spec fn wf(&self) -> bool {
        sorted_by_game(self.entries@)
    }

    /// The entries in ascending order of game id.
    pub closed spec fn entries_view(&self) -> Seq<(u32, u32)> {
        self.entries@
    }

    /// The table as a map from game id to height.
    pub open spec fn map_view(&self) -> Map<u32, u32> {
        seq_to_map(self.entries_view())
    }

    /// The game ids in ascending order.
    pub open spec fn keys_view(&self) -> Seq<u32> {
        game_keys(self.entries_view())
    }

    pub fn new() -> (t: Self)
        ensures
            t.wf(),
            t.entries_view().len() == 0,
            t.map_view() == Map::<u32, u32>::empty(),
    {
        let t = GameTable { entries: Vec::new() };
        assert(t.map_view() =~= Map::<u32, u32>::empty());
        t
    }

    /// Records `height` for `game_id`, replacing what was there.
    pub fn insert(&mut self, game_id: u32, height: u32)
        requires
            old(self).wf(),
        ensures
            final(self).wf(),
            final(self).map_view() == old(self).map_view().insert(game_id, height),
    {
        let ghost s = self.entries@;
        let mut p: usize = 0;
        while p < self.entries.len() && self.entries[p].0 < game_id
            invariant
                self.entries@ == s,
                sorted_by_game(s),
                0 <= p <= s.len(),
                forall|j: int| 0 <= j < p ==> s[j].0 < game_id,
            decreases s.len() - p,
        {
            p = p + 1;
        }
        if p < self.entries.len() && self.entries[p].0 == game_id {
            self.entries.set(p, (game_id, height));
            proof {
                lemma_seq_to_map_update(s, p as int, game_id, height);
            }
        } else {
            self.entries.insert(p, (game_id, height));
            proof {
                assert forall|j: int| 0 <= j < s.len() implies s[j].0 != game_id by {
                    if j >= p {
                        assert(s[p as int].0 > game_id);
                        if j > p {
                            assert(s[p as int].0 < s[j].0);
                        }
                    }
                }
                lemma_seq_to_map_insert_at(s, p as int, game_id, height);
                assert forall|i: int, j: int| 0 <= i < j < self.entries@.len() implies self.entries@[i].0 < self.entries@[j].0 by {
                    let t = self.entries@;
                    if j < p {
                        assert(t[i] == s[i] && t[j] == s[j]);
                    } else if j == p {
                        assert(t[i] == s[i]);
                    } else if i < p {
                        assert(t[i] == s[i] && t[j] == s[j - 1]);
                    } else if i == p {
                        assert(t[j] == s[j - 1]);
                        if j - 1 > p {
                            assert(s[p as int].0 < s[j - 1].0);
                        }
                    } else {
                        assert(t[i] == s[i - 1] && t[j] == s[j - 1]);
                    }
                }
            }
        }
    }

    /// Removes the entry for `game_id`, if there is one.
    pub fn remove(&mut self, game_id: u32)
        requires
            old(self).wf(),
        ensures
            final(self).wf(),
            final(self).map_view() == old(self).map_view().remove(game_id),
    {
        let ghost s = self.entries@;
        let mut i: usize = 0;
        while i < self.entries.len()
            invariant
                self.entries@ == s,
                old(self).entries@ == s,
                sorted_by_game(s),
                0 <= i <= s.len(),
                forall|j: int| 0 <= j < i ==> s[j].0 != game_id,
            decreases s.len() - i,
        {
            if self.entries[i].0 == game_id {
                self.entries.remove(i);
                proof {
                    assert(self.entries@ == s.remove(i as int));
                    assert(s[i as int].0 == game_id);
                    lemma_seq_to_map_remove(s, i as int);
                    assert forall|a: int, b: int| 0 <= a < b < self.entries@.len() implies self.entries@[a].0 < self.entries@[b].0 by {
                        let a2 = if a < i { a } else { a + 1 };
                        let b2 = if b < i { b } else { b + 1 };
                        assert(self.entries@[a] == s[a2]);
                        assert(self.entries@[b] == s[b2]);
                    }
                    assert(old(self).entries_view() == s);
                    assert(self.map_view() == seq_to_map(s).remove(game_id));
                }
                return;
            }
            i = i + 1;
        }
        assert(self.map_view() =~= old(self).map_view().remove(game_id));
    }

    /// One page of game ids beyond `cursor`, in the given order, at most `limit` of them.
    pub fn page(&self, order: SortOrder, limit: usize, cursor: Option<u32>) -> (r: GameIdPage)
        requires
            self.wf(),
        ensures
            r.game_ids@ == page_ids(self.keys_view(), order, limit, cursor),
            r.next_cursor == page_next(self.keys_view(), order, limit, cursor),
    {
        let ghost keys = self.keys_view();
        let ghost ord = in_order(keys, order);
        let ghost pred = beyond_cursor(order, cursor);
        let n = self.entries.len();
        let mut game_ids: Vec<u32> = Vec::new();
        let mut last_game_id: Option<u32> = None;
        let mut has_more = false;
        let mut i: usize = 0;
        assert(ord.len() == n);
        while i < n
            invariant_except_break
                0 <= i <= n,
                n == self.entries@.len(),
                ord.len() == n,
                keys == self.keys_view(),
                ord == in_order(keys, order),
                pred == beyond_cursor(order, cursor),
                game_ids@ == ord.take(i as int).filter(pred),
                game_ids@.len() <= limit,
                !has_more,
                game_ids@.len() > 0 ==> last_game_id == Some(game_ids@.last()),
                game_ids@.len() == 0 ==> last_game_id is None,
            ensures
                has_more ==> game_ids@.len() == limit && ord.filter(pred).len() > limit
                    && game_ids@ == ord.filter(pred).take(limit as int),
                !has_more ==> game_ids@ == ord.take(n as int).filter(pred) && game_ids@.len() <= limit,
                game_ids@.len() > 0 ==> last_game_id == Some(game_ids@.last()),
                game_ids@.len() == 0 ==> last_game_id is None,
            decreases n - i,
        {
            let game_id = match order {
                SortOrder::Asc => self.entries[i].0,
                SortOrder::Desc => self.entries[n - 1 - i].0,
            };
            assert(game_id == ord[i as int]);
            let skip = match cursor {
                Some(c) => match order {
                    SortOrder::Asc => game_id <= c,
                    SortOrder::Desc => game_id >= c,
                },
                None => false,
            };
            assert(skip == !pred(game_id));
            assert(ord.take(i + 1).drop_last() =~= ord.take(i as int));
            assert(ord.take(i + 1).last() == game_id);
            assert(ord.take(i + 1).filter(pred) == (if pred(game_id) {
                ord.take(i as int).filter(pred).push(game_id)
            } else {
                ord.take(i as int).filter(pred)
            })) by {
                reveal_with_fuel(Seq::<_>::filter, 1);
            }
            if !skip {
                if game_ids.len() < limit {
                    game_ids.push(game_id);
                    last_game_id = Some(game_id);
                } else {
                    has_more = true;
                    proof {
                        lemma_filter_prefix(ord, pred, i + 1);
                        assert(ord.take(i + 1).filter(pred).len() == limit + 1);
                        assert(ord.filter(pred).take(limit as int) =~= game_ids@);
                    }
                    break;
                }
            }
            i = i + 1;
        }
        proof {
            assert(ord.take(n as int) =~= ord);
            assert(pred == beyond_cursor(order, cursor));
            assert(page_candidates(keys, order, cursor) == ord.filter(pred));
        }
        GameIdPage { game_ids, next_cursor: if has_more { last_game_id } else { None } }
    }
}

/// Filtering a prefix gives a prefix of the filtered sequence.
pub proof fn lemma_filter_prefix<A>(s: Seq<A>, pred: spec_fn(A) -> bool, i: int)
    requires
        0 <= i <= s.len(),
    ensures
        s.take(i).filter(pred).len() <= s.filter(pred).len(),
        s.filter(pred).take(s.take(i).filter(pred).len() as int) == s.take(i).filter(pred),
{
    assert(s =~= s.take(i) + s.skip(i));
    Seq::filter_distributes_over_add(s.take(i), s.skip(i), pred);
    let a = s.take(i).filter(pred);
    let b = s.skip(i).filter(pred);
    assert((a + b).take(a.len() as int) =~= a);
}

/// `x` comes before `y` in the given order.
pub open spec fn precedes(order: SortOrder, x: u32, y: u32) -> bool {
    match order {
        SortOrder::Asc => x < y,
        SortOrder::Desc => x > y,
    }
}

/// Strictly ordered in the given order.
pub open spec fn strictly_in(s: Seq<u32>, order: SortOrder) -> bool {
    forall|i: int, j: int| 0 <= i < j < s.len() ==> precedes(order, #[trigger] s[i], #[trigger] s[j])
}

/// Once a predicate holds of an element, it holds of every later one.
pub open spec fn holds_onward(order: SortOrder, pred: spec_fn(u32) -> bool) -> bool {
    forall|x: u32, y: u32| #[trigger] pred(x) && precedes(order, x, y) ==> #[trigger] pred(y)
}

proof fn lemma_in_order_strict(keys: Seq<u32>, order: SortOrder)
    requires
        strictly_in(keys, SortOrder::Asc),
    ensures
        strictly_in(in_order(keys, order), order),
        in_order(keys, order).len() == keys.len(),
{
    match order {
        SortOrder::Asc => {},
        SortOrder::Desc => {
            let r = keys.reverse();
            assert forall|i: int, j: int| 0 <= i < j < r.len() implies precedes(order, #[trigger] r[i], #[trigger] r[j]) by {
                assert(r[i] == keys[keys.len() - 1 - i]);
                assert(r[j] == keys[keys.len() - 1 - j]);
            }
        },
    }
}

/// In a strictly ordered sequence, the elements that satisfy a predicate which holds
/// onward form a suffix.
proof fn lemma_filter_suffix(s: Seq<u32>, order: SortOrder, pred: spec_fn(u32) -> bool) -> (m: int)
    requires
        strictly_in(s, order),
        holds_onward(order, pred),
    ensures
        0 <= m <= s.len(),
        s.filter(pred) == s.skip(m),
        forall|i: int| 0 <= i < m ==> !pred(#[trigger] s[i]),
        forall|i: int| m <= i < s.len() ==> pred(#[trigger] s[i]),
    decreases s.len(),
{
    reveal_with_fuel(Seq::filter, 1);
    if s.len() == 0 {
        assert(s.skip(0) =~= s);
        0
    } else {
        let init = s.drop_last();
        assert(strictly_in(init, order));
        let m0 = lemma_filter_suffix(init, order, pred);
        if pred(s.last()) {
            assert(s.filter(pred) =~= s.skip(m0)) by {
                assert(init.skip(m0).push(s.last()) =~= s.skip(m0));
            }
            assert forall|i: int| m0 <= i < s.len() implies pred(#[trigger] s[i]) by {
                if i < s.len() - 1 {
                    assert(init[i] == s[i]);
                }
            }
            assert forall|i: int| 0 <= i < m0 implies !pred(#[trigger] s[i]) by {
                assert(init[i] == s[i]);
            }
            m0
        } else {
            assert forall|i: int| 0 <= i < s.len() implies !pred(#[trigger] s[i]) by {
                if i < s.len() - 1 && pred(s[i]) {
                    assert(precedes(order, s[i], s[s.len() - 1]));
                }
            }
            assert(init.filter(pred).len() == 0) by {
                if init.filter(pred).len() > 0 {
                    assert(init.skip(m0)[0] == init[m0]);
                }
            }
            assert(s.filter(pred) =~= s.skip(s.len() as int));
            s.len() as int
        }
    }
}

/// A page that has a next cursor is followed, from that cursor, by exactly the candidates
/// it did not list: paging through a table with the returned cursors lists every game
/// beyond the first cursor once, in order, and skips none.
pub proof fn law_next_page_continues(keys: Seq<u32>, order: SortOrder, limit: usize, cursor: Option<u32>)
    requires
        strictly_in(keys, SortOrder::Asc),
        page_next(keys, order, limit, cursor) is Some,
    ensures
        page_ids(keys, order, limit, cursor) + page_candidates(keys, order, page_next(keys, order, limit, cursor))
            == page_candidates(keys, order, cursor),
        page_ids(keys, order, limit, cursor).len() == limit,
{
    let ord = in_order(keys, order);
    lemma_in_order_strict(keys, order);
    let p = beyond_cursor(order, cursor);
    assert(holds_onward(order, p));
    let m = lemma_filter_suffix(ord, order, p);
    let cands = page_candidates(keys, order, cursor);
    assert(cands == ord.skip(m));
    let c = cands[limit - 1];
    assert(c == ord[m + limit - 1]);
    let q = beyond_cursor(order, Some(c));
    assert(holds_onward(order, q));
    let k = lemma_filter_suffix(ord, order, q);
    assert(k == m + limit) by {
        if k < m + limit {
            assert(q(ord[k]));
            if k < m + limit - 1 {
                assert(precedes(order, ord[k], ord[m + limit - 1]));
            }
        } else if k > m + limit {
            assert(!q(ord[m + limit]));
            assert(precedes(order, ord[m + limit - 1], ord[m + limit]));
        }
    }
    assert(cands.take(limit as int) + ord.skip(k) =~= cands);
}

} // verus!
