//! The indexer: it folds the contract's events into snapshots of the game, and answers
//! queries about them.
use vstd::prelude::*;
use crate::snapshot::{
    AccountBetPlacement, AccountModel, AccountRollBets, AccountSnapshot, is_roll_template,
};
use crate::types::{Roll, Strap, index_to_roll, roll_at};

verus! {

/// `a + b`, or `u64::MAX` where that overflows.
pub open spec fn sat_add(a: u64, b: u64) -> u64 {
    if a + b > u64::MAX {
        u64::MAX
    } else {
        (a + b) as u64
    }
}

/// `a - b`, or 0 where that underflows.
pub open spec fn sat_sub(a: u64, b: u64) -> u64 {
    if a < b {
        0
    } else {
        (a - b) as u64
    }
}

/// Whether `i` is the first position of `strap` among the bets.
pub open spec fn is_first_strap_pos(bets: Seq<(Strap, u64)>, strap: Strap, i: int) -> bool {
    &&& 0 <= i < bets.len()
    &&& bets[i].0 == strap
    &&& forall|j: int| 0 <= j < i ==> bets[j].0 != strap
}

/// The bets after adding `amount` of `strap`: the first entry for that strap grows
/// (saturating), or a new entry is appended.
pub open spec fn accumulated(bets: Seq<(Strap, u64)>, strap: Strap, amount: u64) -> Seq<(Strap, u64)> {
    if exists|i: int| 0 <= i < bets.len() && bets[i].0 == strap {
        let i = choose|i: int| is_first_strap_pos(bets, strap, i);
        bets.update(i, (strap, sat_add(bets[i].1, amount)))
    } else {
        bets.push((strap, amount))
    }
}

proof fn lemma_first_strap_pos(bets: Seq<(Strap, u64)>, strap: Strap, i: int)
    requires
        is_first_strap_pos(bets, strap, i),
    ensures
        (choose|k: int| is_first_strap_pos(bets, strap, k)) == i,
{
    let k = choose|k: int| is_first_strap_pos(bets, strap, k);
    assert(is_first_strap_pos(bets, strap, k));
    if k < i {
        assert(bets[k].0 != strap);
    } else if k > i {
        assert(bets[i].0 != strap);
    }
}

/// The total amount of a strap in a list of strap bets.
pub open spec fn strap_total(bets: Seq<(Strap, u64)>, s: Strap) -> int
    decreases bets.len(),
{
    if bets.len() == 0 {
        0
    } else {
        strap_total(bets.drop_last(), s) + if bets.last().0 == s {
            bets.last().1 as int
        } else {
            0
        }
    }
}

proof fn lemma_first_pos_exists(bets: Seq<(Strap, u64)>, strap: Strap, w: int)
    requires
        0 <= w < bets.len(),
        bets[w].0 == strap,
    ensures
        exists|i: int| is_first_strap_pos(bets, strap, i),
    decreases w,
{
    if forall|j: int| 0 <= j < w ==> bets[j].0 != strap {
        assert(is_first_strap_pos(bets, strap, w));
    } else {
        let j = choose|j: int| 0 <= j < w && bets[j].0 == strap;
        lemma_first_pos_exists(bets, strap, j);
    }
}

proof fn lemma_total_update(bets: Seq<(Strap, u64)>, i: int, e: (Strap, u64), s: Strap)
    requires
        0 <= i < bets.len(),
    ensures
        strap_total(bets.update(i, e), s) == strap_total(bets, s) - (if bets[i].0 == s {
            bets[i].1 as int
        } else {
            0
        }) + (if e.0 == s {
            e.1 as int
        } else {
            0
        }),
    decreases bets.len(),
{
    let u = bets.update(i, e);
    if i == bets.len() - 1 {
        assert(u.drop_last() =~= bets.drop_last());
    } else {
        assert(u.drop_last() =~= bets.drop_last().update(i, e));
        lemma_total_update(bets.drop_last(), i, e, s);
    }
}

proof fn lemma_total_bounds(bets: Seq<(Strap, u64)>, s: Strap, i: int)
    requires
        0 <= i < bets.len(),
    ensures
        strap_total(bets, s) >= (if bets[i].0 == s {
            bets[i].1 as int
        } else {
            0
        }),
    decreases bets.len(),
{
    lemma_total_nonneg(bets.drop_last(), s);
    if i < bets.len() - 1 {
        lemma_total_bounds(bets.drop_last(), s, i);
    }
}

proof fn lemma_total_nonneg(bets: Seq<(Strap, u64)>, s: Strap)
    ensures
        strap_total(bets, s) >= 0,
    decreases bets.len(),
{
    if bets.len() > 0 {
        lemma_total_nonneg(bets.drop_last(), s);
    }
}

proof fn lemma_total_absent(bets: Seq<(Strap, u64)>, s: Strap)
    requires
        forall|j: int| 0 <= j < bets.len() ==> bets[j].0 != s,
    ensures
        strap_total(bets, s) == 0,
    decreases bets.len(),
{
    if bets.len() > 0 {
        lemma_total_absent(bets.drop_last(), s);
    }
}

proof fn lemma_total_single(bets: Seq<(Strap, u64)>, s: Strap, i: int)
    requires
        0 <= i < bets.len(),
        bets[i].0 == s,
        forall|j: int| 0 <= j < bets.len() && j != i ==> bets[j].0 != s,
    ensures
        strap_total(bets, s) == bets[i].1,
    decreases bets.len(),
{
    if i == bets.len() - 1 {
        lemma_total_absent(bets.drop_last(), s);
    } else {
        lemma_total_single(bets.drop_last(), s, i);
    }
}

/// Adding a bet of `amount` on `strap` to a list of strap bets keeps every other strap's
/// total and raises the strap's own total by `amount`, where that fits in a `u64`; on a
/// list that names each strap once, the list still names each strap once and the strap's
/// total becomes the saturating sum.
pub proof fn law_accumulate_keeps_totals(bets: Seq<(Strap, u64)>, strap: Strap, amount: u64, s: Strap)
    ensures
        s != strap ==> strap_total(accumulated(bets, strap, amount), s) == strap_total(bets, s),
        strap_total(bets, strap) + amount <= u64::MAX ==> strap_total(accumulated(bets, strap, amount), strap)
            == strap_total(bets, strap) + amount,
        one_entry_per_strap(bets) ==> {
            &&& one_entry_per_strap(accumulated(bets, strap, amount))
            &&& strap_total(accumulated(bets, strap, amount), strap) == if strap_total(bets, strap) + amount
                > u64::MAX {
                u64::MAX as int
            } else {
                strap_total(bets, strap) + amount
            }
        },
{
    let acc = accumulated(bets, strap, amount);
    if exists|i: int| 0 <= i < bets.len() && bets[i].0 == strap {
        let w = choose|i: int| 0 <= i < bets.len() && bets[i].0 == strap;
        let i = choose|i: int| is_first_strap_pos(bets, strap, i);
        lemma_first_pos_exists(bets, strap, w);
        assert(is_first_strap_pos(bets, strap, i));
        let e = (strap, sat_add(bets[i].1, amount));
        assert(acc == bets.update(i, e));
        lemma_total_update(bets, i, e, s);
        lemma_total_update(bets, i, e, strap);
        lemma_total_bounds(bets, strap, i);
        if one_entry_per_strap(bets) {
            assert forall|a: int, b: int| 0 <= a < b < acc.len() implies (#[trigger] acc[a]).0 != (#[trigger] acc[b]).0 by {
                assert(bets[a].0 != bets[b].0);
            }
            assert forall|j: int| 0 <= j < bets.len() && j != i implies bets[j].0 != strap by {
                if j < i {
                    assert(bets[j].0 != bets[i].0);
                } else {
                    assert(bets[i].0 != bets[j].0);
                }
            }
            lemma_total_single(bets, strap, i);
        }
    } else {
        assert(acc == bets.push((strap, amount)));
        assert(acc.drop_last() =~= bets);
        lemma_total_absent(bets, strap);
        if one_entry_per_strap(bets) {
            assert forall|a: int, b: int| 0 <= a < b < acc.len() implies (#[trigger] acc[a]).0 != (#[trigger] acc[b]).0 by {
                if b == bets.len() {
                    assert(acc[a] == bets[a]);
                } else {
                    assert(bets[a].0 != bets[b].0);
                }
            }
        }
    }
}

/// Adds `amount` of `strap` to a list of strap bets.
pub fn accumulate_strap(bets: &mut Vec<(Strap, u64)>, strap: &Strap, amount: u64)
    ensures
        final(bets)@ == accumulated(old(bets)@, *strap, amount),
{
    let mut i: usize = 0;
    while i < bets.len()
        invariant
            0 <= i <= bets@.len(),
            bets@ == old(bets)@,
            forall|j: int| 0 <= j < i ==> bets@[j].0 != *strap,
        decreases bets@.len() - i,
    {
        if bets[i].0 == *strap {
            let total = bets[i].1.saturating_add(amount);
            proof {
                lemma_first_strap_pos(bets@, *strap, i as int);
            }
            bets.set(i, (*strap, total));
            return;
        }
        i = i + 1;
    }
    bets.push((*strap, amount));
}

/// No strap occurs twice among strap bets.
pub open spec fn one_entry_per_strap(bets: Seq<(Strap, u64)>) -> bool {
    forall|i: int, j: int| 0 <= i < j < bets.len() ==> bets[i].0 != bets[j].0
}

/// Accumulating a strap bet keeps one entry per strap, and the strap has its entry.
pub proof fn law_accumulating_keeps_one_entry_per_strap(bets: Seq<(Strap, u64)>, strap: Strap, amount: u64)
    requires
        one_entry_per_strap(bets),
    ensures
        one_entry_per_strap(accumulated(bets, strap, amount)),
        exists|i: int| 0 <= i < accumulated(bets, strap, amount).len() && accumulated(bets, strap, amount)[i].0 == strap,
        accumulated(bets, strap, amount).len() <= bets.len() + 1,
{
    let after = accumulated(bets, strap, amount);
    if exists|i: int| 0 <= i < bets.len() && bets[i].0 == strap {
        let w = choose|i: int| 0 <= i < bets.len() && bets[i].0 == strap;
        assert(is_first_strap_pos(bets, strap, w)) by {
            assert forall|j: int| 0 <= j < w implies bets[j].0 != strap by {
                if bets[j].0 == strap {
                    assert(bets[j].0 == bets[w].0);
                }
            }
        }
        lemma_first_strap_pos(bets, strap, w);
        assert(after[w].0 == strap);
    } else {
        assert(after[bets.len() as int].0 == strap);
    }
}

/// Whether an account bet anything in a game.
pub open spec fn has_bets(s: AccountModel) -> bool {
    ||| s.total_chip_bet > 0
    ||| s.strap_bets.len() > 0
    ||| exists|i: int| 0 <= i < s.per_roll_bets.len() && (#[trigger] s.per_roll_bets[i]).1.len() > 0
}

pub fn account_has_bets(snapshot: &AccountSnapshot) -> (r: bool)
    ensures
        r == has_bets(snapshot@),
{
    if snapshot.total_chip_bet > 0 || snapshot.strap_bets.len() > 0 {
        return true;
    }
    let mut i: usize = 0;
    while i < snapshot.per_roll_bets.len()
        invariant
            0 <= i <= snapshot.per_roll_bets@.len(),
            forall|j: int| 0 <= j < i ==> (#[trigger] snapshot@.per_roll_bets[j]).1.len() == 0,
        decreases snapshot.per_roll_bets@.len() - i,
    {
        if snapshot.per_roll_bets[i].bets.len() > 0 {
            assert(snapshot@.per_roll_bets[i as int].1.len() > 0);
            return true;
        }
        i = i + 1;
    }
    false
}

/// Whether `target` was rolled at or after the roll index at which a bet was placed.
pub open spec fn hit_after(target: Roll, bet_roll_index: u32, rolls: Seq<Roll>) -> bool {
    exists|idx: int| 0 <= idx < rolls.len() && rolls[idx] == target && bet_roll_index <= idx
}

pub fn roll_hit_after_bet(target_roll: &Roll, bet_roll_index: u32, rolls: &[Roll]) -> (r: bool)
    ensures
        r == hit_after(*target_roll, bet_roll_index, rolls@),
{
    let mut idx: usize = 0;
    while idx < rolls.len()
        invariant
            0 <= idx <= rolls@.len(),
            forall|j: int| 0 <= j < idx ==> !(rolls@[j] == *target_roll && bet_roll_index <= j),
        decreases rolls@.len() - idx,
    {
        if rolls[idx] == *target_roll && (bet_roll_index as usize) <= idx {
            return true;
        }
        idx = idx + 1;
    }
    false
}

/// Whether an account has a bet that was hit by a roll made at or after it was placed.
pub open spec fn has_claimable(s: AccountModel, rolls: Seq<Roll>) -> bool {
    exists|i: int, j: int|
        0 <= i < s.per_roll_bets.len() && 0 <= j < s.per_roll_bets[i].1.len() && hit_after(
            s.per_roll_bets[i].0,
            #[trigger] s.per_roll_bets[i].1[j].bet_roll_index,
            rolls,
        )
}

pub fn account_has_claimable_bets(snapshot: &AccountSnapshot, rolls: &[Roll]) -> (r: bool)
    ensures
        r == has_claimable(snapshot@, rolls@),
{
    if rolls.len() == 0 {
        return false;
    }
    let mut i: usize = 0;
    while i < snapshot.per_roll_bets.len()
        invariant
            0 <= i <= snapshot.per_roll_bets@.len(),
            forall|a: int, b: int|
                0 <= a < i && 0 <= b < snapshot@.per_roll_bets[a].1.len() ==> !hit_after(
                    snapshot@.per_roll_bets[a].0,
                    #[trigger] snapshot@.per_roll_bets[a].1[b].bet_roll_index,
                    rolls@,
                ),
        decreases snapshot.per_roll_bets@.len() - i,
    {
        let entry = &snapshot.per_roll_bets[i];
        let mut j: usize = 0;
        while j < entry.bets.len()
            invariant
                0 <= i < snapshot.per_roll_bets@.len(),
                *entry == snapshot.per_roll_bets@[i as int],
                0 <= j <= entry.bets@.len(),
                forall|a: int, b: int|
                    0 <= a < i && 0 <= b < snapshot@.per_roll_bets[a].1.len() ==> !hit_after(
                        snapshot@.per_roll_bets[a].0,
                        #[trigger] snapshot@.per_roll_bets[a].1[b].bet_roll_index,
                        rolls@,
                    ),
                forall|b: int| 0 <= b < j ==> !hit_after(
                    entry.roll,
                    #[trigger] entry.bets@[b].bet_roll_index,
                    rolls@,
                ),
            decreases entry.bets@.len() - j,
        {
            if roll_hit_after_bet(&entry.roll, entry.bets[j].bet_roll_index, rolls) {
                assert(snapshot@.per_roll_bets[i as int].1[j as int] == entry.bets@[j as int]);
                return true;
            }
            j = j + 1;
        }
        assert forall|a: int, b: int|
            0 <= a < i + 1 && 0 <= b < snapshot@.per_roll_bets[a].1.len() implies !hit_after(
                snapshot@.per_roll_bets[a].0,
                #[trigger] snapshot@.per_roll_bets[a].1[b].bet_roll_index,
                rolls@,
            ) by {
            if a == i {
                assert(snapshot@.per_roll_bets[a].1[b] == entry.bets@[b]);
            }
        }
        i = i + 1;
    }
    false
}

/// The position of the first entry for `roll` in a per-roll table, if there is one.
pub fn find_roll_entry(entries: &Vec<AccountRollBets>, roll: &Roll) -> (r: Option<usize>)
    ensures
        match r {
            Some(i) => i < entries@.len() && entries@[i as int].roll == *roll && forall|j: int|
                0 <= j < i ==> entries@[j].roll != *roll,
            None => forall|j: int| 0 <= j < entries@.len() ==> entries@[j].roll != *roll,
        },
{
    let mut i: usize = 0;
    while i < entries.len()
        invariant
            0 <= i <= entries@.len(),
            forall|j: int| 0 <= j < i ==> entries@[j].roll != *roll,
        decreases entries@.len() - i,
    {
        if entries[i].roll == *roll {
            return Some(i);
        }
        i = i + 1;
    }
    None
}

/// The scalar fields of two account snapshots agree.
pub open spec fn same_totals(a: AccountModel, b: AccountModel) -> bool {
    &&& a.total_chip_bet == b.total_chip_bet
    &&& a.strap_bets == b.strap_bets
    &&& a.total_chip_won == b.total_chip_won
    &&& a.claimed_rewards == b.claimed_rewards
}

/// A per-roll table rebuilt from `orig`: one entry per roll in board order, each taken from
/// an entry of `orig` for that roll where there is one, and empty where there is none.
pub open spec fn rebuilt_from(
    orig: Seq<(Roll, Seq<AccountBetPlacement>)>,
    rebuilt: Seq<(Roll, Seq<AccountBetPlacement>)>,
) -> bool {
    &&& rebuilt.len() == 11
    &&& forall|i: int| 0 <= i < 11 ==> (#[trigger] rebuilt[i]).0 == roll_at(i)
    &&& forall|i: int|
        0 <= i < 11 ==> ((exists|j: int| 0 <= j < orig.len() && orig[j].0 == roll_at(i)) ==> (exists|
            j: int,
        |
            0 <= j < orig.len() && orig[j].0 == roll_at(i) && #[trigger] rebuilt[i] == orig[j]))
    &&& forall|i: int|
        0 <= i < 11 ==> (!(exists|j: int| 0 <= j < orig.len() && orig[j].0 == roll_at(i)) ==> (
        #[trigger] rebuilt[i]).1 == Seq::<AccountBetPlacement>::empty())
}

/// The position of the first entry for `roll`, or -1.
pub open spec fn entry_pos<T>(s: Seq<(Roll, T)>, roll: Roll) -> int
    decreases s.len(),
{
    if s.len() == 0 {
        -1
    } else if s[0].0 == roll {
        0
    } else {
        let k = entry_pos(s.drop_first(), roll);
        if k < 0 {
            -1
        } else {
            k + 1
        }
    }
}

proof fn lemma_entry_pos<T>(s: Seq<(Roll, T)>, roll: Roll, j: int)
    requires
        0 <= j <= s.len(),
        forall|k: int| 0 <= k < j ==> s[k].0 != roll,
    ensures
        j < s.len() && s[j].0 == roll ==> entry_pos(s, roll) == j,
        j == s.len() ==> entry_pos(s, roll) == -1,
    decreases j,
{
    if j > 0 {
        let t = s.drop_first();
        assert forall|k: int| 0 <= k < j - 1 implies t[k].0 != roll by {
            assert(t[k] == s[k + 1]);
        }
        lemma_entry_pos(t, roll, j - 1);
        if j < s.len() {
            assert(t[j - 1] == s[j]);
        }
    }
}

/// A sequence with its element at `p` replaced by its last element, which is dropped.
pub open spec fn swap_removed<A>(s: Seq<A>, p: int) -> Seq<A> {
    s.update(p, s.last()).drop_last()
}

/// The per-roll table rebuilt from the entries `existing`, from board position `i` on: for
/// each roll in board order, the first remaining entry for it, which leaves the remaining
/// entries with the last of them in its place; or an empty entry when none is left.
pub open spec fn rebuild(existing: Seq<(Roll, Seq<AccountBetPlacement>)>, i: nat) -> Seq<
    (Roll, Seq<AccountBetPlacement>),
>
    decreases 11 - i,
{
    if i >= 11 {
        Seq::empty()
    } else {
        let p = entry_pos(existing, roll_at(i as int));
        if p >= 0 {
            seq![existing[p]] + rebuild(swap_removed(existing, p), i + 1)
        } else {
            seq![(roll_at(i as int), Seq::<AccountBetPlacement>::empty())] + rebuild(existing, i + 1)
        }
    }
}

/// Per-roll entries as plain values.
pub open spec fn entries_view(v: Seq<AccountRollBets>) -> Seq<(Roll, Seq<AccountBetPlacement>)> {
    v.map_values(|e: AccountRollBets| e@)
}

/// The account with its per-roll table made to hold eleven entries: a table of eleven entries
/// is kept; one of another length is rebuilt in board order.
pub open spec fn template_of(before: AccountModel) -> AccountModel {
    if before.per_roll_bets.len() == 11 {
        before
    } else {
        AccountModel { per_roll_bets: rebuild(before.per_roll_bets, 0), ..before }
    }
}

/// Makes sure the per-roll table has eleven entries: a table of another length is rebuilt
/// with one entry per roll in board order; a table of eleven entries is left as it is.
pub fn ensure_account_roll_template(snapshot: &mut AccountSnapshot)
    ensures
        same_totals(final(snapshot)@, old(snapshot)@),
        old(snapshot).per_roll_bets@.len() == 11 ==> final(snapshot)@ == old(snapshot)@,
        old(snapshot).per_roll_bets@.len() != 11 ==> is_roll_template(final(snapshot).per_roll_bets@)
            && rebuilt_from(old(snapshot)@.per_roll_bets, final(snapshot)@.per_roll_bets)
            && final(snapshot)@.per_roll_bets == rebuild(old(snapshot)@.per_roll_bets, 0),
        final(snapshot)@ == template_of(old(snapshot)@),
{
    if snapshot.per_roll_bets.len() == 11 {
        return;
    }
    let mut existing: Vec<AccountRollBets> = Vec::new();
    core::mem::swap(&mut existing, &mut snapshot.per_roll_bets);
    let ghost orig = existing@;
    let mut rebuilt: Vec<AccountRollBets> = Vec::new();
    let mut i: usize = 0;
    while i < 11
        invariant
            0 <= i <= 11,
            forall|x: AccountRollBets| existing@.contains(x) ==> orig.contains(x),
            forall|k: int, x: AccountRollBets|
                i <= k < 11 && orig.contains(x) && x.roll == roll_at(k) ==> existing@.contains(x),
            rebuilt@.len() == i,
            entries_view(rebuilt@) + rebuild(entries_view(existing@), i as nat) == rebuild(entries_view(orig), 0),
            forall|j: int| 0 <= j < i ==> (#[trigger] rebuilt@[j]).roll == roll_at(j),
            forall|j: int|
                0 <= j < i ==> orig.contains(#[trigger] rebuilt@[j]) || ((rebuilt@[j]).bets@
                    == Seq::<AccountBetPlacement>::empty() && forall|x: AccountRollBets|
                    orig.contains(x) ==> x.roll != roll_at(j)),
        decreases 11 - i,
    {
        let roll = index_to_roll(i);
        let ghost ev = entries_view(existing@);
        let ghost rv = entries_view(rebuilt@);
        match find_roll_entry(&existing, &roll) {
            Some(pos) => {
                proof {
                    assert forall|k: int| 0 <= k < pos implies ev[k].0 != roll by {
                        assert(ev[k] == existing@[k]@);
                    }
                    lemma_entry_pos(ev, roll, pos as int);
                    assert(rebuild(ev, i as nat) == seq![ev[pos as int]] + rebuild(
                        swap_removed(ev, pos as int),
                        (i + 1) as nat,
                    ));
                }
                let ghost before = existing@;
                let e = existing.swap_remove(pos);
                proof {
                    assert(entries_view(existing@) =~= swap_removed(ev, pos as int));
                }
                assert(before.contains(e));
                assert forall|x: AccountRollBets| existing@.contains(x) implies orig.contains(x) by {
                    let q = choose|q: int| 0 <= q < existing@.len() && existing@[q] == x;
                    if q == pos {
                        assert(x == before.last());
                        assert(before.contains(before.last()));
                    } else {
                        assert(x == before[q]);
                    }
                }
                assert forall|k: int, x: AccountRollBets|
                    i + 1 <= k < 11 && orig.contains(x) && x.roll == roll_at(k) implies existing@.contains(x) by {
                    crate::types::lemma_roll_index_roundtrip(x.roll, k);
                    crate::types::lemma_roll_index_roundtrip(roll, i as int);
                    assert(before.contains(x));
                    let q = choose|q: int| 0 <= q < before.len() && before[q] == x;
                    assert(q != pos);
                    if q == before.len() - 1 {
                        assert(existing@[pos as int] == x);
                    } else {
                        assert(existing@[q] == x);
                    }
                }
                rebuilt.push(e);
                proof {
                    assert(entries_view(rebuilt@) =~= rv.push(ev[pos as int]));
                    assert(entries_view(rebuilt@) + rebuild(entries_view(existing@), (i + 1) as nat) =~= rv + rebuild(
                        ev,
                        i as nat,
                    ));
                }
            },
            None => {
                proof {
                    assert forall|k: int| 0 <= k < ev.len() implies ev[k].0 != roll by {
                        assert(ev[k] == existing@[k]@);
                    }
                    lemma_entry_pos(ev, roll, ev.len() as int);
                }
                assert forall|x: AccountRollBets| orig.contains(x) implies x.roll != roll_at(i as int) by {
                    if x.roll == roll_at(i as int) {
                        assert(existing@.contains(x));
                    }
                }
                rebuilt.push(AccountRollBets { roll, bets: Vec::new() });
                proof {
                    assert(entries_view(rebuilt@) =~= rv.push((roll, Seq::<AccountBetPlacement>::empty())));
                    assert(entries_view(rebuilt@) + rebuild(entries_view(existing@), (i + 1) as nat) =~= rv + rebuild(
                        ev,
                        i as nat,
                    ));
                }
            },
        }
        i = i + 1;
    }
    snapshot.per_roll_bets = rebuilt;
    proof {
        assert(entries_view(rebuilt@) =~= entries_view(rebuilt@) + rebuild(entries_view(existing@), 11));
        let o = old(snapshot)@.per_roll_bets;
        let r = snapshot@.per_roll_bets;
        assert(o == orig.map_values(|e: AccountRollBets| e@));
        assert forall|k: int|
            0 <= k < 11 && (exists|j: int| 0 <= j < o.len() && o[j].0 == roll_at(k)) implies (exists|
            j: int,
        | 0 <= j < o.len() && o[j].0 == roll_at(k) && #[trigger] r[k] == o[j]) by {
            let j = choose|j: int| 0 <= j < o.len() && o[j].0 == roll_at(k);
            assert(orig.contains(orig[j]));
            assert(orig.contains(rebuilt@[k]));
            let q = choose|q: int| 0 <= q < orig.len() && orig[q] == rebuilt@[k];
            assert(o[q] == r[k]);
        }
        assert forall|k: int|
            0 <= k < 11 && !(exists|j: int| 0 <= j < o.len() && o[j].0 == roll_at(k)) implies (
            #[trigger] r[k]).1 == Seq::<AccountBetPlacement>::empty() by {
            if orig.contains(rebuilt@[k]) {
                let q = choose|q: int| 0 <= q < orig.len() && orig[q] == rebuilt@[k];
                assert(o[q].0 == roll_at(k));
            }
        }
    }
}

/// The per-roll table after appending a bet to the first entry for `roll`; unchanged when
/// there is no entry for it.
pub open spec fn with_bet(
    per_roll: Seq<(Roll, Seq<AccountBetPlacement>)>,
    roll: Roll,
    placement: AccountBetPlacement,
) -> Seq<(Roll, Seq<AccountBetPlacement>)> {
    if exists|i: int| 0 <= i < per_roll.len() && per_roll[i].0 == roll {
        let i = choose|i: int|
            0 <= i < per_roll.len() && per_roll[i].0 == roll && forall|j: int|
                0 <= j < i ==> per_roll[j].0 != roll;
        per_roll.update(i, (roll, per_roll[i].1.push(placement)))
    } else {
        per_roll
    }
}

/// The per-roll table holds one entry for each roll, in board order.
pub open spec fn is_template_model(per_roll: Seq<(Roll, Seq<AccountBetPlacement>)>) -> bool {
    &&& per_roll.len() == 11
    &&& forall|i: int| 0 <= i < 11 ==> (#[trigger] per_roll[i]).0 == roll_at(i)
}

/// `after` is `before` with a bet appended for `roll`: the totals are kept; a per-roll table
/// of another length than eleven is first rebuilt; the bet joins the first entry for the roll.
/// On a table with one entry per roll in board order, the bet joins that roll's entry.
pub open spec fn appended(
    before: AccountModel,
    roll: Roll,
    placement: AccountBetPlacement,
    after: AccountModel,
) -> bool {
    &&& same_totals(after, before)
    &&& after.per_roll_bets == with_bet(template_of(before).per_roll_bets, roll, placement)
    &&& is_template_model(before.per_roll_bets) ==> after.per_roll_bets == before.per_roll_bets.update(
        crate::types::roll_index(roll),
        (roll, before.per_roll_bets[crate::types::roll_index(roll)].1.push(placement)),
    )
}

proof fn lemma_with_bet_at(
    m: Seq<(Roll, Seq<AccountBetPlacement>)>,
    roll: Roll,
    placement: AccountBetPlacement,
    pos: int,
)
    requires
        0 <= pos < m.len(),
        m[pos].0 == roll,
        forall|j: int| 0 <= j < pos ==> m[j].0 != roll,
    ensures
        with_bet(m, roll, placement) == m.update(pos, (roll, m[pos].1.push(placement))),
{
    assert(exists|i: int| 0 <= i < m.len() && m[i].0 == roll);
    let k = choose|i: int|
        0 <= i < m.len() && m[i].0 == roll && forall|j: int| 0 <= j < i ==> m[j].0 != roll;
    assert(0 <= k < m.len() && m[k].0 == roll && forall|j: int| 0 <= j < k ==> m[j].0 != roll);
    if k < pos {
        assert(m[k].0 != roll);
    } else if k > pos {
        assert(m[pos].0 != roll);
    }
}

proof fn lemma_with_bet_template(
    m: Seq<(Roll, Seq<AccountBetPlacement>)>,
    roll: Roll,
    placement: AccountBetPlacement,
)
    requires
        is_template_model(m),
    ensures
        with_bet(m, roll, placement) == m.update(
            crate::types::roll_index(roll),
            (roll, m[crate::types::roll_index(roll)].1.push(placement)),
        ),
{
    let ri = crate::types::roll_index(roll);
    crate::types::lemma_roll_index_roundtrip(roll, ri);
    assert(m[ri].0 == roll);
    assert forall|j: int| 0 <= j < ri implies m[j].0 != roll by {
        crate::types::lemma_roll_index_roundtrip(roll, j);
    }
    lemma_with_bet_at(m, roll, placement, ri);
}

/// Appends a bet to the account's entry for `roll`, after making sure the per-roll table
/// has eleven entries.
pub fn append_bet_to_account(snapshot: &mut AccountSnapshot, roll: Roll, placement: AccountBetPlacement)
    ensures
        appended(old(snapshot)@, roll, placement, final(snapshot)@),
{
    ensure_account_roll_template(snapshot);
    let ghost mid = snapshot@.per_roll_bets;
    match find_roll_entry(&snapshot.per_roll_bets, &roll) {
        Some(pos) => {
            snapshot.per_roll_bets[pos].bets.push(placement);
            proof {
                lemma_with_bet_at(mid, roll, placement, pos as int);
                assert(snapshot@.per_roll_bets =~= with_bet(mid, roll, placement));
            }
        },
        None => {
            proof {
                assert(!(exists|i: int| 0 <= i < mid.len() && mid[i].0 == roll));
            }
        },
    }
    proof {
        let before = old(snapshot)@;
        if is_template_model(before.per_roll_bets) {
            lemma_with_bet_template(before.per_roll_bets, roll, placement);
        }
    }
}

} // verus!
