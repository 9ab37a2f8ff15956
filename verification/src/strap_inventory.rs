//! The player's straps as the client lists them: merged per strap, grouped by kind in
//! catalogue order, each group ordered by level and modifier; and the short summary of the
//! lowest straps the board shows.
use vstd::prelude::*;
use crate::client_state::{kind_rank, modifier_order_value, modifier_rank, strap_kind_order_value};
use crate::types::{Modifier, Strap, StrapKind};

verus! {

/// The strap kinds in catalogue order.
pub open spec fn kind_in_catalogue(k: int) -> StrapKind {
    if k == 0 {
        StrapKind::Shirt
    } else if k == 1 {
        StrapKind::Pants
    } else if k == 2 {
        StrapKind::Shoes
    } else if k == 3 {
        StrapKind::Dress
    } else if k == 4 {
        StrapKind::Hat
    } else if k == 5 {
        StrapKind::Glasses
    } else if k == 6 {
        StrapKind::Watch
    } else if k == 7 {
        StrapKind::Ring
    } else if k == 8 {
        StrapKind::Necklace
    } else if k == 9 {
        StrapKind::Earring
    } else if k == 10 {
        StrapKind::Bracelet
    } else if k == 11 {
        StrapKind::Tattoo
    } else if k == 12 {
        StrapKind::Skirt
    } else if k == 13 {
        StrapKind::Piercing
    } else if k == 14 {
        StrapKind::Coat
    } else if k == 15 {
        StrapKind::Scarf
    } else if k == 16 {
        StrapKind::Gloves
    } else if k == 17 {
        StrapKind::Gown
    } else {
        StrapKind::Belt
    }
}

fn catalogue_kind(k: usize) -> (kind: StrapKind)
    requires
        k < 19,
    ensures
        kind == kind_in_catalogue(k as int),
        kind_rank(kind) == k,
{
    if k == 0 {
        StrapKind::Shirt
    } else if k == 1 {
        StrapKind::Pants
    } else if k == 2 {
        StrapKind::Shoes
    } else if k == 3 {
        StrapKind::Dress
    } else if k == 4 {
        StrapKind::Hat
    } else if k == 5 {
        StrapKind::Glasses
    } else if k == 6 {
        StrapKind::Watch
    } else if k == 7 {
        StrapKind::Ring
    } else if k == 8 {
        StrapKind::Necklace
    } else if k == 9 {
        StrapKind::Earring
    } else if k == 10 {
        StrapKind::Bracelet
    } else if k == 11 {
        StrapKind::Tattoo
    } else if k == 12 {
        StrapKind::Skirt
    } else if k == 13 {
        StrapKind::Piercing
    } else if k == 14 {
        StrapKind::Coat
    } else if k == 15 {
        StrapKind::Scarf
    } else if k == 16 {
        StrapKind::Gloves
    } else if k == 17 {
        StrapKind::Gown
    } else {
        StrapKind::Belt
    }
}

/// A tally with `amount` more of `strap`: its first entry grows (saturating), or a new
/// entry is appended.
pub open spec fn add_owned(t: Seq<(Strap, u64)>, strap: Strap, amount: u64) -> Seq<(Strap, u64)> {
    if exists|i: int| 0 <= i < t.len() && t[i].0 == strap {
        let i = choose|i: int| 0 <= i < t.len() && t[i].0 == strap;
        t.update(
            i,
            (
                strap,
                if t[i].1 + amount > u64::MAX {
                    u64::MAX
                } else {
                    (t[i].1 + amount) as u64
                },
            ),
        )
    } else {
        t.push((strap, amount))
    }
}

/// The owned straps merged per strap, in order of first appearance; with `only`, just the
/// straps of that kind.
pub open spec fn tallied(owned: Seq<(Strap, u64)>, only: Option<StrapKind>) -> Seq<(Strap, u64)>
    decreases owned.len(),
{
    if owned.len() == 0 {
        Seq::empty()
    } else {
        let t = tallied(owned.drop_last(), only);
        let (strap, amount) = owned.last();
        if only is None || only == Some(strap.kind) {
            add_owned(t, strap, amount)
        } else {
            t
        }
    }
}

/// A strap's place in the listings: by level, then kind, then modifier.
pub open spec fn strap_key(s: Strap) -> int {
    s.level * 400 + kind_rank(s.kind) * 20 + modifier_rank(s.modifier)
}

/// Ordered by strictly increasing key.
pub open spec fn ordered_by_key(s: Seq<(Strap, u64)>) -> bool {
    forall|i: int, j: int| 0 <= i < j < s.len() ==> strap_key(s[i].0) < strap_key(s[j].0)
}

/// `r` holds the entries of `t`, ordered by key.
pub open spec fn sorted_of(r: Seq<(Strap, u64)>, t: Seq<(Strap, u64)>) -> bool {
    &&& r.len() == t.len()
    &&& r.to_set() == t.to_set()
    &&& ordered_by_key(r)
}

/// The entries of `t` ordered by key (there is one such order when no two entries share
/// a strap).
pub open spec fn key_sorted(t: Seq<(Strap, u64)>) -> Seq<(Strap, u64)> {
    choose|r: Seq<(Strap, u64)>| sorted_of(r, t)
}

proof fn lemma_sorted_unique(a: Seq<(Strap, u64)>, b: Seq<(Strap, u64)>)
    requires
        ordered_by_key(a),
        ordered_by_key(b),
        a.to_set() == b.to_set(),
        a.len() == b.len(),
    ensures
        a == b,
    decreases a.len(),
{
    if a.len() > 0 {
        assert(a.to_set().contains(a[0]));
        assert(b.to_set().contains(b[0]));
        let j = choose|j: int| 0 <= j < b.len() && b[j] == a[0];
        let i = choose|i: int| 0 <= i < a.len() && a[i] == b[0];
        if i > 0 {
            assert(strap_key(a[0].0) < strap_key(a[i].0));
            if j > 0 {
                assert(strap_key(b[0].0) < strap_key(b[j].0));
            }
        }
        assert(a[0] == b[0]);
        let ra = a.drop_first();
        let rb = b.drop_first();
        assert forall|k: int, l: int| 0 <= k < l < ra.len() implies strap_key(ra[k].0) < strap_key(ra[l].0) by {
            assert(ra[k] == a[k + 1] && ra[l] == a[l + 1]);
        }
        assert forall|k: int, l: int| 0 <= k < l < rb.len() implies strap_key(rb[k].0) < strap_key(rb[l].0) by {
            assert(rb[k] == b[k + 1] && rb[l] == b[l + 1]);
        }
        assert forall|x: (Strap, u64)| ra.to_set().contains(x) implies rb.to_set().contains(x) by {
            let k = choose|k: int| 0 <= k < ra.len() && ra[k] == x;
            assert(a[k + 1] == x);
            assert(a.to_set().contains(x));
            assert(b.to_set().contains(x));
            let m = choose|m: int| 0 <= m < b.len() && b[m] == x;
            if m == 0 {
                assert(strap_key(a[0].0) < strap_key(a[k + 1].0));
            } else {
                assert(rb[m - 1] == x);
            }
        }
        assert forall|x: (Strap, u64)| rb.to_set().contains(x) implies ra.to_set().contains(x) by {
            let k = choose|k: int| 0 <= k < rb.len() && rb[k] == x;
            assert(b[k + 1] == x);
            assert(b.to_set().contains(x));
            assert(a.to_set().contains(x));
            let m = choose|m: int| 0 <= m < a.len() && a[m] == x;
            if m == 0 {
                assert(strap_key(b[0].0) < strap_key(b[k + 1].0));
            } else {
                assert(ra[m - 1] == x);
            }
        }
        assert(ra.to_set() =~= rb.to_set());
        lemma_sorted_unique(ra, rb);
        assert(a =~= seq![a[0]] + ra);
        assert(b =~= seq![b[0]] + rb);
    }
}

/// A sorted order of `t` is the one `key_sorted` names.
proof fn lemma_key_sorted(r: Seq<(Strap, u64)>, t: Seq<(Strap, u64)>)
    requires
        sorted_of(r, t),
    ensures
        key_sorted(t) == r,
{
    let c = key_sorted(t);
    assert(sorted_of(c, t));
    lemma_sorted_unique(c, r);
}

/// The sum of the amounts.
pub open spec fn amount_sum(s: Seq<(Strap, u64)>) -> int
    decreases s.len(),
{
    if s.len() == 0 {
        0
    } else {
        amount_sum(s.drop_last()) + s.last().1
    }
}

/// No strap has two entries.
pub open spec fn distinct_straps(t: Seq<(Strap, u64)>) -> bool {
    forall|i: int, j: int| 0 <= i < j < t.len() ==> t[i].0 != t[j].0
}

proof fn lemma_key_injective(a: Strap, b: Strap)
    requires
        strap_key(a) == strap_key(b),
    ensures
        a == b,
{
    let ra = kind_rank(a.kind) * 20 + modifier_rank(a.modifier);
    let rb = kind_rank(b.kind) * 20 + modifier_rank(b.modifier);
    assert(0 <= ra < 400 && 0 <= rb < 400);
    assert(a.level == b.level && ra == rb) by (nonlinear_arith)
        requires
            a.level * 400 + ra == b.level * 400 + rb,
            0 <= ra < 400,
            0 <= rb < 400,
    ;
    assert(kind_rank(a.kind) == kind_rank(b.kind) && modifier_rank(a.modifier) == modifier_rank(b.modifier)) by (nonlinear_arith)
        requires
            kind_rank(a.kind) * 20 + modifier_rank(a.modifier) == kind_rank(b.kind) * 20 + modifier_rank(b.modifier),
            0 <= modifier_rank(a.modifier) < 20,
            0 <= modifier_rank(b.modifier) < 20,
    ;
    assert(a.kind == b.kind) by {
        match a.kind {
            StrapKind::Shirt => {},
            StrapKind::Pants => {},
            StrapKind::Shoes => {},
            StrapKind::Dress => {},
            StrapKind::Hat => {},
            StrapKind::Glasses => {},
            StrapKind::Watch => {},
            StrapKind::Ring => {},
            StrapKind::Necklace => {},
            StrapKind::Earring => {},
            StrapKind::Bracelet => {},
            StrapKind::Tattoo => {},
            StrapKind::Skirt => {},
            StrapKind::Piercing => {},
            StrapKind::Coat => {},
            StrapKind::Scarf => {},
            StrapKind::Gloves => {},
            StrapKind::Gown => {},
            StrapKind::Belt => {},
        }
    }
    assert(a.modifier == b.modifier) by {
        match a.modifier {
            Modifier::Nothing => {},
            Modifier::Burnt => {},
            Modifier::Lucky => {},
            Modifier::Holy => {},
            Modifier::Holey => {},
            Modifier::Scotch => {},
            Modifier::Soaked => {},
            Modifier::Moldy => {},
            Modifier::Starched => {},
            Modifier::Evil => {},
            Modifier::Groovy => {},
            Modifier::Delicate => {},
        }
    }
}

proof fn lemma_tallied_distinct(owned: Seq<(Strap, u64)>, only: Option<StrapKind>)
    ensures
        distinct_straps(tallied(owned, only)),
        forall|i: int| 0 <= i < tallied(owned, only).len() ==> (only is None || only == Some(
            #[trigger] tallied(owned, only)[i].0.kind,
        )),
    decreases owned.len(),
{
    if owned.len() > 0 {
        lemma_tallied_distinct(owned.drop_last(), only);
    }
}

/// Merges the owned straps, keeping only those of kind `only` when it is given.
fn tally(owned: &Vec<(Strap, u64)>, only: Option<StrapKind>) -> (r: Vec<(Strap, u64)>)
    ensures
        r@ == tallied(owned@, only),
{
    let mut t: Vec<(Strap, u64)> = Vec::new();
    let mut i: usize = 0;
    while i < owned.len()
        invariant
            i <= owned@.len(),
            t@ == tallied(owned@.take(i as int), only),
        decreases owned@.len() - i,
    {
        let (strap, amount) = owned[i];
        proof {
            assert(owned@.take(i + 1).drop_last() =~= owned@.take(i as int));
            assert(owned@.take(i + 1).last() == owned@[i as int]);
        }
        let keep = match only {
            None => true,
            Some(k) => k == strap.kind,
        };
        if keep {
            let mut j: usize = 0;
            let mut found = false;
            while j < t.len()
                invariant_except_break
                    !found,
                invariant
                    j <= t@.len(),
                    forall|k: int| 0 <= k < j ==> t@[k].0 != strap,
                ensures
                    found ==> j < t@.len() && t@[j as int].0 == strap,
                    !found ==> forall|k: int| 0 <= k < t@.len() ==> t@[k].0 != strap,
                decreases t@.len() - j,
            {
                if t[j].0 == strap {
                    found = true;
                    break;
                }
                j = j + 1;
            }
            let ghost before = t@;
            if found {
                proof {
                    lemma_tallied_distinct(owned@.take(i as int), only);
                    let c = choose|c: int| 0 <= c < before.len() && before[c].0 == strap;
                    if c != j {
                        if c < j {
                            assert(before[c].0 != strap);
                        } else {
                            assert(before[j as int].0 != before[c].0);
                        }
                    }
                }
                let total = t[j].1.saturating_add(amount);
                t.set(j, (strap, total));
            } else {
                t.push((strap, amount));
            }
        }
        i = i + 1;
    }
    proof {
        assert(owned@.take(owned@.len() as int) =~= owned@);
    }
    t
}

fn key_of(s: &Strap) -> (k: u32)
    ensures
        k == strap_key(*s),
{
    let kind = strap_kind_order_value(&s.kind) as u32;
    let modifier = modifier_order_value(&s.modifier) as u32;
    (s.level as u32) * 400 + kind * 20 + modifier
}

proof fn lemma_to_set_insert(s: Seq<(Strap, u64)>, pos: int, x: (Strap, u64))
    requires
        0 <= pos <= s.len(),
    ensures
        s.insert(pos, x).to_set() == s.to_set().insert(x),
{
    let r = s.insert(pos, x);
    assert forall|y: (Strap, u64)| r.to_set().contains(y) implies s.to_set().insert(x).contains(y) by {
        let k = choose|k: int| 0 <= k < r.len() && r[k] == y;
        if k < pos {
            assert(s[k] == y);
        } else if k > pos {
            assert(s[k - 1] == y);
        }
    }
    assert forall|y: (Strap, u64)| s.to_set().insert(x).contains(y) implies r.to_set().contains(y) by {
        if y == x {
            assert(r[pos] == x);
        } else {
            let k = choose|k: int| 0 <= k < s.len() && s[k] == y;
            if k < pos {
                assert(r[k] == y);
            } else {
                assert(r[k + 1] == y);
            }
        }
    }
    assert(r.to_set() =~= s.to_set().insert(x));
}

/// Orders entries of distinct straps by key.
fn sort_by_key(t: Vec<(Strap, u64)>) -> (r: Vec<(Strap, u64)>)
    requires
        distinct_straps(t@),
    ensures
        sorted_of(r@, t@),
{
    let mut sorted: Vec<(Strap, u64)> = Vec::new();
    let mut i: usize = 0;
    while i < t.len()
        invariant
            i <= t@.len(),
            distinct_straps(t@),
            sorted@.len() == i,
            sorted@.to_set() == t@.take(i as int).to_set(),
            ordered_by_key(sorted@),
        decreases t@.len() - i,
    {
        let x = t[i];
        let kx = key_of(&x.0);
        let mut pos: usize = sorted.len();
        while pos > 0 && key_of(&sorted[pos - 1].0) > kx
            invariant
                pos <= sorted@.len(),
                kx == strap_key(x.0),
                forall|j: int| pos <= j < sorted@.len() ==> strap_key((#[trigger] sorted@[j]).0) > strap_key(x.0),
            decreases pos,
        {
            pos = pos - 1;
        }
        proof {
            if pos > 0 {
                let y = sorted@[pos - 1];
                assert(sorted@.to_set().contains(y));
                assert(t@.take(i as int).to_set().contains(y));
                let k = choose|k: int| 0 <= k < i && t@.take(i as int)[k] == y;
                assert(t@[k] == y);
                assert(t@[k].0 != t@[i as int].0);
                if strap_key(y.0) == strap_key(x.0) {
                    lemma_key_injective(y.0, x.0);
                }
            }
            lemma_to_set_insert(sorted@, pos as int, x);
            assert(t@.take(i + 1) =~= t@.take(i as int).push(x));
            lemma_to_set_insert(t@.take(i as int), i as int, x);
            assert(t@.take(i as int).insert(i as int, x) =~= t@.take(i as int).push(x));
        }
        let ghost before = sorted@;
        sorted.insert(pos, x);
        proof {
            assert forall|a: int, b: int| 0 <= a < b < sorted@.len() implies strap_key(sorted@[a].0) < strap_key(
                sorted@[b].0,
            ) by {
                if b < pos {
                    assert(sorted@[a] == before[a] && sorted@[b] == before[b]);
                } else if b == pos {
                    assert(sorted@[a] == before[a]);
                    assert(strap_key(before[pos - 1].0) < strap_key(x.0));
                    if a < pos - 1 {
                        assert(strap_key(before[a].0) < strap_key(before[pos - 1].0));
                    }
                } else if a < pos {
                    assert(sorted@[a] == before[a] && sorted@[b] == before[b - 1]);
                } else if a == pos {
                    assert(sorted@[b] == before[b - 1]);
                } else {
                    assert(sorted@[a] == before[a - 1] && sorted@[b] == before[b - 1]);
                }
            }
        }
        i = i + 1;
    }
    proof {
        assert(t@.take(t@.len() as int) =~= t@);
    }
    sorted
}

fn sum_amounts(t: &Vec<(Strap, u64)>) -> (s: u64)
    requires
        amount_sum(t@) <= u64::MAX,
    ensures
        s == amount_sum(t@),
{
    let mut s: u64 = 0;
    let mut i: usize = 0;
    while i < t.len()
        invariant
            i <= t@.len(),
            s == amount_sum(t@.take(i as int)),
            amount_sum(t@) <= u64::MAX,
        decreases t@.len() - i,
    {
        proof {
            assert(t@.take(i + 1).drop_last() =~= t@.take(i as int));
            lemma_amount_sum_prefix(t@, i + 1);
        }
        s = s + t[i].1;
        i = i + 1;
    }
    proof {
        assert(t@.take(t@.len() as int) =~= t@);
    }
    s
}

proof fn lemma_amount_sum_prefix(t: Seq<(Strap, u64)>, n: int)
    requires
        0 <= n <= t.len(),
    ensures
        amount_sum(t.take(n)) <= amount_sum(t),
    decreases t.len() - n,
{
    if n < t.len() {
        lemma_amount_sum_prefix(t, n + 1);
        assert(t.take(n + 1).drop_last() =~= t.take(n));
    } else {
        assert(t.take(n) =~= t);
    }
}

/// The straps of one kind the player owns.
#[derive(Clone, Debug, PartialEq, Eq)]
pub struct StrapKindRow {
    pub kind: StrapKind,
    pub total: u64,
    pub entries: Vec<(Strap, u64)>,
}

/// The player's straps by kind, one row per kind in catalogue order: each row holds the
/// straps of its kind merged per strap and ordered by level and modifier, and their total.
pub fn aggregate_owned_straps_by_kind(owned: &Vec<(Strap, u64)>) -> (rows: Vec<StrapKindRow>)
    requires
        forall|k: int| 0 <= k < 19 ==> amount_sum(#[trigger] tallied(owned@, Some(kind_in_catalogue(k)))) <= u64::MAX,
    ensures
        rows@.len() == 19,
        forall|k: int|
            0 <= k < 19 ==> {
                let t = tallied(owned@, Some(kind_in_catalogue(k)));
                &&& (#[trigger] rows@[k]).kind == kind_in_catalogue(k)
                &&& rows@[k].total == amount_sum(t)
                &&& rows@[k].entries@ == key_sorted(t)
            },
{
    let mut rows: Vec<StrapKindRow> = Vec::new();
    let mut k: usize = 0;
    while k < 19
        invariant
            k <= 19,
            rows@.len() == k,
            forall|k: int| 0 <= k < 19 ==> amount_sum(#[trigger] tallied(owned@, Some(kind_in_catalogue(k)))) <= u64::MAX,
            forall|j: int|
                0 <= j < k ==> {
                    let t = tallied(owned@, Some(kind_in_catalogue(j)));
                    &&& (#[trigger] rows@[j]).kind == kind_in_catalogue(j)
                    &&& rows@[j].total == amount_sum(t)
                    &&& rows@[j].entries@ == key_sorted(t)
                },
        decreases 19 - k,
    {
        let kind = catalogue_kind(k);
        let t = tally(owned, Some(kind));
        assert(amount_sum(tallied(owned@, Some(kind_in_catalogue(k as int)))) <= u64::MAX);
        let total = sum_amounts(&t);
        proof {
            lemma_tallied_distinct(owned@, Some(kind));
        }
        let ghost tv = t@;
        let entries = sort_by_key(t);
        proof {
            lemma_key_sorted(entries@, tv);
        }
        rows.push(StrapKindRow { kind, total, entries });
        k = k + 1;
    }
    rows
}

/// How many straps the board's summary shows.
pub const SUMMARY_LENGTH: usize = 3;

/// The board's summary of the player's straps: the `SUMMARY_LENGTH` lowest of them (by
/// level, kind, then modifier), merged per strap and in that order, and whether more are
/// owned. An empty list means the player owns none.
pub fn owned_strap_summary(owned: &Vec<(Strap, u64)>) -> (r: (Vec<(Strap, u64)>, bool))
    ensures
        ({
            let t = tallied(owned@, None);
            &&& r.1 == (t.len() > SUMMARY_LENGTH)
            &&& r.0@ == if t.len() > SUMMARY_LENGTH {
                key_sorted(t).take(SUMMARY_LENGTH as int)
            } else {
                key_sorted(t)
            }
        }),
{
    let t = tally(owned, None);
    proof {
        lemma_tallied_distinct(owned@, None);
    }
    let ghost tv = t@;
    let mut sorted = sort_by_key(t);
    proof {
        lemma_key_sorted(sorted@, tv);
    }
    let more = sorted.len() > SUMMARY_LENGTH;
    sorted.truncate(SUMMARY_LENGTH);
    (sorted, more)
}

} // verus!
